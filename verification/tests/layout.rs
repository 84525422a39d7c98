use lib::flex::{
    calculate_offset, calculate_sizing, debug_draw_widgets, draw_widgets, flex, h, rect,
    Container, Defer, DeferContainer, DeferFlex, FlexDirection, Padding,
};
use lib::softui::{Color, Primative, Rect, Widget};

fn two_rects() -> Vec<(Rect, Primative)> {
    let a = rect().wh(300usize);
    let b = rect().w(300usize).h(200usize);
    vec![(a.area(), a.primative()), (b.area(), b.primative())]
}

fn sized(width: usize, height: usize) -> (Rect, Primative) {
    (Rect::new(0, 0, width, height), Primative::RectangleOutline(Color(7)))
}

#[test]
fn flex_basic_two_rect() {
    let mut container = DeferContainer {
        f: |padding: Padding, gap: usize| h(two_rects(), padding, gap),
        padding: Padding::default(),
        gap: 0,
    }
    .gap(32)
    .call();
    assert!(container.area.width == 632);
    assert!(container.area.height == 300);
    assert!(container.widgets.len() == 2);

    let gap = 32;
    let mut offset = gap;
    let mut debug = Vec::new();
    debug_draw_widgets(&mut debug, &mut container, FlexDirection::LeftRight, &mut offset, gap);

    assert!(debug[0].0.x == 32);
    assert!(debug[1].0.x == 32 + 300 + 32);

    let flex = DeferFlex {
        f: |direction: FlexDirection, padding: Padding, gap: usize| {
            let inner = DeferContainer {
                f: |padding: Padding, gap: usize| h(two_rects(), padding, gap),
                padding: Padding::default(),
                gap: 0,
            }
            .gap(32)
            .call();
            flex(vec![inner], direction, padding, gap).0
        },
        direction: FlexDirection::LeftRight,
        padding: Padding::default(),
        gap: 0,
    }
    .padding(32)
    .gap(32)
    .call();

    assert!(flex.width == 632);
    assert!(flex.height == 300);
}

#[test]
fn grow_basic_two_rect() {
    let container = lib::grow::h(two_rects());
    assert!(container.area.width == 632);
    assert!(container.area.height == 300);
    assert!(container.widgets.len() == 2)
}

#[test]
fn offset_follows_direction() {
    let padding = Padding::new(1, 2, 3, 4);
    assert_eq!(calculate_offset(FlexDirection::LeftRight, padding), 1);
    assert_eq!(calculate_offset(FlexDirection::RightLeft, padding), 3);
    assert_eq!(calculate_offset(FlexDirection::TopBottom, padding), 2);
    assert_eq!(calculate_offset(FlexDirection::BottomTop, padding), 4);
}

#[test]
fn padding_from_tuple_and_default() {
    let p: Padding = (1, 2, 3, 4).into();
    assert_eq!((p.left, p.top, p.right, p.bottom), (1, 2, 3, 4));
    let d = Padding::default();
    assert_eq!((d.left, d.top, d.right, d.bottom), (0, 0, 0, 0));
    assert!(matches!(FlexDirection::default(), FlexDirection::LeftRight));
}

#[test]
fn sizing_adds_widths_and_keeps_tallest() {
    let mut container = Container { widgets: Vec::new(), area: Rect::new(5, 6, 100, 40) };
    let mut area = Rect::new(1, 2, 10, 50);
    calculate_sizing(&mut container, &mut area, FlexDirection::LeftRight);
    assert_eq!(area, Rect::new(1, 2, 110, 50));
    let mut taller = Container { widgets: Vec::new(), area: Rect::new(0, 0, 5, 80) };
    calculate_sizing(&mut taller, &mut area, FlexDirection::LeftRight);
    assert_eq!(area, Rect::new(1, 2, 115, 80));
    assert_eq!(container.area, Rect::new(5, 6, 100, 40));
}

#[test]
fn h_of_one_widget_has_no_gap() {
    let c = h(vec![sized(20, 15)], Padding::default(), 10);
    assert_eq!(c.area, Rect::new(0, 0, 20, 15));
}

#[test]
fn h_sums_widths_and_gaps() {
    let c = h(vec![sized(20, 15), sized(30, 5), sized(40, 25)], Padding::new(9, 9, 9, 9), 10);
    assert_eq!(c.area, Rect::new(0, 0, 20 + 10 + 30 + 10 + 40, 25));
    assert_eq!(c.widgets.len(), 3);
    assert_eq!(c.widgets[1].0, Rect::new(0, 0, 30, 5));
}

#[test]
fn three_items_with_gap_start_apart() {
    let mut c = h(vec![sized(20, 20), sized(20, 20), sized(20, 20)], Padding::default(), 10);
    let mut offset = 0;
    let draws = draw_widgets(&mut c, FlexDirection::LeftRight, &mut offset, 10);
    let xs: Vec<usize> = draws.iter().map(|d| d.0.x).collect();
    assert_eq!(xs, vec![0, 30, 60]);
    assert_eq!(offset, 90);
}

#[test]
fn draw_widgets_keeps_sizes_and_primatives() {
    let mut c = Container {
        widgets: vec![
            (Rect::new(7, 8, 10, 11), Primative::Ellipse(3, Color(1))),
            (Rect::new(9, 9, 5, 6), Primative::Text("hi".to_string(), 12, Color(2))),
        ],
        area: Rect::default(),
    };
    let mut offset = 4;
    let draws = draw_widgets(&mut c, FlexDirection::LeftRight, &mut offset, 2);
    assert_eq!(draws[0].0, Rect::new(4, 8, 10, 11));
    assert_eq!(draws[1].0, Rect::new(16, 9, 5, 6));
    assert!(matches!(draws[0].1, Primative::Ellipse(3, Color(1))));
    match &draws[1].1 {
        Primative::Text(text, size, color) => {
            assert_eq!(text, "hi");
            assert_eq!(*size, 12);
            assert_eq!(*color, Color(2));
        },
        _ => panic!("expected a text"),
    }
    assert_eq!(offset, 4 + 10 + 2 + 5 + 2);
    assert_eq!(c.widgets[0].0, Rect::new(7, 8, 10, 11));
}

#[test]
fn draw_widgets_of_no_widgets_draws_nothing() {
    let mut c = Container { widgets: Vec::new(), area: Rect::default() };
    let mut offset = 12;
    let draws = draw_widgets(&mut c, FlexDirection::LeftRight, &mut offset, 5);
    assert!(draws.is_empty());
    assert_eq!(offset, 12);
}

#[test]
fn debug_draw_widgets_appends() {
    let mut c = h(vec![sized(10, 1), sized(20, 2)], Padding::default(), 3);
    let mut debug = vec![(Rect::new(1, 1, 1, 1), Primative::RectangleOutline(Color(0)))];
    let mut offset = 100;
    debug_draw_widgets(&mut debug, &mut c, FlexDirection::LeftRight, &mut offset, 3);
    assert_eq!(debug.len(), 3);
    assert_eq!(debug[0].0, Rect::new(1, 1, 1, 1));
    assert_eq!(debug[1].0.x, 100);
    assert_eq!(debug[2].0.x, 113);
    assert_eq!(offset, 136);
}

#[test]
fn placed_row_leaves_exact_gaps_and_no_overlap() {
    let mut c = h(vec![sized(11, 4), sized(7, 9), sized(13, 2)], Padding::default(), 6);
    let mut offset = 50;
    let draws = draw_widgets(&mut c, FlexDirection::LeftRight, &mut offset, 6);
    for i in 0..draws.len() - 1 {
        assert_eq!(draws[i + 1].0.x, draws[i].0.right() + 6);
    }
    for i in 0..draws.len() {
        for j in 0..draws.len() {
            if i != j {
                assert!(!draws[i].0.intersects(draws[j].0));
            }
        }
    }
    // The row covers exactly the width of its container.
    assert_eq!(draws[2].0.right(), 50 + c.area.width);
    assert_eq!(offset, 50 + c.area.width + 6);
}

#[test]
fn flex_lays_containers_side_by_side() {
    let first = h(vec![sized(10, 5), sized(20, 8)], Padding::default(), 4);
    let second = h(vec![sized(7, 12)], Padding::default(), 4);
    let (area, draws) = flex(vec![first, second], FlexDirection::LeftRight, Padding::new(3, 0, 0, 0), 2);
    assert_eq!(area, Rect::new(0, 0, 34 + 7, 12));
    let xs: Vec<usize> = draws.iter().map(|d| d.0.x).collect();
    assert_eq!(xs, vec![3, 15, 37]);
}

#[test]
fn flex_of_no_containers_is_empty() {
    let (area, draws) = flex(Vec::new(), FlexDirection::LeftRight, Padding::new(5, 5, 5, 5), 2);
    assert_eq!(area, Rect::default());
    assert!(draws.is_empty());
}

#[test]
fn defer_flex_builders() {
    let d = DeferFlex {
        f: |direction: FlexDirection, padding: Padding, gap: usize| {
            Rect::new(calculate_offset(direction, padding), 0, gap, 0)
        },
        direction: FlexDirection::LeftRight,
        padding: Padding::default(),
        gap: 0,
    };
    let d = d.direction(FlexDirection::RightLeft).padding(9).gap(4);
    assert!(matches!(d.direction, FlexDirection::RightLeft));
    assert_eq!((d.padding.left, d.padding.top, d.padding.right, d.padding.bottom), (9, 9, 9, 9));
    assert_eq!(d.gap, 4);
    assert_eq!(d.call(), Rect::new(9, 0, 4, 0));
}

#[test]
fn defer_container_builders() {
    let d = DeferContainer {
        f: |padding: Padding, gap: usize| Container {
            widgets: Vec::new(),
            area: Rect::new(padding.left, padding.top, gap, 0),
        },
        padding: Padding::default(),
        gap: 0,
    }
    .padding(2)
    .gap(8);
    assert_eq!(d.gap, 8);
    assert_eq!(d.padding.bottom, 2);
    assert_eq!(d.call().area, Rect::new(2, 2, 8, 0));
}

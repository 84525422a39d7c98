use lib::flex::{rect, Container, Padding};
use lib::grow::{draw_call, grow, grow2, FlexDirection};
use lib::smallvec::{SmallVec, TaggedLen};
use lib::softui::{Color, MouseButton, Primative, Rect, Unit, Widget};
use lib::{header, Header};

#[test]
fn rect_edges() {
    let r = Rect::new(3, 4, 10, 20);
    assert_eq!((r.x, r.y, r.width, r.height), (3, 4, 10, 20));
    assert_eq!(r.right(), 13);
    assert_eq!(r.bottom(), 24);
    assert_eq!(Rect::default(), Rect::new(0, 0, 0, 0));
}

#[test]
fn rect_intersections() {
    let a = Rect::new(0, 0, 10, 10);
    assert!(a.intersects(Rect::new(5, 5, 10, 10)));
    assert!(Rect::new(5, 5, 10, 10).intersects(a));
    assert!(!a.intersects(Rect::new(10, 0, 5, 5)));
    assert!(!a.intersects(Rect::new(0, 10, 5, 5)));
    assert!(!a.intersects(Rect::new(20, 20, 5, 5)));
    assert!(a.intersects(Rect::new(2, 2, 1, 1)));
}

#[test]
fn rect_inner() {
    let r = Rect::new(10, 20, 100, 50);
    assert_eq!(r.inner(5, 2), Rect::new(15, 22, 90, 46));
    assert_eq!(r.inner(50, 25), Rect::new(60, 45, 0, 0));
}

#[test]
fn rect_closure_is_identity() {
    let r = Rect::new(1, 2, 3, 4);
    let f = r.closure();
    assert_eq!(f(Rect::new(9, 8, 7, 6)), Rect::new(9, 8, 7, 6));
}

#[test]
fn unit_from_usize_is_pixels() {
    let u: Unit = 17usize.into();
    assert!(matches!(u, Unit::Px(17)));
}

#[test]
fn rect_builders() {
    let r = Rect::default().x(3usize).y(4usize).width(5usize).height(6usize);
    assert_eq!(r, Rect::new(3, 4, 5, 6));
    let r = r.left(7usize).top(8usize).w(9usize).h(10usize);
    assert_eq!(r, Rect::new(7, 8, 9, 10));
    assert_eq!(Rect::default().wh(12usize), Rect::new(0, 0, 12, 12));
    assert_eq!(Rect::default().pos(1usize, 2usize, 3usize, 4usize), Rect::new(1, 2, 3, 4));
    assert!(!Rect::is_container());
}

#[test]
fn rectangle_builders_keep_style() {
    let r = rect().padding((1, 2, 3, 4)).bg(Color(0xff)).pos(5usize, 6usize, 7usize, 8usize);
    assert_eq!(r.area(), Rect::new(5, 6, 7, 8));
    assert!(matches!(r.primative(), Primative::Ellipse(0, Color(0xff))));
    let plain = rect();
    assert_eq!(plain.area(), Rect::default());
    assert!(matches!(plain.primative(), Primative::Ellipse(0, Color(0))));
    let copy = r.clone();
    assert_eq!(copy.area(), r.area());
}

#[test]
fn area_mut_changes_the_area() {
    let mut r = rect().wh(4usize);
    if let Some(area) = r.area_mut() {
        area.x = 9;
    }
    assert_eq!(r.area(), Rect::new(9, 0, 4, 4));
}

#[test]
fn container_is_a_widget() {
    assert!(Container::is_container());
    let c = Container { widgets: Vec::new(), area: Rect::default() }.x(4usize).wh(6usize);
    assert_eq!(c.area(), Rect::new(4, 0, 6, 6));
}

#[test]
fn header_widget() {
    let h: Header = header();
    assert_eq!(h.title, "title");
    assert_eq!(h.area(), Rect::default());
    match h.primative() {
        Primative::Text(text, size, color) => {
            assert!(text.is_empty());
            assert_eq!(size, 0);
            assert_eq!(color, Color(0));
        },
        _ => panic!("expected a text"),
    }
    let moved = h.clone().x(40usize);
    assert_eq!(moved.area(), Rect::new(40, 0, 0, 0));
    assert_eq!(moved.title, "title");
}

#[test]
fn primative_names_and_clones() {
    assert_eq!(Primative::Ellipse(1, Color(2)).kind_name(), "Ellipse");
    assert_eq!(Primative::RectangleOutline(Color(2)).kind_name(), "RectangleOutline");
    let text = Primative::Text("abc".to_string(), 3, Color(4));
    assert_eq!(text.kind_name(), "Text");
    match text.clone() {
        Primative::Text(s, size, color) => {
            assert_eq!(s, "abc");
            assert_eq!(size, 3);
            assert_eq!(color, Color(4));
        },
        _ => panic!("expected a text"),
    }
    assert_eq!(Color::default(), Color(0));
    let _ = MouseButton::Forward;
}

#[test]
fn grow2_moves_right_and_advances() {
    let mut w = rect().x(5usize).w(30usize);
    let mut offset = 32;
    grow2(&mut w, &mut offset, 32, FlexDirection::LeftRight);
    assert_eq!(w.area().x, 37);
    assert_eq!(offset, 32 + 30 + 32);
    let mut second = rect().w(10usize);
    grow2(&mut second, &mut offset, 32, FlexDirection::LeftRight);
    assert_eq!(second.area().x, 94);
    assert_eq!(offset, 94 + 10 + 32);
}

#[test]
fn grow_changes_nothing() {
    let mut w = Rect::new(1, 2, 3, 4);
    let (mut x, mut y, mut mw, mut mh) = (5, 6, 7, 8);
    grow(&mut w, &mut x, &mut y, &mut mw, &mut mh, FlexDirection::TopBottom);
    assert_eq!(w, Rect::new(1, 2, 3, 4));
    assert_eq!((x, y, mw, mh), (5, 6, 7, 8));
    draw_call(Primative::RectangleOutline(Color(1)));
    let _ = Padding::default();
}

#[test]
fn tagged_len_round_trip() {
    assert_eq!(TaggedLen::new(0).value(), 0);
    assert_eq!(TaggedLen::new(21).value(), 21);
    assert_eq!(TaggedLen::new(isize::MAX as usize - 1).value(), isize::MAX as usize - 1);
}

#[test]
fn small_vec_from_elem() {
    let empty: SmallVec<usize, 1024> = SmallVec::new();
    assert_eq!(empty.capacity(), 1024);
    assert_eq!(empty.len(), 0);
    let filled: SmallVec<String, 4> = SmallVec::from_elem("x".to_string(), 3);
    assert_eq!(filled.len(), 3);
    assert_eq!(filled.capacity(), 4);
    let full: SmallVec<u8, 2> = SmallVec::from_elem(9, 2);
    assert_eq!(full.len(), 2);
}

#[test]
fn container_slice_changes_widgets() {
    let mut c = Container {
        widgets: vec![(Rect::new(0, 0, 1, 1), Primative::RectangleOutline(Color(3)))],
        area: Rect::new(0, 0, 1, 1),
    };
    let slice = c.as_container_slice_mut();
    assert_eq!(slice.len(), 1);
    slice[0].0 = Rect::new(5, 5, 2, 2);
    assert_eq!(c.widgets[0].0, Rect::new(5, 5, 2, 2));
    assert_eq!(c.area, Rect::new(0, 0, 1, 1));
}

#[test]
fn rect_text() {
    assert_eq!(Rect::new(0, 7, 30, 1204).to_string(), "x: 0, y: 7, width: 30, height: 1204");
    assert_eq!(
        Rect::new(usize::MAX, 10, 99, 100).to_string(),
        format!("x: {}, y: 10, width: 99, height: 100", usize::MAX)
    );
}

#[test]
fn unit_from_non_negative_i32() {
    assert!(matches!(Unit::from_i32(300), Unit::Px(300)));
    assert!(matches!(Unit::from_i32(0), Unit::Px(0)));
}

#[test]
fn small_vec_len_within_capacity() {
    let v: SmallVec<u8, 3> = SmallVec::from_elem(1, 3);
    assert!(v.len() <= v.capacity());
    let e: SmallVec<u8, 3> = SmallVec::new();
    assert!(e.len() <= e.capacity());
}

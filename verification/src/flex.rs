use vstd::prelude::*;
use vstd::std_specs::convert::FromSpecImpl;

use crate::softui::{Color, Primative, Rect, Widget};

verus! {

/// A filled shape with a padding and a background colour.
#[derive(Debug)]
pub struct Rectangle {
    area: Rect,
    padding: Padding,
    color: Color,
}

impl Clone for Rectangle {
    fn clone(&self) -> (r: Rectangle)
        ensures
            r == *self,
    {
        Rectangle { area: self.area, padding: self.padding, color: self.color }
    }
}

impl Rectangle {
    /// The area the rectangle occupies.
    pub closed spec fn area_spec(self) -> Rect {
        self.area
    }

    /// The rectangle's padding.
    pub closed spec fn padding_spec(self) -> Padding {
        self.padding
    }

    /// The rectangle's background colour.
    pub closed spec fn color_spec(self) -> Color {
        self.color
    }

    /// The same rectangle with another padding, given as
    /// `(left, top, right, bottom)`.
    pub fn padding(self, padding: (usize, usize, usize, usize)) -> (r: Self)
        ensures
            r.padding_spec() == Padding::new_spec(padding.0, padding.1, padding.2, padding.3),
            r.area_spec() == self.area_spec(),
            r.color_spec() == self.color_spec(),
    {
        let mut rectangle = self;
        rectangle.padding = padding.into();
        rectangle
    }

    /// The same rectangle with another background colour.
    pub fn bg(self, color: Color) -> (r: Self)
        ensures
            r.color_spec() == color,
            r.area_spec() == self.area_spec(),
            r.padding_spec() == self.padding_spec(),
    {
        let mut rectangle = self;
        rectangle.color = color;
        rectangle
    }
}

impl Default for Rectangle {
    fn default() -> (r: Rectangle)
        ensures
            r.area_spec() == (Rect { x: 0, y: 0, width: 0, height: 0 }),
            r.padding_spec() == Padding::new_spec(0, 0, 0, 0),
            r.color_spec() == Color(0),
    {
        Rectangle { area: Rect::default(), padding: Padding::default(), color: Color::default() }
    }
}

/// A rectangle at the origin, of no size, with no padding and colour 0.
pub fn rect() -> (r: Rectangle)
    ensures
        r.area_spec() == (Rect { x: 0, y: 0, width: 0, height: 0 }),
        r.padding_spec() == Padding::new_spec(0, 0, 0, 0),
        r.color_spec() == Color(0),
{
    Rectangle::default()
}

impl Widget for Rectangle {
    closed spec fn area_view(&self) -> Rect {
        self.area
    }

    open spec fn is_placeable(&self) -> bool {
        true
    }

    open spec fn is_drawable(&self) -> bool {
        true
    }

    closed spec fn with_area(&self, area: Rect) -> Rectangle {
        Rectangle { area, ..*self }
    }

    open spec fn container_kind() -> bool {
        false
    }

    proof fn lemma_with_area(&self, area: Rect, next: Rect) {
    }

    fn primative(&self) -> (r: Primative)
        ensures
            r == Primative::Ellipse(0, self.color_spec()),
    {
        Primative::Ellipse(0, self.color)
    }

    fn area(&self) -> (r: Rect) {
        self.area
    }

    fn area_mut(&mut self) -> (r: Option<&mut Rect>) {
        Some(&mut self.area)
    }

    fn is_container() -> (r: bool) {
        false
    }
}

impl Rectangle {
    /// Replacing the area of a rectangle keeps its padding and colour.
    pub proof fn lemma_with_area_keeps_style(self, area: Rect)
        ensures
            self.with_area(area).padding_spec() == self.padding_spec(),
            self.with_area(area).color_spec() == self.color_spec(),
            self.area_view() == self.area_spec(),
    {
    }
}

/// The direction in which a flex layout places its items.
#[derive(Debug, Clone, Copy)]
pub enum FlexDirection {
    LeftRight,
    RightLeft,
    TopBottom,
    BottomTop,
}

impl Default for FlexDirection {
    fn default() -> (r: FlexDirection)
        ensures
            r is LeftRight,
    {
        FlexDirection::LeftRight
    }
}

/// Space left free inside each edge.
#[derive(Debug, Clone, Copy)]
pub struct Padding {
    pub left: usize,
    pub top: usize,
    pub right: usize,
    pub bottom: usize,
}

impl Padding {
    /// The padding with the given edges.
    pub open spec fn new_spec(left: usize, top: usize, right: usize, bottom: usize) -> Padding {
        Padding { left, top, right, bottom }
    }

    /// The padding with the given edges.
    pub fn new(left: usize, top: usize, right: usize, bottom: usize) -> (r: Self)
        ensures
            r == Padding::new_spec(left, top, right, bottom),
    {
        Padding { left, top, right, bottom }
    }
}

impl Default for Padding {
    fn default() -> (r: Padding)
        ensures
            r == Padding::new_spec(0, 0, 0, 0),
    {
        Padding::new(0, 0, 0, 0)
    }
}

impl From<(usize, usize, usize, usize)> for Padding {
    fn from(value: (usize, usize, usize, usize)) -> (r: Self) {
        Self::new(value.0, value.1, value.2, value.3)
    }
}

impl FromSpecImpl<(usize, usize, usize, usize)> for Padding {
    open spec fn obeys_from_spec() -> bool {
        true
    }

    open spec fn from_spec(v: (usize, usize, usize, usize)) -> Padding {
        Padding::new_spec(v.0, v.1, v.2, v.3)
    }
}

/// The padding on the side where a layout in `direction` starts.
pub open spec fn offset_spec(direction: FlexDirection, padding: Padding) -> usize {
    match direction {
        FlexDirection::LeftRight => padding.left,
        FlexDirection::RightLeft => padding.right,
        FlexDirection::TopBottom => padding.top,
        FlexDirection::BottomTop => padding.bottom,
    }
}

/// The offset of a layout is the padding of the side it starts from, and
/// depends on no other side: left to right starts at the left padding,
/// right to left at the right one, top to bottom at the top one and bottom
/// to top at the bottom one.
pub proof fn lemma_offset_is_start_side(direction: FlexDirection, padding: Padding, other: Padding)
    ensures
        direction is LeftRight ==> offset_spec(direction, padding) == padding.left,
        direction is RightLeft ==> offset_spec(direction, padding) == padding.right,
        direction is TopBottom ==> offset_spec(direction, padding) == padding.top,
        direction is BottomTop ==> offset_spec(direction, padding) == padding.bottom,
        offset_spec(direction, padding) == offset_spec(direction, other) <== (match direction {
            FlexDirection::LeftRight => padding.left == other.left,
            FlexDirection::RightLeft => padding.right == other.right,
            FlexDirection::TopBottom => padding.top == other.top,
            FlexDirection::BottomTop => padding.bottom == other.bottom,
        }),
{
}

/// Where the first item of a layout in `direction` starts: the padding on
/// the side that the layout starts from.
pub fn calculate_offset(direction: FlexDirection, padding: Padding) -> (r: usize)
    ensures
        r == offset_spec(direction, padding),
        direction is LeftRight ==> r == padding.left,
        direction is RightLeft ==> r == padding.right,
        direction is TopBottom ==> r == padding.top,
        direction is BottomTop ==> r == padding.bottom,
{
    match direction {
        FlexDirection::LeftRight => padding.left,
        FlexDirection::RightLeft => padding.right,
        FlexDirection::TopBottom => padding.top,
        FlexDirection::BottomTop => padding.bottom,
    }
}

/// The larger of two integers.
pub open spec fn max(a: int, b: int) -> int {
    if a >= b {
        a
    } else {
        b
    }
}

/// Grows `area` to hold `container` beside what it already holds: the widths
/// add up and the height is the larger of the two. Only the left-to-right
/// direction is laid out.
pub fn calculate_sizing(container: &mut Container, area: &mut Rect, direction: FlexDirection)
    requires
        direction is LeftRight,
        old(area).width + old(container).area.width <= usize::MAX,
    ensures
        *final(container) == *old(container),
        *final(area) == (Rect {
            width: (old(area).width + old(container).area.width) as usize,
            height: max(old(area).height as int, old(container).area.height as int) as usize,
            ..*old(area)
        }),
{
    match direction {
        FlexDirection::LeftRight => {
            area.width = area.width + container.area.width;
            if container.area.height > area.height {
                area.height = container.area.height;
            }
        },
        FlexDirection::RightLeft => {},
        FlexDirection::TopBottom => {},
        FlexDirection::BottomTop => {},
    }
}

/// Widgets already sized, each with its area and its primative, held
/// together in one area.
#[derive(Debug)]
pub struct Container {
    pub widgets: Vec<(Rect, Primative)>,
    pub area: Rect,
}

impl Container {
    /// The container's widgets, to change in place.
    pub fn as_container_slice_mut(&mut self) -> (r: &mut [(Rect, Primative)])
        ensures
            r@ == old(self).widgets@,
            final(self).widgets@ == final(r)@,
            final(self).area == old(self).area,
    {
        self.widgets.as_mut_slice()
    }
}

impl Widget for Container {
    open spec fn area_view(&self) -> Rect {
        self.area
    }

    open spec fn is_placeable(&self) -> bool {
        true
    }

    /// A container has no primative of its own.
    open spec fn is_drawable(&self) -> bool {
        false
    }

    open spec fn with_area(&self, area: Rect) -> Container {
        Container { area, ..*self }
    }

    open spec fn container_kind() -> bool {
        true
    }

    proof fn lemma_with_area(&self, area: Rect, next: Rect) {
    }

    /// Never called: a container has nothing of its own to draw.
    fn primative(&self) -> (r: Primative) {
        Primative::RectangleOutline(Color(0))
    }

    fn area(&self) -> (r: Rect) {
        self.area
    }

    fn area_mut(&mut self) -> (r: Option<&mut Rect>) {
        Some(&mut self.area)
    }

    fn is_container() -> (r: bool) {
        true
    }
}

/// The sum of the widths of `widgets`.
pub open spec fn width_sum(widgets: Seq<(Rect, Primative)>) -> int
    decreases widgets.len(),
{
    if widgets.len() == 0 {
        0
    } else {
        width_sum(widgets.drop_last()) + widgets.last().0.width
    }
}

/// The largest height among `widgets`, or 0 where there is none.
pub open spec fn max_height(widgets: Seq<(Rect, Primative)>) -> int
    decreases widgets.len(),
{
    if widgets.len() == 0 {
        0
    } else {
        max(max_height(widgets.drop_last()), widgets.last().0.height as int)
    }
}

/// How far a row of `widgets` advances its offset: the width of each widget
/// and one `gap` after each.
pub open spec fn advance(widgets: Seq<(Rect, Primative)>, gap: int) -> int
    decreases widgets.len(),
{
    if widgets.len() == 0 {
        0
    } else {
        advance(widgets.drop_last(), gap) + widgets.last().0.width + gap
    }
}

/// The widgets of a row placed from `start` on: each one's left edge is
/// `start` plus the advance of the widgets before it.
pub open spec fn placed(widgets: Seq<(Rect, Primative)>, start: int, gap: int) -> Seq<
    (Rect, Primative),
> {
    Seq::new(
        widgets.len(),
        |i: int|
            ((Rect { x: (start + advance(widgets.take(i), gap)) as usize, ..widgets[i].0 }), widgets[i].1),
    )
}

/// The size of the container that [`h`] makes of `widgets`.
pub open spec fn row_size(widgets: Seq<(Rect, Primative)>, gap: int) -> Rect {
    Rect {
        x: 0,
        y: 0,
        width: ((widgets.len() - 1) * gap + width_sum(widgets)) as usize,
        height: max_height(widgets) as usize,
    }
}

/// The advance over the first `i + 1` widgets is that over the first `i`
/// and the width of widget `i` and a gap.
pub proof fn lemma_advance_step(widgets: Seq<(Rect, Primative)>, i: int, gap: int)
    requires
        0 <= i < widgets.len(),
    ensures
        advance(widgets.take(i + 1), gap) == advance(widgets.take(i), gap) + widgets[i].0.width
            + gap,
        width_sum(widgets.take(i + 1)) == width_sum(widgets.take(i)) + widgets[i].0.width,
        max_height(widgets.take(i + 1)) == max(
            max_height(widgets.take(i)),
            widgets[i].0.height as int,
        ),
{
    assert(widgets.take(i + 1).drop_last() =~= widgets.take(i));
}

/// With a gap that is not negative, the totals of a row are not negative.
pub proof fn lemma_totals_nonneg(widgets: Seq<(Rect, Primative)>, gap: int)
    requires
        gap >= 0,
    ensures
        advance(widgets, gap) >= 0,
        width_sum(widgets) >= 0,
        max_height(widgets) >= 0,
    decreases widgets.len(),
{
    if widgets.len() > 0 {
        lemma_totals_nonneg(widgets.drop_last(), gap);
    }
}

/// With a gap that is not negative, the advance over a prefix is at most the
/// advance over the whole row, and so are the sum of its widths and its
/// largest height.
pub proof fn lemma_advance_prefix(widgets: Seq<(Rect, Primative)>, i: int, gap: int)
    requires
        0 <= i <= widgets.len(),
        gap >= 0,
    ensures
        0 <= advance(widgets.take(i), gap) <= advance(widgets, gap),
        0 <= width_sum(widgets.take(i)) <= width_sum(widgets),
        0 <= max_height(widgets.take(i)) <= max_height(widgets),
    decreases widgets.len() - i,
{
    lemma_totals_nonneg(widgets.take(i), gap);
    if i == widgets.len() {
        assert(widgets.take(i) =~= widgets);
    } else {
        lemma_advance_prefix(widgets, i + 1, gap);
        lemma_advance_step(widgets, i, gap);
    }
}

/// Placing the first `i + 1` widgets is placing the first `i` and then
/// widget `i` after them.
pub proof fn lemma_placed_step(widgets: Seq<(Rect, Primative)>, i: int, start: int, gap: int)
    requires
        0 <= i < widgets.len(),
    ensures
        placed(widgets.take(i + 1), start, gap) =~= placed(widgets.take(i), start, gap).push(
            (
                (Rect { x: (start + advance(widgets.take(i), gap)) as usize, ..widgets[i].0 }),
                widgets[i].1,
            ),
        ),
{
    assert forall|j: int| 0 <= j <= i implies #[trigger] widgets.take(i + 1).take(j) =~= widgets.take(
        i,
    ).take(j) by {}
    assert(widgets.take(i + 1).take(i) =~= widgets.take(i));
}

/// Placing keeps each widget's primative, its top edge and its size, and
/// the first widget starts at `start`.
pub proof fn lemma_placed_keeps_widgets(widgets: Seq<(Rect, Primative)>, start: int, gap: int)
    ensures
        placed(widgets, start, gap).len() == widgets.len(),
        forall|i: int|
            0 <= i < widgets.len() ==> {
                &&& (#[trigger] placed(widgets, start, gap)[i]).1 == widgets[i].1
                &&& placed(widgets, start, gap)[i].0.y == widgets[i].0.y
                &&& placed(widgets, start, gap)[i].0.width == widgets[i].0.width
                &&& placed(widgets, start, gap)[i].0.height == widgets[i].0.height
            },
        widgets.len() > 0 && 0 <= start <= usize::MAX ==> placed(widgets, start, gap)[0].0.x
            == start,
{
    if widgets.len() > 0 {
        assert(widgets.take(0) =~= Seq::<(Rect, Primative)>::empty());
    }
}

/// In a placed row, each widget starts exactly `gap` after the right edge of
/// the one before it.
pub proof fn lemma_placed_gap(widgets: Seq<(Rect, Primative)>, start: int, gap: int, i: int)
    requires
        0 <= i,
        i + 1 < widgets.len(),
        0 <= start,
        0 <= gap,
        start + advance(widgets, gap) <= usize::MAX,
    ensures
        placed(widgets, start, gap)[i + 1].0.x == placed(widgets, start, gap)[i].0.right_spec()
            + gap,
{
    lemma_advance_step(widgets, i, gap);
    lemma_advance_prefix(widgets, i, gap);
    lemma_advance_prefix(widgets, i + 1, gap);
    let row = placed(widgets, start, gap);
    assert(row[i].0.x == start + advance(widgets.take(i), gap));
    assert(row[i + 1].0.x == start + advance(widgets.take(i + 1), gap));
}

/// In a placed row, a widget ends at or before the left edge of every widget
/// after it, so no two widgets of the row overlap.
pub proof fn lemma_placed_in_order(
    widgets: Seq<(Rect, Primative)>,
    start: int,
    gap: int,
    i: int,
    j: int,
)
    requires
        0 <= i < j < widgets.len(),
        0 <= start,
        0 <= gap,
        start + advance(widgets, gap) <= usize::MAX,
    ensures
        placed(widgets, start, gap)[i].0.right_spec() <= placed(widgets, start, gap)[j].0.x,
        !placed(widgets, start, gap)[i].0.intersects_spec(placed(widgets, start, gap)[j].0),
{
    lemma_advance_step(widgets, i, gap);
    lemma_advance_prefix(widgets, i, gap);
    lemma_advance_prefix(widgets, j, gap);
    lemma_advance_prefix(widgets.take(j), i + 1, gap);
    assert(widgets.take(j).take(i + 1) =~= widgets.take(i + 1));
    let row = placed(widgets, start, gap);
    assert(row[i].0.x == start + advance(widgets.take(i), gap));
    assert(row[j].0.x == start + advance(widgets.take(j), gap));
    crate::softui::lemma_no_intersection_past_right(
        placed(widgets, start, gap)[i].0,
        placed(widgets, start, gap)[j].0,
    );
}

/// The advance of a row is the sum of its widths and one gap per widget.
pub proof fn lemma_advance_total(widgets: Seq<(Rect, Primative)>, gap: int)
    ensures
        advance(widgets, gap) == width_sum(widgets) + widgets.len() * gap,
    decreases widgets.len(),
{
    if widgets.len() > 0 {
        lemma_advance_total(widgets.drop_last(), gap);
        let n = widgets.len() as int;
        assert((n - 1) * gap + gap == n * gap) by (nonlinear_arith);
    }
}

/// A row laid out by [`draw_widgets`] from `start` covers exactly the width
/// of the container that [`h`] sizes from the same widgets and gap: its
/// last widget ends at `start` plus that width, and the offset moves one gap
/// further.
pub proof fn lemma_row_spans_container(widgets: Seq<(Rect, Primative)>, start: int, gap: int)
    requires
        widgets.len() >= 1,
        0 <= start,
        0 <= gap,
        start + advance(widgets, gap) <= usize::MAX,
    ensures
        advance(widgets, gap) == row_size(widgets, gap).width + gap,
        placed(widgets, start, gap).last().0.right_spec() == start + row_size(widgets, gap).width,
{
    lemma_advance_total(widgets, gap);
    lemma_totals_nonneg(widgets, gap);
    let n = widgets.len() as int;
    assert((n - 1) * gap + gap == n * gap) by (nonlinear_arith);
    assert(0 <= (n - 1) * gap) by (nonlinear_arith)
        requires
            n >= 1,
            gap >= 0,
    ;
    lemma_advance_step(widgets, n - 1, gap);
    lemma_advance_prefix(widgets, n - 1, gap);
    assert(widgets.take(n) =~= widgets);
}

/// The draw calls for the widgets of `container`, laid out in a row from
/// `*offset` on, `gap` apart; `*offset` is moved past the last widget and its
/// gap. The widgets are drawn in their order, each at its own size, with its
/// left edge moved to where the row has come.
pub fn draw_widgets(
    container: &mut Container,
    direction: FlexDirection,
    offset: &mut usize,
    gap: usize,
) -> (draws: Vec<(Rect, Primative)>)
    requires
        *old(offset) + advance(old(container).widgets@, gap as int) <= usize::MAX,
    ensures
        *final(container) == *old(container),
        draws@ == placed(old(container).widgets@, *old(offset) as int, gap as int),
        *final(offset) == *old(offset) + advance(old(container).widgets@, gap as int),
{
    let ghost start = *offset as int;
    let ghost widgets = container.widgets@;
    let mut draws: Vec<(Rect, Primative)> = Vec::new();
    let mut i: usize = 0;
    proof {
        assert(widgets.take(0) =~= Seq::<(Rect, Primative)>::empty());
        assert(placed(widgets.take(0), start, gap as int) =~= Seq::<(Rect, Primative)>::empty());
    }
    while i < container.widgets.len()
        invariant
            container.widgets@ == widgets,
            i <= widgets.len(),
            start + advance(widgets, gap as int) <= usize::MAX,
            *offset == start + advance(widgets.take(i as int), gap as int),
            draws@ == placed(widgets.take(i as int), start, gap as int),
        decreases widgets.len() - i,
    {
        let area = container.widgets[i].0;
        let primative = container.widgets[i].1.clone();
        let moved = area.x(*offset);
        proof {
            lemma_advance_step(widgets, i as int, gap as int);
            lemma_advance_prefix(widgets, i as int + 1, gap as int);
            lemma_placed_step(widgets, i as int, start, gap as int);
        }
        draws.push((moved, primative));
        *offset = *offset + moved.width + gap;
        i = i + 1;
    }
    proof {
        assert(widgets.take(widgets.len() as int) =~= widgets);
    }
    draws
}

/// Lays out the widgets of `container` as [`draw_widgets`] does and appends
/// the draw calls to `debug`.
pub fn debug_draw_widgets(
    debug: &mut Vec<(Rect, Primative)>,
    container: &mut Container,
    direction: FlexDirection,
    offset: &mut usize,
    gap: usize,
)
    requires
        *old(offset) + advance(old(container).widgets@, gap as int) <= usize::MAX,
    ensures
        *final(container) == *old(container),
        final(debug)@ == old(debug)@ + placed(
            old(container).widgets@,
            *old(offset) as int,
            gap as int,
        ),
        *final(offset) == *old(offset) + advance(old(container).widgets@, gap as int),
{
    let mut draws = draw_widgets(container, direction, offset, gap);
    debug.append(&mut draws);
}

/// Sizes a row of widgets into a container: the widgets are kept in their
/// order, the width is that of all the widgets with `gap` between each two,
/// and the height is that of the tallest. The container sits at the origin;
/// the padding is not applied.
pub fn h(widgets: Vec<(Rect, Primative)>, padding: Padding, gap: usize) -> (c: Container)
    requires
        widgets.len() >= 1,
        (widgets.len() - 1) * gap + width_sum(widgets@) <= usize::MAX,
    ensures
        c.widgets@ == widgets@,
        c.area == row_size(widgets@, gap as int),
        c.area.x == 0 && c.area.y == 0,
        forall|i: int| 0 <= i < widgets.len() ==> c.area.height >= (#[trigger] widgets@[i]).0.height,
        exists|j: int| 0 <= j < widgets.len() && c.area.height == (#[trigger] widgets@[j]).0.height,
{
    let ghost all = widgets@;
    let count = widgets.len();
    proof {
        lemma_totals_nonneg(all, gap as int);
        assert(0 <= (count - 1) * gap) by (nonlinear_arith)
            requires
                count >= 1,
        ;
    }
    let gaps = (count - 1) * gap;
    let mut width = gaps;
    let mut height: usize = 0;
    let mut i: usize = 0;
    proof {
        assert(all.take(0) =~= Seq::<(Rect, Primative)>::empty());
    }
    while i < count
        invariant
            widgets@ == all,
            count == all.len(),
            i <= count,
            gaps + width_sum(all) <= usize::MAX,
            width == gaps + width_sum(all.take(i as int)),
            height == max_height(all.take(i as int)),
        decreases count - i,
    {
        let area = widgets[i].0;
        proof {
            lemma_advance_step(all, i as int, gap as int);
            lemma_advance_prefix(all, i as int + 1, gap as int);
        }
        if area.height > height {
            height = area.height;
        }
        width = width + area.width;
        i = i + 1;
    }
    proof {
        assert(all.take(count as int) =~= all);
    }
    proof {
        lemma_row_size_tallest(all, gap as int);
    }
    Container { widgets, area: Rect::new(0, 0, width, height) }
}

/// The largest height of a row is at least the height of each of its
/// widgets and is the height of one of them.
pub proof fn lemma_max_height_tallest(widgets: Seq<(Rect, Primative)>)
    ensures
        forall|i: int| 0 <= i < widgets.len() ==> max_height(widgets) >= (#[trigger] widgets[i]).0.height,
        widgets.len() > 0 ==> exists|j: int|
            0 <= j < widgets.len() && max_height(widgets) == (#[trigger] widgets[j]).0.height,
    decreases widgets.len(),
{
    if widgets.len() > 0 {
        let rest = widgets.drop_last();
        lemma_max_height_tallest(rest);
        assert forall|i: int| 0 <= i < widgets.len() implies max_height(widgets) >= (
        #[trigger] widgets[i]).0.height by {
            if i < rest.len() {
                assert(rest[i] == widgets[i]);
            }
        }
        if max_height(widgets) == widgets.last().0.height {
            assert(widgets[widgets.len() - 1] == widgets.last());
        } else {
            let j = choose|j: int| 0 <= j < rest.len() && max_height(rest) == (#[trigger] rest[j]).0.height;
            assert(widgets[j] == rest[j]);
        }
    }
}

/// The container that [`h`] sizes from a row of widgets is as tall as the
/// tallest of them: at least as tall as each, and as tall as one.
pub proof fn lemma_row_size_tallest(widgets: Seq<(Rect, Primative)>, gap: int)
    requires
        widgets.len() >= 1,
    ensures
        forall|i: int| 0 <= i < widgets.len() ==> row_size(widgets, gap).height >= (
        #[trigger] widgets[i]).0.height,
        exists|j: int|
            0 <= j < widgets.len() && row_size(widgets, gap).height == (#[trigger] widgets[j]).0.height,
{
    lemma_max_height_tallest(widgets);
    let j = choose|j: int| 0 <= j < widgets.len() && max_height(widgets) == (#[trigger] widgets[j]).0.height;
    assert(row_size(widgets, gap).height == widgets[j].0.height);
}

/// A row of one widget is sized to that widget.
pub proof fn lemma_row_size_single(widget: (Rect, Primative), gap: int)
    ensures
        row_size(seq![widget], gap) == (Rect { x: 0, y: 0, ..widget.0 }),
{
    let row = seq![widget];
    assert(0 * gap == 0);
    assert(row.len() == 1);
    assert(row.last() == widget);
    assert(row.drop_last() =~= Seq::<(Rect, Primative)>::empty());
    assert(width_sum(row.drop_last()) == 0);
    assert(max_height(row.drop_last()) == 0);
    assert(width_sum(row) == widget.0.width);
    assert(max_height(row) == widget.0.height);
    assert((row.len() - 1) * gap == 0);
}

/// Adding a widget at the end of a row widens its container by a gap and
/// the widget's width, and makes it as tall as the taller of the two.
pub proof fn lemma_row_size_push(
    widgets: Seq<(Rect, Primative)>,
    widget: (Rect, Primative),
    gap: int,
)
    requires
        widgets.len() >= 1,
        gap >= 0,
        widgets.len() * gap + width_sum(widgets.push(widget)) <= usize::MAX,
    ensures
        row_size(widgets.push(widget), gap).width == row_size(widgets, gap).width + gap
            + widget.0.width,
        row_size(widgets.push(widget), gap).height == max(
            row_size(widgets, gap).height as int,
            widget.0.height as int,
        ),
{
    let longer = widgets.push(widget);
    assert(longer.drop_last() =~= widgets);
    lemma_totals_nonneg(widgets, gap);
    lemma_max_height_tallest(widgets);
    lemma_max_height_tallest(longer);
    let n = widgets.len() as int;
    assert((n - 1) * gap + gap == n * gap) by (nonlinear_arith);
    assert(0 <= (n - 1) * gap) by (nonlinear_arith)
        requires
            n >= 1,
            gap >= 0,
    ;
    let j = choose|j: int| 0 <= j < widgets.len() && max_height(widgets) == (#[trigger] widgets[j]).0.height;
    let k = choose|k: int| 0 <= k < longer.len() && max_height(longer) == (#[trigger] longer[k]).0.height;
}

/// The sum of the widths of `containers`.
pub open spec fn row_width(containers: Seq<Container>) -> int
    decreases containers.len(),
{
    if containers.len() == 0 {
        0
    } else {
        row_width(containers.drop_last()) + containers.last().area.width
    }
}

/// The largest height among `containers`, or 0 where there is none.
pub open spec fn row_height(containers: Seq<Container>) -> int
    decreases containers.len(),
{
    if containers.len() == 0 {
        0
    } else {
        max(row_height(containers.drop_last()), containers.last().area.height as int)
    }
}

/// How far laying out the widgets of all `containers` in one row advances
/// the offset.
pub open spec fn flex_advance(containers: Seq<Container>, gap: int) -> int
    decreases containers.len(),
{
    if containers.len() == 0 {
        0
    } else {
        flex_advance(containers.drop_last(), gap) + advance(containers.last().widgets@, gap)
    }
}

/// The draw calls of the widgets of all `containers`, placed in one row from
/// `start` on, container after container.
pub open spec fn flex_draws(containers: Seq<Container>, start: int, gap: int) -> Seq<
    (Rect, Primative),
>
    decreases containers.len(),
{
    if containers.len() == 0 {
        Seq::empty()
    } else {
        flex_draws(containers.drop_last(), start, gap) + placed(
            containers.last().widgets@,
            start + flex_advance(containers.drop_last(), gap),
            gap,
        )
    }
}

/// The draw calls of a flex layout form one row: the first widget starts at
/// `start`, and each widget starts exactly `gap` after the right edge of the
/// widget drawn before it, also where one container ends and the next
/// begins. The offset ends one gap after the last widget.
pub proof fn lemma_flex_draws_chain(containers: Seq<Container>, start: int, gap: int)
    requires
        0 <= start,
        0 <= gap,
        start + flex_advance(containers, gap) <= usize::MAX,
    ensures
        flex_draws(containers, start, gap).len() > 0 ==> flex_draws(containers, start, gap)[0].0.x
            == start,
        forall|k: int|
            0 <= k < flex_draws(containers, start, gap).len() - 1 ==> (#[trigger] flex_draws(
                containers,
                start,
                gap,
            )[k + 1]).0.x == flex_draws(containers, start, gap)[k].0.right_spec() + gap,
        flex_draws(containers, start, gap).len() > 0 ==> flex_draws(
            containers,
            start,
            gap,
        ).last().0.right_spec() + gap == start + flex_advance(containers, gap),
        flex_draws(containers, start, gap).len() == 0 ==> flex_advance(containers, gap) == 0,
    decreases containers.len(),
{
    if containers.len() > 0 {
        let rest = containers.drop_last();
        let widgets = containers.last().widgets@;
        let a = flex_advance(rest, gap);
        lemma_totals_nonneg(widgets, gap);
        lemma_flex_totals_nonneg(rest, gap);
        lemma_flex_draws_chain(rest, start, gap);
        let d = flex_draws(rest, start, gap);
        let p = placed(widgets, start + a, gap);
        let all = flex_draws(containers, start, gap);
        assert(all == d + p);
        lemma_placed_keeps_widgets(widgets, start + a, gap);
        if widgets.len() > 0 {
            lemma_row_spans_container(widgets, start + a, gap);
            assert forall|i: int| 0 <= i < widgets.len() - 1 implies (#[trigger] p[i + 1]).0.x
                == p[i].0.right_spec() + gap by {
                lemma_placed_gap(widgets, start + a, gap, i);
            }
        } else {
            assert(widgets =~= Seq::<(Rect, Primative)>::empty());
        }
        assert forall|k: int| 0 <= k < all.len() - 1 implies (#[trigger] all[k + 1]).0.x
            == all[k].0.right_spec() + gap by {
            if k + 1 < d.len() {
                assert(all[k + 1] == d[k + 1]);
                assert(all[k] == d[k]);
            } else if k + 1 == d.len() {
                assert(all[k + 1] == p[0]);
                assert(all[k] == d.last());
                assert(d.last().0.right_spec() + gap == start + a);
                assert(p[0].0.x == start + a);
            } else {
                let i = k - d.len();
                assert(0 <= i < widgets.len() - 1);
                assert(all[k + 1] == p[i + 1]);
                assert(all[k] == p[i]);
                assert(p[i + 1].0.x == p[i].0.right_spec() + gap);
            }
        }
        if all.len() > 0 {
            if d.len() > 0 {
                assert(all[0] == d[0]);
            } else {
                assert(all[0] == p[0]);
            }
            if p.len() > 0 {
                assert(all.last() == p.last());
            } else {
                assert(all.last() == d.last());
            }
        }
    }
}

/// With a gap that is not negative, the totals of a row of containers are
/// not negative, and its height fits in a `usize`.
pub proof fn lemma_flex_totals_nonneg(containers: Seq<Container>, gap: int)
    requires
        gap >= 0,
    ensures
        flex_advance(containers, gap) >= 0,
        row_width(containers) >= 0,
        0 <= row_height(containers) <= usize::MAX,
    decreases containers.len(),
{
    if containers.len() > 0 {
        lemma_flex_totals_nonneg(containers.drop_last(), gap);
        lemma_totals_nonneg(containers.last().widgets@, gap);
    }
}

/// With a gap that is not negative, the totals of a prefix of a row of
/// containers are at most those of the whole row.
pub proof fn lemma_flex_prefix(containers: Seq<Container>, i: int, gap: int)
    requires
        0 <= i <= containers.len(),
        gap >= 0,
    ensures
        0 <= flex_advance(containers.take(i), gap) <= flex_advance(containers, gap),
        0 <= row_width(containers.take(i)) <= row_width(containers),
        0 <= row_height(containers.take(i)) <= row_height(containers),
    decreases containers.len() - i,
{
    lemma_flex_totals_nonneg(containers.take(i), gap);
    if i == containers.len() {
        assert(containers.take(i) =~= containers);
    } else {
        lemma_flex_prefix(containers, i + 1, gap);
        assert(containers.take(i + 1).drop_last() =~= containers.take(i));
        lemma_totals_nonneg(containers[i].widgets@, gap);
    }
}

/// Lays out the containers in one row from the left: the area that holds
/// them all (their widths added up, the height of the tallest) and the draw
/// calls of their widgets, placed from the left padding on, `gap` apart. Only
/// the left-to-right direction is laid out.
pub fn flex(
    containers: Vec<Container>,
    direction: FlexDirection,
    padding: Padding,
    gap: usize,
) -> (r: (Rect, Vec<(Rect, Primative)>))
    requires
        direction is LeftRight,
        row_width(containers@) <= usize::MAX,
        padding.left + flex_advance(containers@, gap as int) <= usize::MAX,
    ensures
        r.0 == (Rect {
            x: 0,
            y: 0,
            width: row_width(containers@) as usize,
            height: row_height(containers@) as usize,
        }),
        r.1@ == flex_draws(containers@, padding.left as int, gap as int),
        r.1@.len() > 0 ==> r.1@[0].0.x == padding.left,
        forall|k: int|
            0 <= k < r.1@.len() - 1 ==> (#[trigger] r.1@[k + 1]).0.x == r.1@[k].0.right_spec()
                + gap,
{
    let ghost all = containers@;
    let mut containers = containers;
    let mut offset = calculate_offset(direction, padding);
    let mut area = Rect::default();
    let mut draws: Vec<(Rect, Primative)> = Vec::new();
    let mut i: usize = 0;
    proof {
        assert(all.take(0) =~= Seq::<Container>::empty());
    }
    while i < containers.len()
        invariant
            containers@ == all,
            i <= all.len(),
            direction is LeftRight,
            row_width(all) <= usize::MAX,
            padding.left + flex_advance(all, gap as int) <= usize::MAX,
            offset == padding.left + flex_advance(all.take(i as int), gap as int),
            area == (Rect {
                x: 0,
                y: 0,
                width: row_width(all.take(i as int)) as usize,
                height: row_height(all.take(i as int)) as usize,
            }),
            draws@ == flex_draws(all.take(i as int), padding.left as int, gap as int),
        decreases all.len() - i,
    {
        proof {
            lemma_flex_prefix(all, i as int, gap as int);
            lemma_flex_prefix(all, i as int + 1, gap as int);
            lemma_flex_totals_nonneg(all.take(i as int + 1), gap as int);
            assert(all.take(i as int + 1).drop_last() =~= all.take(i as int));
            assert(all.take(i as int + 1).last() == all[i as int]);
        }
        calculate_sizing(&mut containers[i], &mut area, direction);
        let mut placed_widgets = draw_widgets(&mut containers[i], direction, &mut offset, gap);
        draws.append(&mut placed_widgets);
        i = i + 1;
    }
    proof {
        assert(all.take(all.len() as int) =~= all);
        lemma_flex_draws_chain(all, padding.left as int, gap as int);
    }
    (area, draws)
}

/// A layout whose computation waits until it is called.
pub trait Defer {
    /// What the computation gives.
    type T;

    /// Whether the computation may be run.
    spec fn ready(&self) -> bool;

    /// Whether `t` is a possible outcome of the computation.
    spec fn produces(&self, t: Self::T) -> bool;

    /// Runs the computation.
    fn call(&self) -> (t: Self::T)
        requires
            self.ready(),
        ensures
            self.produces(t),
    ;
}

/// A flex layout that is computed when called: `f` is given the direction,
/// the padding and the gap.
pub struct DeferFlex<F> {
    pub f: F,
    pub direction: FlexDirection,
    pub padding: Padding,
    pub gap: usize,
}

impl<F> DeferFlex<F> {
    /// The same layout with another gap.
    pub fn gap(self, gap: usize) -> (r: Self)
        ensures
            r.f == self.f,
            r.direction == self.direction,
            r.padding == self.padding,
            r.gap == gap,
    {
        let mut flex = self;
        flex.gap = gap;
        flex
    }

    /// The same layout with `padding` on each of the four sides.
    pub fn padding(self, padding: usize) -> (r: Self)
        ensures
            r.f == self.f,
            r.direction == self.direction,
            r.padding == Padding::new_spec(padding, padding, padding, padding),
            r.gap == self.gap,
    {
        let mut flex = self;
        flex.padding = Padding::new(padding, padding, padding, padding);
        flex
    }

    /// The same layout in another direction.
    pub fn direction(self, direction: FlexDirection) -> (r: Self)
        ensures
            r.f == self.f,
            r.direction == direction,
            r.padding == self.padding,
            r.gap == self.gap,
    {
        let mut flex = self;
        flex.direction = direction;
        flex
    }
}

impl<F: Fn(FlexDirection, Padding, usize) -> Rect> Defer for DeferFlex<F> {
    type T = Rect;

    open spec fn ready(&self) -> bool {
        call_requires(self.f, (self.direction, self.padding, self.gap))
    }

    open spec fn produces(&self, t: Rect) -> bool {
        call_ensures(self.f, (self.direction, self.padding, self.gap), t)
    }

    fn call(&self) -> (t: Rect) {
        (self.f)(self.direction, self.padding, self.gap)
    }
}

/// A container that is sized when called: `f` is given the padding and the
/// gap.
pub struct DeferContainer<F> {
    pub f: F,
    pub padding: Padding,
    pub gap: usize,
}

impl<F> DeferContainer<F> {
    /// The same container with another gap.
    pub fn gap(self, gap: usize) -> (r: Self)
        ensures
            r.f == self.f,
            r.padding == self.padding,
            r.gap == gap,
    {
        let mut container = self;
        container.gap = gap;
        container
    }

    /// The same container with `padding` on each of the four sides.
    pub fn padding(self, padding: usize) -> (r: Self)
        ensures
            r.f == self.f,
            r.padding == Padding::new_spec(padding, padding, padding, padding),
            r.gap == self.gap,
    {
        let mut container = self;
        container.padding = Padding::new(padding, padding, padding, padding);
        container
    }
}

impl<F: Fn(Padding, usize) -> Container> Defer for DeferContainer<F> {
    type T = Container;

    open spec fn ready(&self) -> bool {
        call_requires(self.f, (self.padding, self.gap))
    }

    open spec fn produces(&self, t: Container) -> bool {
        call_ensures(self.f, (self.padding, self.gap), t)
    }

    fn call(&self) -> (t: Container) {
        (self.f)(self.padding, self.gap)
    }
}

} // verus!

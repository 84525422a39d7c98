use vstd::prelude::*;

use crate::flex::{row_size, width_sum, Padding};
use crate::softui::{Primative, Rect, Widget};

pub use crate::flex::{calculate_offset, rect, FlexDirection, Rectangle};

verus! {

/// The gap that [`h`] leaves between two widgets.
pub const ROW_GAP: usize = 32;

/// Draws nothing: this layout issues no draw calls.
pub fn draw_call(primative: Primative) {
}

/// Leaves the widget and the layout state as they are.
pub fn grow<W: Widget>(
    widget: &mut W,
    x: &mut usize,
    y: &mut usize,
    max_width: &mut usize,
    max_height: &mut usize,
    direction: FlexDirection,
)
    ensures
        *final(widget) == *old(widget),
        *final(x) == *old(x),
        *final(y) == *old(y),
        *final(max_width) == *old(max_width),
        *final(max_height) == *old(max_height),
{
}

/// Moves `widget` right by `*offset`, then moves `*offset` past the widget
/// and `gap`. Only the left-to-right direction is laid out.
pub fn grow2<W: Widget>(widget: &mut W, offset: &mut usize, gap: usize, direction: FlexDirection)
    requires
        old(widget).is_placeable(),
        direction is LeftRight,
        old(widget).area_view().x + *old(offset) <= usize::MAX,
        *old(offset) + old(widget).area_view().width + gap <= usize::MAX,
    ensures
        *final(widget) == old(widget).with_area(
            (Rect {
                x: (old(widget).area_view().x + *old(offset)) as usize,
                ..old(widget).area_view()
            }),
        ),
        *final(offset) == *old(offset) + old(widget).area_view().width + gap,
{
    let area = widget.area_mut().unwrap();
    match direction {
        FlexDirection::LeftRight => {
            area.x = area.x + *offset;
            *offset = *offset + area.width + gap;
        },
        FlexDirection::RightLeft => {},
        FlexDirection::TopBottom => {},
        FlexDirection::BottomTop => {},
    }
}

/// Widgets already sized, each with its area and its primative, held
/// together in one area.
#[derive(Debug)]
pub struct Container {
    pub widgets: Vec<(Rect, Primative)>,
    pub area: Rect,
}

/// Sizes a row of widgets into a container, [`ROW_GAP`] apart: the widgets
/// are kept in their order, the width is that of all the widgets with the
/// gaps between them, and the height is that of the tallest.
pub fn h(widgets: Vec<(Rect, Primative)>) -> (c: Container)
    requires
        widgets.len() >= 1,
        (widgets.len() - 1) * ROW_GAP + width_sum(widgets@) <= usize::MAX,
    ensures
        c.widgets@ == widgets@,
        c.area == row_size(widgets@, ROW_GAP as int),
{
    let sized = crate::flex::h(widgets, Padding::default(), ROW_GAP);
    Container { widgets: sized.widgets, area: sized.area }
}

} // verus!

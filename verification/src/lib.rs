pub mod flex;
pub mod grow;
pub mod smallvec;
pub mod softui;

pub use flex::{
    calculate_offset, calculate_sizing, debug_draw_widgets, draw_widgets, rect, Container, Defer,
    DeferContainer, DeferFlex, FlexDirection, Padding, Rectangle,
};
pub use smallvec::{SmallVec, TaggedLen};
pub use softui::{Color, MouseButton, Primative, Rect, Unit, Widget};

use vstd::prelude::*;

verus! {

/// An example widget: a titled header.
#[derive(Debug)]
pub struct Header {
    pub title: &'static str,
    pub area: Rect,
}

impl Clone for Header {
    fn clone(&self) -> (r: Header)
        ensures
            r == *self,
    {
        Header { title: self.title, area: self.area }
    }
}

/// The example header: titled "title", at the origin, of no size.
pub fn header() -> (r: Header)
    ensures
        r.title@ == "title"@,
        r.area == (Rect { x: 0, y: 0, width: 0, height: 0 }),
{
    Header { title: "title", area: Rect::default() }
}

impl Widget for Header {
    open spec fn area_view(&self) -> Rect {
        self.area
    }

    open spec fn is_placeable(&self) -> bool {
        true
    }

    open spec fn is_drawable(&self) -> bool {
        true
    }

    open spec fn with_area(&self, area: Rect) -> Header {
        Header { area, ..*self }
    }

    open spec fn container_kind() -> bool {
        false
    }

    proof fn lemma_with_area(&self, area: Rect, next: Rect) {
    }

    /// An empty text of size 0 and colour 0.
    fn primative(&self) -> (r: Primative)
        ensures
            r matches Primative::Text(text, size, color) && text@ == Seq::<char>::empty() && size
                == 0 && color == Color(0),
    {
        Primative::Text(String::new(), 0, Color(0))
    }

    fn area(&self) -> (r: Rect) {
        self.area
    }

    fn area_mut(&mut self) -> (r: Option<&mut Rect>) {
        Some(&mut self.area)
    }

    fn is_container() -> (r: bool) {
        false
    }
}

} // verus!

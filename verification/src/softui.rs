use vstd::prelude::*;
use vstd::std_specs::convert::FromSpecImpl;
use vstd::std_specs::convert::IntoSpec;

verus! {

/// A length as the layout understands it.
pub enum Unit {
    /// A number of pixels.
    Px(usize),
    /// Relative to the font-size of the element.
    Em(usize),
    /// A percentage.
    Percentage(usize),
}

impl From<usize> for Unit {
    fn from(val: usize) -> (r: Unit) {
        Unit::Px(val)
    }
}

impl Unit {
    /// A length of `value` pixels, from a signed integer that is not
    /// negative.
    pub fn from_i32(value: i32) -> (r: Unit)
        requires
            value >= 0,
        ensures
            r == Unit::Px(value as usize),
    {
        Unit::Px(value as usize)
    }
}

impl FromSpecImpl<usize> for Unit {
    open spec fn obeys_from_spec() -> bool {
        true
    }

    open spec fn from_spec(v: usize) -> Unit {
        Unit::Px(v)
    }
}

/// Whether `u` converts into a length in pixels, the only unit that the
/// builders of [`Widget`] handle.
pub open spec fn is_px<U: Into<Unit>>(u: U) -> bool {
    &&& <U as IntoSpec<Unit>>::obeys_into_spec()
    &&& <U as IntoSpec<Unit>>::into_spec(u) is Px
}

/// The number of pixels that `u` converts into.
pub open spec fn px_of<U: Into<Unit>>(u: U) -> usize {
    <U as IntoSpec<Unit>>::into_spec(u)->Px_0
}

/// An axis-aligned rectangle in pixels: its top-left corner and its size.
#[derive(Debug, Copy, Clone, PartialEq, Eq, Structural)]
pub struct Rect {
    pub x: usize,
    pub y: usize,
    pub width: usize,
    pub height: usize,
}

impl Default for Rect {
    fn default() -> (r: Rect)
        ensures
            r == (Rect { x: 0, y: 0, width: 0, height: 0 }),
    {
        Rect { x: 0, y: 0, width: 0, height: 0 }
    }
}

impl Rect {
    /// The x coordinate just past the right edge.
    pub open spec fn right_spec(self) -> int {
        self.x + self.width
    }

    /// The y coordinate just past the bottom edge.
    pub open spec fn bottom_spec(self) -> int {
        self.y + self.height
    }

    /// Whether the two rectangles share an inner point.
    pub open spec fn intersects_spec(self, other: Rect) -> bool {
        &&& self.x < other.right_spec()
        &&& self.right_spec() > other.x
        &&& self.y < other.bottom_spec()
        &&& self.bottom_spec() > other.y
    }

    /// The rectangle shrunk by `w` on the left and right and by `h` on the
    /// top and bottom.
    pub open spec fn inner_spec(self, w: int, h: int) -> Rect {
        Rect {
            x: (self.x + w) as usize,
            y: (self.y + h) as usize,
            width: (self.width - 2 * w) as usize,
            height: (self.height - 2 * h) as usize,
        }
    }

    /// The rectangle with the given corner and size.
    pub fn new(x: usize, y: usize, width: usize, height: usize) -> (r: Rect)
        ensures
            r == (Rect { x, y, width, height }),
    {
        Rect { x, y, width, height }
    }

    /// The x coordinate just past the right edge.
    pub fn right(&self) -> (r: usize)
        requires
            self.right_spec() <= usize::MAX,
        ensures
            r == self.right_spec(),
    {
        self.x + self.width
    }

    /// The y coordinate just past the bottom edge.
    pub fn bottom(&self) -> (r: usize)
        requires
            self.bottom_spec() <= usize::MAX,
        ensures
            r == self.bottom_spec(),
    {
        self.y + self.height
    }

    /// Whether the two rectangles overlap. The comparisons are made left to
    /// right and stop at the first that fails; each edge that is computed
    /// must fit in a `usize`.
    pub fn intersects(&self, other: Rect) -> (r: bool)
        requires
            other.right_spec() <= usize::MAX,
            self.x < other.right_spec() ==> self.right_spec() <= usize::MAX,
            self.x < other.right_spec() && self.right_spec() > other.x ==> other.bottom_spec()
                <= usize::MAX,
            self.x < other.right_spec() && self.right_spec() > other.x && self.y
                < other.bottom_spec() ==> self.bottom_spec() <= usize::MAX,
        ensures
            r == self.intersects_spec(other),
            self.width > 0 && self.height > 0 && other.width > 0 && other.height > 0 ==> (r
                <==> exists|px: int, py: int| #[trigger]
                holds_point(*self, px, py) && holds_point(other, px, py)),
    {
        proof {
            lemma_intersects_iff_shared_point(*self, other);
        }
        self.x < other.x + other.width && self.x + self.width > other.x && self.y < other.y
            + other.height && self.y + self.height > other.y
    }

    /// The rectangle shrunk by a margin of `w` on the left and right and of
    /// `h` on the top and bottom.
    pub fn inner(&self, w: usize, h: usize) -> (r: Rect)
        requires
            self.x + w <= usize::MAX,
            self.y + h <= usize::MAX,
            2 * w <= self.width,
            2 * h <= self.height,
        ensures
            r == self.inner_spec(w as int, h as int),
    {
        Rect { x: self.x + w, y: self.y + h, width: self.width - 2 * w, height: self.height - 2 * h }
    }

    /// The rectangle as text: `x: .., y: .., width: .., height: ..`, each
    /// number in decimal.
    pub open spec fn text_spec(self) -> Seq<char> {
        "x: "@ + decimal(self.x as nat) + ", y: "@ + decimal(self.y as nat) + ", width: "@
            + decimal(self.width as nat) + ", height: "@ + decimal(self.height as nat)
    }

    /// The rectangle as text: `x: .., y: .., width: .., height: ..`, each
    /// number in decimal.
    pub fn to_string(&self) -> (r: String)
        ensures
            r@ == self.text_spec(),
    {
        let mut text = String::new();
        text.append("x: ");
        append_decimal(&mut text, self.x);
        text.append(", y: ");
        append_decimal(&mut text, self.y);
        text.append(", width: ");
        append_decimal(&mut text, self.width);
        text.append(", height: ");
        append_decimal(&mut text, self.height);
        proof {
            reveal_strlit("x: ");
            reveal_strlit(", y: ");
            reveal_strlit(", width: ");
            reveal_strlit(", height: ");
        }
        text
    }

    /// A function that hands back the rectangle it is given.
    pub fn closure(&self) -> (f: impl Fn(Rect) -> Rect)
        ensures
            forall|a: Rect| call_requires(f, (a,)),
            forall|a: Rect, b: Rect| call_ensures(f, (a,), b) ==> b == a,
    {
        |rect: Rect| -> (out: Rect)
            ensures
                out == rect,
            { rect }
    }
}

/// The decimal digit for `d`, which is below ten.
pub open spec fn digit_char(d: nat) -> char {
    if d == 0 {
        '0'
    } else if d == 1 {
        '1'
    } else if d == 2 {
        '2'
    } else if d == 3 {
        '3'
    } else if d == 4 {
        '4'
    } else if d == 5 {
        '5'
    } else if d == 6 {
        '6'
    } else if d == 7 {
        '7'
    } else if d == 8 {
        '8'
    } else {
        '9'
    }
}

/// The decimal digits of `n`, most significant first, with no leading zero.
pub open spec fn decimal(n: nat) -> Seq<char>
    decreases n,
{
    if n < 10 {
        seq![digit_char(n)]
    } else {
        decimal(n / 10) + seq![digit_char(n % 10)]
    }
}

/// The text of the decimal digit `d`.
fn digit_text(d: usize) -> (r: &'static str)
    requires
        d < 10,
    ensures
        r@ == seq![digit_char(d as nat)],
{
    proof {
        reveal_strlit("0");
        reveal_strlit("1");
        reveal_strlit("2");
        reveal_strlit("3");
        reveal_strlit("4");
        reveal_strlit("5");
        reveal_strlit("6");
        reveal_strlit("7");
        reveal_strlit("8");
        reveal_strlit("9");
    }
    if d == 0 {
        "0"
    } else if d == 1 {
        "1"
    } else if d == 2 {
        "2"
    } else if d == 3 {
        "3"
    } else if d == 4 {
        "4"
    } else if d == 5 {
        "5"
    } else if d == 6 {
        "6"
    } else if d == 7 {
        "7"
    } else if d == 8 {
        "8"
    } else {
        "9"
    }
}

/// Appends the decimal digits of `n` to `text`.
fn append_decimal(text: &mut String, n: usize)
    ensures
        final(text)@ == old(text)@ + decimal(n as nat),
    decreases n,
{
    if n >= 10 {
        append_decimal(text, n / 10);
    }
    text.append(digit_text(n % 10));
    proof {
        assert(old(text)@ + decimal(n as nat) =~= if n < 10 {
            old(text)@ + seq![digit_char(n as nat)]
        } else {
            old(text)@ + decimal((n / 10) as nat) + seq![digit_char((n % 10) as nat)]
        });
    }
}

/// Whether the point `(px, py)` lies in `r`: its left and top edges
/// included, its right and bottom edges excluded.
pub open spec fn holds_point(r: Rect, px: int, py: int) -> bool {
    &&& r.x <= px < r.x + r.width
    &&& r.y <= py < r.y + r.height
}

/// Two rectangles that are not empty intersect exactly when some point lies
/// in both; where no point lies in both, they never intersect.
pub proof fn lemma_intersects_iff_shared_point(a: Rect, b: Rect)
    ensures
        a.width > 0 && a.height > 0 && b.width > 0 && b.height > 0 ==> (a.intersects_spec(b)
            <==> exists|px: int, py: int| #[trigger]
            holds_point(a, px, py) && holds_point(b, px, py)),
        (exists|px: int, py: int| #[trigger] holds_point(a, px, py) && holds_point(b, px, py))
            ==> a.intersects_spec(b),
{
    if a.intersects_spec(b) && a.width > 0 && a.height > 0 && b.width > 0 && b.height > 0 {
        let px: int = if a.x >= b.x {
            a.x as int
        } else {
            b.x as int
        };
        let py: int = if a.y >= b.y {
            a.y as int
        } else {
            b.y as int
        };
        assert(holds_point(a, px, py) && holds_point(b, px, py));
    }
    if !a.intersects_spec(b) {
        assert forall|px: int, py: int| !(#[trigger] holds_point(a, px, py) && holds_point(
            b,
            px,
            py,
        )) by {}
    }
}

/// A rectangle never intersects one whose top edge is at or below its own
/// bottom edge.
pub proof fn lemma_no_intersection_below(a: Rect, b: Rect)
    requires
        a.bottom_spec() <= b.y,
    ensures
        !a.intersects_spec(b),
        !b.intersects_spec(a),
{
    lemma_intersects_iff_shared_point(a, b);
    lemma_intersects_iff_shared_point(b, a);
}

/// Overlap is symmetric: `a` intersects `b` exactly when `b` intersects `a`.
pub proof fn lemma_intersects_symmetric(a: Rect, b: Rect)
    ensures
        a.intersects_spec(b) == b.intersects_spec(a),
{
}

/// A rectangle never intersects one that starts at or past its right edge.
pub proof fn lemma_no_intersection_past_right(a: Rect, b: Rect)
    requires
        a.right_spec() <= b.x,
    ensures
        !a.intersects_spec(b),
        !b.intersects_spec(a),
{
    lemma_intersects_iff_shared_point(a, b);
    lemma_intersects_iff_shared_point(b, a);
}

/// The inner rectangle lies within the outer one, at a distance of `w` from
/// its left and right edges and of `h` from its top and bottom edges.
pub proof fn lemma_inner_within(r: Rect, w: usize, h: usize)
    requires
        r.x + w <= usize::MAX,
        r.y + h <= usize::MAX,
        2 * w <= r.width,
        2 * h <= r.height,
    ensures
        r.inner_spec(w as int, h as int).x == r.x + w,
        r.inner_spec(w as int, h as int).y == r.y + h,
        r.inner_spec(w as int, h as int).right_spec() == r.right_spec() - w,
        r.inner_spec(w as int, h as int).bottom_spec() == r.bottom_spec() - h,
{
}

/// A mouse button.
#[derive(Debug, Copy, Clone)]
pub enum MouseButton {
    Left,
    Right,
    Middle,
    /// Mouse4
    Back,
    /// Mouse5
    Forward,
}

/// A colour, packed in a `u32`.
#[derive(Copy, Clone, Debug, PartialEq, Eq, Structural)]
pub struct Color(pub u32);

impl Default for Color {
    fn default() -> (r: Color)
        ensures
            r == Color(0),
    {
        Color(0)
    }
}

/// What the renderer can draw.
#[derive(Debug)]
pub enum Primative {
    /// Radius, Color
    Ellipse(usize, Color),
    RectangleOutline(Color),
    Text(String, usize, Color),
}

impl Clone for Primative {
    fn clone(&self) -> (r: Primative)
        ensures
            r == *self,
    {
        match self {
            Primative::Ellipse(radius, color) => Primative::Ellipse(*radius, *color),
            Primative::RectangleOutline(color) => Primative::RectangleOutline(*color),
            Primative::Text(text, size, color) => Primative::Text(text.clone(), *size, *color),
        }
    }
}

impl Primative {
    /// The name of the primative's kind, as it is shown in a draw call.
    pub open spec fn kind_name_spec(self) -> Seq<char> {
        match self {
            Primative::Ellipse(_, _) => "Ellipse"@,
            Primative::RectangleOutline(_) => "RectangleOutline"@,
            Primative::Text(_, _, _) => "Text"@,
        }
    }

    /// The name of the primative's kind, as it is shown in a draw call.
    pub fn kind_name(&self) -> (r: &'static str)
        ensures
            r@ == self.kind_name_spec(),
    {
        match self {
            Primative::Ellipse(_, _) => "Ellipse",
            Primative::RectangleOutline(_) => "RectangleOutline",
            Primative::Text(_, _, _) => "Text",
        }
    }
}

/// Something that occupies an area of the screen and may be drawn there.
///
/// The builders (`x`, `width`, `wh`, ...) take any value that converts into
/// a [`Unit`]; only lengths in pixels are handled.
pub trait Widget: Sized {
    /// The area the widget occupies.
    spec fn area_view(&self) -> Rect;

    /// Whether `area_mut` hands out the widget's area.
    spec fn is_placeable(&self) -> bool;

    /// Whether the widget has a primative to draw.
    spec fn is_drawable(&self) -> bool;

    /// The widget with its area replaced by `area`.
    spec fn with_area(&self, area: Rect) -> Self;

    /// Replacing the area gives a widget with that area, keeps whether it can
    /// be placed, and a second replacement undoes the first.
    proof fn lemma_with_area(&self, area: Rect, next: Rect)
        ensures
            self.with_area(area).area_view() == area,
            self.with_area(area).is_placeable() == self.is_placeable(),
            self.with_area(area).with_area(next) == self.with_area(next),
    ;

    /// The primative that draws the widget.
    fn primative(&self) -> (r: Primative)
        requires
            self.is_drawable(),
    ;

    /// A copy of the widget's area.
    fn area(&self) -> (r: Rect)
        ensures
            r == self.area_view(),
    ;

    /// The widget's area, to change in place, where the widget has one.
    fn area_mut(&mut self) -> (r: Option<&mut Rect>)
        ensures
            r is Some <==> old(self).is_placeable(),
            r is Some ==> *r.unwrap() == old(self).area_view() && *final(self) == old(
                self,
            ).with_area(*final(r.unwrap())),
            r is None ==> *final(self) == *old(self),
    ;

    /// Whether the widget holds other widgets.
    fn is_container() -> (r: bool)
        ensures
            r == Self::container_kind(),
    ;

    /// Whether the widget holds other widgets.
    spec fn container_kind() -> bool;

    /// Moves the left edge to `x` pixels.
    fn x<U: Into<Unit>>(self, x: U) -> (r: Self)
        requires
            self.is_placeable(),
            is_px(x),
        ensures
            r == self.with_area((Rect { x: px_of(x), ..self.area_view() })),
    {
        let mut widget = self;
        let area = widget.area_mut().unwrap();
        match x.into() {
            Unit::Px(px) => {
                area.x = px;
            },
            Unit::Em(_) => {},
            Unit::Percentage(_) => {},
        }
        widget
    }

    /// Moves the top edge to `y` pixels.
    fn y<U: Into<Unit>>(self, y: U) -> (r: Self)
        requires
            self.is_placeable(),
            is_px(y),
        ensures
            r == self.with_area((Rect { y: px_of(y), ..self.area_view() })),
    {
        let mut widget = self;
        match y.into() {
            Unit::Px(px) => {
                let area = widget.area_mut().unwrap();
                area.y = px;
            },
            Unit::Em(_) => {},
            Unit::Percentage(_) => {},
        }
        widget
    }

    /// Sets the width to `length` pixels.
    fn width<U: Into<Unit>>(self, length: U) -> (r: Self)
        requires
            self.is_placeable(),
            is_px(length),
        ensures
            r == self.with_area((Rect { width: px_of(length), ..self.area_view() })),
    {
        let mut widget = self;
        let area = widget.area_mut().unwrap();
        match length.into() {
            Unit::Px(px) => {
                area.width = px;
            },
            Unit::Em(_) => {},
            Unit::Percentage(_) => {},
        }
        widget
    }

    /// Sets the height to `length` pixels.
    fn height<U: Into<Unit>>(self, length: U) -> (r: Self)
        requires
            self.is_placeable(),
            is_px(length),
        ensures
            r == self.with_area((Rect { height: px_of(length), ..self.area_view() })),
    {
        let mut widget = self;
        let area = widget.area_mut().unwrap();
        match length.into() {
            Unit::Px(px) => {
                area.height = px;
            },
            Unit::Em(_) => {},
            Unit::Percentage(_) => {},
        }
        widget
    }

    /// Sets the width to `width` pixels.
    fn w<U: Into<Unit>>(self, width: U) -> (r: Self)
        requires
            self.is_placeable(),
            is_px(width),
        ensures
            r == self.with_area((Rect { width: px_of(width), ..self.area_view() })),
    {
        self.width(width)
    }

    /// Sets the height to `height` pixels.
    fn h<U: Into<Unit>>(self, height: U) -> (r: Self)
        requires
            self.is_placeable(),
            is_px(height),
        ensures
            r == self.with_area((Rect { height: px_of(height), ..self.area_view() })),
    {
        self.height(height)
    }

    /// Sets both the width and the height to `value` pixels.
    fn wh<U: Into<Unit> + Copy>(self, value: U) -> (r: Self)
        requires
            self.is_placeable(),
            is_px(value),
        ensures
            r == self.with_area(
                (Rect { width: px_of(value), height: px_of(value), ..self.area_view() }),
            ),
    {
        let wide = self.width(value);
        proof {
            self.lemma_with_area(
                Rect { width: px_of(value), ..self.area_view() },
                Rect { width: px_of(value), height: px_of(value), ..self.area_view() },
            );
        }
        wide.height(value)
    }

    /// Moves the top edge to `top` pixels.
    fn top<U: Into<Unit>>(self, top: U) -> (r: Self)
        requires
            self.is_placeable(),
            is_px(top),
        ensures
            r == self.with_area((Rect { y: px_of(top), ..self.area_view() })),
    {
        self.y(top)
    }

    /// Moves the left edge to `left` pixels.
    fn left<U: Into<Unit>>(self, left: U) -> (r: Self)
        requires
            self.is_placeable(),
            is_px(left),
        ensures
            r == self.with_area((Rect { x: px_of(left), ..self.area_view() })),
    {
        self.x(left)
    }

    /// Sets the corner and the size, in pixels.
    fn pos<U: Into<Unit>>(self, x: U, y: U, width: U, height: U) -> (r: Self)
        requires
            self.is_placeable(),
            is_px(x),
            is_px(y),
            is_px(width),
            is_px(height),
        ensures
            r == self.with_area(
                Rect::new_spec(px_of(x), px_of(y), px_of(width), px_of(height)),
            ),
    {
        let ghost a0 = self.area_view();
        let ghost a1 = Rect { x: px_of(x), ..a0 };
        let ghost a2 = Rect { y: px_of(y), ..a1 };
        let ghost a3 = Rect { width: px_of(width), ..a2 };
        let ghost a4 = Rect { height: px_of(height), ..a3 };
        let moved = self.x(x);
        proof {
            self.lemma_with_area(a1, a2);
            self.lemma_with_area(a1, a3);
            self.lemma_with_area(a1, a4);
        }
        let lowered = moved.y(y);
        proof {
            self.lemma_with_area(a2, a3);
            self.lemma_with_area(a2, a4);
        }
        let wide = lowered.width(width);
        proof {
            self.lemma_with_area(a3, a4);
        }
        wide.height(height)
    }
}

impl Rect {
    /// The rectangle with the given corner and size.
    pub open spec fn new_spec(x: usize, y: usize, width: usize, height: usize) -> Rect {
        Rect { x, y, width, height }
    }
}

impl Widget for Rect {
    open spec fn area_view(&self) -> Rect {
        *self
    }

    open spec fn is_placeable(&self) -> bool {
        true
    }

    /// A bare rectangle has no primative.
    open spec fn is_drawable(&self) -> bool {
        false
    }

    open spec fn with_area(&self, area: Rect) -> Rect {
        area
    }

    open spec fn container_kind() -> bool {
        false
    }

    proof fn lemma_with_area(&self, area: Rect, next: Rect) {
    }

    /// Never called: a bare rectangle has nothing to draw.
    fn primative(&self) -> (r: Primative) {
        Primative::RectangleOutline(Color(0))
    }

    fn area(&self) -> (r: Rect) {
        *self
    }

    fn area_mut(&mut self) -> (r: Option<&mut Rect>) {
        Some(self)
    }

    fn is_container() -> (r: bool) {
        false
    }
}

} // verus!

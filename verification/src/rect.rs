//! Axis-aligned rectangles with integer coordinates, clamped the way the
//! rendering layer keeps them: positions lie in
//! `[MIN_INT_VALUE, MAX_INT_VALUE]` and sides in `[1, MAX_INT_VALUE]`.
use vstd::prelude::*;

verus! {

/// The largest coordinate and the largest side length a rectangle holds
/// (`i32::MAX / 2`).
pub const MAX_INT_VALUE: i32 = 1073741823;

/// The smallest coordinate a rectangle holds (`i32::MIN / 2`).
pub const MIN_INT_VALUE: i32 = -1073741824;

/// A side length of zero becomes one, and one above the maximum becomes the maximum.
pub open spec fn clamp_size(v: int) -> int {
    if v <= 0 {
        1
    } else if v > MAX_INT_VALUE {
        MAX_INT_VALUE as int
    } else {
        v
    }
}

/// A coordinate is clamped into `[MIN_INT_VALUE, MAX_INT_VALUE]`.
pub open spec fn clamp_position(v: int) -> int {
    if v > MAX_INT_VALUE {
        MAX_INT_VALUE as int
    } else if v < MIN_INT_VALUE {
        MIN_INT_VALUE as int
    } else {
        v
    }
}

/// The mathematical content of a rectangle: its top-left corner and its sides.
pub struct RectModel {
    pub x: int,
    pub y: int,
    pub w: int,
    pub h: int,
}

impl RectModel {
    /// The rectangle that `Rect::new` builds from the given values.
    pub open spec fn new(x: int, y: int, w: int, h: int) -> RectModel {
        RectModel { x: clamp_position(x), y: clamp_position(y), w: clamp_size(w), h: clamp_size(h) }
    }

    /// Every rectangle that exists satisfies this.
    pub open spec fn valid(self) -> bool {
        &&& MIN_INT_VALUE <= self.x <= MAX_INT_VALUE
        &&& MIN_INT_VALUE <= self.y <= MAX_INT_VALUE
        &&& 1 <= self.w <= MAX_INT_VALUE
        &&& 1 <= self.h <= MAX_INT_VALUE
    }

    pub open spec fn right(self) -> int {
        self.x + self.w
    }

    pub open spec fn bottom(self) -> int {
        self.y + self.h
    }

    pub open spec fn with_x(self, x: int) -> RectModel {
        RectModel { x: clamp_position(x), y: self.y, w: self.w, h: self.h }
    }

    pub open spec fn with_y(self, y: int) -> RectModel {
        RectModel { x: self.x, y: clamp_position(y), w: self.w, h: self.h }
    }

    /// Moves the rectangle so that its right side lies at `right` (clamped).
    pub open spec fn with_right(self, right: int) -> RectModel {
        self.with_x(clamp_position(right) - self.w)
    }

    /// Moves the rectangle so that its bottom side lies at `bottom` (clamped).
    pub open spec fn with_bottom(self, bottom: int) -> RectModel {
        self.with_y(clamp_position(bottom) - self.h)
    }

    /// The centre, rounded down, as a clamped point.
    pub open spec fn center(self) -> (int, int) {
        (clamp_position(self.x + self.w / 2), clamp_position(self.y + self.h / 2))
    }

    /// The rectangle moved so that its centre lies on `p` (clamped).
    pub open spec fn centered_on(self, p: (int, int)) -> RectModel {
        self.with_x(clamp_position(p.0) - self.w / 2).with_y(clamp_position(p.1) - self.h / 2)
    }

    /// The overlap of two rectangles, `None` where they do not overlap with
    /// a positive area (rectangles that only share an edge do not overlap).
    pub open spec fn intersect(self, other: RectModel) -> Option<RectModel> {
        let x = if self.x < other.x { other.x } else { self.x };
        let y = if self.y < other.y { other.y } else { self.y };
        let r = if self.right() < other.right() { self.right() } else { other.right() };
        let b = if self.bottom() < other.bottom() { self.bottom() } else { other.bottom() };
        if x < r && y < b {
            Some(RectModel { x, y, w: r - x, h: b - y })
        } else {
            None
        }
    }
}

/// Whether the pixel at `(px, py)` lies in the rectangle.
pub open spec fn covers(r: RectModel, px: int, py: int) -> bool {
    r.x <= px < r.x + r.w && r.y <= py < r.y + r.h
}

/// The overlap of two rectangles holds exactly the pixels that lie in both.
pub proof fn lemma_intersect_pixels(a: RectModel, b: RectModel, px: int, py: int)
    requires
        a.valid(),
        b.valid(),
    ensures
        covers(a, px, py) && covers(b, px, py) <==> (a.intersect(b) matches Some(c) && covers(c, px, py)),
{
}

/// Within the coordinate range the setters put the named side exactly
/// where asked and keep the size; centring puts the centre (rounded down) on
/// the point.
pub proof fn lemma_setters_exact(r: RectModel, v: int, p: (int, int))
    requires
        r.valid(),
    ensures
        MIN_INT_VALUE <= v <= MAX_INT_VALUE ==> r.with_x(v) == (RectModel { x: v, ..r }),
        MIN_INT_VALUE <= v <= MAX_INT_VALUE ==> r.with_y(v) == (RectModel { y: v, ..r }),
        MIN_INT_VALUE <= v - r.w && v <= MAX_INT_VALUE ==> r.with_right(v).right() == v
            && r.with_right(v).y == r.y && r.with_right(v).w == r.w && r.with_right(v).h == r.h,
        MIN_INT_VALUE <= v - r.h && v <= MAX_INT_VALUE ==> r.with_bottom(v).bottom() == v
            && r.with_bottom(v).x == r.x && r.with_bottom(v).w == r.w && r.with_bottom(v).h == r.h,
        MIN_INT_VALUE <= p.0 - r.w / 2 && p.0 <= MAX_INT_VALUE && MIN_INT_VALUE <= p.1 - r.h / 2
            && p.1 <= MAX_INT_VALUE ==> r.centered_on(p).x + r.w / 2 == p.0 && r.centered_on(p).y
            + r.h / 2 == p.1 && r.centered_on(p).w == r.w && r.centered_on(p).h == r.h,
{
}

/// An axis-aligned rectangle with a positive width and height.
#[derive(Clone, Copy, Debug, PartialEq, Eq, Structural)]
pub struct Rect {
    x: i32,
    y: i32,
    w: i32,
    h: i32,
}

impl View for Rect {
    type V = RectModel;

    closed spec fn view(&self) -> RectModel {
        RectModel { x: self.x as int, y: self.y as int, w: self.w as int, h: self.h as int }
    }
}

fn clamp_size_exec(v: u32) -> (r: i32)
    ensures
        r == clamp_size(v as int),
{
    if v == 0 {
        1
    } else if v > MAX_INT_VALUE as u32 {
        MAX_INT_VALUE
    } else {
        v as i32
    }
}

fn clamp_position_exec(v: i32) -> (r: i32)
    ensures
        r == clamp_position(v as int),
{
    if v > MAX_INT_VALUE {
        MAX_INT_VALUE
    } else if v < MIN_INT_VALUE {
        MIN_INT_VALUE
    } else {
        v
    }
}

impl Rect {
    #[verifier::type_invariant]
    spec fn inv(self) -> bool {
        self@.valid()
    }

    /// A rectangle with the given corner and sides, each clamped into range.
    pub fn new(x: i32, y: i32, width: u32, height: u32) -> (r: Rect)
        ensures
            r@ == RectModel::new(x as int, y as int, width as int, height as int),
            r@.valid(),
    {
        Rect {
            x: clamp_position_exec(x),
            y: clamp_position_exec(y),
            w: clamp_size_exec(width),
            h: clamp_size_exec(height),
        }
    }

    pub fn x(&self) -> (r: i32)
        ensures
            r == self@.x,
            self@.valid(),
    {
        proof {
            use_type_invariant(self);
        }
        self.x
    }

    pub fn y(&self) -> (r: i32)
        ensures
            r == self@.y,
            self@.valid(),
    {
        proof {
            use_type_invariant(self);
        }
        self.y
    }

    pub fn width(&self) -> (r: u32)
        ensures
            r == self@.w,
            self@.valid(),
    {
        proof {
            use_type_invariant(self);
        }
        self.w as u32
    }

    pub fn height(&self) -> (r: u32)
        ensures
            r == self@.h,
            self@.valid(),
    {
        proof {
            use_type_invariant(self);
        }
        self.h as u32
    }

    pub fn left(&self) -> (r: i32)
        ensures
            r == self@.x,
            self@.valid(),
    {
        self.x()
    }

    pub fn top(&self) -> (r: i32)
        ensures
            r == self@.y,
            self@.valid(),
    {
        self.y()
    }

    pub fn right(&self) -> (r: i32)
        ensures
            r == self@.right(),
            self@.valid(),
    {
        proof {
            use_type_invariant(self);
        }
        self.x + self.w
    }

    pub fn bottom(&self) -> (r: i32)
        ensures
            r == self@.bottom(),
            self@.valid(),
    {
        proof {
            use_type_invariant(self);
        }
        self.y + self.h
    }

    /// The centre, rounded down.
    pub fn center(&self) -> (r: (i32, i32))
        ensures
            (r.0 as int, r.1 as int) == self@.center(),
    {
        proof {
            use_type_invariant(self);
        }
        (clamp_position_exec(self.x + self.w / 2), clamp_position_exec(self.y + self.h / 2))
    }

    pub fn set_x(&mut self, x: i32)
        ensures
            final(self)@ == old(self)@.with_x(x as int),
    {
        proof {
            use_type_invariant(&*self);
        }
        self.x = clamp_position_exec(x);
    }

    pub fn set_y(&mut self, y: i32)
        ensures
            final(self)@ == old(self)@.with_y(y as int),
    {
        proof {
            use_type_invariant(&*self);
        }
        self.y = clamp_position_exec(y);
    }

    pub fn set_right(&mut self, right: i32)
        ensures
            final(self)@ == old(self)@.with_right(right as int),
    {
        proof {
            use_type_invariant(&*self);
        }
        let r = clamp_position_exec(right);
        self.x = clamp_position_exec(r - self.w);
    }

    pub fn set_bottom(&mut self, bottom: i32)
        ensures
            final(self)@ == old(self)@.with_bottom(bottom as int),
    {
        proof {
            use_type_invariant(&*self);
        }
        let b = clamp_position_exec(bottom);
        self.y = clamp_position_exec(b - self.h);
    }

    /// Moves the rectangle so that its centre lies on `p`.
    pub fn center_on(&mut self, p: (i32, i32))
        ensures
            final(self)@ == old(self)@.centered_on((p.0 as int, p.1 as int)),
    {
        proof {
            use_type_invariant(&*self);
        }
        let px = clamp_position_exec(p.0);
        let py = clamp_position_exec(p.1);
        self.x = clamp_position_exec(px - self.w / 2);
        self.y = clamp_position_exec(py - self.h / 2);
    }

    /// The overlap of the two rectangles, if it has a positive area.
    pub fn intersection(&self, other: Rect) -> (r: Option<Rect>)
        ensures
            match r {
                Some(i) => self@.intersect(other@) == Some(i@),
                None => self@.intersect(other@) is None,
            },
            self@.valid(),
            other@.valid(),
    {
        proof {
            use_type_invariant(self);
            use_type_invariant(&other);
        }
        let x = if self.x < other.x { other.x } else { self.x };
        let y = if self.y < other.y { other.y } else { self.y };
        let r = if self.x + self.w < other.x + other.w { self.x + self.w } else { other.x + other.w };
        let b = if self.y + self.h < other.y + other.h { self.y + self.h } else { other.y + other.h };
        if x < r && y < b {
            Some(Rect { x, y, w: r - x, h: b - y })
        } else {
            None
        }
    }
}

} // verus!

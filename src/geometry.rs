use vstd::prelude::*;

verus! {

/// Largest magnitude of a coordinate or extent accepted in a frame.
pub const MAX_COORD: i64 = 1_099_511_627_776;

/// The main axis of a layout: items run left to right, or top to bottom.
#[derive(Clone, Copy, Debug, PartialEq, Eq, Structural)]
pub enum Direction {
    Right,
    Down,
}

/// Offsets at the start and end of the main and cross axes.
#[derive(Clone, Copy, Debug, PartialEq, Eq, Structural)]
pub struct Padding {
    pub start_main: u32,
    pub start_cross: u32,
    pub end_main: u32,
    pub end_cross: u32,
}

impl Padding {
    pub fn new(start_main: u32, start_cross: u32, end_main: u32, end_cross: u32) -> (r: Padding)
        ensures
            r.start_main == start_main,
            r.start_cross == start_cross,
            r.end_main == end_main,
            r.end_cross == end_cross,
    {
        Padding { start_main, start_cross, end_main, end_cross }
    }

    pub fn none() -> (r: Padding)
        ensures
            r.start_main == 0 && r.start_cross == 0 && r.end_main == 0 && r.end_cross == 0,
    {
        Self::equal(0)
    }

    pub fn equal(amount: u32) -> (r: Padding)
        ensures
            r.start_main == amount,
            r.start_cross == amount,
            r.end_main == amount,
            r.end_cross == amount,
    {
        Padding { start_main: amount, start_cross: amount, end_main: amount, end_cross: amount }
    }

    /// Total padding along the main axis.
    pub open spec fn main_total(self) -> int {
        self.start_main + self.end_main
    }
}

/// An axis-aligned rectangle in whole pixels.
#[derive(Clone, Copy, Debug, PartialEq, Eq, Structural)]
pub struct Rect {
    pub x: i64,
    pub y: i64,
    pub width: i64,
    pub height: i64,
}

/// Maps a point given relative to a rectangle into absolute coordinates.
pub trait Lerp<P> {
    fn lerp(&self, p: P) -> P;
}

/// Maps an absolute point into coordinates relative to a rectangle.
pub trait Alpha<P> {
    fn alpha(&self, p: P) -> P;
}

impl Rect {
    pub fn new(x: i64, y: i64, width: i64, height: i64) -> (r: Rect)
        ensures
            r.x == x && r.y == y && r.width == width && r.height == height,
    {
        Rect { x, y, width, height }
    }

    pub fn empty() -> (r: Rect)
        ensures
            r.x == 0 && r.y == 0 && r.width == 0 && r.height == 0,
    {
        Rect { x: 0, y: 0, width: 0, height: 0 }
    }

    /// A frame that a layout or a grid can work in: non-negative extents,
    /// every field within `MAX_COORD` of zero.
    pub open spec fn in_range(self) -> bool {
        &&& -MAX_COORD <= self.x <= MAX_COORD
        &&& -MAX_COORD <= self.y <= MAX_COORD
        &&& 0 <= self.width <= MAX_COORD
        &&& 0 <= self.height <= MAX_COORD
    }

    pub fn is_in_range(&self) -> (r: bool)
        ensures
            r == self.in_range(),
    {
        -MAX_COORD <= self.x && self.x <= MAX_COORD && -MAX_COORD <= self.y && self.y <= MAX_COORD
            && 0 <= self.width && self.width <= MAX_COORD && 0 <= self.height && self.height
            <= MAX_COORD
    }

    pub fn max_x(&self) -> (r: i64)
        requires
            self.in_range(),
        ensures
            r == self.x + self.width,
    {
        self.x + self.width
    }

    pub fn max_y(&self) -> (r: i64)
        requires
            self.in_range(),
        ensures
            r == self.y + self.height,
    {
        self.y + self.height
    }
}

/// The frame's extent along the main axis of `direction`.
pub open spec fn axis_length(frame: Rect, direction: Direction) -> int {
    match direction {
        Direction::Right => frame.width as int,
        Direction::Down => frame.height as int,
    }
}

/// The frame's coordinate where the main axis of `direction` begins.
pub open spec fn axis_origin(frame: Rect, direction: Direction) -> int {
    match direction {
        Direction::Right => frame.x as int,
        Direction::Down => frame.y as int,
    }
}

pub(crate) fn get_axis_length(frame: &Rect, direction: Direction) -> (r: i64)
    ensures
        r == axis_length(*frame, direction),
{
    match direction {
        Direction::Down => frame.height,
        Direction::Right => frame.width,
    }
}

} // verus!

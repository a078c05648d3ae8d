use vstd::prelude::*;

verus! {

/// A cardinal direction on the screen.
#[derive(Clone, Copy, Debug, PartialEq, Eq, Hash, Structural)]
pub enum Direction {
    Left,
    Right,
    Up,
    Down,
}

/// The axis along which a direction moves.
#[derive(Clone, Copy, Debug, PartialEq, Eq, Hash, Structural)]
pub enum Orientation {
    Horizontal,
    Vertical,
}

impl Direction {
    pub open spec fn spec_opposite(self) -> Direction {
        match self {
            Direction::Left => Direction::Right,
            Direction::Right => Direction::Left,
            Direction::Up => Direction::Down,
            Direction::Down => Direction::Up,
        }
    }

    pub open spec fn spec_axis(self) -> Orientation {
        match self {
            Direction::Left | Direction::Right => Orientation::Horizontal,
            Direction::Up | Direction::Down => Orientation::Vertical,
        }
    }

    /// The direction pointing the other way.
    pub fn opposite(&self) -> (r: Direction)
        ensures
            r == self.spec_opposite(),
    {
        match self {
            Direction::Left => Direction::Right,
            Direction::Right => Direction::Left,
            Direction::Up => Direction::Down,
            Direction::Down => Direction::Up,
        }
    }

    /// Left and right move horizontally, up and down vertically.
    pub fn axis(&self) -> (r: Orientation)
        ensures
            r == self.spec_axis(),
    {
        match self {
            Direction::Left | Direction::Right => Orientation::Horizontal,
            Direction::Up | Direction::Down => Orientation::Vertical,
        }
    }
}

/// Squared euclidean distance between two points.
pub open spec fn spec_distance(a: (i32, i32), b: (i32, i32)) -> int {
    (a.0 - b.0) * (a.0 - b.0) + (a.1 - b.1) * (a.1 - b.1)
}

/// Squared euclidean distance between two points; it orders points as the
/// euclidean distance does.
pub fn distance(a: (i32, i32), b: (i32, i32)) -> (d: u128)
    ensures
        d == spec_distance(a, b),
{
    let dx: i64 = a.0 as i64 - b.0 as i64;
    let dy: i64 = a.1 as i64 - b.1 as i64;
    let ax: u64 = if dx < 0 { (-dx) as u64 } else { dx as u64 };
    let ay: u64 = if dy < 0 { (-dy) as u64 } else { dy as u64 };
    assert(ax * ax == dx * dx) by (nonlinear_arith)
        requires ax == dx || ax == -dx;
    assert(ay * ay == dy * dy) by (nonlinear_arith)
        requires ay == dy || ay == -dy;
    assert(ax * ax <= 0x1_0000_0000 * 0x1_0000_0000) by (nonlinear_arith)
        requires ax <= 0x1_0000_0000;
    assert(ay * ay <= 0x1_0000_0000 * 0x1_0000_0000) by (nonlinear_arith)
        requires ay <= 0x1_0000_0000;
    let sx: u128 = (ax as u128) * (ax as u128);
    let sy: u128 = (ay as u128) * (ay as u128);
    sx + sy
}

/// A rectangle on the screen: its top left corner and its size.
#[derive(Clone, Copy, Debug, PartialEq, Eq, Hash, Structural)]
pub struct Area {
    pub x: i32,
    pub y: i32,
    pub width: u16,
    pub height: u16,
}

impl Area {
    /// The right and bottom edges are representable as `i32`.
    pub open spec fn wf(self) -> bool {
        &&& self.x + self.width <= i32::MAX
        &&& self.y + self.height <= i32::MAX
    }

    pub open spec fn right(self) -> int {
        self.x + self.width
    }

    pub open spec fn bottom(self) -> int {
        self.y + self.height
    }

    pub open spec fn center(self) -> (int, int) {
        (self.x + self.width / 2, self.y + self.height / 2)
    }

    pub open spec fn spec_contains(self, p: (i32, i32)) -> bool {
        self.x <= p.0 <= self.right() && self.y <= p.1 <= self.bottom()
    }

    pub open spec fn edge(self, d: Direction) -> int {
        match d {
            Direction::Left => self.x as int,
            Direction::Right => self.right(),
            Direction::Up => self.y as int,
            Direction::Down => self.bottom(),
        }
    }

    /// The two corners that bound the side of the area facing `d`.
    pub open spec fn corners(self, d: Direction) -> [(int, int); 2] {
        match d {
            Direction::Left => [(self.x as int, self.y as int), (self.x as int, self.bottom())],
            Direction::Right => [(self.right(), self.y as int), (self.right(), self.bottom())],
            Direction::Up => [(self.x as int, self.y as int), (self.right(), self.y as int)],
            Direction::Down => [(self.x as int, self.bottom()), (self.right(), self.bottom())],
        }
    }

    /// The middle point of the side of the area facing `d`.
    pub open spec fn center_in_direction(self, d: Direction) -> (int, int) {
        match d {
            Direction::Left => (self.x as int, self.center().1),
            Direction::Right => (self.right(), self.center().1),
            Direction::Up => (self.center().0, self.y as int),
            Direction::Down => (self.center().0, self.bottom()),
        }
    }

    pub fn new(x: i32, y: i32, width: u16, height: u16) -> (a: Area)
        ensures
            a == (Area { x, y, width, height }),
    {
        Area { x, y, width, height }
    }

    pub fn get_right_edge(&self) -> (r: i32)
        requires
            self.wf(),
        ensures
            r == self.right(),
    {
        self.x + self.width as i32
    }

    pub fn get_bottom_edge(&self) -> (r: i32)
        requires
            self.wf(),
        ensures
            r == self.bottom(),
    {
        self.y + self.height as i32
    }

    pub fn get_center(&self) -> (c: (i32, i32))
        requires
            self.wf(),
        ensures
            c.0 == self.center().0,
            c.1 == self.center().1,
    {
        (self.x + (self.width / 2) as i32, self.y + (self.height / 2) as i32)
    }

    /// The coordinate of the side of the area facing `direction`.
    pub fn get_edge(&self, direction: Direction) -> (e: i32)
        requires
            self.wf(),
        ensures
            e == self.edge(direction),
    {
        match direction {
            Direction::Left => self.x,
            Direction::Right => self.get_right_edge(),
            Direction::Up => self.y,
            Direction::Down => self.get_bottom_edge(),
        }
    }

    pub fn get_nw_corner(&self) -> (p: (i32, i32))
        ensures
            p == (self.x, self.y),
    {
        (self.x, self.y)
    }

    pub fn get_ne_corner(&self) -> (p: (i32, i32))
        requires
            self.wf(),
        ensures
            p.0 == self.right() && p.1 == self.y,
    {
        (self.get_right_edge(), self.y)
    }

    pub fn get_se_corner(&self) -> (p: (i32, i32))
        requires
            self.wf(),
        ensures
            p.0 == self.right() && p.1 == self.bottom(),
    {
        (self.get_right_edge(), self.get_bottom_edge())
    }

    pub fn get_sw_corner(&self) -> (p: (i32, i32))
        requires
            self.wf(),
        ensures
            p.0 == self.x && p.1 == self.bottom(),
    {
        (self.x, self.get_bottom_edge())
    }

    /// The two corners bounding the side of the area facing `direction`.
    pub fn get_corners(&self, direction: Direction) -> (c: [(i32, i32); 2])
        requires
            self.wf(),
        ensures
            c[0].0 == self.corners(direction)[0].0,
            c[0].1 == self.corners(direction)[0].1,
            c[1].0 == self.corners(direction)[1].0,
            c[1].1 == self.corners(direction)[1].1,
    {
        match direction {
            Direction::Left => [self.get_nw_corner(), self.get_sw_corner()],
            Direction::Right => [self.get_ne_corner(), self.get_se_corner()],
            Direction::Up => [self.get_nw_corner(), self.get_ne_corner()],
            Direction::Down => [self.get_sw_corner(), self.get_se_corner()],
        }
    }

    /// The middle point of the side of the area facing `direction`.
    pub fn get_center_in_direction(&self, direction: Direction) -> (p: (i32, i32))
        requires
            self.wf(),
        ensures
            p.0 == self.center_in_direction(direction).0,
            p.1 == self.center_in_direction(direction).1,
    {
        let c = self.get_center();
        match direction {
            Direction::Left => (self.x, c.1),
            Direction::Right => (self.get_right_edge(), c.1),
            Direction::Up => (c.0, self.y),
            Direction::Down => (c.0, self.get_bottom_edge()),
        }
    }

    /// Whether the point lies in the area, borders included.
    pub fn contains(&self, point: (i32, i32)) -> (b: bool)
        requires
            self.wf(),
        ensures
            b == self.spec_contains(point),
    {
        self.x <= point.0 && point.0 <= self.get_right_edge() && self.y <= point.1 && point.1
            <= self.get_bottom_edge()
    }

    /// The horizontal span of the area meets the open range `(a, b)`.
    pub open spec fn spec_overlaps_x(self, a: int, b: int) -> bool {
        self.x < b && a < self.right()
    }

    /// The vertical span of the area meets the open range `(a, b)`.
    pub open spec fn spec_overlaps_y(self, a: int, b: int) -> bool {
        self.y < b && a < self.bottom()
    }

    pub open spec fn spec_contains_x(self, v: int) -> bool {
        self.x <= v <= self.right()
    }

    pub open spec fn spec_contains_y(self, v: int) -> bool {
        self.y <= v <= self.bottom()
    }

    pub fn overlaps_x(&self, a: i32, b: i32) -> (r: bool)
        requires
            self.wf(),
        ensures
            r == self.spec_overlaps_x(a as int, b as int),
    {
        self.x < b && a < self.get_right_edge()
    }

    pub fn overlaps_y(&self, a: i32, b: i32) -> (r: bool)
        requires
            self.wf(),
        ensures
            r == self.spec_overlaps_y(a as int, b as int),
    {
        self.y < b && a < self.get_bottom_edge()
    }

    pub fn contains_x(&self, v: i32) -> (r: bool)
        requires
            self.wf(),
        ensures
            r == self.spec_contains_x(v as int),
    {
        self.x <= v && v <= self.get_right_edge()
    }

    pub fn contains_y(&self, v: i32) -> (r: bool)
        requires
            self.wf(),
        ensures
            r == self.spec_contains_y(v as int),
    {
        self.y <= v && v <= self.get_bottom_edge()
    }

    /// Moves the area by `(dx, dy)` and grows it by `(dw, dh)`.
    pub fn shift(&self, shift: (i16, i16, i16, i16)) -> (a: Area)
        requires
            i32::MIN <= self.x + shift.0 <= i32::MAX,
            i32::MIN <= self.y + shift.1 <= i32::MAX,
            0 <= self.width + shift.2 <= u16::MAX,
            0 <= self.height + shift.3 <= u16::MAX,
        ensures
            a.x == self.x + shift.0,
            a.y == self.y + shift.1,
            a.width == self.width + shift.2,
            a.height == self.height + shift.3,
    {
        Area {
            x: self.x + shift.0 as i32,
            y: self.y + shift.1 as i32,
            width: (self.width as i32 + shift.2 as i32) as u16,
            height: (self.height as i32 + shift.3 as i32) as u16,
        }
    }

    /// The surface of the area.
    pub fn calc_area(&self) -> (s: u32)
        ensures
            s == self.width * self.height,
    {
        assert(self.width * self.height <= 0xffff * 0xffff) by (nonlinear_arith)
            requires self.width <= 0xffff, self.height <= 0xffff;
        self.width as u32 * self.height as u32
    }
}

} // verus!

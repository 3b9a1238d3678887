use vstd::prelude::*;

verus! {

/// An axis-aligned box: a corner, a width and a height.
pub struct BoxCollider {
    position_x: i64,
    position_y: i64,
    width: i64,
    height: i64,
}

impl BoxCollider {
    pub closed spec fn x(&self) -> int {
        self.position_x as int
    }

    pub closed spec fn y(&self) -> int {
        self.position_y as int
    }

    pub closed spec fn w(&self) -> int {
        self.width as int
    }

    pub closed spec fn h(&self) -> int {
        self.height as int
    }

    /// The point lies in the box, edges included.
    pub open spec fn contains(&self, px: int, py: int) -> bool {
        self.x() <= px <= self.x() + self.w() && self.y() <= py <= self.y() + self.h()
    }

    pub fn new(position_x: i64, position_y: i64, width: i64, height: i64) -> (b: BoxCollider)
        ensures
            b.x() == position_x,
            b.y() == position_y,
            b.w() == width,
            b.h() == height,
    {
        BoxCollider { position_x, position_y, width, height }
    }

    pub fn set_position(&mut self, position_x: i64, position_y: i64)
        ensures
            final(self).x() == position_x,
            final(self).y() == position_y,
            final(self).w() == old(self).w(),
            final(self).h() == old(self).h(),
    {
        self.position_x = position_x;
        self.position_y = position_y;
    }

    pub fn set_size(&mut self, width: i64, height: i64)
        ensures
            final(self).x() == old(self).x(),
            final(self).y() == old(self).y(),
            final(self).w() == width,
            final(self).h() == height,
    {
        self.width = width;
        self.height = height;
    }

    /// Whether `(point_x, point_y)` lies in the box, edges included.
    pub fn is_point_in_box(&self, point_x: i64, point_y: i64) -> (r: bool)
        ensures
            r == self.contains(point_x as int, point_y as int),
    {
        let px = point_x as i128;
        let py = point_y as i128;
        let x = self.position_x as i128;
        let y = self.position_y as i128;
        px >= x && px <= x + self.width as i128 && py >= y && py <= y + self.height as i128
    }
}

} // verus!

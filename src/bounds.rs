//! Axis-aligned collision bounds centred on an entity.

use vstd::prelude::*;
use crate::geometry::{Vec2, Rect, COORD_LIMIT, point_in_range};

verus! {

/// Largest width or height of collision bounds, in milli-units.
pub const MAX_EXTENT: i64 = 0x10_0000;

/// A rectangle of fixed, even size centred on a position.
#[derive(Clone, Copy, Debug, PartialEq, Eq, Structural)]
pub struct CdBounds {
    pub position: Vec2,
    pub w: i64,
    pub h: i64,
}

impl CdBounds {
    pub open spec fn wf(self) -> bool {
        &&& point_in_range(self.position)
        &&& 0 <= self.w <= MAX_EXTENT
        &&& 0 <= self.h <= MAX_EXTENT
        &&& self.w % 2 == 0
        &&& self.h % 2 == 0
    }

    /// The two bounds overlap, edges included: along each axis the centres
    /// are at most half the summed sizes apart.
    pub open spec fn touches(self, o: CdBounds) -> bool {
        &&& 2 * crate::movable::abs(self.position.x - o.position.x) <= self.w + o.w
        &&& 2 * crate::movable::abs(self.position.y - o.position.y) <= self.h + o.h
    }

    pub open spec fn rect(self) -> Rect {
        Rect {
            x: (self.position.x - self.w / 2) as i64,
            y: (self.position.y - self.h / 2) as i64,
            w: self.w,
            h: self.h,
        }
    }

    pub fn new(position: Vec2, w: i64, h: i64) -> (r: CdBounds)
        requires
            point_in_range(position),
            0 <= w <= MAX_EXTENT,
            0 <= h <= MAX_EXTENT,
            w % 2 == 0,
            h % 2 == 0,
        ensures
            r.wf(),
            r == (CdBounds { position, w, h }),
    {
        CdBounds { position, w, h }
    }

    pub fn update_position(&mut self, position: &Vec2)
        requires
            old(self).wf(),
            point_in_range(*position),
        ensures
            final(self).wf(),
            *final(self) == (CdBounds { position: *position, ..*old(self) }),
    {
        self.position = *position;
    }

    pub fn get_rect(&self) -> (r: Rect)
        requires
            self.wf(),
        ensures
            r == self.rect(),
            r.wf(),
    {
        Rect::new(self.position.x - self.w / 2, self.position.y - self.h / 2, self.w, self.h)
    }

    /// The two bounds share a point, edges included.
    pub fn collide_with(&self, other: &CdBounds) -> (r: bool)
        requires
            self.wf(),
            other.wf(),
        ensures
            r == self.rect().overlaps_spec(other.rect()),
            r == self.touches(*other),
    {
        self.get_rect().overlaps(&other.get_rect())
    }
}

} // verus!

//! The affine map from a document's extent into the target frame.
use vstd::prelude::*;
use vstd::arithmetic::div_mod::{
    lemma_div_is_ordered, lemma_div_pos_is_pos, lemma_fundamental_div_mod_converse,
};
use crate::extent::Extent;
use crate::geometry::{Point, COORD_LIMIT, UNITS_PER_USER_UNIT};

verus! {

/// Why an extent cannot be turned into a mapper.
#[derive(Clone, Copy, Debug, PartialEq, Eq, Structural)]
pub enum GeometryError {
    /// A relative move or line was seen, or no absolute point at all.
    InvalidGeometry,
    /// The box has zero width or zero height.
    DegenerateGeometry,
}

/// Maps points of a validated extent into `[0, target_x_length] x [0, target_y_length]`.
#[derive(Clone, Copy, Debug, PartialEq, Eq, Structural)]
pub struct CoordinateMapper {
    pub x_min: i64,
    pub y_min: i64,
    pub x_length: i64,
    pub y_length: i64,
    pub target_x_length: i64,
    pub target_y_length: i64,
}

/// The frame that an output document declares: origin, width and height in
/// user units.
#[derive(Clone, Copy, Debug, PartialEq, Eq, Structural)]
pub struct Frame {
    pub x: i64,
    pub y: i64,
    pub width: i64,
    pub height: i64,
}

/// `(v - min) / len * target`, rounded to the nearest integer, halves upwards.
pub open spec fn scale(v: int, min: int, len: int, target: int) -> int {
    (2 * (v - min) * target + len) / (2 * len)
}

/// A target length in coordinate units: the requested size in user units, or
/// the source length where none is requested.
pub open spec fn target_length(len: int, requested: Option<u8>) -> int {
    match requested {
        Some(w) => w as int * UNITS_PER_USER_UNIT as int,
        None => len,
    }
}

/// A non-negative length in coordinate units, rounded to whole user units,
/// halves away from zero.
pub open spec fn round_units(v: int) -> int {
    (v + UNITS_PER_USER_UNIT as int / 2) / UNITS_PER_USER_UNIT as int
}

/// The scaled value stays within `[0, target]` and meets both ends exactly.
pub proof fn lemma_scale_bounds(v: int, min: int, len: int, target: int)
    requires
        0 < len,
        0 <= target,
        min <= v <= min + len,
    ensures
        0 <= scale(v, min, len, target) <= target,
        scale(min, min, len, target) == 0,
        scale(min + len, min, len, target) == target,
{
    let d = 2 * len;
    assert(0 <= 2 * (v - min) * target) by (nonlinear_arith)
        requires min <= v, 0 <= target;
    assert(2 * (v - min) * target <= target * d) by (nonlinear_arith)
        requires v - min <= len, 0 <= target, d == 2 * len;
    lemma_div_pos_is_pos(2 * (v - min) * target + len, d);
    lemma_fundamental_div_mod_converse(target * d + len, d, target, len);
    lemma_div_is_ordered(2 * (v - min) * target + len, target * d + len, d);
    lemma_fundamental_div_mod_converse(len, d, 0, len);
    assert(2 * (min - min) * target == 0) by (nonlinear_arith);
    assert(2 * (min + len - min) * target + len == target * d + len) by (nonlinear_arith)
        requires d == 2 * len;
}

/// With the target equal to the source length, a coordinate only loses `min`.
pub proof fn lemma_scale_identity(v: int, min: int, len: int)
    requires
        0 < len,
        min <= v,
    ensures
        scale(v, min, len, len) == v - min,
{
    let d = 2 * len;
    assert(2 * (v - min) * len + len == (v - min) * d + len) by (nonlinear_arith)
        requires d == 2 * len;
    lemma_fundamental_div_mod_converse((v - min) * d + len, d, v - min, len);
}

impl CoordinateMapper {
    /// The source box lies within the supported range, both lengths are
    /// positive and the targets are non-negative and bounded.
    pub open spec fn wf(self) -> bool {
        &&& (Point { x: self.x_min, y: self.y_min }).in_range()
        &&& 0 < self.x_length
        &&& 0 < self.y_length
        &&& self.x_min + self.x_length <= COORD_LIMIT
        &&& self.y_min + self.y_length <= COORD_LIMIT
        &&& 0 <= self.target_x_length <= 2 * COORD_LIMIT
        &&& 0 <= self.target_y_length <= 2 * COORD_LIMIT
    }

    /// The point lies within the source box.
    pub open spec fn contains(self, p: Point) -> bool {
        &&& self.x_min <= p.x <= self.x_min + self.x_length
        &&& self.y_min <= p.y <= self.y_min + self.y_length
    }

    /// Where the mapper sends a point of its source box.
    pub open spec fn map_spec(self, p: Point) -> Point {
        Point {
            x: scale(p.x as int, self.x_min as int, self.x_length as int, self.target_x_length as int) as i64,
            y: scale(p.y as int, self.y_min as int, self.y_length as int, self.target_y_length as int) as i64,
        }
    }

    /// The frame of the output document.
    pub open spec fn frame_spec(self) -> Frame {
        Frame {
            x: 0,
            y: 0,
            width: round_units(self.target_x_length as int) as i64,
            height: round_units(self.target_y_length as int) as i64,
        }
    }

    /// Maps one point of the source box into the target box.
    pub fn map(&self, p: &Point) -> (r: Point)
        requires
            self.wf(),
            self.contains(*p),
        ensures
            r == self.map_spec(*p),
            0 <= r.x <= self.target_x_length,
            0 <= r.y <= self.target_y_length,
    {
        proof {
            lemma_scale_bounds(p.x as int, self.x_min as int, self.x_length as int, self.target_x_length as int);
            lemma_scale_bounds(p.y as int, self.y_min as int, self.y_length as int, self.target_y_length as int);
        }
        let x = scale_coord(p.x, self.x_min, self.x_length, self.target_x_length);
        let y = scale_coord(p.y, self.y_min, self.y_length, self.target_y_length);
        Point { x, y }
    }

    /// The frame `(0, 0, width, height)` of the output document: each target
    /// length rounded to whole user units.
    pub fn view_box(&self) -> (r: Frame)
        requires
            self.wf(),
        ensures
            r == self.frame_spec(),
    {
        let half = UNITS_PER_USER_UNIT / 2;
        Frame {
            x: 0,
            y: 0,
            width: (self.target_x_length + half) / UNITS_PER_USER_UNIT,
            height: (self.target_y_length + half) / UNITS_PER_USER_UNIT,
        }
    }
}

/// One coordinate through `scale`, computed without overflow.
fn scale_coord(v: i64, min: i64, len: i64, target: i64) -> (r: i64)
    requires
        0 < len,
        -COORD_LIMIT <= min,
        min + len <= COORD_LIMIT,
        min <= v <= min + len,
        0 <= target <= 2 * COORD_LIMIT,
    ensures
        r == scale(v as int, min as int, len as int, target as int),
{
    proof {
        lemma_scale_bounds(v as int, min as int, len as int, target as int);
    }
    let d: i128 = v as i128 - min as i128;
    let t: i128 = target as i128;
    assert(0 <= d * t <= 4_000_000_000_000_000_000_000_000_000_000) by (nonlinear_arith)
        requires 0 <= d <= 2_000_000_000_000_000, 0 <= t <= 2_000_000_000_000_000;
    let prod: i128 = d * t;
    let num: i128 = 2 * prod + len as i128;
    let q: i128 = num / (2 * len as i128);
    assert(2 * (d * t) == 2 * d * t) by (nonlinear_arith);
    q as i64
}

impl Extent {
    /// Some absolute point was seen and no relative move or line.
    pub fn is_valid(&self) -> (r: bool)
        ensures
            r == (self.all_absolute && self.seen_point),
    {
        self.all_absolute && self.seen_point
    }

    /// The mapper that `prepare` builds from a valid, non-degenerate extent.
    pub open spec fn mapper_spec(self, width: Option<u8>, length: Option<u8>) -> CoordinateMapper {
        CoordinateMapper {
            x_min: self.x_min,
            y_min: self.y_min,
            x_length: (self.x_max - self.x_min) as i64,
            y_length: (self.y_max - self.y_min) as i64,
            target_x_length: target_length(self.x_max - self.x_min, width) as i64,
            target_y_length: target_length(self.y_max - self.y_min, length) as i64,
        }
    }

    /// Freezes the extent into a mapper whose targets are the requested width
    /// and length in user units, or else the extent's own lengths.
    pub fn prepare(&self, width: Option<u8>, length: Option<u8>) -> (r: Result<CoordinateMapper, GeometryError>)
        requires
            self.wf(),
        ensures
            !(self.all_absolute && self.seen_point) ==> r == Err::<CoordinateMapper, GeometryError>(
                GeometryError::InvalidGeometry,
            ),
            self.all_absolute && self.seen_point && (self.x_min == self.x_max || self.y_min == self.y_max)
                ==> r == Err::<CoordinateMapper, GeometryError>(GeometryError::DegenerateGeometry),
            self.all_absolute && self.seen_point && self.x_min != self.x_max && self.y_min != self.y_max
                ==> r == Ok::<CoordinateMapper, GeometryError>(self.mapper_spec(width, length)),
            r matches Ok(m) ==> m.wf(),
    {
        if !self.is_valid() {
            return Err(GeometryError::InvalidGeometry);
        }
        if self.x_min == self.x_max || self.y_min == self.y_max {
            return Err(GeometryError::DegenerateGeometry);
        }
        let x_length = self.x_max - self.x_min;
        let y_length = self.y_max - self.y_min;
        let target_x_length = match width {
            Some(w) => w as i64 * UNITS_PER_USER_UNIT,
            None => x_length,
        };
        let target_y_length = match length {
            Some(l) => l as i64 * UNITS_PER_USER_UNIT,
            None => y_length,
        };
        Ok(CoordinateMapper {
            x_min: self.x_min,
            y_min: self.y_min,
            x_length,
            y_length,
            target_x_length,
            target_y_length,
        })
    }
}

} // verus!

//! Coordinate words, their order, and axis-aligned bounding boxes.
//!
//! A coordinate is carried as the bit pattern of an IEEE 754 binary32
//! number, stored in a plain `u32` ("coordinate word"). The order defined
//! here is the total order on bit patterns that agrees with the numeric
//! order of the encoded values wherever both are defined: words with the
//! sign bit clear keep their unsigned order above all words with the sign
//! bit set, whose order is reversed.

use vstd::prelude::*;

verus! {

/// A 2D point, both coordinates given as coordinate words.
#[derive(Clone, Copy, PartialEq, Eq, Structural, Debug)]
pub struct Point {
    pub x: u32,
    pub y: u32,
}

/// An axis-aligned bounding box over coordinate words.
#[derive(Clone, Copy, PartialEq, Eq, Structural, Debug)]
pub struct Bbox {
    pub min_x: u32,
    pub min_y: u32,
    pub max_x: u32,
    pub max_y: u32,
}

/// Order key of a coordinate word: monotone in the encoded value, so that
/// unsigned comparison of keys decides the order of coordinates.
pub open spec fn coord_key(w: u32) -> u32 {
    if w >= 0x8000_0000 {
        w ^ 0xFFFF_FFFFu32
    } else {
        w | 0x8000_0000u32
    }
}

/// The coordinate encoded by `a` is at most the one encoded by `b`.
pub open spec fn coord_le(a: u32, b: u32) -> bool {
    coord_key(a) <= coord_key(b)
}

/// The smaller of two coordinate words.
pub open spec fn coord_min(a: u32, b: u32) -> u32 {
    if coord_le(a, b) {
        a
    } else {
        b
    }
}

/// The larger of two coordinate words.
pub open spec fn coord_max(a: u32, b: u32) -> u32 {
    if coord_le(a, b) {
        b
    } else {
        a
    }
}

pub fn le_coord(a: u32, b: u32) -> (r: bool)
    ensures
        r == coord_le(a, b),
{
    let ka: u32 = if a >= 0x8000_0000 {
        a ^ 0xFFFF_FFFF
    } else {
        a | 0x8000_0000
    };
    let kb: u32 = if b >= 0x8000_0000 {
        b ^ 0xFFFF_FFFF
    } else {
        b | 0x8000_0000
    };
    ka <= kb
}

pub fn min_coord(a: u32, b: u32) -> (r: u32)
    ensures
        r == coord_min(a, b),
{
    if le_coord(a, b) {
        a
    } else {
        b
    }
}

pub fn max_coord(a: u32, b: u32) -> (r: u32)
    ensures
        r == coord_max(a, b),
{
    if le_coord(a, b) {
        b
    } else {
        a
    }
}

/// The box spanning a single point.
pub open spec fn point_bbox(p: Point) -> Bbox {
    Bbox { min_x: p.x, min_y: p.y, max_x: p.x, max_y: p.y }
}

/// `b` widened to take in the point `p`.
pub open spec fn bbox_extend(b: Bbox, p: Point) -> Bbox {
    Bbox {
        min_x: coord_min(b.min_x, p.x),
        min_y: coord_min(b.min_y, p.y),
        max_x: coord_max(b.max_x, p.x),
        max_y: coord_max(b.max_y, p.y),
    }
}

/// The bounding box of a point sequence: the all-zero box when the
/// sequence is empty, else the smallest box containing every point.
pub open spec fn bbox_of(ps: Seq<Point>) -> Bbox
    decreases ps.len(),
{
    if ps.len() <= 0 {
        Bbox { min_x: 0, min_y: 0, max_x: 0, max_y: 0 }
    } else if ps.len() == 1 {
        point_bbox(ps[0])
    } else {
        bbox_extend(bbox_of(ps.drop_last()), ps.last())
    }
}

/// `p` lies inside `b`, in the coordinate order.
pub open spec fn in_bbox(b: Bbox, p: Point) -> bool {
    &&& coord_le(b.min_x, p.x)
    &&& coord_le(p.x, b.max_x)
    &&& coord_le(b.min_y, p.y)
    &&& coord_le(p.y, b.max_y)
}

/// Widening a box keeps every point it already contained, and takes in
/// the new point.
proof fn lemma_bbox_extend(b: Bbox, p: Point, q: Point)
    ensures
        in_bbox(b, q) ==> in_bbox(bbox_extend(b, p), q),
        in_bbox(bbox_extend(b, p), p),
{
}

/// The bounding box of a point sequence contains every one of its points.
pub proof fn lemma_bbox_contains(ps: Seq<Point>)
    ensures
        forall|i: int| 0 <= i < ps.len() ==> in_bbox(bbox_of(ps), #[trigger] ps[i]),
    decreases ps.len(),
{
    if ps.len() > 1 {
        lemma_bbox_contains(ps.drop_last());
        assert forall|i: int| 0 <= i < ps.len() implies in_bbox(bbox_of(ps), #[trigger] ps[i]) by {
            if i < ps.len() - 1 {
                assert(in_bbox(bbox_of(ps.drop_last()), ps.drop_last()[i]));
                lemma_bbox_extend(bbox_of(ps.drop_last()), ps.last(), ps[i]);
            } else {
                lemma_bbox_extend(bbox_of(ps.drop_last()), ps.last(), ps.last());
            }
        }
    }
}

/// Computes the bounding box of a point list.
pub fn bbox_of_points(ps: &Vec<Point>) -> (b: Bbox)
    ensures
        b == bbox_of(ps@),
{
    let mut b = Bbox { min_x: 0, min_y: 0, max_x: 0, max_y: 0 };
    let mut i: usize = 0;
    if ps.len() > 0 {
        b = Bbox { min_x: ps[0].x, min_y: ps[0].y, max_x: ps[0].x, max_y: ps[0].y };
        i = 1;
    }
    while i < ps.len()
        invariant
            1 <= i <= ps@.len() || (i == 0 && ps@.len() == 0),
            b == bbox_of(ps@.subrange(0, i as int)),
        decreases ps@.len() - i,
    {
        let p = ps[i];
        b = Bbox {
            min_x: min_coord(b.min_x, p.x),
            min_y: min_coord(b.min_y, p.y),
            max_x: max_coord(b.max_x, p.x),
            max_y: max_coord(b.max_y, p.y),
        };
        proof {
            let pre = ps@.subrange(0, i as int);
            let post = ps@.subrange(0, i + 1);
            assert(post.drop_last() =~= pre);
            assert(post.last() == ps@[i as int]);
        }
        i = i + 1;
    }
    proof {
        assert(ps@.subrange(0, ps@.len() as int) =~= ps@);
    }
    b
}

} // verus!

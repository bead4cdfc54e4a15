//! Paths: ordered sequences of drawing commands, and the walk that turns a
//! flattened path into line segments.

use vstd::prelude::*;

use crate::geom::{bbox_of, bbox_of_points, Bbox, Point};

verus! {

/// One drawing command of a path, coordinates in document space.
#[derive(Clone, Copy, PartialEq, Eq, Structural, Debug)]
pub enum PathCmd {
    /// Start a new subpath at the point.
    MoveTo(Point),
    /// Straight segment from the current point to the point.
    LineTo(Point),
    /// Cubic curve from the current point over two control points to the
    /// end point.
    CubicCurveTo(Point, Point, Point),
    /// Straight segment from the current point back to the subpath start.
    ClosePath,
}

/// An ordered sequence of drawing commands describing one shape outline.
#[derive(Clone, Debug)]
pub struct Path {
    pub cmds: Vec<PathCmd>,
}

impl View for Path {
    type V = Seq<PathCmd>;

    open spec fn view(&self) -> Seq<PathCmd> {
        self.cmds@
    }
}

/// One input of the layout assembler: a path as loaded from the document,
/// and the same path with every curve flattened to line segments.
#[derive(Clone, Debug)]
pub struct PathPair {
    pub original: Path,
    pub flattened: Path,
}

/// The control points a command carries.
pub open spec fn cmd_points(c: PathCmd) -> Seq<Point> {
    match c {
        PathCmd::MoveTo(p) => seq![p],
        PathCmd::LineTo(p) => seq![p],
        PathCmd::CubicCurveTo(c1, c2, p) => seq![c1, c2, p],
        PathCmd::ClosePath => seq![],
    }
}

/// All control points of a command sequence, in command order.
pub open spec fn control_points(cmds: Seq<PathCmd>) -> Seq<Point>
    decreases cmds.len(),
{
    if cmds.len() <= 0 {
        seq![]
    } else {
        control_points(cmds.drop_last()) + cmd_points(cmds.last())
    }
}

/// A command sequence with no curve commands: the flattener's output.
pub open spec fn is_flattened(cmds: Seq<PathCmd>) -> bool {
    forall|i: int| 0 <= i < cmds.len() ==> !(#[trigger] cmds[i] is CubicCurveTo)
}

/// The walk state after the first `j` commands: the current subpath start,
/// the current point, and the line segments emitted so far. Both points
/// start at the origin word (the bit pattern of zero). A curve command
/// leaves the state unchanged; the assembler never accepts one.
pub open spec fn walk(cmds: Seq<PathCmd>, j: int) -> (Point, Point, Seq<(Point, Point)>)
    decreases j,
{
    if j <= 0 {
        (Point { x: 0, y: 0 }, Point { x: 0, y: 0 }, seq![])
    } else {
        let (first, last, segs) = walk(cmds, j - 1);
        match cmds[j - 1] {
            PathCmd::MoveTo(p) => (p, p, segs),
            PathCmd::LineTo(p) => (first, p, segs.push((last, p))),
            PathCmd::CubicCurveTo(c1, c2, p) => (first, last, segs),
            PathCmd::ClosePath => (first, first, segs.push((last, first))),
        }
    }
}

/// The line segments a flattened command sequence describes.
pub open spec fn path_segments(cmds: Seq<PathCmd>) -> Seq<(Point, Point)> {
    walk(cmds, cmds.len() as int).2
}

/// The start point of the subpath open after the whole sequence.
pub open spec fn subpath_start(cmds: Seq<PathCmd>) -> Point {
    walk(cmds, cmds.len() as int).0
}

/// The current point after the whole sequence.
pub open spec fn current_point(cmds: Seq<PathCmd>) -> Point {
    walk(cmds, cmds.len() as int).1
}

/// The number of line segments the walk emits.
pub open spec fn seg_count(cmds: Seq<PathCmd>) -> int {
    path_segments(cmds).len() as int
}

/// The walk reads only the first `j` commands, so commands appended after
/// them do not change its state.
pub proof fn lemma_walk_prefix(cmds: Seq<PathCmd>, ext: Seq<PathCmd>, j: int)
    requires
        0 <= j <= cmds.len(),
    ensures
        walk(cmds + ext, j) == walk(cmds, j),
    decreases j,
{
    if j > 0 {
        lemma_walk_prefix(cmds, ext, j - 1);
        assert((cmds + ext)[j - 1] == cmds[j - 1]);
    }
}

/// Closing a subpath emits exactly one extra line segment, from the
/// current point back to the subpath's start point.
pub proof fn lemma_close_appends_one_segment(cmds: Seq<PathCmd>)
    ensures
        path_segments(cmds.push(PathCmd::ClosePath)) == path_segments(cmds).push(
            (current_point(cmds), subpath_start(cmds)),
        ),
{
    let ext = cmds.push(PathCmd::ClosePath);
    assert(ext =~= cmds + seq![PathCmd::ClosePath]);
    lemma_walk_prefix(cmds, seq![PathCmd::ClosePath], cmds.len() as int);
    assert(ext[ext.len() - 1] == PathCmd::ClosePath);
}

/// Tests whether a path is flattened, that is, free of curve commands.
pub fn is_flattened_path(p: &Path) -> (r: bool)
    ensures
        r == is_flattened(p@),
{
    let mut i: usize = 0;
    while i < p.cmds.len()
        invariant
            0 <= i <= p@.len(),
            forall|k: int| 0 <= k < i ==> !(#[trigger] p@[k] is CubicCurveTo),
        decreases p@.len() - i,
    {
        if let PathCmd::CubicCurveTo(_, _, _) = p.cmds[i] {
            return false;
        }
        i = i + 1;
    }
    true
}

/// Counts the line segments the walk of a path emits.
pub fn count_segments(p: &Path) -> (n: usize)
    ensures
        n == seg_count(p@),
{
    let mut n: usize = 0;
    let mut i: usize = 0;
    while i < p.cmds.len()
        invariant
            0 <= i <= p@.len(),
            n <= i,
            n == walk(p@, i as int).2.len(),
        decreases p@.len() - i,
    {
        match p.cmds[i] {
            PathCmd::LineTo(_) => {
                n = n + 1;
            },
            PathCmd::ClosePath => {
                n = n + 1;
            },
            _ => {},
        }
        i = i + 1;
    }
    n
}

/// Collects the control points of a path, in command order.
pub fn path_points(p: &Path) -> (r: Vec<Point>)
    ensures
        r@ == control_points(p@),
{
    let mut r: Vec<Point> = Vec::new();
    let mut i: usize = 0;
    while i < p.cmds.len()
        invariant
            0 <= i <= p@.len(),
            r@ == control_points(p@.subrange(0, i as int)),
        decreases p@.len() - i,
    {
        match p.cmds[i] {
            PathCmd::MoveTo(q) => {
                r.push(q);
            },
            PathCmd::LineTo(q) => {
                r.push(q);
            },
            PathCmd::CubicCurveTo(c1, c2, q) => {
                r.push(c1);
                r.push(c2);
                r.push(q);
            },
            PathCmd::ClosePath => {},
        }
        proof {
            let pre = p@.subrange(0, i as int);
            let post = p@.subrange(0, i + 1);
            assert(post.drop_last() =~= pre);
            assert(post.last() == p@[i as int]);
            assert(r@ =~= control_points(post));
        }
        i = i + 1;
    }
    proof {
        assert(p@.subrange(0, p@.len() as int) =~= p@);
    }
    r
}

/// Computes the bounding box of a path's control points.
pub fn path_bbox(p: &Path) -> (b: Bbox)
    ensures
        b == bbox_of(control_points(p@)),
{
    let pts = path_points(p);
    bbox_of_points(&pts)
}

} // verus!


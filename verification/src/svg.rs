//! GPU layout assembly: packs a list of flattened paths into the three
//! flat arrays a parallel rasterizer consumes.
//!
//! Per path, in input order: the bounding box of the original (unflattened)
//! path's control points, one line-primitive tag per emitted segment, four
//! coordinate words per tag (`x0, y0, x1, y1`), and one fixed-size object
//! record tying the three together by index ranges.

use vstd::prelude::*;

use crate::geom::{bbox_of, in_bbox, Bbox, Point};
use crate::path::{
    control_points, count_segments, is_flattened, path_bbox, path_segments, seg_count, walk,
    PathCmd, PathPair,
};

verus! {

/// The primitive tag of a line segment, the only primitive defined.
pub const PRIMITIVE_LINE: u32 = 1;

/// One fixed-size record per input path: the half-open range of its
/// primitives, the index of its first coordinate word, and the bounding
/// box of the original path's control points.
#[derive(Clone, Copy, PartialEq, Eq, Structural, Debug)]
pub struct Object {
    pub prim_start: u32,
    pub prim_end: u32,
    pub offset_data: u32,
    pub bbox: Bbox,
}

/// The assembled output: three flat arrays, linked by index ranges held in
/// the object records.
#[derive(Debug)]
pub struct GpuData {
    pub objects: Vec<Object>,
    pub primitives: Vec<u32>,
    pub data: Vec<u32>,
}

/// Where an object under construction begins in the shared arrays:
/// handed out by [`GpuData::begin_object`], consumed by
/// [`GpuData::end_object`].
#[derive(Clone, Copy, PartialEq, Eq, Structural, Debug)]
pub struct ObjectHandle {
    pub prim_start: usize,
    pub data_offset: usize,
}

impl GpuData {
    /// An empty aggregate: no objects, no primitives, no data words.
    pub fn new() -> (gd: Self)
        ensures
            gd.objects@ == Seq::<Object>::empty(),
            gd.primitives@ == Seq::<u32>::empty(),
            gd.data@ == Seq::<u32>::empty(),
    {
        GpuData { objects: Vec::new(), primitives: Vec::new(), data: Vec::new() }
    }

    /// The three counts handed over with the arrays: objects, primitives,
    /// and data words.
    pub fn counts(&self) -> (r: (usize, usize, usize))
        ensures
            r.0 == self.objects@.len(),
            r.1 == self.primitives@.len(),
            r.2 == self.data@.len(),
    {
        (self.objects.len(), self.primitives.len(), self.data.len())
    }

    /// Opens the next object: its primitives and coordinate words will
    /// begin at the current ends of the shared arrays.
    pub fn begin_object(&self) -> (h: ObjectHandle)
        ensures
            h.prim_start == self.primitives@.len(),
            h.data_offset == self.data@.len(),
    {
        ObjectHandle { prim_start: self.primitives.len(), data_offset: self.data.len() }
    }

    /// Appends one line primitive from `p0` to `p1`: one line tag and the
    /// four coordinate words `x0, y0, x1, y1`.
    pub fn push_line(&mut self, p0: Point, p1: Point)
        ensures
            final(self).objects@ == old(self).objects@,
            final(self).primitives@ == old(self).primitives@.push(PRIMITIVE_LINE),
            final(self).data@ == old(self).data@ + seq![p0.x, p0.y, p1.x, p1.y],
    {
        self.primitives.push(PRIMITIVE_LINE);
        self.data.push(p0.x);
        self.data.push(p0.y);
        self.data.push(p1.x);
        self.data.push(p1.y);
        proof {
            assert(self.data@ =~= old(self).data@ + seq![p0.x, p0.y, p1.x, p1.y]);
        }
    }

    /// Closes the object opened at `h`: appends its record, spanning the
    /// primitives pushed since then, with the given bounding box. The
    /// indices must fit the record's 32-bit fields.
    pub fn end_object(&mut self, h: ObjectHandle, bbox: Bbox)
        requires
            old(self).primitives@.len() <= u32::MAX,
            h.prim_start <= u32::MAX,
            h.data_offset <= u32::MAX,
        ensures
            final(self).objects@ == old(self).objects@.push(
                Object {
                    prim_start: h.prim_start as u32,
                    prim_end: old(self).primitives@.len() as u32,
                    offset_data: h.data_offset as u32,
                    bbox,
                },
            ),
            final(self).primitives@ == old(self).primitives@,
            final(self).data@ == old(self).data@,
    {
        let prim_end: usize = self.primitives.len();
        self.objects.push(
            Object {
                prim_start: h.prim_start as u32,
                prim_end: prim_end as u32,
                offset_data: h.data_offset as u32,
                bbox,
            },
        );
    }
}

/// The coordinate words of a segment list: four words per segment, in
/// order `x0, y0, x1, y1`.
pub open spec fn seg_words(segs: Seq<(Point, Point)>) -> Seq<u32>
    decreases segs.len(),
{
    if segs.len() <= 0 {
        seq![]
    } else {
        seg_words(segs.drop_last()) + seq![
            segs.last().0.x,
            segs.last().0.y,
            segs.last().1.x,
            segs.last().1.y,
        ]
    }
}

pub proof fn lemma_seg_words_len(segs: Seq<(Point, Point)>)
    ensures
        seg_words(segs).len() == 4 * segs.len(),
    decreases segs.len(),
{
    if segs.len() > 0 {
        lemma_seg_words_len(segs.drop_last());
    }
}

/// The number of primitives the first `i` paths contribute.
pub open spec fn prims_before(pairs: Seq<PathPair>, i: int) -> int
    decreases i,
{
    if i <= 0 {
        0
    } else {
        prims_before(pairs, i - 1) + seg_count(pairs[i - 1].flattened@)
    }
}

pub proof fn lemma_prims_before_monotone(pairs: Seq<PathPair>, i: int, j: int)
    requires
        0 <= i <= j,
    ensures
        prims_before(pairs, i) <= prims_before(pairs, j),
    decreases j - i,
{
    if i < j {
        lemma_prims_before_monotone(pairs, i, j - 1);
    }
}

/// The coordinate words the first `i` paths contribute, concatenated in
/// path order.
pub open spec fn data_words(pairs: Seq<PathPair>, i: int) -> Seq<u32>
    decreases i,
{
    if i <= 0 {
        seq![]
    } else {
        data_words(pairs, i - 1) + seg_words(path_segments(pairs[i - 1].flattened@))
    }
}

pub proof fn lemma_data_words_len(pairs: Seq<PathPair>, i: int)
    ensures
        data_words(pairs, i).len() == 4 * prims_before(pairs, i),
    decreases i,
{
    if i > 0 {
        lemma_data_words_len(pairs, i - 1);
        lemma_seg_words_len(path_segments(pairs[i - 1].flattened@));
    }
}

/// The object record of path `i`.
pub open spec fn object_for(pairs: Seq<PathPair>, i: int) -> Object {
    Object {
        prim_start: prims_before(pairs, i) as u32,
        prim_end: prims_before(pairs, i + 1) as u32,
        offset_data: (4 * prims_before(pairs, i)) as u32,
        bbox: bbox_of(control_points(pairs[i].original@)),
    }
}

/// Every path of the input is flattened: the assembler's input contract.
pub open spec fn flattened_input(pairs: Seq<PathPair>) -> bool {
    forall|i: int| 0 <= i < pairs.len() ==> is_flattened(#[trigger] pairs[i].flattened@)
}

/// The assembled layout fits the 32-bit index fields of the object
/// records: the machine limit of the output format.
pub open spec fn layout_fits(pairs: Seq<PathPair>) -> bool {
    4 * prims_before(pairs, pairs.len() as int) <= u32::MAX
}

/// `gd` is exactly the layout assembled from `pairs`: one object record
/// per path in input order, one line tag per emitted segment, and the
/// segments' coordinate words in emission order.
pub open spec fn assembles(pairs: Seq<PathPair>, gd: GpuData) -> bool {
    &&& gd.objects@.len() == pairs.len()
    &&& forall|i: int| 0 <= i < pairs.len() ==> #[trigger] gd.objects@[i] == object_for(pairs, i)
    &&& gd.primitives@.len() == prims_before(pairs, pairs.len() as int)
    &&& forall|k: int| 0 <= k < gd.primitives@.len() ==> #[trigger] gd.primitives@[k]
        == PRIMITIVE_LINE
    &&& gd.data@ == data_words(pairs, pairs.len() as int)
}

/// Walks each flattened path once and packs the shared object, primitive
/// and data arrays.
///
/// A curve command in a flattened path would be a broken invariant of the
/// flattener, not bad input; such inputs are excluded here, and
/// [`all_flattened`] tests for them.
pub fn generate_gpu_data(paths: &Vec<PathPair>) -> (gd: GpuData)
    requires
        flattened_input(paths@),
        layout_fits(paths@),
    ensures
        assembles(paths@, gd),
        gd.data@.len() == 4 * gd.primitives@.len(),
{
    let mut gd = GpuData::new();
    let mut pi: usize = 0;
    while pi < paths.len()
        invariant
            0 <= pi <= paths@.len(),
            flattened_input(paths@),
            layout_fits(paths@),
            gd.objects@.len() == pi,
            forall|i: int| 0 <= i < pi ==> gd.objects@[i] == object_for(paths@, i),
            gd.primitives@.len() == prims_before(paths@, pi as int),
            forall|k: int| 0 <= k < gd.primitives@.len() ==> gd.primitives@[k] == PRIMITIVE_LINE,
            gd.data@ == data_words(paths@, pi as int),
            gd.data@.len() == 4 * gd.primitives@.len(),
        decreases paths@.len() - pi,
    {
        let pair = &paths[pi];
        let bbox = path_bbox(&pair.original);
        let h = gd.begin_object();

        let ghost data0 = gd.data@;
        let ghost objs0 = gd.objects@;
        let cmds = &pair.flattened;
        let mut first = Point { x: 0, y: 0 };
        let mut last = Point { x: 0, y: 0 };
        let mut ci: usize = 0;
        while ci < cmds.cmds.len()
            invariant
                0 <= ci <= cmds@.len(),
                is_flattened(cmds@),
                first == walk(cmds@, ci as int).0,
                last == walk(cmds@, ci as int).1,
                gd.objects@ == objs0,
                gd.primitives@.len() == h.prim_start + walk(cmds@, ci as int).2.len(),
                forall|k: int| 0 <= k < gd.primitives@.len() ==> gd.primitives@[k]
                    == PRIMITIVE_LINE,
                gd.data@ == data0 + seg_words(walk(cmds@, ci as int).2),
                gd.data@.len() == 4 * gd.primitives@.len(),
                data0.len() == 4 * h.prim_start,
                h.data_offset == data0.len(),
            decreases cmds@.len() - ci,
        {
            let ghost segs0 = walk(cmds@, ci as int).2;
            match cmds.cmds[ci] {
                PathCmd::MoveTo(p) => {
                    first = p;
                    last = p;
                },
                PathCmd::LineTo(p) => {
                    gd.push_line(last, p);
                    proof {
                        let s = (last, p);
                        assert(segs0.push(s).drop_last() =~= segs0);
                        assert(gd.data@ =~= data0 + seg_words(segs0.push(s)));
                    }
                    last = p;
                },
                PathCmd::CubicCurveTo(_, _, _) => {
                    // excluded by `flattened_input`; the walk leaves the
                    // state unchanged on this command
                },
                PathCmd::ClosePath => {
                    gd.push_line(last, first);
                    proof {
                        let s = (last, first);
                        assert(segs0.push(s).drop_last() =~= segs0);
                        assert(gd.data@ =~= data0 + seg_words(segs0.push(s)));
                    }
                    last = first;
                },
            }
            ci = ci + 1;
        }

        proof {
            lemma_prims_before_monotone(paths@, 0, pi as int);
            lemma_prims_before_monotone(paths@, pi + 1, paths@.len() as int);
            assert(prims_before(paths@, pi + 1) == prims_before(paths@, pi as int) + seg_count(
                paths@[pi as int].flattened@,
            ));
        }
        gd.end_object(h, bbox);
        pi = pi + 1;
    }
    gd
}

/// Tests whether every path of the input is flattened.
pub fn all_flattened(paths: &Vec<PathPair>) -> (r: bool)
    ensures
        r == flattened_input(paths@),
{
    let mut i: usize = 0;
    while i < paths.len()
        invariant
            0 <= i <= paths@.len(),
            forall|k: int| 0 <= k < i ==> is_flattened(#[trigger] paths@[k].flattened@),
        decreases paths@.len() - i,
    {
        if !crate::path::is_flattened_path(&paths[i].flattened) {
            return false;
        }
        i = i + 1;
    }
    true
}

/// Tests whether the assembled layout of the input fits the 32-bit index
/// fields of the object records.
pub fn layout_fits_check(paths: &Vec<PathPair>) -> (r: bool)
    ensures
        r == layout_fits(paths@),
{
    let mut total: u64 = 0;
    let mut i: usize = 0;
    while i < paths.len()
        invariant
            0 <= i <= paths@.len(),
            total == prims_before(paths@, i as int),
            total <= 0x3FFF_FFFF,
        decreases paths@.len() - i,
    {
        let segs: usize = count_segments(&paths[i].flattened);
        if segs as u64 > 0x3FFF_FFFF || total + segs as u64 > 0x3FFF_FFFF {
            proof {
                lemma_prims_before_monotone(paths@, i + 1, paths@.len() as int);
            }
            return false;
        }
        total = total + segs as u64;
        i = i + 1;
    }
    true
}

/// After assembly the three arrays stay index-aligned: four data words per
/// primitive, and each object's primitive range lies inside the primitive
/// array, ordered, with its data offset four times its first primitive.
pub proof fn lemma_assembled_well_formed(pairs: Seq<PathPair>, gd: GpuData)
    requires
        assembles(pairs, gd),
        layout_fits(pairs),
    ensures
        gd.data@.len() == 4 * gd.primitives@.len(),
        forall|i: int| 0 <= i < gd.objects@.len() ==> {
            let o = #[trigger] gd.objects@[i];
            &&& o.prim_start <= o.prim_end <= gd.primitives@.len()
            &&& o.offset_data == 4 * o.prim_start
        },
{
    lemma_data_words_len(pairs, pairs.len() as int);
    assert forall|i: int| 0 <= i < gd.objects@.len() implies {
        let o = #[trigger] gd.objects@[i];
        &&& o.prim_start <= o.prim_end <= gd.primitives@.len()
        &&& o.offset_data == 4 * o.prim_start
    } by {
        lemma_prims_before_monotone(pairs, 0, i);
        lemma_prims_before_monotone(pairs, i, i + 1);
        lemma_prims_before_monotone(pairs, i + 1, pairs.len() as int);
        assert(gd.objects@[i] == object_for(pairs, i));
        assert(0 <= prims_before(pairs, i) <= prims_before(pairs, i + 1) <= prims_before(
            pairs,
            pairs.len() as int,
        ));
        assert(4 * prims_before(pairs, pairs.len() as int) <= u32::MAX);
    }
}

/// Assembly is deterministic: two outputs assembled from the same input
/// hold identical arrays.
pub proof fn lemma_assembly_deterministic(pairs: Seq<PathPair>, g1: GpuData, g2: GpuData)
    requires
        assembles(pairs, g1),
        assembles(pairs, g2),
    ensures
        g1.objects@ == g2.objects@,
        g1.primitives@ == g2.primitives@,
        g1.data@ == g2.data@,
{
    assert forall|i: int| 0 <= i < g1.objects@.len() implies g1.objects@[i] == g2.objects@[i] by {
        assert(g1.objects@[i] == object_for(pairs, i));
        assert(g2.objects@[i] == object_for(pairs, i));
    }
    assert(g1.objects@ =~= g2.objects@);
    assert forall|k: int| 0 <= k < g1.primitives@.len() implies g1.primitives@[k]
        == g2.primitives@[k] by {
        assert(g1.primitives@[k] == PRIMITIVE_LINE);
        assert(g2.primitives@[k] == PRIMITIVE_LINE);
    }
    assert(g1.primitives@ =~= g2.primitives@);
}

/// An object's bounding box depends only on its original path, never on
/// the flattened one: flattening tolerance cannot change any box.
pub proof fn lemma_bbox_tolerance_independent(
    a: Seq<PathPair>,
    b: Seq<PathPair>,
    ga: GpuData,
    gb: GpuData,
)
    requires
        assembles(a, ga),
        assembles(b, gb),
        a.len() == b.len(),
        forall|i: int| 0 <= i < a.len() ==> (#[trigger] a[i]).original@ == b[i].original@,
    ensures
        forall|i: int| 0 <= i < a.len() ==> (#[trigger] ga.objects@[i]).bbox == gb.objects@[i].bbox,
{
    assert forall|i: int| 0 <= i < a.len() implies (#[trigger] ga.objects@[i]).bbox
        == gb.objects@[i].bbox by {
        assert(ga.objects@[i] == object_for(a, i));
        assert(gb.objects@[i] == object_for(b, i));
        assert(a[i].original@ == b[i].original@);
    }
}

/// A flattening that emits more segments in total assembles to more
/// primitives. With [`lemma_bbox_tolerance_independent`] this is the
/// assembler's part of the tolerance trade-off: how many segments a
/// tolerance yields is the flattener's part, outside this library.
pub proof fn lemma_more_segments_more_primitives(
    a: Seq<PathPair>,
    b: Seq<PathPair>,
    ga: GpuData,
    gb: GpuData,
)
    requires
        assembles(a, ga),
        assembles(b, gb),
        prims_before(a, a.len() as int) > prims_before(b, b.len() as int),
    ensures
        ga.primitives@.len() > gb.primitives@.len(),
{
}

/// Each object's bounding box contains every control point of its
/// original, unflattened path.
pub proof fn lemma_object_bbox_contains(pairs: Seq<PathPair>, gd: GpuData, i: int)
    requires
        assembles(pairs, gd),
        0 <= i < pairs.len(),
    ensures
        forall|k: int| 0 <= k < control_points(pairs[i].original@).len() ==> in_bbox(
            gd.objects@[i].bbox,
            #[trigger] control_points(pairs[i].original@)[k],
        ),
{
    assert(gd.objects@[i] == object_for(pairs, i));
    crate::geom::lemma_bbox_contains(control_points(pairs[i].original@));
}

} // verus!

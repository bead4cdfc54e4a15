//! The document loader's selection policy.
//!
//! A document's shape tree yields one record per path shape; only shapes
//! filled with a single solid color become input paths. Shapes without a
//! fill, or with a gradient or pattern fill, are excluded by design, not
//! by error.

use vstd::prelude::*;

use crate::path::{Path, PathCmd};

verus! {

/// How a shape is painted, as far as the policy cares.
#[derive(Clone, Copy, PartialEq, Eq, Structural, Debug)]
pub enum PaintKind {
    /// A single solid color.
    Solid,
    /// A gradient, pattern, or other unsupported paint.
    NonSolid,
}

/// One path shape of the document: its fill, if any, and its outline.
#[derive(Debug)]
pub struct ShapeRecord {
    pub fill: Option<PaintKind>,
    pub path: Path,
}

/// A shape becomes an input path exactly when it has a solid fill.
pub open spec fn is_fillable(s: ShapeRecord) -> bool {
    s.fill == Some(PaintKind::Solid)
}

/// The outlines of the fillable shapes, in document order.
pub open spec fn fillable_paths(shapes: Seq<ShapeRecord>) -> Seq<Seq<PathCmd>>
    decreases shapes.len(),
{
    if shapes.len() <= 0 {
        seq![]
    } else if is_fillable(shapes.last()) {
        fillable_paths(shapes.drop_last()).push(shapes.last().path@)
    } else {
        fillable_paths(shapes.drop_last())
    }
}

/// Copies a path's commands.
fn copy_path(p: &Path) -> (r: Path)
    ensures
        r@ == p@,
{
    let mut cmds: Vec<PathCmd> = Vec::new();
    let mut i: usize = 0;
    while i < p.cmds.len()
        invariant
            0 <= i <= p@.len(),
            cmds@ == p@.subrange(0, i as int),
        decreases p@.len() - i,
    {
        cmds.push(p.cmds[i]);
        proof {
            assert(cmds@ =~= p@.subrange(0, i + 1));
        }
        i = i + 1;
    }
    proof {
        assert(p@.subrange(0, p@.len() as int) =~= p@);
    }
    Path { cmds }
}

/// Keeps the outlines of the solidly filled shapes, in document order.
pub fn collect_fillable(shapes: &Vec<ShapeRecord>) -> (r: Vec<Path>)
    ensures
        r@.len() == fillable_paths(shapes@).len(),
        forall|i: int| 0 <= i < r@.len() ==> #[trigger] r@[i]@ == fillable_paths(shapes@)[i],
{
    let mut r: Vec<Path> = Vec::new();
    let mut i: usize = 0;
    while i < shapes.len()
        invariant
            0 <= i <= shapes@.len(),
            r@.len() == fillable_paths(shapes@.subrange(0, i as int)).len(),
            forall|k: int| 0 <= k < r@.len() ==> #[trigger] r@[k]@ == fillable_paths(
                shapes@.subrange(0, i as int),
            )[k],
        decreases shapes@.len() - i,
    {
        let s = &shapes[i];
        let ghost pre = shapes@.subrange(0, i as int);
        let ghost post = shapes@.subrange(0, i + 1);
        proof {
            assert(post.drop_last() =~= pre);
            assert(post.last() == shapes@[i as int]);
        }
        let take = match s.fill {
            Option::Some(PaintKind::Solid) => true,
            _ => false,
        };
        if take {
            r.push(copy_path(&s.path));
        }
        i = i + 1;
    }
    proof {
        assert(shapes@.subrange(0, shapes@.len() as int) =~= shapes@);
    }
    r
}

} // verus!

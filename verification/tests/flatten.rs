//! The flattening tolerance drives how many line primitives a curve
//! becomes, while the bounding box comes from the original path alone.

use pathbreaker::kurbo::{BezPath, PathEl};
use pathbreaker::{break_path, CubicApprox};
use pathpack::{
    all_flattened, generate_gpu_data, layout_fits_check, GpuData, Path, PathCmd, PathPair, Point,
};

fn conv_pt(p: pathbreaker::kurbo::Point) -> Point {
    Point { x: (p.x as f32).to_bits(), y: (p.y as f32).to_bits() }
}

fn conv_path(bp: &BezPath) -> Path {
    let mut cmds = Vec::new();
    for el in bp.elements() {
        match *el {
            PathEl::MoveTo(p) => cmds.push(PathCmd::MoveTo(conv_pt(p))),
            PathEl::LineTo(p) => cmds.push(PathCmd::LineTo(conv_pt(p))),
            PathEl::CurveTo(a, b, p) => {
                cmds.push(PathCmd::CubicCurveTo(conv_pt(a), conv_pt(b), conv_pt(p)))
            }
            PathEl::QuadTo(..) => panic!("quadratic segment in a flattened or cubic-only path"),
            PathEl::ClosePath => cmds.push(PathCmd::ClosePath),
        }
    }
    Path { cmds }
}

fn curve() -> BezPath {
    let mut bp = BezPath::new();
    bp.move_to((0.0, 0.0));
    bp.curve_to((0.0, 100.0), (100.0, 100.0), (100.0, 0.0));
    bp
}

fn assemble_with_tolerance(tolerance: f64) -> GpuData {
    let original = conv_path(&curve());
    let flattened = conv_path(&break_path(&curve(), CubicApprox::Flatten(tolerance)));
    let paths = vec![PathPair { original, flattened }];
    assert!(all_flattened(&paths));
    assert!(layout_fits_check(&paths));
    generate_gpu_data(&paths)
}

#[test]
fn tight_tolerance_gives_more_primitives_same_bbox() {
    let tight = assemble_with_tolerance(0.01);
    let loose = assemble_with_tolerance(5.0);
    assert!(tight.primitives.len() > loose.primitives.len());
    assert_eq!(tight.objects[0].bbox, loose.objects[0].bbox);
    // the box covers the curve's control points
    assert_eq!(tight.objects[0].bbox.min_x, 0.0f32.to_bits());
    assert_eq!(tight.objects[0].bbox.max_x, 100.0f32.to_bits());
    assert_eq!(tight.objects[0].bbox.max_y, 100.0f32.to_bits());
}

#[test]
fn flattened_curve_assembles_to_lines_only() {
    let gd = assemble_with_tolerance(0.1);
    assert!(gd.primitives.len() >= 2);
    assert_eq!(gd.data.len(), 4 * gd.primitives.len());
    // the polyline starts at the curve's start and ends at its end point
    assert_eq!(gd.data[0], 0.0f32.to_bits());
    assert_eq!(gd.data[1], 0.0f32.to_bits());
    assert_eq!(gd.data[gd.data.len() - 2], 100.0f32.to_bits());
    assert_eq!(gd.data[gd.data.len() - 1], 0.0f32.to_bits());
}

use pathpack::{collect_fillable, PaintKind, Path, PathCmd, Point, ShapeRecord};

fn pt(x: f32, y: f32) -> Point {
    Point { x: x.to_bits(), y: y.to_bits() }
}

fn line_path(x: f32) -> Path {
    Path { cmds: vec![PathCmd::MoveTo(pt(x, 0.0)), PathCmd::LineTo(pt(x, 1.0))] }
}

#[test]
fn only_solid_fills_are_kept() {
    let shapes = vec![
        ShapeRecord { fill: Some(PaintKind::Solid), path: line_path(1.0) },
        ShapeRecord { fill: None, path: line_path(2.0) },
        ShapeRecord { fill: Some(PaintKind::NonSolid), path: line_path(3.0) },
        ShapeRecord { fill: Some(PaintKind::Solid), path: line_path(4.0) },
    ];
    let paths = collect_fillable(&shapes);
    assert_eq!(paths.len(), 2);
    assert_eq!(paths[0].cmds, line_path(1.0).cmds);
    assert_eq!(paths[1].cmds, line_path(4.0).cmds);
}

#[test]
fn no_fillable_shapes_yield_no_paths() {
    let shapes = vec![
        ShapeRecord { fill: None, path: line_path(1.0) },
        ShapeRecord { fill: Some(PaintKind::NonSolid), path: line_path(2.0) },
    ];
    assert!(collect_fillable(&shapes).is_empty());
    assert!(collect_fillable(&Vec::new()).is_empty());
}

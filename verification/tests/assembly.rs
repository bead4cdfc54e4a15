use pathpack::{
    all_flattened, count_segments, generate_gpu_data, is_flattened_path, layout_fits_check,
    path_bbox, Bbox, GpuData, Path, PathCmd, PathPair, Point, PRIMITIVE_LINE,
};

fn pt(x: f32, y: f32) -> Point {
    Point { x: x.to_bits(), y: y.to_bits() }
}

fn square_at(x0: f32, y0: f32, side: f32) -> Path {
    Path {
        cmds: vec![
            PathCmd::MoveTo(pt(x0, y0)),
            PathCmd::LineTo(pt(x0 + side, y0)),
            PathCmd::LineTo(pt(x0 + side, y0 + side)),
            PathCmd::LineTo(pt(x0, y0 + side)),
            PathCmd::ClosePath,
        ],
    }
}

fn pair_of(p: Path) -> PathPair {
    PathPair { original: Path { cmds: p.cmds.clone() }, flattened: p }
}

fn assemble(paths: Vec<PathPair>) -> GpuData {
    assert!(all_flattened(&paths));
    assert!(layout_fits_check(&paths));
    generate_gpu_data(&paths)
}

fn words(segments: &[(f32, f32, f32, f32)]) -> Vec<u32> {
    let mut out = Vec::new();
    for &(x0, y0, x1, y1) in segments {
        out.push(x0.to_bits());
        out.push(y0.to_bits());
        out.push(x1.to_bits());
        out.push(y1.to_bits());
    }
    out
}

#[test]
fn one_square() {
    let gd = assemble(vec![pair_of(square_at(0.0, 0.0, 10.0))]);
    assert_eq!(gd.primitives, vec![PRIMITIVE_LINE; 4]);
    assert_eq!(gd.data.len(), 16);
    assert_eq!(
        gd.data,
        words(&[
            (0.0, 0.0, 10.0, 0.0),
            (10.0, 0.0, 10.0, 10.0),
            (10.0, 10.0, 0.0, 10.0),
            (0.0, 10.0, 0.0, 0.0),
        ])
    );
    assert_eq!(gd.objects.len(), 1);
    let o = gd.objects[0];
    assert_eq!(o.prim_start, 0);
    assert_eq!(o.prim_end, 4);
    assert_eq!(o.offset_data, 0);
    assert_eq!(
        o.bbox,
        Bbox {
            min_x: 0.0f32.to_bits(),
            min_y: 0.0f32.to_bits(),
            max_x: 10.0f32.to_bits(),
            max_y: 10.0f32.to_bits(),
        }
    );
}

#[test]
fn two_disjoint_squares() {
    let gd = assemble(vec![
        pair_of(square_at(0.0, 0.0, 10.0)),
        pair_of(square_at(20.0, 20.0, 10.0)),
    ]);
    assert_eq!(gd.objects.len(), 2);
    assert_eq!(gd.primitives.len(), 8);
    assert_eq!(gd.data.len(), 32);
    assert_eq!(gd.counts(), (2, 8, 32));
    let o1 = gd.objects[1];
    assert_eq!(o1.prim_start, 4);
    assert_eq!(o1.prim_end, 8);
    assert_eq!(o1.offset_data, 16);
    let o0 = gd.objects[0];
    assert_eq!(o0.prim_start, 0);
    assert_eq!(o0.prim_end, 4);
    assert_eq!(o0.offset_data, 0);
}

#[test]
fn empty_document() {
    let gd = assemble(Vec::new());
    assert!(gd.objects.is_empty());
    assert!(gd.primitives.is_empty());
    assert!(gd.data.is_empty());
}

#[test]
fn close_emits_one_extra_segment() {
    let open_path = Path {
        cmds: vec![
            PathCmd::MoveTo(pt(1.0, 2.0)),
            PathCmd::LineTo(pt(5.0, 2.0)),
            PathCmd::LineTo(pt(5.0, 6.0)),
        ],
    };
    let mut closed_cmds = open_path.cmds.clone();
    closed_cmds.push(PathCmd::ClosePath);
    let closed_path = Path { cmds: closed_cmds };

    let open_gd = assemble(vec![pair_of(open_path)]);
    let closed_gd = assemble(vec![pair_of(closed_path)]);
    assert_eq!(open_gd.primitives.len() + 1, closed_gd.primitives.len());
    // the extra segment runs from the last point back to the subpath start
    assert_eq!(
        &closed_gd.data[closed_gd.data.len() - 4..],
        &words(&[(5.0, 6.0, 1.0, 2.0)])[..]
    );
    // the shared prefix is unchanged
    assert_eq!(open_gd.data[..], closed_gd.data[..open_gd.data.len()]);
}

#[test]
fn assembly_is_deterministic() {
    let input = || {
        vec![
            pair_of(square_at(0.0, 0.0, 10.0)),
            pair_of(square_at(-3.5, 7.25, 1.5)),
        ]
    };
    let g1 = assemble(input());
    let g2 = assemble(input());
    assert_eq!(g1.objects, g2.objects);
    assert_eq!(g1.primitives, g2.primitives);
    assert_eq!(g1.data, g2.data);
    // byte-identical arrays
    let bytes = |v: &[u32]| v.iter().flat_map(|w| w.to_le_bytes()).collect::<Vec<u8>>();
    assert_eq!(bytes(&g1.primitives), bytes(&g2.primitives));
    assert_eq!(bytes(&g1.data), bytes(&g2.data));
}

#[test]
fn arrays_stay_index_aligned() {
    let gd = assemble(vec![
        pair_of(square_at(0.0, 0.0, 1.0)),
        pair_of(Path { cmds: vec![PathCmd::MoveTo(pt(4.0, 4.0))] }),
        pair_of(square_at(2.0, 2.0, 2.0)),
    ]);
    assert_eq!(gd.data.len(), 4 * gd.primitives.len());
    for o in &gd.objects {
        assert!(o.prim_start <= o.prim_end);
        assert!((o.prim_end as usize) <= gd.primitives.len());
        assert_eq!(o.offset_data, 4 * o.prim_start);
    }
    // a move-only path contributes an empty range
    assert_eq!(gd.objects[1].prim_start, gd.objects[1].prim_end);
}

#[test]
fn object_order_follows_input_order() {
    let gd = assemble(vec![
        pair_of(square_at(50.0, 0.0, 1.0)),
        pair_of(square_at(0.0, 0.0, 2.0)),
    ]);
    // object 0 belongs to the first path: its bbox starts at x = 50
    assert_eq!(gd.objects[0].bbox.min_x, 50.0f32.to_bits());
    assert_eq!(gd.objects[1].bbox.min_x, 0.0f32.to_bits());
}

#[test]
fn line_before_move_starts_at_origin() {
    let gd = assemble(vec![pair_of(Path {
        cmds: vec![PathCmd::LineTo(pt(3.0, 4.0))],
    })]);
    assert_eq!(gd.primitives.len(), 1);
    assert_eq!(gd.data, words(&[(0.0, 0.0, 3.0, 4.0)]));
}

#[test]
fn flattened_and_segment_checks() {
    let curved = Path {
        cmds: vec![
            PathCmd::MoveTo(pt(0.0, 0.0)),
            PathCmd::CubicCurveTo(pt(0.0, 1.0), pt(1.0, 1.0), pt(1.0, 0.0)),
        ],
    };
    assert!(!is_flattened_path(&curved));
    let square = square_at(0.0, 0.0, 10.0);
    assert!(is_flattened_path(&square));
    assert_eq!(count_segments(&square), 4);
    assert_eq!(count_segments(&curved), 0);
    assert!(!all_flattened(&vec![pair_of(square), PathPair {
        original: Path { cmds: curved.cmds.clone() },
        flattened: curved,
    }]));
}

#[test]
fn bbox_covers_curve_control_points() {
    let original = Path {
        cmds: vec![
            PathCmd::MoveTo(pt(0.0, 0.0)),
            PathCmd::CubicCurveTo(pt(-5.0, 80.0), pt(30.0, -2.5), pt(10.0, 0.0)),
        ],
    };
    let b = path_bbox(&original);
    assert_eq!(b.min_x, (-5.0f32).to_bits());
    assert_eq!(b.min_y, (-2.5f32).to_bits());
    assert_eq!(b.max_x, 30.0f32.to_bits());
    assert_eq!(b.max_y, 80.0f32.to_bits());
}

#[test]
fn builder_packs_one_object() {
    let mut gd = pathpack::GpuData::new();
    let h = gd.begin_object();
    gd.push_line(pt(0.0, 0.0), pt(2.0, 0.0));
    gd.push_line(pt(2.0, 0.0), pt(2.0, 2.0));
    gd.end_object(
        h,
        Bbox {
            min_x: 0.0f32.to_bits(),
            min_y: 0.0f32.to_bits(),
            max_x: 2.0f32.to_bits(),
            max_y: 2.0f32.to_bits(),
        },
    );
    assert_eq!(gd.primitives, vec![PRIMITIVE_LINE; 2]);
    assert_eq!(gd.data, words(&[(0.0, 0.0, 2.0, 0.0), (2.0, 0.0, 2.0, 2.0)]));
    assert_eq!(gd.objects.len(), 1);
    assert_eq!(gd.objects[0].prim_start, 0);
    assert_eq!(gd.objects[0].prim_end, 2);
    assert_eq!(gd.objects[0].offset_data, 0);
}

use heatsolve::boundary::{boundary_cell, fix_boundary, mirror_source};
use heatsolve::grid::RectGrid;

#[test]
fn lanes_walk_top_bottom_left_right() {
    let (w, h) = (4usize, 3usize);
    let cells: Vec<Option<(usize, usize)>> = (0..2 * w + 2 * h + 2).map(|k| boundary_cell(w, h, k)).collect();
    assert_eq!(
        cells,
        vec![
            Some((0, 0)),
            Some((1, 0)),
            Some((2, 0)),
            Some((3, 0)),
            Some((0, 2)),
            Some((1, 2)),
            Some((2, 2)),
            Some((3, 2)),
            Some((0, 0)),
            Some((0, 1)),
            Some((0, 2)),
            Some((3, 0)),
            Some((3, 1)),
            Some((3, 2)),
            None,
            None,
        ]
    );
}

#[test]
fn mirror_sources_step_inward() {
    assert_eq!(mirror_source(5, 4, 0, 2), (1, 2));
    assert_eq!(mirror_source(5, 4, 4, 1), (3, 1));
    assert_eq!(mirror_source(5, 4, 2, 0), (2, 1));
    assert_eq!(mirror_source(5, 4, 2, 3), (2, 2));
    assert_eq!(mirror_source(5, 4, 0, 0), (1, 1));
    assert_eq!(mirror_source(5, 4, 4, 3), (3, 2));
    assert_eq!(mirror_source(5, 4, 2, 2), (2, 2));
}

#[test]
fn fix_boundary_mirrors_edges() {
    let mut g = RectGrid::newbyfunc(4, 4, |i: usize, j: usize| (i + 10 * j) as i32);
    fix_boundary(&mut g);
    assert_eq!(
        g.getarray(),
        &vec![11, 11, 12, 12, 11, 11, 12, 12, 21, 21, 22, 22, 21, 21, 22, 22]
    );
}

#[test]
fn fix_boundary_keeps_a_uniform_field() {
    let mut g = RectGrid::new(6, 5, 400.0f32);
    let before = g.getarray().clone();
    fix_boundary(&mut g);
    assert_eq!(g.getarray(), &before);
}

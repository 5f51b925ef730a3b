use heatsolve::grid::{GridError, RectGrid};
use heatsolve::mathutils::sqnum;

fn disk(width: usize, height: usize, r: f32, t: f32) -> RectGrid<f32> {
    RectGrid::newbyfunc(width, height, |i: usize, j: usize| {
        let x = i as f32 / (width - 1) as f32;
        let y = j as f32 / (height - 1) as f32;
        if sqnum(x - 0.5) + sqnum(y - 0.5) < sqnum(r) {
            t
        } else {
            0.0
        }
    })
}

#[test]
fn array_length_is_width_times_height() {
    for (w, h) in [(1usize, 1usize), (3, 5), (7, 2), (16, 16)] {
        let g = RectGrid::new(w, h, 0.0f32);
        assert_eq!(g.getarray().len(), w * h);
        let g = RectGrid::newbyfunc(w, h, |i: usize, j: usize| (i + 10 * j) as f32);
        assert_eq!(g.getarray().len(), w * h);
    }
}

#[test]
fn new_is_filled() {
    let g = RectGrid::new(4, 3, 0.0f32);
    assert!(g.getarray().iter().all(|v| *v == 0.0));
    assert_eq!(g.width(), 4);
    assert_eq!(g.height(), 3);
}

#[test]
fn newbyfunc_is_row_major() {
    let g = RectGrid::newbyfunc(3, 2, |i: usize, j: usize| i + 10 * j);
    assert_eq!(g.getarray(), &vec![0, 1, 2, 10, 11, 12]);
    assert_eq!(g.get(2, 1), 12);
    assert_eq!(*g.get_ref(0, 1), 10);
}

#[test]
fn setbyfunc_keeps_shape() {
    let mut g = RectGrid::new(2, 2, 0u32);
    g.setbyfunc(|i: usize, j: usize| (i * 2 + j) as u32);
    assert_eq!(g.getarray(), &vec![0, 2, 1, 3]);
    assert_eq!((g.width(), g.height()), (2, 2));
}

#[test]
fn newbytemplate_checks_length() {
    let g = RectGrid::new(3, 3, 0.0f32);
    let ok = g.newbytemplate(vec![1.0; 9]).unwrap();
    assert_eq!(ok.getarray(), &vec![1.0; 9]);
    assert_eq!((ok.width(), ok.height()), (3, 3));
    match g.newbytemplate(vec![1.0; 8]) {
        Err(e) => assert_eq!(e, GridError::SizeMismatch { expected: 9, actual: 8 }),
        Ok(_) => panic!("a short buffer was accepted"),
    }
}

#[test]
fn from_cells_rejects_wrong_length() {
    assert!(RectGrid::from_cells(2, 2, vec![0u8; 4]).is_ok());
    match RectGrid::from_cells(2, 3, vec![0u8; 5]) {
        Err(e) => assert_eq!(e, GridError::SizeMismatch { expected: 6, actual: 5 }),
        Ok(_) => panic!("a short buffer was accepted"),
    }
}

#[test]
fn heatmap_has_four_bytes_per_sample_and_opaque_alpha() {
    let g = RectGrid::newbyfunc(3, 2, |i: usize, j: usize| (i + 3 * j) as u8);
    let bytes = g.outasheatmap(|v: u8| (v, 2 * v, 100 - v));
    assert_eq!(bytes.len(), 4 * 6);
    for k in 0..6 {
        let v = k as u8;
        assert_eq!(&bytes[4 * k..4 * k + 4], &[v, 2 * v, 100 - v, 255]);
    }
}

#[test]
fn heatmap_of_empty_field_is_empty() {
    let g = RectGrid::new(0, 4, 1.0f32);
    assert!(g.outasheatmap(|_v: f32| (1, 2, 3)).is_empty());
}

#[test]
fn disk_initial_condition_on_five_by_five() {
    let g = disk(5, 5, 0.2, 400.0);
    let total: f32 = g.getarray().iter().sum();
    assert_eq!(total, 400.0);
    assert_eq!(g.get(2, 2), 400.0);
    assert_eq!(g.get(1, 2), 0.0);
}

#[test]
fn sqnum_squares() {
    assert_eq!(sqnum(7i64), 49);
    assert_eq!(sqnum(-3i32), 9);
    assert_eq!(sqnum(0.5f32), 0.25);
}

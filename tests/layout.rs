use heatsolve::layout::{
    boundary_lanes, boundary_workgroups, colormap_buffer_bytes, field_buffer_bytes, field_workgroups,
    padded_row_bytes, unpad_rows, workgroup_count,
};

#[test]
fn workgroups_round_up() {
    assert_eq!(workgroup_count(0), 0);
    assert_eq!(workgroup_count(1), 1);
    assert_eq!(workgroup_count(64), 1);
    assert_eq!(workgroup_count(65), 2);
    assert_eq!(workgroup_count(u32::MAX), 67108864);
}

#[test]
fn field_and_boundary_workgroups() {
    assert_eq!(field_workgroups(1023, 1023), 16353);
    assert_eq!(boundary_lanes(5, 7), 24);
    assert_eq!(boundary_workgroups(5, 7), 1);
    assert_eq!(boundary_workgroups(100, 100), 7);
}

#[test]
fn row_padding_matches_copy_alignment() {
    assert_eq!(padded_row_bytes(0), 0);
    assert_eq!(padded_row_bytes(1), 256);
    assert_eq!(padded_row_bytes(64), 256);
    assert_eq!(padded_row_bytes(65), 512);
    assert_eq!(padded_row_bytes(256), 1024);
}

#[test]
fn buffer_sizes() {
    assert_eq!(field_buffer_bytes(5, 5), 100);
    assert_eq!(colormap_buffer_bytes(5, 5), 1280);
    assert_eq!(colormap_buffer_bytes(128, 3), 1536);
}

#[test]
fn unpad_drops_row_padding() {
    let stride = 12usize;
    let padded: Vec<u8> = (0..36u8).collect();
    let packed = unpad_rows(&padded, 2, 3, stride);
    assert_eq!(
        packed,
        vec![0, 1, 2, 3, 4, 5, 6, 7, 12, 13, 14, 15, 16, 17, 18, 19, 24, 25, 26, 27, 28, 29, 30, 31]
    );
}

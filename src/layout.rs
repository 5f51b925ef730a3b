use vstd::prelude::*;

verus! {

/// Lanes in one workgroup of every compute kernel.
pub const WORKGROUP_SIZE: u32 = 64;

/// Alignment, in bytes, of each row of a copy between a buffer and a texture.
pub const COPY_BYTES_PER_ROW_ALIGNMENT: u32 = 256;

/// Bytes per sample: one `f32` of the field, or one RGBA pixel of the
/// colour map.
pub const BYTES_PER_SAMPLE: u32 = 4;

/// `a / b` rounded up.
pub open spec fn div_ceil(a: int, b: int) -> int {
    (a + b - 1) / b
}

/// Bytes of one row of the colour map: `4 * width` rounded up to the copy
/// alignment.
pub open spec fn spec_padded_row_bytes(width: int) -> int {
    div_ceil(width, 64) * 256
}

/// Workgroups that give each of `lanes` work items a lane of its own.
pub fn workgroup_count(lanes: u32) -> (r: u32)
    ensures
        r == div_ceil(lanes as int, WORKGROUP_SIZE as int),
        r * WORKGROUP_SIZE >= lanes,
        r * WORKGROUP_SIZE < lanes + WORKGROUP_SIZE,
{
    let full = lanes / WORKGROUP_SIZE;
    if lanes % WORKGROUP_SIZE == 0 {
        full
    } else {
        full + 1
    }
}

/// Workgroups of a kernel that runs once per grid cell.
pub fn field_workgroups(width: u32, height: u32) -> (r: u32)
    requires
        width * height <= u32::MAX,
    ensures
        r == div_ceil(width * height, WORKGROUP_SIZE as int),
{
    workgroup_count(width * height)
}

/// Cells on the edge of the grid, as the boundary kernel counts them: two
/// rows of `width` and two columns of `height`.
pub fn boundary_lanes(width: u32, height: u32) -> (r: u32)
    requires
        2 * width + 2 * height <= u32::MAX,
    ensures
        r == 2 * width + 2 * height,
{
    2 * width + 2 * height
}

/// Workgroups of the boundary kernel: one lane per edge cell, rounded up to
/// whole workgroups.
pub fn boundary_workgroups(width: u32, height: u32) -> (r: u32)
    requires
        2 * width + 2 * height <= u32::MAX,
    ensures
        r == div_ceil(2 * width + 2 * height, WORKGROUP_SIZE as int),
{
    workgroup_count(boundary_lanes(width, height))
}

/// Bytes of one field buffer: one `f32` per cell.
pub fn field_buffer_bytes(width: u32, height: u32) -> (r: u64)
    requires
        width * height <= u32::MAX,
    ensures
        r == width * height * BYTES_PER_SAMPLE,
{
    ((width * height) as u64) * (BYTES_PER_SAMPLE as u64)
}

/// Bytes of one row of the colour map: four per cell, rounded up to the
/// copy alignment.
pub fn padded_row_bytes(width: u32) -> (r: u64)
    ensures
        r == spec_padded_row_bytes(width as int),
        r >= 4 * width,
        r < 4 * width + COPY_BYTES_PER_ROW_ALIGNMENT,
        (r as int) % (COPY_BYTES_PER_ROW_ALIGNMENT as int) == 0,
{
    let groups = workgroup_count(width);
    proof {
        assert(groups * 256 == (groups * 64) * 4) by (nonlinear_arith);
        vstd::arithmetic::div_mod::lemma_mod_multiples_basic(groups as int, 256);
    }
    (groups as u64) * (COPY_BYTES_PER_ROW_ALIGNMENT as u64)
}

/// Bytes of the colour map buffer: `height` padded rows.
pub fn colormap_buffer_bytes(width: u32, height: u32) -> (r: u64)
    requires
        width * height <= u32::MAX,
    ensures
        r == spec_padded_row_bytes(width as int) * height,
{
    let row = padded_row_bytes(width);
    proof {
        assert(row * height <= 4 * (width * height) + 256 * height) by (nonlinear_arith)
            requires
                row < 4 * width + 256,
                0 <= height,
        ;
    }
    row * (height as u64)
}

/// The colour map without its row padding: the first `4 * width` bytes of
/// each of `height` rows of `stride` bytes, packed one after another.
pub fn unpad_rows(padded: &Vec<u8>, width: usize, height: usize, stride: usize) -> (r: Vec<u8>)
    requires
        4 * width <= stride,
        stride * height <= padded.len(),
    ensures
        r@.len() == 4 * width * height,
        forall|j: int, k: int|
            0 <= j < height && 0 <= k < 4 * width ==> #[trigger] r@[j * (4 * width) + k]
                == padded@[j * stride + k],
{
    let row = 4 * width;
    let mut out: Vec<u8> = Vec::new();
    let mut j: usize = 0;
    while j < height
        invariant
            j <= height,
            row == 4 * width,
            row <= stride,
            stride * height <= padded.len(),
            out@.len() == j * row,
            forall|b: int, k: int|
                0 <= b < j && 0 <= k < row ==> #[trigger] out@[b * row + k] == padded@[b * stride + k],
        decreases height - j,
    {
        proof {
            assert(j * stride + stride <= stride * height) by (nonlinear_arith)
                requires
                    j < height,
            ;
        }
        let start = j * stride;
        let mut k: usize = 0;
        while k < row
            invariant
                k <= row,
                j < height,
                row == 4 * width,
                row <= stride,
                start == j * stride,
                start + stride <= padded.len(),
                out@.len() == j * row + k,
                forall|b: int, c: int|
                    0 <= b < j && 0 <= c < row ==> #[trigger] out@[b * row + c] == padded@[b * stride + c],
                forall|c: int| 0 <= c < k ==> #[trigger] out@[j * row + c] == padded@[j * stride + c],
            decreases row - k,
        {
            let ghost prev = out@;
            out.push(padded[start + k]);
            proof {
                assert forall|b: int, c: int| 0 <= b < j && 0 <= c < row implies #[trigger] out@[b * row
                    + c] == padded@[b * stride + c] by {
                    assert(b * row + row <= j * row) by (nonlinear_arith)
                        requires
                            b < j,
                            0 <= row,
                    ;
                    assert(prev[b * row + c] == padded@[b * stride + c]);
                }
            }
            k = k + 1;
        }
        proof {
            assert((j + 1) * row == j * row + row) by (nonlinear_arith);
            assert forall|b: int, c: int| 0 <= b < j + 1 && 0 <= c < row implies #[trigger] out@[b * row
                + c] == padded@[b * stride + c] by {
                if b == j {
                    assert(out@[j * row + c] == padded@[j * stride + c]);
                }
            }
        }
        j = j + 1;
    }
    proof {
        assert(height * row == row * height) by (nonlinear_arith);
    }
    out
}

} // verus!

//! Frame planes copied out of a decoder's buffers: rows laid out with a
//! stride (padding after each row) become tightly packed rows.

use vstd::prelude::*;

verus! {

/// The first `rows` rows of `row_bytes` bytes each, read from `src` where
/// row `i` starts at byte `i * stride`, one after the other.
pub open spec fn packed_rows(src: Seq<u8>, row_bytes: int, stride: int, rows: nat) -> Seq<u8>
    decreases rows,
{
    if rows == 0 {
        Seq::empty()
    } else {
        let i = rows - 1;
        packed_rows(src, row_bytes, stride, (rows - 1) as nat) + src.subrange(i * stride, i * stride + row_bytes)
    }
}

/// Every one of `rows` rows lies inside a buffer of `len` bytes.
pub open spec fn rows_inside(len: int, row_bytes: int, stride: int, rows: int) -> bool {
    rows == 0 || (rows - 1) * stride + row_bytes <= len
}

/// `n` zero bytes.
pub open spec fn zeros(n: nat) -> Seq<u8> {
    Seq::new(n, |_i: int| 0u8)
}

/// Copy `rows` rows of `row_bytes` bytes out of `src`, whose rows start
/// `stride` bytes apart, dropping the padding between them.
pub fn pack_rows(src: &Vec<u8>, row_bytes: usize, stride: usize, rows: usize) -> (r: Vec<u8>)
    requires
        rows_inside(src@.len() as int, row_bytes as int, stride as int, rows as int),
    ensures
        r@ == packed_rows(src@, row_bytes as int, stride as int, rows as nat),
{
    let n = src.len();
    let mut r: Vec<u8> = Vec::new();
    let mut row: usize = 0;
    let mut off: usize = 0;
    while row < rows
        invariant
            n == src@.len(),
            rows_inside(src@.len() as int, row_bytes as int, stride as int, rows as int),
            row <= rows,
            row < rows ==> off == row * stride,
            r@ == packed_rows(src@, row_bytes as int, stride as int, row as nat),
        decreases rows - row,
    {
        proof {
            assert(row * stride <= (rows - 1) * stride) by (nonlinear_arith)
                requires
                    row <= rows - 1,
            ;
        }
        let ghost before = r@;
        let mut k: usize = 0;
        while k < row_bytes
            invariant
                n == src@.len(),
                off == row * stride,
                off + row_bytes <= src@.len(),
                k <= row_bytes,
                r@ == before + src@.subrange(off as int, off + k),
            decreases row_bytes - k,
        {
            r.push(src[off + k]);
            assert(src@.subrange(off as int, off + k + 1) =~= src@.subrange(off as int, off + k).push(
                src@[off + k],
            ));
            k = k + 1;
        }
        proof {
            assert((row + 1) * stride == row * stride + stride) by (nonlinear_arith);
            if row + 1 < rows {
                assert((row + 1) * stride <= (rows - 1) * stride) by (nonlinear_arith)
                    requires
                        row + 1 <= rows - 1,
                ;
            }
        }
        row = row + 1;
        if row < rows {
            off = off + stride;
        }
    }
    r
}

/// `n` zero bytes.
fn zero_bytes(n: usize) -> (r: Vec<u8>)
    ensures
        r@ == zeros(n as nat),
{
    let mut r: Vec<u8> = Vec::new();
    let mut i: usize = 0;
    while i < n
        invariant
            i <= n,
            r@ == zeros(i as nat),
        decreases n - i,
    {
        r.push(0);
        assert(r@ =~= zeros((i + 1) as nat));
        i = i + 1;
    }
    r
}

/// The planes of a decoded NV12 frame, tightly packed: the luma plane has
/// `height` rows of `width` bytes, the chroma plane `height / 2` rows of
/// `width / 2` interleaved U and V pairs.  A plane is read from its buffer
/// and row stride when the frame has one, and is all zeros otherwise.
pub fn nv12_planes(
    luma: Option<(&Vec<u8>, usize)>,
    chroma: Option<(&Vec<u8>, usize)>,
    width: usize,
    height: usize,
) -> (r: (Vec<u8>, Vec<u8>))
    requires
        width * height <= usize::MAX,
        luma matches Some((p, st)) ==> rows_inside(p@.len() as int, width as int, st as int, height as int),
        chroma matches Some((p, st)) ==> rows_inside(
            p@.len() as int,
            (width / 2) * 2,
            st as int,
            (height / 2) as int,
        ),
    ensures
        r.0@ == match luma {
            Some((p, st)) => packed_rows(p@, width as int, st as int, height as nat),
            None => zeros((width * height) as nat),
        },
        r.1@ == match chroma {
            Some((p, st)) => packed_rows(p@, (width / 2) * 2, st as int, (height / 2) as nat),
            None => zeros(((width / 2) * 2 * (height / 2)) as nat),
        },
{
    let y = match luma {
        Some((p, st)) => pack_rows(p, width, st, height),
        None => zero_bytes(width * height),
    };
    let cw = (width / 2) * 2;
    let ch = height / 2;
    assert(cw * ch <= width * height) by (nonlinear_arith)
        requires
            cw <= width,
            ch <= height,
    ;
    let uv = match chroma {
        Some((p, st)) => pack_rows(p, cw, st, ch),
        None => zero_bytes(cw * ch),
    };
    (y, uv)
}

} // verus!

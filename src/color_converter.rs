//! Whole-frame conversion from packed YUYV (4:2:2) to one of three RGB layouts.
//!
//! Every 4-byte input group `Y1, Cb, Y2, Cr` becomes two output pixels that
//! share the chroma pair. Groups are independent, so the frame is converted as a
//! parallel map over groups; the result does not depend on how it is split.

use vstd::prelude::*;
use rayon::prelude::ParallelSlice;
use rayon::prelude::ParallelSliceMut;
use rayon::prelude::IndexedParallelIterator;
use rayon::prelude::ParallelIterator;
use crate::pixel::lemma_neutral_chroma;
use crate::pixel::rgb_of;
use crate::pixel::ycbcr_to_rgb;

verus! {

/// The output pixel layouts.
#[derive(Clone, Copy, Debug, PartialEq, Eq, Structural)]
pub enum Layout {
    /// 4 bytes per pixel: R, G, B, 255.
    Rgba,
    /// 3 bytes per pixel: R, G, B.
    Rgb,
    /// 4 bytes per pixel: B, G, R, 0 (the padding byte is always zero).
    Bgrx,
}

/// Why a conversion was refused; the output buffer is then left as it was.
#[derive(Clone, Copy, Debug, PartialEq, Eq, Structural)]
pub enum ConvertError {
    /// The input is not made of whole 4-byte groups.
    UnalignedInput { input_len: usize },
    /// The output length is not the one the layout needs for this input.
    SizeMismatch { input_len: usize, output_len: usize },
}

/// Output bytes produced from one 4-byte input group (two pixels).
pub open spec fn group_len(layout: Layout) -> nat {
    match layout {
        Layout::Rgb => 6,
        _ => 8,
    }
}

/// The two output pixels of the group `y1, cb, y2, cr`, in the layout's byte order.
pub open spec fn group_bytes(layout: Layout, y1: u8, cb: u8, y2: u8, cr: u8) -> Seq<u8> {
    let p = rgb_of(y1, cb, cr);
    let q = rgb_of(y2, cb, cr);
    match layout {
        Layout::Rgba => seq![p.0, p.1, p.2, 255u8, q.0, q.1, q.2, 255u8],
        Layout::Rgb => seq![p.0, p.1, p.2, q.0, q.1, q.2],
        Layout::Bgrx => seq![p.2, p.1, p.0, 0u8, q.2, q.1, q.0, 0u8],
    }
}

/// The output bytes of group `g` of `frame`.
pub open spec fn group_at(layout: Layout, frame: Seq<u8>, g: int) -> Seq<u8> {
    group_bytes(layout, frame[4 * g], frame[4 * g + 1], frame[4 * g + 2], frame[4 * g + 3])
}

/// The converted frame: byte `i` is byte `i % k` of the output of group `i / k`,
/// `k` being the layout's bytes per group. Trailing input bytes that do not make
/// a whole group contribute nothing.
pub open spec fn converted(layout: Layout, frame: Seq<u8>) -> Seq<u8> {
    let k = group_len(layout) as int;
    Seq::new(
        (frame.len() / 4 * k) as nat,
        |i: int| group_at(layout, frame, i / k)[i % k],
    )
}

/// The output length the layout needs for an input of `input_len` bytes.
pub open spec fn output_len(layout: Layout, input_len: nat) -> nat {
    input_len / 4 * group_len(layout)
}

/// Converts one input group `ch` into the two output pixels `out`.
pub fn convert_group(layout: Layout, ch: &[u8], out: &mut [u8])
    requires
        ch@.len() == 4,
        old(out)@.len() == group_len(layout),
    ensures
        final(out)@ == group_bytes(layout, ch@[0], ch@[1], ch@[2], ch@[3]),
{
    let y1 = ch[0];
    let cb = ch[1];
    let y2 = ch[2];
    let cr = ch[3];
    let (r1, g1, b1) = ycbcr_to_rgb(y1, cb, cr);
    let (r2, g2, b2) = ycbcr_to_rgb(y2, cb, cr);
    match layout {
        Layout::Rgba => {
            out[0] = r1;
            out[1] = g1;
            out[2] = b1;
            out[3] = 255;
            out[4] = r2;
            out[5] = g2;
            out[6] = b2;
            out[7] = 255;
        },
        Layout::Rgb => {
            out[0] = r1;
            out[1] = g1;
            out[2] = b1;
            out[3] = r2;
            out[4] = g2;
            out[5] = b2;
        },
        Layout::Bgrx => {
            out[0] = b1;
            out[1] = g1;
            out[2] = r1;
            out[3] = 0;
            out[4] = b2;
            out[5] = g2;
            out[6] = r2;
            out[7] = 0;
        },
    }
    assert(out@ =~= group_bytes(layout, ch@[0], ch@[1], ch@[2], ch@[3]));
}

/// Relies on rayon's `par_chunks_exact`, `par_chunks_exact_mut`, `zip` and
/// `for_each`: the input is cut into consecutive 4-byte chunks and the output
/// into consecutive `chunk_len`-byte chunks, the `g`-th of each are paired, and
/// the closure runs once on every pair before the call returns. The closure is
/// `convert_group`, so output chunk `g` holds the pixels of input group `g`.
#[verifier::external_body]
fn par_convert_groups(layout: Layout, chunk_len: usize, in_buf: &[u8], out_buf: &mut [u8])
    requires
        chunk_len == group_len(layout),
        in_buf@.len() % 4 == 0,
        old(out_buf)@.len() == output_len(layout, in_buf@.len()),
    ensures
        final(out_buf)@ == converted(layout, in_buf@),
{
    in_buf
        .par_chunks_exact(4)
        .zip(out_buf.par_chunks_exact_mut(chunk_len))
        .for_each(|(ch, out)| convert_group(layout, ch, out));
}

/// Converts `in_buf` into `out_buf` in the given layout, after checking that the
/// input is whole groups and that the output has exactly the needed length.
fn convert_frame(layout: Layout, in_buf: &[u8], out_buf: &mut [u8]) -> (r: Result<(), ConvertError>)
    ensures
        r == Ok::<(), ConvertError>(()) <==> in_buf@.len() % 4 == 0 && old(out_buf)@.len()
            == output_len(layout, in_buf@.len()),
        r == Ok::<(), ConvertError>(()) ==> final(out_buf)@ == converted(layout, in_buf@),
        in_buf@.len() % 4 != 0 ==> r == Err::<(), ConvertError>(
            ConvertError::UnalignedInput { input_len: in_buf@.len() as usize },
        ),
        in_buf@.len() % 4 == 0 && old(out_buf)@.len() != output_len(layout, in_buf@.len()) ==> r
            == Err::<(), ConvertError>(
            ConvertError::SizeMismatch {
                input_len: in_buf@.len() as usize,
                output_len: old(out_buf)@.len() as usize,
            },
        ),
        r is Err ==> final(out_buf)@ == old(out_buf)@,
{
    let k: usize = match layout {
        Layout::Rgb => 6,
        _ => 8,
    };
    let input_len = in_buf.len();
    let output_len = out_buf.len();
    if input_len % 4 != 0 {
        return Err(ConvertError::UnalignedInput { input_len });
    }
    if output_len % k != 0 || output_len / k != input_len / 4 {
        return Err(ConvertError::SizeMismatch { input_len, output_len });
    }
    proof {
        vstd::arithmetic::div_mod::lemma_fundamental_div_mod(output_len as int, k as int);
    }
    par_convert_groups(layout, k, in_buf, out_buf);
    Ok(())
}

/// The output length of a layout, for input made of whole groups: twice the input
/// length for RGBA and for swapped RGB with padding, one and a half times for
/// tight RGB.
pub proof fn lemma_output_len(layout: Layout, frame: Seq<u8>)
    requires
        frame.len() % 4 == 0,
    ensures
        converted(layout, frame).len() == output_len(layout, frame.len()),
        layout != Layout::Rgb ==> converted(layout, frame).len() == 2 * frame.len(),
        layout == Layout::Rgb ==> 2 * converted(layout, frame).len() == 3 * frame.len(),
{
    vstd::arithmetic::div_mod::lemma_fundamental_div_mod(frame.len() as int, 4);
}

/// With neutral chroma (`Cb = Cr = 128`) each output pixel of every layout has
/// all three colour channels equal to its luma.
pub proof fn lemma_neutral_group(layout: Layout, y1: u8, y2: u8)
    ensures
        layout == Layout::Rgba ==> group_bytes(layout, y1, 128, y2, 128) == seq![y1, y1, y1, 255u8, y2, y2, y2, 255u8],
        layout == Layout::Rgb ==> group_bytes(layout, y1, 128, y2, 128) == seq![y1, y1, y1, y2, y2, y2],
        layout == Layout::Bgrx ==> group_bytes(layout, y1, 128, y2, 128) == seq![y1, y1, y1, 0u8, y2, y2, y2, 0u8],
{
    lemma_neutral_chroma(y1);
    lemma_neutral_chroma(y2);
}

/// Converting a frame piece by piece, cut at any group boundary, gives the same
/// bytes as converting it whole: the output does not depend on how the groups
/// are shared out among workers, so two conversions of one frame agree byte for
/// byte.
pub proof fn lemma_converted_split(layout: Layout, a: Seq<u8>, b: Seq<u8>)
    requires
        a.len() % 4 == 0,
    ensures
        converted(layout, a + b) == converted(layout, a) + converted(layout, b),
{
    let k = group_len(layout) as int;
    let na = (a.len() / 4) as int;
    let ab = a + b;
    let lhs = converted(layout, ab);
    let rhs = converted(layout, a) + converted(layout, b);
    assert(ab.len() / 4 == na + b.len() / 4);
    assert(lhs.len() == rhs.len()) by (nonlinear_arith)
        requires
            lhs.len() == (ab.len() / 4) * k,
            rhs.len() == na * k + (b.len() / 4) * k,
            ab.len() / 4 == na + b.len() / 4,
    ;
    assert forall|i: int| 0 <= i < lhs.len() implies lhs[i] == rhs[i] by {
        let g = i / k;
        let j = i % k;
        vstd::arithmetic::div_mod::lemma_fundamental_div_mod(i, k);
        if i < na * k {
            assert(g < na) by (nonlinear_arith)
                requires
                    i == k * g + j,
                    0 <= j < k,
                    i < na * k,
                    k > 0,
            ;
            assert(group_at(layout, ab, g) == group_at(layout, a, g));
        } else {
            let i2 = i - na * k;
            vstd::arithmetic::div_mod::lemma_fundamental_div_mod_converse(i2, k, g - na, j);
            assert(i2 == (g - na) * k + j) by (nonlinear_arith)
                requires
                    i == k * g + j,
                    i2 == i - na * k,
            ;
            assert(0 <= g - na) by (nonlinear_arith)
                requires
                    i == k * g + j,
                    0 <= j < k,
                    i >= na * k,
                    k > 0,
            ;
            assert(g - na < b.len() / 4) by (nonlinear_arith)
                requires
                    i2 == (g - na) * k + j,
                    0 <= j < k,
                    i2 < (b.len() / 4) * k,
                    k > 0,
            ;
            assert(group_at(layout, ab, g) == group_at(layout, b, g - na));
        }
    }
    assert(lhs =~= rhs);
}

/// Converts a YUYV frame to RGBA (R, G, B, 255 per pixel).
///
/// Succeeds exactly when the input is whole 4-byte groups and the output is
/// twice as long as the input; otherwise the output is left untouched.
pub fn yuv422_to_rgba8(in_buf: &[u8], out_buf: &mut [u8]) -> (r: Result<(), ConvertError>)
    ensures
        r is Ok <==> in_buf@.len() % 4 == 0 && old(out_buf)@.len() == 2 * in_buf@.len(),
        r is Ok ==> final(out_buf)@ == converted(Layout::Rgba, in_buf@),
        in_buf@.len() % 4 != 0 ==> r == Err::<(), ConvertError>(
            ConvertError::UnalignedInput { input_len: in_buf@.len() as usize },
        ),
        in_buf@.len() % 4 == 0 && old(out_buf)@.len() != 2 * in_buf@.len() ==> r == Err::<
            (),
            ConvertError,
        >(
            ConvertError::SizeMismatch {
                input_len: in_buf@.len() as usize,
                output_len: old(out_buf)@.len() as usize,
            },
        ),
        r is Err ==> final(out_buf)@ == old(out_buf)@,
{
    proof {
        if in_buf@.len() % 4 == 0 {
            lemma_output_len(Layout::Rgba, in_buf@);
        }
    }
    convert_frame(Layout::Rgba, in_buf, out_buf)
}

/// Converts a YUYV frame to tightly packed RGB (R, G, B per pixel).
///
/// Succeeds exactly when the input is whole 4-byte groups and the output is one
/// and a half times as long as the input; otherwise the output is left untouched.
pub fn yuv422_to_rgb24(in_buf: &[u8], out_buf: &mut [u8]) -> (r: Result<(), ConvertError>)
    ensures
        r is Ok <==> in_buf@.len() % 4 == 0 && 2 * old(out_buf)@.len() == 3 * in_buf@.len(),
        r is Ok ==> final(out_buf)@ == converted(Layout::Rgb, in_buf@),
        in_buf@.len() % 4 != 0 ==> r == Err::<(), ConvertError>(
            ConvertError::UnalignedInput { input_len: in_buf@.len() as usize },
        ),
        in_buf@.len() % 4 == 0 && 2 * old(out_buf)@.len() != 3 * in_buf@.len() ==> r == Err::<
            (),
            ConvertError,
        >(
            ConvertError::SizeMismatch {
                input_len: in_buf@.len() as usize,
                output_len: old(out_buf)@.len() as usize,
            },
        ),
        r is Err ==> final(out_buf)@ == old(out_buf)@,
{
    proof {
        if in_buf@.len() % 4 == 0 {
            lemma_output_len(Layout::Rgb, in_buf@);
        }
    }
    convert_frame(Layout::Rgb, in_buf, out_buf)
}

/// Converts a YUYV frame to swapped RGB with padding (B, G, R, 0 per pixel).
///
/// Succeeds exactly when the input is whole 4-byte groups and the output is
/// twice as long as the input; otherwise the output is left untouched.
pub fn yuv422_to_rgb32(in_buf: &[u8], out_buf: &mut [u8]) -> (r: Result<(), ConvertError>)
    ensures
        r is Ok <==> in_buf@.len() % 4 == 0 && old(out_buf)@.len() == 2 * in_buf@.len(),
        r is Ok ==> final(out_buf)@ == converted(Layout::Bgrx, in_buf@),
        in_buf@.len() % 4 != 0 ==> r == Err::<(), ConvertError>(
            ConvertError::UnalignedInput { input_len: in_buf@.len() as usize },
        ),
        in_buf@.len() % 4 == 0 && old(out_buf)@.len() != 2 * in_buf@.len() ==> r == Err::<
            (),
            ConvertError,
        >(
            ConvertError::SizeMismatch {
                input_len: in_buf@.len() as usize,
                output_len: old(out_buf)@.len() as usize,
            },
        ),
        r is Err ==> final(out_buf)@ == old(out_buf)@,
{
    proof {
        if in_buf@.len() % 4 == 0 {
            lemma_output_len(Layout::Bgrx, in_buf@);
        }
    }
    convert_frame(Layout::Bgrx, in_buf, out_buf)
}

} // verus!

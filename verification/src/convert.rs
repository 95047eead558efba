use vstd::prelude::*;

use crate::errors::CaptureError;
use crate::format::RawFrame;

verus! {

/// Size of the buffer that holds the decoded form of `raw_len` packed 4:2:2
/// bytes: each whole 4-byte chunk expands to two pixels of 4 bytes (with
/// alpha) or 3 bytes (without).
pub open spec fn decoded_size_spec(raw_len: nat, alpha: bool) -> nat {
    (raw_len / 4) * (if alpha { 8nat } else { 6nat })
}

/// Output buffer size for expanding a packed 4:2:2 chroma-subsampled frame of
/// `raw_len` bytes into an interleaved per-pixel layout. Computed from the raw
/// length, which varies with the negotiated resolution.
pub fn decoded_size(raw_len: usize, alpha: bool) -> (r: usize)
    requires
        raw_len <= usize::MAX / 2,
    ensures
        r == decoded_size_spec(raw_len as nat, alpha),
{
    proof {
        assert((raw_len / 4) * 8 <= 2 * raw_len) by (nonlinear_arith);
    }
    (raw_len / 4) * (if alpha { 8 } else { 6 })
}

/// With alpha requested, the decoded size is exactly twice the raw length
/// rounded down to whole 4-byte packed chunks; in particular it scales
/// linearly by a factor of 2 on any whole number of chunks.
pub proof fn lemma_decoded_size_alpha(raw_len: nat)
    ensures
        decoded_size_spec(raw_len, true) == 2 * (raw_len - (raw_len % 4)),
        raw_len % 4 == 0 ==> decoded_size_spec(raw_len, true) == 2 * raw_len,
{
    vstd::arithmetic::div_mod::lemma_fundamental_div_mod(raw_len as int, 4);
    assert((raw_len / 4) * 8nat == 2 * (raw_len - (raw_len % 4))) by (nonlinear_arith)
        requires
            raw_len == 4 * (raw_len / 4) + (raw_len % 4),
    ;
}

/// Without alpha the decoded size is 1.5 times the raw length rounded down to
/// whole 4-byte packed chunks: three output bytes for every two raw bytes.
pub proof fn lemma_decoded_size_no_alpha(raw_len: nat)
    ensures
        2 * decoded_size_spec(raw_len, false) == 3 * (raw_len - (raw_len % 4)),
{
    vstd::arithmetic::div_mod::lemma_fundamental_div_mod(raw_len as int, 4);
    assert(2 * ((raw_len / 4) * 6nat) == 3 * (raw_len - (raw_len % 4))) by (nonlinear_arith)
        requires
            raw_len == 4 * (raw_len / 4) + (raw_len % 4),
    ;
}

/// The interleaved RGBA bytes that the packed 4:2:2 byte stream `data`
/// decodes to.
pub uninterp spec fn yuyv_rgba_of(data: Seq<u8>) -> Seq<u8>;

/// Relies on nokhwa's `buf_yuyv422_to_rgb` (with the alpha target): a pure
/// function of the input bytes that turns each 4-byte packed chunk into two
/// 4-byte RGBA pixels. It checks that the input length is a whole number of
/// chunks and that the destination has exactly the decoded size before it
/// writes anything, and on failure leaves the destination untouched.
#[verifier::external_body]
fn yuyv_to_rgba(data: &[u8], dest: &mut Vec<u8>) -> (r: Result<(), CaptureError>)
    ensures
        r is Ok == (data@.len() % 4 == 0 && old(dest)@.len() == decoded_size_spec(
            data@.len() as nat,
            true,
        )),
        r is Ok ==> final(dest)@ == yuyv_rgba_of(data@) && final(dest)@.len() == old(dest)@.len(),
        r is Err ==> final(dest)@ == old(dest)@,
        r matches Err(e) ==> e == CaptureError::DecodeFailed,
{
    match nokhwa::utils::buf_yuyv422_to_rgb(data, dest.as_mut_slice(), true) {
        Ok(()) => Ok(()),
        Err(_) => Err(CaptureError::DecodeFailed),
    }
}

/// Decodes one packed 4:2:2 frame into `out`, one 4-byte RGBA pixel per
/// decoded sample, row-major. Fails with `DecodeFailed`, writing nothing,
/// unless the frame's byte length equals width*height*2, covers whole 4-byte
/// chunks, and `out` already has exactly the decoded size.
pub fn decode_frame(frame: &RawFrame, out: &mut Vec<u8>) -> (r: Result<(), CaptureError>)
    ensures
        r is Ok <==> (crate::format::frame_len_matches(*frame) && frame.bytes@.len() % 4 == 0
            && old(out)@.len() == decoded_size_spec(frame.bytes@.len() as nat, true)),
        r is Ok ==> final(out)@ == yuyv_rgba_of(frame.bytes@) && final(out)@.len() == old(out)@.len(),
        r matches Err(e) ==> final(out)@ == old(out)@ && e == CaptureError::DecodeFailed,
{
    let w = frame.format.resolution.width;
    let h = frame.format.resolution.height;
    proof {
        assert((w as int) * (h as int) < 0x10000000000000000int) by (nonlinear_arith)
            requires
                w as int <= 0xffffffffint,
                h as int <= 0xffffffffint,
        ;
    }
    let wh: u64 = (w as u64) * (h as u64);
    let expected: u128 = (wh as u128) * 2;
    if (frame.bytes.len() as u128) != expected {
        return Err(CaptureError::DecodeFailed);
    }
    yuyv_to_rgba(frame.bytes.as_slice(), out)
}

} // verus!

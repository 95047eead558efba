use vstd::prelude::*;

use crate::channel::{FrameReceiver, FrameSender};
use crate::convert::{decode_frame, decoded_size, decoded_size_spec, yuyv_rgba_of};
use crate::errors::CaptureError;
use crate::format::{frame_len_matches, RawFrame};

verus! {

/// One step of the capture loop: a successfully read frame is forwarded into
/// the channel; a read failure, or a send failure (the consumer is gone),
/// terminates the loop. The loop never retries a failed read.
pub fn pump_once(tx: &FrameSender, read_result: Result<RawFrame, CaptureError>) -> (streaming:
    bool)
    ensures
        read_result is Err ==> !streaming,
{
    match read_result {
        Ok(frame) => match tx.send(frame) {
            Ok(()) => true,
            Err(_) => false,
        },
        Err(_) => false,
    }
}

/// One presentation step without the display surface itself: waits for the
/// next frame, sizes the reusable decode buffer to the frame's decoded size,
/// and decodes the packed 4:2:2 payload into interleaved RGBA. On success the
/// buffer holds exactly four bytes per pixel of the frame's resolution and
/// the consumed frame is returned so the caller can build its surface from
/// it. Any receive or decode failure is surfaced as `RenderFailed`, which
/// ends the presentation loop.
pub fn present_next(rx: &FrameReceiver, buffer: &mut Vec<u8>) -> (r: Result<
    RawFrame,
    CaptureError,
>)
    ensures
        r matches Ok(f) ==> frame_len_matches(f) && f.bytes@.len() % 4 == 0 && final(buffer)@
            == yuyv_rgba_of(f.bytes@) && final(buffer)@.len() == 4 * (
        f.format.resolution.width as int) * (f.format.resolution.height as int),
        r matches Err(e) ==> e == CaptureError::RenderFailed,
{
    let frame = match rx.recv() {
        Ok(f) => f,
        Err(_) => {
            return Err(CaptureError::RenderFailed);
        },
    };
    let len = frame.bytes.len();
    if len > usize::MAX / 2 {
        return Err(CaptureError::RenderFailed);
    }
    let size = decoded_size(len, true);
    buffer.resize(size, 0);
    match decode_frame(&frame, buffer) {
        Ok(()) => {
            proof {
                crate::convert::lemma_decoded_size_alpha(len as nat);
                assert(buffer@.len() == 2 * frame.bytes@.len());
                let wi = frame.format.resolution.width as int;
                let hi = frame.format.resolution.height as int;
                assert(2 * (wi * hi * 2) == 4 * wi * hi) by (nonlinear_arith);
                assert(buffer@.len() == 4 * wi * hi);
            }
            Ok(frame)
        },
        Err(_) => Err(CaptureError::RenderFailed),
    }
}

} // verus!

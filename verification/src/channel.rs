use vstd::prelude::*;

use crate::errors::CaptureError;
use crate::format::RawFrame;

verus! {

#[verifier::external_type_specification]
#[verifier::external_body]
#[verifier::reject_recursive_types(T)]
pub struct ExSender<T>(flume::Sender<T>);

#[verifier::external_type_specification]
#[verifier::external_body]
#[verifier::reject_recursive_types(T)]
pub struct ExReceiver<T>(flume::Receiver<T>);

/// The producing end of the frame channel, held by the capture context.
pub struct FrameSender {
    tx: flume::Sender<RawFrame>,
}

/// The consuming end of the frame channel, held by the presentation context.
pub struct FrameReceiver {
    rx: flume::Receiver<RawFrame>,
}

/// Relies on flume::unbounded: a fresh channel pair whose sends never block;
/// frames queue without bound if the consumer falls behind.
#[verifier::external_body]
fn flume_unbounded() -> (flume::Sender<RawFrame>, flume::Receiver<RawFrame>) {
    flume::unbounded()
}

/// Relies on flume::Sender::send: on an unbounded channel it neither blocks
/// nor fails while the receiver lives, and once every receiver is dropped it
/// returns the undelivered message inside the error.
#[verifier::external_body]
fn flume_send(tx: &flume::Sender<RawFrame>, frame: RawFrame) -> (r: Result<(), RawFrame>)
    ensures
        r matches Err(f) ==> f == frame,
{
    tx.send(frame).map_err(|e| e.into_inner())
}

/// Relies on flume::Receiver::recv: blocks until a message arrives, and
/// returns the error exactly when every sender has been dropped and the queue
/// has been drained.
#[verifier::external_body]
fn flume_recv(rx: &flume::Receiver<RawFrame>) -> (r: Result<RawFrame, ()>) {
    rx.recv().map_err(|_| ())
}

/// Creates the single-producer/single-consumer frame channel that bridges the
/// capture context and the presentation context.
pub fn frame_channel() -> (FrameSender, FrameReceiver) {
    let (tx, rx) = flume_unbounded();
    (FrameSender { tx }, FrameReceiver { rx })
}

impl FrameSender {
    /// Hands one frame to the channel without blocking. The only failure is
    /// `ChannelClosed`: the consumer side is gone, and streaming is over.
    pub fn send(&self, frame: RawFrame) -> (r: Result<(), CaptureError>)
        ensures
            r matches Err(e) ==> e == CaptureError::ChannelClosed,
    {
        match flume_send(&self.tx, frame) {
            Ok(()) => Ok(()),
            Err(_) => Err(CaptureError::ChannelClosed),
        }
    }
}

impl FrameReceiver {
    /// Waits for the next frame. The only failure is `ChannelClosed`: the
    /// producer terminated and every queued frame has been consumed; after
    /// that every further call fails the same way.
    pub fn recv(&self) -> (r: Result<RawFrame, CaptureError>)
        ensures
            r matches Err(e) ==> e == CaptureError::ChannelClosed,
    {
        match flume_recv(&self.rx) {
            Ok(frame) => Ok(frame),
            Err(()) => Err(CaptureError::ChannelClosed),
        }
    }
}

} // verus!

use vstd::prelude::*;

verus! {

/// The error kinds of the capture core.
///
/// `BackendUnavailable`: no native capture backend could be initialized.
/// `DeviceOpenFailed`: the requested device could not be claimed.
/// `ControlQueryFailed`: the device's control set could not be enumerated.
/// `CaptureFailed`: a device-level I/O fault while streaming.
/// `DecodeFailed`: a raw frame's byte length is inconsistent with its format.
/// `ChannelClosed`: the other end of the frame channel is gone.
/// `UnknownPropertyKind`: a property-kind selector matched no known alias.
/// `RenderFailed`: a receive or decode failure during presentation.
#[derive(Clone, Copy, Debug, PartialEq, Eq, Structural)]
pub enum CaptureError {
    BackendUnavailable,
    DeviceOpenFailed,
    ControlQueryFailed,
    CaptureFailed,
    DecodeFailed,
    ChannelClosed,
    UnknownPropertyKind,
    RenderFailed,
}

} // verus!

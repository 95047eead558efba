use vstd::prelude::*;

verus! {

/// The fixed, enumerable set of pixel/byte encodings a camera can emit.
#[derive(Clone, Copy, Debug, PartialEq, Eq, Structural)]
pub enum FrameFormatKind {
    Mjpeg,
    Yuyv,
    Nv12,
    Gray,
    RawRgb,
    RawBgr,
}

/// Every known frame-format kind, in the order the catalog queries them.
pub fn all_frame_format_kinds() -> (r: Vec<FrameFormatKind>)
    ensures
        r@ == seq![
            FrameFormatKind::Mjpeg,
            FrameFormatKind::Yuyv,
            FrameFormatKind::Nv12,
            FrameFormatKind::Gray,
            FrameFormatKind::RawRgb,
            FrameFormatKind::RawBgr,
        ],
{
    let mut v: Vec<FrameFormatKind> = Vec::new();
    v.push(FrameFormatKind::Mjpeg);
    v.push(FrameFormatKind::Yuyv);
    v.push(FrameFormatKind::Nv12);
    v.push(FrameFormatKind::Gray);
    v.push(FrameFormatKind::RawRgb);
    v.push(FrameFormatKind::RawBgr);
    proof {
        assert(v@ =~= seq![
            FrameFormatKind::Mjpeg,
            FrameFormatKind::Yuyv,
            FrameFormatKind::Nv12,
            FrameFormatKind::Gray,
            FrameFormatKind::RawRgb,
            FrameFormatKind::RawBgr,
        ]);
    }
    v
}

/// A capture resolution in pixels.
#[derive(Clone, Copy, Debug, PartialEq, Eq, Structural)]
pub struct Resolution {
    pub width: u32,
    pub height: u32,
}

/// The total order on resolutions: by width first, ties broken by height.
/// A pure function of width and height, independent of discovery order.
pub open spec fn res_le(a: Resolution, b: Resolution) -> bool {
    a.width < b.width || (a.width == b.width && a.height <= b.height)
}

/// Strict version of [`res_le`].
pub open spec fn res_lt(a: Resolution, b: Resolution) -> bool {
    a.width < b.width || (a.width == b.width && a.height < b.height)
}

/// The resolution order is total: reflexive, antisymmetric on the pair of
/// width and height, transitive, and defined between any two resolutions, so
/// sorting by it is deterministic whatever order discovery produced.
pub proof fn lemma_res_order_is_total(a: Resolution, b: Resolution, c: Resolution)
    ensures
        res_le(a, a),
        res_le(a, b) && res_le(b, a) ==> a == b,
        res_le(a, b) && res_le(b, c) ==> res_le(a, c),
        res_le(a, b) || res_le(b, a),
{
}

/// Decides [`res_le`].
pub fn resolution_le(a: &Resolution, b: &Resolution) -> (r: bool)
    ensures
        r == res_le(*a, *b),
{
    a.width < b.width || (a.width == b.width && a.height <= b.height)
}

/// The format negotiated for a capture session; immutable once agreed upon.
#[derive(Clone, Copy, Debug, PartialEq, Eq, Structural)]
pub struct CameraFormat {
    pub resolution: Resolution,
    pub kind: FrameFormatKind,
    pub frame_rate: u32,
}

impl CameraFormat {
    /// Width of the negotiated resolution, in pixels.
    pub fn width(&self) -> (r: u32)
        ensures
            r == self.resolution.width,
    {
        self.resolution.width
    }

    /// Height of the negotiated resolution, in pixels.
    pub fn height(&self) -> (r: u32)
        ensures
            r == self.resolution.height,
    {
        self.resolution.height
    }
}

/// One raw frame as produced by a capture device: an opaque byte payload
/// together with the format it was captured under. Ownership moves from the
/// capture side through the channel to the presentation side.
pub struct RawFrame {
    pub bytes: Vec<u8>,
    pub format: CameraFormat,
}

/// The raw byte length a packed 4:2:2 frame must have for its format:
/// two bytes per pixel.
pub open spec fn frame_len_matches(frame: RawFrame) -> bool {
    frame.bytes@.len() == frame.format.resolution.width * frame.format.resolution.height * 2
}

} // verus!

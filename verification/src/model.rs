//! The mathematical model of the document graph and the engine's own value
//! types: object identifiers, the shapes a Filter or ColorSpace entry can
//! take, per-image outcomes, and the per-object record that the graph view
//! maps each identifier to.

use vstd::prelude::*;

verus! {

/// Identifier of one object in the document graph: a numeric id plus a
/// generation tag; unique within a graph.
pub type ObjKey = (u32, u16);

// ---------------------------------------------------------------------------
// Well-known dictionary names, as byte sequences.
// ---------------------------------------------------------------------------

/// The name of the photographic (JPEG-family) stream filter, "DCTDecode".
pub open spec fn dct_name() -> Seq<u8> {
    seq![68u8, 67u8, 84u8, 68u8, 101u8, 99u8, 111u8, 100u8, 101u8]
}

/// The name of the generic deflate stream filter, "FlateDecode".
pub open spec fn flate_name() -> Seq<u8> {
    seq![70u8, 108u8, 97u8, 116u8, 101u8, 68u8, 101u8, 99u8, 111u8, 100u8, 101u8]
}

/// The three-channel device colour model name, "DeviceRGB".
pub open spec fn device_rgb_name() -> Seq<u8> {
    seq![68u8, 101u8, 118u8, 105u8, 99u8, 101u8, 82u8, 71u8, 66u8]
}

/// The single-channel device colour model name, "DeviceGray".
pub open spec fn device_gray_name() -> Seq<u8> {
    seq![68u8, 101u8, 118u8, 105u8, 99u8, 101u8, 71u8, 114u8, 97u8, 121u8]
}

/// "DCTDecode" as a byte vector.
pub fn dct_name_bytes() -> (r: Vec<u8>)
    ensures
        r@ == dct_name(),
{
    let r: Vec<u8> = vec![68u8, 67u8, 84u8, 68u8, 101u8, 99u8, 111u8, 100u8, 101u8];
    assert(r@ =~= dct_name());
    r
}

/// "DeviceRGB" as a byte vector.
pub fn device_rgb_name_bytes() -> (r: Vec<u8>)
    ensures
        r@ == device_rgb_name(),
{
    let r: Vec<u8> = vec![68u8, 101u8, 118u8, 105u8, 99u8, 101u8, 82u8, 71u8, 66u8];
    assert(r@ =~= device_rgb_name());
    r
}

/// "DeviceGray" as a byte vector.
pub fn device_gray_name_bytes() -> (r: Vec<u8>)
    ensures
        r@ == device_gray_name(),
{
    let r: Vec<u8> = vec![68u8, 101u8, 118u8, 105u8, 99u8, 101u8, 71u8, 114u8, 97u8, 121u8];
    assert(r@ =~= device_gray_name());
    r
}

/// Byte-for-byte equality of two slices.
pub fn bytes_eq(a: &[u8], b: &[u8]) -> (r: bool)
    ensures
        r == (a@ == b@),
{
    if a.len() != b.len() {
        assert(a@ != b@);
        return false;
    }
    let n: usize = a.len();
    let mut i: usize = 0;
    while i < n
        invariant
            n == a@.len(),
            n == b@.len(),
            i <= n,
            forall|j: int| 0 <= j < i ==> a@[j] == b@[j],
        decreases n - i,
    {
        if a[i] != b[i] {
            return false;
        }
        i = i + 1;
    }
    proof {
        assert(a@ =~= b@);
    }
    true
}

// ---------------------------------------------------------------------------
// The shapes of the dictionary entries the engine reads.
// ---------------------------------------------------------------------------

/// One element of a Filter array: a name, or something else.
pub enum FilterElem {
    Name(Vec<u8>),
    Other,
}

/// What a stream dictionary's Filter entry holds: nothing, one name, an array
/// of elements, or an unexpected value.
pub enum FilterDesc {
    Absent,
    Single(Vec<u8>),
    Chain(Vec<FilterElem>),
    Other,
}

/// Model counterpart of `FilterElem`.
pub enum FilterElemShape {
    Name(Seq<u8>),
    Other,
}

/// Model counterpart of `FilterDesc`.
pub enum FilterShape {
    Absent,
    Single(Seq<u8>),
    Chain(Seq<FilterElemShape>),
    Other,
}

impl View for FilterElem {
    type V = FilterElemShape;

    open spec fn view(&self) -> FilterElemShape {
        match self {
            FilterElem::Name(n) => FilterElemShape::Name(n@),
            FilterElem::Other => FilterElemShape::Other,
        }
    }
}

impl View for FilterDesc {
    type V = FilterShape;

    open spec fn view(&self) -> FilterShape {
        match self {
            FilterDesc::Absent => FilterShape::Absent,
            FilterDesc::Single(n) => FilterShape::Single(n@),
            FilterDesc::Chain(v) => FilterShape::Chain(Seq::new(v@.len(), |i: int| v@[i]@)),
            FilterDesc::Other => FilterShape::Other,
        }
    }
}

/// A filter designates the photographic encoding when it is the DCT name
/// itself or an array with the DCT name among its elements.
pub open spec fn spec_is_photographic(f: FilterShape) -> bool {
    match f {
        FilterShape::Single(n) => n == dct_name(),
        FilterShape::Chain(elems) => exists|i: int|
            0 <= i < elems.len() && elems[i] == FilterElemShape::Name(dct_name()),
        _ => false,
    }
}

/// How a value reads as a colour-space descriptor: a direct name, an array
/// headed by a name or by a reference, a bare reference to be chased through
/// the graph, nothing at all, or something inconclusive.
pub enum ColorSpaceDesc {
    Name(Vec<u8>),
    ArrayHeadName(Vec<u8>),
    ArrayHeadRef(ObjKey),
    Indirect(ObjKey),
    Absent,
    Other,
}

/// Model counterpart of `ColorSpaceDesc`.
pub enum CsShape {
    Name(Seq<u8>),
    ArrayHeadName(Seq<u8>),
    ArrayHeadRef(ObjKey),
    Indirect(ObjKey),
    Absent,
    Other,
}

impl View for ColorSpaceDesc {
    type V = CsShape;

    open spec fn view(&self) -> CsShape {
        match self {
            ColorSpaceDesc::Name(n) => CsShape::Name(n@),
            ColorSpaceDesc::ArrayHeadName(n) => CsShape::ArrayHeadName(n@),
            ColorSpaceDesc::ArrayHeadRef(k) => CsShape::ArrayHeadRef(*k),
            ColorSpaceDesc::Indirect(k) => CsShape::Indirect(*k),
            ColorSpaceDesc::Absent => CsShape::Absent,
            ColorSpaceDesc::Other => CsShape::Other,
        }
    }
}

/// The resolved channel layout of an image's samples.
#[derive(Clone, Copy, Debug, PartialEq, Eq, Structural)]
pub enum ColorModel {
    Gray,
    Rgb,
    Unsupported,
}

// ---------------------------------------------------------------------------
// Per-image outcomes and the engine's errors.
// ---------------------------------------------------------------------------

/// Why one image was left untouched. Each reason is isolated to its image and
/// never fails the whole document.
#[derive(Clone, Copy, Debug, PartialEq, Eq, Structural)]
pub enum SkipReason {
    /// The stream-level encoding could not be reversed.
    UnsupportedFilter,
    /// The channel layout is neither single-channel gray nor three-channel RGB.
    UnsupportedColorModel,
    /// The samples are not 8 bits per component.
    UnsupportedBitDepth,
    /// Dimensions, payload, or compressed data do not form a decodable image.
    MalformedPayload,
    /// The replacement encoding could not be produced.
    EncodeFailed,
}

/// Terminal state of one located image: replaced, or skipped.
#[derive(Clone, Copy, Debug, PartialEq, Eq, Structural)]
pub enum PipelineResult {
    Patched,
    SkippedUnsupported,
    SkippedDecodeError,
}

/// The two fatal conditions: the input is not a well-formed document, or the
/// output could not be serialized.
#[derive(Clone, Copy, Debug, PartialEq, Eq, Structural)]
pub enum EngineError {
    InvalidDocument,
    SaveFailed,
}

impl SkipReason {
    /// The diagnostic bucket this reason falls in: unsupported features are
    /// one terminal state, malformed or unencodable data the other.
    pub fn to_pipeline_result(self) -> (r: PipelineResult)
        ensures
            r == self.spec_pipeline_result(),
    {
        match self {
            SkipReason::UnsupportedFilter => PipelineResult::SkippedUnsupported,
            SkipReason::UnsupportedColorModel => PipelineResult::SkippedUnsupported,
            SkipReason::UnsupportedBitDepth => PipelineResult::SkippedUnsupported,
            SkipReason::MalformedPayload => PipelineResult::SkippedDecodeError,
            SkipReason::EncodeFailed => PipelineResult::SkippedDecodeError,
        }
    }

    /// Which terminal state each skip reason maps to.
    pub open spec fn spec_pipeline_result(self) -> PipelineResult {
        match self {
            SkipReason::UnsupportedFilter => PipelineResult::SkippedUnsupported,
            SkipReason::UnsupportedColorModel => PipelineResult::SkippedUnsupported,
            SkipReason::UnsupportedBitDepth => PipelineResult::SkippedUnsupported,
            SkipReason::MalformedPayload => PipelineResult::SkippedDecodeError,
            SkipReason::EncodeFailed => PipelineResult::SkippedDecodeError,
        }
    }
}

// ---------------------------------------------------------------------------
// The per-object record of the graph model.
// ---------------------------------------------------------------------------

/// What the engine reads of one image stream: the dictionary entries it
/// interprets, the raw payload, and the payload with its stream filters
/// reversed where that is possible.
pub struct ImageRec {
    /// The Width entry, when present and an integer.
    pub width: Option<int>,
    /// The Height entry, when present and an integer.
    pub height: Option<int>,
    /// The BitsPerComponent entry, when present and an integer.
    pub bits: Option<int>,
    /// The Filter entry's shape.
    pub filter: FilterShape,
    /// The ColorSpace entry's shape.
    pub cspace: CsShape,
    /// Whether the dictionary carries a decode-parameter (DecodeParms)
    /// entry describing the payload's encoding.
    pub has_decode_parms: bool,
    /// The raw stream payload.
    pub content: Seq<u8>,
    /// The payload after reversing the stream filters, when the graph
    /// provider can reverse them.
    pub plain: Option<Seq<u8>>,
}

/// The model of one graph object: whether it is an image stream (and what the
/// engine reads of it), how the object itself reads as a colour-space
/// descriptor, and which identifiers it references.
pub struct ObjRec {
    /// `Some` exactly when the object is a stream whose dictionary carries
    /// Subtype = Image.
    pub image: Option<ImageRec>,
    /// How this object reads as a colour-space descriptor when another
    /// object's ColorSpace entry points at it.
    pub cs_shape: CsShape,
    /// Every identifier referenced from inside this object.
    pub refs: Set<ObjKey>,
}

/// A graph is closed when every reference from a stored object resolves to a
/// stored object: the document's well-formedness invariant.
pub open spec fn graph_closed(m: Map<ObjKey, ObjRec>) -> bool {
    forall|k: ObjKey| m.dom().contains(k) ==> (#[trigger] m[k]).refs.subset_of(m.dom())
}

/// The graph stores an image stream at `k`.
pub open spec fn is_image(m: Map<ObjKey, ObjRec>, k: ObjKey) -> bool {
    m.dom().contains(k) && m[k].image is Some
}

/// What the engine reads of the image stream stored at `k`.
pub open spec fn image_at(m: Map<ObjKey, ObjRec>, k: ObjKey) -> ImageRec
    recommends
        is_image(m, k),
{
    m[k].image->Some_0
}

/// How the object stored at `k` reads as a colour-space descriptor; a missing
/// object reads as inconclusive.
pub open spec fn cs_shape_at(m: Map<ObjKey, ObjRec>, k: ObjKey) -> CsShape {
    if m.dom().contains(k) {
        m[k].cs_shape
    } else {
        CsShape::Other
    }
}

/// How the generic compression pass may rewrite one stored object: a stream
/// that had no Filter entry can be deflated in place, gaining Filter =
/// FlateDecode and a new payload; everything else about the object is kept.
/// (What the new payload reverses to is left open: a stale decode-parameter
/// entry makes the reversal apply a predictor the deflation never did.)
pub open spec fn compressed_entry(o: ObjRec, n: ObjRec) -> bool {
    &&& n.cs_shape == o.cs_shape
    &&& n.refs == o.refs
    &&& (o.image is Some <==> n.image is Some)
    &&& o.image is Some ==> {
        let oi = o.image->Some_0;
        let ni = n.image->Some_0;
        &&& oi.filter == FilterShape::Absent
        &&& ni.filter == FilterShape::Single(flate_name())
        &&& ni.width == oi.width
        &&& ni.height == oi.height
        &&& ni.bits == oi.bits
        &&& ni.cspace == oi.cspace
        &&& ni.has_decode_parms == oi.has_decode_parms
    }
}

} // verus!

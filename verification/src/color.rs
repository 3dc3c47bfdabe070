//! The colour model resolver: an ordered set of resolution rules mapping a
//! ColorSpace descriptor (possibly indirect) and the decoded byte count to a
//! channel layout. Ambiguity degrades to `Unsupported`, never to an error.

use vstd::prelude::*;
use crate::model::{
    ColorModel, ColorSpaceDesc, CsShape, ObjKey, ObjRec, bytes_eq, cs_shape_at, device_gray_name,
    device_gray_name_bytes, device_rgb_name, device_rgb_name_bytes,
};
use crate::pdf::doc_view;

verus! {

/// How many indirect links the resolver chases before giving up; descriptors
/// nested deeper than this resolve as inconclusive.
pub const CS_DEREF_LIMIT: u32 = 4;

/// The channel layout a known colour-model name denotes.
pub open spec fn known_name_model(n: Seq<u8>) -> ColorModel {
    if n == device_rgb_name() {
        ColorModel::Rgb
    } else if n == device_gray_name() {
        ColorModel::Gray
    } else {
        ColorModel::Unsupported
    }
}

/// The first conclusive match of the ordered resolution rules: a direct name
/// is matched against the known model names; an array is resolved through its
/// first element; an indirect descriptor is dereferenced through the graph
/// and resolved with the same rules, at most `depth` links deep.
pub open spec fn spec_resolve_shape(d: lopdf::Document, cs: CsShape, depth: nat) -> ColorModel
    decreases depth,
{
    match cs {
        CsShape::Name(n) => known_name_model(n),
        CsShape::ArrayHeadName(n) => known_name_model(n),
        CsShape::ArrayHeadRef(k) => if depth == 0 {
            ColorModel::Unsupported
        } else {
            spec_resolve_shape(d, cs_shape_at(doc_view(d), k), (depth - 1) as nat)
        },
        CsShape::Indirect(k) => if depth == 0 {
            ColorModel::Unsupported
        } else {
            spec_resolve_shape(d, cs_shape_at(doc_view(d), k), (depth - 1) as nat)
        },
        CsShape::Absent => ColorModel::Unsupported,
        CsShape::Other => ColorModel::Unsupported,
    }
}

/// The full resolution policy: the named rules first, then the byte-count
/// heuristic — a payload of exactly `width * height * 3` bytes is treated as
/// RGB even when the name rules are inconclusive. (A deliberate compatibility
/// tradeoff: three-channel data in an undeclared non-RGB space is mis-read.)
pub open spec fn spec_color_model(
    d: lopdf::Document,
    cs: CsShape,
    byte_count: int,
    w: int,
    h: int,
) -> ColorModel {
    let named = spec_resolve_shape(d, cs, CS_DEREF_LIMIT as nat);
    if named != ColorModel::Unsupported {
        named
    } else if byte_count == w * h * 3 {
        ColorModel::Rgb
    } else {
        ColorModel::Unsupported
    }
}

/// Matches a colour-model name against the known single-channel and
/// three-channel names.
fn known_name(n: &Vec<u8>) -> (r: ColorModel)
    ensures
        r == known_name_model(n@),
{
    let rgb = device_rgb_name_bytes();
    if bytes_eq(n.as_slice(), rgb.as_slice()) {
        return ColorModel::Rgb;
    }
    let gray = device_gray_name_bytes();
    if bytes_eq(n.as_slice(), gray.as_slice()) {
        return ColorModel::Gray;
    }
    ColorModel::Unsupported
}

/// Applies the named resolution rules, chasing at most `depth` indirect
/// links through the graph.
pub fn resolve_shape(doc: &lopdf::Document, cs: &ColorSpaceDesc, depth: u32) -> (r: ColorModel)
    ensures
        r == spec_resolve_shape(*doc, cs@, depth as nat),
    decreases depth,
{
    match cs {
        ColorSpaceDesc::Name(n) => known_name(n),
        ColorSpaceDesc::ArrayHeadName(n) => known_name(n),
        ColorSpaceDesc::ArrayHeadRef(k) => {
            if depth == 0 {
                ColorModel::Unsupported
            } else {
                let inner = crate::pdf::object_cs_shape(doc, *k);
                resolve_shape(doc, &inner, depth - 1)
            }
        },
        ColorSpaceDesc::Indirect(k) => {
            if depth == 0 {
                ColorModel::Unsupported
            } else {
                let inner = crate::pdf::object_cs_shape(doc, *k);
                resolve_shape(doc, &inner, depth - 1)
            }
        },
        ColorSpaceDesc::Absent => ColorModel::Unsupported,
        ColorSpaceDesc::Other => ColorModel::Unsupported,
    }
}

/// Resolves the channel layout of an image: the named rules first, then the
/// byte-count heuristic. Never fails; inconclusive input yields
/// `Unsupported`, which the caller turns into a skip.
pub fn resolve_color_model(
    doc: &lopdf::Document,
    cs: &ColorSpaceDesc,
    byte_count: usize,
    w: u32,
    h: u32,
) -> (r: ColorModel)
    ensures
        r == spec_color_model(*doc, cs@, byte_count as int, w as int, h as int),
{
    proof {
        assert((w as int) * (h as int) * 3 < 0x1_0000_0000_0000_0000_0000) by (nonlinear_arith)
            requires
                0 <= w as int <= 0xffff_ffff,
                0 <= h as int <= 0xffff_ffff,
        ;
    }
    let named = resolve_shape(doc, cs, CS_DEREF_LIMIT);
    if named != ColorModel::Unsupported {
        named
    } else if byte_count as u128 == (w as u128) * (h as u128) * 3 {
        ColorModel::Rgb
    } else {
        ColorModel::Unsupported
    }
}

} // verus!

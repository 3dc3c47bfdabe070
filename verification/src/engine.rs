//! The pipeline: classify each located image, rebuild its pixel buffer,
//! resize and re-encode it under the configured budget, and patch the owning
//! stream in place, isolating every per-image fault; then prune unreachable
//! objects, recompress the remaining streams, and serialize.

use vstd::prelude::*;
use crate::color::{resolve_color_model, spec_color_model};
use crate::config::CompressionConfig;
use crate::model::{
    ColorModel, CsShape, FilterDesc, FilterElem, FilterElemShape, FilterShape, ImageRec, ObjKey,
    ObjRec, PipelineResult, SkipReason, EngineError, bytes_eq, compressed_entry, dct_name,
    dct_name_bytes, device_rgb_name, graph_closed, image_at, is_image, spec_is_photographic,
};
use crate::pdf::{
    compress_streams, doc_keys, doc_view, image_bits, image_colorspace, image_dims, image_filter,
    image_plain_content, image_raw_content, is_image_stream, load_document, parsed_doc,
    patch_image_stream, prune_unreachable, save_document, serialized_doc,
};
use crate::raster::{
    RasterShape, decode_raster, decoded_of, encode_jpeg, gray_raster, jpeg_of, raster_dims,
    raster_view, resize_raster, rgb_raster, to_rgb_raster,
};
use crate::resize::{spec_target_dims, target_dims};

verus! {

/// Whether a Filter entry designates the photographic (JPEG-family)
/// encoding: the DCT name itself, or an array with the DCT name among its
/// elements.
pub fn is_photographic(f: &FilterDesc) -> (r: bool)
    ensures
        r == spec_is_photographic(f@),
{
    match f {
        FilterDesc::Single(n) => {
            let d = dct_name_bytes();
            bytes_eq(n.as_slice(), d.as_slice())
        },
        FilterDesc::Chain(elems) => {
            let d = dct_name_bytes();
            let n_elems: usize = elems.len();
            let mut i: usize = 0;
            while i < n_elems
                invariant
                    n_elems == elems@.len(),
                    i <= n_elems,
                    d@ == dct_name(),
                    f@ == FilterShape::Chain(Seq::new(elems@.len(), |j: int| elems@[j]@)),
                    forall|j: int| 0 <= j < i ==> (#[trigger] elems@[j])@ != FilterElemShape::Name(
                        dct_name(),
                    ),
                decreases n_elems - i,
            {
                match &elems[i] {
                    FilterElem::Name(n) => {
                        if bytes_eq(n.as_slice(), d.as_slice()) {
                            proof {
                                let elem_views = Seq::new(elems@.len(), |j: int| elems@[j]@);
                                assert(f@ == FilterShape::Chain(elem_views));
                                assert(elems@[i as int]@ == FilterElemShape::Name(dct_name()));
                                assert(elem_views[i as int] == FilterElemShape::Name(dct_name()));
                                assert(exists|j: int|
                                    0 <= j < elem_views.len() && elem_views[j]
                                        == FilterElemShape::Name(dct_name()));
                                assert(spec_is_photographic(f@));
                            }
                            return true;
                        }
                    },
                    FilterElem::Other => {},
                }
                i = i + 1;
            }
            proof {
                let elem_views = Seq::new(elems@.len(), |j: int| elems@[j]@);
                assert(forall|j: int|
                    0 <= j < elem_views.len() ==> elem_views[j] != FilterElemShape::Name(
                        dct_name(),
                    ));
            }
            false
        },
        FilterDesc::Absent => false,
        FilterDesc::Other => false,
    }
}

/// The channel layout a raw (non-photographic) payload decodes under, or the
/// reason it cannot: only 8-bit samples are supported; a gray payload must
/// hold exactly `w * h` bytes and an RGB payload exactly `w * h * 3`; a
/// four-byte-per-pixel payload is an unsupported colour model rather than a
/// guessed conversion, and any other unresolved length is a malformed
/// payload. (Callers resolve the model first, which turns exactly the
/// `w * h * 3` ambiguous case into RGB.)
pub open spec fn spec_raw_channel_plan(
    bits: int,
    model: ColorModel,
    len: int,
    w: int,
    h: int,
) -> Result<u32, SkipReason> {
    if bits != 8 {
        Err(SkipReason::UnsupportedBitDepth)
    } else {
        match model {
            ColorModel::Rgb => if len == w * h * 3 {
                Ok(3u32)
            } else {
                Err(SkipReason::MalformedPayload)
            },
            ColorModel::Gray => if len == w * h {
                Ok(1u32)
            } else {
                Err(SkipReason::MalformedPayload)
            },
            ColorModel::Unsupported => if len == w * h * 4 {
                Err(SkipReason::UnsupportedColorModel)
            } else {
                Err(SkipReason::MalformedPayload)
            },
        }
    }
}

/// Decides how a raw payload is to be interpreted; see
/// `spec_raw_channel_plan`.
pub fn raw_channel_plan(bits: i64, model: ColorModel, len: usize, w: u32, h: u32) -> (r: Result<
    u32,
    SkipReason,
>)
    ensures
        r == spec_raw_channel_plan(bits as int, model, len as int, w as int, h as int),
{
    proof {
        assert((w as int) * (h as int) * 4 < 0x1_0000_0000_0000_0000_0000) by (nonlinear_arith)
            requires
                0 <= w as int <= 0xffff_ffff,
                0 <= h as int <= 0xffff_ffff,
        ;
    }
    if bits != 8 {
        Err(SkipReason::UnsupportedBitDepth)
    } else {
        match model {
            ColorModel::Rgb => {
                if len as u128 == (w as u128) * (h as u128) * 3 {
                    Ok(3u32)
                } else {
                    Err(SkipReason::MalformedPayload)
                }
            },
            ColorModel::Gray => {
                if len as u128 == (w as u128) * (h as u128) {
                    Ok(1u32)
                } else {
                    Err(SkipReason::MalformedPayload)
                }
            },
            ColorModel::Unsupported => {
                if len as u128 == (w as u128) * (h as u128) * 4 {
                    Err(SkipReason::UnsupportedColorModel)
                } else {
                    Err(SkipReason::MalformedPayload)
                }
            },
        }
    }
}

/// The dictionary dimensions are usable: present, integral, positive, and
/// within the 32-bit range the pipeline carries.
pub open spec fn dims_ok(rec: ImageRec) -> bool {
    &&& rec.width matches Some(w) && 1 <= w <= 0xffff_ffff
    &&& rec.height matches Some(h) && 1 <= h <= 0xffff_ffff
}

/// The Width entry's value; meaningful under `dims_ok`.
pub open spec fn rec_width(rec: ImageRec) -> int {
    rec.width->Some_0
}

/// The Height entry's value; meaningful under `dims_ok`.
pub open spec fn rec_height(rec: ImageRec) -> int {
    rec.height->Some_0
}

/// The effective bit depth: the BitsPerComponent entry where present, else
/// the default of 8.
pub open spec fn bits_of(rec: ImageRec) -> int {
    match rec.bits {
        Some(b) => b,
        None => 8,
    }
}

/// The bytes handed to the raster decoder for a photographic stream: the
/// payload with its stream filters reversed where that worked and yielded
/// bytes, else the raw payload — a bare compressed image under an odd filter
/// chain is still attempted.
pub open spec fn photo_payload(rec: ImageRec) -> Seq<u8> {
    match rec.plain {
        Some(p) => if p.len() > 0 {
            p
        } else {
            rec.content
        },
        None => rec.content,
    }
}

/// What one successfully transformed image hands to the patcher: the new
/// payload, the dimensions it encodes, and the decoded dimensions it was
/// resized from.
#[derive(Debug)]
pub struct PatchOutcome {
    pub data: Vec<u8>,
    pub width: u32,
    pub height: u32,
    pub src_width: u32,
    pub src_height: u32,
}

/// Decodes, resizes and re-encodes the image stream at `id`, without
/// touching the graph. Every rejection is pinned to its cause: unusable
/// dictionary dimensions and undecodable photographic payloads are malformed
/// payloads, an irreversible stream encoding is an unsupported filter, and a
/// raw payload fails exactly as `spec_raw_channel_plan` says. Where nothing
/// rejects, only the encoder can still fail; on success the new dimensions
/// are exactly what the resize policy assigns to the decoded dimensions, and
/// the payload is the JPEG encoding, at the configured quality, of a
/// three-channel raster of those dimensions.
pub fn process_image(doc: &lopdf::Document, id: ObjKey, config: &CompressionConfig) -> (r: Result<
    PatchOutcome,
    SkipReason,
>)
    requires
        is_image(doc_view(*doc), id),
        config.valid(),
    ensures
        ({
            let rec = image_at(doc_view(*doc), id);
            &&& !dims_ok(rec) ==> r == Err::<PatchOutcome, SkipReason>(SkipReason::MalformedPayload)
            &&& dims_ok(rec) && spec_is_photographic(rec.filter) ==> {
                let dec = decoded_of(photo_payload(rec));
                &&& dec is None ==> r == Err::<PatchOutcome, SkipReason>(
                    SkipReason::MalformedPayload,
                )
                &&& dec matches Some(s) ==> {
                    &&& s.width < 1 || s.height < 1 ==> r == Err::<PatchOutcome, SkipReason>(
                        SkipReason::MalformedPayload,
                    )
                    &&& s.width >= 1 && s.height >= 1 ==> ((r matches Ok(p) && p.src_width as int
                        == s.width && p.src_height as int == s.height) || r == Err::<
                        PatchOutcome,
                        SkipReason,
                    >(SkipReason::EncodeFailed))
                }
            }
            &&& dims_ok(rec) && !spec_is_photographic(rec.filter) ==> {
                &&& rec.plain is None ==> r == Err::<PatchOutcome, SkipReason>(
                    SkipReason::UnsupportedFilter,
                )
                &&& rec.plain matches Some(data) ==> {
                    let plan = spec_raw_channel_plan(
                        bits_of(rec),
                        spec_color_model(
                            *doc,
                            rec.cspace,
                            data.len() as int,
                            rec_width(rec),
                            rec_height(rec),
                        ),
                        data.len() as int,
                        rec_width(rec),
                        rec_height(rec),
                    );
                    &&& plan matches Err(s) ==> r == Err::<PatchOutcome, SkipReason>(s)
                    &&& plan is Ok ==> ((r matches Ok(p) && p.src_width as int == rec_width(rec)
                        && p.src_height as int == rec_height(rec)) || r == Err::<
                        PatchOutcome,
                        SkipReason,
                    >(SkipReason::EncodeFailed))
                }
            }
        }),
        r matches Ok(p) ==> {
            &&& 1 <= p.src_width
            &&& 1 <= p.src_height
            &&& (p.width as int, p.height as int) == spec_target_dims(
                p.src_width as int,
                p.src_height as int,
                config.max_dimension as int,
            )
            &&& 1 <= p.width <= config.max_dimension
            &&& 1 <= p.height <= config.max_dimension
            &&& exists|s: RasterShape|
                s.width == p.width as int && s.height == p.height as int && s.channels == 3
                    && Some(p.data@) == #[trigger] jpeg_of(s, config.jpeg_quality)
        },
{
    let dims = image_dims(doc, id);
    let w64: i64 = match dims.0 {
        Some(v) => v,
        None => return Err(SkipReason::MalformedPayload),
    };
    let h64: i64 = match dims.1 {
        Some(v) => v,
        None => return Err(SkipReason::MalformedPayload),
    };
    if w64 < 1 || w64 > 0xffff_ffffi64 || h64 < 1 || h64 > 0xffff_ffffi64 {
        return Err(SkipReason::MalformedPayload);
    }
    let w: u32 = w64 as u32;
    let h: u32 = h64 as u32;

    let filter = image_filter(doc, id);
    let plain = image_plain_content(doc, id);

    let img: image::DynamicImage = if is_photographic(&filter) {
        // The payload is a directly decodable compressed image; prefer the
        // unwrapped bytes where the stream filters could be reversed.
        let data: Vec<u8> = match plain {
            Some(d) => if d.len() > 0 {
                d
            } else {
                image_raw_content(doc, id)
            },
            None => image_raw_content(doc, id),
        };
        match decode_raster(data.as_slice()) {
            Some(i) => i,
            None => return Err(SkipReason::MalformedPayload),
        }
    } else {
        // Raw samples: reverse the stream encoding, then interpret them
        // under the resolved channel layout.
        let data: Vec<u8> = match plain {
            Some(d) => d,
            None => return Err(SkipReason::UnsupportedFilter),
        };
        let bits: i64 = match image_bits(doc, id) {
            Some(b) => b,
            None => 8i64,
        };
        let cs = image_colorspace(doc, id);
        let model = resolve_color_model(doc, &cs, data.len(), w, h);
        let channels: u32 = match raw_channel_plan(bits, model, data.len(), w, h) {
            Ok(c) => c,
            Err(s) => return Err(s),
        };
        if channels == 3 {
            match rgb_raster(w, h, data) {
                Some(i) => i,
                None => return Err(SkipReason::MalformedPayload),
            }
        } else {
            match gray_raster(w, h, data) {
                Some(i) => i,
                None => return Err(SkipReason::MalformedPayload),
            }
        }
    };

    let src = raster_dims(&img);
    let src_width: u32 = src.0;
    let src_height: u32 = src.1;
    if src_width < 1 || src_height < 1 {
        return Err(SkipReason::MalformedPayload);
    }

    let target = target_dims(src_width, src_height, config.max_dimension);
    let rgb = to_rgb_raster(&img);
    let resized: image::DynamicImage = if src_width <= config.max_dimension && src_height
        <= config.max_dimension {
        rgb
    } else {
        resize_raster(&rgb, target.0, target.1)
    };
    let data = match encode_jpeg(&resized, config.jpeg_quality) {
        Some(d) => d,
        None => return Err(SkipReason::EncodeFailed),
    };
    proof {
        assert(raster_view(resized).width == target.0 as int);
        assert(raster_view(resized).height == target.1 as int);
        assert(raster_view(resized).channels == 3);
        assert(Some(data@) == jpeg_of(raster_view(resized), config.jpeg_quality));
    }
    Ok(PatchOutcome { data, width: target.0, height: target.1, src_width, src_height })
}

/// How a patched entry relates to the one it replaced: still an image
/// stream, now photographic (DCTDecode) and three-channel RGB, the stale
/// decode-parameter entry removed and the bit depth kept, its dimensions
/// assigned by the resize policy to some positive decoded dimensions — so
/// both within the budget — its payload the JPEG encoding, at the
/// configured quality, of a three-channel raster of exactly those
/// dimensions, and referencing at most what the old entry referenced.
pub open spec fn patched_entry(o: ObjRec, n: ObjRec, c: CompressionConfig) -> bool {
    &&& n.refs.subset_of(o.refs)
    &&& n.image matches Some(ni) && {
        &&& ni.filter == FilterShape::Single(dct_name())
        &&& ni.cspace == CsShape::Name(device_rgb_name())
        &&& !ni.has_decode_parms
        &&& (o.image matches Some(oi) ==> ni.bits == oi.bits)
        &&& ni.width matches Some(wv) && 1 <= wv <= c.max_dimension
        &&& ni.height matches Some(hv) && 1 <= hv <= c.max_dimension
        &&& exists|sw: int, sh: int|
            1 <= sw && 1 <= sh && (ni.width->Some_0, ni.height->Some_0) == spec_target_dims(
                sw,
                sh,
                c.max_dimension as int,
            )
        &&& exists|s: RasterShape|
            s.width == ni.width->Some_0 && s.height == ni.height->Some_0 && s.channels == 3
                && Some(ni.content) == #[trigger] jpeg_of(s, c.jpeg_quality)
    }
}

/// The terminal state a stored image record forces, as far as the record
/// alone decides it: unusable dimensions, an undecodable or degenerate
/// photographic payload, an irreversible stream encoding, and a wrong bit
/// depth each force their bucket. `None` where the outcome also depends on
/// the colour-model resolution (which may read other objects) or on the
/// encoder.
pub open spec fn forced_outcome(rec: ImageRec) -> Option<PipelineResult> {
    if !dims_ok(rec) {
        Some(PipelineResult::SkippedDecodeError)
    } else if spec_is_photographic(rec.filter) {
        match decoded_of(photo_payload(rec)) {
            None => Some(PipelineResult::SkippedDecodeError),
            Some(s) => if s.width < 1 || s.height < 1 {
                Some(PipelineResult::SkippedDecodeError)
            } else {
                None
            },
        }
    } else {
        match rec.plain {
            None => Some(PipelineResult::SkippedUnsupported),
            Some(_) => if bits_of(rec) != 8 {
                Some(PipelineResult::SkippedUnsupported)
            } else {
                None
            },
        }
    }
}

/// Runs the per-image phase over the whole graph: locates every image
/// stream, processes each in isolation, and patches the successful ones in
/// place under their original identifiers. No other object is touched, a
/// failed image's entry is left exactly as it was, and the set of stored
/// identifiers does not change. The report holds one terminal state per
/// located image.
pub fn recompress_images(doc: &mut lopdf::Document, config: &CompressionConfig) -> (report: Vec<
    (ObjKey, PipelineResult),
>)
    requires
        config.valid(),
    ensures
        doc_view(*final(doc)).dom() == doc_view(*old(doc)).dom(),
        forall|k: ObjKey|
            doc_view(*old(doc)).dom().contains(k) && !((#[trigger] doc_view(*old(doc))[k]).image
                is Some) ==> doc_view(*final(doc))[k] == doc_view(*old(doc))[k],
        forall|k: ObjKey|
            #[trigger] is_image(doc_view(*old(doc)), k) ==> (doc_view(*final(doc))[k] == doc_view(
                *old(doc),
            )[k] || patched_entry(doc_view(*old(doc))[k], doc_view(*final(doc))[k], *config)),
        forall|j: int|
            0 <= j < report@.len() ==> is_image(doc_view(*old(doc)), (#[trigger] report@[j]).0),
        forall|j: int|
            0 <= j < report@.len() && (#[trigger] report@[j]).1 == PipelineResult::Patched
                ==> patched_entry(
                doc_view(*old(doc))[report@[j].0],
                doc_view(*final(doc))[report@[j].0],
                *config,
            ),
        forall|j: int|
            0 <= j < report@.len() && (#[trigger] report@[j]).1 != PipelineResult::Patched
                ==> doc_view(*final(doc))[report@[j].0] == doc_view(*old(doc))[report@[j].0],
        forall|j: int|
            0 <= j < report@.len() ==> (forced_outcome(
                image_at(doc_view(*old(doc)), (#[trigger] report@[j]).0),
            ) matches Some(o) ==> report@[j].1 == o),
        forall|k: ObjKey|
            #[trigger] is_image(doc_view(*old(doc)), k) ==> exists|j: int|
                0 <= j < report@.len() && (#[trigger] report@[j]).0 == k,
{
    let keys = doc_keys(doc);
    let ghost old_view = doc_view(*doc);
    let n_keys: usize = keys.len();
    let mut image_ids: Vec<ObjKey> = Vec::new();
    let mut ki: usize = 0;
    while ki < n_keys
        invariant
            n_keys == keys@.len(),
            ki <= n_keys,
            old_view == doc_view(*doc),
            keys@.no_duplicates(),
            forall|j: int| 0 <= j < keys@.len() ==> old_view.dom().contains(#[trigger] keys@[j]),
            forall|k: ObjKey| old_view.dom().contains(k) ==> keys@.contains(k),
            image_ids@.no_duplicates(),
            forall|j: int|
                0 <= j < image_ids@.len() ==> is_image(old_view, #[trigger] image_ids@[j]),
            forall|j: int|
                0 <= j < image_ids@.len() ==> keys@.take(ki as int).contains(
                    #[trigger] image_ids@[j],
                ),
            forall|j: int|
                0 <= j < ki && is_image(old_view, #[trigger] keys@[j]) ==> image_ids@.contains(
                    keys@[j],
                ),
        decreases n_keys - ki,
    {
        let id = keys[ki];
        if is_image_stream(doc, id) {
            proof {
                assert(!keys@.take(ki as int).contains(keys@[ki as int])) by {
                    if keys@.take(ki as int).contains(keys@[ki as int]) {
                        let j = choose|j: int|
                            0 <= j < ki && keys@.take(ki as int)[j] == keys@[ki as int];
                        assert(keys@[j] == keys@[ki as int]);
                    }
                }
                assert(!image_ids@.contains(id)) by {
                    if image_ids@.contains(id) {
                        let j = choose|j: int|
                            0 <= j < image_ids@.len() && image_ids@[j] == id;
                        assert(keys@.take(ki as int).contains(image_ids@[j]));
                    }
                }
            }
            let ghost pre = image_ids@;
            image_ids.push(id);
            proof {
                assert forall|x: ObjKey| #[trigger] pre.contains(x) implies image_ids@.contains(
                    x,
                ) by {
                    let j = choose|j: int| 0 <= j < pre.len() && pre[j] == x;
                    assert(image_ids@[j] == x);
                }
                assert(image_ids@[image_ids@.len() - 1] == id);
                assert(image_ids@.contains(keys@[ki as int]));
            }
        }
        proof {
            assert(forall|j: int|
                0 <= j < image_ids@.len() ==> keys@.take(ki as int + 1).contains(
                    #[trigger] image_ids@[j],
                )) by {
                assert(forall|j: int|
                    0 <= j < ki ==> keys@.take(ki as int + 1)[j] == #[trigger] keys@.take(
                        ki as int,
                    )[j]);
                assert(keys@.take(ki as int + 1)[ki as int] == keys@[ki as int]);
            }
        }
        ki = ki + 1;
    }
    proof {
        assert(keys@.take(n_keys as int) =~= keys@);
    }

    let mut report: Vec<(ObjKey, PipelineResult)> = Vec::new();
    let n_imgs: usize = image_ids.len();
    let mut i: usize = 0;
    while i < n_imgs
        invariant
            n_imgs == image_ids@.len(),
            i <= n_imgs,
            config.valid(),
            image_ids@.no_duplicates(),
            forall|j: int| 0 <= j < n_imgs ==> is_image(old_view, #[trigger] image_ids@[j]),
            doc_view(*doc).dom() == old_view.dom(),
            forall|k: ObjKey|
                old_view.dom().contains(k) && !((#[trigger] old_view[k]).image is Some)
                    ==> doc_view(*doc)[k] == old_view[k],
            forall|k: ObjKey|
                #[trigger] is_image(old_view, k) ==> (doc_view(*doc)[k] == old_view[k]
                    || patched_entry(old_view[k], doc_view(*doc)[k], *config)),
            forall|j: int|
                i <= j < n_imgs ==> doc_view(*doc)[#[trigger] image_ids@[j]]
                    == old_view[image_ids@[j]],
            report@.len() == i as int,
            forall|j: int| 0 <= j < i ==> (#[trigger] report@[j]).0 == image_ids@[j],
            forall|j: int|
                0 <= j < i && (#[trigger] report@[j]).1 == PipelineResult::Patched
                    ==> patched_entry(
                    old_view[report@[j].0],
                    doc_view(*doc)[report@[j].0],
                    *config,
                ),
            forall|j: int|
                0 <= j < i && (#[trigger] report@[j]).1 != PipelineResult::Patched ==> doc_view(
                    *doc,
                )[report@[j].0] == old_view[report@[j].0],
            forall|j: int|
                0 <= j < i ==> (forced_outcome(image_at(old_view, (#[trigger] report@[j]).0))
                    matches Some(o) ==> report@[j].1 == o),
        decreases n_imgs - i,
    {
        let id = image_ids[i];
        proof {
            assert(doc_view(*doc)[id] == old_view[id]);
            assert(is_image(doc_view(*doc), id));
        }
        match process_image(doc, id, config) {
            Ok(p) => {
                let ghost sw = p.src_width as int;
                let ghost sh = p.src_height as int;
                let ghost pw = p.width as int;
                let ghost ph = p.height as int;
                let ghost pdata = p.data@;
                patch_image_stream(doc, id, p.data, p.width, p.height);
                proof {
                    let ni = doc_view(*doc)[id].image->Some_0;
                    assert((ni.width->Some_0, ni.height->Some_0) == spec_target_dims(
                        sw,
                        sh,
                        config.max_dimension as int,
                    ));
                    let s0 = choose|s: RasterShape|
                        s.width == pw && s.height == ph && s.channels == 3 && Some(pdata)
                            == #[trigger] jpeg_of(s, config.jpeg_quality);
                    assert(Some(ni.content) == jpeg_of(s0, config.jpeg_quality));
                    assert(patched_entry(old_view[id], doc_view(*doc)[id], *config));
                    assert(forced_outcome(image_at(old_view, id)) is None);
                }
                report.push((id, PipelineResult::Patched));
            },
            Err(s) => {
                let b = s.to_pipeline_result();
                proof {
                    assert(forced_outcome(image_at(old_view, id)) matches Some(o) ==> b == o);
                }
                report.push((id, b));
            },
        }
        i = i + 1;
    }
    proof {
        assert forall|k: ObjKey| #[trigger] is_image(old_view, k) implies exists|j: int|
            0 <= j < report@.len() && (#[trigger] report@[j]).0 == k by {
            assert(old_view.dom().contains(k));
            assert(keys@.contains(k));
            let j0 = choose|j0: int| 0 <= j0 < keys@.len() && keys@[j0] == k;
            assert(is_image(old_view, keys@[j0]));
            assert(image_ids@.contains(k));
            let j1 = choose|j1: int| 0 <= j1 < image_ids@.len() && image_ids@[j1] == k;
            assert((report@[j1]).0 == k);
            assert(0 <= j1 < report@.len());
        }
    }
    report
}

/// How one whole run may rewrite the graph it was given: no new identifier,
/// closure preserved, and every kept entry either untouched, patched as
/// `patched_entry` says, or deflated in place as `compressed_entry` says —
/// the modifies-clause of the engine.
pub open spec fn processed_graph(
    o: Map<ObjKey, ObjRec>,
    n: Map<ObjKey, ObjRec>,
    c: CompressionConfig,
) -> bool {
    &&& n.dom().subset_of(o.dom())
    &&& graph_closed(o) ==> graph_closed(n)
    &&& forall|k: ObjKey|
        #[trigger] n.dom().contains(k) ==> (n[k] == o[k] || patched_entry(o[k], n[k], c)
            || compressed_entry(o[k], n[k]))
}

/// All graph mutation of one run: the per-image phase, then reachability
/// pruning, then the generic stream compression. The result stands in
/// `processed_graph` to the input — in particular, a graph whose references
/// all resolved going in has every reference resolving coming out — and the
/// report ties every located image to its terminal state.
pub fn compress_document(doc: &mut lopdf::Document, config: &CompressionConfig) -> (report: Vec<
    (ObjKey, PipelineResult),
>)
    requires
        config.valid(),
    ensures
        processed_graph(doc_view(*old(doc)), doc_view(*final(doc)), *config),
        forall|j: int|
            0 <= j < report@.len() ==> is_image(doc_view(*old(doc)), (#[trigger] report@[j]).0),
        forall|j: int|
            0 <= j < report@.len() ==> (forced_outcome(
                image_at(doc_view(*old(doc)), (#[trigger] report@[j]).0),
            ) matches Some(o) ==> report@[j].1 == o),
        forall|j: int|
            0 <= j < report@.len() && (#[trigger] report@[j]).1 == PipelineResult::Patched
                && doc_view(*final(doc)).dom().contains(report@[j].0) ==> patched_entry(
                doc_view(*old(doc))[report@[j].0],
                doc_view(*final(doc))[report@[j].0],
                *config,
            ),
        forall|j: int|
            0 <= j < report@.len() && (#[trigger] report@[j]).1 != PipelineResult::Patched
                && doc_view(*final(doc)).dom().contains(report@[j].0) ==> (doc_view(
                *final(doc),
            )[report@[j].0] == doc_view(*old(doc))[report@[j].0] || compressed_entry(
                doc_view(*old(doc))[report@[j].0],
                doc_view(*final(doc))[report@[j].0],
            )),
        forall|k: ObjKey|
            #[trigger] is_image(doc_view(*old(doc)), k) ==> exists|j: int|
                0 <= j < report@.len() && (#[trigger] report@[j]).0 == k,
{
    let ghost v0 = doc_view(*doc);
    let report = recompress_images(doc, config);
    let ghost v1 = doc_view(*doc);
    proof {
        if graph_closed(v0) {
            assert forall|k: ObjKey| v0.dom().contains(k) implies (v1[k] == v0[k] || (
            #[trigger] v1[k]).refs.subset_of(v0[k].refs)) by {
                if v0[k].image is Some {
                    assert(is_image(v0, k));
                }
            }
            lemma_patching_preserves_closure(v0, v1);
        }
    }
    prune_unreachable(doc);
    let ghost v2 = doc_view(*doc);
    proof {
        if graph_closed(v1) {
            lemma_prune_preserves_closure(v1, v2);
        }
    }
    compress_streams(doc);
    let ghost v3 = doc_view(*doc);
    proof {
        if graph_closed(v2) {
            assert forall|k: ObjKey| v2.dom().contains(k) implies (v3[k] == v2[k] || (
            #[trigger] v3[k]).refs.subset_of(v2[k].refs)) by {}
            lemma_patching_preserves_closure(v2, v3);
        }
        // compose the three phases entry by entry: pruning keeps entries
        // verbatim, and a patched entry (Filter present) is never deflated
        assert forall|k: ObjKey| #[trigger] v3.dom().contains(k) implies (v3[k] == v0[k]
            || patched_entry(v0[k], v3[k], *config) || compressed_entry(v0[k], v3[k])) by {
            assert(v2.dom().contains(k));
            assert(v1.dom().contains(k));
            assert(v2[k] == v1[k]);
            if v0[k].image is Some {
                assert(is_image(v0, k));
            }
            if !(v1[k] == v0[k]) {
                assert(patched_entry(v0[k], v1[k], *config));
                if !(v3[k] == v2[k]) {
                    assert(compressed_entry(v2[k], v3[k]));
                    assert(false);
                }
            }
        }
        assert forall|j: int|
            0 <= j < report@.len() && (#[trigger] report@[j]).1 == PipelineResult::Patched
                && v3.dom().contains(report@[j].0) implies patched_entry(
            v0[report@[j].0],
            v3[report@[j].0],
            *config,
        ) by {
            let k = report@[j].0;
            assert(v2.dom().contains(k));
            assert(v2[k] == v1[k]);
            assert(patched_entry(v0[k], v1[k], *config));
            if !(v3[k] == v2[k]) {
                assert(compressed_entry(v2[k], v3[k]));
                assert(false);
            }
        }
        assert forall|j: int|
            0 <= j < report@.len() && (#[trigger] report@[j]).1 != PipelineResult::Patched
                && v3.dom().contains(report@[j].0) implies (v3[report@[j].0] == v0[report@[j].0]
            || compressed_entry(v0[report@[j].0], v3[report@[j].0])) by {
            let k = report@[j].0;
            assert(v2.dom().contains(k));
            assert(v2[k] == v1[k]);
            assert(v1[k] == v0[k]);
        }
    }
    report
}

/// One full run: parse, recompress the images, prune unreachable objects,
/// recompress the remaining streams, serialize. The invalid-document error
/// comes exactly when the input does not parse; otherwise the run can fail
/// only at serialization, and a success is the serialization of a graph
/// standing in `processed_graph` to the parse of the input. Every per-image
/// fault is isolated by `recompress_images`.
pub fn compress_pdf_with_config(input: &[u8], config: &CompressionConfig) -> (r: Result<
    Vec<u8>,
    EngineError,
>)
    requires
        config.valid(),
    ensures
        r == Err::<Vec<u8>, EngineError>(EngineError::InvalidDocument) <==> parsed_doc(input@)
            is None,
        r matches Ok(out) ==> exists|d: lopdf::Document|
            {
                &&& Some(out@) == #[trigger] serialized_doc(d)
                &&& parsed_doc(input@) matches Some(pv) && processed_graph(pv, doc_view(d), *config)
            },
        r matches Err(e) ==> (e == EngineError::InvalidDocument || e == EngineError::SaveFailed),
{
    let mut doc = match load_document(input) {
        Ok(d) => d,
        Err(e) => return Err(e),
    };
    let _report = compress_document(&mut doc, config);
    let ghost dpre = doc;
    match save_document(&mut doc) {
        Ok(v) => {
            proof {
                assert(Some(v@) == serialized_doc(dpre));
                assert(processed_graph(parsed_doc(input@)->Some_0, doc_view(dpre), *config));
            }
            Ok(v)
        },
        Err(e) => Err(e),
    }
}

/// One full run under the default configuration (quality 30, dimension
/// budget 600, metadata removal on), with `compress_pdf_with_config`'s
/// contract at that configuration.
pub fn compress_pdf(input: &[u8]) -> (r: Result<Vec<u8>, EngineError>)
    ensures
        r == Err::<Vec<u8>, EngineError>(EngineError::InvalidDocument) <==> parsed_doc(input@)
            is None,
        r matches Ok(out) ==> exists|d: lopdf::Document|
            {
                &&& Some(out@) == #[trigger] serialized_doc(d)
                &&& parsed_doc(input@) matches Some(pv) && processed_graph(
                    pv,
                    doc_view(d),
                    (CompressionConfig {
                        jpeg_quality: 30,
                        max_dimension: 600,
                        remove_metadata: true,
                    }),
                )
            },
        r matches Err(e) ==> (e == EngineError::InvalidDocument || e == EngineError::SaveFailed),
{
    let config = CompressionConfig::default();
    compress_pdf_with_config(input, &config)
}

/// Referential integrity under patching: the per-image phase keeps the set
/// of stored identifiers and lets every entry reference at most what it
/// referenced before, so a graph whose references all resolved still has
/// every reference resolving afterwards — patching introduces no dangling
/// reference. The hypotheses are exactly what `recompress_images` ensures of
/// the graph view.
pub proof fn lemma_patching_preserves_closure(o: Map<ObjKey, ObjRec>, n: Map<ObjKey, ObjRec>)
    requires
        graph_closed(o),
        n.dom() == o.dom(),
        forall|k: ObjKey|
            o.dom().contains(k) ==> (n[k] == o[k] || (#[trigger] n[k]).refs.subset_of(o[k].refs)),
    ensures
        graph_closed(n),
{
    assert forall|k: ObjKey| n.dom().contains(k) implies (#[trigger] n[k]).refs.subset_of(
        n.dom(),
    ) by {
        assert(o[k].refs.subset_of(o.dom()));
    }
}

/// Referential integrity under pruning: dropping only unreachable objects,
/// while keeping each remaining entry untouched and every stored reference
/// of a kept object among the kept, preserves closure. The hypotheses are
/// exactly what `prune_unreachable` ensures of the graph view.
pub proof fn lemma_prune_preserves_closure(o: Map<ObjKey, ObjRec>, n: Map<ObjKey, ObjRec>)
    requires
        graph_closed(o),
        n.dom().subset_of(o.dom()),
        forall|k: ObjKey| n.dom().contains(k) ==> #[trigger] n[k] == o[k],
        forall|k: ObjKey|
            n.dom().contains(k) ==> (#[trigger] o[k]).refs.intersect(o.dom()).subset_of(n.dom()),
    ensures
        graph_closed(n),
{
    assert forall|k: ObjKey| n.dom().contains(k) implies (#[trigger] n[k]).refs.subset_of(
        n.dom(),
    ) by {
        assert(o[k].refs.subset_of(o.dom()));
        assert(o[k].refs.intersect(o.dom()) =~= o[k].refs);
    }
}

/// No-image passthrough: on a graph without a single image stream the
/// per-image phase is the identity — the output stores the same identifiers
/// with the same records. The hypotheses are exactly what
/// `recompress_images` ensures of the graph view.
pub proof fn lemma_no_image_passthrough(o: Map<ObjKey, ObjRec>, n: Map<ObjKey, ObjRec>)
    requires
        n.dom() == o.dom(),
        forall|k: ObjKey|
            o.dom().contains(k) && !((#[trigger] o[k]).image is Some) ==> n[k] == o[k],
        forall|k: ObjKey| o.dom().contains(k) ==> !((#[trigger] o[k]).image is Some),
    ensures
        n =~= o,
{
}

} // verus!

//! The trusted boundary to the object graph provider (the `lopdf` crate).
//!
//! The graph is carried as an opaque `lopdf::Document`; `doc_view` names what
//! it stores as a map from identifier to the engine's per-object record, and
//! every wrapper below states over that map what the provider's source shows
//! of the one call it makes.

use vstd::prelude::*;
use crate::model::{
    ObjKey, ObjRec, FilterDesc, FilterElem, FilterShape, ColorSpaceDesc, CsShape,
    EngineError, dct_name, device_rgb_name, is_image, image_at, cs_shape_at, compressed_entry,
};

verus! {

#[verifier::external_type_specification]
#[verifier::external_body]
pub struct ExDocument(lopdf::Document);

/// What a document stores: one record per object identifier.
pub uninterp spec fn doc_view(d: lopdf::Document) -> Map<ObjKey, ObjRec>;

/// What the provider's parser makes of a byte buffer: the graph it stores,
/// or nothing where the bytes are not a well-formed document. Parsing is a
/// function of the bytes alone.
pub uninterp spec fn parsed_doc(bytes: Seq<u8>) -> Option<Map<ObjKey, ObjRec>>;

/// The bytes the provider serializes a document value to, or nothing where
/// serialization fails. Deterministic in the document value.
pub uninterp spec fn serialized_doc(d: lopdf::Document) -> Option<Seq<u8>>;

/// Relies on `lopdf::Document::load_mem`: parses document bytes into an
/// object graph, failing exactly when they do not form a well-formed
/// document.
#[verifier::external_body]
pub(crate) fn load_document(bytes: &[u8]) -> (r: Result<lopdf::Document, EngineError>)
    ensures
        r is Ok <==> parsed_doc(bytes@) is Some,
        r matches Ok(d) ==> Some(doc_view(d)) == parsed_doc(bytes@),
        r matches Err(e) ==> e == EngineError::InvalidDocument,
{
    match lopdf::Document::load_mem(bytes) {
        Ok(d) => Ok(d),
        Err(_) => Err(EngineError::InvalidDocument),
    }
}

/// Relies on `lopdf::Document::objects` being a map keyed by object
/// identifier: returns each stored identifier exactly once.
#[verifier::external_body]
pub(crate) fn doc_keys(doc: &lopdf::Document) -> (r: Vec<ObjKey>)
    ensures
        r@.no_duplicates(),
        forall|i: int| 0 <= i < r@.len() ==> doc_view(*doc).dom().contains(#[trigger] r@[i]),
        forall|k: ObjKey| doc_view(*doc).dom().contains(k) ==> r@.contains(k),
{
    doc.objects.keys().cloned().collect()
}

/// Relies on `lopdf::Object::as_stream` and `lopdf::Dictionary::get`: tests
/// whether the object stored at `id` is a stream whose dictionary carries
/// Subtype = Image.
#[verifier::external_body]
pub(crate) fn is_image_stream(doc: &lopdf::Document, id: ObjKey) -> (r: bool)
    ensures
        r == is_image(doc_view(*doc), id),
{
    match doc.objects.get(&id) {
        Some(lopdf::Object::Stream(s)) => match s.dict.get(b"Subtype") {
            Ok(lopdf::Object::Name(n)) => n.as_slice() == b"Image".as_slice(),
            _ => false,
        },
        _ => false,
    }
}

/// Relies on `lopdf::Dictionary::get` and `lopdf::Object::as_i64`: reads the
/// Width and Height entries of the image stream at `id`, as integers where
/// they are integers.
#[verifier::external_body]
pub(crate) fn image_dims(doc: &lopdf::Document, id: ObjKey) -> (r: (Option<i64>, Option<i64>))
    requires
        is_image(doc_view(*doc), id),
    ensures
        r.0 matches Some(v) ==> image_at(doc_view(*doc), id).width == Some(v as int),
        r.0 is None ==> image_at(doc_view(*doc), id).width is None,
        r.1 matches Some(v) ==> image_at(doc_view(*doc), id).height == Some(v as int),
        r.1 is None ==> image_at(doc_view(*doc), id).height is None,
{
    let s = doc.objects.get(&id).unwrap().as_stream().unwrap();
    let w = match s.dict.get(b"Width") {
        Ok(o) => o.as_i64().ok(),
        Err(_) => None,
    };
    let h = match s.dict.get(b"Height") {
        Ok(o) => o.as_i64().ok(),
        Err(_) => None,
    };
    (w, h)
}

/// Relies on `lopdf::Dictionary::get` and `lopdf::Object::as_i64`: reads the
/// BitsPerComponent entry of the image stream at `id`.
#[verifier::external_body]
pub(crate) fn image_bits(doc: &lopdf::Document, id: ObjKey) -> (r: Option<i64>)
    requires
        is_image(doc_view(*doc), id),
    ensures
        r matches Some(v) ==> image_at(doc_view(*doc), id).bits == Some(v as int),
        r is None ==> image_at(doc_view(*doc), id).bits is None,
{
    let s = doc.objects.get(&id).unwrap().as_stream().unwrap();
    match s.dict.get(b"BitsPerComponent") {
        Ok(o) => o.as_i64().ok(),
        Err(_) => None,
    }
}

/// Relies on `lopdf::Dictionary::get`: reads the Filter entry of the image
/// stream at `id` and reports its shape, element for element.
#[verifier::external_body]
pub(crate) fn image_filter(doc: &lopdf::Document, id: ObjKey) -> (r: FilterDesc)
    requires
        is_image(doc_view(*doc), id),
    ensures
        r@ == image_at(doc_view(*doc), id).filter,
{
    let s = doc.objects.get(&id).unwrap().as_stream().unwrap();
    match s.dict.get(b"Filter") {
        Ok(lopdf::Object::Name(n)) => FilterDesc::Single(n.clone()),
        Ok(lopdf::Object::Array(a)) => FilterDesc::Chain(
            a.iter().map(|o| match o {
                lopdf::Object::Name(n) => FilterElem::Name(n.clone()),
                _ => FilterElem::Other,
            }).collect(),
        ),
        Ok(_) => FilterDesc::Other,
        Err(_) => FilterDesc::Absent,
    }
}

/// Relies on `lopdf::Dictionary::get`: reads the ColorSpace entry of the
/// image stream at `id` and reports its shape.
#[verifier::external_body]
pub(crate) fn image_colorspace(doc: &lopdf::Document, id: ObjKey) -> (r: ColorSpaceDesc)
    requires
        is_image(doc_view(*doc), id),
    ensures
        r@ == image_at(doc_view(*doc), id).cspace,
{
    let s = doc.objects.get(&id).unwrap().as_stream().unwrap();
    match s.dict.get(b"ColorSpace") {
        Ok(lopdf::Object::Name(n)) => ColorSpaceDesc::Name(n.clone()),
        Ok(lopdf::Object::Array(a)) => match a.first() {
            Some(lopdf::Object::Name(n)) => ColorSpaceDesc::ArrayHeadName(n.clone()),
            Some(lopdf::Object::Reference(k)) => ColorSpaceDesc::ArrayHeadRef(*k),
            _ => ColorSpaceDesc::Other,
        },
        Ok(lopdf::Object::Reference(k)) => ColorSpaceDesc::Indirect(*k),
        Ok(_) => ColorSpaceDesc::Other,
        Err(_) => ColorSpaceDesc::Absent,
    }
}

/// Relies on `lopdf::Stream::content`: hands out the raw payload of the image
/// stream at `id`.
#[verifier::external_body]
pub(crate) fn image_raw_content(doc: &lopdf::Document, id: ObjKey) -> (r: Vec<u8>)
    requires
        is_image(doc_view(*doc), id),
    ensures
        r@ == image_at(doc_view(*doc), id).content,
{
    doc.objects.get(&id).unwrap().as_stream().unwrap().content.clone()
}

/// Relies on `lopdf::Stream::decompressed_content`: reverses the stream's
/// filter chain where the provider supports every filter in it.
#[verifier::external_body]
pub(crate) fn image_plain_content(doc: &lopdf::Document, id: ObjKey) -> (r: Option<Vec<u8>>)
    requires
        is_image(doc_view(*doc), id),
    ensures
        r matches Some(v) ==> image_at(doc_view(*doc), id).plain == Some(v@),
        r is None ==> image_at(doc_view(*doc), id).plain is None,
{
    let s = doc.objects.get(&id).unwrap().as_stream().unwrap();
    s.decompressed_content().ok()
}

/// Relies on `lopdf::Document::objects` lookup: reports how the object stored
/// at `id` reads as a colour-space descriptor, so the resolver can chase
/// indirect descriptors itself.
#[verifier::external_body]
pub(crate) fn object_cs_shape(doc: &lopdf::Document, id: ObjKey) -> (r: ColorSpaceDesc)
    ensures
        r@ == cs_shape_at(doc_view(*doc), id),
{
    match doc.objects.get(&id) {
        Some(lopdf::Object::Name(n)) => ColorSpaceDesc::Name(n.clone()),
        Some(lopdf::Object::Array(a)) => match a.first() {
            Some(lopdf::Object::Name(n)) => ColorSpaceDesc::ArrayHeadName(n.clone()),
            Some(lopdf::Object::Reference(k)) => ColorSpaceDesc::ArrayHeadRef(*k),
            _ => ColorSpaceDesc::Other,
        },
        Some(lopdf::Object::Reference(k)) => ColorSpaceDesc::Indirect(*k),
        _ => ColorSpaceDesc::Other,
    }
}

/// Relies on `lopdf::Dictionary::set`/`remove`, `lopdf::Stream::new` and the
/// object map's `insert`: replaces the stream at `id` with one whose
/// dictionary is the old one with Filter = DCTDecode, the given Width and
/// Height, ColorSpace = DeviceRGB, a Length matching the payload and no
/// DecodeParms; no other object is touched, and the derived dictionary
/// references at most what the old one referenced.
#[verifier::external_body]
pub(crate) fn patch_image_stream(doc: &mut lopdf::Document, id: ObjKey, payload: Vec<u8>, w: u32, h: u32)
    requires
        is_image(doc_view(*old(doc)), id),
    ensures
        doc_view(*final(doc)).dom() == doc_view(*old(doc)).dom(),
        forall|k: ObjKey|
            doc_view(*final(doc)).dom().contains(k) && k != id ==> doc_view(*final(doc))[k]
                == doc_view(*old(doc))[k],
        is_image(doc_view(*final(doc)), id),
        image_at(doc_view(*final(doc)), id).width == Some(w as int),
        image_at(doc_view(*final(doc)), id).height == Some(h as int),
        image_at(doc_view(*final(doc)), id).filter == FilterShape::Single(dct_name()),
        image_at(doc_view(*final(doc)), id).cspace == CsShape::Name(device_rgb_name()),
        image_at(doc_view(*final(doc)), id).content == payload@,
        image_at(doc_view(*final(doc)), id).bits == image_at(doc_view(*old(doc)), id).bits,
        !image_at(doc_view(*final(doc)), id).has_decode_parms,
        doc_view(*final(doc))[id].refs.subset_of(doc_view(*old(doc))[id].refs),
{
    let mut new_dict = doc.objects.get(&id).unwrap().as_stream().unwrap().dict.clone();
    new_dict.set("Filter", lopdf::Object::Name(b"DCTDecode".to_vec()));
    new_dict.set("Width", lopdf::Object::Integer(w as i64));
    new_dict.set("Height", lopdf::Object::Integer(h as i64));
    new_dict.set("ColorSpace", lopdf::Object::Name(b"DeviceRGB".to_vec()));
    new_dict.remove(b"DecodeParms");
    let stream = lopdf::Stream::new(new_dict, payload);
    doc.objects.insert(id, lopdf::Object::Stream(stream));
}

/// Relies on `lopdf::Document::prune_objects`: keeps exactly the objects
/// referenced transitively from the trailer, untouched; a kept object's
/// references to objects that existed lead to kept objects, because the
/// traversal pushes every reference it meets.
#[verifier::external_body]
pub(crate) fn prune_unreachable(doc: &mut lopdf::Document)
    ensures
        doc_view(*final(doc)).dom().subset_of(doc_view(*old(doc)).dom()),
        forall|k: ObjKey|
            doc_view(*final(doc)).dom().contains(k) ==> doc_view(*final(doc))[k] == doc_view(
                *old(doc),
            )[k],
        forall|k: ObjKey|
            doc_view(*final(doc)).dom().contains(k) ==> (#[trigger] doc_view(*old(doc))[k]).refs
                .intersect(doc_view(*old(doc)).dom()).subset_of(doc_view(*final(doc)).dom()),
{
    let _ = doc.prune_objects();
}

/// Relies on `lopdf::Document::compress`: deflates, in place, each stream
/// that has no Filter entry and allows compression, leaving every other
/// object as it was.
#[verifier::external_body]
pub(crate) fn compress_streams(doc: &mut lopdf::Document)
    ensures
        doc_view(*final(doc)).dom() == doc_view(*old(doc)).dom(),
        forall|k: ObjKey|
            doc_view(*final(doc)).dom().contains(k) ==> (doc_view(*final(doc))[k] == doc_view(
                *old(doc),
            )[k] || compressed_entry(doc_view(*old(doc))[k], doc_view(*final(doc))[k])),
{
    doc.compress();
}

/// Relies on `lopdf::Document::save_to`: serializes the graph into an output
/// byte buffer.
#[verifier::external_body]
pub(crate) fn save_document(doc: &mut lopdf::Document) -> (r: Result<Vec<u8>, EngineError>)
    ensures
        r is Ok <==> serialized_doc(*old(doc)) is Some,
        r matches Ok(v) ==> Some(v@) == serialized_doc(*old(doc)),
        r matches Err(e) ==> e == EngineError::SaveFailed,
{
    let mut out: Vec<u8> = Vec::new();
    match doc.save_to(&mut out) {
        Ok(()) => Ok(out),
        Err(_) => Err(EngineError::SaveFailed),
    }
}

} // verus!

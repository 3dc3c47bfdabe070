//! End-to-end runs of the engine over documents built with the real graph
//! provider: fault isolation, passthrough, referential integrity,
//! idempotence, and the two concrete recompression scenarios.

use lopdf::{Dictionary, Document, Object, Stream};
use rustpdf::config::CompressionConfig;
use rustpdf::engine::{compress_pdf_with_config, process_image, recompress_images};
use rustpdf::model::{PipelineResult, SkipReason};
use rustpdf::service::HelperService;

fn test_config() -> CompressionConfig {
    CompressionConfig { jpeg_quality: 30, max_dimension: 600, remove_metadata: true }
}

/// A document whose single page references each given stream as an XObject,
/// so that pruning keeps them all.
fn wrap_document(images: Vec<Stream>) -> (Document, Vec<(u32, u16)>) {
    let mut doc = Document::with_version("1.4");
    let mut ids = Vec::new();
    let mut xobjects = Dictionary::new();
    for (i, s) in images.into_iter().enumerate() {
        let id = doc.add_object(Object::Stream(s));
        ids.push(id);
        xobjects.set(format!("Im{}", i), Object::Reference(id));
    }
    let mut resources = Dictionary::new();
    resources.set("XObject", Object::Dictionary(xobjects));
    let pages_id = doc.add_object(Object::Null);
    let mut page = Dictionary::new();
    page.set("Type", Object::Name(b"Page".to_vec()));
    page.set("Parent", Object::Reference(pages_id));
    page.set("Resources", Object::Dictionary(resources));
    let page_id = doc.add_object(Object::Dictionary(page));
    let mut pages = Dictionary::new();
    pages.set("Type", Object::Name(b"Pages".to_vec()));
    pages.set("Kids", Object::Array(vec![Object::Reference(page_id)]));
    pages.set("Count", Object::Integer(1));
    doc.objects.insert(pages_id, Object::Dictionary(pages));
    let mut catalog = Dictionary::new();
    catalog.set("Type", Object::Name(b"Catalog".to_vec()));
    catalog.set("Pages", Object::Reference(pages_id));
    let catalog_id = doc.add_object(Object::Dictionary(catalog));
    doc.trailer.set("Root", Object::Reference(catalog_id));
    (doc, ids)
}

fn image_stream(
    width: i64,
    height: i64,
    bits: i64,
    cs: Option<Object>,
    filter: Option<Object>,
    content: Vec<u8>,
) -> Stream {
    let mut d = Dictionary::new();
    d.set("Type", Object::Name(b"XObject".to_vec()));
    d.set("Subtype", Object::Name(b"Image".to_vec()));
    d.set("Width", Object::Integer(width));
    d.set("Height", Object::Integer(height));
    d.set("BitsPerComponent", Object::Integer(bits));
    if let Some(c) = cs {
        d.set("ColorSpace", c);
    }
    if let Some(f) = filter {
        d.set("Filter", f);
    }
    Stream::new(d, content)
}

fn device_rgb() -> Object {
    Object::Name(b"DeviceRGB".to_vec())
}

/// A deterministic photographic-looking RGB buffer of `w * h * 3` bytes.
fn gradient_rgb(w: u32, h: u32) -> Vec<u8> {
    let mut v = Vec::with_capacity((w * h * 3) as usize);
    for y in 0..h {
        for x in 0..w {
            v.push((x % 256) as u8);
            v.push((y % 256) as u8);
            v.push(((x + y) % 256) as u8);
        }
    }
    v
}

/// JPEG bytes of a `w` by `h` gradient image.
fn jpeg_bytes(w: u32, h: u32) -> Vec<u8> {
    let img = image::RgbImage::from_raw(w, h, gradient_rgb(w, h)).unwrap();
    let mut out = Vec::new();
    let mut enc = image::codecs::jpeg::JpegEncoder::new_with_quality(&mut out, 80);
    enc.encode(img.as_raw(), w, h, image::ExtendedColorType::Rgb8).unwrap();
    out
}

fn load(bytes: &[u8]) -> Document {
    Document::load_mem(bytes).expect("output must parse")
}

fn image_entries(doc: &Document) -> Vec<((u32, u16), &Stream)> {
    let mut v = Vec::new();
    for (id, obj) in doc.objects.iter() {
        if let Ok(s) = obj.as_stream() {
            if let Ok(Object::Name(n)) = s.dict.get(b"Subtype") {
                if n.as_slice() == &b"Image"[..] {
                    v.push((*id, s));
                }
            }
        }
    }
    v
}

fn filter_name(s: &Stream) -> Option<Vec<u8>> {
    match s.dict.get(b"Filter") {
        Ok(Object::Name(n)) => Some(n.clone()),
        _ => None,
    }
}

fn dims_of(s: &Stream) -> (i64, i64) {
    let w = s.dict.get(b"Width").and_then(|v| v.as_i64()).unwrap();
    let h = s.dict.get(b"Height").and_then(|v| v.as_i64()).unwrap();
    (w, h)
}

fn collect_refs(obj: &Object, out: &mut Vec<(u32, u16)>) {
    match obj {
        Object::Array(a) => {
            for o in a {
                collect_refs(o, out);
            }
        }
        Object::Dictionary(d) => {
            for (_, o) in d.iter() {
                collect_refs(o, out);
            }
        }
        Object::Stream(s) => {
            for (_, o) in s.dict.iter() {
                collect_refs(o, out);
            }
        }
        Object::Reference(id) => out.push(*id),
        _ => {}
    }
}

/// Every object reachable through references from the trailer, sorted.
fn reachable(doc: &Document) -> Vec<(u32, u16)> {
    let mut seen: Vec<(u32, u16)> = Vec::new();
    let mut stack: Vec<(u32, u16)> = Vec::new();
    for (_, o) in doc.trailer.iter() {
        collect_refs(o, &mut stack);
    }
    while let Some(id) = stack.pop() {
        if seen.contains(&id) {
            continue;
        }
        if let Some(obj) = doc.objects.get(&id) {
            seen.push(id);
            collect_refs(obj, &mut stack);
        }
    }
    seen.sort();
    seen
}

#[test]
fn fault_isolation_keeps_bad_image_byte_identical() {
    // one well-formed raw RGB image (deflated), one 4-bytes-per-pixel image
    let mut good = image_stream(64, 64, 8, Some(device_rgb()), None, vec![0u8; 64 * 64 * 3]);
    good.compress().unwrap();
    assert!(filter_name(&good).is_some(), "setup: good image should carry FlateDecode");
    let bad_payload: Vec<u8> = (0..10u32 * 10 * 4).map(|i| (i * 31 % 251) as u8).collect();
    let mut bad = image_stream(10, 10, 8, None, None, bad_payload);
    bad.compress().unwrap();
    let bad_dict_before = bad.dict.clone();
    let bad_content_before = bad.content.clone();

    let (mut doc, ids) = wrap_document(vec![good, bad]);
    let mut in_bytes = Vec::new();
    doc.save_to(&mut in_bytes).unwrap();

    let out = compress_pdf_with_config(&in_bytes, &test_config()).expect("whole run succeeds");
    let out_doc = load(&out);

    let good_out = out_doc.objects[&ids[0]].as_stream().unwrap();
    assert_eq!(filter_name(good_out), Some(b"DCTDecode".to_vec()), "good image recompressed");
    assert_eq!(dims_of(good_out), (64, 64));

    let bad_out = out_doc.objects[&ids[1]].as_stream().unwrap();
    assert_eq!(bad_out.content, bad_content_before, "bad image payload untouched");
    for (k, v) in bad_dict_before.iter() {
        assert_eq!(bad_out.dict.get(k).ok(), Some(v), "bad image dictionary untouched");
    }
}

#[test]
fn fault_isolation_report_states_both_outcomes() {
    let mut good = image_stream(64, 64, 8, Some(device_rgb()), None, vec![7u8; 64 * 64 * 3]);
    good.compress().unwrap();
    let bad = image_stream(10, 10, 8, None, None, vec![1u8; 10 * 10 * 4]);
    let (mut doc, ids) = wrap_document(vec![good, bad]);
    let report = recompress_images(&mut doc, &test_config());
    assert_eq!(report.len(), 2);
    for (id, outcome) in report {
        if id == ids[0] {
            assert_eq!(outcome, PipelineResult::Patched);
        } else {
            assert_eq!(id, ids[1]);
            assert_eq!(outcome, PipelineResult::SkippedUnsupported);
        }
    }
}

#[test]
fn no_image_passthrough_keeps_structure() {
    let (mut doc, _) = wrap_document(vec![]);
    let mut in_bytes = Vec::new();
    doc.save_to(&mut in_bytes).unwrap();
    let in_doc = load(&in_bytes);

    let out = compress_pdf_with_config(&in_bytes, &test_config()).expect("run succeeds");
    let out_doc = load(&out);
    assert_eq!(reachable(&out_doc), reachable(&in_doc), "same reachable object set");
    assert_eq!(out_doc.get_pages().len(), 1);
    assert!(image_entries(&out_doc).is_empty());
}

#[test]
fn referential_integrity_no_dangling_references() {
    let mut good = image_stream(64, 64, 8, Some(device_rgb()), None, vec![9u8; 64 * 64 * 3]);
    good.compress().unwrap();
    let bad = image_stream(10, 10, 8, None, None, vec![2u8; 10 * 10 * 4]);
    let (mut doc, _) = wrap_document(vec![good, bad]);
    let mut in_bytes = Vec::new();
    doc.save_to(&mut in_bytes).unwrap();

    let out = compress_pdf_with_config(&in_bytes, &test_config()).expect("run succeeds");
    let out_doc = load(&out);

    let mut refs = Vec::new();
    for (_, o) in out_doc.trailer.iter() {
        collect_refs(o, &mut refs);
    }
    for (_, obj) in out_doc.objects.iter() {
        collect_refs(obj, &mut refs);
    }
    for id in refs {
        assert!(out_doc.objects.contains_key(&id), "reference {:?} must resolve", id);
    }
}

#[test]
fn photographic_scenario_resizes_and_rewrites_metadata() {
    // 1600 x 1200, already photographic, budget 600, quality 30
    let jpg = jpeg_bytes(1600, 1200);
    let img = image_stream(
        1600,
        1200,
        8,
        Some(device_rgb()),
        Some(Object::Name(b"DCTDecode".to_vec())),
        jpg,
    );
    let (mut doc, ids) = wrap_document(vec![img]);
    let mut in_bytes = Vec::new();
    doc.save_to(&mut in_bytes).unwrap();

    let out = compress_pdf_with_config(&in_bytes, &test_config()).expect("run succeeds");
    let out_doc = load(&out);
    let s = out_doc.objects[&ids[0]].as_stream().unwrap();
    assert_eq!(dims_of(s), (600, 450));
    assert_eq!(filter_name(s), Some(b"DCTDecode".to_vec()));
    let length = s.dict.get(b"Length").and_then(|v| v.as_i64()).unwrap();
    assert_eq!(length as usize, s.content.len(), "Length reflects the new payload");
    let decoded = image::load_from_memory(&s.content).expect("payload is a decodable image");
    assert_eq!((decoded.width(), decoded.height()), (600, 450));
}

#[test]
fn raw_scenario_changes_filter_and_shrinks_payload() {
    // 300 x 200 raw three-channel samples, budget 600: no resize, but the
    // payload moves to the photographic encoding and shrinks
    let raw = gradient_rgb(300, 200);
    let raw_len = raw.len() as i64;
    let img = image_stream(300, 200, 8, Some(device_rgb()), None, raw);
    let (mut doc, ids) = wrap_document(vec![img]);
    let mut in_bytes = Vec::new();
    doc.save_to(&mut in_bytes).unwrap();

    let out = compress_pdf_with_config(&in_bytes, &test_config()).expect("run succeeds");
    let out_doc = load(&out);
    let s = out_doc.objects[&ids[0]].as_stream().unwrap();
    assert_eq!(dims_of(s), (300, 200));
    assert_eq!(filter_name(s), Some(b"DCTDecode".to_vec()));
    let length = s.dict.get(b"Length").and_then(|v| v.as_i64()).unwrap();
    assert!(length < raw_len, "payload shrank: {} -> {}", raw_len, length);
    assert_eq!(
        s.dict.get(b"ColorSpace").and_then(|v| v.as_name()).unwrap(),
        b"DeviceRGB".as_slice()
    );
}

#[test]
fn idempotent_reentry_does_not_fail_or_grow() {
    let jpg = jpeg_bytes(1600, 1200);
    let img = image_stream(
        1600,
        1200,
        8,
        Some(device_rgb()),
        Some(Object::Name(b"DCTDecode".to_vec())),
        jpg,
    );
    let (mut doc, _) = wrap_document(vec![img]);
    let mut in_bytes = Vec::new();
    doc.save_to(&mut in_bytes).unwrap();

    let first = compress_pdf_with_config(&in_bytes, &test_config()).expect("first run succeeds");
    let first_doc = load(&first);
    let first_imgs = image_entries(&first_doc);
    assert_eq!(first_imgs.len(), 1);
    let first_len = first_imgs[0].1.content.len();
    let first_dims = dims_of(first_imgs[0].1);

    let second = compress_pdf_with_config(&first, &test_config()).expect("second run succeeds");
    let second_doc = load(&second);
    let second_imgs = image_entries(&second_doc);
    assert_eq!(second_imgs.len(), 1);
    assert_eq!(dims_of(second_imgs[0].1), first_dims, "dimensions are budget-stable");
    let second_len = second_imgs[0].1.content.len();
    assert!(
        second_len <= first_len + first_len / 10 + 1024,
        "payload must not grow beyond encoder tolerance: {} -> {}",
        first_len,
        second_len
    );
}

#[test]
fn colorspace_resolved_through_indirect_reference() {
    // a gray image whose ColorSpace is a Reference to a Name object; the
    // byte-count heuristic cannot apply (w * h bytes, not w * h * 3)
    let (mut doc, _) = wrap_document(vec![]);
    let cs_id = doc.add_object(Object::Name(b"DeviceGray".to_vec()));
    let img = image_stream(
        32,
        16,
        8,
        Some(Object::Reference(cs_id)),
        None,
        vec![128u8; 32 * 16],
    );
    let img_id = doc.add_object(Object::Stream(img));
    let report = recompress_images(&mut doc, &test_config());
    assert_eq!(report, vec![(img_id, PipelineResult::Patched)]);
    let s = doc.objects[&img_id].as_stream().unwrap();
    assert_eq!(filter_name(s), Some(b"DCTDecode".to_vec()));
}

#[test]
fn each_failure_reason_is_reported() {
    let cfg = test_config();

    // unsupported filter: a stream encoding the provider cannot reverse
    let (doc, ids) = wrap_document(vec![image_stream(
        8,
        8,
        8,
        Some(device_rgb()),
        Some(Object::Name(b"JBIG2Decode".to_vec())),
        vec![0u8; 64],
    )]);
    assert_eq!(process_image(&doc, ids[0], &cfg).unwrap_err(), SkipReason::UnsupportedFilter);

    // unsupported bit depth
    let (doc, ids) = wrap_document(vec![image_stream(
        8,
        8,
        1,
        Some(Object::Name(b"DeviceGray".to_vec())),
        None,
        vec![0u8; 8],
    )]);
    assert_eq!(process_image(&doc, ids[0], &cfg).unwrap_err(), SkipReason::UnsupportedBitDepth);

    // unsupported colour model: four bytes per pixel
    let (doc, ids) = wrap_document(vec![image_stream(8, 8, 8, None, None, vec![0u8; 8 * 8 * 4])]);
    assert_eq!(process_image(&doc, ids[0], &cfg).unwrap_err(), SkipReason::UnsupportedColorModel);

    // malformed payload: unresolved colour model with a length that is
    // neither three nor four bytes per pixel
    let (doc, ids) = wrap_document(vec![image_stream(8, 8, 8, None, None, vec![0u8; 100])]);
    assert_eq!(process_image(&doc, ids[0], &cfg).unwrap_err(), SkipReason::MalformedPayload);

    // malformed payload: declared RGB but wrong sample count
    let (doc, ids) = wrap_document(vec![image_stream(
        8,
        8,
        8,
        Some(device_rgb()),
        None,
        vec![0u8; 17],
    )]);
    assert_eq!(process_image(&doc, ids[0], &cfg).unwrap_err(), SkipReason::MalformedPayload);

    // malformed payload: zero width
    let (doc, ids) = wrap_document(vec![image_stream(
        0,
        8,
        8,
        Some(device_rgb()),
        None,
        vec![],
    )]);
    assert_eq!(process_image(&doc, ids[0], &cfg).unwrap_err(), SkipReason::MalformedPayload);

    // malformed payload: photographic marker over undecodable bytes
    let (doc, ids) = wrap_document(vec![image_stream(
        8,
        8,
        8,
        Some(device_rgb()),
        Some(Object::Name(b"DCTDecode".to_vec())),
        vec![5u8; 100],
    )]);
    assert_eq!(process_image(&doc, ids[0], &cfg).unwrap_err(), SkipReason::MalformedPayload);

    // encode failure: a decoded side the photographic format cannot carry
    let wide_cfg = CompressionConfig { jpeg_quality: 30, max_dimension: 70_000, remove_metadata: true };
    let (doc, ids) = wrap_document(vec![image_stream(
        70_000,
        1,
        8,
        Some(device_rgb()),
        None,
        vec![0u8; 70_000 * 3],
    )]);
    assert_eq!(process_image(&doc, ids[0], &wide_cfg).unwrap_err(), SkipReason::EncodeFailed);

}

#[test]
fn process_image_reports_policy_dimensions() {
    let jpg = jpeg_bytes(1600, 1200);
    let (doc, ids) = wrap_document(vec![image_stream(
        1600,
        1200,
        8,
        Some(device_rgb()),
        Some(Object::Name(b"DCTDecode".to_vec())),
        jpg,
    )]);
    let p = process_image(&doc, ids[0], &test_config()).expect("processes");
    assert_eq!((p.src_width, p.src_height), (1600, 1200));
    assert_eq!((p.width, p.height), (600, 450));
    assert!(!p.data.is_empty());
}

#[test]
fn service_applies_defaults_and_clamps() {
    let jpg = jpeg_bytes(800, 600);
    let img = image_stream(
        800,
        600,
        8,
        Some(device_rgb()),
        Some(Object::Name(b"DCTDecode".to_vec())),
        jpg,
    );
    let (mut doc, ids) = wrap_document(vec![img]);
    let mut in_bytes = Vec::new();
    doc.save_to(&mut in_bytes).unwrap();

    let service = HelperService::default();
    let out = service.compress_pdf(&in_bytes, None).expect("defaults succeed");
    let out_doc = load(&out);
    let s = out_doc.objects[&ids[0]].as_stream().unwrap();
    assert_eq!(dims_of(s), (600, 450), "default budget is 600");

    // an out-of-range configuration is clamped, not rejected
    let wild = CompressionConfig { jpeg_quality: 0, max_dimension: 0, remove_metadata: false };
    let out2 = service.compress_pdf(&in_bytes, Some(wild)).expect("clamped run succeeds");
    let out2_doc = load(&out2);
    let s2 = out2_doc.objects[&ids[0]].as_stream().unwrap();
    assert_eq!(dims_of(s2), (1, 1), "budget clamps up to one pixel");
}

#[test]
fn filter_array_forms_are_recognized() {
    // the photographic marker inside a filter array
    let jpg = jpeg_bytes(64, 48);
    let img1 = image_stream(
        64,
        48,
        8,
        Some(device_rgb()),
        Some(Object::Array(vec![Object::Name(b"DCTDecode".to_vec())])),
        jpg,
    );
    // the generic encoding inside a filter array
    let mut img2 = image_stream(32, 32, 8, Some(device_rgb()), None, gradient_rgb(32, 32));
    img2.compress().unwrap();
    let generic = img2.dict.get(b"Filter").unwrap().clone();
    img2.dict.set("Filter", Object::Array(vec![generic]));

    let (mut doc, ids) = wrap_document(vec![img1, img2]);
    let report = recompress_images(&mut doc, &test_config());
    assert_eq!(report.len(), 2);
    assert!(report.iter().all(|(_, r)| *r == PipelineResult::Patched));
    for id in ids {
        let s = doc.objects[&id].as_stream().unwrap();
        assert_eq!(filter_name(s), Some(b"DCTDecode".to_vec()));
    }
}

#[test]
fn unparsable_input_is_the_fatal_error() {
    let r = compress_pdf_with_config(b"not a document", &test_config());
    assert_eq!(r.unwrap_err(), rustpdf::model::EngineError::InvalidDocument);
}

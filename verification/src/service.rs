//! The service facade the transport layers call: one synchronous entry point
//! around the engine, applying defaults and clamping the configuration, so
//! that no caller-supplied value can violate the engine's preconditions.

use vstd::prelude::*;
use crate::config::CompressionConfig;
use crate::engine::{compress_pdf_with_config, processed_graph};
use crate::model::EngineError;
use crate::pdf::{doc_view, parsed_doc, serialized_doc};

verus! {

/// The configuration a request asks for: the caller's record, or the
/// defaults where none is given.
pub open spec fn requested_config(config: Option<CompressionConfig>) -> CompressionConfig {
    match config {
        Some(c) => c,
        None => CompressionConfig { jpeg_quality: 30, max_dimension: 600, remove_metadata: true },
    }
}

/// The compression service: stateless; every request is one engine run.
#[derive(Debug, Default)]
pub struct HelperService;

impl HelperService {
    /// Compresses one document: the caller's configuration — or the
    /// defaults, where none is given — is clamped into the accepted ranges
    /// and the engine is run, with the engine's contract at that clamped
    /// configuration. The invalid-document error comes exactly when the
    /// input does not parse; the only other failure is at serialization.
    pub fn compress_pdf(&self, pdf_data: &[u8], config: Option<CompressionConfig>) -> (r: Result<
        Vec<u8>,
        EngineError,
    >)
        ensures
            r == Err::<Vec<u8>, EngineError>(EngineError::InvalidDocument) <==> parsed_doc(
                pdf_data@,
            ) is None,
            r matches Ok(out) ==> exists|d: lopdf::Document|
                {
                    &&& Some(out@) == #[trigger] serialized_doc(d)
                    &&& parsed_doc(pdf_data@) matches Some(pv) && processed_graph(
                        pv,
                        doc_view(d),
                        requested_config(config).spec_normalized(),
                    )
                },
            r matches Err(e) ==> (e == EngineError::InvalidDocument
                || e == EngineError::SaveFailed),
    {
        let requested = match config {
            Some(c) => c,
            None => CompressionConfig::default(),
        };
        let cfg = requested.normalized();
        compress_pdf_with_config(pdf_data, &cfg)
    }
}

} // verus!

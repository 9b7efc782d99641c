use vstd::prelude::*;

verus! {

#[derive(Clone, Debug)]
pub struct OmrOptions {
    pub enable_diagnostics: bool,
    pub engine_path: Option<String>,
}

#[derive(Clone, Debug)]
pub struct OmrResult {
    pub musicxml_path: Option<String>,
    pub diagnostics_path: Option<String>,
}

#[derive(Clone, Debug)]
pub enum OmrError {
    UnsupportedFormat(String),
    RecognitionFailed(String),
    Backend(String),
}

/// Optical recognition of a printed score.
pub trait OmrPort: Send + Sync {
    fn recognize_pdf(&self, pdf_path: &str, options: OmrOptions) -> Result<OmrResult, OmrError>;

    fn diagnostics(&self) -> Result<Option<String>, OmrError>;
}

} // verus!

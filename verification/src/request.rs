//! Building the model request: the fixed instruction prompt with its one
//! substitution token, and the inline data URIs that carry the encoded
//! document beside it.

use base64::Engine as _;
use vstd::prelude::*;

use crate::error::{IntelError, RenderFault};
use crate::text::{chars_from_str, replace_all, sp_replace_all, string_from_chars};

verus! {

/// The fixed instruction text handed to the model. The literal token
/// `{original_filename}` is replaced with the candidate file's base name in
/// the filename-aware variant.
pub const PROMPT_TEMPLATE: &'static str = r#"
1). When is the document dated (if any)?
2). What is the document? Eg, invoice, receipt, report etc.
3). What should the document title be (if any)?
4). What would be a good filename for this document, use the format {YYYYMMDD}-{title}-{category}.
5). If it makes sense, take inspiration from the original filename ({original_filename}) to come up with a better title.

Output your response as JSON, eg:
{
    "date": "2021-12-24",  // Use the format YYYY-MM-DD
    "category": "invoice"  // Keep the category in lowercase
    "filename": "20211224-dan-murphys-invoice"  // All lowercase, no spaces. Words separated by hyphens.
}
"#;

/// The prompt for one candidate: the template with the candidate's base name
/// substituted for the token.
pub open spec fn sp_prompt_for(name: Seq<char>) -> Seq<char> {
    sp_replace_all(PROMPT_TEMPLATE@, "{original_filename}"@, name)
}

/// Builds the prompt for one candidate by literal substring replacement.
pub fn build_prompt(original_filename: &str) -> (r: String)
    ensures
        r@ == sp_prompt_for(original_filename@),
{
    let template = chars_from_str(PROMPT_TEMPLATE);
    let pat = chars_from_str("{original_filename}");
    let name = chars_from_str(original_filename);
    proof {
        reveal_strlit("{original_filename}");
    }
    let replaced = replace_all(&template, &pat, &name);
    string_from_chars(&replaced)
}

/// The standard padded base64 encoding of the bytes.
pub uninterp spec fn base64_of(bytes: Seq<u8>) -> Seq<char>;

/// Relies on base64's `Engine::encode` with the standard alphabet and
/// padding: the encoding is a function of the bytes alone.
#[verifier::external_body]
fn b64_encode(bytes: &Vec<u8>) -> (r: String)
    ensures
        r@ == base64_of(bytes@),
{
    base64::engine::general_purpose::STANDARD.encode(bytes.as_slice())
}

/// The inline data URI carrying a PDF document.
pub open spec fn sp_pdf_data_uri(bytes: Seq<u8>) -> Seq<char> {
    "data:application/pdf;base64,"@ + base64_of(bytes)
}

/// The inline data URI carrying an encoded raster image.
pub open spec fn sp_png_data_uri(bytes: Seq<u8>) -> Seq<char> {
    "data:image/png;base64,"@ + base64_of(bytes)
}

/// Encodes PDF bytes into their inline data URI.
pub fn pdf_data_uri(bytes: &Vec<u8>) -> (r: String)
    ensures
        r@ == sp_pdf_data_uri(bytes@),
{
    let head = String::from_str("data:application/pdf;base64,");
    let b = b64_encode(bytes);
    head.concat(b.as_str())
}

/// Encodes image bytes into their inline data URI.
pub fn png_data_uri(bytes: &Vec<u8>) -> (r: String)
    ensures
        r@ == sp_png_data_uri(bytes@),
{
    let head = String::from_str("data:image/png;base64,");
    let b = b64_encode(bytes);
    head.concat(b.as_str())
}

/// One request in direct-bytes mode: the document's raw bytes travel as one
/// inline file part beside one text part holding the prompt.
#[derive(Debug)]
pub struct IntelligenceRequest {
    pub model: String,
    pub filename: String,
    pub file_data_uri: String,
    pub prompt: String,
}

/// One request in image-stitch mode: the stitched composite, already encoded
/// as a compressed raster image, travels as one inline image part beside the
/// prompt. The wire payload's transport constants (sampling temperature,
/// token ceiling, detail hint) belong to the serialization layer around the
/// library.
#[derive(Debug)]
pub struct ImageIntelligenceRequest {
    pub model: String,
    pub image_data_uri: String,
    pub prompt: String,
}

/// Builds the direct-bytes request for one candidate. Empty PDF bytes are
/// rejected, as an unreadable document would be.
pub fn build_direct_request(model: &str, pdf_filename: &str, pdf_bytes: &Vec<u8>) -> (r: Result<
    IntelligenceRequest,
    IntelError,
>)
    ensures
        match r {
            Ok(req) => pdf_bytes@.len() > 0 && req.model@ == model@ && req.filename@
                == pdf_filename@ && req.file_data_uri@ == sp_pdf_data_uri(pdf_bytes@)
                && req.prompt@ == sp_prompt_for(pdf_filename@),
            Err(e) => pdf_bytes@.len() == 0 && (e matches IntelError::Read { message: _ }),
        },
{
    if pdf_bytes.len() == 0 {
        return Err(IntelError::Read { message: String::from_str("the PDF file is empty") });
    }
    Ok(
        IntelligenceRequest {
            model: model.to_owned(),
            filename: pdf_filename.to_owned(),
            file_data_uri: pdf_data_uri(pdf_bytes),
            prompt: build_prompt(pdf_filename),
        },
    )
}

/// Builds the image-stitch request for one candidate. An empty encoding
/// means no pages were rendered, and is rejected.
pub fn build_image_request(model: &str, original_filename: &str, image_bytes: &Vec<u8>) -> (r:
    Result<ImageIntelligenceRequest, IntelError>)
    ensures
        match r {
            Ok(req) => image_bytes@.len() > 0 && req.model@ == model@ && req.image_data_uri@
                == sp_png_data_uri(image_bytes@) && req.prompt@ == sp_prompt_for(
                original_filename@,
            ),
            Err(e) => image_bytes@.len() == 0 && e == (IntelError::Render {
                fault: RenderFault::NoPages,
            }),
        },
{
    if image_bytes.len() == 0 {
        return Err(IntelError::Render { fault: RenderFault::NoPages });
    }
    Ok(
        ImageIntelligenceRequest {
            model: model.to_owned(),
            image_data_uri: png_data_uri(image_bytes),
            prompt: build_prompt(original_filename),
        },
    )
}

} // verus!

//! Tolerant JSON extraction from a raw model answer: Markdown code fences
//! are stripped by pure substring removal, a best-effort repair pass coerces
//! near-valid JSON into valid JSON, and the result is decoded into the
//! intelligence record.

use vstd::prelude::*;

use crate::error::IntelError;
use crate::intel::{decode_document, sp_decode_document, DocumentIntelligence};
use crate::json::sp_strict_document;
use crate::text::{chars_from_str, replace_all, sp_replace_all, string_from_chars};

verus! {

/// The error type of the repair_json crate.
#[verifier::external_type_specification]
#[verifier::external_body]
pub struct ExRepairError(repair_json::Error);

/// What the repair pass makes of a text: the repaired text, or nothing where
/// the text cannot be salvaged. The outcome depends on the characters alone.
pub uninterp spec fn repair_outcome(s: Seq<char>) -> Option<Seq<char>>;

/// Relies on `repair_json::repair`. It feeds the text byte by byte to a
/// verifier built as the classical JSON syntax-checker state machine, fails
/// on the first byte that cannot extend a valid document, and otherwise
/// returns the verified bytes with the shortest completion appended. A text
/// that already is one complete, strictly valid JSON document with an object
/// or array at top level -- `sp_strict_document` holds of exactly such texts,
/// and every text it accepts that machine also accepts -- is complete when
/// the last byte is consumed, so nothing is appended or truncated and the
/// text comes back unchanged.
#[verifier::external_body]
fn repair_text(s: &str) -> (r: Result<String, repair_json::Error>)
    ensures
        (match r {
            Ok(t) => repair_outcome(s@) == Some(t@) && (sp_strict_document(s@) ==> t@ == s@),
            Err(_) => repair_outcome(s@) is None && !sp_strict_document(s@),
        }),
{
    repair_json::repair(s)
}

/// A raw answer with the Markdown fence markers removed: first every
/// occurrence of the fence opener with its language tag, then every plain
/// fence.
pub open spec fn sp_stripped(raw: Seq<char>) -> Seq<char> {
    sp_replace_all(sp_replace_all(raw, "```json"@, Seq::empty()), "```"@, Seq::empty())
}

/// Strips Markdown code-fence markers: a pure substring removal, not a
/// parser.
pub fn strip_fences(raw: &str) -> (r: Vec<char>)
    ensures
        r@ == sp_stripped(raw@),
{
    let raw_chars = chars_from_str(raw);
    let pat1 = chars_from_str("```json");
    let pat2 = chars_from_str("```");
    let empty: Vec<char> = Vec::new();
    proof {
        reveal_strlit("```json");
        reveal_strlit("```");
    }
    let once = replace_all(&raw_chars, &pat1, &empty);
    replace_all(&once, &pat2, &empty)
}

/// Extracts the intelligence record from a raw model answer.
///
/// The final clause states that the repair pass loses nothing: where the
/// stripped answer already is a strictly valid JSON document, repair returns
/// it unchanged, so decoding after repair equals decoding the text directly.
pub fn extract_intelligence(raw: &str) -> (r: Result<DocumentIntelligence, IntelError>)
    ensures
        (match r {
            Ok(di) => (match repair_outcome(sp_stripped(raw@)) {
                Some(rep) => sp_decode_document(rep) == Ok::<_, ()>(di@),
                None => false,
            }),
            Err(e) => (match e {
                IntelError::JsonRepair { original } => repair_outcome(sp_stripped(raw@)) is None
                    && original@ == raw@,
                IntelError::JsonDecode { original, repaired } => (match repair_outcome(
                    sp_stripped(raw@),
                ) {
                    Some(rep) => sp_decode_document(rep) is Err && original@ == raw@ && repaired@
                        == rep,
                    None => false,
                }),
                _ => false,
            }),
        }),
        sp_strict_document(sp_stripped(raw@)) ==> repair_outcome(sp_stripped(raw@)) == Some(
            sp_stripped(raw@),
        ),
{
    let stripped = strip_fences(raw);
    let stripped_str = string_from_chars(&stripped);
    match repair_text(stripped_str.as_str()) {
        Err(_) => Err(IntelError::JsonRepair { original: raw.to_owned() }),
        Ok(repaired) => match decode_document(repaired.as_str()) {
            Some(di) => Ok(di),
            None => Err(IntelError::JsonDecode { original: raw.to_owned(), repaired }),
        },
    }
}

} // verus!

//! Interpreting what the intelligence endpoint sends back: on success, the
//! answer text is the first candidate's first text part, reached by explicit
//! optional chaining; on a non-success status a structured error body is
//! decoded, with the verbatim body as the fallback.

use vstd::prelude::*;

use crate::error::IntelError;
use crate::intel::{get_opt_string_field, lookup_member, sp_opt_string_field};
use crate::json::{
    json_view, members_view, items_view, parse_document, sp_lookup, sp_parse_document, Json, JsonV,
};
use crate::text::{chars_from_str, string_from_chars};

verus! {

/// The answer text inside a response envelope: field `output` must hold a
/// non-empty array whose first item is an object, whose `content` field
/// holds a non-empty array whose first part is an object with a string
/// `text` field. Any deviation yields nothing.
pub open spec fn sp_chain_text(v: JsonV) -> Option<Seq<char>> {
    match v {
        JsonV::Obj(m) => match sp_lookup(m, "output"@) {
            Some(JsonV::Arr(items)) => if items.len() > 0 {
                match items[0] {
                    JsonV::Obj(m1) => match sp_lookup(m1, "content"@) {
                        Some(JsonV::Arr(parts)) => if parts.len() > 0 {
                            match parts[0] {
                                JsonV::Obj(m2) => match sp_lookup(m2, "text"@) {
                                    Some(JsonV::Str(t)) => Some(t),
                                    _ => None,
                                },
                                _ => None,
                            }
                        } else {
                            None
                        },
                        _ => None,
                    },
                    _ => None,
                }
            } else {
                None
            },
            _ => None,
        },
        _ => None,
    }
}

/// The answer text of a response body, where the body parses as JSON and the
/// envelope has the expected shape.
pub open spec fn sp_extract_text(body: Seq<char>) -> Option<Seq<char>> {
    match sp_parse_document(body) {
        Some(v) => sp_chain_text(v),
        None => None,
    }
}

/// A structured API error body: an `error` object with string `message` and
/// `type` fields, and `param` and `code` fields that are absent, null or
/// strings. The result pairs the error's type with its message.
pub open spec fn sp_api_error(body: Seq<char>) -> Option<(Seq<char>, Seq<char>)> {
    match sp_parse_document(body) {
        Some(JsonV::Obj(m)) => match sp_lookup(m, "error"@) {
            Some(JsonV::Obj(em)) => match (sp_lookup(em, "message"@), sp_lookup(em, "type"@)) {
                (Some(JsonV::Str(msg)), Some(JsonV::Str(ty))) => if sp_opt_string_field(
                    em,
                    "param"@,
                ) is Ok && sp_opt_string_field(em, "code"@) is Ok {
                    Some((ty, msg))
                } else {
                    None
                },
                _ => None,
            },
            _ => None,
        },
        _ => None,
    }
}

/// Walks the envelope to the first candidate's first text part.
fn chain_text(j: &Json) -> (r: Option<String>)
    ensures
        match r {
            Some(t) => sp_chain_text(json_view(*j)) == Some(t@),
            None => sp_chain_text(json_view(*j)) is None,
        },
{
    let m = match j {
        Json::Obj(m) => m,
        _ => {
            return None;
        },
    };
    proof {
        assert(json_view(*j)->Obj_0 =~= members_view(m@));
    }
    let items = match lookup_member(m, "output") {
        Some(Json::Arr(items)) => items,
        _ => {
            return None;
        },
    };
    if items.len() == 0 {
        return None;
    }
    proof {
        assert(items_view(items@)[0] == json_view(items@[0]));
    }
    let m1 = match &items[0] {
        Json::Obj(m1) => m1,
        _ => {
            return None;
        },
    };
    proof {
        assert(json_view(items@[0])->Obj_0 =~= members_view(m1@));
    }
    let parts = match lookup_member(m1, "content") {
        Some(Json::Arr(parts)) => parts,
        _ => {
            return None;
        },
    };
    if parts.len() == 0 {
        return None;
    }
    proof {
        assert(items_view(parts@)[0] == json_view(parts@[0]));
    }
    let m2 = match &parts[0] {
        Json::Obj(m2) => m2,
        _ => {
            return None;
        },
    };
    proof {
        assert(json_view(parts@[0])->Obj_0 =~= members_view(m2@));
    }
    match lookup_member(m2, "text") {
        Some(Json::Str(t)) => Some(string_from_chars(t)),
        _ => None,
    }
}

/// Decodes a structured API error body.
fn decode_api_error(body: &str) -> (r: Option<(String, String)>)
    ensures
        match r {
            Some(p) => sp_api_error(body@) == Some((p.0@, p.1@)),
            None => sp_api_error(body@) is None,
        },
{
    let chars = chars_from_str(body);
    let j = match parse_document(&chars) {
        Some(j) => j,
        None => {
            return None;
        },
    };
    let m = match &j {
        Json::Obj(m) => m,
        _ => {
            return None;
        },
    };
    proof {
        assert(json_view(j)->Obj_0 =~= members_view(m@));
    }
    let em = match lookup_member(m, "error") {
        Some(Json::Obj(em)) => em,
        _ => {
            return None;
        },
    };
    proof {
        assert(sp_lookup(members_view(m@), "error"@) matches Some(e2)
            ==> e2->Obj_0 =~= members_view(em@));
    }
    let msg = match lookup_member(em, "message") {
        Some(Json::Str(t)) => string_from_chars(t),
        _ => {
            return None;
        },
    };
    let ty = match lookup_member(em, "type") {
        Some(Json::Str(t)) => string_from_chars(t),
        _ => {
            return None;
        },
    };
    if get_opt_string_field(em, "param").is_err() {
        return None;
    }
    if get_opt_string_field(em, "code").is_err() {
        return None;
    }
    Some((ty, msg))
}

/// Interprets one response of the intelligence endpoint. A success status
/// yields the answer text, or `MalformedResponse` where the envelope holds
/// none. A non-success status yields `Api` where the body is a structured
/// error, else `Transport` with the verbatim body.
pub fn interpret_response(status: u16, body: &str) -> (r: Result<String, IntelError>)
    ensures
        (match r {
            Ok(t) => 200 <= status < 300 && sp_extract_text(body@) == Some(t@),
            Err(e) => (match e {
                IntelError::MalformedResponse { raw_body } => 200 <= status < 300
                    && sp_extract_text(body@) is None && raw_body@ == body@,
                IntelError::Api { error_type, message } => !(200 <= status < 300) && sp_api_error(
                    body@,
                ) == Some((error_type@, message@)),
                IntelError::Transport { status: st, raw_body } => !(200 <= status < 300) && st
                    == status && sp_api_error(body@) is None && raw_body@ == body@,
                _ => false,
            }),
        }),
{
    if 200 <= status && status < 300 {
        let chars = chars_from_str(body);
        match parse_document(&chars) {
            Some(j) => match chain_text(&j) {
                Some(t) => Ok(t),
                None => Err(IntelError::MalformedResponse { raw_body: body.to_owned() }),
            },
            None => Err(IntelError::MalformedResponse { raw_body: body.to_owned() }),
        }
    } else {
        match decode_api_error(body) {
            Some((ty, msg)) => Err(IntelError::Api { error_type: ty, message: msg }),
            None => Err(IntelError::Transport { status, raw_body: body.to_owned() }),
        }
    }
}

} // verus!

//! The document-intelligence record and its tolerant decoding from a parsed
//! JSON value: unknown fields are ignored, absent or null fields decode to
//! `None`, and a present field of the wrong type is a decode failure.

use vstd::prelude::*;

use crate::json::{json_view, members_view, sp_lookup, Json, JsonV};
use crate::text::{chars_from_str, string_from_chars};

verus! {

/// The decoded answer: all three fields are independently optional. A
/// missing `filename` means that no rename action should be taken; it is not
/// an error.
#[derive(Debug, Clone, PartialEq)]
pub struct DocumentIntelligence {
    pub date: Option<String>,
    pub category: Option<String>,
    pub filename: Option<String>,
}

/// The specification-level record.
pub struct DocumentIntelligenceV {
    pub date: Option<Seq<char>>,
    pub category: Option<Seq<char>>,
    pub filename: Option<Seq<char>>,
}

/// The characters of an optional string.
pub open spec fn opt_str_view(v: Option<String>) -> Option<Seq<char>> {
    match v {
        Some(s) => Some(s@),
        None => None,
    }
}

impl View for DocumentIntelligence {
    type V = DocumentIntelligenceV;

    open spec fn view(&self) -> DocumentIntelligenceV {
        DocumentIntelligenceV {
            date: opt_str_view(self.date),
            category: opt_str_view(self.category),
            filename: opt_str_view(self.filename),
        }
    }
}

/// An optional string field of an object: absent or null decodes to `None`,
/// a string decodes to itself, anything else is a failure.
pub open spec fn sp_opt_string_field(
    members: Seq<(Seq<char>, JsonV)>,
    key: Seq<char>,
) -> Result<Option<Seq<char>>, ()> {
    match sp_lookup(members, key) {
        Option::None => Ok(Option::None),
        Option::Some(JsonV::Null) => Ok(Option::None),
        Option::Some(JsonV::Str(t)) => Ok(Option::Some(t)),
        Option::Some(_) => Err(()),
    }
}

/// The record held by a JSON value: the value must be an object, and each of
/// the three known fields must be absent, null or a string. Unknown members
/// are ignored.
pub open spec fn sp_decode_intelligence(v: JsonV) -> Result<DocumentIntelligenceV, ()> {
    match v {
        JsonV::Obj(members) => {
            match (
                sp_opt_string_field(members, "date"@),
                sp_opt_string_field(members, "category"@),
                sp_opt_string_field(members, "filename"@),
            ) {
                (Ok(date), Ok(category), Ok(filename)) => Ok(
                    DocumentIntelligenceV { date, category, filename },
                ),
                _ => Err(()),
            }
        },
        _ => Err(()),
    }
}

/// Whether a character vector holds exactly the characters of `s`.
pub fn chars_eq_str(v: &Vec<char>, s: &str) -> (r: bool)
    ensures
        r == (v@ == s@),
{
    let n = s.unicode_len();
    if n != v.len() {
        return false;
    }
    let mut i: usize = 0;
    while i < n
        invariant
            i <= n,
            n == s@.len(),
            n == v@.len(),
            forall|k: int| 0 <= k < i ==> v@[k] == s@[k],
        decreases n - i,
    {
        if s.get_char(i) != v[i] {
            return false;
        }
        i += 1;
    }
    proof {
        assert(v@ =~= s@);
    }
    true
}

/// The member bound to `key`, where a repeated key keeps its last binding.
pub(crate) fn lookup_member<'a>(members: &'a Vec<(Vec<char>, Json)>, key: &str) -> (r: Option<&'a Json>)
    ensures
        match r {
            Some(j) => sp_lookup(members_view(members@), key@) == Some(json_view(*j)),
            None => sp_lookup(members_view(members@), key@) is None,
        },
{
    let ghost mv = members_view(members@);
    let mut i = members.len();
    proof {
        assert(mv.take(i as int) =~= mv);
    }
    while i > 0
        invariant
            i <= members@.len(),
            mv == members_view(members@),
            sp_lookup(mv, key@) == sp_lookup(mv.take(i as int), key@),
        decreases i,
    {
        let idx = i - 1;
        proof {
            assert(mv.take(i as int).last() == mv[idx as int]);
            assert(mv[idx as int].0 == members@[idx as int].0@);
            assert(mv.take(i as int).drop_last() =~= mv.take(idx as int));
        }
        if chars_eq_str(&members[idx].0, key) {
            proof {
                assert(mv[idx as int].1 == json_view(members@[idx as int].1));
            }
            return Some(&members[idx].1);
        }
        i = idx;
    }
    proof {
        assert(mv.take(0) =~= Seq::<(Seq<char>, JsonV)>::empty());
    }
    None
}

/// One optional string field, decoded.
pub(crate) fn get_opt_string_field(members: &Vec<(Vec<char>, Json)>, key: &str) -> (r: Result<
    Option<String>,
    (),
>)
    ensures
        match r {
            Ok(v) => sp_opt_string_field(members_view(members@), key@) == Ok::<_, ()>(opt_str_view(v)),
            Err(_) => sp_opt_string_field(members_view(members@), key@) is Err,
        },
{
    match lookup_member(members, key) {
        None => Ok(None),
        Some(j) => match j {
            Json::Null => Ok(None),
            Json::Str(t) => Ok(Some(string_from_chars(t))),
            _ => Err(()),
        },
    }
}

/// Decodes a parsed JSON value into the intelligence record.
pub fn decode_intelligence(j: &Json) -> (r: Option<DocumentIntelligence>)
    ensures
        match r {
            Some(di) => sp_decode_intelligence(json_view(*j)) == Ok::<_, ()>(di@),
            None => sp_decode_intelligence(json_view(*j)) is Err,
        },
{
    match j {
        Json::Obj(members) => {
            proof {
                assert(json_view(*j)->Obj_0 =~= members_view(members@));
            }
            let date = match get_opt_string_field(members, "date") {
                Ok(v) => v,
                Err(_) => {
                    return None;
                },
            };
            let category = match get_opt_string_field(members, "category") {
                Ok(v) => v,
                Err(_) => {
                    return None;
                },
            };
            let filename = match get_opt_string_field(members, "filename") {
                Ok(v) => v,
                Err(_) => {
                    return None;
                },
            };
            Some(DocumentIntelligence { date, category, filename })
        },
        Json::Null => None,
        Json::Bool(_) => None,
        Json::Num(_) => None,
        Json::Str(_) => None,
        Json::Arr(_) => None,
    }
}

/// The record held by a text, if the text is exactly one JSON document whose
/// object decodes.
pub open spec fn sp_decode_document(s: Seq<char>) -> Result<DocumentIntelligenceV, ()> {
    match crate::json::sp_parse_document(s) {
        Some(v) => sp_decode_intelligence(v),
        None => Err(()),
    }
}

/// Parses and decodes a whole text.
pub fn decode_document(text: &str) -> (r: Option<DocumentIntelligence>)
    ensures
        match r {
            Some(di) => sp_decode_document(text@) == Ok::<_, ()>(di@),
            None => sp_decode_document(text@) is Err,
        },
{
    let chars = chars_from_str(text);
    match crate::json::parse_document(&chars) {
        Some(j) => decode_intelligence(&j),
        None => None,
    }
}

} // verus!

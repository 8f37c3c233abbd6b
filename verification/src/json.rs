//! JSON documents as the pipeline sees them: a spec-level value model, a
//! character-level grammar, and a verified recursive-descent parser.

use vstd::prelude::*;

verus! {

/// A JSON value, at the specification level. Numbers keep their literal
/// text: no field of the schema is numeric, so their value is never needed.
pub enum JsonV {
    Null,
    Bool(bool),
    Num(Seq<char>),
    Str(Seq<char>),
    Arr(Seq<JsonV>),
    Obj(Seq<(Seq<char>, JsonV)>),
}

/// A parsed JSON value. Mirrors `JsonV` with executable carriers.
pub enum Json {
    Null,
    Bool(bool),
    Num(Vec<char>),
    Str(Vec<char>),
    Arr(Vec<Json>),
    Obj(Vec<(Vec<char>, Json)>),
}

/// The specification value that a parsed value stands for.
pub open spec fn json_view(j: Json) -> JsonV
    decreases j,
{
    match j {
        Json::Null => JsonV::Null,
        Json::Bool(b) => JsonV::Bool(b),
        Json::Num(t) => JsonV::Num(t@),
        Json::Str(t) => JsonV::Str(t@),
        Json::Arr(items) => JsonV::Arr(
            Seq::new(
                items@.len(),
                |k: int|
                    if 0 <= k < items@.len() {
                        json_view(items[k])
                    } else {
                        JsonV::Null
                    },
            ),
        ),
        Json::Obj(members) => JsonV::Obj(
            Seq::new(
                members@.len(),
                |k: int|
                    if 0 <= k < members@.len() {
                        (members[k].0@, json_view(members[k].1))
                    } else {
                        (Seq::empty(), JsonV::Null)
                    },
            ),
        ),
    }
}

// ---------------------------------------------------------------------------
// Character classes
// ---------------------------------------------------------------------------
/// JSON insignificant whitespace.
pub open spec fn is_ws(c: char) -> bool {
    c == ' ' || c == '\t' || c == '\n' || c == '\r'
}

pub open spec fn is_digit(c: char) -> bool {
    '0' <= c <= '9'
}

pub open spec fn is_hex_digit(c: char) -> bool {
    is_digit(c) || ('a' <= c <= 'f') || ('A' <= c <= 'F')
}

pub open spec fn hex_val(c: char) -> int {
    if is_digit(c) {
        c as u32 - '0' as u32
    } else if 'a' <= c <= 'f' {
        c as u32 - 'a' as u32 + 10
    } else {
        c as u32 - 'A' as u32 + 10
    }
}

/// The character named by a single-character escape, if the escape is legal.
pub open spec fn sp_escape_char(c: char) -> Option<char> {
    if c == '"' {
        Some('"')
    } else if c == '\\' {
        Some('\\')
    } else if c == '/' {
        Some('/')
    } else if c == 'b' {
        Some(8u32 as char)
    } else if c == 'f' {
        Some(12u32 as char)
    } else if c == 'n' {
        Some('\n')
    } else if c == 'r' {
        Some('\r')
    } else if c == 't' {
        Some('\t')
    } else {
        None
    }
}

// ---------------------------------------------------------------------------
// Scanning
// ---------------------------------------------------------------------------
/// The first position at or after `i` holding a non-whitespace character.
pub open spec fn sp_skip_ws(s: Seq<char>, i: int) -> int
    recommends
        0 <= i <= s.len(),
    decreases s.len() - i,
{
    if i < 0 || i >= s.len() {
        i
    } else if is_ws(s[i]) {
        sp_skip_ws(s, i + 1)
    } else {
        i
    }
}

/// Whether everything from `i` to the end is whitespace.
pub open spec fn sp_all_ws(s: Seq<char>, i: int) -> bool
    decreases s.len() - i,
{
    if i < 0 || i >= s.len() {
        true
    } else if is_ws(s[i]) {
        sp_all_ws(s, i + 1)
    } else {
        false
    }
}

/// The first position at or after `i` holding a non-digit.
pub open spec fn sp_digits_end(s: Seq<char>, i: int) -> int
    recommends
        0 <= i <= s.len(),
    decreases s.len() - i,
{
    if i < 0 || i >= s.len() {
        i
    } else if is_digit(s[i]) {
        sp_digits_end(s, i + 1)
    } else {
        i
    }
}

/// Whether positions `i..i+4` hold four hexadecimal digits.
pub open spec fn sp_hex4_at(s: Seq<char>, i: int) -> bool {
    &&& i + 4 <= s.len()
    &&& is_hex_digit(s[i])
    &&& is_hex_digit(s[i + 1])
    &&& is_hex_digit(s[i + 2])
    &&& is_hex_digit(s[i + 3])
}

/// The value of the four hexadecimal digits at `i..i+4`.
pub open spec fn sp_hex4_val(s: Seq<char>, i: int) -> int
    recommends
        sp_hex4_at(s, i),
{
    hex_val(s[i]) * 0x1000 + hex_val(s[i + 1]) * 0x100 + hex_val(s[i + 2]) * 0x10 + hex_val(
        s[i + 3],
    )
}

/// The decoded content of a string body starting at `i` (just after the
/// opening quote), together with the position just after the closing quote.
/// Surrogate escapes must form a well-ordered pair; unescaped control
/// characters are not accepted.
pub open spec fn sp_string_body(s: Seq<char>, i: int) -> Option<(Seq<char>, int)>
    recommends
        0 <= i <= s.len(),
    decreases s.len() - i,
{
    if i < 0 || i >= s.len() {
        None
    } else if s[i] == '"' {
        Some((Seq::empty(), i + 1))
    } else if s[i] == '\\' {
        if i + 2 > s.len() {
            None
        } else if s[i + 1] == 'u' {
            if !sp_hex4_at(s, i + 2) {
                None
            } else {
                let v = sp_hex4_val(s, i + 2);
                if 0xD800 <= v < 0xDC00 {
                    if i + 12 <= s.len() && s[i + 6] == '\\' && s[i + 7] == 'u' && sp_hex4_at(
                        s,
                        i + 8,
                    ) {
                        let w = sp_hex4_val(s, i + 8);
                        if 0xDC00 <= w < 0xE000 {
                            let cp = 0x10000 + (v - 0xD800) * 0x400 + (w - 0xDC00);
                            match sp_string_body(s, i + 12) {
                                Some((rest, e)) => Some((seq![((cp as u32) as char)] + rest, e)),
                                None => None,
                            }
                        } else {
                            None
                        }
                    } else {
                        None
                    }
                } else if 0xDC00 <= v < 0xE000 {
                    None
                } else {
                    match sp_string_body(s, i + 6) {
                        Some((rest, e)) => Some((seq![((v as u32) as char)] + rest, e)),
                        None => None,
                    }
                }
            }
        } else {
            match sp_escape_char(s[i + 1]) {
                Some(c) => match sp_string_body(s, i + 2) {
                    Some((rest, e)) => Some((seq![c] + rest, e)),
                    None => None,
                },
                None => None,
            }
        }
    } else if (s[i] as u32) < 0x20 {
        None
    } else {
        match sp_string_body(s, i + 1) {
            Some((rest, e)) => Some((seq![s[i]] + rest, e)),
            None => None,
        }
    }
}

/// The end of the number literal starting at `i`, under the strict JSON
/// number grammar. If an optional part is not well-formed the number ends
/// before it.
pub open spec fn sp_number_end(s: Seq<char>, i: int) -> Option<int>
    recommends
        0 <= i < s.len(),
{
    let p = if s[i] == '-' {
        i + 1
    } else {
        i
    };
    if p >= s.len() || !is_digit(s[p]) {
        None
    } else {
        let q = if s[p] == '0' {
            p + 1
        } else {
            sp_digits_end(s, p)
        };
        let f = if q < s.len() && s[q] == '.' && sp_digits_end(s, q + 1) > q + 1 {
            sp_digits_end(s, q + 1)
        } else {
            q
        };
        let x = if f < s.len() && (s[f] == 'e' || s[f] == 'E') {
            let g = if f + 1 < s.len() && (s[f + 1] == '+' || s[f + 1] == '-') {
                f + 2
            } else {
                f + 1
            };
            if sp_digits_end(s, g) > g {
                sp_digits_end(s, g)
            } else {
                f
            }
        } else {
            f
        };
        Some(x)
    }
}

// ---------------------------------------------------------------------------
// The value grammar
// ---------------------------------------------------------------------------
/// The value starting exactly at `i` (no leading whitespace), with the
/// position just after it.
pub open spec fn sp_value(s: Seq<char>, i: int) -> Option<(JsonV, int)>
    recommends
        0 <= i <= s.len(),
    decreases s.len() - i, 0int,
{
    if i < 0 || i >= s.len() {
        None
    } else {
        let c = s[i];
        if c == 'n' {
            if i + 4 <= s.len() && s[i + 1] == 'u' && s[i + 2] == 'l' && s[i + 3] == 'l' {
                Some((JsonV::Null, i + 4))
            } else {
                None
            }
        } else if c == 't' {
            if i + 4 <= s.len() && s[i + 1] == 'r' && s[i + 2] == 'u' && s[i + 3] == 'e' {
                Some((JsonV::Bool(true), i + 4))
            } else {
                None
            }
        } else if c == 'f' {
            if i + 5 <= s.len() && s[i + 1] == 'a' && s[i + 2] == 'l' && s[i + 3] == 's' && s[i + 4]
                == 'e' {
                Some((JsonV::Bool(false), i + 5))
            } else {
                None
            }
        } else if c == '"' {
            match sp_string_body(s, i + 1) {
                Some((t, e)) => Some((JsonV::Str(t), e)),
                None => None,
            }
        } else if c == '-' || is_digit(c) {
            match sp_number_end(s, i) {
                Some(e) => if i < e <= s.len() {
                    Some((JsonV::Num(s.subrange(i, e)), e))
                } else {
                    None
                },
                None => None,
            }
        } else if c == '[' {
            match sp_array_items(s, i + 1, true) {
                Some((items, e)) => Some((JsonV::Arr(items), e)),
                None => None,
            }
        } else if c == '{' {
            match sp_object_members(s, i + 1, true) {
                Some((members, e)) => Some((JsonV::Obj(members), e)),
                None => None,
            }
        } else {
            None
        }
    }
}

/// Array items from `i` (just after `[` or `,`); a closing bracket is only
/// accepted where no comma precedes it.
pub open spec fn sp_array_items(s: Seq<char>, i: int, can_close: bool) -> Option<
    (Seq<JsonV>, int),
>
    recommends
        0 <= i <= s.len(),
    decreases s.len() - i, 1int,
{
    if i < 0 || i >= s.len() {
        None
    } else if is_ws(s[i]) {
        sp_array_items(s, i + 1, can_close)
    } else if s[i] == ']' {
        if can_close {
            Some((Seq::empty(), i + 1))
        } else {
            None
        }
    } else {
        match sp_value(s, i) {
            None => None,
            Some((v, e)) => if i < e <= s.len() {
                match sp_array_tail(s, e) {
                    None => None,
                    Some((rest, e2)) => Some((seq![v] + rest, e2)),
                }
            } else {
                None
            },
        }
    }
}

/// What follows an array item: the closing bracket, or a comma and more
/// items.
pub open spec fn sp_array_tail(s: Seq<char>, i: int) -> Option<(Seq<JsonV>, int)>
    recommends
        0 <= i <= s.len(),
    decreases s.len() - i, 1int,
{
    if i < 0 || i >= s.len() {
        None
    } else if is_ws(s[i]) {
        sp_array_tail(s, i + 1)
    } else if s[i] == ']' {
        Some((Seq::empty(), i + 1))
    } else if s[i] == ',' {
        sp_array_items(s, i + 1, false)
    } else {
        None
    }
}

/// Object members from `i` (just after `{` or `,`); a closing brace is only
/// accepted where no comma precedes it.
pub open spec fn sp_object_members(s: Seq<char>, i: int, can_close: bool) -> Option<
    (Seq<(Seq<char>, JsonV)>, int),
>
    recommends
        0 <= i <= s.len(),
    decreases s.len() - i, 1int,
{
    if i < 0 || i >= s.len() {
        None
    } else if is_ws(s[i]) {
        sp_object_members(s, i + 1, can_close)
    } else if s[i] == '}' {
        if can_close {
            Some((Seq::empty(), i + 1))
        } else {
            None
        }
    } else if s[i] == '"' {
        match sp_string_body(s, i + 1) {
            None => None,
            Some((key, e1)) => if i < e1 <= s.len() {
                match sp_member_colon(s, e1) {
                    None => None,
                    Some((v, e2)) => if e1 < e2 <= s.len() {
                        match sp_object_tail(s, e2) {
                            None => None,
                            Some((rest, e3)) => Some((seq![(key, v)] + rest, e3)),
                        }
                    } else {
                        None
                    },
                }
            } else {
                None
            },
        }
    } else {
        None
    }
}

/// The colon and value of one object member.
pub open spec fn sp_member_colon(s: Seq<char>, i: int) -> Option<(JsonV, int)>
    recommends
        0 <= i <= s.len(),
    decreases s.len() - i, 1int,
{
    if i < 0 || i >= s.len() {
        None
    } else if is_ws(s[i]) {
        sp_member_colon(s, i + 1)
    } else if s[i] == ':' {
        sp_member_value(s, i + 1)
    } else {
        None
    }
}

/// A member's value, allowing whitespace before it.
pub open spec fn sp_member_value(s: Seq<char>, i: int) -> Option<(JsonV, int)>
    recommends
        0 <= i <= s.len(),
    decreases s.len() - i, 1int,
{
    if i < 0 || i >= s.len() {
        None
    } else if is_ws(s[i]) {
        sp_member_value(s, i + 1)
    } else {
        sp_value(s, i)
    }
}

/// What follows an object member: the closing brace, or a comma and more
/// members.
pub open spec fn sp_object_tail(s: Seq<char>, i: int) -> Option<(Seq<(Seq<char>, JsonV)>, int)>
    recommends
        0 <= i <= s.len(),
    decreases s.len() - i, 1int,
{
    if i < 0 || i >= s.len() {
        None
    } else if is_ws(s[i]) {
        sp_object_tail(s, i + 1)
    } else if s[i] == '}' {
        Some((Seq::empty(), i + 1))
    } else if s[i] == ',' {
        sp_object_members(s, i + 1, false)
    } else {
        None
    }
}

/// A whole document: one value, surrounded only by whitespace.
pub open spec fn sp_doc(s: Seq<char>, i: int) -> Option<JsonV>
    recommends
        0 <= i <= s.len(),
    decreases s.len() - i, 1int,
{
    if i < 0 {
        None
    } else if i < s.len() && is_ws(s[i]) {
        sp_doc(s, i + 1)
    } else {
        match sp_value(s, i) {
            Some((v, e)) => if sp_all_ws(s, e) {
                Some(v)
            } else {
                None
            },
            None => None,
        }
    }
}

/// The value of the whole text, if the text is exactly one JSON document.
pub open spec fn sp_parse_document(s: Seq<char>) -> Option<JsonV> {
    sp_doc(s, 0)
}

/// A text that is one strictly valid JSON document whose top-level value is
/// an object or an array. Such a text is precisely what the classical JSON
/// syntax-checker state machine accepts as complete.
pub open spec fn sp_strict_document(s: Seq<char>) -> bool {
    match sp_doc(s, 0) {
        Some(JsonV::Obj(_)) => true,
        Some(JsonV::Arr(_)) => true,
        _ => false,
    }
}

/// The value bound to `key` in an object's members, where a repeated key
/// keeps its last binding, as serde-style decoders do.
pub open spec fn sp_lookup(members: Seq<(Seq<char>, JsonV)>, key: Seq<char>) -> Option<JsonV>
    decreases members.len(),
{
    if members.len() == 0 {
        None
    } else if members.last().0 == key {
        Some(members.last().1)
    } else {
        sp_lookup(members.drop_last(), key)
    }
}

// ---------------------------------------------------------------------------
// Views of executable carriers
// ---------------------------------------------------------------------------
/// The specification values of a vector of parsed items.
pub open spec fn items_view(items: Seq<Json>) -> Seq<JsonV> {
    Seq::new(
        items.len(),
        |k: int|
            if 0 <= k < items.len() {
                json_view(items[k])
            } else {
                JsonV::Null
            },
    )
}

/// The specification values of a vector of parsed members.
pub open spec fn members_view(members: Seq<(Vec<char>, Json)>) -> Seq<(Seq<char>, JsonV)> {
    Seq::new(
        members.len(),
        |k: int|
            if 0 <= k < members.len() {
                (members[k].0@, json_view(members[k].1))
            } else {
                (Seq::empty(), JsonV::Null)
            },
    )
}

// ---------------------------------------------------------------------------
// Leading whitespace does not change what the grammar accepts
// ---------------------------------------------------------------------------
proof fn lemma_array_items_ws(s: Seq<char>, i: int, can_close: bool)
    requires
        0 <= i <= s.len(),
    ensures
        sp_array_items(s, i, can_close) == sp_array_items(s, sp_skip_ws(s, i), can_close),
    decreases s.len() - i,
{
    if i < s.len() && is_ws(s[i]) {
        lemma_array_items_ws(s, i + 1, can_close);
    }
}

proof fn lemma_array_tail_ws(s: Seq<char>, i: int)
    requires
        0 <= i <= s.len(),
    ensures
        sp_array_tail(s, i) == sp_array_tail(s, sp_skip_ws(s, i)),
    decreases s.len() - i,
{
    if i < s.len() && is_ws(s[i]) {
        lemma_array_tail_ws(s, i + 1);
    }
}

proof fn lemma_object_members_ws(s: Seq<char>, i: int, can_close: bool)
    requires
        0 <= i <= s.len(),
    ensures
        sp_object_members(s, i, can_close) == sp_object_members(s, sp_skip_ws(s, i), can_close),
    decreases s.len() - i,
{
    if i < s.len() && is_ws(s[i]) {
        lemma_object_members_ws(s, i + 1, can_close);
    }
}

proof fn lemma_member_colon_ws(s: Seq<char>, i: int)
    requires
        0 <= i <= s.len(),
    ensures
        sp_member_colon(s, i) == sp_member_colon(s, sp_skip_ws(s, i)),
    decreases s.len() - i,
{
    if i < s.len() && is_ws(s[i]) {
        lemma_member_colon_ws(s, i + 1);
    }
}

proof fn lemma_member_value_ws(s: Seq<char>, i: int)
    requires
        0 <= i <= s.len(),
    ensures
        sp_member_value(s, i) == sp_member_value(s, sp_skip_ws(s, i)),
    decreases s.len() - i,
{
    if i < s.len() && is_ws(s[i]) {
        lemma_member_value_ws(s, i + 1);
    }
}

proof fn lemma_object_tail_ws(s: Seq<char>, i: int)
    requires
        0 <= i <= s.len(),
    ensures
        sp_object_tail(s, i) == sp_object_tail(s, sp_skip_ws(s, i)),
    decreases s.len() - i,
{
    if i < s.len() && is_ws(s[i]) {
        lemma_object_tail_ws(s, i + 1);
    }
}

proof fn lemma_doc_ws(s: Seq<char>, i: int)
    requires
        0 <= i <= s.len(),
    ensures
        sp_doc(s, i) == sp_doc(s, sp_skip_ws(s, i)),
    decreases s.len() - i,
{
    if i < s.len() && is_ws(s[i]) {
        lemma_doc_ws(s, i + 1);
    }
}

// ---------------------------------------------------------------------------
// The executable parser
// ---------------------------------------------------------------------------
/// Relies on std's `char::from_u32`: a Unicode scalar value converts to the
/// character with that value; a surrogate or out-of-range value does not
/// convert.
pub assume_specification[ char::from_u32 ](v: u32) -> (r: Option<char>)
    ensures
        r is Some <==> vstd::utf8::is_scalar(v),
        r matches Some(c) ==> c as u32 == v,
;

/// The first position at or after `i` holding a non-whitespace character.
fn parse_ws(s: &Vec<char>, i: usize) -> (j: usize)
    requires
        i <= s@.len(),
    ensures
        j as int == sp_skip_ws(s@, i as int),
        i <= j <= s@.len(),
        j == s@.len() || !is_ws(s@[j as int]),
{
    let slen = s.len();
    let mut j = i;
    while j < slen
        invariant_except_break
            i <= j <= slen,
            slen == s@.len(),
            sp_skip_ws(s@, i as int) == sp_skip_ws(s@, j as int),
        ensures
            i <= j <= slen,
            slen == s@.len(),
            sp_skip_ws(s@, i as int) == sp_skip_ws(s@, j as int),
            j == slen || !is_ws(s@[j as int]),
        decreases slen - j,
    {
        let c = s[j];
        if !(c == ' ' || c == '\t' || c == '\n' || c == '\r') {
            break ;
        }
        j += 1;
    }
    j
}

/// Whether everything from `i` to the end is whitespace.
fn parse_all_ws(s: &Vec<char>, i: usize) -> (r: bool)
    requires
        i <= s@.len(),
    ensures
        r == sp_all_ws(s@, i as int),
{
    let slen = s.len();
    let mut j = i;
    while j < slen
        invariant
            i <= j <= slen,
            slen == s@.len(),
            sp_all_ws(s@, i as int) == sp_all_ws(s@, j as int),
        decreases slen - j,
    {
        let c = s[j];
        if !(c == ' ' || c == '\t' || c == '\n' || c == '\r') {
            return false;
        }
        j += 1;
    }
    true
}

/// The first position at or after `i` holding a non-digit.
fn parse_digits_end(s: &Vec<char>, i: usize) -> (j: usize)
    requires
        i <= s@.len(),
    ensures
        j as int == sp_digits_end(s@, i as int),
        i <= j <= s@.len(),
{
    let slen = s.len();
    let mut j = i;
    while j < slen
        invariant_except_break
            i <= j <= slen,
            slen == s@.len(),
            sp_digits_end(s@, i as int) == sp_digits_end(s@, j as int),
        ensures
            i <= j <= slen,
            slen == s@.len(),
            sp_digits_end(s@, i as int) == sp_digits_end(s@, j as int),
            j == slen || !is_digit(s@[j as int]),
        decreases slen - j,
    {
        let c = s[j];
        if !('0' <= c && c <= '9') {
            break ;
        }
        j += 1;
    }
    j
}

/// The value of one hexadecimal digit.
fn hex_digit(c: char) -> (r: Option<u32>)
    ensures
        match r {
            Some(v) => is_hex_digit(c) && v as int == hex_val(c) && v <= 15,
            None => !is_hex_digit(c),
        },
{
    if '0' <= c && c <= '9' {
        Some(c as u32 - '0' as u32)
    } else if 'a' <= c && c <= 'f' {
        Some(c as u32 - 'a' as u32 + 10)
    } else if 'A' <= c && c <= 'F' {
        Some(c as u32 - 'A' as u32 + 10)
    } else {
        None
    }
}

/// The value of the four hexadecimal digits at `i..i+4`.
fn parse_hex4(s: &Vec<char>, i: usize) -> (r: Option<u32>)
    requires
        i + 4 <= s@.len(),
    ensures
        match r {
            Some(v) => sp_hex4_at(s@, i as int) && v as int == sp_hex4_val(s@, i as int) && v
                <= 0xFFFF,
            None => !sp_hex4_at(s@, i as int),
        },
{
    let slen = s.len();
    let a = hex_digit(s[i]);
    let b = hex_digit(s[i + 1]);
    let c = hex_digit(s[i + 2]);
    let d = hex_digit(s[i + 3]);
    match (a, b, c, d) {
        (Some(a), Some(b), Some(c), Some(d)) => Some(a * 0x1000 + b * 0x100 + c * 0x10 + d),
        _ => None,
    }
}

/// The character named by a single-character escape.
fn escape_char(c: char) -> (r: Option<char>)
    ensures
        r == sp_escape_char(c),
{
    if c == '"' {
        Some('"')
    } else if c == '\\' {
        Some('\\')
    } else if c == '/' {
        Some('/')
    } else if c == 'b' {
        proof {
            vstd::utf8::char_u32_cast('\u{0008}', 8u32);
        }
        Some('\u{0008}')
    } else if c == 'f' {
        proof {
            vstd::utf8::char_u32_cast('\u{000C}', 12u32);
        }
        Some('\u{000C}')
    } else if c == 'n' {
        Some('\n')
    } else if c == 'r' {
        Some('\r')
    } else if c == 't' {
        Some('\t')
    } else {
        None
    }
}

/// The decoded content of a string body starting just after the opening
/// quote, with the position just after the closing quote.
fn parse_string_body(s: &Vec<char>, i: usize) -> (r: Option<(Vec<char>, usize)>)
    requires
        i <= s@.len(),
    ensures
        match r {
            Some(p) => sp_string_body(s@, i as int) == Some((p.0@, p.1 as int)) && i < p.1
                <= s@.len(),
            None => sp_string_body(s@, i as int) is None,
        },
{
    let slen = s.len();
    let mut out: Vec<char> = Vec::new();
    let mut j = i;
    proof {
        assert(Seq::<char>::empty() + Seq::<char>::empty() =~= Seq::<char>::empty());
    }
    loop
        invariant
            i <= j <= slen,
            slen == s@.len(),
            (match sp_string_body(s@, j as int) {
                Some(p) => sp_string_body(s@, i as int) == Some((out@ + p.0, p.1)),
                None => sp_string_body(s@, i as int) is None,
            }),
        decreases slen - j,
    {
        if j >= slen {
            return None;
        }
        let c = s[j];
        if c == '"' {
            proof {
                assert(out@ + Seq::<char>::empty() =~= out@);
            }
            return Some((out, j + 1));
        }
        if c == '\\' {
            if slen - j < 2 {
                return None;
            }
            let e1 = s[j + 1];
            if e1 == 'u' {
                if slen - j < 6 {
                    return None;
                }
                match parse_hex4(s, j + 2) {
                    None => {
                        return None;
                    },
                    Some(v) => {
                        if 0xD800 <= v && v < 0xDC00 {
                            if slen - j >= 12 && s[j + 6] == '\\' && s[j + 7] == 'u' {
                                match parse_hex4(s, j + 8) {
                                    None => {
                                        return None;
                                    },
                                    Some(w) => {
                                        if 0xDC00 <= w && w < 0xE000 {
                                            let cp: u32 = 0x10000 + (v - 0xD800) * 0x400 + (w
                                                - 0xDC00);
                                            match char::from_u32(cp) {
                                                Some(ch) => {
                                                    proof {
                                                        vstd::utf8::char_u32_cast(ch, cp);
                                                        let jn = j as int + 12;
                                                        if let Some(p) = sp_string_body(s@, jn) {
                                                            assert(out@ + (seq![ch] + p.0) =~= out@.push(
                                                                ch,
                                                            ) + p.0);
                                                        }
                                                    }
                                                    out.push(ch);
                                                    j += 12;
                                                },
                                                None => {
                                                    proof {
                                                        assert(false);
                                                    }
                                                    return None;
                                                },
                                            }
                                        } else {
                                            return None;
                                        }
                                    },
                                }
                            } else {
                                return None;
                            }
                        } else if 0xDC00 <= v && v < 0xE000 {
                            return None;
                        } else {
                            match char::from_u32(v) {
                                Some(ch) => {
                                    proof {
                                        vstd::utf8::char_u32_cast(ch, v);
                                        let jn = j as int + 6;
                                        if let Some(p) = sp_string_body(s@, jn) {
                                            assert(out@ + (seq![ch] + p.0) =~= out@.push(ch) + p.0);
                                        }
                                    }
                                    out.push(ch);
                                    j += 6;
                                },
                                None => {
                                    proof {
                                        assert(false);
                                    }
                                    return None;
                                },
                            }
                        }
                    },
                }
            } else {
                match escape_char(e1) {
                    Some(ch) => {
                        proof {
                            let jn = j as int + 2;
                            if let Some(p) = sp_string_body(s@, jn) {
                                assert(out@ + (seq![ch] + p.0) =~= out@.push(ch) + p.0);
                            }
                        }
                        out.push(ch);
                        j += 2;
                    },
                    None => {
                        return None;
                    },
                }
            }
        } else if (c as u32) < 0x20 {
            return None;
        } else {
            proof {
                let jn = j as int + 1;
                if let Some(p) = sp_string_body(s@, jn) {
                    assert(out@ + (seq![c] + p.0) =~= out@.push(c) + p.0);
                }
            }
            out.push(c);
            j += 1;
        }
    }
}

/// The end of the number literal starting at `i`.
fn parse_number_end(s: &Vec<char>, i: usize) -> (r: Option<usize>)
    requires
        i < s@.len(),
    ensures
        match r {
            Some(e) => sp_number_end(s@, i as int) == Some(e as int) && i < e <= s@.len(),
            None => sp_number_end(s@, i as int) is None,
        },
{
    let slen = s.len();
    let p = if s[i] == '-' {
        i + 1
    } else {
        i
    };
    if p >= slen {
        return None;
    }
    let c = s[p];
    if !('0' <= c && c <= '9') {
        return None;
    }
    let q = if c == '0' {
        p + 1
    } else {
        proof {
            assert(sp_digits_end(s@, p as int) == sp_digits_end(s@, p as int + 1));
        }
        parse_digits_end(s, p + 1)
    };
    proof {
        assert(q > p);
        assert(q as int == if s@[p as int] == '0' {
            p as int + 1
        } else {
            sp_digits_end(s@, p as int)
        });
    }
    let f = if q < slen && s[q] == '.' {
        let d = parse_digits_end(s, q + 1);
        if d > q + 1 {
            d
        } else {
            q
        }
    } else {
        q
    };
    let x = if f < slen && (s[f] == 'e' || s[f] == 'E') {
        let g = if f + 1 < slen && (s[f + 1] == '+' || s[f + 1] == '-') {
            f + 2
        } else {
            f + 1
        };
        let d2 = parse_digits_end(s, g);
        if d2 > g {
            d2
        } else {
            f
        }
    } else {
        f
    };
    Some(x)
}

/// The value starting exactly at `i`.
fn parse_value(s: &Vec<char>, i: usize) -> (r: Option<(Json, usize)>)
    requires
        i <= s@.len(),
    ensures
        match r {
            Some(p) => sp_value(s@, i as int) == Some((json_view(p.0), p.1 as int)) && i < p.1
                <= s@.len(),
            None => sp_value(s@, i as int) is None,
        },
    decreases s@.len() - i, 0int,
{
    let slen = s.len();
    if i >= slen {
        return None;
    }
    let c = s[i];
    if c == 'n' {
        if slen - i >= 4 && s[i + 1] == 'u' && s[i + 2] == 'l' && s[i + 3] == 'l' {
            Some((Json::Null, i + 4))
        } else {
            None
        }
    } else if c == 't' {
        if slen - i >= 4 && s[i + 1] == 'r' && s[i + 2] == 'u' && s[i + 3] == 'e' {
            Some((Json::Bool(true), i + 4))
        } else {
            None
        }
    } else if c == 'f' {
        if slen - i >= 5 && s[i + 1] == 'a' && s[i + 2] == 'l' && s[i + 3] == 's' && s[i + 4]
            == 'e' {
            Some((Json::Bool(false), i + 5))
        } else {
            None
        }
    } else if c == '"' {
        match parse_string_body(s, i + 1) {
            Some((content, e)) => Some((Json::Str(content), e)),
            None => None,
        }
    } else if c == '-' || ('0' <= c && c <= '9') {
        match parse_number_end(s, i) {
            Some(e) => {
                let mut tv: Vec<char> = Vec::new();
                let mut k = i;
                proof {
                    assert(s@.subrange(i as int, i as int) =~= Seq::<char>::empty());
                }
                while k < e
                    invariant
                        i <= k <= e <= slen,
                        slen == s@.len(),
                        tv@ == s@.subrange(i as int, k as int),
                    decreases e - k,
                {
                    tv.push(s[k]);
                    proof {
                        assert(s@.subrange(i as int, k as int).push(s@[k as int]) =~= s@.subrange(
                            i as int,
                            (k + 1) as int,
                        ));
                    }
                    k += 1;
                }
                Some((Json::Num(tv), e))
            },
            None => None,
        }
    } else if c == '[' {
        match parse_array_items(s, i + 1, true) {
            Some((items, e)) => {
                proof {
                    let a = json_view(Json::Arr(items));
                    let b = JsonV::Arr(items_view(items@));
                    assert(a->Arr_0 =~= b->Arr_0);
                }
                Some((Json::Arr(items), e))
            },
            None => None,
        }
    } else if c == '{' {
        match parse_object_members(s, i + 1, true) {
            Some((members, e)) => {
                proof {
                    let a = json_view(Json::Obj(members));
                    let b = JsonV::Obj(members_view(members@));
                    assert(a->Obj_0 =~= b->Obj_0);
                }
                Some((Json::Obj(members), e))
            },
            None => None,
        }
    } else {
        None
    }
}

/// Array items from `i`.
fn parse_array_items(s: &Vec<char>, i: usize, can_close: bool) -> (r: Option<(Vec<Json>, usize)>)
    requires
        i <= s@.len(),
    ensures
        match r {
            Some(p) => sp_array_items(s@, i as int, can_close) == Some((items_view(p.0@), p.1 as int))
                && i < p.1 <= s@.len(),
            None => sp_array_items(s@, i as int, can_close) is None,
        },
    decreases s@.len() - i, 1int,
{
    proof {
        lemma_array_items_ws(s@, i as int, can_close);
    }
    let slen = s.len();
    let j = parse_ws(s, i);
    if j >= slen {
        return None;
    }
    let c = s[j];
    if c == ']' {
        if can_close {
            let out: Vec<Json> = Vec::new();
            proof {
                assert(items_view(out@) =~= Seq::<JsonV>::empty());
            }
            return Some((out, j + 1));
        } else {
            return None;
        }
    }
    match parse_value(s, j) {
        None => None,
        Some((v, e)) => {
            match parse_array_tail(s, e) {
                None => None,
                Some((mut rest, e2)) => {
                    rest.insert(0, v);
                    proof {
                        let ghost old_rest = rest@.remove(0);
                        assert(items_view(rest@) =~= seq![json_view(v)] + items_view(
                            rest@.subrange(1, rest@.len() as int),
                        ));
                        assert(rest@.subrange(1, rest@.len() as int) =~= old_rest);
                    }
                    Some((rest, e2))
                },
            }
        },
    }
}

/// What follows an array item.
fn parse_array_tail(s: &Vec<char>, i: usize) -> (r: Option<(Vec<Json>, usize)>)
    requires
        i <= s@.len(),
    ensures
        match r {
            Some(p) => sp_array_tail(s@, i as int) == Some((items_view(p.0@), p.1 as int)) && i
                < p.1 <= s@.len(),
            None => sp_array_tail(s@, i as int) is None,
        },
    decreases s@.len() - i, 1int,
{
    proof {
        lemma_array_tail_ws(s@, i as int);
    }
    let slen = s.len();
    let j = parse_ws(s, i);
    if j >= slen {
        return None;
    }
    let c = s[j];
    if c == ']' {
        let out: Vec<Json> = Vec::new();
        proof {
            assert(items_view(out@) =~= Seq::<JsonV>::empty());
        }
        Some((out, j + 1))
    } else if c == ',' {
        parse_array_items(s, j + 1, false)
    } else {
        None
    }
}

/// Object members from `i`.
fn parse_object_members(s: &Vec<char>, i: usize, can_close: bool) -> (r: Option<
    (Vec<(Vec<char>, Json)>, usize),
>)
    requires
        i <= s@.len(),
    ensures
        match r {
            Some(p) => sp_object_members(s@, i as int, can_close) == Some(
                (members_view(p.0@), p.1 as int),
            ) && i < p.1 <= s@.len(),
            None => sp_object_members(s@, i as int, can_close) is None,
        },
    decreases s@.len() - i, 1int,
{
    proof {
        lemma_object_members_ws(s@, i as int, can_close);
    }
    let slen = s.len();
    let j = parse_ws(s, i);
    if j >= slen {
        return None;
    }
    let c = s[j];
    if c == '}' {
        if can_close {
            let out: Vec<(Vec<char>, Json)> = Vec::new();
            proof {
                assert(members_view(out@) =~= Seq::<(Seq<char>, JsonV)>::empty());
            }
            return Some((out, j + 1));
        } else {
            return None;
        }
    }
    if c != '"' {
        return None;
    }
    match parse_string_body(s, j + 1) {
        None => None,
        Some((key, e1)) => {
            match parse_member_colon(s, e1) {
                None => None,
                Some((v, e2)) => {
                    match parse_object_tail(s, e2) {
                        None => None,
                        Some((mut rest, e3)) => {
                            let ghost keyv = key@;
                            rest.insert(0, (key, v));
                            proof {
                                let ghost old_rest = rest@.remove(0);
                                assert(members_view(rest@) =~= seq![(keyv, json_view(v))]
                                    + members_view(rest@.subrange(1, rest@.len() as int)));
                                assert(rest@.subrange(1, rest@.len() as int) =~= old_rest);
                            }
                            Some((rest, e3))
                        },
                    }
                },
            }
        },
    }
}

/// The colon and value of one object member.
fn parse_member_colon(s: &Vec<char>, i: usize) -> (r: Option<(Json, usize)>)
    requires
        i <= s@.len(),
    ensures
        match r {
            Some(p) => sp_member_colon(s@, i as int) == Some((json_view(p.0), p.1 as int)) && i
                < p.1 <= s@.len(),
            None => sp_member_colon(s@, i as int) is None,
        },
    decreases s@.len() - i, 1int,
{
    proof {
        lemma_member_colon_ws(s@, i as int);
    }
    let slen = s.len();
    let j = parse_ws(s, i);
    if j >= slen {
        return None;
    }
    if s[j] == ':' {
        parse_member_value(s, j + 1)
    } else {
        None
    }
}

/// A member's value, allowing whitespace before it.
fn parse_member_value(s: &Vec<char>, i: usize) -> (r: Option<(Json, usize)>)
    requires
        i <= s@.len(),
    ensures
        match r {
            Some(p) => sp_member_value(s@, i as int) == Some((json_view(p.0), p.1 as int)) && i
                < p.1 <= s@.len(),
            None => sp_member_value(s@, i as int) is None,
        },
    decreases s@.len() - i, 1int,
{
    proof {
        lemma_member_value_ws(s@, i as int);
    }
    let j = parse_ws(s, i);
    parse_value(s, j)
}

/// What follows an object member.
fn parse_object_tail(s: &Vec<char>, i: usize) -> (r: Option<(Vec<(Vec<char>, Json)>, usize)>)
    requires
        i <= s@.len(),
    ensures
        match r {
            Some(p) => sp_object_tail(s@, i as int) == Some((members_view(p.0@), p.1 as int)) && i
                < p.1 <= s@.len(),
            None => sp_object_tail(s@, i as int) is None,
        },
    decreases s@.len() - i, 1int,
{
    proof {
        lemma_object_tail_ws(s@, i as int);
    }
    let slen = s.len();
    let j = parse_ws(s, i);
    if j >= slen {
        return None;
    }
    let c = s[j];
    if c == '}' {
        let out: Vec<(Vec<char>, Json)> = Vec::new();
        proof {
            assert(members_view(out@) =~= Seq::<(Seq<char>, JsonV)>::empty());
        }
        Some((out, j + 1))
    } else if c == ',' {
        parse_object_members(s, j + 1, false)
    } else {
        None
    }
}

/// Parses a whole text as one JSON document.
pub fn parse_document(s: &Vec<char>) -> (r: Option<Json>)
    ensures
        match r {
            Some(j) => sp_parse_document(s@) == Some(json_view(j)),
            None => sp_parse_document(s@) is None,
        },
{
    proof {
        lemma_doc_ws(s@, 0);
    }
    let j = parse_ws(s, 0);
    match parse_value(s, j) {
        None => None,
        Some((v, e)) => {
            if parse_all_ws(s, e) {
                Some(v)
            } else {
                None
            }
        },
    }
}

} // verus!

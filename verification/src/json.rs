//! JSON documents: a value type, a parser and a pretty printer.
//!
//! A value keeps the exact spelling found in the document: a number holds its
//! token as written, and a string holds the text between its quotes with the
//! escape sequences still in place. Printing writes those spellings back out,
//! so a parsed document prints to an equivalent document.
//!
//! The parser is specified by spec functions that walk the text character by
//! character; every executable function returns exactly what its spec twin
//! describes.

use vstd::prelude::*;

verus! {

/// One `"key": value` pair of a JSON object.
pub struct Member {
    /// The key's text as it stands between the quotes, escapes kept.
    pub key: Vec<char>,
    /// The member's value.
    pub value: JsonValue,
}

/// A JSON value, with the spellings of numbers and strings preserved.
pub enum JsonValue {
    /// The literal `null`.
    Null,
    /// `true` or `false`.
    Bool(bool),
    /// A number, kept as the token spelled in the document (`-12`, `3.5e2`).
    Num(Vec<char>),
    /// A string's text between the quotes, escape sequences kept as written.
    Str(Vec<char>),
    /// An array of values.
    Arr(Vec<JsonValue>),
    /// An object: its members in document order, duplicates kept.
    Obj(Vec<Member>),
}

/// The mathematical shape of a JSON value; the contracts speak of this form.
#[verifier::ext_equal]
pub enum Json {
    Null,
    Bool(bool),
    Num(Seq<char>),
    Str(Seq<char>),
    Arr(Seq<Json>),
    Obj(Seq<(Seq<char>, Json)>),
}

/// The mathematical shape of a `JsonValue`.
pub open spec fn view_json(v: JsonValue) -> Json
    decreases v,
{
    match v {
        JsonValue::Null => Json::Null,
        JsonValue::Bool(b) => Json::Bool(b),
        JsonValue::Num(t) => Json::Num(t@),
        JsonValue::Str(t) => Json::Str(t@),
        JsonValue::Arr(items) => Json::Arr(view_json_seq(items@)),
        JsonValue::Obj(members) => Json::Obj(view_member_seq(members@)),
    }
}

/// The shapes of a sequence of values, in order.
pub open spec fn view_json_seq(s: Seq<JsonValue>) -> Seq<Json>
    decreases s,
{
    if s.len() == 0 {
        Seq::empty()
    } else {
        view_json_seq(s.subrange(0, s.len() - 1)).push(view_json(s[s.len() - 1]))
    }
}

/// The shapes of a sequence of object members, in order.
pub open spec fn view_member_seq(s: Seq<Member>) -> Seq<(Seq<char>, Json)>
    decreases s,
{
    if s.len() == 0 {
        Seq::empty()
    } else {
        view_member_seq(s.subrange(0, s.len() - 1)).push(
            (s[s.len() - 1].key@, view_json(s[s.len() - 1].value)),
        )
    }
}

pub proof fn lemma_view_json_seq_len(s: Seq<JsonValue>)
    ensures
        view_json_seq(s).len() == s.len(),
    decreases s,
{
    if s.len() > 0 {
        lemma_view_json_seq_len(s.subrange(0, s.len() - 1));
    }
}

pub proof fn lemma_view_json_seq_index(s: Seq<JsonValue>, k: int)
    requires
        0 <= k < s.len(),
    ensures
        view_json_seq(s).len() == s.len(),
        view_json_seq(s)[k] == view_json(s[k]),
    decreases s,
{
    lemma_view_json_seq_len(s);
    if s.len() > 0 {
        let fore = s.subrange(0, s.len() - 1);
        lemma_view_json_seq_len(fore);
        if k < s.len() - 1 {
            lemma_view_json_seq_index(fore, k);
            assert(fore[k] == s[k]);
        }
    }
}

pub proof fn lemma_view_member_seq_len(s: Seq<Member>)
    ensures
        view_member_seq(s).len() == s.len(),
    decreases s,
{
    if s.len() > 0 {
        lemma_view_member_seq_len(s.subrange(0, s.len() - 1));
    }
}

pub proof fn lemma_view_member_seq_index(s: Seq<Member>, k: int)
    requires
        0 <= k < s.len(),
    ensures
        view_member_seq(s).len() == s.len(),
        view_member_seq(s)[k] == (s[k].key@, view_json(s[k].value)),
    decreases s,
{
    lemma_view_member_seq_len(s);
    if s.len() > 0 {
        let fore = s.subrange(0, s.len() - 1);
        lemma_view_member_seq_len(fore);
        if k < s.len() - 1 {
            lemma_view_member_seq_index(fore, k);
            assert(fore[k] == s[k]);
        }
    }
}

/// Nesting depth of arrays and objects the parser accepts before giving up.
pub const JSON_MAX_DEPTH: u32 = 128;

/// JSON insignificant whitespace.
pub open spec fn is_ws(c: char) -> bool {
    c == ' ' || c == '\n' || c == '\r' || c == '\t'
}

/// An ASCII decimal digit.
pub open spec fn is_digit(c: char) -> bool {
    '0' <= c && c <= '9'
}

/// An ASCII hexadecimal digit.
pub open spec fn is_hex(c: char) -> bool {
    ('0' <= c && c <= '9') || ('a' <= c && c <= 'f') || ('A' <= c && c <= 'F')
}

/// The character after a backslash in a one-letter escape.
pub open spec fn is_simple_escape(c: char) -> bool {
    c == '"' || c == '\\' || c == '/' || c == 'b' || c == 'f' || c == 'n' || c == 'r' || c == 't'
}

/// First position at or after `i` that does not hold whitespace.
pub open spec fn spec_skip_ws(s: Seq<char>, i: int) -> int
    decreases s.len() - i,
{
    if i < 0 || i >= s.len() {
        i
    } else if is_ws(s[i]) {
        spec_skip_ws(s, i + 1)
    } else {
        i
    }
}

/// First position at or after `i` that does not hold a digit.
pub open spec fn spec_skip_digits(s: Seq<char>, i: int) -> int
    decreases s.len() - i,
{
    if i < 0 || i >= s.len() {
        i
    } else if is_digit(s[i]) {
        spec_skip_digits(s, i + 1)
    } else {
        i
    }
}

pub proof fn lemma_skip_digits_bounds(s: Seq<char>, i: int)
    requires
        0 <= i <= s.len(),
    ensures
        i <= spec_skip_digits(s, i) <= s.len(),
    decreases s.len() - i,
{
    if i < s.len() && is_digit(s[i]) {
        lemma_skip_digits_bounds(s, i + 1);
    }
}

/// Position of the closing quote of the string whose content starts at `i`,
/// checking the escape sequences on the way; `None` if the text there is not
/// a valid string remainder.
pub open spec fn spec_scan_string(s: Seq<char>, i: int) -> Option<int>
    decreases s.len() - i,
{
    if i < 0 || i >= s.len() {
        None
    } else if s[i] == '"' {
        Some(i)
    } else if s[i] == '\\' {
        if i + 2 <= s.len() && is_simple_escape(s[i + 1]) {
            spec_scan_string(s, i + 2)
        } else if i + 6 <= s.len() && s[i + 1] == 'u' && is_hex(s[i + 2]) && is_hex(s[i + 3])
            && is_hex(s[i + 4]) && is_hex(s[i + 5]) {
            spec_scan_string(s, i + 6)
        } else {
            None
        }
    } else if (s[i] as u32) < 0x20 {
        None
    } else {
        spec_scan_string(s, i + 1)
    }
}

/// End (exclusive) of the number token starting at `i`, if the text there is
/// a valid JSON number: an optional minus, an integer part without a leading
/// zero, an optional fraction and an optional exponent.
pub open spec fn spec_scan_number(s: Seq<char>, i: int) -> Option<int> {
    let j = if 0 <= i && i < s.len() && s[i] == '-' {
        i + 1
    } else {
        i
    };
    if j < 0 || j >= s.len() || !is_digit(s[j]) {
        None
    } else {
        let k = if s[j] == '0' {
            j + 1
        } else {
            spec_skip_digits(s, j)
        };
        let m = if k < s.len() && s[k] == '.' {
            if k + 1 < s.len() && is_digit(s[k + 1]) {
                spec_skip_digits(s, k + 1)
            } else {
                -1
            }
        } else {
            k
        };
        if m < 0 {
            None
        } else {
            let e = if m < s.len() && (s[m] == 'e' || s[m] == 'E') {
                let p = if m + 1 < s.len() && (s[m + 1] == '+' || s[m + 1] == '-') {
                    m + 2
                } else {
                    m + 1
                };
                if p < s.len() && is_digit(s[p]) {
                    spec_skip_digits(s, p)
                } else {
                    -1
                }
            } else {
                m
            };
            if e < 0 {
                None
            } else {
                Some(e)
            }
        }
    }
}

/// A value, starting exactly at `i` (no leading whitespace), with `d` levels
/// of array and object nesting still allowed.
pub open spec fn spec_parse_value(s: Seq<char>, i: int, d: nat) -> Option<(Json, int)>
    decreases d, s.len() - i, 0int,
{
    if i < 0 || i >= s.len() {
        None
    } else if s[i] == 'n' {
        if i + 4 <= s.len() && s[i + 1] == 'u' && s[i + 2] == 'l' && s[i + 3] == 'l' {
            Some((Json::Null, i + 4))
        } else {
            None
        }
    } else if s[i] == 't' {
        if i + 4 <= s.len() && s[i + 1] == 'r' && s[i + 2] == 'u' && s[i + 3] == 'e' {
            Some((Json::Bool(true), i + 4))
        } else {
            None
        }
    } else if s[i] == 'f' {
        if i + 5 <= s.len() && s[i + 1] == 'a' && s[i + 2] == 'l' && s[i + 3] == 's' && s[i + 4]
            == 'e' {
            Some((Json::Bool(false), i + 5))
        } else {
            None
        }
    } else if s[i] == '"' {
        match spec_scan_string(s, i + 1) {
            Some(q) => Some((Json::Str(s.subrange(i + 1, q)), q + 1)),
            None => None,
        }
    } else if s[i] == '-' || is_digit(s[i]) {
        match spec_scan_number(s, i) {
            Some(e) => if i < e <= s.len() {
                Some((Json::Num(s.subrange(i, e)), e))
            } else {
                None
            },
            None => None,
        }
    } else if s[i] == '[' {
        if d == 0 {
            None
        } else {
            match spec_parse_array(s, i + 1, (d - 1) as nat) {
                Some((items, j)) => Some((Json::Arr(items), j)),
                None => None,
            }
        }
    } else if s[i] == '{' {
        if d == 0 {
            None
        } else {
            match spec_parse_object(s, i + 1, (d - 1) as nat) {
                Some((members, j)) => Some((Json::Obj(members), j)),
                None => None,
            }
        }
    } else {
        None
    }
}

/// The rest of an array, entered just after its `[`; ends after the `]`.
pub open spec fn spec_parse_array(s: Seq<char>, i: int, d: nat) -> Option<(Seq<Json>, int)>
    decreases d, s.len() - i, 2int,
{
    if i < 0 || i > s.len() {
        None
    } else {
        let q = spec_skip_ws(s, i);
        if i <= q < s.len() && s[q] == ']' {
            Some((Seq::empty(), q + 1))
        } else {
            spec_parse_items(s, i, d)
        }
    }
}

/// One or more comma-separated array elements, then the closing `]`.
pub open spec fn spec_parse_items(s: Seq<char>, i: int, d: nat) -> Option<(Seq<Json>, int)>
    decreases d, s.len() - i, 1int,
{
    if i < 0 || i > s.len() {
        None
    } else {
        let q = spec_skip_ws(s, i);
        if q < i || q > s.len() {
            None
        } else {
            match spec_parse_value(s, q, d) {
                Some((v, j)) => {
                    let r = spec_skip_ws(s, j);
                    if r < 0 || r >= s.len() {
                        None
                    } else if s[r] == ']' {
                        Some((seq![v], r + 1))
                    } else if s[r] == ',' && r + 1 > i {
                        match spec_parse_items(s, r + 1, d) {
                            Some((rest, k)) => Some((seq![v] + rest, k)),
                            None => None,
                        }
                    } else {
                        None
                    }
                },
                None => None,
            }
        }
    }
}

/// The rest of an object, entered just after its `{`; ends after the `}`.
pub open spec fn spec_parse_object(s: Seq<char>, i: int, d: nat) -> Option<
    (Seq<(Seq<char>, Json)>, int),
>
    decreases d, s.len() - i, 2int,
{
    if i < 0 || i > s.len() {
        None
    } else {
        let q = spec_skip_ws(s, i);
        if i <= q < s.len() && s[q] == '}' {
            Some((Seq::empty(), q + 1))
        } else {
            spec_parse_fields(s, i, d)
        }
    }
}

/// One or more comma-separated `"key": value` members, then the closing `}`.
pub open spec fn spec_parse_fields(s: Seq<char>, i: int, d: nat) -> Option<
    (Seq<(Seq<char>, Json)>, int),
>
    decreases d, s.len() - i, 1int,
{
    if i < 0 || i > s.len() {
        None
    } else {
        let q = spec_skip_ws(s, i);
        if !(i <= q < s.len()) || s[q] != '"' {
            None
        } else {
            match spec_scan_string(s, q + 1) {
                Some(endq) => {
                    let key = s.subrange(q + 1, endq);
                    let c = spec_skip_ws(s, endq + 1);
                    if !(0 <= c < s.len()) || s[c] != ':' {
                        None
                    } else {
                        let w = spec_skip_ws(s, c + 1);
                        if w <= i || w > s.len() {
                            None
                        } else {
                            match spec_parse_value(s, w, d) {
                                Some((v, j)) => {
                                    let r = spec_skip_ws(s, j);
                                    if r < 0 || r >= s.len() {
                                        None
                                    } else if s[r] == '}' {
                                        Some((seq![(key, v)], r + 1))
                                    } else if s[r] == ',' && r + 1 > i {
                                        match spec_parse_fields(s, r + 1, d) {
                                            Some((rest, k)) => Some((seq![(key, v)] + rest, k)),
                                            None => None,
                                        }
                                    } else {
                                        None
                                    }
                                },
                                None => None,
                            }
                        }
                    }
                },
                None => None,
            }
        }
    }
}

/// A whole document: one value, surrounded by nothing but whitespace.
pub open spec fn spec_parse_text(s: Seq<char>) -> Option<Json> {
    let q = spec_skip_ws(s, 0);
    if q < 0 || q > s.len() {
        None
    } else {
        match spec_parse_value(s, q, JSON_MAX_DEPTH as nat) {
            Some((v, j)) => if spec_skip_ws(s, j) == s.len() {
                Some(v)
            } else {
                None
            },
            None => None,
        }
    }
}

/// The pretty rendering of a value standing at indentation `ind`: scalars on
/// one line, each element or member of a non-empty array or object on a line
/// of its own, indented two spaces further.
pub open spec fn spec_pretty(v: Json, ind: Seq<char>) -> Seq<char>
    decreases v, 0int,
{
    match v {
        Json::Null => seq!['n', 'u', 'l', 'l'],
        Json::Bool(b) => if b {
            seq!['t', 'r', 'u', 'e']
        } else {
            seq!['f', 'a', 'l', 's', 'e']
        },
        Json::Num(t) => t,
        Json::Str(t) => seq!['"'] + t + seq!['"'],
        Json::Arr(items) => if items.len() == 0 {
            seq!['[', ']']
        } else {
            seq!['['] + spec_pretty_items(items, ind + seq![' ', ' ']) + seq!['\n'] + ind
                + seq![']']
        },
        Json::Obj(members) => if members.len() == 0 {
            seq!['{', '}']
        } else {
            seq!['{'] + spec_pretty_fields(members, ind + seq![' ', ' ']) + seq!['\n'] + ind
                + seq!['}']
        },
    }
}

/// The element lines of a non-empty array, each led by a newline and `ind`,
/// separated by commas.
pub open spec fn spec_pretty_items(items: Seq<Json>, ind: Seq<char>) -> Seq<char>
    decreases items, 1int,
{
    if items.len() == 0 {
        Seq::empty()
    } else if items.len() == 1 {
        seq!['\n'] + ind + spec_pretty(items[0], ind)
    } else {
        spec_pretty_items(items.subrange(0, items.len() - 1), ind) + seq![',', '\n'] + ind
            + spec_pretty(items[items.len() - 1], ind)
    }
}

/// The member lines of a non-empty object, each led by a newline, `ind` and
/// the quoted key, separated by commas.
pub open spec fn spec_pretty_fields(members: Seq<(Seq<char>, Json)>, ind: Seq<char>) -> Seq<char>
    decreases members, 1int,
{
    if members.len() == 0 {
        Seq::empty()
    } else if members.len() == 1 {
        seq!['\n'] + ind + seq!['"'] + members[0].0 + seq!['"', ':', ' '] + spec_pretty(
            members[0].1,
            ind,
        )
    } else {
        spec_pretty_fields(members.subrange(0, members.len() - 1), ind) + seq![',', '\n'] + ind
            + seq!['"'] + members[members.len() - 1].0 + seq!['"', ':', ' '] + spec_pretty(
            members[members.len() - 1].1,
            ind,
        )
    }
}

fn append_vec(out: &mut Vec<char>, src: &Vec<char>)
    ensures
        final(out)@ == old(out)@ + src@,
{
    let mut k: usize = 0;
    while k < src.len()
        invariant
            k <= src@.len(),
            out@ == old(out)@ + src@.subrange(0, k as int),
        decreases src@.len() - k,
    {
        out.push(src[k]);
        k = k + 1;
        proof {
            assert(out@ =~= old(out)@ + src@.subrange(0, k as int));
        }
    }
    proof {
        assert(out@ =~= old(out)@ + src@);
    }
}

fn write_pretty(v: &JsonValue, ind: &Vec<char>, out: &mut Vec<char>)
    ensures
        final(out)@ == old(out)@ + spec_pretty(view_json(*v), ind@),
    decreases v, 0int,
{
    let ghost base = out@;
    match v {
        JsonValue::Null => {
            out.push('n');
            out.push('u');
            out.push('l');
            out.push('l');
            proof {
                assert(out@ =~= base + spec_pretty(view_json(*v), ind@));
            }
        },
        JsonValue::Bool(b) => {
            if *b {
                out.push('t');
                out.push('r');
                out.push('u');
                out.push('e');
            } else {
                out.push('f');
                out.push('a');
                out.push('l');
                out.push('s');
                out.push('e');
            }
            proof {
                assert(out@ =~= base + spec_pretty(view_json(*v), ind@));
            }
        },
        JsonValue::Num(t) => {
            append_vec(out, t);
            proof {
                assert(out@ =~= base + spec_pretty(view_json(*v), ind@));
            }
        },
        JsonValue::Str(t) => {
            out.push('"');
            append_vec(out, t);
            out.push('"');
            proof {
                assert(out@ =~= base + spec_pretty(view_json(*v), ind@));
            }
        },
        JsonValue::Arr(items) => {
            if items.len() == 0 {
                out.push('[');
                out.push(']');
                proof {
                    assert(view_json_seq(items@) =~= Seq::<Json>::empty());
                    assert(out@ =~= base + spec_pretty(view_json(*v), ind@));
                }
            } else {
                proof {
                    lemma_view_json_seq_len(items@);
                    assert(decreases_to!(*v => (*v)->Arr_0));
                    assert((*v)->Arr_0 == *items);
                }
                out.push('[');
                write_pretty_items(items, ind, out);
                out.push('\n');
                append_vec(out, ind);
                out.push(']');
                proof {
                    assert(out@ =~= base + spec_pretty(view_json(*v), ind@));
                }
            }
        },
        JsonValue::Obj(members) => {
            if members.len() == 0 {
                out.push('{');
                out.push('}');
                proof {
                    assert(view_member_seq(members@) =~= Seq::<(Seq<char>, Json)>::empty());
                    assert(out@ =~= base + spec_pretty(view_json(*v), ind@));
                }
            } else {
                proof {
                    lemma_view_member_seq_len(members@);
                    assert(decreases_to!(*v => (*v)->Obj_0));
                    assert((*v)->Obj_0 == *members);
                }
                out.push('{');
                write_pretty_fields(members, ind, out);
                out.push('\n');
                append_vec(out, ind);
                out.push('}');
                proof {
                    assert(out@ =~= base + spec_pretty(view_json(*v), ind@));
                }
            }
        },
    }
}

#[verifier::loop_isolation(false)]
fn write_pretty_items(items: &Vec<JsonValue>, ind: &Vec<char>, out: &mut Vec<char>)
    ensures
        final(out)@ == old(out)@ + spec_pretty_items(view_json_seq(items@), ind@ + seq![' ', ' ']),
    decreases items, 1int,
{
    let ghost base = out@;
    let ghost vitems = view_json_seq(items@);
    proof {
        lemma_view_json_seq_len(items@);
    }
    let mut ind2 = copy_range(ind, 0, ind.len());
    ind2.push(' ');
    ind2.push(' ');
    proof {
        assert(ind@.subrange(0, ind@.len() as int) =~= ind@);
        assert(ind2@ =~= ind@ + seq![' ', ' ']);
    }
    let mut k: usize = 0;
    while k < items.len()
        invariant
            k <= items@.len(),
            out@ == base + spec_pretty_items(vitems.subrange(0, k as int), ind2@),
        decreases items@.len() - k,
    {
        if k > 0 {
            out.push(',');
        }
        out.push('\n');
        append_vec(out, &ind2);
        proof {
            assert(decreases_to!(*items => items@[k as int]));
        }
        write_pretty(&items[k], &ind2, out);
        proof {
            lemma_view_json_seq_index(items@, k as int);
            let taken = vitems.subrange(0, k + 1int);
            assert(taken.subrange(0, k as int) =~= vitems.subrange(0, k as int));
            assert(taken[k as int] == view_json(items@[k as int]));
            assert(out@ =~= base + spec_pretty_items(taken, ind2@));
        }
        k = k + 1;
    }
    proof {
        assert(vitems.subrange(0, vitems.len() as int) =~= vitems);
    }
}

#[verifier::loop_isolation(false)]
fn write_pretty_fields(members: &Vec<Member>, ind: &Vec<char>, out: &mut Vec<char>)
    ensures
        final(out)@ == old(out)@ + spec_pretty_fields(
            view_member_seq(members@),
            ind@ + seq![' ', ' '],
        ),
    decreases members, 1int,
{
    let ghost base = out@;
    let ghost vmembers = view_member_seq(members@);
    proof {
        lemma_view_member_seq_len(members@);
    }
    let mut ind2 = copy_range(ind, 0, ind.len());
    ind2.push(' ');
    ind2.push(' ');
    proof {
        assert(ind@.subrange(0, ind@.len() as int) =~= ind@);
        assert(ind2@ =~= ind@ + seq![' ', ' ']);
    }
    let mut k: usize = 0;
    while k < members.len()
        invariant
            k <= members@.len(),
            out@ == base + spec_pretty_fields(vmembers.subrange(0, k as int), ind2@),
        decreases members@.len() - k,
    {
        if k > 0 {
            out.push(',');
        }
        out.push('\n');
        append_vec(out, &ind2);
        out.push('"');
        append_vec(out, &members[k].key);
        out.push('"');
        out.push(':');
        out.push(' ');
        proof {
            assert(decreases_to!(*members => members@[k as int]));
            assert(decreases_to!(members@[k as int] => members@[k as int].value));
        }
        write_pretty(&members[k].value, &ind2, out);
        proof {
            lemma_view_member_seq_index(members@, k as int);
            let taken = vmembers.subrange(0, k + 1int);
            assert(taken.subrange(0, k as int) =~= vmembers.subrange(0, k as int));
            assert(taken[k as int] == (
                members@[k as int].key@,
                view_json(members@[k as int].value),
            ));
            assert(out@ =~= base + spec_pretty_fields(taken, ind2@));
        }
        k = k + 1;
    }
    proof {
        assert(vmembers.subrange(0, vmembers.len() as int) =~= vmembers);
    }
}

/// Pretty-print a value, starting at the left margin.
pub fn to_pretty(v: &JsonValue) -> (r: Vec<char>)
    ensures
        r@ == spec_pretty(view_json(*v), Seq::empty()),
{
    let ind: Vec<char> = Vec::new();
    let mut out: Vec<char> = Vec::new();
    write_pretty(v, &ind, &mut out);
    proof {
        assert(out@ =~= Seq::<char>::empty() + spec_pretty(view_json(*v), ind@));
    }
    out
}

/// The hexadecimal digit for `n`, which is below sixteen.
pub open spec fn hex_digit_char(n: u32) -> char {
    if n == 0 {
        '0'
    } else if n == 1 {
        '1'
    } else if n == 2 {
        '2'
    } else if n == 3 {
        '3'
    } else if n == 4 {
        '4'
    } else if n == 5 {
        '5'
    } else if n == 6 {
        '6'
    } else if n == 7 {
        '7'
    } else if n == 8 {
        '8'
    } else if n == 9 {
        '9'
    } else if n == 10 {
        'a'
    } else if n == 11 {
        'b'
    } else if n == 12 {
        'c'
    } else if n == 13 {
        'd'
    } else if n == 14 {
        'e'
    } else {
        'f'
    }
}

/// How one character is written inside a JSON string: quotes, backslashes and
/// control characters are escaped, everything else stands as itself.
pub open spec fn spec_escape_char(c: char) -> Seq<char> {
    if c == '"' {
        seq!['\\', '"']
    } else if c == '\\' {
        seq!['\\', '\\']
    } else if c == '\u{0008}' {
        seq!['\\', 'b']
    } else if c == '\u{000C}' {
        seq!['\\', 'f']
    } else if c == '\n' {
        seq!['\\', 'n']
    } else if c == '\r' {
        seq!['\\', 'r']
    } else if c == '\t' {
        seq!['\\', 't']
    } else if (c as u32) < 0x20 {
        seq!['\\', 'u', '0', '0', hex_digit_char((c as u32) / 16), hex_digit_char(
            (c as u32) % 16,
        )]
    } else {
        seq![c]
    }
}

/// A text written as the content of a JSON string, character by character.
pub open spec fn spec_escape(s: Seq<char>) -> Seq<char>
    decreases s.len(),
{
    if s.len() == 0 {
        Seq::empty()
    } else {
        spec_escape(s.subrange(0, s.len() - 1)) + spec_escape_char(s[s.len() - 1])
    }
}

fn hex_digit(n: u32) -> (c: char)
    requires
        n < 16,
    ensures
        c == hex_digit_char(n),
{
    if n == 0 {
        '0'
    } else if n == 1 {
        '1'
    } else if n == 2 {
        '2'
    } else if n == 3 {
        '3'
    } else if n == 4 {
        '4'
    } else if n == 5 {
        '5'
    } else if n == 6 {
        '6'
    } else if n == 7 {
        '7'
    } else if n == 8 {
        '8'
    } else if n == 9 {
        '9'
    } else if n == 10 {
        'a'
    } else if n == 11 {
        'b'
    } else if n == 12 {
        'c'
    } else if n == 13 {
        'd'
    } else if n == 14 {
        'e'
    } else {
        'f'
    }
}

/// Escape a text for use as the content of a JSON string.
pub fn escape_chars(s: &Vec<char>) -> (r: Vec<char>)
    ensures
        r@ == spec_escape(s@),
{
    let mut out: Vec<char> = Vec::new();
    let mut k: usize = 0;
    while k < s.len()
        invariant
            k <= s@.len(),
            out@ == spec_escape(s@.subrange(0, k as int)),
        decreases s@.len() - k,
    {
        let c = s[k];
        if c == '"' {
            out.push('\\');
            out.push('"');
        } else if c == '\\' {
            out.push('\\');
            out.push('\\');
        } else if c == '\u{0008}' {
            out.push('\\');
            out.push('b');
        } else if c == '\u{000C}' {
            out.push('\\');
            out.push('f');
        } else if c == '\n' {
            out.push('\\');
            out.push('n');
        } else if c == '\r' {
            out.push('\\');
            out.push('r');
        } else if c == '\t' {
            out.push('\\');
            out.push('t');
        } else if (c as u32) < 0x20 {
            out.push('\\');
            out.push('u');
            out.push('0');
            out.push('0');
            out.push(hex_digit((c as u32) / 16));
            out.push(hex_digit((c as u32) % 16));
        } else {
            out.push(c);
        }
        k = k + 1;
        proof {
            let taken = s@.subrange(0, k as int);
            assert(taken.subrange(0, taken.len() - 1) =~= s@.subrange(0, k - 1int));
            assert(taken[taken.len() - 1] == c);
            assert(out@ =~= spec_escape(taken));
        }
    }
    proof {
        assert(s@.subrange(0, s@.len() as int) =~= s@);
    }
    out
}

fn char_is_ws(c: char) -> (b: bool)
    ensures
        b == is_ws(c),
{
    c == ' ' || c == '\n' || c == '\r' || c == '\t'
}

fn char_is_digit(c: char) -> (b: bool)
    ensures
        b == is_digit(c),
{
    '0' <= c && c <= '9'
}

fn char_is_hex(c: char) -> (b: bool)
    ensures
        b == is_hex(c),
{
    ('0' <= c && c <= '9') || ('a' <= c && c <= 'f') || ('A' <= c && c <= 'F')
}

fn char_is_simple_escape(c: char) -> (b: bool)
    ensures
        b == is_simple_escape(c),
{
    c == '"' || c == '\\' || c == '/' || c == 'b' || c == 'f' || c == 'n' || c == 'r' || c == 't'
}

fn skip_ws(s: &Vec<char>, i: usize) -> (r: usize)
    requires
        i <= s@.len(),
    ensures
        r as int == spec_skip_ws(s@, i as int),
        i <= r <= s@.len(),
{
    let mut k = i;
    while k < s.len() && char_is_ws(s[k])
        invariant
            i <= k <= s@.len(),
            spec_skip_ws(s@, i as int) == spec_skip_ws(s@, k as int),
        decreases s@.len() - k,
    {
        k = k + 1;
    }
    k
}

fn skip_digits(s: &Vec<char>, i: usize) -> (r: usize)
    requires
        i <= s@.len(),
    ensures
        r as int == spec_skip_digits(s@, i as int),
        i <= r <= s@.len(),
{
    let mut k = i;
    while k < s.len() && char_is_digit(s[k])
        invariant
            i <= k <= s@.len(),
            spec_skip_digits(s@, i as int) == spec_skip_digits(s@, k as int),
        decreases s@.len() - k,
    {
        k = k + 1;
    }
    k
}

fn scan_string(s: &Vec<char>, i: usize) -> (r: Option<usize>)
    requires
        i <= s@.len(),
    ensures
        match r {
            Some(q) => spec_scan_string(s@, i as int) == Some(q as int) && i <= q < s@.len(),
            None => spec_scan_string(s@, i as int) is None,
        },
{
    let mut k = i;
    loop
        invariant
            i <= k <= s@.len(),
            spec_scan_string(s@, i as int) == spec_scan_string(s@, k as int),
        decreases s@.len() - k,
    {
        if k >= s.len() {
            return None;
        }
        let c = s[k];
        if c == '"' {
            return Some(k);
        } else if c == '\\' {
            if s.len() - k >= 2 && char_is_simple_escape(s[k + 1]) {
                k = k + 2;
            } else if s.len() - k >= 6 && s[k + 1] == 'u' && char_is_hex(s[k + 2]) && char_is_hex(
                s[k + 3],
            ) && char_is_hex(s[k + 4]) && char_is_hex(s[k + 5]) {
                k = k + 6;
            } else {
                return None;
            }
        } else if (c as u32) < 0x20 {
            return None;
        } else {
            k = k + 1;
        }
    }
}

fn scan_number(s: &Vec<char>, i: usize) -> (r: Option<usize>)
    requires
        i < s@.len(),
    ensures
        match r {
            Some(e) => spec_scan_number(s@, i as int) == Some(e as int) && i < e <= s@.len(),
            None => spec_scan_number(s@, i as int) is None,
        },
{
    let n = s.len();
    let j = if s[i] == '-' {
        i + 1
    } else {
        i
    };
    if j >= n || !char_is_digit(s[j]) {
        return None;
    }
    let k = if s[j] == '0' {
        j + 1
    } else {
        proof {
            lemma_skip_digits_bounds(s@, j as int);
        }
        skip_digits(s, j)
    };
    assert(j < k <= s@.len()) by {
        assert(spec_skip_digits(s@, j as int) == spec_skip_digits(s@, j + 1));
        lemma_skip_digits_bounds(s@, j + 1);
    }
    let m = if k < s.len() && s[k] == '.' {
        if k + 1 < s.len() && char_is_digit(s[k + 1]) {
            proof {
                lemma_skip_digits_bounds(s@, k + 1);
            }
            skip_digits(s, k + 1)
        } else {
            return None;
        }
    } else {
        k
    };
    let e = if m < s.len() && (s[m] == 'e' || s[m] == 'E') {
        let p = if m + 1 < s.len() && (s[m + 1] == '+' || s[m + 1] == '-') {
            m + 2
        } else {
            m + 1
        };
        if p < s.len() && char_is_digit(s[p]) {
            proof {
                lemma_skip_digits_bounds(s@, p as int);
            }
            skip_digits(s, p)
        } else {
            return None;
        }
    } else {
        m
    };
    Some(e)
}

/// A copy of a value, equal in shape.
#[verifier::loop_isolation(false)]
pub fn clone_json(v: &JsonValue) -> (r: JsonValue)
    ensures
        view_json(r) == view_json(*v),
    decreases v,
{
    match v {
        JsonValue::Null => JsonValue::Null,
        JsonValue::Bool(b) => JsonValue::Bool(*b),
        JsonValue::Num(t) => JsonValue::Num(copy_range(t, 0, t.len())),
        JsonValue::Str(t) => JsonValue::Str(copy_range(t, 0, t.len())),
        JsonValue::Arr(items) => {
            let mut out: Vec<JsonValue> = Vec::new();
            let mut k: usize = 0;
            proof {
                lemma_view_json_seq_len(items@);
            }
            while k < items.len()
                invariant
                    k <= items@.len(),
                    out@.len() == k,
                    view_json_seq(items@).len() == items@.len(),
                    view_json_seq(out@) =~= view_json_seq(items@).subrange(0, k as int),
                decreases items@.len() - k,
            {
                let ghost old_out = out@;
                proof {
                    assert(decreases_to!(*v => (*v)->Arr_0));
                    assert((*v)->Arr_0 == *items);
                    assert(decreases_to!(*items => items@[k as int]));
                    assert(decreases_to!(*v => items@[k as int]));
                }
                out.push(clone_json(&items[k]));
                proof {
                    lemma_view_json_seq_index(items@, k as int);
                    assert(out@.subrange(0, out@.len() - 1) =~= old_out);
                    assert(view_json_seq(out@) =~= view_json_seq(items@).subrange(0, k + 1int));
                }
                k = k + 1;
            }
            proof {
                lemma_view_json_seq_len(items@);
                assert(view_json_seq(items@).subrange(0, items@.len() as int) =~= view_json_seq(
                    items@,
                ));
            }
            JsonValue::Arr(out)
        },
        JsonValue::Obj(members) => {
            let mut out: Vec<Member> = Vec::new();
            let mut k: usize = 0;
            proof {
                lemma_view_member_seq_len(members@);
            }
            while k < members.len()
                invariant
                    k <= members@.len(),
                    out@.len() == k,
                    view_member_seq(members@).len() == members@.len(),
                    view_member_seq(out@) =~= view_member_seq(members@).subrange(0, k as int),
                decreases members@.len() - k,
            {
                let ghost old_out = out@;
                let m = &members[k];
                proof {
                    assert(decreases_to!(*v => (*v)->Obj_0));
                    assert((*v)->Obj_0 == *members);
                    assert(decreases_to!(*members => members@[k as int]));
                    assert(decreases_to!(members@[k as int] => members@[k as int].value));
                    assert(decreases_to!(*v => members@[k as int].value));
                }
                out.push(
                    Member {
                        key: copy_range(&m.key, 0, m.key.len()),
                        value: clone_json(&m.value),
                    },
                );
                proof {
                    assert(m.key@.subrange(0, m.key@.len() as int) =~= m.key@);
                    lemma_view_member_seq_index(members@, k as int);
                    assert(out@.subrange(0, out@.len() - 1) =~= old_out);
                    assert(view_member_seq(out@) =~= view_member_seq(members@).subrange(
                        0,
                        k + 1int,
                    ));
                }
                k = k + 1;
            }
            proof {
                assert(view_member_seq(members@).subrange(0, members@.len() as int)
                    =~= view_member_seq(members@));
            }
            JsonValue::Obj(out)
        },
    }
}

pub(crate) fn copy_range(s: &Vec<char>, a: usize, b: usize) -> (r: Vec<char>)
    requires
        a <= b <= s@.len(),
    ensures
        r@ == s@.subrange(a as int, b as int),
{
    let mut out: Vec<char> = Vec::new();
    let mut k = a;
    while k < b
        invariant
            a <= k <= b <= s@.len(),
            out@ == s@.subrange(a as int, k as int),
        decreases b - k,
    {
        out.push(s[k]);
        k = k + 1;
        proof {
            assert(out@ =~= s@.subrange(a as int, k as int));
        }
    }
    out
}

fn parse_value(s: &Vec<char>, i: usize, d: u32) -> (r: Option<(JsonValue, usize)>)
    requires
        i <= s@.len(),
    ensures
        match r {
            Some(p) => spec_parse_value(s@, i as int, d as nat) == Some(
                (view_json(p.0), p.1 as int),
            ) && i < p.1 <= s@.len(),
            None => spec_parse_value(s@, i as int, d as nat) is None,
        },
    decreases d, s@.len() - i, 0int,
{
    if i >= s.len() {
        return None;
    }
    let c = s[i];
    if c == 'n' {
        if s.len() - i >= 4 && s[i + 1] == 'u' && s[i + 2] == 'l' && s[i + 3] == 'l' {
            Some((JsonValue::Null, i + 4))
        } else {
            None
        }
    } else if c == 't' {
        if s.len() - i >= 4 && s[i + 1] == 'r' && s[i + 2] == 'u' && s[i + 3] == 'e' {
            Some((JsonValue::Bool(true), i + 4))
        } else {
            None
        }
    } else if c == 'f' {
        if s.len() - i >= 5 && s[i + 1] == 'a' && s[i + 2] == 'l' && s[i + 3] == 's' && s[i + 4]
            == 'e' {
            Some((JsonValue::Bool(false), i + 5))
        } else {
            None
        }
    } else if c == '"' {
        match scan_string(s, i + 1) {
            Some(q) => {
                let content = copy_range(s, i + 1, q);
                Some((JsonValue::Str(content), q + 1))
            },
            None => None,
        }
    } else if c == '-' || char_is_digit(c) {
        match scan_number(s, i) {
            Some(e) => {
                let token = copy_range(s, i, e);
                Some((JsonValue::Num(token), e))
            },
            None => None,
        }
    } else if c == '[' {
        if d == 0 {
            None
        } else {
            match parse_array(s, i + 1, d - 1) {
                Some(p) => Some((JsonValue::Arr(p.0), p.1)),
                None => None,
            }
        }
    } else if c == '{' {
        if d == 0 {
            None
        } else {
            match parse_object(s, i + 1, d - 1) {
                Some(p) => Some((JsonValue::Obj(p.0), p.1)),
                None => None,
            }
        }
    } else {
        None
    }
}

fn parse_array(s: &Vec<char>, i: usize, d: u32) -> (r: Option<(Vec<JsonValue>, usize)>)
    requires
        i <= s@.len(),
    ensures
        match r {
            Some(p) => spec_parse_array(s@, i as int, d as nat) == Some(
                (view_json_seq(p.0@), p.1 as int),
            ) && i < p.1 <= s@.len(),
            None => spec_parse_array(s@, i as int, d as nat) is None,
        },
    decreases d, s@.len() - i, 2int,
{
    let q = skip_ws(s, i);
    if q < s.len() && s[q] == ']' {
        let items: Vec<JsonValue> = Vec::new();
        assert(view_json_seq(items@) =~= Seq::<Json>::empty());
        Some((items, q + 1))
    } else {
        parse_items(s, i, d)
    }
}

/// What parsing the remaining elements adds to an already parsed prefix.
spec fn items_step(s: Seq<char>, i: int, d: nat, prefix: Seq<Json>) -> Option<(Seq<Json>, int)> {
    match spec_parse_items(s, i, d) {
        Some((rest, k)) => Some((prefix + rest, k)),
        None => None,
    }
}

fn parse_items(s: &Vec<char>, i: usize, d: u32) -> (r: Option<(Vec<JsonValue>, usize)>)
    requires
        i <= s@.len(),
    ensures
        match r {
            Some(p) => spec_parse_items(s@, i as int, d as nat) == Some(
                (view_json_seq(p.0@), p.1 as int),
            ) && i < p.1 <= s@.len(),
            None => spec_parse_items(s@, i as int, d as nat) is None,
        },
    decreases d, s@.len() - i, 1int,
{
    let mut acc: Vec<JsonValue> = Vec::new();
    let mut pos = i;
    loop
        invariant
            i <= pos <= s@.len(),
            spec_parse_items(s@, i as int, d as nat) == items_step(
                s@,
                pos as int,
                d as nat,
                view_json_seq(acc@),
            ),
        decreases s@.len() - pos,
    {
        let q = skip_ws(s, pos);
        let parsed = parse_value(s, q, d);
        match parsed {
            None => {
                return None;
            },
            Some(vj) => {
                let v = vj.0;
                let j = vj.1;
                let r2 = skip_ws(s, j);
                if r2 >= s.len() {
                    return None;
                }
                let t = s[r2];
                proof {
                    let ghost va = view_json(v);
                    assert(spec_parse_items(s@, pos as int, d as nat) == (if t == ']' {
                        Some((seq![va], r2 + 1int))
                    } else if t == ',' && r2 + 1 > pos {
                        match spec_parse_items(s@, r2 + 1, d as nat) {
                            Some((rest, k)) => Some((seq![va] + rest, k)),
                            None => None,
                        }
                    } else {
                        None
                    }));
                }
                if t == ']' {
                    let ghost old_acc = acc@;
                    acc.push(v);
                    proof {
                        assert(acc@.subrange(0, acc@.len() - 1) =~= old_acc);
                        assert(view_json_seq(acc@) =~= view_json_seq(old_acc).push(
                            view_json(acc@[acc@.len() - 1]),
                        ));
                        assert(view_json_seq(old_acc) + seq![view_json(v)] =~= view_json_seq(
                            acc@,
                        ));
                    }
                    return Some((acc, r2 + 1));
                } else if t == ',' {
                    let ghost old_acc = acc@;
                    acc.push(v);
                    proof {
                        assert(acc@.subrange(0, acc@.len() - 1) =~= old_acc);
                        assert(view_json_seq(old_acc) + seq![view_json(v)] =~= view_json_seq(
                            acc@,
                        ));
                        assert forall|rest: Seq<Json>|
                            view_json_seq(old_acc) + (seq![view_json(v)] + rest) =~= view_json_seq(
                                acc@,
                            ) + rest by {}
                    }
                    pos = r2 + 1;
                } else {
                    return None;
                }
            },
        }
    }
}

fn parse_object(s: &Vec<char>, i: usize, d: u32) -> (r: Option<(Vec<Member>, usize)>)
    requires
        i <= s@.len(),
    ensures
        match r {
            Some(p) => spec_parse_object(s@, i as int, d as nat) == Some(
                (view_member_seq(p.0@), p.1 as int),
            ) && i < p.1 <= s@.len(),
            None => spec_parse_object(s@, i as int, d as nat) is None,
        },
    decreases d, s@.len() - i, 2int,
{
    let q = skip_ws(s, i);
    if q < s.len() && s[q] == '}' {
        let members: Vec<Member> = Vec::new();
        assert(view_member_seq(members@) =~= Seq::<(Seq<char>, Json)>::empty());
        Some((members, q + 1))
    } else {
        parse_fields(s, i, d)
    }
}

/// What parsing the remaining members adds to an already parsed prefix.
spec fn fields_step(s: Seq<char>, i: int, d: nat, prefix: Seq<(Seq<char>, Json)>) -> Option<
    (Seq<(Seq<char>, Json)>, int),
> {
    match spec_parse_fields(s, i, d) {
        Some((rest, k)) => Some((prefix + rest, k)),
        None => None,
    }
}

fn parse_fields(s: &Vec<char>, i: usize, d: u32) -> (r: Option<(Vec<Member>, usize)>)
    requires
        i <= s@.len(),
    ensures
        match r {
            Some(p) => spec_parse_fields(s@, i as int, d as nat) == Some(
                (view_member_seq(p.0@), p.1 as int),
            ) && i < p.1 <= s@.len(),
            None => spec_parse_fields(s@, i as int, d as nat) is None,
        },
    decreases d, s@.len() - i, 1int,
{
    let mut acc: Vec<Member> = Vec::new();
    let mut pos = i;
    loop
        invariant
            i <= pos <= s@.len(),
            spec_parse_fields(s@, i as int, d as nat) == fields_step(
                s@,
                pos as int,
                d as nat,
                view_member_seq(acc@),
            ),
        decreases s@.len() - pos,
    {
        let q = skip_ws(s, pos);
        if q >= s.len() || s[q] != '"' {
            return None;
        }
        match scan_string(s, q + 1) {
            None => {
                return None;
            },
            Some(endq) => {
                let key = copy_range(s, q + 1, endq);
                let c = skip_ws(s, endq + 1);
                if c >= s.len() || s[c] != ':' {
                    return None;
                }
                let w = skip_ws(s, c + 1);
                let parsed = parse_value(s, w, d);
                match parsed {
                    None => {
                        return None;
                    },
                    Some(vj) => {
                        let v = vj.0;
                        let j = vj.1;
                        let r2 = skip_ws(s, j);
                        if r2 >= s.len() {
                            return None;
                        }
                        let t = s[r2];
                        proof {
                            let ghost ks = s@.subrange(q as int + 1, endq as int);
                            let ghost va = view_json(v);
                            assert(spec_parse_fields(s@, pos as int, d as nat) == (if t == '}' {
                                Some((seq![(ks, va)], r2 + 1int))
                            } else if t == ',' && r2 + 1 > pos {
                                match spec_parse_fields(s@, r2 + 1, d as nat) {
                                    Some((rest, k)) => Some((seq![(ks, va)] + rest, k)),
                                    None => None,
                                }
                            } else {
                                None
                            }));
                        }
                        let m = Member { key, value: v };
                        if t == '}' {
                            let ghost old_acc = acc@;
                            let ghost pair = (m.key@, view_json(m.value));
                            acc.push(m);
                            proof {
                                assert(acc@.subrange(0, acc@.len() - 1) =~= old_acc);
                                assert(view_member_seq(old_acc) + seq![pair] =~= view_member_seq(
                                    acc@,
                                ));
                            }
                            return Some((acc, r2 + 1));
                        } else if t == ',' {
                            let ghost old_acc = acc@;
                            let ghost pair = (m.key@, view_json(m.value));
                            acc.push(m);
                            proof {
                                assert(acc@.subrange(0, acc@.len() - 1) =~= old_acc);
                                assert(view_member_seq(old_acc) + seq![pair] =~= view_member_seq(
                                    acc@,
                                ));
                                assert forall|rest: Seq<(Seq<char>, Json)>|
                                    view_member_seq(old_acc) + (seq![pair] + rest)
                                        =~= view_member_seq(acc@) + rest by {}
                            }
                            pos = r2 + 1;
                        } else {
                            return None;
                        }
                    },
                }
            },
        }
    }
}

/// Parse a whole JSON document; `None` if the text is not one valid value
/// with nothing but whitespace around it.
pub fn parse_json(s: &Vec<char>) -> (r: Option<JsonValue>)
    ensures
        match r {
            Some(v) => spec_parse_text(s@) == Some(view_json(v)),
            None => spec_parse_text(s@) is None,
        },
{
    let q = skip_ws(s, 0);
    match parse_value(s, q, JSON_MAX_DEPTH) {
        Some(vj) => {
            let t = skip_ws(s, vj.1);
            if t == s.len() {
                Some(vj.0)
            } else {
                None
            }
        },
        None => None,
    }
}

/// A well-formed number token: scanning it consumes it whole.
pub open spec fn wf_num_token(t: Seq<char>) -> bool {
    t.len() > 0 && spec_scan_number(t, 0) == Some(t.len() as int)
}

/// Well-formed string content: scanning it, with the closing quote behind
/// it, stops exactly at that quote.
pub open spec fn wf_str_content(t: Seq<char>) -> bool {
    spec_scan_string(t + seq!['"'], 0) == Some(t.len() as int)
}

/// Scanning a string is unchanged by what stands before its start.
proof fn lemma_scan_string_offset(a: Seq<char>, s: Seq<char>, i: int)
    requires
        0 <= i,
    ensures
        spec_scan_string(a + s, a.len() + i) == (match spec_scan_string(s, i) {
            Some(q) => Some(a.len() + q),
            None => None,
        }),
    decreases s.len() - i,
{
    let w = a + s;
    assert(w.len() == a.len() + s.len());
    if i >= s.len() {
    } else {
        assert(w[a.len() + i] == s[i]);
        if s[i] == '"' {
        } else if s[i] == '\\' {
            if i + 2 <= s.len() && is_simple_escape(s[i + 1]) {
                assert(w[a.len() + i + 1] == s[i + 1]);
                lemma_scan_string_offset(a, s, i + 2);
            } else if i + 6 <= s.len() && s[i + 1] == 'u' && is_hex(s[i + 2]) && is_hex(s[i + 3])
                && is_hex(s[i + 4]) && is_hex(s[i + 5]) {
                assert(w[a.len() + i + 1] == s[i + 1]);
                assert(w[a.len() + i + 2] == s[i + 2]);
                assert(w[a.len() + i + 3] == s[i + 3]);
                assert(w[a.len() + i + 4] == s[i + 4]);
                assert(w[a.len() + i + 5] == s[i + 5]);
                lemma_scan_string_offset(a, s, i + 6);
            } else {
                if i + 1 < s.len() {
                    assert(w[a.len() + i + 1] == s[i + 1]);
                }
            }
        } else {
            lemma_scan_string_offset(a, s, i + 1);
        }
    }
}

/// The escaped form of a text, taken apart at its first character.
proof fn lemma_escape_head(s: Seq<char>)
    requires
        s.len() > 0,
    ensures
        spec_escape(s) == spec_escape_char(s[0]) + spec_escape(s.subrange(1, s.len() as int)),
    decreases s.len(),
{
    if s.len() == 1 {
        assert(s.subrange(0, 0) =~= Seq::<char>::empty());
        assert(s.subrange(1, 1) =~= Seq::<char>::empty());
        assert(spec_escape_char(s[0]) + spec_escape(s.subrange(1, 1)) =~= spec_escape_char(
            s[0],
        ));
    } else {
        let fore = s.subrange(0, s.len() - 1);
        lemma_escape_head(fore);
        let tail = s.subrange(1, s.len() as int);
        assert(fore[0] == s[0]);
        assert(fore.subrange(1, fore.len() as int) =~= tail.subrange(0, tail.len() - 1));
        assert(tail[tail.len() - 1] == s[s.len() - 1]);
        assert(spec_escape_char(s[0]) + (spec_escape(tail.subrange(0, tail.len() - 1))
            + spec_escape_char(tail[tail.len() - 1])) =~= (spec_escape_char(s[0]) + spec_escape(
            tail.subrange(0, tail.len() - 1),
        )) + spec_escape_char(tail[tail.len() - 1]));
    }
}

/// Escaping any text yields well-formed string content: scanned as the
/// inside of a JSON string, it runs exactly to the closing quote.
pub proof fn lemma_escape_wf(s: Seq<char>)
    ensures
        wf_str_content(spec_escape(s)),
    decreases s.len(),
{
    if s.len() == 0 {
        assert(spec_escape(s) + seq!['"'] =~= seq!['"']);
    } else {
        let c = s[0];
        let rest = s.subrange(1, s.len() as int);
        lemma_escape_head(s);
        lemma_escape_wf(rest);
        let chunk = spec_escape_char(c);
        let tail = spec_escape(rest) + seq!['"'];
        let w = spec_escape(s) + seq!['"'];
        assert(w =~= chunk + tail);
        lemma_scan_string_offset(chunk, tail, 0);
        if c == '"' || c == '\\' || c == '\u{0008}' || c == '\u{000C}' || c == '\n' || c == '\r'
            || c == '\t' {
            assert(w[0] == '\\' && is_simple_escape(w[1]));
            assert(spec_scan_string(w, 0) == spec_scan_string(w, 2));
        } else if (c as u32) < 0x20 {
            assert(w[0] == '\\' && w[1] == 'u' && w[2] == '0' && w[3] == '0');
            assert(is_hex(hex_digit_char((c as u32) / 16)));
            assert(is_hex(hex_digit_char((c as u32) % 16)));
            assert(!is_simple_escape('u'));
            assert(spec_scan_string(w, 0) == spec_scan_string(w, 6));
        } else {
            assert(w[0] == c && c != '"' && c != '\\' && (c as u32) >= 0x20);
            assert(spec_scan_string(w, 0) == spec_scan_string(w, 1));
        }
    }
}

/// Printing a null, boolean, number or string value and parsing the text
/// back yields the value again: the scalar half of the print-parse round
/// trip.
pub proof fn lemma_pretty_parse_scalar(j: Json, ind: Seq<char>)
    requires
        match j {
            Json::Null => true,
            Json::Bool(_) => true,
            Json::Num(t) => wf_num_token(t),
            Json::Str(t) => wf_str_content(t),
            Json::Arr(_) => false,
            Json::Obj(_) => false,
        },
    ensures
        spec_parse_text(spec_pretty(j, ind)) == Some(j),
{
    match j {
        Json::Null => {
            let s = spec_pretty(j, ind);
            assert(spec_skip_ws(s, 0) == 0);
            assert(spec_parse_value(s, 0, JSON_MAX_DEPTH as nat) == Some((Json::Null, 4int)));
            assert(spec_skip_ws(s, 4) == 4);
        },
        Json::Bool(b) => {
            let s = spec_pretty(j, ind);
            assert(spec_skip_ws(s, 0) == 0);
            if b {
                assert(spec_parse_value(s, 0, JSON_MAX_DEPTH as nat) == Some(
                    (Json::Bool(true), 4int),
                ));
                assert(spec_skip_ws(s, 4) == 4);
            } else {
                assert(spec_parse_value(s, 0, JSON_MAX_DEPTH as nat) == Some(
                    (Json::Bool(false), 5int),
                ));
                assert(spec_skip_ws(s, 5) == 5);
            }
        },
        Json::Num(t) => {
            let s = spec_pretty(j, ind);
            assert(s == t);
            let j0: int = if t[0] == '-' {
                1
            } else {
                0
            };
            assert(j0 < t.len() && is_digit(t[j0]));
            assert(!is_ws(t[0]));
            assert(spec_skip_ws(s, 0) == 0);
            assert(spec_parse_value(s, 0, JSON_MAX_DEPTH as nat) == Some(
                (Json::Num(t.subrange(0, t.len() as int)), t.len() as int),
            ));
            assert(t.subrange(0, t.len() as int) =~= t);
            assert(spec_skip_ws(s, t.len() as int) == t.len() as int);
        },
        Json::Str(t) => {
            let s = spec_pretty(j, ind);
            assert(s =~= seq!['"'] + (t + seq!['"']));
            assert(spec_skip_ws(s, 0) == 0);
            lemma_scan_string_offset(seq!['"'], t + seq!['"'], 0);
            assert(spec_scan_string(s, 1) == Some(1 + t.len() as int));
            assert(s.subrange(1, 1 + t.len() as int) =~= t);
            assert(spec_parse_value(s, 0, JSON_MAX_DEPTH as nat) == Some(
                (Json::Str(t), 2 + t.len() as int),
            ));
            assert(spec_skip_ws(s, 2 + t.len() as int) == s.len() as int);
        },
        Json::Arr(_) => {
        },
        Json::Obj(_) => {
        },
    }
}

} // verus!

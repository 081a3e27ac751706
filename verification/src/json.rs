//! The JSON subset of the wire format: tree, printer and parser.
//!
//! The tree covers objects, arrays, strings, integers, booleans and
//! `null` — everything of JSON except floats, which the wire format never
//! carries. The printer emits canonical text (no
//! whitespace, minimal escapes); the parser accepts interspersed
//! whitespace and the standard escapes. Parsing inverts printing:
//! [`lemma_parse_print`] proves that the printed form of any well-formed
//! tree parses back to exactly that tree.

use vstd::prelude::*;
use crate::text::{dec_digits, dec_value, is_dec_digit, is_space, u128_to_dec_chars};

verus! {

/// Mathematical view of a [`Json`] tree.
pub enum JsonV {
    Null,
    Bool(bool),
    Str(Seq<char>),
    Int(int),
    Arr(Seq<JsonV>),
    Obj(Seq<(Seq<char>, JsonV)>),
}

/// A JSON value of the wire format's subset. Strings are kept as decoded
/// character vectors; object members keep their order.
#[derive(Debug, PartialEq, Eq)]
pub enum Json {
    Null,
    Bool(bool),
    Str(Vec<char>),
    Int(i128),
    Arr(Vec<Json>),
    Obj(Vec<(Vec<char>, Json)>),
}

/// The view of a sequence of values, element by element.
pub open spec fn json_views(items: Seq<Json>, i: int) -> Seq<JsonV>
    decreases items, items.len() - i, 0int,
{
    if i < 0 || i >= items.len() {
        Seq::empty()
    } else {
        seq![json_view(items[i])] + json_views(items, i + 1)
    }
}

/// The view of a sequence of members, element by element.
pub open spec fn member_views(fields: Seq<(Vec<char>, Json)>, i: int) -> Seq<(Seq<char>, JsonV)>
    decreases fields, fields.len() - i, 0int,
{
    if i < 0 || i >= fields.len() {
        Seq::empty()
    } else {
        seq![(fields[i].0@, json_view(fields[i].1))] + member_views(fields, i + 1)
    }
}

/// The view of a JSON tree.
pub open spec fn json_view(j: Json) -> JsonV
    decreases j, 0int, 0int,
{
    match j {
        Json::Null => JsonV::Null,
        Json::Bool(b) => JsonV::Bool(b),
        Json::Str(s) => JsonV::Str(s@),
        Json::Int(i) => JsonV::Int(i as int),
        Json::Arr(items) => JsonV::Arr(json_views(items@, 0)),
        Json::Obj(fields) => JsonV::Obj(member_views(fields@, 0)),
    }
}

impl View for Json {
    type V = JsonV;

    open spec fn view(&self) -> JsonV {
        json_view(*self)
    }
}

impl DeepView for Json {
    type V = JsonV;

    open spec fn deep_view(&self) -> JsonV {
        self.view()
    }
}

/// Element views index pointwise into the underlying sequence.
pub proof fn lemma_json_views_index(items: Seq<Json>, i: int)
    requires
        0 <= i <= items.len(),
    ensures
        json_views(items, i).len() == items.len() - i,
        forall|k: int|
            i <= k < items.len() ==> json_views(items, i)[k - i] == json_view(#[trigger] items[k]),
    decreases items.len() - i,
{
    if i < items.len() {
        lemma_json_views_index(items, i + 1);
    }
}

/// Member views index pointwise into the underlying sequence.
pub proof fn lemma_member_views_index(fields: Seq<(Vec<char>, Json)>, i: int)
    requires
        0 <= i <= fields.len(),
    ensures
        member_views(fields, i).len() == fields.len() - i,
        forall|k: int|
            i <= k < fields.len() ==> member_views(fields, i)[k - i] == ((#[trigger] fields[k]).0@,
            json_view(fields[k].1)),
    decreases fields.len() - i,
{
    if i < fields.len() {
        lemma_member_views_index(fields, i + 1);
    }
}

/// Well-formedness of integers: representable in the library's integer
/// type.
pub open spec fn wf_int(i: int) -> bool {
    i128::MIN <= i <= i128::MAX
}

/// Well-formedness of a sequence of values, element by element.
pub open spec fn wf_jsons(items: Seq<JsonV>, i: int) -> bool
    decreases items, items.len() - i, 0int,
{
    if i < 0 || i >= items.len() {
        true
    } else {
        wf_json(items[i]) && wf_jsons(items, i + 1)
    }
}

/// Well-formedness of a sequence of members, element by element.
pub open spec fn wf_members(fields: Seq<(Seq<char>, JsonV)>, i: int) -> bool
    decreases fields, fields.len() - i, 0int,
{
    if i < 0 || i >= fields.len() {
        true
    } else {
        wf_json(fields[i].1) && wf_members(fields, i + 1)
    }
}

/// Well-formedness of a tree: every integer in it is representable.
pub open spec fn wf_json(v: JsonV) -> bool
    decreases v, 0int, 0int,
{
    match v {
        JsonV::Null => true,
        JsonV::Bool(_) => true,
        JsonV::Str(_) => true,
        JsonV::Int(i) => wf_int(i),
        JsonV::Arr(items) => wf_jsons(items, 0),
        JsonV::Obj(fields) => wf_members(fields, 0),
    }
}

pub proof fn lemma_wf_jsons_index(items: Seq<JsonV>, i: int)
    requires
        0 <= i <= items.len(),
        wf_jsons(items, i),
    ensures
        forall|k: int| i <= k < items.len() ==> wf_json(#[trigger] items[k]),
    decreases items.len() - i,
{
    if i < items.len() {
        lemma_wf_jsons_index(items, i + 1);
    }
}

pub proof fn lemma_wf_members_index(fields: Seq<(Seq<char>, JsonV)>, i: int)
    requires
        0 <= i <= fields.len(),
        wf_members(fields, i),
    ensures
        forall|k: int| i <= k < fields.len() ==> wf_json((#[trigger] fields[k]).1),
    decreases fields.len() - i,
{
    if i < fields.len() {
        lemma_wf_members_index(fields, i + 1);
    }
}

/// The hexadecimal digit character for a value below sixteen.
pub open spec fn hex_digit(d: int) -> char {
    if d == 0 { '0' }
    else if d == 1 { '1' }
    else if d == 2 { '2' }
    else if d == 3 { '3' }
    else if d == 4 { '4' }
    else if d == 5 { '5' }
    else if d == 6 { '6' }
    else if d == 7 { '7' }
    else if d == 8 { '8' }
    else if d == 9 { '9' }
    else if d == 10 { 'a' }
    else if d == 11 { 'b' }
    else if d == 12 { 'c' }
    else if d == 13 { 'd' }
    else if d == 14 { 'e' }
    else { 'f' }
}

pub open spec fn is_hex_digit(c: char) -> bool {
    ||| 48 <= (c as u32) && (c as u32) <= 57
    ||| 97 <= (c as u32) && (c as u32) <= 102
    ||| 65 <= (c as u32) && (c as u32) <= 70
}

/// The value of a hexadecimal digit character.
pub open spec fn hex_val(c: char) -> int {
    if 48 <= (c as u32) && (c as u32) <= 57 {
        (c as u32) - 48
    } else if 97 <= (c as u32) && (c as u32) <= 102 {
        (c as u32) - 87
    } else {
        (c as u32) - 55
    }
}

/// How one character is written inside a string literal: the two-character
/// escapes for quote, backslash and the common controls, `\u00XX` for the
/// other control characters, and the character itself otherwise.
pub open spec fn escape_char(c: char) -> Seq<char> {
    if c == '"' {
        seq!['\\', '"']
    } else if c == '\\' {
        seq!['\\', '\\']
    } else if c == '\n' {
        seq!['\\', 'n']
    } else if c == '\r' {
        seq!['\\', 'r']
    } else if c == '\t' {
        seq!['\\', 't']
    } else if (c as u32) < 32 {
        seq!['\\', 'u', '0', '0', hex_digit(((c as u32) / 16) as int), hex_digit(
            ((c as u32) % 16) as int,
        )]
    } else {
        seq![c]
    }
}

/// A string's characters written in order.
pub open spec fn escape_str(s: Seq<char>) -> Seq<char>
    decreases s.len(),
{
    if s.len() == 0 {
        Seq::empty()
    } else {
        escape_char(s.first()) + escape_str(s.drop_first())
    }
}

/// The canonical printed form of a tree: no whitespace, minimal escapes.
pub open spec fn print_spec(v: JsonV) -> Seq<char>
    decreases v, 0int, 0int,
{
    match v {
        JsonV::Null => seq!['n', 'u', 'l', 'l'],
        JsonV::Bool(b) => if b {
            seq!['t', 'r', 'u', 'e']
        } else {
            seq!['f', 'a', 'l', 's', 'e']
        },
        JsonV::Str(s) => seq!['"'] + escape_str(s) + seq!['"'],
        JsonV::Int(i) => if i >= 0 {
            dec_digits(i as nat)
        } else {
            seq!['-'] + dec_digits((-i) as nat)
        },
        JsonV::Arr(items) => seq!['['] + print_items(items, 0) + seq![']'],
        JsonV::Obj(fields) => seq!['{'] + print_members(fields, 0) + seq!['}'],
    }
}

/// The printed elements from index `i` on, comma-separated.
pub open spec fn print_items(items: Seq<JsonV>, i: int) -> Seq<char>
    decreases items, items.len() - i, 1int,
{
    if i < 0 || i >= items.len() {
        Seq::empty()
    } else {
        print_spec(items[i]) + (if i + 1 < items.len() {
            seq![',']
        } else {
            Seq::empty()
        }) + print_items(items, i + 1)
    }
}

/// The printed members from index `i` on, comma-separated.
pub open spec fn print_members(fields: Seq<(Seq<char>, JsonV)>, i: int) -> Seq<char>
    decreases fields, fields.len() - i, 1int,
{
    if i < 0 || i >= fields.len() {
        Seq::empty()
    } else {
        seq!['"'] + escape_str(fields[i].0) + seq!['"', ':'] + print_spec(fields[i].1) + (if i + 1
            < fields.len() {
            seq![',']
        } else {
            Seq::empty()
        }) + print_members(fields, i + 1)
    }
}

fn hex_digit_exec(d: u32) -> (c: char)
    requires
        d < 16,
    ensures
        c == hex_digit(d as int),
{
    if d == 0 { '0' }
    else if d == 1 { '1' }
    else if d == 2 { '2' }
    else if d == 3 { '3' }
    else if d == 4 { '4' }
    else if d == 5 { '5' }
    else if d == 6 { '6' }
    else if d == 7 { '7' }
    else if d == 8 { '8' }
    else if d == 9 { '9' }
    else if d == 10 { 'a' }
    else if d == 11 { 'b' }
    else if d == 12 { 'c' }
    else if d == 13 { 'd' }
    else if d == 14 { 'e' }
    else { 'f' }
}

/// Append one character's written form.
fn write_escaped_char(c: char, out: &mut Vec<char>)
    ensures
        final(out)@ == old(out)@ + escape_char(c),
{
    let ghost base = out@;
    if c == '"' {
        out.push('\\');
        out.push('"');
    } else if c == '\\' {
        out.push('\\');
        out.push('\\');
    } else if c == '\n' {
        out.push('\\');
        out.push('n');
    } else if c == '\r' {
        out.push('\\');
        out.push('r');
    } else if c == '\t' {
        out.push('\\');
        out.push('t');
    } else if (c as u32) < 32 {
        let u = c as u32;
        out.push('\\');
        out.push('u');
        out.push('0');
        out.push('0');
        out.push(hex_digit_exec(u / 16));
        out.push(hex_digit_exec(u % 16));
    } else {
        out.push(c);
    }
    proof {
        assert(out@ =~= base + escape_char(c));
    }
}

/// Append a string literal's body, character by character.
fn write_escaped(s: &Vec<char>, out: &mut Vec<char>)
    ensures
        final(out)@ == old(out)@ + escape_str(s@),
{
    let ghost base = out@;
    let mut i: usize = 0;
    proof {
        assert(s@.subrange(0, s@.len() as int) =~= s@);
    }
    while i < s.len()
        invariant
            0 <= i <= s@.len(),
            out@ + escape_str(s@.subrange(i as int, s@.len() as int)) == base + escape_str(s@),
        decreases s@.len() - i,
    {
        let ghost rest = s@.subrange(i as int, s@.len() as int);
        proof {
            assert(rest.first() == s@[i as int]);
            assert(rest.drop_first() =~= s@.subrange(i + 1, s@.len() as int));
        }
        let ghost before = out@;
        write_escaped_char(s[i], out);
        proof {
            assert(out@ + escape_str(s@.subrange(i + 1, s@.len() as int)) =~= before + escape_str(
                rest,
            ));
        }
        i = i + 1;
    }
    proof {
        assert(s@.subrange(s@.len() as int, s@.len() as int) =~= Seq::<char>::empty());
        assert(out@ =~= out@ + escape_str(s@.subrange(s@.len() as int, s@.len() as int)));
    }
}

/// Append the canonical printed form of a tree.
pub fn write_json(j: &Json, out: &mut Vec<char>)
    ensures
        final(out)@ == old(out)@ + print_spec(j@),
    decreases *j,
{
    let ghost base = out@;
    match j {
        Json::Null => {
            out.push('n');
            out.push('u');
            out.push('l');
            out.push('l');
            proof {
                assert(out@ =~= base + print_spec(j@));
            }
        },
        Json::Bool(b) => {
            if *b {
                out.push('t');
                out.push('r');
                out.push('u');
                out.push('e');
            } else {
                out.push('f');
                out.push('a');
                out.push('l');
                out.push('s');
                out.push('e');
            }
            proof {
                assert(out@ =~= base + print_spec(j@));
            }
        },
        Json::Str(s) => {
            out.push('"');
            write_escaped(s, out);
            out.push('"');
            proof {
                assert(out@ =~= base + print_spec(j@));
            }
        },
        Json::Int(i) => {
            let n = *i;
            if n >= 0 {
                let mut digits = u128_to_dec_chars(n as u128);
                out.append(&mut digits);
                proof {
                    assert(out@ =~= base + print_spec(j@));
                }
            } else {
                out.push('-');
                let mag: u128 = ((-(n + 1)) as u128) + 1;
                proof {
                    assert(mag as nat == (-(n as int)) as nat);
                }
                let mut digits = u128_to_dec_chars(mag);
                out.append(&mut digits);
                proof {
                    assert(out@ =~= base + print_spec(j@));
                }
            }
        },
        Json::Arr(items) => {
            let ghost iv = json_views(items@, 0);
            proof {
                lemma_json_views_index(items@, 0);
            }
            out.push('[');
            let mut i: usize = 0;
            while i < items.len()
                invariant
                    0 <= i <= items@.len(),
                    iv == json_views(items@, 0),
                    iv.len() == items@.len(),
                    forall|k: int|
                        0 <= k < items@.len() ==> iv[k] == json_view(#[trigger] items@[k]),
                    out@ + print_items(iv, i as int) == base + seq!['['] + print_items(iv, 0),
                    *j == Json::Arr(*items),
                decreases items@.len() - i,
            {
                let ghost before = out@;
                proof {
                    assert(decreases_to!(*j => (*j)->Arr_0));
                    assert(decreases_to!((*j)->Arr_0 => ((*j)->Arr_0)@));
                    assert(decreases_to!(((*j)->Arr_0)@ => ((*j)->Arr_0)@[i as int]));
                    assert(((*j)->Arr_0)@[i as int] == items@[i as int]);
                    assert(decreases_to!(*j => items@[i as int]));
                }
                write_json(&items[i], out);
                if i + 1 < items.len() {
                    out.push(',');
                }
                proof {
                    assert(print_items(iv, i as int) == print_spec(iv[i as int]) + (if i + 1 < iv.len() {
                        seq![',']
                    } else {
                        Seq::<char>::empty()
                    }) + print_items(iv, i + 1));
                    assert(out@ + print_items(iv, i + 1) =~= before + print_items(iv, i as int));
                }
                i = i + 1;
            }
            out.push(']');
            proof {
                assert(print_items(iv, items@.len() as int) == Seq::<char>::empty());
                assert(out@ =~= base + (seq!['['] + print_items(iv, 0) + seq![']']));
                assert(print_spec(j@) == seq!['['] + print_items(iv, 0) + seq![']']);
            }
        },
        Json::Obj(fields) => {
            let ghost fv = member_views(fields@, 0);
            proof {
                lemma_member_views_index(fields@, 0);
            }
            out.push('{');
            let mut i: usize = 0;
            while i < fields.len()
                invariant
                    0 <= i <= fields@.len(),
                    fv == member_views(fields@, 0),
                    fv.len() == fields@.len(),
                    forall|k: int|
                        0 <= k < fields@.len() ==> fv[k] == ((#[trigger] fields@[k]).0@, json_view(
                            fields@[k].1,
                        )),
                    out@ + print_members(fv, i as int) == base + seq!['{'] + print_members(fv, 0),
                    *j == Json::Obj(*fields),
                decreases fields@.len() - i,
            {
                let ghost before = out@;
                out.push('"');
                write_escaped(&fields[i].0, out);
                out.push('"');
                out.push(':');
                proof {
                    assert(decreases_to!(*j => (*j)->Obj_0));
                    assert(decreases_to!((*j)->Obj_0 => ((*j)->Obj_0)@));
                    assert(decreases_to!(((*j)->Obj_0)@ => ((*j)->Obj_0)@[i as int]));
                    assert(decreases_to!(((*j)->Obj_0)@[i as int] => ((*j)->Obj_0)@[i as int].1));
                    assert(((*j)->Obj_0)@[i as int].1 == fields@[i as int].1);
                    assert(decreases_to!(*j => fields@[i as int].1));
                }
                write_json(&fields[i].1, out);
                if i + 1 < fields.len() {
                    out.push(',');
                }
                proof {
                    assert(print_members(fv, i as int) == seq!['"'] + escape_str(fv[i as int].0)
                        + seq!['"', ':'] + print_spec(fv[i as int].1) + (if i + 1 < fv.len() {
                        seq![',']
                    } else {
                        Seq::<char>::empty()
                    }) + print_members(fv, i + 1));
                    assert(out@ + print_members(fv, i + 1) =~= before + print_members(
                        fv,
                        i as int,
                    ));
                }
                i = i + 1;
            }
            out.push('}');
            proof {
                assert(print_members(fv, fields@.len() as int) == Seq::<char>::empty());
                assert(out@ =~= base + (seq!['{'] + print_members(fv, 0) + seq!['}']));
                assert(print_spec(j@) == seq!['{'] + print_members(fv, 0) + seq!['}']);
            }
        },
    }
}

/// The canonical printed form of a tree, as a fresh character vector.
pub fn print_json(j: &Json) -> (v: Vec<char>)
    ensures
        v@ == print_spec(j@),
{
    let mut out: Vec<char> = Vec::new();
    write_json(j, &mut out);
    out
}

/// The first position at or after `pos` holding no whitespace.
pub open spec fn skip_ws(s: Seq<char>, pos: int) -> int
    decreases s.len() - pos,
{
    if 0 <= pos < s.len() && is_space(s[pos]) {
        skip_ws(s, pos + 1)
    } else {
        pos
    }
}

pub proof fn lemma_skip_ws(s: Seq<char>, pos: int)
    requires
        0 <= pos <= s.len(),
    ensures
        pos <= skip_ws(s, pos) <= s.len(),
        skip_ws(s, pos) < s.len() ==> !is_space(s[skip_ws(s, pos)]),
    decreases s.len() - pos,
{
    if pos < s.len() && is_space(s[pos]) {
        lemma_skip_ws(s, pos + 1);
    }
}

/// The first position at or after `pos` holding no decimal digit.
pub open spec fn scan_digits(s: Seq<char>, pos: int) -> int
    decreases s.len() - pos,
{
    if 0 <= pos < s.len() && is_dec_digit(s[pos]) {
        scan_digits(s, pos + 1)
    } else {
        pos
    }
}

pub proof fn lemma_scan_digits(s: Seq<char>, pos: int)
    requires
        0 <= pos <= s.len(),
    ensures
        pos <= scan_digits(s, pos) <= s.len(),
        scan_digits(s, pos) < s.len() ==> !is_dec_digit(s[scan_digits(s, pos)]),
        forall|k: int| pos <= k < scan_digits(s, pos) ==> is_dec_digit(#[trigger] s[k]),
    decreases s.len() - pos,
{
    if pos < s.len() && is_dec_digit(s[pos]) {
        lemma_scan_digits(s, pos + 1);
    }
}

/// Prefix one decoded character onto a string-parse result.
pub open spec fn prepend(c: char, r: Option<(Seq<char>, int)>) -> Option<(Seq<char>, int)> {
    match r {
        Some((t, p)) => Some((seq![c] + t, p)),
        None => None,
    }
}

/// The character with the given Unicode scalar value.
pub open spec fn scalar_char(code: int) -> char {
    (code as u32) as char
}

/// Parse a string literal's body starting after the opening quote: plain
/// characters, the short escapes, `\uXXXX` for scalars of the basic
/// plane, and surrogate pairs of `\u` escapes for the planes above it.
/// Returns the decoded characters and the position after the closing quote.
pub open spec fn parse_string(s: Seq<char>, pos: int) -> Option<(Seq<char>, int)>
    decreases s.len() - pos,
{
    if pos < 0 || pos >= s.len() {
        None
    } else if s[pos] == '"' {
        Some((Seq::empty(), pos + 1))
    } else if s[pos] == '\\' {
        if pos + 1 >= s.len() {
            None
        } else {
            let e = s[pos + 1];
            if e == '"' || e == '\\' || e == '/' {
                prepend(e, parse_string(s, pos + 2))
            } else if e == 'n' {
                prepend('\n', parse_string(s, pos + 2))
            } else if e == 'r' {
                prepend('\r', parse_string(s, pos + 2))
            } else if e == 't' {
                prepend('\t', parse_string(s, pos + 2))
            } else if e == 'b' {
                prepend('\u{8}', parse_string(s, pos + 2))
            } else if e == 'f' {
                prepend('\u{c}', parse_string(s, pos + 2))
            } else if e == 'u' {
                if pos + 6 <= s.len() && is_hex_digit(s[pos + 2]) && is_hex_digit(s[pos + 3])
                    && is_hex_digit(s[pos + 4]) && is_hex_digit(s[pos + 5]) {
                    let code = hex_val(s[pos + 2]) * 4096 + hex_val(s[pos + 3]) * 256 + hex_val(
                        s[pos + 4],
                    ) * 16 + hex_val(s[pos + 5]);
                    if code < 0xD800 || code >= 0xE000 {
                        prepend(scalar_char(code), parse_string(s, pos + 6))
                    } else if code < 0xDC00 {
                        // a high surrogate must pair with a low surrogate
                        if pos + 12 <= s.len() && s[pos + 6] == '\\' && s[pos + 7] == 'u'
                            && is_hex_digit(s[pos + 8]) && is_hex_digit(s[pos + 9])
                            && is_hex_digit(s[pos + 10]) && is_hex_digit(s[pos + 11]) {
                            let low = hex_val(s[pos + 8]) * 4096 + hex_val(s[pos + 9]) * 256
                                + hex_val(s[pos + 10]) * 16 + hex_val(s[pos + 11]);
                            if 0xDC00 <= low < 0xE000 {
                                prepend(
                                    scalar_char(
                                        0x10000 + (code - 0xD800) * 0x400 + (low - 0xDC00),
                                    ),
                                    parse_string(s, pos + 12),
                                )
                            } else {
                                None
                            }
                        } else {
                            None
                        }
                    } else {
                        None
                    }
                } else {
                    None
                }
            } else {
                None
            }
        }
    } else if (s[pos] as u32) < 32 {
        None
    } else {
        prepend(s[pos], parse_string(s, pos + 1))
    }
}

/// Parse an integer: an optional minus, then digits without a superfluous
/// leading zero, valued within the library's integer range.
pub open spec fn parse_number(s: Seq<char>, pos: int) -> Option<(JsonV, int)> {
    if pos < 0 || pos >= s.len() {
        None
    } else {
        let neg = s[pos] == '-';
        let start = if neg {
            pos + 1
        } else {
            pos
        };
        let end = scan_digits(s, start);
        if end <= start || start >= s.len() {
            None
        } else if s[start] == '0' && end - start > 1 {
            None
        } else {
            let m = dec_value(s.subrange(start, end)) as int;
            if neg {
                if m <= 0x80000000000000000000000000000000 {
                    Some((JsonV::Int(-m), end))
                } else {
                    None
                }
            } else {
                if m <= i128::MAX {
                    Some((JsonV::Int(m), end))
                } else {
                    None
                }
            }
        }
    }
}

/// Parse one value at `pos`, leading whitespace allowed: the result and the
/// position just past it.
pub open spec fn parse_value(s: Seq<char>, pos: int) -> Option<(JsonV, int)>
    decreases s.len() - pos, 3int,
{
    if pos < 0 || pos >= s.len() {
        None
    } else if is_space(s[pos]) {
        parse_value(s, pos + 1)
    } else if s[pos] == '"' {
        match parse_string(s, pos + 1) {
            Some((t, p)) => Some((JsonV::Str(t), p)),
            None => None,
        }
    } else if s[pos] == 'n' {
        if pos + 4 <= s.len() && s[pos + 1] == 'u' && s[pos + 2] == 'l' && s[pos + 3] == 'l' {
            Some((JsonV::Null, pos + 4))
        } else {
            None
        }
    } else if s[pos] == 't' {
        if pos + 4 <= s.len() && s[pos + 1] == 'r' && s[pos + 2] == 'u' && s[pos + 3] == 'e' {
            Some((JsonV::Bool(true), pos + 4))
        } else {
            None
        }
    } else if s[pos] == 'f' {
        if pos + 5 <= s.len() && s[pos + 1] == 'a' && s[pos + 2] == 'l' && s[pos + 3] == 's'
            && s[pos + 4] == 'e' {
            Some((JsonV::Bool(false), pos + 5))
        } else {
            None
        }
    } else if s[pos] == '[' {
        let q = skip_ws(s, pos + 1);
        if q <= pos || q > s.len() {
            None
        } else if q < s.len() && s[q] == ']' {
            Some((JsonV::Arr(Seq::empty()), q + 1))
        } else {
            match parse_elements(s, q) {
                Some((items, p)) => Some((JsonV::Arr(items), p)),
                None => None,
            }
        }
    } else if s[pos] == '{' {
        let q = skip_ws(s, pos + 1);
        if q <= pos || q > s.len() {
            None
        } else if q < s.len() && s[q] == '}' {
            Some((JsonV::Obj(Seq::empty()), q + 1))
        } else {
            match parse_members(s, q) {
                Some((fields, p)) => Some((JsonV::Obj(fields), p)),
                None => None,
            }
        }
    } else {
        parse_number(s, pos)
    }
}

/// Parse the elements of a nonempty array from the first element on,
/// through the closing bracket.
pub open spec fn parse_elements(s: Seq<char>, pos: int) -> Option<(Seq<JsonV>, int)>
    decreases s.len() - pos, 4int,
{
    if pos < 0 || pos > s.len() {
        None
    } else {
        match parse_value(s, pos) {
            None => None,
            Some((v, p)) => {
                if p <= pos || p > s.len() {
                    None
                } else {
                    let q = skip_ws(s, p);
                    if q < p || q > s.len() {
                        None
                    } else if q < s.len() && s[q] == ',' {
                        match parse_elements(s, q + 1) {
                            Some((items, p2)) => Some((seq![v] + items, p2)),
                            None => None,
                        }
                    } else if q < s.len() && s[q] == ']' {
                        Some((seq![v], q + 1))
                    } else {
                        None
                    }
                }
            },
        }
    }
}

/// Parse the members of a nonempty object from the first key on, through
/// the closing brace.
pub open spec fn parse_members(s: Seq<char>, pos: int) -> Option<
    (Seq<(Seq<char>, JsonV)>, int),
>
    decreases s.len() - pos, 4int,
{
    if pos < 0 || pos >= s.len() {
        None
    } else {
        let k = skip_ws(s, pos);
        if k < pos || k >= s.len() {
            None
        } else if s[k] != '"' {
            None
        } else {
            match parse_string(s, k + 1) {
                None => None,
                Some((key, p)) => {
                    if p <= pos || p > s.len() {
                        None
                    } else {
                        let q = skip_ws(s, p);
                        if q < p || q >= s.len() {
                            None
                        } else if s[q] != ':' {
                            None
                        } else {
                            match parse_value(s, q + 1) {
                                None => None,
                                Some((v, p2)) => {
                                    if p2 <= q || p2 > s.len() {
                                        None
                                    } else {
                                        let q2 = skip_ws(s, p2);
                                        if q2 < p2 || q2 > s.len() {
                                            None
                                        } else if q2 < s.len() && s[q2] == ',' {
                                            match parse_members(s, q2 + 1) {
                                                Some((fields, p3)) => Some(
                                                    (seq![(key, v)] + fields, p3),
                                                ),
                                                None => None,
                                            }
                                        } else if q2 < s.len() && s[q2] == '}' {
                                            Some((seq![(key, v)], q2 + 1))
                                        } else {
                                            None
                                        }
                                    }
                                },
                            }
                        }
                    }
                },
            }
        }
    }
}

/// The printed form of a value is nonempty, and its first character both
/// identifies the value's kind and is no whitespace, separator or closer.
pub proof fn lemma_print_head(v: JsonV)
    ensures
        print_spec(v).len() >= 1,
        !is_space(print_spec(v)[0]),
        print_spec(v)[0] != ']' && print_spec(v)[0] != '}' && print_spec(v)[0] != ','
            && print_spec(v)[0] != ':',
        v is Null ==> print_spec(v)[0] == 'n',
        v matches JsonV::Bool(b) ==> print_spec(v)[0] == (if b {
            't'
        } else {
            'f'
        }),
        v is Str ==> print_spec(v)[0] == '"',
        v is Arr ==> print_spec(v)[0] == '[',
        v is Obj ==> print_spec(v)[0] == '{',
        v matches JsonV::Int(i) ==> (if i >= 0 {
            is_dec_digit(print_spec(v)[0])
        } else {
            print_spec(v)[0] == '-'
        }),
        v is Int ==> print_spec(v)[0] != 'n' && print_spec(v)[0] != '"' && print_spec(v)[0] != '['
            && print_spec(v)[0] != '{',
{
    match v {
        JsonV::Int(i) => {
            if i >= 0 {
                crate::text::lemma_dec_digits_value(i as nat);
                assert(print_spec(v)[0] == dec_digits(i as nat)[0]);
                assert(is_dec_digit(dec_digits(i as nat)[0]));
            } else {
                assert(print_spec(v)[0] == '-');
            }
        },
        JsonV::Str(_) => {
            assert(print_spec(v)[0] == '"');
        },
        JsonV::Arr(items) => {
            assert(print_spec(v)[0] == '[');
        },
        JsonV::Obj(fields) => {
            assert(print_spec(v)[0] == '{');
        },
        JsonV::Null => {
            assert(print_spec(v)[0] == 'n');
        },
        JsonV::Bool(b) => {
            if b {
                assert(print_spec(v)[0] == 't');
            } else {
                assert(print_spec(v)[0] == 'f');
            }
        },
    }
}

proof fn lemma_hex_roundtrip(d: int)
    requires
        0 <= d < 16,
    ensures
        is_hex_digit(hex_digit(d)),
        hex_val(hex_digit(d)) == d,
{
}

/// A run of digits bounded by a non-digit scans to exactly its end.
proof fn lemma_scan_digits_exact(s: Seq<char>, start: int, n: int)
    requires
        0 <= start,
        n >= 0,
        start + n <= s.len(),
        forall|k: int| start <= k < start + n ==> is_dec_digit(#[trigger] s[k]),
        start + n < s.len() ==> !is_dec_digit(s[start + n]),
    ensures
        scan_digits(s, start) == start + n,
    decreases n,
{
    if n == 0 {
    } else {
        assert(is_dec_digit(s[start]));
        lemma_scan_digits_exact(s, start + 1, n - 1);
    }
}

/// An escaped string's printed body followed by a closing quote parses
/// back to exactly that string, ending just past the quote.
#[verifier::rlimit(100)]
proof fn lemma_parse_string_print(s: Seq<char>, pos: int, t: Seq<char>)
    requires
        0 <= pos,
        pos + escape_str(t).len() + 1 <= s.len(),
        s.subrange(pos, pos + escape_str(t).len()) == escape_str(t),
        s[pos + escape_str(t).len()] == '"',
    ensures
        parse_string(s, pos) == Some((t, pos + escape_str(t).len() + 1)),
    decreases t.len(),
{
    let esc = escape_str(t);
    if t.len() == 0 {
        assert(esc =~= Seq::<char>::empty());
        assert(s[pos] == '"');
    } else {
        let c = t.first();
        let e = escape_char(c);
        let rest = escape_str(t.drop_first());
        assert(esc == e + rest);
        assert(forall|k: int| 0 <= k < esc.len() ==> s[pos + k] == #[trigger] esc[k]) by {
            assert(forall|k: int|
                0 <= k < esc.len() ==> #[trigger] s.subrange(pos, pos + esc.len())[k] == s[pos
                    + k]);
        }
        assert(forall|k: int| 0 <= k < e.len() ==> s[pos + k] == #[trigger] e[k]) by {
            assert(forall|k: int| 0 <= k < e.len() ==> (e + rest)[k] == #[trigger] e[k]);
            assert(forall|k: int| 0 <= k < e.len() ==> s[pos + k] == #[trigger] esc[k]);
        }
        let pos2 = pos + e.len();
        assert(s.subrange(pos2, pos2 + rest.len()) =~= rest) by {
            assert(forall|k: int|
                0 <= k < rest.len() ==> (e + rest)[e.len() + k] == #[trigger] rest[k]);
            assert(forall|k: int|
                0 <= k < rest.len() ==> s[pos2 + k] == #[trigger] esc[e.len() + k]);
            assert(forall|k: int|
                0 <= k < rest.len() ==> #[trigger] s.subrange(pos2, pos2 + rest.len())[k] == s[pos2
                    + k]);
        }
        assert(s[pos2 + rest.len()] == '"');
        lemma_parse_string_print(s, pos2, t.drop_first());
        assert(parse_string(s, pos2) == Some((t.drop_first(), pos + esc.len() + 1)));
        if c == '"' {
            assert(s[pos] == '\\' && s[pos + 1] == '"');
            assert(parse_string(s, pos) == prepend(c, parse_string(s, pos + 2)));
        } else if c == '\\' {
            assert(s[pos] == '\\' && s[pos + 1] == '\\');
            assert(parse_string(s, pos) == prepend(c, parse_string(s, pos + 2)));
        } else if c == '\n' {
            assert(s[pos] == '\\' && s[pos + 1] == 'n');
            assert(parse_string(s, pos) == prepend(c, parse_string(s, pos + 2)));
        } else if c == '\r' {
            assert(s[pos] == '\\' && s[pos + 1] == 'r');
            assert(parse_string(s, pos) == prepend(c, parse_string(s, pos + 2)));
        } else if c == '\t' {
            assert(s[pos] == '\\' && s[pos + 1] == 't');
            assert(parse_string(s, pos) == prepend(c, parse_string(s, pos + 2)));
        } else if (c as u32) < 32 {
            let u = c as u32;
            assert(e == seq!['\\', 'u', '0', '0', hex_digit((u / 16) as int), hex_digit(
                (u % 16) as int,
            )]);
            assert(s[pos] == '\\' && s[pos + 1] == 'u');
            assert(s[pos + 2] == '0' && s[pos + 3] == '0');
            assert(s[pos + 4] == hex_digit((u / 16) as int));
            assert(s[pos + 5] == hex_digit((u % 16) as int));
            lemma_hex_roundtrip((u / 16) as int);
            lemma_hex_roundtrip((u % 16) as int);
            assert(hex_val('0') == 0);
            let code = hex_val(s[pos + 2]) * 4096 + hex_val(s[pos + 3]) * 256 + hex_val(
                s[pos + 4],
            ) * 16 + hex_val(s[pos + 5]);
            assert(code == (u / 16) * 16 + (u % 16));
            assert(code == u);
            assert(code < 0xD800);
            assert(scalar_char(code) == c) by {
                vstd::utf8::char_u32_cast(c, u);
                assert((code as u32) == u);
            }
            assert(parse_string(s, pos) == prepend(c, parse_string(s, pos + 6)));
        } else {
            assert(e == seq![c]);
            assert(e[0] == c);
            assert(s[pos] == c);
            assert(c != '"' && c != '\\' && !((c as u32) < 32));
            assert(parse_string(s, pos) == prepend(c, parse_string(s, pos + 1)));
        }
        assert(parse_string(s, pos) == Some((seq![c] + t.drop_first(), pos + esc.len() + 1)));
        assert(seq![c] + t.drop_first() =~= t);
    }
}

/// A segment equality gives the characters of the segment pointwise.
proof fn lemma_seq_at(s: Seq<char>, pos: int, p: Seq<char>)
    requires
        0 <= pos,
        pos + p.len() <= s.len(),
        s.subrange(pos, pos + p.len()) == p,
    ensures
        forall|k: int| 0 <= k < p.len() ==> s[pos + k] == #[trigger] p[k],
{
    assert(forall|k: int|
        0 <= k < p.len() ==> #[trigger] s.subrange(pos, pos + p.len())[k] == s[pos + k]);
}

/// A segment equality restricts to segment equalities of its parts.
proof fn lemma_seq_sub(s: Seq<char>, pos: int, p: Seq<char>, a: int, b: int)
    requires
        0 <= pos,
        pos + p.len() <= s.len(),
        s.subrange(pos, pos + p.len()) == p,
        0 <= a <= b <= p.len(),
    ensures
        s.subrange(pos + a, pos + b) == p.subrange(a, b),
{
    lemma_seq_at(s, pos, p);
    assert(s.subrange(pos + a, pos + b) =~= p.subrange(a, b)) by {
        assert(forall|k: int|
            0 <= k < b - a ==> #[trigger] s.subrange(pos + a, pos + b)[k] == s[pos + a + k]);
        assert(forall|k: int| 0 <= k < b - a ==> #[trigger] p.subrange(a, b)[k] == p[a + k]);
    }
}

/// The printed form of a well-formed value, followed by anything that does
/// not begin with a digit, parses back to exactly that value, ending just
/// past the printed form.
#[verifier::rlimit(100)]
pub proof fn lemma_parse_print(s: Seq<char>, pos: int, v: JsonV)
    requires
        wf_json(v),
        0 <= pos,
        pos + print_spec(v).len() <= s.len(),
        s.subrange(pos, pos + print_spec(v).len()) == print_spec(v),
        pos + print_spec(v).len() < s.len() ==> !is_dec_digit(s[pos + print_spec(v).len()]),
    ensures
        parse_value(s, pos) == Some((v, pos + print_spec(v).len())),
    decreases v, 0int, 2int,
{
    let p = print_spec(v);
    lemma_seq_at(s, pos, p);
    lemma_print_head(v);
    assert(s[pos] == p[0]);
    match v {
        JsonV::Null => {
            assert(p == seq!['n', 'u', 'l', 'l']);
            assert(s[pos] == 'n' && s[pos + 1] == 'u' && s[pos + 2] == 'l' && s[pos + 3] == 'l');
        },
        JsonV::Bool(b) => {
            if b {
                assert(p == seq!['t', 'r', 'u', 'e']);
                assert(s[pos] == 't' && s[pos + 1] == 'r' && s[pos + 2] == 'u' && s[pos + 3]
                    == 'e');
            } else {
                assert(p == seq!['f', 'a', 'l', 's', 'e']);
                assert(s[pos] == 'f' && s[pos + 1] == 'a' && s[pos + 2] == 'l' && s[pos + 3] == 's'
                    && s[pos + 4] == 'e');
            }
        },
        JsonV::Str(t) => {
            let esc = escape_str(t);
            assert(p == seq!['"'] + esc + seq!['"']);
            assert(s[pos] == '"');
            lemma_seq_sub(s, pos, p, 1, 1 + esc.len() as int);
            assert(p.subrange(1, 1 + esc.len() as int) =~= esc) by {
                assert(forall|k: int|
                    0 <= k < esc.len() ==> #[trigger] p.subrange(1, 1 + esc.len() as int)[k] == p[1 + k]);
                assert(forall|k: int|
                    0 <= k < esc.len() ==> (seq!['"'] + esc + seq!['"'])[1 + k] == #[trigger] esc[k]);
            }
            assert(s[pos + 1 + esc.len() as int] == p[1 + esc.len() as int]);
            assert(p[1 + esc.len() as int] == '"');
            lemma_parse_string_print(s, pos + 1, t);
            assert(parse_value(s, pos) == Some((JsonV::Str(t), pos + p.len())));
        },
        JsonV::Int(i) => {
            if i >= 0 {
                let d = dec_digits(i as nat);
                assert(p == d);
                crate::text::lemma_dec_digits_value(i as nat);
                assert(is_dec_digit(s[pos]));
                assert forall|k: int| pos <= k < pos + d.len() implies is_dec_digit(
                    #[trigger] s[k],
                ) by {
                    assert(s[pos + (k - pos)] == d[k - pos]);
                    assert(is_dec_digit(d[k - pos]));
                }
                lemma_scan_digits_exact(s, pos, d.len() as int);
                assert(scan_digits(s, pos) == pos + d.len());
                if i > 0 {
                    assert(crate::text::dec_digit_val(d[0]) > 0);
                    assert(d[0] != '0') by {
                        assert(crate::text::dec_digit_val('0') == 0);
                    }
                    assert(s[pos] != '0');
                }
                assert(s.subrange(pos, pos + d.len()) == d);
                assert(dec_value(s.subrange(pos, pos + d.len())) == i);
                assert(parse_value(s, pos) == parse_number(s, pos));
                assert(parse_number(s, pos) == Some((JsonV::Int(i), pos + d.len())));
            } else {
                let d = dec_digits((-i) as nat);
                assert(p == seq!['-'] + d);
                assert(s[pos] == '-');
                crate::text::lemma_dec_digits_value((-i) as nat);
                lemma_seq_sub(s, pos, p, 1, 1 + d.len() as int);
                assert(p.subrange(1, 1 + d.len() as int) =~= d) by {
                    assert(forall|k: int|
                        0 <= k < d.len() ==> #[trigger] p.subrange(1, 1 + d.len() as int)[k] == p[1 + k]);
                    assert(forall|k: int|
                        0 <= k < d.len() ==> (seq!['-'] + d)[1 + k] == #[trigger] d[k]);
                }
                assert(s.subrange(pos + 1, pos + 1 + d.len()) == d);
                assert(forall|k: int| 0 <= k < d.len() ==> s[pos + 1 + k] == #[trigger] d[k]) by {
                    lemma_seq_at(s, pos + 1, d);
                }
                assert forall|k: int| pos + 1 <= k < pos + 1 + d.len() implies is_dec_digit(
                    #[trigger] s[k],
                ) by {
                    assert(s[pos + 1 + (k - pos - 1)] == d[k - pos - 1]);
                    assert(is_dec_digit(d[k - pos - 1]));
                }
                lemma_scan_digits_exact(s, pos + 1, d.len() as int);
                assert(scan_digits(s, pos + 1) == pos + 1 + d.len());
                assert((-i) > 0);
                assert(crate::text::dec_digit_val(d[0]) > 0);
                assert(d[0] != '0') by {
                    assert(crate::text::dec_digit_val('0') == 0);
                }
                assert(s[pos + 1] != '0');
                assert(dec_value(s.subrange(pos + 1, pos + 1 + d.len())) == -i);
                assert(-i <= 0x80000000000000000000000000000000);
                assert(parse_value(s, pos) == parse_number(s, pos));
                assert(parse_number(s, pos) == Some((JsonV::Int(i), pos + 1 + d.len())));
            }
        },
        JsonV::Arr(items) => {
            if items.len() == 0 {
                assert(print_items(items, 0) == Seq::<char>::empty());
                assert(p =~= seq!['[', ']']);
                assert(s[pos] == '[' && s[pos + 1] == ']');
                assert(!is_space(']'));
                assert(skip_ws(s, pos + 1) == pos + 1);
                assert(parse_value(s, pos) == Some((JsonV::Arr(Seq::empty()), pos + 2)));
                assert(items =~= Seq::<JsonV>::empty());
            } else {
                let inner = print_items(items, 0);
                assert(p == seq!['['] + inner + seq![']']);
                assert(s[pos] == '[');
                lemma_print_head(items[0]);
                let hv = print_spec(items[0]);
                assert(inner == hv + (if 1 < items.len() {
                    seq![',']
                } else {
                    Seq::<char>::empty()
                }) + print_items(items, 1));
                assert(inner.len() >= 1);
                assert(inner[0] == hv[0]);
                assert(p[1] == inner[0]);
                assert(s[pos + 1] == hv[0]);
                assert(!is_space(s[pos + 1]));
                assert(skip_ws(s, pos + 1) == pos + 1);
                assert(s[pos + 1] != ']');
                lemma_seq_sub(s, pos, p, 1, 1 + inner.len() as int);
                assert(p.subrange(1, 1 + inner.len() as int) =~= inner) by {
                    assert(forall|k: int|
                        0 <= k < inner.len() ==> #[trigger] p.subrange(1, 1 + inner.len() as int)[k] == p[1
                            + k]);
                    assert(forall|k: int|
                        0 <= k < inner.len() ==> (seq!['['] + inner + seq![']'])[1 + k]
                            == #[trigger] inner[k]);
                }
                assert(s[pos + 1 + inner.len() as int] == p[1 + inner.len() as int]);
                assert(p[1 + inner.len() as int] == ']');
                lemma_parse_print_items(s, pos + 1, items, 0);
                assert(items.subrange(0, items.len() as int) =~= items);
                assert(parse_value(s, pos) == Some((JsonV::Arr(items), pos + p.len())));
            }
        },
        JsonV::Obj(fields) => {
            if fields.len() == 0 {
                assert(print_members(fields, 0) == Seq::<char>::empty());
                assert(p =~= seq!['{', '}']);
                assert(s[pos] == '{' && s[pos + 1] == '}');
                assert(!is_space('}'));
                assert(skip_ws(s, pos + 1) == pos + 1);
                assert(parse_value(s, pos) == Some((JsonV::Obj(Seq::empty()), pos + 2)));
                assert(fields =~= Seq::<(Seq<char>, JsonV)>::empty());
            } else {
                let inner = print_members(fields, 0);
                assert(p == seq!['{'] + inner + seq!['}']);
                assert(s[pos] == '{');
                assert(inner == seq!['"'] + escape_str(fields[0].0) + seq!['"', ':'] + print_spec(
                    fields[0].1,
                ) + (if 1 < fields.len() {
                    seq![',']
                } else {
                    Seq::<char>::empty()
                }) + print_members(fields, 1));
                assert(inner.len() >= 1);
                assert(inner[0] == '"');
                assert(p[1] == inner[0]);
                assert(s[pos + 1] == '"');
                assert(!is_space('"'));
                assert(skip_ws(s, pos + 1) == pos + 1);
                assert(s[pos + 1] != '}');
                lemma_seq_sub(s, pos, p, 1, 1 + inner.len() as int);
                assert(p.subrange(1, 1 + inner.len() as int) =~= inner) by {
                    assert(forall|k: int|
                        0 <= k < inner.len() ==> #[trigger] p.subrange(1, 1 + inner.len() as int)[k] == p[1
                            + k]);
                    assert(forall|k: int|
                        0 <= k < inner.len() ==> (seq!['{'] + inner + seq!['}'])[1 + k]
                            == #[trigger] inner[k]);
                }
                assert(s[pos + 1 + inner.len() as int] == p[1 + inner.len() as int]);
                assert(p[1 + inner.len() as int] == '}');
                lemma_parse_print_members(s, pos + 1, fields, 0);
                assert(fields.subrange(0, fields.len() as int) =~= fields);
                assert(parse_value(s, pos) == Some((JsonV::Obj(fields), pos + p.len())));
            }
        },
    }
}

/// The printed elements from index `i` on, followed by the closing
/// bracket, parse back to exactly those elements.
proof fn lemma_parse_print_items(s: Seq<char>, pos: int, items: Seq<JsonV>, i: int)
    requires
        0 <= i < items.len(),
        wf_jsons(items, i),
        0 <= pos,
        pos + print_items(items, i).len() < s.len(),
        s.subrange(pos, pos + print_items(items, i).len()) == print_items(items, i),
        s[pos + print_items(items, i).len()] == ']',
    ensures
        parse_elements(s, pos) == Some(
            (items.subrange(i, items.len() as int), pos + print_items(items, i).len() + 1),
        ),
    decreases items, items.len() - i, 1int,
{
    let w = print_items(items, i);
    let pv = print_spec(items[i]);
    let sep: Seq<char> = if i + 1 < items.len() {
        seq![',']
    } else {
        Seq::empty()
    };
    let rest = print_items(items, i + 1);
    assert(w == pv + sep + rest);
    lemma_seq_at(s, pos, w);
    lemma_print_head(items[i]);
    assert(wf_json(items[i]) && wf_jsons(items, i + 1));
    lemma_seq_sub(s, pos, w, 0, pv.len() as int);
    assert(w.subrange(0, pv.len() as int) =~= pv) by {
        assert(forall|k: int|
            0 <= k < pv.len() ==> #[trigger] w.subrange(0, pv.len() as int)[k] == w[k]);
        assert(forall|k: int| 0 <= k < pv.len() ==> (pv + sep + rest)[k] == #[trigger] pv[k]);
    }
    assert(s.subrange(pos, pos + pv.len()) == pv);
    let p1 = pos + pv.len();
    if i + 1 < items.len() {
        assert(w[pv.len() as int] == ',') by {
            assert((pv + sep + rest)[pv.len() as int] == sep[0]);
        }
        assert(s[p1] == ',');
        assert(!is_dec_digit(','));
    } else {
        assert(rest == Seq::<char>::empty());
        assert(w =~= pv);
        assert(s[p1] == ']');
        assert(!is_dec_digit(']'));
    }
    lemma_parse_print(s, pos, items[i]);
    assert(parse_value(s, pos) == Some((items[i], p1)));
    assert(pv.len() >= 1);
    assert(!is_space(s[p1]));
    assert(skip_ws(s, p1) == p1);
    if i + 1 < items.len() {
        assert(s[p1] == ',');
        lemma_seq_sub(s, pos, w, pv.len() as int + 1, w.len() as int);
        assert(w.subrange(pv.len() as int + 1, w.len() as int) =~= rest) by {
            assert(forall|k: int|
                0 <= k < rest.len() ==> #[trigger] w.subrange(pv.len() as int + 1, w.len() as int)[k]
                    == w[pv.len() + 1 + k]);
            assert(forall|k: int|
                0 <= k < rest.len() ==> (pv + sep + rest)[pv.len() + 1 + k] == #[trigger] rest[k]);
        }
        assert(s.subrange(p1 + 1, p1 + 1 + rest.len()) == rest);
        assert(p1 + 1 + rest.len() == pos + w.len());
        lemma_parse_print_items(s, p1 + 1, items, i + 1);
        assert(parse_elements(s, p1 + 1) == Some(
            (items.subrange(i + 1, items.len() as int), pos + w.len() + 1),
        ));
        assert(seq![items[i]] + items.subrange(i + 1, items.len() as int) =~= items.subrange(
            i,
            items.len() as int,
        ));
        assert(parse_elements(s, pos) == Some(
            (items.subrange(i, items.len() as int), pos + w.len() + 1),
        ));
    } else {
        assert(s[p1] == ']');
        assert(seq![items[i]] =~= items.subrange(i, items.len() as int));
        assert(parse_elements(s, pos) == Some(
            (items.subrange(i, items.len() as int), p1 + 1),
        ));
    }
}

/// The printed members from index `i` on, followed by the closing brace,
/// parse back to exactly those members.
proof fn lemma_parse_print_members(s: Seq<char>, pos: int, fields: Seq<(Seq<char>, JsonV)>, i: int)
    requires
        0 <= i < fields.len(),
        wf_members(fields, i),
        0 <= pos,
        pos + print_members(fields, i).len() < s.len(),
        s.subrange(pos, pos + print_members(fields, i).len()) == print_members(fields, i),
        s[pos + print_members(fields, i).len()] == '}',
    ensures
        parse_members(s, pos) == Some(
            (fields.subrange(i, fields.len() as int), pos + print_members(fields, i).len() + 1),
        ),
    decreases fields, fields.len() - i, 1int,
{
    let w = print_members(fields, i);
    let key = fields[i].0;
    let v = fields[i].1;
    let esc = escape_str(key);
    let pv = print_spec(v);
    let sep: Seq<char> = if i + 1 < fields.len() {
        seq![',']
    } else {
        Seq::empty()
    };
    let rest = print_members(fields, i + 1);
    assert(w == seq!['"'] + esc + seq!['"', ':'] + pv + sep + rest);
    lemma_seq_at(s, pos, w);
    lemma_print_head(v);
    assert(wf_json(v) && wf_members(fields, i + 1));
    assert(s[pos] == '"') by {
        assert(w[0] == '"');
    }
    assert(!is_space('"'));
    assert(skip_ws(s, pos) == pos);
    // the escaped key and its closing quote
    lemma_seq_sub(s, pos, w, 1, 1 + esc.len() as int);
    assert(w.subrange(1, 1 + esc.len() as int) =~= esc) by {
        assert(forall|k: int|
            0 <= k < esc.len() ==> #[trigger] w.subrange(1, 1 + esc.len() as int)[k] == w[1 + k]);
        assert(forall|k: int|
            0 <= k < esc.len() ==> (seq!['"'] + esc + seq!['"', ':'] + pv + sep + rest)[1 + k]
                == #[trigger] esc[k]);
    }
    assert(w[1 + esc.len() as int] == '"') by {
        assert((seq!['"'] + esc + seq!['"', ':'] + pv + sep + rest)[1 + esc.len() as int] == '"');
    }
    assert(s[pos + 1 + esc.len()] == '"');
    lemma_parse_string_print(s, pos + 1, key);
    let p = pos + esc.len() + 2;
    assert(parse_string(s, pos + 1) == Some((key, p)));
    // the colon
    assert(w[esc.len() as int + 2] == ':') by {
        assert((seq!['"'] + esc + seq!['"', ':'] + pv + sep + rest)[esc.len() as int + 2] == ':');
    }
    assert(s[p] == ':');
    assert(!is_space(':'));
    assert(skip_ws(s, p) == p);
    // the value
    let posv = p + 1;
    lemma_seq_sub(s, pos, w, esc.len() as int + 3, esc.len() as int + 3 + pv.len() as int);
    assert(w.subrange(esc.len() as int + 3, esc.len() as int + 3 + pv.len() as int) =~= pv) by {
        assert(forall|k: int|
            0 <= k < pv.len() ==> #[trigger] w.subrange(esc.len() as int + 3, esc.len() as int + 3 + pv.len() as int)[k]
                == w[esc.len() as int + 3 + k]);
        assert(forall|k: int|
            0 <= k < pv.len() ==> (seq!['"'] + esc + seq!['"', ':'] + pv + sep + rest)[esc.len() as int + 3
                + k] == #[trigger] pv[k]);
    }
    assert(s.subrange(posv, posv + pv.len()) == pv);
    let p2 = posv + pv.len();
    if i + 1 < fields.len() {
        assert(w[esc.len() as int + 3 + pv.len() as int] == ',') by {
            assert((seq!['"'] + esc + seq!['"', ':'] + pv + sep + rest)[esc.len() as int + 3 + pv.len() as int]
                == sep[0]);
        }
        assert(s[p2] == ',');
        assert(!is_dec_digit(','));
    } else {
        assert(rest == Seq::<char>::empty());
        assert(w =~= seq!['"'] + esc + seq!['"', ':'] + pv);
        assert(p2 == pos + w.len());
        assert(s[p2] == '}');
        assert(!is_dec_digit('}'));
    }
    lemma_parse_print(s, posv, v);
    assert(parse_value(s, posv) == Some((v, p2)));
    assert(!is_space(s[p2]));
    assert(skip_ws(s, p2) == p2);
    if i + 1 < fields.len() {
        assert(s[p2] == ',');
        lemma_seq_sub(s, pos, w, esc.len() as int + 4 + pv.len() as int, w.len() as int);
        assert(w.subrange(esc.len() as int + 4 + pv.len() as int, w.len() as int) =~= rest) by {
            assert(forall|k: int|
                0 <= k < rest.len() ==> #[trigger] w.subrange(
                    esc.len() as int + 4 + pv.len() as int,
                    w.len() as int,
                )[k] == w[esc.len() as int + 4 + pv.len() as int + k]);
            assert(forall|k: int|
                0 <= k < rest.len() ==> (seq!['"'] + esc + seq!['"', ':'] + pv + sep
                    + rest)[esc.len() as int + 4 + pv.len() as int + k] == #[trigger] rest[k]);
        }
        assert(s.subrange(p2 + 1, p2 + 1 + rest.len()) == rest);
        assert(p2 + 1 + rest.len() == pos + w.len());
        lemma_parse_print_members(s, p2 + 1, fields, i + 1);
        assert(parse_members(s, p2 + 1) == Some(
            (fields.subrange(i + 1, fields.len() as int), pos + w.len() + 1),
        ));
        assert(seq![(key, v)] + fields.subrange(i + 1, fields.len() as int) =~= fields.subrange(
            i,
            fields.len() as int,
        ));
        assert(parse_members(s, pos) == Some(
            (fields.subrange(i, fields.len() as int), pos + w.len() + 1),
        ));
    } else {
        assert(s[p2] == '}');
        assert(seq![(key, v)] =~= fields.subrange(i, fields.len() as int));
        assert(parse_members(s, pos) == Some(
            (fields.subrange(i, fields.len() as int), p2 + 1),
        ));
    }
}

/// Parsing inverts printing: the canonical printed form of any well-formed
/// tree parses back to exactly that tree.
pub proof fn lemma_parse_print_document(v: JsonV)
    requires
        wf_json(v),
    ensures
        parse_json_spec(print_spec(v)) == Some(v),
{
    let s = print_spec(v);
    assert(s.subrange(0, s.len() as int) =~= s);
    lemma_parse_print(s, 0, v);
    assert(skip_ws(s, s.len() as int) == s.len());
}

/// Relies on `char::from_u32`: yields the character with the given code
/// point exactly when the value is no surrogate and at most `0x10FFFF`.
#[verifier::external_body]
fn char_from_u32(u: u32) -> (r: Option<char>)
    ensures
        r == (if u < 0xD800 || (0xE000 <= u && u <= 0x10FFFF) {
            Some(u as char)
        } else {
            None::<char>
        }),
{
    char::from_u32(u)
}

fn is_hex_digit_exec(c: char) -> (b: bool)
    ensures
        b == is_hex_digit(c),
{
    let u = c as u32;
    (48 <= u && u <= 57) || (97 <= u && u <= 102) || (65 <= u && u <= 70)
}

fn hex_val_exec(c: char) -> (r: u32)
    requires
        is_hex_digit(c),
    ensures
        r as int == hex_val(c),
        r < 16,
{
    let u = c as u32;
    if 48 <= u && u <= 57 {
        u - 48
    } else if 97 <= u && u <= 102 {
        u - 87
    } else {
        u - 55
    }
}

/// Skip whitespace from `pos` on.
fn skip_ws_exec(s: &Vec<char>, pos: usize) -> (r: usize)
    requires
        pos <= s@.len(),
    ensures
        r as int == skip_ws(s@, pos as int),
        pos <= r <= s@.len(),
{
    let mut i = pos;
    while i < s.len() && crate::text::space_char(s[i])
        invariant
            pos <= i <= s@.len(),
            skip_ws(s@, pos as int) == skip_ws(s@, i as int),
        decreases s@.len() - i,
    {
        i = i + 1;
    }
    i
}

/// Parse a string literal's body starting after the opening quote.
fn parse_string_exec(s: &Vec<char>, pos: usize) -> (r: Option<(Vec<char>, usize)>)
    requires
        pos <= s@.len(),
    ensures
        (parse_string(s@, pos as int) is Some) == (r is Some),
        r matches Some((u, q)) ==> parse_string(s@, pos as int) == Some((u@, q as int)) && q
            <= s@.len(),
{
    let ghost start: int = pos as int;
    let mut out: Vec<char> = Vec::new();
    let mut i = pos;
    proof {
        match parse_string(s@, pos as int) {
            Some((t, p)) => {
                assert(out@ + t =~= t);
            },
            None => {},
        }
    }
    while i < s.len()
        invariant
            pos <= i <= s@.len(),
            parse_string(s@, pos as int) == (match parse_string(s@, i as int) {
                Some((t, p)) => Some((out@ + t, p)),
                None => None::<(Seq<char>, int)>,
            }),
        decreases s@.len() - i,
    {
        let c = s[i];
        if c == '"' {
            proof {
                assert(parse_string(s@, i as int) == Some((Seq::<char>::empty(), i + 1)));
                assert(out@ + Seq::<char>::empty() =~= out@);
                assert(parse_string(s@, pos as int) == Some((out@, i + 1)));
            }
            return Some((out, i + 1));
        } else if c == '\\' {
            if i + 1 >= s.len() {
                proof {
                    assert(parse_string(s@, i as int) is None);
                    assert(parse_string(s@, pos as int) is None);
                }
                return None;
            }
            let e = s[i + 1];
            if e == '"' || e == '\\' || e == '/' {
                let ghost before = out@;
                out.push(e);
                proof {
                    assert(parse_string(s@, i as int) == prepend(e, parse_string(s@, i + 2)));
                    assert(out@ =~= before + seq![e]);
                    lemma_prepend_assoc(before, e, parse_string(s@, i + 2));
                }
                i = i + 2;
            } else if e == 'n' {
                let ghost before = out@;
                out.push('\n');
                proof {
                    assert(parse_string(s@, i as int) == prepend('\n', parse_string(s@, i + 2)));
                    assert(out@ =~= before + seq!['\n']);
                    lemma_prepend_assoc(before, '\n', parse_string(s@, i + 2));
                }
                i = i + 2;
            } else if e == 'r' {
                let ghost before = out@;
                out.push('\r');
                proof {
                    assert(parse_string(s@, i as int) == prepend('\r', parse_string(s@, i + 2)));
                    assert(out@ =~= before + seq!['\r']);
                    lemma_prepend_assoc(before, '\r', parse_string(s@, i + 2));
                }
                i = i + 2;
            } else if e == 't' {
                let ghost before = out@;
                out.push('\t');
                proof {
                    assert(parse_string(s@, i as int) == prepend('\t', parse_string(s@, i + 2)));
                    assert(out@ =~= before + seq!['\t']);
                    lemma_prepend_assoc(before, '\t', parse_string(s@, i + 2));
                }
                i = i + 2;
            } else if e == 'b' {
                let ghost before = out@;
                out.push('\u{8}');
                proof {
                    assert(parse_string(s@, i as int) == prepend('\u{8}', parse_string(s@, i + 2)));
                    assert(out@ =~= before + seq!['\u{8}']);
                    lemma_prepend_assoc(before, '\u{8}', parse_string(s@, i + 2));
                }
                i = i + 2;
            } else if e == 'f' {
                let ghost before = out@;
                out.push('\u{c}');
                proof {
                    assert(parse_string(s@, i as int) == prepend('\u{c}', parse_string(s@, i + 2)));
                    assert(out@ =~= before + seq!['\u{c}']);
                    lemma_prepend_assoc(before, '\u{c}', parse_string(s@, i + 2));
                }
                i = i + 2;
            } else if e == 'u' {
                if !(s.len() - i >= 6 && is_hex_digit_exec(s[i + 2]) && is_hex_digit_exec(s[i + 3])
                    && is_hex_digit_exec(s[i + 4]) && is_hex_digit_exec(s[i + 5])) {
                    proof {
                        assert(parse_string(s@, i as int) is None);
                        assert(parse_string(s@, pos as int) is None);
                    }
                    return None;
                }
                let code: u32 = hex_val_exec(s[i + 2]) * 4096 + hex_val_exec(s[i + 3]) * 256
                    + hex_val_exec(s[i + 4]) * 16 + hex_val_exec(s[i + 5]);
                if code < 0xD800 || code >= 0xE000 {
                    let c2 = match char_from_u32(code) {
                        Some(c2) => c2,
                        None => {
                            proof {
                                assert(false);
                            }
                            return None;
                        },
                    };
                    proof {
                        assert(c2 == scalar_char(code as int));
                    }
                    let ghost before = out@;
                    out.push(c2);
                    proof {
                        assert(parse_string(s@, i as int) == prepend(c2, parse_string(s@, i + 6)));
                        assert(out@ =~= before + seq![c2]);
                        lemma_prepend_assoc(before, c2, parse_string(s@, i + 6));
                    }
                    i = i + 6;
                } else if code < 0xDC00 {
                    // a high surrogate must pair with a low surrogate
                    if !(s.len() - i >= 12 && s[i + 6] == '\\' && s[i + 7] == 'u'
                        && is_hex_digit_exec(s[i + 8]) && is_hex_digit_exec(s[i + 9])
                        && is_hex_digit_exec(s[i + 10]) && is_hex_digit_exec(s[i + 11])) {
                        proof {
                            assert(parse_string(s@, i as int) is None);
                            assert(parse_string(s@, pos as int) is None);
                        }
                        return None;
                    }
                    let low: u32 = hex_val_exec(s[i + 8]) * 4096 + hex_val_exec(s[i + 9]) * 256
                        + hex_val_exec(s[i + 10]) * 16 + hex_val_exec(s[i + 11]);
                    if !(0xDC00 <= low && low < 0xE000) {
                        proof {
                            assert(parse_string(s@, i as int) is None);
                            assert(parse_string(s@, pos as int) is None);
                        }
                        return None;
                    }
                    let scalar: u32 = 0x10000 + (code - 0xD800) * 0x400 + (low - 0xDC00);
                    let c2 = match char_from_u32(scalar) {
                        Some(c2) => c2,
                        None => {
                            proof {
                                assert(false);
                            }
                            return None;
                        },
                    };
                    proof {
                        assert(c2 == scalar_char(scalar as int));
                    }
                    let ghost before = out@;
                    out.push(c2);
                    proof {
                        assert(parse_string(s@, i as int) == prepend(c2, parse_string(s@, i + 12)));
                        assert(out@ =~= before + seq![c2]);
                        lemma_prepend_assoc(before, c2, parse_string(s@, i + 12));
                    }
                    i = i + 12;
                } else {
                    proof {
                        assert(parse_string(s@, i as int) is None);
                        assert(parse_string(s@, pos as int) is None);
                    }
                    return None;
                }
            } else {
                proof {
                    assert(parse_string(s@, i as int) is None);
                    assert(parse_string(s@, pos as int) is None);
                }
                return None;
            }
        } else if (c as u32) < 32 {
            proof {
                assert(parse_string(s@, i as int) is None);
                assert(parse_string(s@, pos as int) is None);
            }
            return None;
        } else {
            let ghost before = out@;
            out.push(c);
            proof {
                assert(parse_string(s@, i as int) == prepend(c, parse_string(s@, i + 1)));
                assert(out@ =~= before + seq![c]);
                lemma_prepend_assoc(before, c, parse_string(s@, i + 1));
            }
            i = i + 1;
        }
    }
    proof {
        assert(parse_string(s@, i as int) is None);
        assert(parse_string(s@, pos as int) is None);
    }
    None
}

/// Prefixing one decoded character associates with the accumulated prefix.
proof fn lemma_prepend_assoc(before: Seq<char>, c: char, r: Option<(Seq<char>, int)>)
    ensures
        (match prepend(c, r) {
            Some((t, p)) => Some((before + t, p)),
            None => None::<(Seq<char>, int)>,
        }) == (match r {
            Some((t, p)) => Some(((before + seq![c]) + t, p)),
            None => None::<(Seq<char>, int)>,
        }),
{
    match r {
        Some((t, p)) => {
            assert(before + (seq![c] + t) =~= (before + seq![c]) + t);
        },
        None => {},
    }
}

/// Parse an integer at `pos`.
fn parse_number_exec(s: &Vec<char>, pos: usize) -> (r: Option<(Json, usize)>)
    requires
        pos <= s@.len(),
    ensures
        match parse_number(s@, pos as int) {
            Some((v, p)) => r matches Some((j, q)) && j@ == v && q as int == p && q <= s@.len(),
            None => r is None,
        },
{
    if pos >= s.len() {
        return None;
    }
    let neg = s[pos] == '-';
    let start = if neg {
        pos + 1
    } else {
        pos
    };
    let mut end = start;
    while end < s.len() && crate::text::is_dec_digit_exec(s[end])
        invariant
            start <= end <= s@.len(),
            forall|k: int| start <= k < end ==> is_dec_digit(#[trigger] s@[k]),
        decreases s@.len() - end,
    {
        end = end + 1;
    }
    proof {
        lemma_scan_digits_exact(s@, start as int, end - start);
        assert(scan_digits(s@, start as int) == end as int);
    }
    if end <= start || start >= s.len() {
        return None;
    }
    if s[start] == '0' && end - start > 1 {
        return None;
    }
    let m = match crate::text::parse_dec_u128_range(s, start, end) {
        Some(m) => m,
        None => {
            proof {
                assert(s@.subrange(start as int, end as int).len() > 0);
                assert(dec_value(s@.subrange(start as int, end as int)) > u128::MAX);
            }
            return None;
        },
    };
    if neg {
        if m <= 0x80000000000000000000000000000000u128 {
            let j: i128 = if m == 0x80000000000000000000000000000000u128 {
                i128::MIN
            } else {
                -(m as i128)
            };
            proof {
                assert(j as int == -(m as int));
            }
            Some((Json::Int(j), end))
        } else {
            None
        }
    } else {
        if m <= i128::MAX as u128 {
            Some((Json::Int(m as i128), end))
        } else {
            None
        }
    }
}

/// Parse one value at `pos`, leading whitespace allowed.
pub fn parse_value_exec(s: &Vec<char>, pos: usize) -> (r: Option<(Json, usize)>)
    requires
        pos <= s@.len(),
    ensures
        match parse_value(s@, pos as int) {
            Some((v, p)) => r matches Some((j, q)) && j@ == v && q as int == p && q <= s@.len(),
            None => r is None,
        },
    decreases s@.len() - pos, 3int,
{
    if pos >= s.len() {
        return None;
    }
    let c = s[pos];
    if crate::text::space_char(c) {
        return parse_value_exec(s, pos + 1);
    }
    if c == '"' {
        match parse_string_exec(s, pos + 1) {
            Some((t, p)) => Some((Json::Str(t), p)),
            None => None,
        }
    } else if c == 'n' {
        if s.len() - pos >= 4 && s[pos + 1] == 'u' && s[pos + 2] == 'l' && s[pos + 3] == 'l' {
            Some((Json::Null, pos + 4))
        } else {
            None
        }
    } else if c == 't' {
        if s.len() - pos >= 4 && s[pos + 1] == 'r' && s[pos + 2] == 'u' && s[pos + 3] == 'e' {
            Some((Json::Bool(true), pos + 4))
        } else {
            None
        }
    } else if c == 'f' {
        if s.len() - pos >= 5 && s[pos + 1] == 'a' && s[pos + 2] == 'l' && s[pos + 3] == 's'
            && s[pos + 4] == 'e' {
            Some((Json::Bool(false), pos + 5))
        } else {
            None
        }
    } else if c == '[' {
        let q = skip_ws_exec(s, pos + 1);
        if q < s.len() && s[q] == ']' {
            proof {
                assert(json_views(Seq::<Json>::empty(), 0) =~= Seq::<JsonV>::empty());
            }
            Some((Json::Arr(Vec::new()), q + 1))
        } else {
            match parse_elements_exec(s, q) {
                Some((items, p)) => Some((Json::Arr(items), p)),
                None => None,
            }
        }
    } else if c == '{' {
        let q = skip_ws_exec(s, pos + 1);
        if q < s.len() && s[q] == '}' {
            proof {
                assert(member_views(Seq::<(Vec<char>, Json)>::empty(), 0) =~= Seq::<
                    (Seq<char>, JsonV),
                >::empty());
            }
            Some((Json::Obj(Vec::new()), q + 1))
        } else {
            match parse_members_exec(s, q) {
                Some((fields, p)) => Some((Json::Obj(fields), p)),
                None => None,
            }
        }
    } else {
        parse_number_exec(s, pos)
    }
}

/// Parse the elements of a nonempty array from the first element on.
fn parse_elements_exec(s: &Vec<char>, pos: usize) -> (r: Option<(Vec<Json>, usize)>)
    requires
        pos <= s@.len(),
    ensures
        match parse_elements(s@, pos as int) {
            Some((items, p)) => r matches Some((js, q)) && json_views(js@, 0) == items && q as int
                == p && q <= s@.len(),
            None => r is None,
        },
    decreases s@.len() - pos, 4int,
{
    match parse_value_exec(s, pos) {
        None => None,
        Some((v, p)) => {
            if p <= pos {
                return None;
            }
            let q = skip_ws_exec(s, p);
            if q < s.len() && s[q] == ',' {
                match parse_elements_exec(s, q + 1) {
                    Some((items, p2)) => {
                        let ghost vg = v;
                        let ghost old_items = items@;
                        let mut items = items;
                        items.insert(0, v);
                        proof {
                            lemma_json_views_prepend(old_items, vg);
                            assert(items@ == old_items.insert(0, vg));
                        }
                        Some((items, p2))
                    },
                    None => None,
                }
            } else if q < s.len() && s[q] == ']' {
                let ghost vg = v;
                let mut items: Vec<Json> = Vec::new();
                items.push(v);
                proof {
                    lemma_json_views_prepend(Seq::<Json>::empty(), vg);
                    assert(Seq::<Json>::empty().insert(0, vg) =~= items@);
                    assert(json_views(Seq::<Json>::empty(), 0) =~= Seq::<JsonV>::empty());
                    assert(seq![json_view(vg)] + Seq::<JsonV>::empty() =~= seq![json_view(vg)]);
                }
                Some((items, q + 1))
            } else {
                None
            }
        },
    }
}

/// Parse the members of a nonempty object from the first key on.
fn parse_members_exec(s: &Vec<char>, pos: usize) -> (r: Option<(Vec<(Vec<char>, Json)>, usize)>)
    requires
        pos <= s@.len(),
    ensures
        match parse_members(s@, pos as int) {
            Some((fields, p)) => r matches Some((fs, q)) && member_views(fs@, 0) == fields && q
                as int == p && q <= s@.len(),
            None => r is None,
        },
    decreases s@.len() - pos, 4int,
{
    if pos >= s.len() {
        return None;
    }
    let k = skip_ws_exec(s, pos);
    if !(k < s.len()) {
        return None;
    }
    if s[k] != '"' {
        return None;
    }
    match parse_string_exec(s, k + 1) {
        None => None,
        Some((key, p)) => {
            if p <= pos {
                return None;
            }
            let q = skip_ws_exec(s, p);
            if !(q < s.len()) {
                return None;
            }
            if s[q] != ':' {
                return None;
            }
            match parse_value_exec(s, q + 1) {
                None => None,
                Some((v, p2)) => {
                    if p2 <= q {
                        return None;
                    }
                    let q2 = skip_ws_exec(s, p2);
                    if q2 < s.len() && s[q2] == ',' {
                        match parse_members_exec(s, q2 + 1) {
                            Some((fields, p3)) => {
                                let ghost kg = key;
                                let ghost vg = v;
                                let ghost old_fields = fields@;
                                let mut fields = fields;
                                fields.insert(0, (key, v));
                                proof {
                                    lemma_member_views_prepend(old_fields, kg, vg);
                                    assert(fields@ == old_fields.insert(0, (kg, vg)));
                                }
                                Some((fields, p3))
                            },
                            None => None,
                        }
                    } else if q2 < s.len() && s[q2] == '}' {
                        let ghost kg = key;
                        let ghost vg = v;
                        let mut fields: Vec<(Vec<char>, Json)> = Vec::new();
                        fields.push((key, v));
                        proof {
                            lemma_member_views_prepend(Seq::<(Vec<char>, Json)>::empty(), kg, vg);
                            assert(Seq::<(Vec<char>, Json)>::empty().insert(0, (kg, vg))
                                =~= fields@);
                            assert(member_views(Seq::<(Vec<char>, Json)>::empty(), 0) =~= Seq::<
                                (Seq<char>, JsonV),
                            >::empty());
                            assert(seq![(kg@, json_view(vg))] + Seq::<(Seq<char>, JsonV)>::empty()
                                =~= seq![(kg@, json_view(vg))]);
                        }
                        Some((fields, q2 + 1))
                    } else {
                        None
                    }
                },
            }
        },
    }
}

/// Pushing one value appends its view to the sequence of views.
pub proof fn lemma_json_views_push(items: Seq<Json>, v: Json)
    ensures
        json_views(items.push(v), 0) == json_views(items, 0) + seq![json_view(v)],
{
    lemma_json_views_index(items, 0);
    lemma_json_views_index(items.push(v), 0);
    let lhs = json_views(items.push(v), 0);
    let rhs = json_views(items, 0) + seq![json_view(v)];
    assert(lhs.len() == rhs.len());
    assert forall|k: int| 0 <= k < lhs.len() implies lhs[k] == rhs[k] by {
        if k < items.len() {
            assert(items.push(v)[k] == items[k]);
            assert(lhs[k] == json_view(items[k]));
            assert(rhs[k] == json_views(items, 0)[k]);
        } else {
            assert(items.push(v)[k] == v);
            assert(lhs[k] == json_view(v));
        }
    }
    assert(lhs =~= rhs);
}

/// Pushing one member appends its view to the sequence of member views.
pub proof fn lemma_member_views_push(fields: Seq<(Vec<char>, Json)>, kv: Vec<char>, v: Json)
    ensures
        member_views(fields.push((kv, v)), 0) == member_views(fields, 0) + seq![
            (kv@, json_view(v)),
        ],
{
    lemma_member_views_index(fields, 0);
    lemma_member_views_index(fields.push((kv, v)), 0);
    let lhs = member_views(fields.push((kv, v)), 0);
    let rhs = member_views(fields, 0) + seq![(kv@, json_view(v))];
    assert(lhs.len() == rhs.len());
    assert forall|k: int| 0 <= k < lhs.len() implies lhs[k] == rhs[k] by {
        if k < fields.len() {
            assert(fields.push((kv, v))[k] == fields[k]);
            assert(lhs[k] == (fields[k].0@, json_view(fields[k].1)));
            assert(rhs[k] == member_views(fields, 0)[k]);
        } else {
            assert(fields.push((kv, v))[k] == (kv, v));
            assert(lhs[k] == (kv@, json_view(v)));
        }
    }
    assert(lhs =~= rhs);
}

/// Prepending one value prepends its view to the sequence of views.
proof fn lemma_json_views_prepend(items: Seq<Json>, v: Json)
    ensures
        json_views(items.insert(0, v), 0) == seq![json_view(v)] + json_views(items, 0),
{
    lemma_json_views_index(items, 0);
    lemma_json_views_index(items.insert(0, v), 0);
    let lhs = json_views(items.insert(0, v), 0);
    let rhs = seq![json_view(v)] + json_views(items, 0);
    assert(lhs.len() == rhs.len());
    assert forall|k: int| 0 <= k < lhs.len() implies lhs[k] == rhs[k] by {
        if k == 0 {
            assert(items.insert(0, v)[0] == v);
            assert(lhs[0] == json_view(v));
        } else {
            assert(items.insert(0, v)[k] == items[k - 1]);
            assert(lhs[k] == json_view(items[k - 1]));
            assert(rhs[k] == json_views(items, 0)[k - 1]);
            assert(json_views(items, 0)[k - 1] == json_view(items[k - 1]));
        }
    }
    assert(lhs =~= rhs);
}

/// Prepending one member prepends its view to the sequence of member views.
proof fn lemma_member_views_prepend(fields: Seq<(Vec<char>, Json)>, kv: Vec<char>, v: Json)
    ensures
        member_views(fields.insert(0, (kv, v)), 0) == seq![(kv@, json_view(v))] + member_views(
            fields,
            0,
        ),
{
    lemma_member_views_index(fields, 0);
    lemma_member_views_index(fields.insert(0, (kv, v)), 0);
    let lhs = member_views(fields.insert(0, (kv, v)), 0);
    let rhs = seq![(kv@, json_view(v))] + member_views(fields, 0);
    assert(lhs.len() == rhs.len());
    assert forall|k: int| 0 <= k < lhs.len() implies lhs[k] == rhs[k] by {
        if k == 0 {
            assert(fields.insert(0, (kv, v))[0] == (kv, v));
            assert(lhs[0] == (kv@, json_view(v)));
        } else {
            assert(fields.insert(0, (kv, v))[k] == fields[k - 1]);
            assert(lhs[k] == (fields[k - 1].0@, json_view(fields[k - 1].1)));
            assert(rhs[k] == member_views(fields, 0)[k - 1]);
            assert(member_views(fields, 0)[k - 1] == (fields[k - 1].0@, json_view(
                fields[k - 1].1,
            )));
        }
    }
    assert(lhs =~= rhs);
}

/// Parse a whole character vector as one JSON document.
pub fn parse_json(text: &Vec<char>) -> (r: Option<Json>)
    ensures
        match parse_json_spec(text@) {
            Some(v) => r matches Some(j) && j@ == v,
            None => r is None,
        },
{
    match parse_value_exec(text, 0) {
        Some((j, p)) => {
            let q = skip_ws_exec(text, p);
            if q == text.len() {
                Some(j)
            } else {
                None
            }
        },
        None => None,
    }
}

/// Parse a whole document: one value with nothing but whitespace after it.
pub open spec fn parse_json_spec(s: Seq<char>) -> Option<JsonV> {
    match parse_value(s, 0) {
        Some((v, p)) => if 0 <= p <= s.len() && skip_ws(s, p) == s.len() {
            Some(v)
        } else {
            None
        },
        None => None,
    }
}


} // verus!

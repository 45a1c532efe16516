//! A model of the JSON values that cross the wire, a verified compact
//! encoder, and a verified parser.
//!
//! The wire protocol is newline-delimited JSON text, so the grammar is part
//! of this library's own logic.  Values are modelled by [`JsonValue`]
//! (numbers are integers: the protocol's payloads carry ids, flags and
//! counts, never fractions).  The encoder emits the compact form with `"`,
//! `\` and control characters escaped, so an encoded value never contains a
//! raw newline; the parser accepts that form back, plus optional whitespace
//! between tokens and the standard short escapes.

use vstd::prelude::*;

verus! {

use vstd::std_specs::iter::IteratorSpec;

/// Spec-level image of a JSON value: strings as character sequences,
/// numbers as unbounded integers.
pub enum JsonData {
    Null,
    Bool(bool),
    Int(int),
    Str(Seq<char>),
    Arr(Seq<JsonData>),
    Obj(Seq<(Seq<char>, JsonData)>),
}

/// A JSON value as held at run time.  Object members keep their order, and
/// duplicate keys are kept as-is; interpretation (key lookup) is left to
/// the protocol layer.
#[derive(Debug, PartialEq)]
pub enum JsonValue {
    Null,
    Bool(bool),
    Int(i64),
    Str(String),
    Arr(Vec<JsonValue>),
    Obj(Vec<(String, JsonValue)>),
}

/// Spec image of a run-time JSON value.
pub open spec fn json_data_of(v: JsonValue) -> JsonData
    decreases v, 1int,
    via json_data_of_dec
{
    match v {
        JsonValue::Null => JsonData::Null,
        JsonValue::Bool(b) => JsonData::Bool(b),
        JsonValue::Int(i) => JsonData::Int(i as int),
        JsonValue::Str(s) => JsonData::Str(s@),
        JsonValue::Arr(elems) => JsonData::Arr(vals_view(elems@)),
        JsonValue::Obj(members) => JsonData::Obj(members_view(members@)),
    }
}

/// Spec images of a sequence of run-time JSON values.
pub open spec fn vals_view(elems: Seq<JsonValue>) -> Seq<JsonData>
    decreases elems, 0int,
{
    if elems.len() == 0 {
        Seq::empty()
    } else {
        vals_view(elems.subrange(0, elems.len() - 1)).push(json_data_of(elems[elems.len() - 1]))
    }
}

/// Spec images of a sequence of run-time object members.
pub open spec fn members_view(ms: Seq<(String, JsonValue)>) -> Seq<(Seq<char>, JsonData)>
    decreases ms, 0int,
{
    if ms.len() == 0 {
        Seq::empty()
    } else {
        members_view(ms.subrange(0, ms.len() - 1)).push(
            (ms[ms.len() - 1].0@, json_data_of(ms[ms.len() - 1].1)),
        )
    }
}

#[via_fn]
proof fn json_data_of_dec(v: JsonValue) {
    match v {
        JsonValue::Arr(elems) => {
            assert(decreases_to!(v => elems));
            assert(decreases_to!(elems => elems@));
        }
        JsonValue::Obj(members) => {
            assert(decreases_to!(v => members));
            assert(decreases_to!(members => members@));
        }
        _ => {}
    }
}

impl DeepView for JsonValue {
    type V = JsonData;

    open spec fn deep_view(&self) -> JsonData {
        json_data_of(*self)
    }
}

// ---------------------------------------------------------------------------
// The encoding, as a specification.
// ---------------------------------------------------------------------------

/// The decimal digit character for `n` in `0..10`.
pub open spec fn dec_char(n: int) -> char {
    if n == 0 { '0' } else if n == 1 { '1' } else if n == 2 { '2' } else if n == 3 { '3' }
    else if n == 4 { '4' } else if n == 5 { '5' } else if n == 6 { '6' } else if n == 7 { '7' }
    else if n == 8 { '8' } else { '9' }
}

/// The lower-case hexadecimal digit character for `n` in `0..16`.
pub open spec fn hex_char(n: int) -> char {
    if n == 10 { 'a' } else if n == 11 { 'b' } else if n == 12 { 'c' }
    else if n == 13 { 'd' } else if n == 14 { 'e' } else if n == 15 { 'f' }
    else { dec_char(n) }
}

/// Decimal digits of `n`, most significant first.
pub open spec fn nat_chars(n: nat) -> Seq<char>
    decreases n,
{
    if n < 10 { seq![dec_char(n as int)] } else { nat_chars(n / 10) + seq![dec_char((n % 10) as int)] }
}

/// Decimal form of `i`, with a leading minus sign when negative.
pub open spec fn int_chars(i: int) -> Seq<char> {
    if i < 0 { seq!['-'] + nat_chars((-i) as nat) } else { nat_chars(i as nat) }
}

/// How one character appears inside a JSON string literal: `"` and `\` get
/// a backslash escape, control characters become `\u00XX`, and everything
/// else stands for itself.
pub open spec fn escape_char(c: char) -> Seq<char> {
    if c == '"' { seq!['\\', '"'] }
    else if c == '\\' { seq!['\\', '\\'] }
    else if (c as u32) < 0x20 {
        seq!['\\', 'u', '0', '0', hex_char((c as u32) as int / 16), hex_char((c as u32) as int % 16)]
    }
    else { seq![c] }
}

/// The escaped body of a JSON string literal.
pub open spec fn escape_str(s: Seq<char>) -> Seq<char>
    decreases s.len(),
{
    if s.len() == 0 { Seq::empty() } else { escape_char(s[0]) + escape_str(s.drop_first()) }
}

/// The compact encoding of a JSON value: no whitespace, object members in
/// order, strings escaped as [`escape_char`] says.
pub open spec fn json_chars(v: JsonData) -> Seq<char>
    decreases v, 0int,
{
    match v {
        JsonData::Null => seq!['n', 'u', 'l', 'l'],
        JsonData::Bool(b) => if b { seq!['t', 'r', 'u', 'e'] } else { seq!['f', 'a', 'l', 's', 'e'] },
        JsonData::Int(i) => int_chars(i),
        JsonData::Str(s) => seq!['"'] + escape_str(s) + seq!['"'],
        JsonData::Arr(elems) => seq!['['] + arr_chars_from(elems, 0) + seq![']'],
        JsonData::Obj(members) => seq!['{'] + obj_chars_from(members, 0) + seq!['}'],
    }
}

/// The comma-separated encodings of `elems[i..]`.
pub open spec fn arr_chars_from(elems: Seq<JsonData>, i: int) -> Seq<char>
    decreases elems, elems.len() - i,
{
    if i < 0 || i >= elems.len() { Seq::empty() }
    else if i + 1 == elems.len() { json_chars(elems[i]) }
    else { json_chars(elems[i]) + seq![','] + arr_chars_from(elems, i + 1) }
}

/// The comma-separated `"key":value` encodings of `members[i..]`.
pub open spec fn obj_chars_from(members: Seq<(Seq<char>, JsonData)>, i: int) -> Seq<char>
    decreases members, members.len() - i,
{
    if i < 0 || i >= members.len() { Seq::empty() }
    else {
        let entry = seq!['"'] + escape_str(members[i].0) + seq!['"', ':'] + json_chars(members[i].1);
        if i + 1 == members.len() { entry } else { entry + seq![','] + obj_chars_from(members, i + 1) }
    }
}

// ---------------------------------------------------------------------------
// The grammar, as a specification parser.
//
// The parser accepts the compact encoding above, plus whitespace between
// tokens, the short escapes `\" \\ \/ \b \f \n \r \t`, and `\uXXXX` escapes
// of non-surrogate code points.  Numbers are integers that fit in an
// `i64` (leading zeros are tolerated); fractions, exponents, surrogate
// escapes and unescaped control characters are rejected.
//
// Recursive productions carry explicit fuel; one unit is spent per
// non-empty array or object level and per element, so any input of length
// `n` parses within fuel `n`, which is what [`spec_parse_json`] supplies.
// ---------------------------------------------------------------------------

pub open spec fn is_ws(c: char) -> bool {
    c == ' ' || c == '\t' || c == '\r' || c == '\n'
}

pub open spec fn is_dec_digit(c: char) -> bool {
    48 <= (c as u32) && (c as u32) <= 57
}

/// The numeric value of a decimal digit character.
pub open spec fn dval(c: char) -> nat {
    if is_dec_digit(c) { ((c as u32) - 48) as nat } else { 0 }
}

pub open spec fn is_hex_digit(c: char) -> bool {
    is_dec_digit(c) || (97 <= (c as u32) && (c as u32) <= 102) || (65 <= (c as u32) && (c as u32)
        <= 70)
}

/// The numeric value of a hexadecimal digit character.
pub open spec fn hex_val(c: char) -> int {
    if is_dec_digit(c) { (c as u32) - 48 }
    else if 97 <= (c as u32) && (c as u32) <= 102 { (c as u32) - 97 + 10 }
    else if 65 <= (c as u32) && (c as u32) <= 70 { (c as u32) - 65 + 10 }
    else { 0 }
}

/// The first index at or after `i` holding no whitespace.
pub open spec fn skip_ws(s: Seq<char>, i: int) -> int
    decreases s.len() - i,
{
    if 0 <= i && i < s.len() && is_ws(s[i]) { skip_ws(s, i + 1) } else { i }
}

/// The first index at or after `i` holding no decimal digit.
pub open spec fn digits_end(s: Seq<char>, i: int) -> int
    decreases s.len() - i,
{
    if 0 <= i && i < s.len() && is_dec_digit(s[i]) { digits_end(s, i + 1) } else { i }
}

/// The value of the digit run `s[i..e]`.
pub open spec fn digits_val(s: Seq<char>, i: int, e: int) -> nat
    decreases e - i,
{
    if i >= e { 0 } else { digits_val(s, i, e - 1) * 10 + dval(s[e - 1]) }
}

/// The character a short escape stands for, if `c` names one.
pub open spec fn simple_escape(c: char) -> Option<char> {
    if c == '"' { Some('"') } else if c == '\\' { Some('\\') } else if c == '/' { Some('/') }
    else if c == 'b' { Some('\u{8}') } else if c == 'f' { Some('\u{c}') }
    else if c == 'n' { Some('\n') } else if c == 'r' { Some('\r') }
    else if c == 't' { Some('\t') } else { None }
}

/// Parses the body of a string literal starting at `i` (just after the
/// opening quote), up to and including the closing quote.
pub open spec fn parse_str_body(s: Seq<char>, i: int) -> Option<(Seq<char>, int)>
    decreases s.len() - i,
{
    if i < 0 || i >= s.len() { None }
    else if s[i] == '"' { Some((Seq::empty(), i + 1)) }
    else if s[i] == '\\' {
        if i + 1 >= s.len() { None }
        else {
            let e = s[i + 1];
            if e == 'u' {
                if i + 6 <= s.len() && is_hex_digit(s[i + 2]) && is_hex_digit(s[i + 3])
                    && is_hex_digit(s[i + 4]) && is_hex_digit(s[i + 5]) {
                    let code = hex_val(s[i + 2]) * 4096 + hex_val(s[i + 3]) * 256 + hex_val(
                        s[i + 4],
                    ) * 16 + hex_val(s[i + 5]);
                    if 0xD800 <= code && code < 0xE000 { None }
                    else {
                        match parse_str_body(s, i + 6) {
                            Some((rest, k)) => Some((seq![(code as u32) as char] + rest, k)),
                            None => None,
                        }
                    }
                } else { None }
            } else {
                match simple_escape(e) {
                    Some(c) => match parse_str_body(s, i + 2) {
                        Some((rest, k)) => Some((seq![c] + rest, k)),
                        None => None,
                    },
                    None => None,
                }
            }
        }
    }
    else if (s[i] as u32) < 0x20 { None }
    else {
        match parse_str_body(s, i + 1) {
            Some((rest, k)) => Some((seq![s[i]] + rest, k)),
            None => None,
        }
    }
}

/// Parses a string literal whose opening quote stands at `j`.
pub open spec fn parse_string_at(s: Seq<char>, j: int) -> Option<(Seq<char>, int)> {
    if 0 <= j && j < s.len() && s[j] == '"' { parse_str_body(s, j + 1) } else { None }
}

/// Parses an integer starting at `j`; fails if the value does not fit in
/// an `i64`.
pub open spec fn parse_int_at(s: Seq<char>, j: int) -> Option<(JsonData, int)> {
    if 0 <= j && j < s.len() && s[j] == '-' {
        let e = digits_end(s, j + 1);
        if e == j + 1 { None }
        else {
            let mag = digits_val(s, j + 1, e);
            if mag <= 0x8000_0000_0000_0000 { Some((JsonData::Int(-(mag as int)), e)) } else { None }
        }
    } else if 0 <= j && j < s.len() {
        let e = digits_end(s, j);
        if e == j { None }
        else {
            let mag = digits_val(s, j, e);
            if mag <= 0x7fff_ffff_ffff_ffff { Some((JsonData::Int(mag as int), e)) } else { None }
        }
    } else { None }
}

/// Parses one JSON value starting at `i` (whitespace allowed first).
pub open spec fn parse_value(s: Seq<char>, i: int, fuel: nat) -> Option<(JsonData, int)>
    decreases fuel, 0int,
{
    if fuel == 0 { None }
    else {
        let j = skip_ws(s, i);
        if j < 0 || j >= s.len() { None }
        else {
            let c = s[j];
            if c == 'n' {
                if j + 4 <= s.len() && s[j + 1] == 'u' && s[j + 2] == 'l' && s[j + 3] == 'l' {
                    Some((JsonData::Null, j + 4))
                } else { None }
            } else if c == 't' {
                if j + 4 <= s.len() && s[j + 1] == 'r' && s[j + 2] == 'u' && s[j + 3] == 'e' {
                    Some((JsonData::Bool(true), j + 4))
                } else { None }
            } else if c == 'f' {
                if j + 5 <= s.len() && s[j + 1] == 'a' && s[j + 2] == 'l' && s[j + 3] == 's'
                    && s[j + 4] == 'e' {
                    Some((JsonData::Bool(false), j + 5))
                } else { None }
            } else if c == '"' {
                match parse_string_at(s, j) {
                    Some((cs, k)) => Some((JsonData::Str(cs), k)),
                    None => None,
                }
            } else if c == '-' || is_dec_digit(c) {
                parse_int_at(s, j)
            } else if c == '[' {
                let k = skip_ws(s, j + 1);
                if k < s.len() && s[k] == ']' { Some((JsonData::Arr(Seq::empty()), k + 1)) }
                else {
                    match parse_arr_items(s, j + 1, (fuel - 1) as nat) {
                        Some((elems, end)) => Some((JsonData::Arr(elems), end)),
                        None => None,
                    }
                }
            } else if c == '{' {
                let k = skip_ws(s, j + 1);
                if k < s.len() && s[k] == '}' { Some((JsonData::Obj(Seq::empty()), k + 1)) }
                else {
                    match parse_obj_items(s, j + 1, (fuel - 1) as nat) {
                        Some((members, end)) => Some((JsonData::Obj(members), end)),
                        None => None,
                    }
                }
            } else { None }
        }
    }
}

/// Parses the elements of a non-empty array, up to and including `]`.
pub open spec fn parse_arr_items(s: Seq<char>, i: int, fuel: nat) -> Option<(Seq<JsonData>, int)>
    decreases fuel, 1int,
{
    if fuel == 0 { None }
    else {
        match parse_value(s, i, fuel) {
            Some((v, k)) => {
                let m = skip_ws(s, k);
                if m < s.len() && s[m] == ',' {
                    match parse_arr_items(s, m + 1, (fuel - 1) as nat) {
                        Some((rest, end)) => Some((seq![v] + rest, end)),
                        None => None,
                    }
                } else if m < s.len() && s[m] == ']' {
                    Some((seq![v], m + 1))
                } else { None }
            }
            None => None,
        }
    }
}

/// Parses the members of a non-empty object, up to and including `}`.
pub open spec fn parse_obj_items(s: Seq<char>, i: int, fuel: nat) -> Option<
    (Seq<(Seq<char>, JsonData)>, int),
>
    decreases fuel, 1int,
{
    if fuel == 0 { None }
    else {
        let j = skip_ws(s, i);
        match parse_string_at(s, j) {
            Some((key, k)) => {
                let m = skip_ws(s, k);
                if m < s.len() && s[m] == ':' {
                    match parse_value(s, m + 1, fuel) {
                        Some((v, e)) => {
                            let w = skip_ws(s, e);
                            if w < s.len() && s[w] == ',' {
                                match parse_obj_items(s, w + 1, (fuel - 1) as nat) {
                                    Some((rest, end)) => Some((seq![(key, v)] + rest, end)),
                                    None => None,
                                }
                            } else if w < s.len() && s[w] == '}' {
                                Some((seq![(key, v)], w + 1))
                            } else { None }
                        }
                        None => None,
                    }
                } else { None }
            }
            None => None,
        }
    }
}

/// What a whole text denotes: one JSON value, with nothing but whitespace
/// around it.
pub open spec fn spec_parse_json(s: Seq<char>) -> Option<JsonData> {
    match parse_value(s, 0, s.len()) {
        Some((v, end)) => if skip_ws(s, end) == s.len() { Some(v) } else { None },
        None => None,
    }
}

// ---------------------------------------------------------------------------
// Character sequences and strings.
// ---------------------------------------------------------------------------

/// The characters of `s`, in order, as a vector.
pub fn str_chars(s: &str) -> (r: Vec<char>)
    ensures
        r@ == s@,
{
    broadcast use vstd::string::axiom_spec_iter;

    let mut it = s.chars();
    let mut out: Vec<char> = Vec::new();
    proof {
        assert(out@ + it.remaining() =~= s@);
    }
    loop
        invariant
            out@ + it.remaining() == s@,
        decreases s@.len() - out@.len(),
    {
        let ghost prev_remaining = it.remaining();
        let c_opt = it.next();
        match c_opt {
            Some(c) => {
                out.push(c);
                proof {
                    assert(out@ + it.remaining() =~= s@);
                }
            }
            None => {
                proof {
                    assert(prev_remaining.len() == 0);
                    assert(out@ =~= s@);
                }
                return out;
            }
        }
    }
}

/// Relies on `String: FromIterator<char>`: collecting characters yields the
/// string of exactly those characters, in order.
#[verifier::external_body]
pub fn chars_to_string(v: &Vec<char>) -> (r: String)
    ensures
        r@ == v@,
{
    v.iter().collect()
}

// ---------------------------------------------------------------------------
// The executable encoder.
// ---------------------------------------------------------------------------

/// `vals_view` is the element-wise spec image.
pub proof fn lemma_vals_view(elems: Seq<JsonValue>)
    ensures
        vals_view(elems).len() == elems.len(),
        forall|i: int| 0 <= i < elems.len() ==>
            #[trigger] vals_view(elems)[i] == json_data_of(elems[i]),
    decreases elems.len(),
{
    if elems.len() > 0 {
        lemma_vals_view(elems.subrange(0, elems.len() - 1));
        assert forall|i: int| 0 <= i < elems.len() implies
            #[trigger] vals_view(elems)[i] == json_data_of(elems[i]) by {
            if i < elems.len() - 1 {
                assert(elems.subrange(0, elems.len() - 1)[i] == elems[i]);
            }
        }
    }
}

/// `members_view` is the member-wise spec image.
pub proof fn lemma_members_view(ms: Seq<(String, JsonValue)>)
    ensures
        members_view(ms).len() == ms.len(),
        forall|i: int| 0 <= i < ms.len() ==>
            #[trigger] members_view(ms)[i] == (ms[i].0@, json_data_of(ms[i].1)),
    decreases ms.len(),
{
    if ms.len() > 0 {
        lemma_members_view(ms.subrange(0, ms.len() - 1));
        assert forall|i: int| 0 <= i < ms.len() implies
            #[trigger] members_view(ms)[i] == (ms[i].0@, json_data_of(ms[i].1)) by {
            if i < ms.len() - 1 {
                assert(ms.subrange(0, ms.len() - 1)[i] == ms[i]);
            }
        }
    }
}

/// Escaping a single character is that character's escape.
pub proof fn lemma_escape_str_one(c: char)
    ensures
        escape_str(seq![c]) == escape_char(c),
{
    let s = seq![c];
    assert(s.drop_first() =~= Seq::<char>::empty());
    assert(escape_str(s) == escape_char(c) + escape_str(Seq::<char>::empty()));
    assert(escape_char(c) + Seq::<char>::empty() =~= escape_char(c));
}

/// Escaping distributes over concatenation.
pub proof fn lemma_escape_str_app(a: Seq<char>, b: Seq<char>)
    ensures
        escape_str(a + b) == escape_str(a) + escape_str(b),
    decreases a.len(),
{
    if a.len() == 0 {
        assert(a + b =~= b);
        assert(escape_str(a) + escape_str(b) =~= escape_str(b));
    } else {
        lemma_escape_str_app(a.drop_first(), b);
        assert((a + b).drop_first() =~= a.drop_first() + b);
        assert(escape_char((a + b)[0]) + (escape_str(a.drop_first()) + escape_str(b))
            =~= (escape_char(a[0]) + escape_str(a.drop_first())) + escape_str(b));
    }
}

fn dec_char_x(n: u32) -> (c: char)
    requires
        n < 10,
    ensures
        c == dec_char(n as int),
{
    if n == 0 { '0' } else if n == 1 { '1' } else if n == 2 { '2' } else if n == 3 { '3' }
    else if n == 4 { '4' } else if n == 5 { '5' } else if n == 6 { '6' } else if n == 7 { '7' }
    else if n == 8 { '8' } else { '9' }
}

fn hex_char_x(n: u32) -> (c: char)
    requires
        n < 16,
    ensures
        c == hex_char(n as int),
{
    if n == 10 { 'a' } else if n == 11 { 'b' } else if n == 12 { 'c' }
    else if n == 13 { 'd' } else if n == 14 { 'e' } else if n == 15 { 'f' }
    else { dec_char_x(n) }
}

fn write_nat(n: u64, out: &mut Vec<char>)
    ensures
        final(out)@ == old(out)@ + nat_chars(n as nat),
    decreases n,
{
    if n < 10 {
        out.push(dec_char_x(n as u32));
    } else {
        write_nat(n / 10, out);
        out.push(dec_char_x((n % 10) as u32));
        proof {
            assert(out@ =~= old(out)@ + nat_chars(n as nat));
        }
    }
}

fn write_int(i: i64, out: &mut Vec<char>)
    ensures
        final(out)@ == old(out)@ + int_chars(i as int),
{
    if i >= 0 {
        write_nat(i as u64, out);
    } else {
        let mag: u64 = ((-(i as i128)) as u64);
        proof {
            assert(mag as int == -(i as int));
        }
        out.push('-');
        write_nat(mag, out);
        proof {
            assert(out@ =~= old(out)@ + int_chars(i as int));
        }
    }
}

/// Writes the body of a JSON string literal, escaped.
fn write_escaped(s: &str, out: &mut Vec<char>)
    ensures
        final(out)@ == old(out)@ + escape_str(s@),
{
    let cs = str_chars(s);
    let mut k: usize = 0;
    proof {
        assert(s@.subrange(0, 0) =~= Seq::<char>::empty());
    }
    while k < cs.len()
        invariant
            k <= cs.len(),
            cs@ == s@,
            out@ == old(out)@ + escape_str(s@.subrange(0, k as int)),
        decreases cs.len() - k,
    {
        let c = cs[k];
        if c == '"' {
            out.push('\\');
            out.push('"');
        } else if c == '\\' {
            out.push('\\');
            out.push('\\');
        } else {
            let code = c as u32;
            if code < 0x20 {
                out.push('\\');
                out.push('u');
                out.push('0');
                out.push('0');
                out.push(hex_char_x(code / 16));
                out.push(hex_char_x(code % 16));
            } else {
                out.push(c);
            }
        }
        proof {
            lemma_escape_str_app(s@.subrange(0, k as int), seq![s@[k as int]]);
            assert(s@.subrange(0, k as int) + seq![s@[k as int]] =~= s@.subrange(0, k as int + 1));
            lemma_escape_str_one(s@[k as int]);
            assert(out@ =~= old(out)@ + escape_str(s@.subrange(0, k as int + 1)));
        }
        k += 1;
    }
    proof {
        assert(s@.subrange(0, cs@.len() as int) =~= s@);
    }
}

/// Writes the compact encoding of `v`.
pub fn write_value(v: &JsonValue, out: &mut Vec<char>)
    ensures
        final(out)@ == old(out)@ + json_chars(v.deep_view()),
    decreases v, 0int, 1int,
{
    match v {
        JsonValue::Null => {
            out.push('n');
            out.push('u');
            out.push('l');
            out.push('l');
            proof {
                assert(out@ =~= old(out)@ + json_chars(v.deep_view()));
            }
        }
        JsonValue::Bool(b) => {
            if *b {
                out.push('t');
                out.push('r');
                out.push('u');
                out.push('e');
            } else {
                out.push('f');
                out.push('a');
                out.push('l');
                out.push('s');
                out.push('e');
            }
            proof {
                assert(out@ =~= old(out)@ + json_chars(v.deep_view()));
            }
        }
        JsonValue::Int(i) => {
            write_int(*i, out);
        }
        JsonValue::Str(s) => {
            out.push('"');
            write_escaped(s.as_str(), out);
            out.push('"');
            proof {
                assert(out@ =~= old(out)@ + json_chars(v.deep_view()));
            }
        }
        JsonValue::Arr(elems) => {
            proof {
                assert(decreases_to!(*v => *elems));
                assert(decreases_to!(*elems => elems@));
            }
            out.push('[');
            if elems.len() > 0 {
                write_arr_from(elems, 0, out);
            }
            out.push(']');
            proof {
                if elems@.len() == 0 {
                    lemma_vals_view(elems@);
                }
                assert(out@ =~= old(out)@ + json_chars(v.deep_view()));
            }
        }
        JsonValue::Obj(members) => {
            proof {
                assert(decreases_to!(*v => *members));
                assert(decreases_to!(*members => members@));
            }
            out.push('{');
            if members.len() > 0 {
                write_obj_from(members, 0, out);
            }
            out.push('}');
            proof {
                if members@.len() == 0 {
                    lemma_members_view(members@);
                }
                assert(out@ =~= old(out)@ + json_chars(v.deep_view()));
            }
        }
    }
}

/// Writes the comma-separated encodings of `elems[i..]`.
fn write_arr_from(elems: &Vec<JsonValue>, i: usize, out: &mut Vec<char>)
    requires
        i < elems@.len(),
    ensures
        final(out)@ == old(out)@ + arr_chars_from(vals_view(elems@), i as int),
    decreases elems@, elems@.len() - i, 0int,
{
    proof {
        lemma_vals_view(elems@);
    }
    let n = elems.len();
    write_value(&elems[i], out);
    if i + 1 < n {
        out.push(',');
        write_arr_from(elems, i + 1, out);
        proof {
            assert(out@ =~= old(out)@ + arr_chars_from(vals_view(elems@), i as int));
        }
    }
}

/// Writes the comma-separated `"key":value` encodings of `members[i..]`.
fn write_obj_from(members: &Vec<(String, JsonValue)>, i: usize, out: &mut Vec<char>)
    requires
        i < members@.len(),
    ensures
        final(out)@ == old(out)@ + obj_chars_from(members_view(members@), i as int),
    decreases members@, members@.len() - i, 0int,
{
    proof {
        lemma_members_view(members@);
    }
    out.push('"');
    write_escaped(members[i].0.as_str(), out);
    out.push('"');
    out.push(':');
    let n = members.len();
    write_value(&members[i].1, out);
    if i + 1 < n {
        out.push(',');
        write_obj_from(members, i + 1, out);
    }
    proof {
        assert(out@ =~= old(out)@ + obj_chars_from(members_view(members@), i as int));
    }
}

// ---------------------------------------------------------------------------
// Well-formed values: integers that fit in an `i64`.  Every value built
// from [`JsonValue`] is well formed; parsing rejects anything else, so the
// round-trip law below is stated for well-formed values.
// ---------------------------------------------------------------------------

pub open spec fn wf_json(d: JsonData) -> bool
    decreases d, 1int,
{
    match d {
        JsonData::Null => true,
        JsonData::Bool(_) => true,
        JsonData::Int(i) => -0x8000_0000_0000_0000 <= i <= 0x7fff_ffff_ffff_ffff,
        JsonData::Str(_) => true,
        JsonData::Arr(a) => wf_json_seq(a),
        JsonData::Obj(o) => wf_json_members(o),
    }
}

pub open spec fn wf_json_seq(a: Seq<JsonData>) -> bool
    decreases a, 0int,
{
    if a.len() == 0 {
        true
    } else {
        wf_json_seq(a.subrange(0, a.len() - 1)) && wf_json(a[a.len() - 1])
    }
}

pub open spec fn wf_json_members(o: Seq<(Seq<char>, JsonData)>) -> bool
    decreases o, 0int,
{
    if o.len() == 0 {
        true
    } else {
        wf_json_members(o.subrange(0, o.len() - 1)) && wf_json(o[o.len() - 1].1)
    }
}

/// Every element of a well-formed sequence is well formed.
pub proof fn lemma_wf_seq_index(a: Seq<JsonData>)
    requires
        wf_json_seq(a),
    ensures
        forall|k: int| 0 <= k < a.len() ==> wf_json(#[trigger] a[k]),
    decreases a.len(),
{
    if a.len() > 0 {
        lemma_wf_seq_index(a.subrange(0, a.len() - 1));
        assert forall|k: int| 0 <= k < a.len() implies wf_json(#[trigger] a[k]) by {
            if k < a.len() - 1 {
                assert(a.subrange(0, a.len() - 1)[k] == a[k]);
            }
        }
    }
}

/// Every member value of a well-formed member sequence is well formed.
pub proof fn lemma_wf_members_index(o: Seq<(Seq<char>, JsonData)>)
    requires
        wf_json_members(o),
    ensures
        forall|k: int| 0 <= k < o.len() ==> wf_json(#[trigger] o[k].1),
    decreases o.len(),
{
    if o.len() > 0 {
        lemma_wf_members_index(o.subrange(0, o.len() - 1));
        assert forall|k: int| 0 <= k < o.len() implies wf_json(#[trigger] o[k].1) by {
            if k < o.len() - 1 {
                assert(o.subrange(0, o.len() - 1)[k] == o[k]);
            }
        }
    }
}

/// The image of a run-time value is well formed.
pub proof fn lemma_json_data_of_wf(v: JsonValue)
    ensures
        wf_json(json_data_of(v)),
    decreases v, 1int,
{
    match v {
        JsonValue::Arr(elems) => {
            assert(decreases_to!(v => elems));
            assert(decreases_to!(elems => elems@));
            lemma_vals_view_wf(elems@);
        }
        JsonValue::Obj(members) => {
            assert(decreases_to!(v => members));
            assert(decreases_to!(members => members@));
            lemma_members_view_wf(members@);
        }
        _ => {}
    }
}

proof fn lemma_vals_view_wf(elems: Seq<JsonValue>)
    ensures
        wf_json_seq(vals_view(elems)),
    decreases elems, 0int,
{
    if elems.len() > 0 {
        lemma_vals_view_wf(elems.subrange(0, elems.len() - 1));
        lemma_json_data_of_wf(elems[elems.len() - 1]);
        let w = vals_view(elems);
        assert(w.subrange(0, w.len() - 1) =~= vals_view(elems.subrange(0, elems.len() - 1)));
    }
}

proof fn lemma_members_view_wf(ms: Seq<(String, JsonValue)>)
    ensures
        wf_json_members(members_view(ms)),
    decreases ms, 0int,
{
    if ms.len() > 0 {
        lemma_members_view_wf(ms.subrange(0, ms.len() - 1));
        lemma_json_data_of_wf(ms[ms.len() - 1].1);
        let w = members_view(ms);
        assert(w.subrange(0, w.len() - 1) =~= members_view(ms.subrange(0, ms.len() - 1)));
    }
}

// ---------------------------------------------------------------------------
// Range facts about the specification parser.
// ---------------------------------------------------------------------------

/// `digits_end` stays between its start and the end of the text, and
/// everything before it is a digit.
pub proof fn lemma_digits_end_range(s: Seq<char>, i: int)
    requires
        0 <= i <= s.len(),
    ensures
        i <= digits_end(s, i) <= s.len(),
        forall|m: int| i <= m < digits_end(s, i) ==> is_dec_digit(s[m]),
    decreases s.len() - i,
{
    if i < s.len() && is_dec_digit(s[i]) {
        lemma_digits_end_range(s, i + 1);
    }
}

/// A longer digit run never has a smaller value.
pub proof fn lemma_digits_val_mono(s: Seq<char>, i: int, a: int, b: int)
    requires
        a <= b,
    ensures
        digits_val(s, i, a) <= digits_val(s, i, b),
    decreases b - a,
{
    if a < b {
        lemma_digits_val_mono(s, i, a, b - 1);
    }
}

/// A parsed string body ends after its opening position and within the text.
pub proof fn lemma_parse_str_body_range(s: Seq<char>, i: int)
    ensures
        match parse_str_body(s, i) {
            Some((_cs, k)) => i < k <= s.len(),
            None => true,
        },
    decreases s.len() - i,
{
    if 0 <= i && i < s.len() {
        if s[i] == '"' {
        } else if s[i] == '\\' {
            if i + 1 < s.len() {
                if s[i + 1] == 'u' {
                    if i + 6 <= s.len() {
                        lemma_parse_str_body_range(s, i + 6);
                    }
                } else {
                    lemma_parse_str_body_range(s, i + 2);
                }
            }
        } else {
            lemma_parse_str_body_range(s, i + 1);
        }
    }
}

// ---------------------------------------------------------------------------
// The executable parser.
// ---------------------------------------------------------------------------

fn is_ws_x(c: char) -> (r: bool)
    ensures
        r == is_ws(c),
{
    c == ' ' || c == '\t' || c == '\r' || c == '\n'
}

fn is_dec_digit_x(c: char) -> (r: bool)
    ensures
        r == is_dec_digit(c),
{
    let x = c as u32;
    48 <= x && x <= 57
}

fn is_hex_digit_x(c: char) -> (r: bool)
    ensures
        r == is_hex_digit(c),
{
    let x = c as u32;
    (48 <= x && x <= 57) || (97 <= x && x <= 102) || (65 <= x && x <= 70)
}

fn hex_val_x(c: char) -> (r: u32)
    requires
        is_hex_digit(c),
    ensures
        r as int == hex_val(c),
        r < 16,
{
    let x = c as u32;
    if 48 <= x && x <= 57 { x - 48 } else if 97 <= x { x - 97 + 10 } else { x - 65 + 10 }
}

fn skip_ws_x(s: &Vec<char>, i: usize) -> (r: usize)
    requires
        i <= s@.len(),
    ensures
        r as int == skip_ws(s@, i as int),
        i <= r <= s@.len(),
{
    let n = s.len();
    let mut j = i;
    while j < n && is_ws_x(s[j])
        invariant
            i <= j <= n,
            n == s@.len(),
            skip_ws(s@, i as int) == skip_ws(s@, j as int),
        decreases n - j,
    {
        j += 1;
    }
    j
}

fn digits_end_x(s: &Vec<char>, i: usize) -> (r: usize)
    requires
        i <= s@.len(),
    ensures
        r as int == digits_end(s@, i as int),
        i <= r <= s@.len(),
{
    let n = s.len();
    let mut j = i;
    while j < n && is_dec_digit_x(s[j])
        invariant
            i <= j <= n,
            n == s@.len(),
            digits_end(s@, i as int) == digits_end(s@, j as int),
        decreases n - j,
    {
        j += 1;
    }
    j
}

/// Relies on `char::from_u32`: for a Unicode scalar value it returns the
/// character with exactly that code point.
#[verifier::external_body]
pub(crate) fn char_from_code(u: u32) -> (c: char)
    requires
        vstd::utf8::is_scalar(u),
    ensures
        c as u32 == u,
{
    char::from_u32(u).unwrap_or(' ')
}

fn simple_escape_x(c: char) -> (r: Option<char>)
    ensures
        r == simple_escape(c),
{
    if c == '"' { Some('"') } else if c == '\\' { Some('\\') } else if c == '/' { Some('/') }
    else if c == 'b' { Some('\u{8}') } else if c == 'f' { Some('\u{c}') }
    else if c == 'n' { Some('\n') } else if c == 'r' { Some('\r') }
    else if c == 't' { Some('\t') } else { None }
}

/// Parses a string literal whose opening quote stands at `j`.
fn parse_string_x(s: &Vec<char>, j: usize) -> (r: Option<(Vec<char>, usize)>)
    requires
        j <= s@.len(),
    ensures
        match r {
            Some((cs, k)) => parse_string_at(s@, j as int) == Some((cs@, k as int)) && j < k
                <= s@.len(),
            None => parse_string_at(s@, j as int) is None,
        },
{
    let n = s.len();
    if !(j < n && s[j] == '"') {
        return None;
    }
    proof {
        lemma_parse_str_body_range(s@, j as int + 1);
    }
    let mut acc: Vec<char> = Vec::new();
    let mut i = j + 1;
    loop
        invariant
            j + 1 <= i <= n,
            n == s@.len(),
            j < n && s@[j as int] == '"',
            ({
                match parse_str_body(s@, i as int) {
                    Some((rest, k)) => parse_str_body(s@, j as int + 1) == Some(
                        (acc@ + rest, k),
                    ),
                    None => parse_str_body(s@, j as int + 1) is None,
                }
            }),
        decreases n - i,
    {
        if i >= n {
            return None;
        }
        let c = s[i];
        if c == '"' {
            proof {
                assert(parse_str_body(s@, i as int) == Some((Seq::<char>::empty(), i as int + 1)));
                assert(acc@ + Seq::<char>::empty() =~= acc@);
                assert(parse_str_body(s@, j as int + 1) == Some((acc@, i as int + 1)));
            }
            return Some((acc, i + 1));
        } else if c == '\\' {
            if i + 1 >= n {
                return None;
            }
            let e = s[i + 1];
            if e == 'u' {
                if n - i >= 6 && is_hex_digit_x(s[i + 2]) && is_hex_digit_x(s[i + 3])
                    && is_hex_digit_x(s[i + 4]) && is_hex_digit_x(s[i + 5]) {
                    let code = hex_val_x(s[i + 2]) * 4096 + hex_val_x(s[i + 3]) * 256 + hex_val_x(
                        s[i + 4],
                    ) * 16 + hex_val_x(s[i + 5]);
                    if 0xD800 <= code && code < 0xE000 {
                        return None;
                    }
                    let ghost i0 = i as int;
                    let ch = char_from_code(code);
                    proof {
                        vstd::utf8::char_u32_cast(ch, code);
                        lemma_parse_str_body_range(s@, i0 + 6);
                        match parse_str_body(s@, i0 + 6) {
                            Some((rest, k)) => {
                                assert((acc@ + seq![ch]) + rest =~= acc@ + (seq![ch] + rest));
                            }
                            None => {}
                        }
                    }
                    acc.push(ch);
                    i = i + 6;
                } else {
                    return None;
                }
            } else {
                match simple_escape_x(e) {
                    Some(c2) => {
                        let ghost i0 = i as int;
                        proof {
                            match parse_str_body(s@, i0 + 2) {
                                Some((rest, k)) => {
                                    assert((acc@ + seq![c2]) + rest =~= acc@ + (seq![c2] + rest));
                                }
                                None => {}
                            }
                        }
                        acc.push(c2);
                        i = i + 2;
                    }
                    None => {
                        return None;
                    }
                }
            }
        } else if (c as u32) < 0x20 {
            return None;
        } else {
            let ghost i0 = i as int;
            proof {
                match parse_str_body(s@, i0 + 1) {
                    Some((rest, k)) => {
                        assert((acc@ + seq![c]) + rest =~= acc@ + (seq![c] + rest));
                    }
                    None => {}
                }
            }
            acc.push(c);
            i = i + 1;
        }
    }
}

/// Parses an integer starting at `j`.
fn parse_int_x(s: &Vec<char>, j: usize) -> (r: Option<(JsonValue, usize)>)
    requires
        j < s@.len(),
    ensures
        match r {
            Some((v, k)) => parse_int_at(s@, j as int) == Some((json_data_of(v), k as int)) && j
                < k <= s@.len(),
            None => parse_int_at(s@, j as int) is None,
        },
{
    let n = s.len();
    let neg = s[j] == '-';
    let d0 = if neg { j + 1 } else { j };
    let e = digits_end_x(s, d0);
    if e == d0 {
        return None;
    }
    proof {
        lemma_digits_end_range(s@, d0 as int);
    }
    let mut mag: u128 = 0;
    let mut k = d0;
    while k < e
        invariant
            j < s@.len(),
            neg == (s@[j as int] == '-'),
            d0 == if neg { j + 1 } else { j as int },
            d0 < e,
            d0 <= k <= e <= s@.len(),
            e as int == digits_end(s@, d0 as int),
            forall|m: int| d0 <= m < e ==> is_dec_digit(s@[m]),
            mag == digits_val(s@, d0 as int, k as int),
            mag <= 0x8000_0000_0000_0000u128,
        decreases e - k,
    {
        let d = s[k] as u32;
        let dd = (d - 48) as u128;
        let newmag = mag * 10 + dd;
        if newmag > 0x8000_0000_0000_0000u128 {
            proof {
                lemma_digits_val_mono(s@, d0 as int, k as int + 1, e as int);
            }
            return None;
        }
        mag = newmag;
        k += 1;
    }
    if neg {
        if mag == 0x8000_0000_0000_0000u128 {
            Some((JsonValue::Int(i64::MIN), e))
        } else {
            Some((JsonValue::Int(-((mag as u64) as i64)), e))
        }
    } else {
        if mag == 0x8000_0000_0000_0000u128 {
            None
        } else {
            Some((JsonValue::Int((mag as u64) as i64), e))
        }
    }
}

/// Parses one JSON value starting at `i`.
fn parse_value_x(s: &Vec<char>, i: usize, fuel: usize) -> (r: Option<(JsonValue, usize)>)
    requires
        i <= s@.len(),
    ensures
        match r {
            Some((v, k)) => parse_value(s@, i as int, fuel as nat) == Some(
                (json_data_of(v), k as int),
            ) && i < k <= s@.len(),
            None => parse_value(s@, i as int, fuel as nat) is None,
        },
    decreases fuel, 0int,
{
    if fuel == 0 {
        return None;
    }
    let n = s.len();
    let j = skip_ws_x(s, i);
    if j >= n {
        return None;
    }
    let c = s[j];
    if c == 'n' {
        if n - j >= 4 && s[j + 1] == 'u' && s[j + 2] == 'l' && s[j + 3] == 'l' {
            Some((JsonValue::Null, j + 4))
        } else {
            None
        }
    } else if c == 't' {
        if n - j >= 4 && s[j + 1] == 'r' && s[j + 2] == 'u' && s[j + 3] == 'e' {
            Some((JsonValue::Bool(true), j + 4))
        } else {
            None
        }
    } else if c == 'f' {
        if n - j >= 5 && s[j + 1] == 'a' && s[j + 2] == 'l' && s[j + 3] == 's' && s[j + 4] == 'e' {
            Some((JsonValue::Bool(false), j + 5))
        } else {
            None
        }
    } else if c == '"' {
        match parse_string_x(s, j) {
            Some((cs, k)) => {
                let text = chars_to_string(&cs);
                Some((JsonValue::Str(text), k))
            }
            None => None,
        }
    } else if c == '-' || is_dec_digit_x(c) {
        parse_int_x(s, j)
    } else if c == '[' {
        let k = skip_ws_x(s, j + 1);
        if k < n && s[k] == ']' {
            let vs: Vec<JsonValue> = Vec::new();
            proof {
                assert(vals_view(vs@) =~= Seq::<JsonData>::empty());
            }
            Some((JsonValue::Arr(vs), k + 1))
        } else {
            match parse_arr_items_x(s, j + 1, fuel - 1) {
                Some((vs, end)) => Some((JsonValue::Arr(vs), end)),
                None => None,
            }
        }
    } else if c == '{' {
        let k = skip_ws_x(s, j + 1);
        if k < n && s[k] == '}' {
            let ms: Vec<(String, JsonValue)> = Vec::new();
            proof {
                assert(members_view(ms@) =~= Seq::<(Seq<char>, JsonData)>::empty());
            }
            Some((JsonValue::Obj(ms), k + 1))
        } else {
            match parse_obj_items_x(s, j + 1, fuel - 1) {
                Some((ms, end)) => Some((JsonValue::Obj(ms), end)),
                None => None,
            }
        }
    } else {
        None
    }
}

/// Parses the elements of a non-empty array, up to and including `]`.
fn parse_arr_items_x(s: &Vec<char>, i: usize, fuel: usize) -> (r: Option<(Vec<JsonValue>, usize)>)
    requires
        i <= s@.len(),
    ensures
        match r {
            Some((vs, end)) => parse_arr_items(s@, i as int, fuel as nat) == Some(
                (vals_view(vs@), end as int),
            ) && i < end <= s@.len(),
            None => parse_arr_items(s@, i as int, fuel as nat) is None,
        },
    decreases fuel, 1int,
{
    if fuel == 0 {
        return None;
    }
    match parse_value_x(s, i, fuel) {
        Some((v, k)) => {
            let n = s.len();
            let m = skip_ws_x(s, k);
            if m < n && s[m] == ',' {
                match parse_arr_items_x(s, m + 1, fuel - 1) {
                    Some((rest, end)) => {
                        let ghost vd = json_data_of(v);
                        let ghost rv = rest@;
                        let mut vs = rest;
                        vs.insert(0, v);
                        proof {
                            assert(vs@ =~= seq![v] + rv);
                            lemma_vals_view(vs@);
                            lemma_vals_view(rv);
                            assert(vals_view(vs@) =~= seq![vd] + vals_view(rv));
                        }
                        Some((vs, end))
                    }
                    None => None,
                }
            } else if m < n && s[m] == ']' {
                let ghost vd = json_data_of(v);
                let mut vs: Vec<JsonValue> = Vec::new();
                vs.push(v);
                proof {
                    lemma_vals_view(vs@);
                    assert(vals_view(vs@) =~= seq![vd]);
                }
                Some((vs, m + 1))
            } else {
                None
            }
        }
        None => None,
    }
}

/// Parses the members of a non-empty object, up to and including `}`.
fn parse_obj_items_x(s: &Vec<char>, i: usize, fuel: usize) -> (r: Option<
    (Vec<(String, JsonValue)>, usize),
>)
    requires
        i <= s@.len(),
    ensures
        match r {
            Some((ms, end)) => parse_obj_items(s@, i as int, fuel as nat) == Some(
                (members_view(ms@), end as int),
            ) && i < end <= s@.len(),
            None => parse_obj_items(s@, i as int, fuel as nat) is None,
        },
    decreases fuel, 1int,
{
    if fuel == 0 {
        return None;
    }
    let j = skip_ws_x(s, i);
    match parse_string_x(s, j) {
        Some((key_chars, k)) => {
            let n = s.len();
            let m = skip_ws_x(s, k);
            if m < n && s[m] == ':' {
                match parse_value_x(s, m + 1, fuel) {
                    Some((v, e)) => {
                        let w = skip_ws_x(s, e);
                        let key = chars_to_string(&key_chars);
                        if w < n && s[w] == ',' {
                            match parse_obj_items_x(s, w + 1, fuel - 1) {
                                Some((rest, end)) => {
                                    let ghost kd = key@;
                                    let ghost vd = json_data_of(v);
                                    let ghost rv = rest@;
                                    let mut ms = rest;
                                    ms.insert(0, (key, v));
                                    proof {
                                        assert(ms@ =~= seq![(key, v)] + rv);
                                        lemma_members_view(ms@);
                                        lemma_members_view(rv);
                                        assert(members_view(ms@) =~= seq![(kd, vd)]
                                            + members_view(rv));
                                    }
                                    Some((ms, end))
                                }
                                None => None,
                            }
                        } else if w < n && s[w] == '}' {
                            let ghost kd = key@;
                            let ghost vd = json_data_of(v);
                            let mut ms: Vec<(String, JsonValue)> = Vec::new();
                            ms.push((key, v));
                            proof {
                                lemma_members_view(ms@);
                                assert(members_view(ms@) =~= seq![(kd, vd)]);
                            }
                            Some((ms, w + 1))
                        } else {
                            None
                        }
                    }
                    None => None,
                }
            } else {
                None
            }
        }
        None => None,
    }
}

/// Parses a whole text as one JSON value, allowing only whitespace around
/// it.
pub fn parse_json_text(s: &str) -> (r: Option<JsonValue>)
    ensures
        match r {
            Some(v) => spec_parse_json(s@) == Some(json_data_of(v)),
            None => spec_parse_json(s@) is None,
        },
{
    let cs = str_chars(s);
    let n = cs.len();
    match parse_value_x(&cs, 0, n) {
        Some((v, end)) => {
            let w = skip_ws_x(&cs, end);
            if w == n {
                Some(v)
            } else {
                None
            }
        }
        None => None,
    }
}

// ---------------------------------------------------------------------------
// Canonical encodings parse back: helper facts.
// ---------------------------------------------------------------------------

/// `dec_char` yields a digit with the same value.
pub proof fn lemma_dec_char_digit(m: int)
    requires
        0 <= m < 10,
    ensures
        is_dec_digit(dec_char(m)),
        dval(dec_char(m)) == m,
{
}

/// `hex_char` yields a hexadecimal digit with the same value.
pub proof fn lemma_hex_char_val(m: int)
    requires
        0 <= m < 16,
    ensures
        is_hex_digit(hex_char(m)),
        hex_val(hex_char(m)) == m,
{
}

/// The digits of a natural number: at least one, all decimal.
pub proof fn lemma_nat_chars_digits(n: nat)
    ensures
        nat_chars(n).len() >= 1,
        forall|k: int| 0 <= k < nat_chars(n).len() ==> is_dec_digit(#[trigger] nat_chars(n)[k]),
    decreases n,
{
    if n < 10 {
        lemma_dec_char_digit(n as int);
    } else {
        lemma_nat_chars_digits(n / 10);
        lemma_dec_char_digit((n % 10) as int);
        assert forall|k: int| 0 <= k < nat_chars(n).len() implies is_dec_digit(
            #[trigger] nat_chars(n)[k],
        ) by {
            if k < nat_chars(n / 10).len() {
                assert(nat_chars(n)[k] == nat_chars(n / 10)[k]);
            } else {
                assert(nat_chars(n)[k] == dec_char((n % 10) as int));
            }
        }
    }
}

/// A run of digits followed by a non-digit ends exactly there.
pub proof fn lemma_digits_end_of(s: Seq<char>, p: int, e: int)
    requires
        0 <= p <= e <= s.len(),
        forall|m: int| p <= m < e ==> is_dec_digit(#[trigger] s[m]),
        e == s.len() || !is_dec_digit(s[e]),
    ensures
        digits_end(s, p) == e,
    decreases e - p,
{
    if p < e {
        lemma_digits_end_of(s, p + 1, e);
    }
}

/// The digit run written by `nat_chars(n)` has value `n`.
pub proof fn lemma_digits_val_of(s: Seq<char>, p: int, n: nat)
    requires
        0 <= p,
        p + nat_chars(n).len() <= s.len(),
        s.subrange(p, p + nat_chars(n).len()) == nat_chars(n),
    ensures
        digits_val(s, p, p + nat_chars(n).len()) == n,
    decreases n,
{
    let cs = nat_chars(n);
    let e = p + cs.len();
    assert forall|t: int| 0 <= t < cs.len() implies s[p + t] == cs[t] by {
        assert(s.subrange(p, e)[t] == s[p + t]);
    }
    if n < 10 {
        lemma_dec_char_digit(n as int);
        assert(s[p + 0] == cs[0]);
        assert(cs[0] == dec_char(n as int));
        assert(digits_val(s, p, p + 1) == digits_val(s, p, p) * 10 + dval(s[p]));
    } else {
        let head = nat_chars(n / 10);
        assert(cs == head + seq![dec_char((n % 10) as int)]);
        assert(s.subrange(p, p + head.len() as int) =~= head) by {
            assert forall|t: int| 0 <= t < head.len() implies s.subrange(
                p,
                p + head.len() as int,
            )[t] == head[t] by {
                assert(cs[t] == head[t]);
                assert(s[p + t] == cs[t]);
            }
        }
        lemma_digits_val_of(s, p, n / 10);
        lemma_dec_char_digit((n % 10) as int);
        assert(s[e - 1] == cs[cs.len() - 1]);
        assert(cs[cs.len() - 1] == dec_char((n % 10) as int));
        assert(digits_val(s, p, e) == digits_val(s, p, e - 1) * 10 + dval(s[e - 1]));
        assert(digits_val(s, p, e) == (n / 10) * 10 + (n % 10));
    }
}

/// An encoding is never empty, and its first character announces the value.
pub proof fn lemma_json_chars_first(d: JsonData)
    ensures
        json_chars(d).len() >= 1,
        !is_ws(json_chars(d)[0]),
        json_chars(d)[0] != ']',
        json_chars(d)[0] != '}',
        json_chars(d)[0] != ',',
        match d {
            JsonData::Null => json_chars(d)[0] == 'n',
            JsonData::Bool(b) => json_chars(d)[0] == (if b { 't' } else { 'f' }),
            JsonData::Int(i) => (if i < 0 { json_chars(d)[0] == '-' } else { is_dec_digit(
                json_chars(d)[0],
            ) }),
            JsonData::Str(_) => json_chars(d)[0] == '"',
            JsonData::Arr(_) => json_chars(d)[0] == '[',
            JsonData::Obj(_) => json_chars(d)[0] == '{',
        },
{
    match d {
        JsonData::Int(i) => {
            if i < 0 {
                lemma_nat_chars_digits((-i) as nat);
            } else {
                lemma_nat_chars_digits(i as nat);
            }
        }
        _ => {}
    }
}

/// The escaped body written for `cs`, followed by a closing quote, parses
/// back to exactly `cs`.
pub proof fn lemma_parse_escaped(cs: Seq<char>, s: Seq<char>, i: int)
    requires
        0 <= i,
        i + escape_str(cs).len() + 1 <= s.len(),
        s.subrange(i, i + escape_str(cs).len()) == escape_str(cs),
        s[i + escape_str(cs).len()] == '"',
    ensures
        parse_str_body(s, i) == Some((cs, i + escape_str(cs).len() + 1)),
    decreases cs.len(),
{
    let esc = escape_str(cs);
    assert forall|t: int| 0 <= t < esc.len() implies s[i + t] == esc[t] by {
        assert(s.subrange(i, i + esc.len() as int)[t] == s[i + t]);
    }
    if cs.len() == 0 {
        assert(s[i] == '"');
    } else {
        let c = cs[0];
        let ec = escape_char(c);
        let rest = cs.drop_first();
        let resc = escape_str(rest);
        assert(esc == ec + resc);
        assert forall|t: int| 0 <= t < ec.len() implies s[i + t] == ec[t] by {
            assert(esc[t] == ec[t]);
        }
        let i2 = i + ec.len() as int;
        assert(s.subrange(i2, i2 + resc.len() as int) =~= resc) by {
            assert forall|t: int| 0 <= t < resc.len() implies s.subrange(
                i2,
                i2 + resc.len() as int,
            )[t] == resc[t] by {
                assert(esc[ec.len() + t] == resc[t]);
                assert(s[i + (ec.len() + t)] == esc[ec.len() + t]);
            }
        }
        assert(s[i2 + resc.len()] == '"');
        lemma_parse_escaped(rest, s, i2);
        assert(seq![c] + rest =~= cs);
        if c == '"' {
            assert(s[i] == '\\' && s[i + 1] == '"');
        } else if c == '\\' {
            assert(s[i] == '\\' && s[i + 1] == '\\');
        } else if (c as u32) < 0x20 {
            let cu = (c as u32) as int;
            assert(s[i] == '\\' && s[i + 1] == 'u' && s[i + 2] == '0' && s[i + 3] == '0');
            assert(s[i + 4] == hex_char(cu / 16) && s[i + 5] == hex_char(cu % 16));
            lemma_hex_char_val(cu / 16);
            lemma_hex_char_val(cu % 16);
            let code = hex_val(s[i + 2]) * 4096 + hex_val(s[i + 3]) * 256 + hex_val(s[i + 4]) * 16
                + hex_val(s[i + 5]);
            assert(code == cu);
            assert((code as u32) == c as u32);
            vstd::utf8::char_u32_cast(c, code as u32);
            assert(parse_str_body(s, i) == Some((seq![(code as u32) as char] + rest, i2
                + resc.len() + 1)));
        } else {
            assert(s[i] == c);
        }
    }
}

/// A canonical encoding inside a larger text parses back to its value and
/// consumes exactly its own characters, provided no digit follows it.
#[verifier::rlimit(100)]
#[verifier::spinoff_prover]
pub proof fn lemma_parse_canonical(d: JsonData, s: Seq<char>, i: int, fuel: nat)
    requires
        wf_json(d),
        0 <= i,
        i + json_chars(d).len() <= s.len(),
        s.subrange(i, i + json_chars(d).len()) == json_chars(d),
        fuel >= json_chars(d).len(),
        i + json_chars(d).len() == s.len() || !is_dec_digit(s[i + json_chars(d).len()]),
    ensures
        parse_value(s, i, fuel) == Some((d, i + json_chars(d).len())),
    decreases d, 0int,
{
    let enc = json_chars(d);
    let lend = enc.len() as int;
    assert forall|t: int| 0 <= t < lend implies s[i + t] == enc[t] by {
        assert(s.subrange(i, i + lend)[t] == s[i + t]);
    }
    lemma_json_chars_first(d);
    assert(s[i + 0] == enc[0]);
    assert(skip_ws(s, i) == i);
    match d {
        JsonData::Null => {
            assert(s[i + 1] == 'u' && s[i + 2] == 'l' && s[i + 3] == 'l');
            assert(parse_value(s, i, fuel) == Some((d, i + lend)));
        }
        JsonData::Bool(b) => {
            if b {
                assert(s[i + 1] == 'r' && s[i + 2] == 'u' && s[i + 3] == 'e');
            } else {
                assert(s[i + 1] == 'a' && s[i + 2] == 'l' && s[i + 3] == 's' && s[i + 4] == 'e');
            }
            assert(parse_value(s, i, fuel) == Some((d, i + lend)));
        }
        JsonData::Int(v) => {
            if v < 0 {
                let m = (-v) as nat;
                lemma_nat_chars_digits(m);
                assert(enc == seq!['-'] + nat_chars(m));
                assert(s.subrange(i + 1, i + lend) =~= nat_chars(m)) by {
                    assert forall|t: int| 0 <= t < nat_chars(m).len() implies s.subrange(
                        i + 1,
                        i + lend,
                    )[t] == nat_chars(m)[t] by {
                        assert(s[i + (1 + t)] == enc[1 + t]);
                    }
                }
                assert forall|mm: int| i + 1 <= mm < i + lend implies is_dec_digit(
                    #[trigger] s[mm],
                ) by {
                    assert(s[i + (mm - i)] == enc[mm - i]);
                    assert(enc[mm - i] == nat_chars(m)[mm - i - 1]);
                }
                lemma_digits_end_of(s, i + 1, i + lend);
                lemma_digits_val_of(s, i + 1, m);
            } else {
                let m = v as nat;
                lemma_nat_chars_digits(m);
                assert(s.subrange(i, i + lend) == nat_chars(m));
                assert forall|mm: int| i <= mm < i + lend implies is_dec_digit(
                    #[trigger] s[mm],
                ) by {
                    assert(s[i + (mm - i)] == enc[mm - i]);
                }
                lemma_digits_end_of(s, i, i + lend);
                lemma_digits_val_of(s, i, m);
                assert(s[i] != '-');
            }
            assert(parse_value(s, i, fuel) == Some((d, i + lend)));
        }
        JsonData::Str(cs) => {
            let resc = escape_str(cs);
            let lesc = resc.len() as int;
            assert(enc == seq!['"'] + resc + seq!['"']);
            assert(s.subrange(i + 1, i + 1 + lesc) =~= resc) by {
                assert forall|t: int| 0 <= t < lesc implies s.subrange(i + 1, i + 1 + lesc)[t]
                    == resc[t] by {
                    assert(s[i + (1 + t)] == enc[1 + t]);
                    assert(enc[1 + t] == resc[t]);
                }
            }
            assert(s[i + (lend - 1)] == enc[lend - 1]);
            assert(enc[lend - 1] == '"');
            lemma_parse_escaped(cs, s, i + 1);
            assert(parse_value(s, i, fuel) == Some((d, i + lend)));
        }
        JsonData::Arr(a) => {
            if a.len() == 0 {
                assert(a =~= Seq::<JsonData>::empty());
                assert(arr_chars_from(a, 0) =~= Seq::<char>::empty());
                assert(enc =~= seq!['[', ']']);
                assert(s[i + 1] == enc[1]);
                assert(s[i + 1] == ']');
                assert(skip_ws(s, i + 1) == i + 1);
            } else {
                let inner = arr_chars_from(a, 0);
                assert(enc == seq!['['] + inner + seq![']']);
                assert(s.subrange(i + 1, i + lend) =~= inner + seq![']']) by {
                    assert forall|t: int| 0 <= t < inner.len() + 1 implies s.subrange(
                        i + 1,
                        i + lend,
                    )[t] == (inner + seq![']'])[t] by {
                        assert(s[i + (1 + t)] == enc[1 + t]);
                    }
                }
                lemma_json_chars_first(a[0]);
                assert(inner[0] == json_chars(a[0])[0]);
                assert(s[i + 1] == enc[1]);
                assert(enc[1] == inner[0]);
                assert(skip_ws(s, i + 1) == i + 1);
                assert(s[i + 1] != ']');
                lemma_parse_arr_items_canonical(a, 0, s, i + 1, (fuel - 1) as nat);
                assert(a.subrange(0, a.len() as int) =~= a);
            }
            assert(parse_value(s, i, fuel) == Some((d, i + lend)));
        }
        JsonData::Obj(o) => {
            if o.len() == 0 {
                assert(o =~= Seq::<(Seq<char>, JsonData)>::empty());
                assert(obj_chars_from(o, 0) =~= Seq::<char>::empty());
                assert(enc =~= seq!['{', '}']);
                assert(s[i + 1] == enc[1]);
                assert(s[i + 1] == '}');
                assert(skip_ws(s, i + 1) == i + 1);
            } else {
                let inner = obj_chars_from(o, 0);
                assert(enc == seq!['{'] + inner + seq!['}']);
                assert(s.subrange(i + 1, i + lend) =~= inner + seq!['}']) by {
                    assert forall|t: int| 0 <= t < inner.len() + 1 implies s.subrange(
                        i + 1,
                        i + lend,
                    )[t] == (inner + seq!['}'])[t] by {
                        assert(s[i + (1 + t)] == enc[1 + t]);
                    }
                }
                assert(inner[0] == '"');
                assert(s[i + 1] == enc[1]);
                assert(enc[1] == inner[0]);
                assert(skip_ws(s, i + 1) == i + 1);
                assert(s[i + 1] != '}');
                lemma_parse_obj_items_canonical(o, 0, s, i + 1, (fuel - 1) as nat);
                assert(o.subrange(0, o.len() as int) =~= o);
            }
            assert(parse_value(s, i, fuel) == Some((d, i + lend)));
        }
    }
}

/// The canonical encodings of `a[idx..]`, followed by `]`, parse back as
/// those elements.
pub proof fn lemma_parse_arr_items_canonical(
    a: Seq<JsonData>,
    idx: int,
    s: Seq<char>,
    pos: int,
    fuel: nat,
)
    requires
        wf_json_seq(a),
        0 <= idx < a.len(),
        0 <= pos,
        pos + arr_chars_from(a, idx).len() + 1 <= s.len(),
        s.subrange(pos, pos + arr_chars_from(a, idx).len() + 1) == arr_chars_from(a, idx)
            + seq![']'],
        fuel >= arr_chars_from(a, idx).len() + 1,
    ensures
        parse_arr_items(s, pos, fuel) == Some(
            (a.subrange(idx, a.len() as int), pos + arr_chars_from(a, idx).len() + 1),
        ),
    decreases a, a.len() - idx,
{
    let inner = arr_chars_from(a, idx);
    let lrem = inner.len() as int + 1;
    let whole = inner + seq![']'];
    assert forall|t: int| 0 <= t < lrem implies s[pos + t] == whole[t] by {
        assert(s.subrange(pos, pos + lrem)[t] == s[pos + t]);
    }
    lemma_wf_seq_index(a);
    let e0 = json_chars(a[idx]);
    let le0 = e0.len() as int;
    lemma_json_chars_first(a[idx]);
    assert(s.subrange(pos, pos + le0) =~= e0) by {
        assert forall|t: int| 0 <= t < le0 implies s.subrange(pos, pos + le0)[t] == e0[t] by {
            assert(s[pos + t] == whole[t]);
            assert(whole[t] == inner[t]);
            assert(inner[t] == e0[t]);
        }
    }
    if idx + 1 == a.len() {
        assert(inner == e0);
        assert(s[pos + le0] == whole[le0]);
        assert(whole[le0] == ']');
        lemma_parse_canonical(a[idx], s, pos, fuel);
        assert(skip_ws(s, pos + le0) == pos + le0);
        assert(seq![a[idx]] =~= a.subrange(idx, a.len() as int));
    } else {
        let rest = arr_chars_from(a, idx + 1);
        assert(inner == e0 + seq![','] + rest);
        assert(s[pos + le0] == whole[le0]);
        assert(whole[le0] == ',');
        lemma_parse_canonical(a[idx], s, pos, fuel);
        assert(skip_ws(s, pos + le0) == pos + le0);
        let pos2 = pos + le0 + 1;
        assert(s.subrange(pos2, pos2 + rest.len() + 1) =~= rest + seq![']']) by {
            assert forall|t: int| 0 <= t < rest.len() + 1 implies s.subrange(
                pos2,
                pos2 + rest.len() + 1,
            )[t] == (rest + seq![']'])[t] by {
                assert(s[pos + (le0 + 1 + t)] == whole[le0 + 1 + t]);
            }
        }
        lemma_parse_arr_items_canonical(a, idx + 1, s, pos2, (fuel - 1) as nat);
        assert(seq![a[idx]] + a.subrange(idx + 1, a.len() as int) =~= a.subrange(
            idx,
            a.len() as int,
        ));
        assert(pos2 + rest.len() + 1 == pos + lrem);
    }
}

/// The canonical encodings of the members `o[idx..]`, followed by `}`,
/// parse back as those members.
pub proof fn lemma_parse_obj_items_canonical(
    o: Seq<(Seq<char>, JsonData)>,
    idx: int,
    s: Seq<char>,
    pos: int,
    fuel: nat,
)
    requires
        wf_json_members(o),
        0 <= idx < o.len(),
        0 <= pos,
        pos + obj_chars_from(o, idx).len() + 1 <= s.len(),
        s.subrange(pos, pos + obj_chars_from(o, idx).len() + 1) == obj_chars_from(o, idx)
            + seq!['}'],
        fuel >= obj_chars_from(o, idx).len() + 1,
    ensures
        parse_obj_items(s, pos, fuel) == Some(
            (o.subrange(idx, o.len() as int), pos + obj_chars_from(o, idx).len() + 1),
        ),
    decreases o, o.len() - idx,
{
    let inner = obj_chars_from(o, idx);
    let lrem = inner.len() as int + 1;
    let whole = inner + seq!['}'];
    assert forall|t: int| 0 <= t < lrem implies s[pos + t] == whole[t] by {
        assert(s.subrange(pos, pos + lrem)[t] == s[pos + t]);
    }
    lemma_wf_members_index(o);
    let key = o[idx].0;
    let val = o[idx].1;
    let kesc = escape_str(key);
    let lkey = kesc.len() as int;
    let ev = json_chars(val);
    let lev = ev.len() as int;
    let entry = seq!['"'] + kesc + seq!['"', ':'] + ev;
    assert(inner == if idx + 1 == o.len() { entry } else { entry + seq![','] + obj_chars_from(
        o,
        idx + 1,
    ) });
    assert forall|t: int| 0 <= t < entry.len() implies s[pos + t] == entry[t] by {
        assert(s[pos + t] == whole[t]);
        assert(whole[t] == inner[t]);
        assert(inner[t] == entry[t]);
    }
    // The key string literal.
    assert(entry[0] == '"') by {
        assert((seq!['"'] + kesc)[0] == '"');
        assert(((seq!['"'] + kesc) + seq!['"', ':'])[0] == (seq!['"'] + kesc)[0]);
        assert(entry[0] == ((seq!['"'] + kesc) + seq!['"', ':'])[0]);
    }
    assert(s[pos + 0] == entry[0]);
    assert(s[pos + 0] == '"');
    assert(skip_ws(s, pos) == pos);
    assert(s.subrange(pos + 1, pos + 1 + lkey) =~= kesc) by {
        assert forall|t: int| 0 <= t < lkey implies s.subrange(pos + 1, pos + 1 + lkey)[t]
            == kesc[t] by {
            assert(s[pos + (1 + t)] == entry[1 + t]);
            assert(entry[1 + t] == kesc[t]);
        }
    }
    assert(s[pos + (1 + lkey)] == entry[1 + lkey]);
    assert(entry[1 + lkey] == '"');
    lemma_parse_escaped(key, s, pos + 1);
    let k = pos + lkey + 2;
    // The colon.
    assert(s[pos + (lkey + 2)] == entry[lkey + 2]);
    assert(entry[lkey + 2] == ':');
    assert(skip_ws(s, k) == k);
    // The value.
    assert(s.subrange(k + 1, k + 1 + lev) =~= ev) by {
        assert forall|t: int| 0 <= t < lev implies s.subrange(k + 1, k + 1 + lev)[t] == ev[t] by {
            assert(s[pos + (lkey + 3 + t)] == entry[lkey + 3 + t]);
            assert(entry[lkey + 3 + t] == ev[t]);
        }
    }
    let e = k + 1 + lev;
    assert(e == pos + entry.len());
    if idx + 1 == o.len() {
        assert(s[pos + entry.len() as int] == whole[entry.len() as int]);
        assert(whole[entry.len() as int] == '}');
        lemma_parse_canonical(val, s, k + 1, fuel);
        assert(skip_ws(s, e) == e);
        assert((key, val) == o[idx]);
        assert(seq![o[idx]] =~= o.subrange(idx, o.len() as int));
    } else {
        let rest = obj_chars_from(o, idx + 1);
        assert(s[pos + entry.len() as int] == whole[entry.len() as int]);
        assert(whole[entry.len() as int] == ',');
        lemma_parse_canonical(val, s, k + 1, fuel);
        assert(skip_ws(s, e) == e);
        let pos2 = e + 1;
        assert(s.subrange(pos2, pos2 + rest.len() + 1) =~= rest + seq!['}']) by {
            assert forall|t: int| 0 <= t < rest.len() + 1 implies s.subrange(
                pos2,
                pos2 + rest.len() + 1,
            )[t] == (rest + seq!['}'])[t] by {
                assert(s[pos + (entry.len() + 1 + t)] == whole[entry.len() + 1 + t]);
            }
        }
        lemma_parse_obj_items_canonical(o, idx + 1, s, pos2, (fuel - 1) as nat);
        assert((key, val) == o[idx]);
        assert(seq![o[idx]] + o.subrange(idx + 1, o.len() as int) =~= o.subrange(
            idx,
            o.len() as int,
        ));
        assert(pos2 + rest.len() + 1 == pos + lrem);
    }
}

/// The round-trip law: the compact encoding of any well-formed JSON value
/// parses back to exactly that value.
pub proof fn lemma_json_round_trip(d: JsonData)
    requires
        wf_json(d),
    ensures
        spec_parse_json(json_chars(d)) == Some(d),
{
    let s = json_chars(d);
    lemma_json_chars_first(d);
    assert(s.subrange(0, s.len() as int) =~= s);
    lemma_parse_canonical(d, s, 0, s.len() as nat);
    assert(skip_ws(s, s.len() as int) == s.len() as int);
}

// ---------------------------------------------------------------------------
// Object lookup, and the no-newline guarantee.
// ---------------------------------------------------------------------------

/// The value under the first member named `key`, if any.
pub open spec fn json_lookup(ms: Seq<(Seq<char>, JsonData)>, key: Seq<char>) -> Option<JsonData>
    decreases ms.len(),
{
    if ms.len() == 0 {
        None
    } else if ms[0].0 == key {
        Some(ms[0].1)
    } else {
        json_lookup(ms.drop_first(), key)
    }
}

/// The value under the first member named `key` of an object, if the value
/// is an object and has one.
pub fn obj_get<'a>(v: &'a JsonValue, key: &str) -> (r: Option<&'a JsonValue>)
    ensures
        match r {
            Some(f) => v.deep_view() matches JsonData::Obj(ms) && json_lookup(ms, key@) == Some(
                f.deep_view(),
            ),
            None => !(v.deep_view() matches JsonData::Obj(ms) && json_lookup(ms, key@) is Some),
        },
{
    match v {
        JsonValue::Obj(members) => {
            proof {
                lemma_members_view(members@);
                assert(members_view(members@).skip(0) =~= members_view(members@));
            }
            let n = members.len();
            let mut k: usize = 0;
            while k < n
                invariant
                    k <= n,
                    n == members@.len(),
                    v.deep_view() == JsonData::Obj(members_view(members@)),
                    members_view(members@).len() == n,
                    forall|t: int| 0 <= t < members@.len() ==> #[trigger] members_view(
                        members@,
                    )[t] == (members@[t].0@, json_data_of(members@[t].1)),
                    json_lookup(members_view(members@), key@) == json_lookup(
                        members_view(members@).skip(k as int),
                        key@,
                    ),
                decreases n - k,
            {
                let ghost ms = members_view(members@);
                proof {
                    assert(ms.skip(k as int).len() == n - k);
                    assert(ms.skip(k as int)[0] == ms[k as int]);
                }
                if str_eq(&members[k].0, key) {
                    return Some(&members[k].1);
                }
                proof {
                    assert(ms.skip(k as int).drop_first() =~= ms.skip(k as int + 1));
                }
                k += 1;
            }
            proof {
                assert(members_view(members@).skip(n as int).len() == 0);
            }
            None
        }
        _ => None,
    }
}

/// The index of the first member named `key`, if any.
pub fn find_key(members: &Vec<(String, JsonValue)>, key: &str) -> (r: Option<usize>)
    ensures
        match r {
            Some(idx) => idx < members@.len() && members@[idx as int].0@ == key@ && json_lookup(
                members_view(members@),
                key@,
            ) == Some(json_data_of(members@[idx as int].1)),
            None => json_lookup(members_view(members@), key@) is None,
        },
{
    proof {
        lemma_members_view(members@);
        assert(members_view(members@).skip(0) =~= members_view(members@));
    }
    let n = members.len();
    let mut k: usize = 0;
    while k < n
        invariant
            k <= n,
            n == members@.len(),
            members_view(members@).len() == n,
            forall|t: int| 0 <= t < members@.len() ==> #[trigger] members_view(members@)[t] == (
                members@[t].0@,
                json_data_of(members@[t].1),
            ),
            json_lookup(members_view(members@), key@) == json_lookup(
                members_view(members@).skip(k as int),
                key@,
            ),
        decreases n - k,
    {
        let ghost ms = members_view(members@);
        proof {
            assert(ms.skip(k as int).len() == n - k);
            assert(ms.skip(k as int)[0] == ms[k as int]);
        }
        if str_eq(&members[k].0, key) {
            return Some(k);
        }
        proof {
            assert(ms.skip(k as int).drop_first() =~= ms.skip(k as int + 1));
        }
        k += 1;
    }
    proof {
        assert(members_view(members@).skip(n as int).len() == 0);
    }
    None
}

/// Whether two strings hold the same characters.
pub fn str_eq(a: &str, b: &str) -> (r: bool)
    ensures
        r == (a@ == b@),
{
    let ca = str_chars(a);
    let cb = str_chars(b);
    let na = ca.len();
    let nb = cb.len();
    if na != nb {
        proof {
            assert(a@ != b@);
        }
        return false;
    }
    let mut k: usize = 0;
    while k < na
        invariant
            k <= na,
            na == nb,
            ca@ == a@,
            cb@ == b@,
            na == a@.len() && nb == b@.len(),
            forall|t: int| 0 <= t < k ==> a@[t] == b@[t],
        decreases na - k,
    {
        if ca[k] != cb[k] {
            return false;
        }
        k += 1;
    }
    proof {
        assert(a@ =~= b@);
    }
    true
}

/// No character of an escaped string body is a raw newline.
pub proof fn lemma_escape_str_no_newline(cs: Seq<char>)
    ensures
        forall|k: int| 0 <= k < escape_str(cs).len() ==> #[trigger] escape_str(cs)[k] != '\n',
    decreases cs.len(),
{
    if cs.len() > 0 {
        lemma_escape_str_no_newline(cs.drop_first());
        let ec = escape_char(cs[0]);
        assert forall|k: int| 0 <= k < escape_str(cs).len() implies #[trigger] escape_str(
            cs,
        )[k] != '\n' by {
            if k < ec.len() {
                assert(escape_str(cs)[k] == ec[k]);
                if cs[0] == '"' || cs[0] == '\\' {
                } else if (cs[0] as u32) < 0x20 {
                    if k == 4 {
                        lemma_hex_char_val((cs[0] as u32) as int / 16);
                    } else if k == 5 {
                        lemma_hex_char_val((cs[0] as u32) as int % 16);
                    }
                } else {
                    assert(ec[k] == cs[0]);
                }
            } else {
                assert(escape_str(cs)[k] == escape_str(cs.drop_first())[k - ec.len()]);
            }
        }
    }
}

/// No character of a compact encoding is a raw newline: a frame holds its
/// message in one line.
pub proof fn lemma_json_chars_no_newline(d: JsonData)
    ensures
        forall|k: int| 0 <= k < json_chars(d).len() ==> #[trigger] json_chars(d)[k] != '\n',
    decreases d, 0int,
{
    let enc = json_chars(d);
    match d {
        JsonData::Null => {}
        JsonData::Bool(_) => {}
        JsonData::Int(i) => {
            let m = if i < 0 { (-i) as nat } else { i as nat };
            lemma_nat_chars_digits(m);
            assert forall|k: int| 0 <= k < enc.len() implies #[trigger] enc[k] != '\n' by {
                if i < 0 {
                    if k >= 1 {
                        assert(enc[k] == nat_chars(m)[k - 1]);
                        assert(is_dec_digit(nat_chars(m)[k - 1]));
                    }
                } else {
                    assert(is_dec_digit(nat_chars(m)[k]));
                }
            }
        }
        JsonData::Str(cs) => {
            lemma_escape_str_no_newline(cs);
            assert forall|k: int| 0 <= k < enc.len() implies #[trigger] enc[k] != '\n' by {
                if 1 <= k < 1 + escape_str(cs).len() {
                    assert(enc[k] == escape_str(cs)[k - 1]);
                }
            }
        }
        JsonData::Arr(a) => {
            lemma_arr_chars_no_newline(a, 0);
            let inner = arr_chars_from(a, 0);
            assert forall|k: int| 0 <= k < enc.len() implies #[trigger] enc[k] != '\n' by {
                if 1 <= k < 1 + inner.len() {
                    assert(enc[k] == inner[k - 1]);
                }
            }
        }
        JsonData::Obj(o) => {
            lemma_obj_chars_no_newline(o, 0);
            let inner = obj_chars_from(o, 0);
            assert forall|k: int| 0 <= k < enc.len() implies #[trigger] enc[k] != '\n' by {
                if 1 <= k < 1 + inner.len() {
                    assert(enc[k] == inner[k - 1]);
                }
            }
        }
    }
}

proof fn lemma_arr_chars_no_newline(a: Seq<JsonData>, i: int)
    ensures
        forall|k: int| 0 <= k < arr_chars_from(a, i).len() ==> #[trigger] arr_chars_from(
            a,
            i,
        )[k] != '\n',
    decreases a, a.len() - i, 1int,
{
    if 0 <= i && i < a.len() {
        lemma_json_chars_no_newline(a[i]);
        let e0 = json_chars(a[i]);
        if i + 1 < a.len() {
            lemma_arr_chars_no_newline(a, i + 1);
            let rest = arr_chars_from(a, i + 1);
            assert forall|k: int| 0 <= k < arr_chars_from(a, i).len() implies
                #[trigger] arr_chars_from(a, i)[k] != '\n' by {
                if k < e0.len() {
                    assert(arr_chars_from(a, i)[k] == e0[k]);
                } else if k > e0.len() {
                    assert(arr_chars_from(a, i)[k] == rest[k - e0.len() - 1]);
                }
            }
        } else {
            assert forall|k: int| 0 <= k < arr_chars_from(a, i).len() implies
                #[trigger] arr_chars_from(a, i)[k] != '\n' by {
                assert(arr_chars_from(a, i)[k] == e0[k]);
            }
        }
    }
}

proof fn lemma_obj_chars_no_newline(o: Seq<(Seq<char>, JsonData)>, i: int)
    ensures
        forall|k: int| 0 <= k < obj_chars_from(o, i).len() ==> #[trigger] obj_chars_from(
            o,
            i,
        )[k] != '\n',
    decreases o, o.len() - i, 1int,
{
    if 0 <= i && i < o.len() {
        lemma_json_chars_no_newline(o[i].1);
        lemma_escape_str_no_newline(o[i].0);
        let kesc = escape_str(o[i].0);
        let ev = json_chars(o[i].1);
        let entry = seq!['"'] + kesc + seq!['"', ':'] + ev;
        assert forall|k: int| 0 <= k < entry.len() implies #[trigger] entry[k] != '\n' by {
            if 1 <= k < 1 + kesc.len() {
                assert(entry[k] == kesc[k - 1]);
            } else if k >= 3 + kesc.len() {
                assert(entry[k] == ev[k - 3 - kesc.len()]);
            } else {
                assert(entry[k] == '"' || entry[k] == ':') by {
                    if k == 0 {
                        assert(entry[0] == '"');
                    } else if k == 1 + kesc.len() {
                        assert(entry[k] == '"');
                    } else {
                        assert(entry[k] == ':');
                    }
                }
            }
        }
        if i + 1 < o.len() {
            lemma_obj_chars_no_newline(o, i + 1);
            let rest = obj_chars_from(o, i + 1);
            assert forall|k: int| 0 <= k < obj_chars_from(o, i).len() implies
                #[trigger] obj_chars_from(o, i)[k] != '\n' by {
                if k < entry.len() {
                    assert(obj_chars_from(o, i)[k] == entry[k]);
                } else if k > entry.len() {
                    assert(obj_chars_from(o, i)[k] == rest[k - entry.len() - 1]);
                }
            }
        } else {
            assert forall|k: int| 0 <= k < obj_chars_from(o, i).len() implies
                #[trigger] obj_chars_from(o, i)[k] != '\n' by {
                assert(obj_chars_from(o, i)[k] == entry[k]);
            }
        }
    }
}

/// The decimal text of `i`.
pub fn int_to_string(i: i64) -> (r: String)
    ensures
        r@ == int_chars(i as int),
{
    let mut out: Vec<char> = Vec::new();
    write_int(i, &mut out);
    chars_to_string(&out)
}

/// The compact JSON text of `v`.
pub fn to_json_text(v: &JsonValue) -> (r: String)
    ensures
        r@ == json_chars(v.deep_view()),
{
    let mut out: Vec<char> = Vec::new();
    write_value(v, &mut out);
    chars_to_string(&out)
}

} // verus!

//! The JSON value model with a verified serializer and parser.
//!
//! Every message on the wire is one JSON document.  Values are modelled by
//! [`Json`]; numbers are integers, which is all the protocol itself ever
//! carries (correlation ids and error codes).  The serializer is canonical:
//! no whitespace, strings escaped minimally.  The parser accepts arbitrary
//! whitespace and the common escapes, and inverts the serializer exactly
//! (see `lemma_parse_serialized` below and the codec's round-trip lemma).

use vstd::prelude::*;
use crate::text::chars_to_string;
use crate::text::str_to_chars;

verus! {

broadcast use vstd::seq::group_seq_axioms, vstd::std_specs::vec::group_vec_axioms;

/// A JSON document: the protocol's number values are integers.
#[derive(Debug, PartialEq, Eq)]
pub enum Json {
    Null,
    Bool(bool),
    Int(i64),
    Str(String),
    Arr(Vec<Json>),
    Obj(Vec<(String, Json)>),
}

// ---------------------------------------------------------------------------
// The canonical serialization, as a specification.
// ---------------------------------------------------------------------------

/// The decimal digit `d` as a character.
pub open spec fn digit_char(d: int) -> char {
    if d == 0 { '0' } else if d == 1 { '1' } else if d == 2 { '2' }
    else if d == 3 { '3' } else if d == 4 { '4' } else if d == 5 { '5' }
    else if d == 6 { '6' } else if d == 7 { '7' } else if d == 8 { '8' }
    else { '9' }
}

/// The hexadecimal digit `d` as a lower-case character.
pub open spec fn hex_char(d: int) -> char {
    if d < 10 { digit_char(d) }
    else if d == 10 { 'a' } else if d == 11 { 'b' } else if d == 12 { 'c' }
    else if d == 13 { 'd' } else if d == 14 { 'e' } else { 'f' }
}

/// The decimal form of `n`, most significant digit first.
pub open spec fn ser_nat(n: nat) -> Seq<char>
    decreases n,
{
    if n < 10 { seq![digit_char(n as int)] }
    else { ser_nat(n / 10) + seq![digit_char((n % 10) as int)] }
}

/// The decimal form of `n`, with a leading minus sign when negative.
pub open spec fn ser_int(n: int) -> Seq<char> {
    if n >= 0 { ser_nat(n as nat) } else { seq!['-'] + ser_nat((-n) as nat) }
}

/// Characters the serializer must escape inside a string literal.
pub open spec fn is_control(c: char) -> bool {
    (c as u32) < 32
}

/// The escaped form of one character inside a JSON string literal.
pub open spec fn escape_char(c: char) -> Seq<char> {
    if c == '"' { seq!['\\', '"'] }
    else if c == '\\' { seq!['\\', '\\'] }
    else if is_control(c) {
        seq!['\\', 'u', '0', '0', hex_char(c as u32 as int / 16), hex_char(c as u32 as int % 16)]
    }
    else { seq![c] }
}

/// The escaped form of a whole string body.
pub open spec fn escape_str(s: Seq<char>) -> Seq<char>
    decreases s.len(),
{
    if s.len() == 0 { Seq::empty() } else { escape_char(s[0]) + escape_str(s.drop_first()) }
}

/// The canonical serialization of a value.
pub open spec fn ser_json(j: Json) -> Seq<char>
    decreases j, 0int,
{
    match j {
        Json::Null => seq!['n', 'u', 'l', 'l'],
        Json::Bool(b) => if b { seq!['t', 'r', 'u', 'e'] } else { seq!['f', 'a', 'l', 's', 'e'] },
        Json::Int(n) => ser_int(n as int),
        Json::Str(s) => seq!['"'] + escape_str(s@) + seq!['"'],
        Json::Arr(v) => seq!['['] + ser_elems(v@) + seq![']'],
        Json::Obj(m) => seq!['{'] + ser_members(m@) + seq!['}'],
    }
}

/// The serialization of array elements, separated by commas.
pub open spec fn ser_elems(v: Seq<Json>) -> Seq<char>
    decreases v, 0int,
{
    if v.len() == 0 { Seq::empty() }
    else if v.len() == 1 { ser_json(v[0]) }
    else { ser_json(v[0]) + seq![','] + ser_elems(v.drop_first()) }
}

/// The serialization of one object member.
pub open spec fn ser_member(k: Seq<char>, j: Json) -> Seq<char>
    decreases j, 1int,
{
    seq!['"'] + escape_str(k) + seq!['"', ':'] + ser_json(j)
}

/// The serialization of object members, separated by commas.
pub open spec fn ser_members(m: Seq<(String, Json)>) -> Seq<char>
    decreases m, 0int,
{
    if m.len() == 0 { Seq::empty() }
    else if m.len() == 1 { ser_member(m[0].0@, m[0].1) }
    else { ser_member(m[0].0@, m[0].1) + seq![','] + ser_members(m.drop_first()) }
}

// ---------------------------------------------------------------------------
// The executable serializer.
// ---------------------------------------------------------------------------

/// The decimal digit `d` as a character.
fn digit_to_char(d: u64) -> (c: char)
    requires
        d < 10,
    ensures
        c == digit_char(d as int),
{
    match d {
        0 => '0', 1 => '1', 2 => '2', 3 => '3', 4 => '4',
        5 => '5', 6 => '6', 7 => '7', 8 => '8', _ => '9',
    }
}

/// The hexadecimal digit `d` as a lower-case character.
fn hex_to_char(d: u32) -> (c: char)
    requires
        d < 16,
    ensures
        c == hex_char(d as int),
{
    match d {
        0 => '0', 1 => '1', 2 => '2', 3 => '3', 4 => '4',
        5 => '5', 6 => '6', 7 => '7', 8 => '8', 9 => '9',
        10 => 'a', 11 => 'b', 12 => 'c', 13 => 'd', 14 => 'e', _ => 'f',
    }
}

/// Append the decimal form of `n`.
fn push_u64(n: u64, out: &mut Vec<char>)
    ensures
        final(out)@ == old(out)@ + ser_nat(n as nat),
    decreases n,
{
    if n < 10 {
        out.push(digit_to_char(n));
        assert(out@ =~= old(out)@ + ser_nat(n as nat));
    } else {
        push_u64(n / 10, out);
        out.push(digit_to_char(n % 10));
        assert(out@ =~= old(out)@ + ser_nat(n as nat));
    }
}

/// Append the decimal form of `n`, with a minus sign when negative.
fn push_i64(n: i64, out: &mut Vec<char>)
    ensures
        final(out)@ == old(out)@ + ser_int(n as int),
{
    if n >= 0 {
        push_u64(n as u64, out);
    } else {
        out.push('-');
        let m: u64 = (-(n as i128)) as u64;
        assert(m as nat == (-(n as int)) as nat);
        push_u64(m, out);
        assert(out@ =~= old(out)@ + ser_int(n as int));
    }
}

/// Append the escaped form of one string-literal character.
fn push_escaped_char(c: char, out: &mut Vec<char>)
    ensures
        final(out)@ == old(out)@ + escape_char(c),
{
    if c == '"' {
        out.push('\\');
        out.push('"');
        assert(out@ =~= old(out)@ + escape_char(c));
    } else if c == '\\' {
        out.push('\\');
        out.push('\\');
        assert(out@ =~= old(out)@ + escape_char(c));
    } else {
        let u = c as u32;
        if u < 32 {
            out.push('\\');
            out.push('u');
            out.push('0');
            out.push('0');
            out.push(hex_to_char(u / 16));
            out.push(hex_to_char(u % 16));
            assert(out@ =~= old(out)@ + escape_char(c));
        } else {
            out.push(c);
            assert(out@ =~= old(out)@ + escape_char(c));
        }
    }
}

/// `escape_str` distributes over concatenation.
proof fn lemma_escape_str_append(a: Seq<char>, b: Seq<char>)
    ensures
        escape_str(a + b) == escape_str(a) + escape_str(b),
    decreases a.len(),
{
    if a.len() == 0 {
        assert(a + b =~= b);
        assert(escape_str(a) =~= Seq::empty());
        assert(escape_str(a) + escape_str(b) =~= escape_str(b));
    } else {
        assert((a + b).drop_first() =~= a.drop_first() + b);
        lemma_escape_str_append(a.drop_first(), b);
        assert(escape_str(a + b) =~= escape_str(a) + escape_str(b));
    }
}

/// Append the escaped form of a whole string body.
fn push_escaped(s: &Vec<char>, out: &mut Vec<char>)
    ensures
        final(out)@ == old(out)@ + escape_str(s@),
{
    let n = s.len();
    let mut i: usize = 0;
    while i < n
        invariant
            n == s.len(),
            i <= n,
            out@ == old(out)@ + escape_str(s@.take(i as int)),
        decreases n - i,
    {
        push_escaped_char(s[i], out);
        proof {
            let c = s@[i as int];
            assert(s@.take(i + 1 as int) =~= s@.take(i as int) + seq![c]);
            lemma_escape_str_append(s@.take(i as int), seq![c]);
            assert(seq![c].drop_first() =~= Seq::<char>::empty());
            assert(escape_str(Seq::<char>::empty()) == Seq::<char>::empty());
            assert(escape_str(seq![c]) =~= escape_char(c));
        }
        i = i + 1;
    }
    assert(s@.take(n as int) =~= s@);
}

/// Append the canonical serialization of `j`.
fn push_json(j: &Json, out: &mut Vec<char>)
    ensures
        final(out)@ == old(out)@ + ser_json(*j),
    decreases *j,
{
    match j {
        Json::Null => {
            out.push('n');
            out.push('u');
            out.push('l');
            out.push('l');
            assert(out@ =~= old(out)@ + ser_json(*j));
        }
        Json::Bool(b) => {
            if *b {
                out.push('t');
                out.push('r');
                out.push('u');
                out.push('e');
            } else {
                out.push('f');
                out.push('a');
                out.push('l');
                out.push('s');
                out.push('e');
            }
            assert(out@ =~= old(out)@ + ser_json(*j));
        }
        Json::Int(n) => {
            push_i64(*n, out);
        }
        Json::Str(s) => {
            out.push('"');
            let cs = str_to_chars(s.as_str());
            push_escaped(&cs, out);
            out.push('"');
            assert(out@ =~= old(out)@ + ser_json(*j));
        }
        Json::Arr(v) => {
            out.push('[');
            proof {
                assert(v@.skip(0) =~= v@);
                assert(decreases_to!(*j => v@));
            }
            push_elems(v, 0, out);
            out.push(']');
            assert(out@ =~= old(out)@ + ser_json(*j));
        }
        Json::Obj(m) => {
            out.push('{');
            proof {
                assert(m@.skip(0) =~= m@);
                assert(decreases_to!(*j => m@));
            }
            push_members(m, 0, out);
            out.push('}');
            assert(out@ =~= old(out)@ + ser_json(*j));
        }
    }
}

/// Append the serialization of the elements of `v` from position `i` on.
fn push_elems(v: &Vec<Json>, i: usize, out: &mut Vec<char>)
    requires
        i <= v.len(),
    ensures
        final(out)@ == old(out)@ + ser_elems(v@.skip(i as int)),
    decreases v@.skip(i as int),
{
    if i < v.len() {
        proof {
            assert(decreases_to!(v@.skip(i as int) => v@.skip(i as int)[0]));
            assert(v@.skip(i as int)[0] == v@[i as int]);
        }
        push_json(&v[i], out);
        if i + 1 < v.len() {
            out.push(',');
            proof {
                assert(v@.skip(i + 1 as int) =~= v@.skip(i as int).subrange(
                    1,
                    v@.skip(i as int).len() as int,
                ));
            }
            push_elems(v, i + 1, out);
            assert(v@.skip(i as int).drop_first() =~= v@.skip(i + 1 as int));
            assert(out@ =~= old(out)@ + ser_elems(v@.skip(i as int)));
        } else {
            assert(v@.skip(i as int).len() == 1);
            assert(out@ =~= old(out)@ + ser_elems(v@.skip(i as int)));
        }
    } else {
        assert(v@.skip(i as int).len() == 0);
        assert(out@ =~= old(out)@ + ser_elems(v@.skip(i as int)));
    }
}

/// Append the serialization of the members of `m` from position `i` on.
fn push_members(m: &Vec<(String, Json)>, i: usize, out: &mut Vec<char>)
    requires
        i <= m.len(),
    ensures
        final(out)@ == old(out)@ + ser_members(m@.skip(i as int)),
    decreases m@.skip(i as int),
{
    if i < m.len() {
        proof {
            assert(decreases_to!(m@.skip(i as int) => m@.skip(i as int)[0]));
            assert(m@.skip(i as int)[0] == m@[i as int]);
            assert(decreases_to!(m@[i as int] => m@[i as int].1));
        }
        let kv = &m[i];
        out.push('"');
        let kcs = str_to_chars(kv.0.as_str());
        push_escaped(&kcs, out);
        out.push('"');
        out.push(':');
        push_json(&kv.1, out);
        assert(out@ =~= old(out)@ + ser_member(m@[i as int].0@, m@[i as int].1));
        if i + 1 < m.len() {
            out.push(',');
            proof {
                assert(m@.skip(i + 1 as int) =~= m@.skip(i as int).subrange(
                    1,
                    m@.skip(i as int).len() as int,
                ));
            }
            push_members(m, i + 1, out);
            assert(m@.skip(i as int).drop_first() =~= m@.skip(i + 1 as int));
            assert(out@ =~= old(out)@ + ser_members(m@.skip(i as int)));
        } else {
            assert(m@.skip(i as int).len() == 1);
            assert(out@ =~= old(out)@ + ser_members(m@.skip(i as int)));
        }
    } else {
        assert(m@.skip(i as int).len() == 0);
        assert(out@ =~= old(out)@ + ser_members(m@.skip(i as int)));
    }
}

/// Serialize `j` to its canonical text.
pub fn json_to_text(j: &Json) -> (r: String)
    ensures
        r@ == ser_json(*j),
{
    let mut out: Vec<char> = Vec::new();
    push_json(j, &mut out);
    chars_to_string(&out)
}

// ---------------------------------------------------------------------------
// The mathematical mirror of a value, used by the parser's specification.
// ---------------------------------------------------------------------------

/// A JSON value over mathematical types: what a parsed document denotes.
pub enum JsonV {
    Null,
    Bool(bool),
    Int(int),
    Str(Seq<char>),
    Arr(Seq<JsonV>),
    Obj(Seq<(Seq<char>, JsonV)>),
}

/// The denotation of an executable value.
pub open spec fn json_view(j: Json) -> JsonV
    decreases j, 0int,
{
    match j {
        Json::Null => JsonV::Null,
        Json::Bool(b) => JsonV::Bool(b),
        Json::Int(n) => JsonV::Int(n as int),
        Json::Str(s) => JsonV::Str(s@),
        Json::Arr(v) => JsonV::Arr(views_of(v@)),
        Json::Obj(m) => JsonV::Obj(member_views_of(m@)),
    }
}

/// The denotations of a sequence of values.
pub open spec fn views_of(v: Seq<Json>) -> Seq<JsonV>
    decreases v, 0int,
{
    if v.len() == 0 { Seq::empty() } else { seq![json_view(v[0])] + views_of(v.drop_first()) }
}

/// The denotations of a sequence of object members.
pub open spec fn member_views_of(m: Seq<(String, Json)>) -> Seq<(Seq<char>, JsonV)>
    decreases m, 0int,
{
    if m.len() == 0 { Seq::empty() }
    else { seq![(m[0].0@, json_view(m[0].1))] + member_views_of(m.drop_first()) }
}

impl View for Json {
    type V = JsonV;

    open spec fn view(&self) -> JsonV {
        json_view(*self)
    }
}

/// `views_of` acts pointwise.
pub proof fn lemma_views_of_index(v: Seq<Json>, i: int)
    requires
        0 <= i < v.len(),
    ensures
        views_of(v).len() == v.len(),
        views_of(v)[i] == json_view(v[i]),
    decreases v.len(),
{
    lemma_views_of_len(v);
    if i > 0 {
        lemma_views_of_index(v.drop_first(), i - 1);
    }
}

/// `views_of` preserves length.
pub proof fn lemma_views_of_len(v: Seq<Json>)
    ensures
        views_of(v).len() == v.len(),
    decreases v.len(),
{
    if v.len() > 0 {
        lemma_views_of_len(v.drop_first());
    }
}

/// `member_views_of` acts pointwise.
pub proof fn lemma_member_views_of_index(m: Seq<(String, Json)>, i: int)
    requires
        0 <= i < m.len(),
    ensures
        member_views_of(m).len() == m.len(),
        member_views_of(m)[i] == (m[i].0@, json_view(m[i].1)),
    decreases m.len(),
{
    lemma_member_views_of_len(m);
    if i > 0 {
        lemma_member_views_of_index(m.drop_first(), i - 1);
    }
}

/// `member_views_of` preserves length.
pub proof fn lemma_member_views_of_len(m: Seq<(String, Json)>)
    ensures
        member_views_of(m).len() == m.len(),
    decreases m.len(),
{
    if m.len() > 0 {
        lemma_member_views_of_len(m.drop_first());
    }
}

// ---------------------------------------------------------------------------
// The grammar, as a specification parser.
//
// Each function consumes a prefix of its input and returns the denoted value
// together with the remaining input, or nothing when the input is not in the
// grammar.  The `len()` guards make termination structural; none of them can
// actually fire, because a successful parse always consumes at least one
// character.
// ---------------------------------------------------------------------------

/// JSON whitespace.
pub open spec fn is_ws(c: char) -> bool {
    c == ' ' || c == '\n' || c == '\t' || c == '\r'
}

/// Drop leading whitespace.
pub open spec fn skip_ws(s: Seq<char>) -> Seq<char>
    decreases s.len(),
{
    if s.len() > 0 && is_ws(s[0]) { skip_ws(s.drop_first()) } else { s }
}

/// A decimal digit.
pub open spec fn is_digit(c: char) -> bool {
    48 <= c as u32 <= 57
}

/// The value of a decimal digit.
pub open spec fn digit_val(c: char) -> int {
    c as u32 - 48
}

/// A hexadecimal digit, either case.
pub open spec fn is_hex(c: char) -> bool {
    is_digit(c) || 97 <= c as u32 <= 102 || 65 <= c as u32 <= 70
}

/// The value of a hexadecimal digit.
pub open spec fn hex_val(c: char) -> int {
    if is_digit(c) { c as u32 - 48 }
    else if 97 <= c as u32 { c as u32 - 87 }
    else { c as u32 - 55 }
}

/// The longest digit prefix of `s`.
pub open spec fn take_digits(s: Seq<char>) -> Seq<char>
    decreases s.len(),
{
    if s.len() > 0 && is_digit(s[0]) { seq![s[0]] + take_digits(s.drop_first()) } else { Seq::empty() }
}

/// The number denoted by a digit string.
pub open spec fn digits_val(ds: Seq<char>) -> int
    decreases ds.len(),
{
    if ds.len() == 0 { 0 } else { digits_val(ds.drop_last()) * 10 + digit_val(ds.last()) }
}

/// Whether a number would continue with a fraction or exponent, which the
/// protocol's integer-valued documents do not use.
pub open spec fn number_continues(rest: Seq<char>) -> bool {
    rest.len() > 0 && (rest[0] == '.' || rest[0] == 'e' || rest[0] == 'E')
}

/// Parse an integer at the head of `s`.
pub open spec fn p_number(s: Seq<char>) -> Option<(JsonV, Seq<char>)> {
    if s.len() > 0 && s[0] == '-' {
        let ds = take_digits(s.drop_first());
        let rest = s.drop_first().skip(ds.len() as int);
        if ds.len() == 0 { None }
        else if number_continues(rest) { None }
        else if digits_val(ds) <= 0x8000_0000_0000_0000 { Some((JsonV::Int(-digits_val(ds)), rest)) }
        else { None }
    } else {
        let ds = take_digits(s);
        let rest = s.skip(ds.len() as int);
        if ds.len() == 0 { None }
        else if number_continues(rest) { None }
        else if digits_val(ds) <= 0x7fff_ffff_ffff_ffff { Some((JsonV::Int(digits_val(ds)), rest)) }
        else { None }
    }
}

/// The character denoted by a single-character escape, if the escape is known.
pub open spec fn unescape_simple(e: char) -> Option<char> {
    if e == '"' { Some('"') }
    else if e == '\\' { Some('\\') }
    else if e == '/' { Some('/') }
    else if e == 'n' { Some('\n') }
    else if e == 't' { Some('\t') }
    else if e == 'r' { Some('\r') }
    else if e == 'b' { Some(8u8 as char) }
    else if e == 'f' { Some(12u8 as char) }
    else { None }
}

/// Prepend a character to a successful string parse.
pub open spec fn cons_parsed(c: char, r: Option<(Seq<char>, Seq<char>)>) -> Option<(Seq<char>, Seq<char>)> {
    match r {
        Some((t, rest)) => Some((seq![c] + t, rest)),
        None => None,
    }
}

/// Parse a string body up to and including the closing quote.  Escaped code
/// points outside ASCII are not accepted.
pub open spec fn p_string_body(s: Seq<char>) -> Option<(Seq<char>, Seq<char>)>
    decreases s.len(),
{
    if s.len() == 0 { None }
    else if s[0] == '"' { Some((Seq::empty(), s.drop_first())) }
    else if s[0] == '\\' {
        if s.len() < 2 { None }
        else if s[1] == 'u' {
            if s.len() >= 6 && is_hex(s[2]) && is_hex(s[3]) && is_hex(s[4]) && is_hex(s[5]) {
                let code = hex_val(s[2]) * 4096 + hex_val(s[3]) * 256 + hex_val(s[4]) * 16 + hex_val(s[5]);
                if code < 128 { cons_parsed((code as u8) as char, p_string_body(s.skip(6))) }
                else { None }
            } else { None }
        } else {
            match unescape_simple(s[1]) {
                Some(c) => cons_parsed(c, p_string_body(s.skip(2))),
                None => None,
            }
        }
    }
    else if is_control(s[0]) { None }
    else { cons_parsed(s[0], p_string_body(s.drop_first())) }
}

/// Parse one value at the head of `s`, after optional whitespace.
pub open spec fn p_value(s: Seq<char>) -> Option<(JsonV, Seq<char>)>
    decreases s.len(), 2int,
{
    let t = skip_ws(s);
    if t.len() > s.len() { None }
    else if t.len() == 0 { None }
    else {
        let c = t[0];
        if c == 'n' {
            if t.len() >= 4 && t[1] == 'u' && t[2] == 'l' && t[3] == 'l' { Some((JsonV::Null, t.skip(4))) }
            else { None }
        } else if c == 't' {
            if t.len() >= 4 && t[1] == 'r' && t[2] == 'u' && t[3] == 'e' { Some((JsonV::Bool(true), t.skip(4))) }
            else { None }
        } else if c == 'f' {
            if t.len() >= 5 && t[1] == 'a' && t[2] == 'l' && t[3] == 's' && t[4] == 'e' {
                Some((JsonV::Bool(false), t.skip(5)))
            } else { None }
        } else if c == '"' {
            match p_string_body(t.drop_first()) {
                Some((cs, r)) => Some((JsonV::Str(cs), r)),
                None => None,
            }
        } else if c == '-' || is_digit(c) {
            p_number(t)
        } else if c == '[' {
            let u = skip_ws(t.drop_first());
            if u.len() >= t.len() { None }
            else if u.len() > 0 && u[0] == ']' { Some((JsonV::Arr(Seq::empty()), u.drop_first())) }
            else {
                match p_elems(t.drop_first()) {
                    Some((vs, r)) => Some((JsonV::Arr(vs), r)),
                    None => None,
                }
            }
        } else if c == '{' {
            let u = skip_ws(t.drop_first());
            if u.len() >= t.len() { None }
            else if u.len() > 0 && u[0] == '}' { Some((JsonV::Obj(Seq::empty()), u.drop_first())) }
            else {
                match p_members(t.drop_first()) {
                    Some((ms, r)) => Some((JsonV::Obj(ms), r)),
                    None => None,
                }
            }
        } else { None }
    }
}

/// Parse one or more comma-separated array elements and the closing bracket.
pub open spec fn p_elems(s: Seq<char>) -> Option<(Seq<JsonV>, Seq<char>)>
    decreases s.len(), 3int,
{
    match p_value(s) {
        Some((v, r)) => {
            let r2 = skip_ws(r);
            if r2.len() > s.len() { None }
            else if r2.len() == 0 { None }
            else if r2[0] == ',' {
                if r2.len() > s.len() { None }
                else {
                    match p_elems(r2.drop_first()) {
                        Some((vs, r3)) => Some((seq![v] + vs, r3)),
                        None => None,
                    }
                }
            } else if r2[0] == ']' { Some((seq![v], r2.drop_first())) }
            else { None }
        }
        None => None,
    }
}

/// Parse one or more object members and the closing brace.
pub open spec fn p_members(s: Seq<char>) -> Option<(Seq<(Seq<char>, JsonV)>, Seq<char>)>
    decreases s.len(), 3int,
{
    let t = skip_ws(s);
    if t.len() > s.len() { None }
    else if t.len() == 0 || t[0] != '"' { None }
    else {
        match p_string_body(t.drop_first()) {
            Some((k, r1)) => {
                let r2 = skip_ws(r1);
                if r2.len() >= t.len() { None }
                else if r2.len() == 0 || r2[0] != ':' { None }
                else {
                    match p_value(r2.drop_first()) {
                        Some((v, r3)) => {
                            let r4 = skip_ws(r3);
                            if r4.len() > s.len() { None }
                            else if r4.len() == 0 { None }
                            else if r4[0] == ',' {
                                match p_members(r4.drop_first()) {
                                    Some((ms, r5)) => Some((seq![(k, v)] + ms, r5)),
                                    None => None,
                                }
                            } else if r4[0] == '}' { Some((seq![(k, v)], r4.drop_first())) }
                            else { None }
                        }
                        None => None,
                    }
                }
            }
            None => None,
        }
    }
}

/// Parse a whole document: one value with nothing but whitespace after it.
pub open spec fn p_document(s: Seq<char>) -> Option<JsonV> {
    match p_value(s) {
        Some((v, r)) => if skip_ws(r).len() == 0 { Some(v) } else { None },
        None => None,
    }
}

// ---------------------------------------------------------------------------
// The executable parser, verified against the specification parser.
// ---------------------------------------------------------------------------

/// Position after leading whitespace, from `i` on.
fn ews(s: &Vec<char>, i: usize) -> (w: usize)
    requires
        i <= s.len(),
    ensures
        i <= w <= s.len(),
        s@.skip(w as int) == skip_ws(s@.skip(i as int)),
    decreases s.len() - i,
{
    if i < s.len() {
        let c = s[i];
        proof {
            assert(s@.skip(i as int)[0] == s@[i as int]);
        }
        if c == ' ' || c == '\n' || c == '\t' || c == '\r' {
            proof {
                assert(s@.skip(i as int).drop_first() =~= s@.skip(i + 1 as int));
            }
            ews(s, i + 1)
        } else {
            i
        }
    } else {
        proof {
            assert(s@.skip(i as int).len() == 0);
        }
        i
    }
}

/// The numeric value of a hexadecimal digit character.
fn hex_val_char(c: char) -> (v: u32)
    requires
        is_hex(c),
    ensures
        v as int == hex_val(c),
        v < 16,
{
    let u = c as u32;
    if 48 <= u && u <= 57 {
        u - 48
    } else if 97 <= u {
        u - 87
    } else {
        u - 55
    }
}

/// Parse a string body from `i` up to and including the closing quote.
fn pstr(s: &Vec<char>, i: usize) -> (r: Option<(Vec<char>, usize)>)
    requires
        i <= s.len(),
    ensures
        match r {
            Some(pair) => i < pair.1 <= s.len() && p_string_body(s@.skip(i as int)) == Some(
                (pair.0@, s@.skip(pair.1 as int)),
            ),
            None => p_string_body(s@.skip(i as int)).is_none(),
        },
    decreases s.len() - i,
{
    let ghost t = s@.skip(i as int);
    if i >= s.len() {
        proof {
            assert(t.len() == 0);
        }
        return None;
    }
    let c = s[i];
    proof {
        assert(t[0] == c);
    }
    if c == '"' {
        proof {
            assert(t.drop_first() =~= s@.skip(i + 1 as int));
        }
        let cs: Vec<char> = Vec::new();
        return Some((cs, i + 1));
    }
    if c == '\\' {
        if i + 1 >= s.len() {
            proof {
                assert(t.len() < 2);
            }
            return None;
        }
        let e = s[i + 1];
        proof {
            assert(t[1] == e);
        }
        if e == 'u' {
            if s.len() - i < 6 {
                proof {
                    assert(t.len() < 6);
                }
                return None;
            }
            let h0 = s[i + 2];
            let h1 = s[i + 3];
            let h2 = s[i + 4];
            let h3 = s[i + 5];
            proof {
                assert(t[2] == h0 && t[3] == h1 && t[4] == h2 && t[5] == h3);
            }
            if !(is_hex_char(h0) && is_hex_char(h1) && is_hex_char(h2) && is_hex_char(h3)) {
                return None;
            }
            let code = hex_val_char(h0) * 4096 + hex_val_char(h1) * 256 + hex_val_char(h2) * 16
                + hex_val_char(h3);
            if code >= 128 {
                return None;
            }
            proof {
                assert(t.skip(6) =~= s@.skip(i + 6 as int));
            }
            match pstr(s, i + 6) {
                Some((mut cs, k)) => {
                    let ghost tail = cs@;
                    cs.insert(0, (code as u8) as char);
                    proof {
                        assert(cs@ =~= seq![((code as u8) as char)] + tail);
                    }
                    Some((cs, k))
                }
                None => None,
            }
        } else {
            let unescaped: Option<char> = if e == '"' {
                Some('"')
            } else if e == '\\' {
                Some('\\')
            } else if e == '/' {
                Some('/')
            } else if e == 'n' {
                Some('\n')
            } else if e == 't' {
                Some('\t')
            } else if e == 'r' {
                Some('\r')
            } else if e == 'b' {
                Some(8u8 as char)
            } else if e == 'f' {
                Some(12u8 as char)
            } else {
                None
            };
            match unescaped {
                Some(c2) => {
                    proof {
                        assert(t.skip(2) =~= s@.skip(i + 2 as int));
                    }
                    match pstr(s, i + 2) {
                        Some((mut cs, k)) => {
                            let ghost tail = cs@;
                            cs.insert(0, c2);
                            proof {
                                assert(cs@ =~= seq![c2] + tail);
                            }
                            Some((cs, k))
                        }
                        None => None,
                    }
                }
                None => None,
            }
        }
    } else {
        let u = c as u32;
        if u < 32 {
            return None;
        }
        proof {
            assert(t.drop_first() =~= s@.skip(i + 1 as int));
        }
        match pstr(s, i + 1) {
            Some((mut cs, k)) => {
                let ghost tail = cs@;
                cs.insert(0, c);
                proof {
                    assert(cs@ =~= seq![c] + tail);
                }
                Some((cs, k))
            }
            None => None,
        }
    }
}

/// Whether `c` is a hexadecimal digit.
fn is_hex_char(c: char) -> (b: bool)
    ensures
        b == is_hex(c),
{
    let u = c as u32;
    (48 <= u && u <= 57) || (97 <= u && u <= 102) || (65 <= u && u <= 70)
}

/// Whether `c` is a decimal digit.
fn is_digit_char(c: char) -> (b: bool)
    ensures
        b == is_digit(c),
{
    let u = c as u32;
    48 <= u && u <= 57
}

/// The end of the digit run beginning at `i`.
fn digits_end(s: &Vec<char>, i: usize) -> (e: usize)
    requires
        i <= s.len(),
    ensures
        i <= e <= s.len(),
        take_digits(s@.skip(i as int)) == s@.subrange(i as int, e as int),
        forall|k: int| i <= k < e ==> is_digit(s@[k]),
    decreases s.len() - i,
{
    let ghost t = s@.skip(i as int);
    if i < s.len() {
        proof {
            assert(t[0] == s@[i as int]);
        }
        if is_digit_char(s[i]) {
            proof {
                assert(t.drop_first() =~= s@.skip(i + 1 as int));
            }
            let e = digits_end(s, i + 1);
            proof {
                assert(seq![s@[i as int]] + s@.subrange(i + 1 as int, e as int) =~= s@.subrange(
                    i as int,
                    e as int,
                ));
            }
            e
        } else {
            proof {
                assert(s@.subrange(i as int, i as int) =~= Seq::<char>::empty());
            }
            i
        }
    } else {
        proof {
            assert(t.len() == 0);
            assert(s@.subrange(i as int, i as int) =~= Seq::<char>::empty());
        }
        i
    }
}

/// Digit strings denote non-negative values.
proof fn lemma_digits_val_nonneg(ds: Seq<char>)
    requires
        forall|k: int| 0 <= k < ds.len() ==> is_digit(ds[k]),
    ensures
        digits_val(ds) >= 0,
    decreases ds.len(),
{
    if ds.len() > 0 {
        assert(forall|k: int| 0 <= k < ds.drop_last().len() ==> is_digit(ds.drop_last()[k]));
        lemma_digits_val_nonneg(ds.drop_last());
    }
}

/// Parse an integer beginning at `i`, which must sit on `-` or a digit.
fn pnum(s: &Vec<char>, i: usize) -> (r: Option<(i64, usize)>)
    requires
        i <= s.len(),
    ensures
        match r {
            Some(pair) => i < pair.1 <= s.len() && p_number(s@.skip(i as int)) == Some(
                (JsonV::Int(pair.0 as int), s@.skip(pair.1 as int)),
            ),
            None => p_number(s@.skip(i as int)).is_none(),
        },
{
    let ghost t = s@.skip(i as int);
    let neg = i < s.len() && s[i] == '-';
    proof {
        if i < s.len() {
            assert(t[0] == s@[i as int]);
        }
    }
    let d0 = if neg { i + 1 } else { i };
    proof {
        if neg {
            assert(t.drop_first() =~= s@.skip(d0 as int));
        }
    }
    let e = digits_end(s, d0);
    let ghost ds = take_digits(s@.skip(d0 as int));
    if e == d0 {
        proof {
            assert(ds.len() == 0);
        }
        return None;
    }
    if e < s.len() {
        let c = s[e];
        if c == '.' || c == 'e' || c == 'E' {
            proof {
                assert(s@.skip(d0 as int).skip(ds.len() as int) =~= s@.skip(e as int));
                assert(s@.skip(e as int)[0] == s@[e as int]);
            }
            return None;
        }
    }
    proof {
        assert(s@.skip(d0 as int).skip(ds.len() as int) =~= s@.skip(e as int));
        if e < s.len() {
            assert(s@.skip(e as int)[0] == s@[e as int]);
        } else {
            assert(s@.skip(e as int).len() == 0);
        }
        assert(!number_continues(s@.skip(e as int)));
    }
    // Accumulate the digit run's value, stopping exactly where the
    // specification's range test fails.
    let mut acc: u64 = 0;
    let mut over = false;
    let mut j = d0;
    while j < e
        invariant
            d0 <= j <= e <= s.len(),
            ds == take_digits(s@.skip(d0 as int)),
            ds =~= s@.subrange(d0 as int, e as int),
            forall|k: int| d0 <= k < e ==> is_digit(s@[k]),
            !over ==> acc as int == digits_val(s@.subrange(d0 as int, j as int)) && acc
                <= 0x8000_0000_0000_0000,
            over ==> digits_val(s@.subrange(d0 as int, j as int)) > 0x8000_0000_0000_0000,
        decreases e - j,
    {
        let d = (s[j] as u32 - 48) as u64;
        proof {
            assert(is_digit(s@[j as int]));
            assert(s@.subrange(d0 as int, j + 1 as int).drop_last() =~= s@.subrange(
                d0 as int,
                j as int,
            ));
            assert(s@.subrange(d0 as int, j + 1 as int).last() == s@[j as int]);
        }
        if over {
            proof {
                lemma_digits_val_nonneg(s@.subrange(d0 as int, j as int));
            }
        } else if acc > (0x8000_0000_0000_0000u64 - d) / 10 {
            over = true;
            proof {
                assert(acc * 10 + d > 0x8000_0000_0000_0000) by (nonlinear_arith)
                    requires
                        acc > (0x8000_0000_0000_0000u64 - d) / 10,
                        d < 10,
                ;
            }
        } else {
            proof {
                assert(acc * 10 + d <= 0x8000_0000_0000_0000) by (nonlinear_arith)
                    requires
                        acc <= (0x8000_0000_0000_0000u64 - d) / 10,
                        d < 10,
                ;
            }
            acc = acc * 10 + d;
        }
        j = j + 1;
    }
    proof {
        assert(s@.subrange(d0 as int, e as int) =~= ds);
    }
    if over {
        proof {
            lemma_digits_val_nonneg(ds);
        }
        return None;
    }
    if neg {
        let n: i64 = if acc == 0x8000_0000_0000_0000u64 {
            i64::MIN
        } else {
            -(acc as i64)
        };
        proof {
            assert(n as int == -digits_val(ds));
        }
        Some((n, e))
    } else {
        if acc > 0x7fff_ffff_ffff_ffffu64 {
            return None;
        }
        Some((acc as i64, e))
    }
}

/// Parse one value beginning at `i`, after optional whitespace.
fn pv(s: &Vec<char>, i: usize) -> (r: Option<(Json, usize)>)
    requires
        i <= s.len(),
    ensures
        match r {
            Some(pair) => i < pair.1 <= s.len() && p_value(s@.skip(i as int)) == Some(
                (json_view(pair.0), s@.skip(pair.1 as int)),
            ),
            None => p_value(s@.skip(i as int)).is_none(),
        },
    decreases s.len() - i, 0int,
{
    let w = ews(s, i);
    let ghost t = skip_ws(s@.skip(i as int));
    proof {
        assert(t =~= s@.skip(w as int));
    }
    if w >= s.len() {
        proof {
            assert(t.len() == 0);
        }
        return None;
    }
    let c = s[w];
    proof {
        assert(t[0] == c);
    }
    if c == 'n' {
        if s.len() - w >= 4 && s[w + 1] == 'u' && s[w + 2] == 'l' && s[w + 3] == 'l' {
            proof {
                assert(t[1] == s@[w + 1 as int] && t[2] == s@[w + 2 as int] && t[3] == s@[w + 3 as int]);
                assert(t.skip(4) =~= s@.skip(w + 4 as int));
            }
            Some((Json::Null, w + 4))
        } else {
            proof {
                if t.len() >= 4 {
                    assert(t[1] == s@[w + 1 as int] && t[2] == s@[w + 2 as int] && t[3] == s@[w
                        + 3 as int]);
                }
            }
            None
        }
    } else if c == 't' {
        if s.len() - w >= 4 && s[w + 1] == 'r' && s[w + 2] == 'u' && s[w + 3] == 'e' {
            proof {
                assert(t[1] == s@[w + 1 as int] && t[2] == s@[w + 2 as int] && t[3] == s@[w + 3 as int]);
                assert(t.skip(4) =~= s@.skip(w + 4 as int));
            }
            Some((Json::Bool(true), w + 4))
        } else {
            proof {
                if t.len() >= 4 {
                    assert(t[1] == s@[w + 1 as int] && t[2] == s@[w + 2 as int] && t[3] == s@[w
                        + 3 as int]);
                }
            }
            None
        }
    } else if c == 'f' {
        if s.len() - w >= 5 && s[w + 1] == 'a' && s[w + 2] == 'l' && s[w + 3] == 's' && s[w + 4]
            == 'e' {
            proof {
                assert(t[1] == s@[w + 1 as int] && t[2] == s@[w + 2 as int] && t[3] == s@[w + 3 as int]
                    && t[4] == s@[w + 4 as int]);
                assert(t.skip(5) =~= s@.skip(w + 5 as int));
            }
            Some((Json::Bool(false), w + 5))
        } else {
            proof {
                if t.len() >= 5 {
                    assert(t[1] == s@[w + 1 as int] && t[2] == s@[w + 2 as int] && t[3] == s@[w
                        + 3 as int] && t[4] == s@[w + 4 as int]);
                }
            }
            None
        }
    } else if c == '"' {
        proof {
            assert(t.drop_first() =~= s@.skip(w + 1 as int));
        }
        match pstr(s, w + 1) {
            Some((cs, k)) => {
                let body = chars_to_string(&cs);
                Some((Json::Str(body), k))
            }
            None => None,
        }
    } else if c == '-' || is_digit_char(c) {
        match pnum(s, w) {
            Some((n, k)) => Some((Json::Int(n), k)),
            None => None,
        }
    } else if c == '[' {
        let w2 = ews(s, w + 1);
        let ghost u = skip_ws(t.drop_first());
        proof {
            assert(t.drop_first() =~= s@.skip(w + 1 as int));
            assert(u =~= s@.skip(w2 as int));
        }
        if w2 < s.len() && s[w2] == ']' {
            proof {
                assert(u[0] == s@[w2 as int]);
                assert(u.drop_first() =~= s@.skip(w2 + 1 as int));
                assert(views_of(Seq::<Json>::empty()) =~= Seq::<JsonV>::empty());
            }
            Some((Json::Arr(Vec::new()), w2 + 1))
        } else {
            proof {
                if u.len() > 0 {
                    assert(u[0] == s@[w2 as int]);
                }
            }
            match pelems(s, w + 1) {
                Some((v, k)) => Some((Json::Arr(v), k)),
                None => None,
            }
        }
    } else if c == '{' {
        let w2 = ews(s, w + 1);
        let ghost u = skip_ws(t.drop_first());
        proof {
            assert(t.drop_first() =~= s@.skip(w + 1 as int));
            assert(u =~= s@.skip(w2 as int));
        }
        if w2 < s.len() && s[w2] == '}' {
            proof {
                assert(u[0] == s@[w2 as int]);
                assert(u.drop_first() =~= s@.skip(w2 + 1 as int));
                assert(member_views_of(Seq::<(String, Json)>::empty()) =~= Seq::<(Seq<char>, JsonV)>::empty());
            }
            Some((Json::Obj(Vec::new()), w2 + 1))
        } else {
            proof {
                if u.len() > 0 {
                    assert(u[0] == s@[w2 as int]);
                }
            }
            match pmembers(s, w + 1) {
                Some((m, k)) => Some((Json::Obj(m), k)),
                None => None,
            }
        }
    } else {
        None
    }
}

/// Parse one or more comma-separated elements and the closing bracket.
fn pelems(s: &Vec<char>, i: usize) -> (r: Option<(Vec<Json>, usize)>)
    requires
        i <= s.len(),
    ensures
        match r {
            Some(pair) => i < pair.1 <= s.len() && p_elems(s@.skip(i as int)) == Some(
                (views_of(pair.0@), s@.skip(pair.1 as int)),
            ),
            None => p_elems(s@.skip(i as int)).is_none(),
        },
    decreases s.len() - i, 1int,
{
    match pv(s, i) {
        None => None,
        Some((v, k)) => {
            let w = ews(s, k);
            let ghost r2 = skip_ws(s@.skip(k as int));
            proof {
                assert(r2 =~= s@.skip(w as int));
            }
            if w >= s.len() {
                proof {
                    assert(r2.len() == 0);
                }
                return None;
            }
            let c = s[w];
            proof {
                assert(r2[0] == c);
            }
            if c == ',' {
                proof {
                    assert(r2.drop_first() =~= s@.skip(w + 1 as int));
                }
                match pelems(s, w + 1) {
                    Some((mut vs, k2)) => {
                        let ghost tail = vs@;
                        vs.insert(0, v);
                        proof {
                            assert(vs@ =~= seq![v] + tail);
                            assert((seq![v] + tail).drop_first() =~= tail);
                            assert(views_of(vs@) =~= seq![json_view(v)] + views_of(tail));
                        }
                        Some((vs, k2))
                    }
                    None => None,
                }
            } else if c == ']' {
                proof {
                    assert(r2.drop_first() =~= s@.skip(w + 1 as int));
                }
                let mut vs: Vec<Json> = Vec::new();
                vs.push(v);
                proof {
                    assert(vs@ =~= seq![v]);
                    assert(seq![v].drop_first() =~= Seq::<Json>::empty());
                    assert(views_of(Seq::<Json>::empty()) =~= Seq::<JsonV>::empty());
                    assert(views_of(vs@) =~= seq![json_view(v)]);
                }
                Some((vs, w + 1))
            } else {
                None
            }
        }
    }
}

/// Parse one or more object members and the closing brace.
fn pmembers(s: &Vec<char>, i: usize) -> (r: Option<(Vec<(String, Json)>, usize)>)
    requires
        i <= s.len(),
    ensures
        match r {
            Some(pair) => i < pair.1 <= s.len() && p_members(s@.skip(i as int)) == Some(
                (member_views_of(pair.0@), s@.skip(pair.1 as int)),
            ),
            None => p_members(s@.skip(i as int)).is_none(),
        },
    decreases s.len() - i, 1int,
{
    let w = ews(s, i);
    let ghost t = skip_ws(s@.skip(i as int));
    proof {
        assert(t =~= s@.skip(w as int));
    }
    if w >= s.len() {
        proof {
            assert(t.len() == 0);
        }
        return None;
    }
    let c = s[w];
    proof {
        assert(t[0] == c);
    }
    if c != '"' {
        return None;
    }
    proof {
        assert(t.drop_first() =~= s@.skip(w + 1 as int));
    }
    match pstr(s, w + 1) {
        None => None,
        Some((kcs, k1)) => {
            let w2 = ews(s, k1);
            let ghost r2 = skip_ws(s@.skip(k1 as int));
            proof {
                assert(r2 =~= s@.skip(w2 as int));
            }
            if w2 >= s.len() {
                proof {
                    assert(r2.len() == 0);
                }
                return None;
            }
            let c2 = s[w2];
            proof {
                assert(r2[0] == c2);
            }
            if c2 != ':' {
                return None;
            }
            proof {
                assert(r2.drop_first() =~= s@.skip(w2 + 1 as int));
            }
            match pv(s, w2 + 1) {
                None => None,
                Some((v, k2)) => {
                    let w3 = ews(s, k2);
                    let ghost r4 = skip_ws(s@.skip(k2 as int));
                    proof {
                        assert(r4 =~= s@.skip(w3 as int));
                    }
                    if w3 >= s.len() {
                        proof {
                            assert(r4.len() == 0);
                        }
                        return None;
                    }
                    let c3 = s[w3];
                    proof {
                        assert(r4[0] == c3);
                    }
                    let key = chars_to_string(&kcs);
                    if c3 == ',' {
                        proof {
                            assert(r4.drop_first() =~= s@.skip(w3 + 1 as int));
                        }
                        match pmembers(s, w3 + 1) {
                            Some((mut ms, k3)) => {
                                let ghost tail = ms@;
                                ms.insert(0, (key, v));
                                proof {
                                    assert(ms@ =~= seq![(key, v)] + tail);
                                    assert((seq![(key, v)] + tail).drop_first() =~= tail);
                                    assert(member_views_of(ms@) =~= seq![(key@, json_view(v))]
                                        + member_views_of(tail));
                                    assert(member_views_of(ms@)[0].0 == kcs@);
                                }
                                Some((ms, k3))
                            }
                            None => None,
                        }
                    } else if c3 == '}' {
                        proof {
                            assert(r4.drop_first() =~= s@.skip(w3 + 1 as int));
                        }
                        let mut ms: Vec<(String, Json)> = Vec::new();
                        ms.push((key, v));
                        proof {
                            assert(ms@ =~= seq![(ms@[0].0, v)]);
                            assert(ms@.drop_first() =~= Seq::<(String, Json)>::empty());
                            assert(member_views_of(Seq::<(String, Json)>::empty())
                                =~= Seq::<(Seq<char>, JsonV)>::empty());
                            assert(member_views_of(ms@) =~= seq![(kcs@, json_view(v))]);
                        }
                        Some((ms, w3 + 1))
                    } else {
                        None
                    }
                }
            }
        }
    }
}

/// Parse a whole document: one value with nothing but whitespace after it.
pub fn text_to_json(text: &str) -> (r: Option<Json>)
    ensures
        match r {
            Some(j) => p_document(text@) == Some(json_view(j)),
            None => p_document(text@).is_none(),
        },
{
    let s = crate::text::str_to_chars(text);
    proof {
        assert(s@.skip(0) =~= s@);
    }
    match pv(&s, 0) {
        None => None,
        Some((j, k)) => {
            let w = ews(&s, k);
            proof {
                assert(skip_ws(s@.skip(k as int)) =~= s@.skip(w as int));
            }
            if w == s.len() {
                proof {
                    assert(s@.skip(w as int).len() == 0);
                }
                Some(j)
            } else {
                proof {
                    assert(s@.skip(w as int).len() > 0);
                }
                None
            }
        }
    }
}



// ---------------------------------------------------------------------------
// The parser inverts the serializer.
// ---------------------------------------------------------------------------

/// A context in which a serialized number is not extended by what follows.
pub open spec fn num_boundary(rest: Seq<char>) -> bool {
    rest.len() == 0 || (!is_digit(rest[0]) && rest[0] != '.' && rest[0] != 'e' && rest[0] != 'E')
}

/// A low code point survives the round trip through `u8`.
proof fn lemma_low_char_cast(c: char)
    requires
        (c as u32) < 128,
    ensures
        ((c as u32) as u8) as char == c,
{
}

/// Skipping whitespace does nothing on text that does not start with any.
proof fn lemma_skip_ws_nop(s: Seq<char>)
    requires
        s.len() == 0 || !is_ws(s[0]),
    ensures
        skip_ws(s) == s,
{
}

/// Serialized naturals are non-empty strings of digits.
proof fn lemma_ser_nat_digits(n: nat)
    ensures
        ser_nat(n).len() >= 1,
        forall|k: int| 0 <= k < ser_nat(n).len() ==> is_digit(#[trigger] ser_nat(n)[k]),
    decreases n,
{
    if n < 10 {
        assert(is_digit(digit_char(n as int)));
    } else {
        lemma_ser_nat_digits(n / 10);
        assert(is_digit(digit_char((n % 10) as int)));
        assert(forall|k: int| 0 <= k < ser_nat(n / 10).len() ==> is_digit(#[trigger] ser_nat(n)[k]));
    }
}

/// The two digit maps are inverse.
proof fn lemma_digit_val_char(d: int)
    requires
        0 <= d < 10,
    ensures
        is_digit(digit_char(d)),
        digit_val(digit_char(d)) == d,
{
}

/// The two hexadecimal digit maps are inverse.
proof fn lemma_hex_val_char(d: int)
    requires
        0 <= d < 16,
    ensures
        is_hex(hex_char(d)),
        hex_val(hex_char(d)) == d,
{
}

/// A serialized natural denotes itself.
proof fn lemma_digits_val_ser_nat(n: nat)
    ensures
        digits_val(ser_nat(n)) == n,
    decreases n,
{
    if n < 10 {
        assert(seq![digit_char(n as int)].drop_last() =~= Seq::<char>::empty());
        assert(digits_val(Seq::<char>::empty()) == 0);
        assert(seq![digit_char(n as int)].last() == digit_char(n as int));
        lemma_digit_val_char(n as int);
    } else {
        lemma_digits_val_ser_nat(n / 10);
        let a = ser_nat(n / 10);
        let c = digit_char((n % 10) as int);
        assert((a + seq![c]).drop_last() =~= a);
        assert((a + seq![c]).last() == c);
        lemma_digit_val_char((n % 10) as int);
    }
}

/// The digit run at the head of digits followed by a non-digit is exactly
/// those digits.
proof fn lemma_take_digits_exact(ds: Seq<char>, rest: Seq<char>)
    requires
        forall|k: int| 0 <= k < ds.len() ==> is_digit(#[trigger] ds[k]),
        rest.len() == 0 || !is_digit(rest[0]),
    ensures
        take_digits(ds + rest) == ds,
    decreases ds.len(),
{
    if ds.len() == 0 {
        assert(ds + rest =~= rest);
        assert(take_digits(rest) =~= Seq::<char>::empty());
        assert(take_digits(ds + rest) =~= ds);
    } else {
        assert((ds + rest)[0] == ds[0]);
        assert((ds + rest).drop_first() =~= ds.drop_first() + rest);
        lemma_take_digits_exact(ds.drop_first(), rest);
        assert(take_digits(ds + rest) =~= seq![ds[0]] + ds.drop_first());
        assert(seq![ds[0]] + ds.drop_first() =~= ds);
    }
}

/// Parsing a serialized integer at a number boundary gives it back.
proof fn lemma_rt_number(n: int, rest: Seq<char>)
    requires
        -0x8000_0000_0000_0000 <= n <= 0x7fff_ffff_ffff_ffff,
        num_boundary(rest),
    ensures
        p_number(ser_int(n) + rest) == Some((JsonV::Int(n), rest)),
{
    let s = ser_int(n) + rest;
    if n >= 0 {
        let ds = ser_nat(n as nat);
        lemma_ser_nat_digits(n as nat);
        assert(s =~= ds + rest);
        assert(s[0] == ds[0]);
        assert(s[0] != '-');
        lemma_take_digits_exact(ds, rest);
        assert(s.skip(ds.len() as int) =~= rest);
        lemma_digits_val_ser_nat(n as nat);
        assert(!number_continues(rest));
    } else {
        let m = (-n) as nat;
        let ds = ser_nat(m);
        lemma_ser_nat_digits(m);
        assert(s[0] == '-');
        assert(s.drop_first() =~= ds + rest);
        lemma_take_digits_exact(ds, rest);
        assert((ds + rest).skip(ds.len() as int) =~= rest);
        lemma_digits_val_ser_nat(m);
        assert(!number_continues(rest));
        assert(digits_val(ds) == m);
        assert(m <= 0x8000_0000_0000_0000);
    }
}

/// Parsing a serialized, escaped string body gives back the original string.
proof fn lemma_rt_string(sv: Seq<char>, rest: Seq<char>)
    ensures
        p_string_body(escape_str(sv) + seq!['"'] + rest) == Some((sv, rest)),
    decreases sv.len(),
{
    let s = escape_str(sv) + seq!['"'] + rest;
    if sv.len() == 0 {
        assert(escape_str(sv) =~= Seq::<char>::empty());
        assert(s =~= seq!['"'] + rest);
        assert(s[0] == '"');
        assert(s.drop_first() =~= rest);
        assert(p_string_body(s) == Some((Seq::<char>::empty(), rest)));
        assert(sv =~= Seq::<char>::empty());
    } else {
        let c = sv[0];
        let tail = escape_str(sv.drop_first()) + seq!['"'] + rest;
        assert(escape_str(sv) == escape_char(c) + escape_str(sv.drop_first()));
        assert(s =~= escape_char(c) + tail);
        lemma_rt_string(sv.drop_first(), rest);
        if c == '"' {
            assert(s[0] == '\\');
            assert(s[1] == '"');
            assert(s.skip(2) =~= tail);
            assert(seq![c] + sv.drop_first() =~= sv);
        } else if c == '\\' {
            assert(s[0] == '\\');
            assert(s[1] == '\\');
            assert(s.skip(2) =~= tail);
            assert(seq![c] + sv.drop_first() =~= sv);
        } else if is_control(c) {
            let u = c as u32 as int;
            assert(s[0] == '\\');
            assert(s[1] == 'u');
            assert(s[2] == '0');
            assert(s[3] == '0');
            assert(s[4] == hex_char(u / 16));
            assert(s[5] == hex_char(u % 16));
            lemma_hex_val_char(u / 16);
            lemma_hex_val_char(u % 16);
            assert(hex_val('0') == 0);
            assert(is_hex('0'));
            let code = hex_val(s[2]) * 4096 + hex_val(s[3]) * 256 + hex_val(s[4]) * 16 + hex_val(
                s[5],
            );
            assert(code == (u / 16) * 16 + u % 16);
            assert(code == u);
            assert(code < 128);
            lemma_low_char_cast(c);
            assert(code as u8 == (c as u32) as u8);
            assert(((code as u8) as char) == c);
            assert(s.skip(6) =~= tail);
            assert(seq![c] + sv.drop_first() =~= sv);
        } else {
            assert(s[0] == c);
            assert(!is_control(s[0]));
            assert(s.drop_first() =~= tail);
            assert(seq![c] + sv.drop_first() =~= sv);
        }
    }
}

/// Denotations whose integers fit the wire's machine range.
pub open spec fn wf_jsonv(v: JsonV) -> bool
    decreases v, 0int,
{
    match v {
        JsonV::Int(n) => -0x8000_0000_0000_0000 <= n <= 0x7fff_ffff_ffff_ffff,
        JsonV::Arr(vs) => wf_elems_v(vs),
        JsonV::Obj(ms) => wf_members_v(ms),
        _ => true,
    }
}

/// All elements are well-formed.
pub open spec fn wf_elems_v(vs: Seq<JsonV>) -> bool
    decreases vs, 1int,
{
    if vs.len() == 0 { true } else { wf_jsonv(vs[0]) && wf_elems_v(vs.drop_first()) }
}

/// All member values are well-formed.
pub open spec fn wf_members_v(ms: Seq<(Seq<char>, JsonV)>) -> bool
    decreases ms, 1int,
{
    if ms.len() == 0 { true } else { wf_jsonv(ms[0].1) && wf_members_v(ms.drop_first()) }
}

/// Every executable value denotes a well-formed denotation.
pub proof fn lemma_view_wf(j: Json)
    ensures
        wf_jsonv(json_view(j)),
    decreases j, 0int,
{
    match j {
        Json::Arr(v) => {
            lemma_views_wf(v@);
        }
        Json::Obj(m) => {
            lemma_member_views_wf(m@);
        }
        _ => {}
    }
}

/// Every sequence of executable values denotes well-formed elements.
proof fn lemma_views_wf(v: Seq<Json>)
    ensures
        wf_elems_v(views_of(v)),
    decreases v, 1int,
{
    if v.len() == 0 {
        assert(views_of(v) =~= Seq::<JsonV>::empty());
    } else {
        lemma_view_wf(v[0]);
        lemma_views_wf(v.drop_first());
        assert(views_of(v).drop_first() =~= views_of(v.drop_first()));
        assert(views_of(v)[0] == json_view(v[0]));
    }
}

/// Every sequence of executable members denotes well-formed members.
proof fn lemma_member_views_wf(m: Seq<(String, Json)>)
    ensures
        wf_members_v(member_views_of(m)),
    decreases m, 1int,
{
    if m.len() == 0 {
        assert(member_views_of(m) =~= Seq::<(Seq<char>, JsonV)>::empty());
    } else {
        lemma_view_wf(m[0].1);
        lemma_member_views_wf(m.drop_first());
        assert(member_views_of(m).drop_first() =~= member_views_of(m.drop_first()));
        assert(member_views_of(m)[0] == (m[0].0@, json_view(m[0].1)));
    }
}

/// The first character of a serialized value: never whitespace, never a
/// closing delimiter or separator.
proof fn lemma_ser_first_v(v: JsonV)
    ensures
        ser_jsonv(v).len() > 0,
        !is_ws(ser_jsonv(v)[0]),
        ser_jsonv(v)[0] != ']',
        ser_jsonv(v)[0] != '}',
        ser_jsonv(v)[0] != ',',
        ser_jsonv(v)[0] != ':',
{
    match v {
        JsonV::Int(n) => {
            if n >= 0 {
                lemma_ser_nat_digits(n as nat);
                assert(ser_jsonv(v)[0] == ser_nat(n as nat)[0]);
                assert(is_digit(ser_jsonv(v)[0]));
            } else {
                lemma_ser_nat_digits((-n) as nat);
                assert(ser_jsonv(v)[0] == '-');
            }
        }
        _ => {}
    }
}

/// Parsing a serialized value followed by anything at a number boundary
/// gives back the value and the trailing text.
pub proof fn lemma_rt_value_v(v: JsonV, rest: Seq<char>)
    requires
        wf_jsonv(v),
        v is Int ==> num_boundary(rest),
    ensures
        p_value(ser_jsonv(v) + rest) == Some((v, rest)),
    decreases v, 0int,
{
    let s = ser_jsonv(v) + rest;
    lemma_ser_first_v(v);
    assert(s[0] == ser_jsonv(v)[0]);
    lemma_skip_ws_nop(s);
    match v {
        JsonV::Null => {
            assert(s[0] == 'n' && s[1] == 'u' && s[2] == 'l' && s[3] == 'l');
            assert(s.skip(4) =~= rest);
        }
        JsonV::Bool(b) => {
            if b {
                assert(s[0] == 't' && s[1] == 'r' && s[2] == 'u' && s[3] == 'e');
                assert(s.skip(4) =~= rest);
            } else {
                assert(s[0] == 'f' && s[1] == 'a' && s[2] == 'l' && s[3] == 's' && s[4] == 'e');
                assert(s.skip(5) =~= rest);
            }
        }
        JsonV::Int(n) => {
            lemma_rt_number(n, rest);
            if n >= 0 {
                lemma_ser_nat_digits(n as nat);
                assert(is_digit(s[0]));
            } else {
                assert(s[0] == '-');
            }
        }
        JsonV::Str(sv) => {
            assert(s[0] == '"');
            assert(s.drop_first() =~= escape_str(sv) + seq!['"'] + rest);
            lemma_rt_string(sv, rest);
        }
        JsonV::Arr(vs) => {
            assert(s[0] == '[');
            if vs.len() == 0 {
                assert(ser_elems_v(vs) =~= Seq::<char>::empty());
                assert(s.drop_first() =~= seq![']'] + rest);
                lemma_skip_ws_nop(s.drop_first());
                assert(skip_ws(s.drop_first())[0] == ']');
                assert(skip_ws(s.drop_first()).drop_first() =~= rest);
                assert(vs =~= Seq::<JsonV>::empty());
            } else {
                let inner = ser_elems_v(vs) + seq![']'] + rest;
                assert(s.drop_first() =~= inner);
                lemma_ser_first_v(vs[0]);
                if vs.len() == 1 {
                    assert(ser_elems_v(vs) == ser_jsonv(vs[0]));
                } else {
                    assert(ser_elems_v(vs) == ser_jsonv(vs[0]) + seq![','] + ser_elems_v(
                        vs.drop_first(),
                    ));
                }
                assert(inner[0] == ser_jsonv(vs[0])[0]);
                assert(!is_ws(inner[0]) && inner[0] != ']');
                lemma_skip_ws_nop(inner);
                lemma_rt_elems_v(vs, rest);
            }
        }
        JsonV::Obj(ms) => {
            assert(s[0] == '{');
            if ms.len() == 0 {
                assert(ser_members_v(ms) =~= Seq::<char>::empty());
                assert(s.drop_first() =~= seq!['}'] + rest);
                lemma_skip_ws_nop(s.drop_first());
                assert(skip_ws(s.drop_first())[0] == '}');
                assert(skip_ws(s.drop_first()).drop_first() =~= rest);
                assert(ms =~= Seq::<(Seq<char>, JsonV)>::empty());
            } else {
                let inner = ser_members_v(ms) + seq!['}'] + rest;
                assert(s.drop_first() =~= inner);
                if ms.len() == 1 {
                    assert(ser_members_v(ms) == seq!['"'] + escape_str(ms[0].0) + seq!['"', ':']
                        + ser_jsonv(ms[0].1));
                } else {
                    assert(ser_members_v(ms) == seq!['"'] + escape_str(ms[0].0) + seq!['"', ':']
                        + ser_jsonv(ms[0].1) + seq![','] + ser_members_v(ms.drop_first()));
                }
                assert(inner[0] == '"');
                assert(!is_ws(inner[0]) && inner[0] != '}');
                lemma_skip_ws_nop(inner);
                lemma_rt_members_v(ms, rest);
            }
        }
    }
}

/// Parsing serialized elements followed by the closing bracket gives back
/// the elements.
proof fn lemma_rt_elems_v(vs: Seq<JsonV>, rest: Seq<char>)
    requires
        vs.len() > 0,
        wf_elems_v(vs),
    ensures
        p_elems(ser_elems_v(vs) + seq![']'] + rest) == Some((vs, rest)),
    decreases vs, 1int,
{
    let s = ser_elems_v(vs) + seq![']'] + rest;
    if vs.len() == 1 {
        let tail = seq![']'] + rest;
        assert(s =~= ser_jsonv(vs[0]) + tail);
        lemma_rt_value_v(vs[0], tail);
        lemma_skip_ws_nop(tail);
        assert(tail[0] == ']');
        assert(tail.drop_first() =~= rest);
        assert(seq![vs[0]] =~= vs);
    } else {
        let tail = seq![','] + ser_elems_v(vs.drop_first()) + seq![']'] + rest;
        assert(s =~= ser_jsonv(vs[0]) + tail);
        lemma_rt_value_v(vs[0], tail);
        lemma_skip_ws_nop(tail);
        assert(tail[0] == ',');
        assert(tail.drop_first() =~= ser_elems_v(vs.drop_first()) + seq![']'] + rest);
        lemma_rt_elems_v(vs.drop_first(), rest);
        assert(seq![vs[0]] + vs.drop_first() =~= vs);
    }
}

/// Parsing serialized members followed by the closing brace gives back the
/// members.
#[verifier::rlimit(50)]
proof fn lemma_rt_members_v(ms: Seq<(Seq<char>, JsonV)>, rest: Seq<char>)
    requires
        ms.len() > 0,
        wf_members_v(ms),
    ensures
        p_members(ser_members_v(ms) + seq!['}'] + rest) == Some((ms, rest)),
    decreases ms, 1int,
{
    let s = ser_members_v(ms) + seq!['}'] + rest;
    let k = ms[0].0;
    let v = ms[0].1;
    if ms.len() == 1 {
        let vtail = seq!['}'] + rest;
        let rtail = seq![':'] + ser_jsonv(v) + vtail;
        assert(ser_members_v(ms) == seq!['"'] + escape_str(k) + seq!['"', ':'] + ser_jsonv(v));
        assert(s =~= seq!['"'] + (escape_str(k) + seq!['"'] + rtail));
        assert(s[0] == '"');
        lemma_skip_ws_nop(s);
        assert(s.drop_first() =~= escape_str(k) + seq!['"'] + rtail);
        lemma_rt_string(k, rtail);
        lemma_skip_ws_nop(rtail);
        assert(rtail[0] == ':');
        assert(rtail.drop_first() =~= ser_jsonv(v) + vtail);
        lemma_rt_value_v(v, vtail);
        lemma_skip_ws_nop(vtail);
        assert(vtail[0] == '}');
        assert(vtail.drop_first() =~= rest);
        assert(seq![(k, v)] =~= ms);
    } else {
        let vtail = seq![','] + ser_members_v(ms.drop_first()) + seq!['}'] + rest;
        let rtail = seq![':'] + ser_jsonv(v) + vtail;
        assert(ser_members_v(ms) == seq!['"'] + escape_str(k) + seq!['"', ':'] + ser_jsonv(v)
            + seq![','] + ser_members_v(ms.drop_first()));
        assert(s =~= seq!['"'] + (escape_str(k) + seq!['"'] + rtail));
        assert(s[0] == '"');
        lemma_skip_ws_nop(s);
        assert(s.drop_first() =~= escape_str(k) + seq!['"'] + rtail);
        lemma_rt_string(k, rtail);
        lemma_skip_ws_nop(rtail);
        assert(rtail[0] == ':');
        assert(rtail.drop_first() =~= ser_jsonv(v) + vtail);
        lemma_rt_value_v(v, vtail);
        lemma_skip_ws_nop(vtail);
        assert(vtail[0] == ',');
        assert(vtail.drop_first() =~= ser_members_v(ms.drop_first()) + seq!['}'] + rest);
        lemma_rt_members_v(ms.drop_first(), rest);
        assert(seq![(k, v)] + ms.drop_first() =~= ms);
    }
}

/// Round trip at the level of denotations: parsing the canonical
/// serialization of any well-formed denotation yields it back.
pub proof fn lemma_parse_serialized_v(v: JsonV)
    requires
        wf_jsonv(v),
    ensures
        p_document(ser_jsonv(v)) == Some(v),
{
    lemma_rt_value_v(v, Seq::<char>::empty());
    assert(ser_jsonv(v) + Seq::<char>::empty() =~= ser_jsonv(v));
    assert(skip_ws(Seq::<char>::empty()) =~= Seq::<char>::empty());
}

/// Round trip: parsing the canonical serialization of any value yields that
/// value's denotation back.
pub proof fn lemma_parse_serialized(j: Json)
    ensures
        p_document(ser_json(j)) == Some(json_view(j)),
{
    lemma_view_wf(j);
    lemma_ser_json_view(j);
    lemma_parse_serialized_v(json_view(j));
}

// ---------------------------------------------------------------------------
// Serialization of denotations, and the bridge to `ser_json`.
// ---------------------------------------------------------------------------

/// The canonical serialization of a denotation.
pub open spec fn ser_jsonv(v: JsonV) -> Seq<char>
    decreases v, 0int,
{
    match v {
        JsonV::Null => seq!['n', 'u', 'l', 'l'],
        JsonV::Bool(b) => if b { seq!['t', 'r', 'u', 'e'] } else { seq!['f', 'a', 'l', 's', 'e'] },
        JsonV::Int(n) => ser_int(n),
        JsonV::Str(s) => seq!['"'] + escape_str(s) + seq!['"'],
        JsonV::Arr(vs) => seq!['['] + ser_elems_v(vs) + seq![']'],
        JsonV::Obj(ms) => seq!['{'] + ser_members_v(ms) + seq!['}'],
    }
}

/// The serialization of denoted array elements.
pub open spec fn ser_elems_v(vs: Seq<JsonV>) -> Seq<char>
    decreases vs, 0int,
{
    if vs.len() == 0 { Seq::empty() }
    else if vs.len() == 1 { ser_jsonv(vs[0]) }
    else { ser_jsonv(vs[0]) + seq![','] + ser_elems_v(vs.drop_first()) }
}

/// The serialization of denoted object members.
pub open spec fn ser_members_v(ms: Seq<(Seq<char>, JsonV)>) -> Seq<char>
    decreases ms, 0int,
{
    if ms.len() == 0 { Seq::empty() }
    else if ms.len() == 1 { seq!['"'] + escape_str(ms[0].0) + seq!['"', ':'] + ser_jsonv(ms[0].1) }
    else {
        seq!['"'] + escape_str(ms[0].0) + seq!['"', ':'] + ser_jsonv(ms[0].1) + seq![',']
            + ser_members_v(ms.drop_first())
    }
}

/// A value and its denotation serialize identically.
pub proof fn lemma_ser_json_view(j: Json)
    ensures
        ser_json(j) == ser_jsonv(json_view(j)),
    decreases j, 0int,
{
    match j {
        Json::Arr(v) => {
            lemma_ser_elems_view(v@);
        }
        Json::Obj(m) => {
            lemma_ser_members_view(m@);
        }
        _ => {}
    }
}

/// Elements and their denotations serialize identically.
proof fn lemma_ser_elems_view(v: Seq<Json>)
    ensures
        ser_elems(v) == ser_elems_v(views_of(v)),
    decreases v, 1int,
{
    lemma_views_of_len(v);
    if v.len() == 0 {
    } else if v.len() == 1 {
        lemma_views_of_index(v, 0);
        lemma_ser_json_view(v[0]);
    } else {
        lemma_views_of_index(v, 0);
        lemma_ser_json_view(v[0]);
        lemma_ser_elems_view(v.drop_first());
        assert(views_of(v).drop_first() =~= views_of(v.drop_first())) by {
            lemma_views_of_len(v.drop_first());
            assert forall|i: int| 0 <= i < views_of(v).drop_first().len() implies views_of(
                v,
            ).drop_first()[i] == views_of(v.drop_first())[i] by {
                lemma_views_of_index(v, i + 1);
                lemma_views_of_index(v.drop_first(), i);
            }
        }
    }
}

/// Members and their denotations serialize identically.
proof fn lemma_ser_members_view(m: Seq<(String, Json)>)
    ensures
        ser_members(m) == ser_members_v(member_views_of(m)),
    decreases m, 1int,
{
    lemma_member_views_of_len(m);
    if m.len() == 0 {
    } else if m.len() == 1 {
        lemma_member_views_of_index(m, 0);
        lemma_ser_json_view(m[0].1);
        assert(ser_members(m) == ser_member(m[0].0@, m[0].1));
        assert(ser_member(m[0].0@, m[0].1) == seq!['"'] + escape_str(m[0].0@) + seq!['"', ':']
            + ser_json(m[0].1));
        assert(member_views_of(m)[0].0 == m[0].0@);
        assert(member_views_of(m)[0].1 == json_view(m[0].1));
        assert(ser_members_v(member_views_of(m)) == seq!['"'] + escape_str(member_views_of(m)[0].0)
            + seq!['"', ':'] + ser_jsonv(member_views_of(m)[0].1));
        assert(ser_members(m) =~= ser_members_v(member_views_of(m)));
    } else {
        lemma_member_views_of_index(m, 0);
        lemma_ser_json_view(m[0].1);
        lemma_ser_members_view(m.drop_first());
        assert(member_views_of(m).drop_first() =~= member_views_of(m.drop_first())) by {
            lemma_member_views_of_len(m.drop_first());
            assert forall|i: int| 0 <= i < member_views_of(m).drop_first().len() implies member_views_of(
                m,
            ).drop_first()[i] == member_views_of(m.drop_first())[i] by {
                lemma_member_views_of_index(m, i + 1);
                lemma_member_views_of_index(m.drop_first(), i);
            }
        }
        assert(ser_members(m) == ser_member(m[0].0@, m[0].1) + seq![','] + ser_members(
            m.drop_first(),
        ));
        assert(ser_member(m[0].0@, m[0].1) == seq!['"'] + escape_str(m[0].0@) + seq!['"', ':']
            + ser_json(m[0].1));
        assert(member_views_of(m)[0].0 == m[0].0@);
        assert(member_views_of(m)[0].1 == json_view(m[0].1));
        assert(member_views_of(m).len() == m.len());
        assert(ser_members_v(member_views_of(m)) == seq!['"'] + escape_str(member_views_of(m)[0].0)
            + seq!['"', ':'] + ser_jsonv(member_views_of(m)[0].1) + seq![','] + ser_members_v(
            member_views_of(m).drop_first(),
        ));
        assert(ser_members(m) =~= ser_members_v(member_views_of(m)));
    }
}

// ---------------------------------------------------------------------------
// Deep copy.
// ---------------------------------------------------------------------------

impl Json {
    /// A structural copy of the value.
    #[verifier::loop_isolation(false)]
    pub fn duplicate(&self) -> (r: Json)
        ensures
            json_view(r) == json_view(*self),
        decreases *self,
    {
        match self {
            Json::Null => Json::Null,
            Json::Bool(b) => Json::Bool(*b),
            Json::Int(n) => Json::Int(*n),
            Json::Str(s) => Json::Str(s.clone()),
            Json::Arr(v) => {
                let mut out: Vec<Json> = Vec::new();
                let n = v.len();
                let mut i: usize = 0;
                while i < n
                    invariant
                        n == v.len(),
                        i <= n,
                        out@.len() == i as int,
                        forall|k: int| 0 <= k < i ==> json_view(#[trigger] out@[k]) == json_view(v@[k]),
                    decreases n - i,
                {
                    proof {
                        assert(decreases_to!(*self => v@[i as int]));
                    }
                    let e = v[i].duplicate();
                    out.push(e);
                    i = i + 1;
                }
                proof {
                    lemma_views_of_pointwise(out@, v@);
                }
                Json::Arr(out)
            }
            Json::Obj(m) => {
                let mut out: Vec<(String, Json)> = Vec::new();
                let n = m.len();
                let mut i: usize = 0;
                while i < n
                    invariant
                        n == m.len(),
                        i <= n,
                        out@.len() == i as int,
                        forall|k: int| 0 <= k < i ==> (#[trigger] out@[k]).0@ == m@[k].0@
                            && json_view(out@[k].1) == json_view(m@[k].1),
                    decreases n - i,
                {
                    proof {
                        assert(decreases_to!(*self => m@[i as int]));
                        assert(decreases_to!(m@[i as int] => m@[i as int].1));
                    }
                    let kv = &m[i];
                    let e = kv.1.duplicate();
                    out.push((kv.0.clone(), e));
                    i = i + 1;
                }
                proof {
                    lemma_member_views_of_pointwise(out@, m@);
                }
                Json::Obj(out)
            }
        }
    }
}

/// Sequences whose elements denote the same values have the same denotation.
proof fn lemma_views_of_pointwise(a: Seq<Json>, b: Seq<Json>)
    requires
        a.len() == b.len(),
        forall|k: int| 0 <= k < a.len() ==> json_view(#[trigger] a[k]) == json_view(b[k]),
    ensures
        views_of(a) == views_of(b),
    decreases a.len(),
{
    if a.len() > 0 {
        lemma_views_of_pointwise(a.drop_first(), b.drop_first());
        assert(views_of(a) =~= views_of(b));
    } else {
        assert(views_of(a) =~= views_of(b));
    }
}

/// Member sequences with the same keys and denotations denote the same.
proof fn lemma_member_views_of_pointwise(a: Seq<(String, Json)>, b: Seq<(String, Json)>)
    requires
        a.len() == b.len(),
        forall|k: int| 0 <= k < a.len() ==> (#[trigger] a[k]).0@ == b[k].0@ && json_view(a[k].1)
            == json_view(b[k].1),
    ensures
        member_views_of(a) == member_views_of(b),
    decreases a.len(),
{
    if a.len() > 0 {
        lemma_member_views_of_pointwise(a.drop_first(), b.drop_first());
        assert(member_views_of(a) =~= member_views_of(b));
    } else {
        assert(member_views_of(a) =~= member_views_of(b));
    }
}

} // verus!

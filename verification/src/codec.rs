//! The wire frames of the collaboration channel.
//!
//! Client to server: a JSON object `{content: string, is_from_customer:
//! bool}` — both fields required, each at most once, unknown fields
//! ignored, nothing accepted from the client beyond them. Server to
//! client: a JSON object carrying the canonical message, identifiers in
//! hyphenated hexadecimal form and strings escaped the standard way.

use vstd::prelude::*;
use vstd::string::*;
use vstd::utf8::{encode_scalar, encode_utf8, is_leading_byte_width_1, partial_valid_utf8, valid_utf8};

use crate::jsontext::{
    false_lit, four_hex_at, hex4_at, hex_val, is_hex_digit, lit_at, simple_escape, str_body,
    str_body_exec, true_lit, vskip, vskip_exec, ws_end, ws_end_exec,
};
use crate::message::{ChatMessage, ClientFrame};

verus! {

/// `v` spells the `content` field name.
pub open spec fn spells_content(v: Seq<u8>) -> bool {
    v.len() == 7 && v[0] == 0x63 && v[1] == 0x6F && v[2] == 0x6E && v[3] == 0x74 && v[4] == 0x65
        && v[5] == 0x6E && v[6] == 0x74
}

/// `v` spells the `is_from_customer` field name.
pub open spec fn spells_customer(v: Seq<u8>) -> bool {
    v.len() == 16 && v[0] == 0x69 && v[1] == 0x73 && v[2] == 0x5F && v[3] == 0x66 && v[4] == 0x72
        && v[5] == 0x6F && v[6] == 0x6D && v[7] == 0x5F && v[8] == 0x63 && v[9] == 0x75 && v[10]
        == 0x73 && v[11] == 0x74 && v[12] == 0x6F && v[13] == 0x6D && v[14] == 0x65 && v[15]
        == 0x72
}

/// Where a member list stands: right after `{`, right after a member, or
/// right after a comma.
#[derive(Clone, Copy)]
pub enum MemberPhase {
    AtOpen,
    AfterMember,
    AfterComma,
}

/// The view of an optional byte buffer.
pub open spec fn opt_bytes(o: Option<Vec<u8>>) -> Option<Seq<u8>> {
    match o {
        Some(v) => Some(v@),
        None => None,
    }
}

/// One member whose key opens at `j` (`s[j]` is the quote): the content
/// and flag as they stand after the member, and the position just after
/// its value. A duplicate field, a field of the wrong type, or broken
/// text gives `None`.
pub open spec fn frame_member(
    s: Seq<u8>,
    j: int,
    fuel: nat,
    c: Option<Seq<u8>>,
    f: Option<bool>,
) -> Option<(Option<Seq<u8>>, Option<bool>, int)> {
    match str_body(s, j + 1) {
        Some(kp) => {
            let col = ws_end(s, kp.1);
            if !(0 <= col < s.len() && s[col] == 0x3A) {  // ':'
                None
            } else {
                let v = ws_end(s, col + 1);
                if spells_content(kp.0) {
                    if c is Some {
                        None  // duplicate field
                    } else if 0 <= v < s.len() && s[v] == 0x22 {
                        match str_body(s, v + 1) {
                            Some(cp) => Some((Some(cp.0), f, cp.1)),
                            None => None,
                        }
                    } else {
                        None  // content must be a string
                    }
                } else if spells_customer(kp.0) {
                    if f is Some {
                        None  // duplicate field
                    } else if lit_at(s, v, true_lit()) {
                        Some((c, Some(true), v + 4))
                    } else if lit_at(s, v, false_lit()) {
                        Some((c, Some(false), v + 5))
                    } else {
                        None  // the flag must be a boolean literal
                    }
                } else {
                    // unknown field: its value is checked and skipped
                    match vskip(s, v, fuel) {
                        Some(e) => Some((c, f, e)),
                        None => None,
                    }
                }
            }
        },
        None => None,
    }
}

/// The member list of a client frame, read from position `i` (just after
/// `{`, a member, or a comma as `phase` says): the content bytes, the
/// customer flag, and the position just after the closing `}`. `None`
/// when the object breaks the grammar, a field appears twice, a field has
/// the wrong type, or a required field is missing at the closing brace.
pub open spec fn frame_fields(
    s: Seq<u8>,
    i: int,
    fuel: nat,
    c: Option<Seq<u8>>,
    f: Option<bool>,
    phase: MemberPhase,
) -> Option<(Seq<u8>, bool, int)>
    decreases fuel,
{
    if fuel == 0 {
        None
    } else {
        let j = ws_end(s, i);
        if !(0 <= j < s.len()) {
            None
        } else if s[j] == 0x7D && !(phase is AfterComma) {  // '}'
            if c is Some && f is Some {
                Some((c->0, f->0, j + 1))
            } else {
                None
            }
        } else if s[j] == 0x2C && phase is AfterMember {  // ','
            frame_fields(s, j + 1, (fuel - 1) as nat, c, f, MemberPhase::AfterComma)
        } else if s[j] == 0x22 && !(phase is AfterMember) {  // a member's key
            match frame_member(s, j, (fuel - 1) as nat, c, f) {
                Some(t) => frame_fields(s, t.2, (fuel - 1) as nat, t.0, t.1, MemberPhase::AfterMember),
                None => None,
            }
        } else {
            None
        }
    }
}

/// The fuel that bounds the nesting the frame grammar follows; input
/// nested more deeply than this is refused.
pub open spec fn frame_fuel(s: Seq<u8>) -> nat {
    4 * s.len() + 16
}

/// What the bytes of a client frame denote: the content (as UTF-8 bytes,
/// escapes resolved) and the customer flag. `None` when the bytes are not
/// one JSON object of the frame grammar with nothing but whitespace
/// around it.
pub open spec fn parse_frame(s: Seq<u8>) -> Option<(Seq<u8>, bool)> {
    let i = ws_end(s, 0);
    if 0 <= i < s.len() && s[i] == 0x7B {
        match frame_fields(s, i + 1, frame_fuel(s), None, None, MemberPhase::AtOpen) {
            Some(t) => if ws_end(s, t.2) == s.len() {
                Some((t.0, t.1))
            } else {
                None
            },
            None => None,
        }
    } else {
        None
    }
}

/// A client frame is accepted when its bytes follow the frame grammar and
/// the content they denote is valid UTF-8.
pub open spec fn accepted_frame(s: Seq<u8>) -> bool {
    match parse_frame(s) {
        Some(p) => valid_utf8(p.0),
        None => false,
    }
}

/// Relies on `String::from_utf8`: it returns the string of exactly the
/// given bytes, and errs exactly on bytes that are not valid UTF-8.
#[verifier::external_body]
pub(crate) fn string_from_utf8(v: Vec<u8>) -> (r: Option<String>)
    ensures
        r is Some <==> valid_utf8(v@),
        r matches Some(s) ==> encode_utf8(s@) == v@,
{
    String::from_utf8(v).ok()
}

/// Whether `v` spells the `content` field name.
fn is_content_key(v: &Vec<u8>) -> (r: bool)
    ensures
        r == spells_content(v@),
{
    v.len() == 7 && v[0] == 0x63 && v[1] == 0x6F && v[2] == 0x6E && v[3] == 0x74 && v[4] == 0x65
        && v[5] == 0x6E && v[6] == 0x74
}

/// Whether `v` spells the `is_from_customer` field name.
fn is_customer_key(v: &Vec<u8>) -> (r: bool)
    ensures
        r == spells_customer(v@),
{
    v.len() == 16 && v[0] == 0x69 && v[1] == 0x73 && v[2] == 0x5F && v[3] == 0x66 && v[4] == 0x72
        && v[5] == 0x6F && v[6] == 0x6D && v[7] == 0x5F && v[8] == 0x63 && v[9] == 0x75 && v[10]
        == 0x73 && v[11] == 0x74 && v[12] == 0x6F && v[13] == 0x6D && v[14] == 0x65 && v[15]
        == 0x72
}

/// Executable `true` check at `i`.
fn lit_true_at(s: &Vec<u8>, i: usize) -> (r: bool)
    requires
        i <= s@.len(),
    ensures
        r == lit_at(s@, i as int, true_lit()),
{
    if s.len() - i >= 4 && s[i] == 0x74 && s[i + 1] == 0x72 && s[i + 2] == 0x75 && s[i + 3]
        == 0x65 {
        proof {
            assert forall|k: int| 0 <= k < 4 implies s@[i as int + k] == true_lit()[k] by {
                if k == 0 {
                } else if k == 1 {
                } else if k == 2 {
                } else {
                    assert(k == 3);
                }
            }
        }
        true
    } else {
        proof {
            if lit_at(s@, i as int, true_lit()) {
                assert(s@[i as int + 0] == 0x74);
                assert(s@[i as int + 1] == 0x72);
                assert(s@[i as int + 2] == 0x75);
                assert(s@[i as int + 3] == 0x65);
            }
        }
        false
    }
}

/// Executable `false` check at `i`.
fn lit_false_at(s: &Vec<u8>, i: usize) -> (r: bool)
    requires
        i <= s@.len(),
    ensures
        r == lit_at(s@, i as int, false_lit()),
{
    if s.len() - i >= 5 && s[i] == 0x66 && s[i + 1] == 0x61 && s[i + 2] == 0x6C && s[i + 3]
        == 0x73 && s[i + 4] == 0x65 {
        proof {
            assert forall|k: int| 0 <= k < 5 implies s@[i as int + k] == false_lit()[k] by {
                if k == 0 {
                } else if k == 1 {
                } else if k == 2 {
                } else if k == 3 {
                } else {
                    assert(k == 4);
                }
            }
        }
        true
    } else {
        proof {
            if lit_at(s@, i as int, false_lit()) {
                assert(s@[i as int + 0] == 0x66);
                assert(s@[i as int + 1] == 0x61);
                assert(s@[i as int + 2] == 0x6C);
                assert(s@[i as int + 3] == 0x73);
                assert(s@[i as int + 4] == 0x65);
            }
        }
        false
    }
}

/// Executable `frame_member`.
#[verifier::rlimit(100)]
#[verifier::spinoff_prover]
fn frame_member_exec(
    s: &Vec<u8>,
    j: usize,
    fuel: u128,
    c: Option<Vec<u8>>,
    f: Option<bool>,
) -> (r: Option<(Option<Vec<u8>>, Option<bool>, usize)>)
    requires
        j < s@.len(),
    ensures
        match r {
            Some(t) => frame_member(s@, j as int, fuel as nat, opt_bytes(c), f) == Some(
                (opt_bytes(t.0), t.1, t.2 as int),
            ) && t.2 <= s@.len(),
            None => frame_member(s@, j as int, fuel as nat, opt_bytes(c), f) is None,
        },
{
    let n = s.len();
    let kp = match str_body_exec(s, j + 1) {
        Some(kp) => kp,
        None => {
            return None;
        },
    };
    let col = ws_end_exec(s, kp.1);
    if !(col < n && s[col] == 0x3A) {
        return None;
    }
    let v = ws_end_exec(s, col + 1);
    if is_content_key(&kp.0) {
        if c.is_some() {
            return None;
        }
        if v < n && s[v] == 0x22 {
            match str_body_exec(s, v + 1) {
                Some(cp) => Some((Some(cp.0), f, cp.1)),
                None => None,
            }
        } else {
            None
        }
    } else if is_customer_key(&kp.0) {
        if f.is_some() {
            return None;
        }
        if lit_true_at(s, v) {
            Some((c, Some(true), v + 4))
        } else if lit_false_at(s, v) {
            Some((c, Some(false), v + 5))
        } else {
            None
        }
    } else {
        match vskip_exec(s, v, fuel) {
            Some(e) => Some((c, f, e)),
            None => None,
        }
    }
}

/// Executable `frame_fields`.
#[verifier::spinoff_prover]
fn frame_fields_exec(
    s: &Vec<u8>,
    i: usize,
    fuel: u128,
    c: Option<Vec<u8>>,
    f: Option<bool>,
    phase: MemberPhase,
) -> (r: Option<(Vec<u8>, bool, usize)>)
    requires
        i <= s@.len(),
    ensures
        match r {
            Some(t) => frame_fields(s@, i as int, fuel as nat, opt_bytes(c), f, phase) == Some(
                (t.0@, t.1, t.2 as int),
            ) && t.2 <= s@.len(),
            None => frame_fields(s@, i as int, fuel as nat, opt_bytes(c), f, phase) is None,
        },
    decreases fuel,
{
    if fuel == 0 {
        return None;
    }
    let j = ws_end_exec(s, i);
    if j >= s.len() {
        return None;
    }
    let at_after_comma = matches!(phase, MemberPhase::AfterComma);
    let at_after_member = matches!(phase, MemberPhase::AfterMember);
    if s[j] == 0x7D && !at_after_comma {
        return match (c, f) {
            (Some(cv), Some(fv)) => Some((cv, fv, j + 1)),
            _ => None,
        };
    }
    if s[j] == 0x2C && at_after_member {
        return frame_fields_exec(s, j + 1, fuel - 1, c, f, MemberPhase::AfterComma);
    }
    if s[j] == 0x22 && !at_after_member {
        match frame_member_exec(s, j, fuel - 1, c, f) {
            Some(t) => frame_fields_exec(s, t.2, fuel - 1, t.0, t.1, MemberPhase::AfterMember),
            None => None,
        }
    } else {
        None
    }
}

/// Decode a client frame. `Some` exactly when the text follows the frame
/// grammar and its content denotes valid UTF-8; the frame then carries
/// that very content and flag.
pub fn parse_client_frame(text: &str) -> (r: Option<ClientFrame>)
    ensures
        match r {
            Some(fr) => {
                &&& accepted_frame(text.spec_bytes())
                &&& match parse_frame(text.spec_bytes()) {
                    Some(p) => encode_utf8(fr.content@) == p.0 && fr.is_from_customer == p.1,
                    None => false,
                }
            },
            None => !accepted_frame(text.spec_bytes()),
        },
{
    let bytes = text.as_bytes_vec();
    let i = ws_end_exec(&bytes, 0);
    if i >= bytes.len() || bytes[i] != 0x7B {
        return None;
    }
    let fuel: u128 = 4 * (bytes.len() as u128) + 16;
    match frame_fields_exec(&bytes, i + 1, fuel, None, None, MemberPhase::AtOpen) {
        Some(t) => {
            let end = ws_end_exec(&bytes, t.2);
            if end != bytes.len() {
                return None;
            }
            let ghost content_bytes = t.0@;
            match string_from_utf8(t.0) {
                Some(content) => Some(ClientFrame { content, is_from_customer: t.1 }),
                None => None,
            }
        },
        None => None,
    }
}

/// Every sequence of ASCII bytes is valid UTF-8.
pub proof fn lemma_ascii_bytes_valid_utf8(s: Seq<u8>)
    requires
        forall|k: int| 0 <= k < s.len() ==> s[k] <= 0x7F,
    ensures
        valid_utf8(s),
{
    assert(s.subrange(0, 0) =~= Seq::<u8>::empty());
    assert(partial_valid_utf8(s, 0));
    assert(forall|k: int| 0 <= k < s.len() ==> is_leading_byte_width_1(#[trigger] s[k]));
    partial_valid_utf8_extend_ascii_block_use(s);
    assert(s.subrange(0, s.len() as int) =~= s);
}

proof fn partial_valid_utf8_extend_ascii_block_use(s: Seq<u8>)
    requires
        forall|k: int| 0 <= k < s.len() ==> is_leading_byte_width_1(#[trigger] s[k]),
        partial_valid_utf8(s, 0),
    ensures
        partial_valid_utf8(s, s.len() as int),
{
    vstd::utf8::partial_valid_utf8_extend_ascii_block(s, 0, s.len() as int);
}

/// The hexadecimal digit of a value below 16, in small letters.
pub open spec fn hex_digit(d: int) -> u8 {
    if d < 10 {
        (0x30 + d) as u8
    } else {
        (0x57 + d) as u8
    }
}

/// The 32 hexadecimal digits of a 128-bit identifier, highest first.
pub open spec fn uuid_digits(n: u128) -> Seq<u8> {
    Seq::new(32, |k: int| hex_digit(((n >> ((124 - 4 * k) as u128)) & 0xF) as int))
}

/// How one byte of a string is written inside a JSON string: quote,
/// backslash and the named control characters get a two-character escape,
/// any other control byte a `\u00..` escape, and everything else stands
/// as itself.
pub open spec fn esc_byte(b: u8) -> Seq<u8> {
    if b == 0x22 {  // "
        seq![0x5Cu8, 0x22u8]
    } else if b == 0x5C {  // backslash
        seq![0x5Cu8, 0x5Cu8]
    } else if b == 0x08 {
        seq![0x5Cu8, 0x62u8]  // \b
    } else if b == 0x0C {
        seq![0x5Cu8, 0x66u8]  // \f
    } else if b == 0x0A {
        seq![0x5Cu8, 0x6Eu8]  // \n
    } else if b == 0x0D {
        seq![0x5Cu8, 0x72u8]  // \r
    } else if b == 0x09 {
        seq![0x5Cu8, 0x74u8]  // \t
    } else if b < 0x20 {
        seq![0x5Cu8, 0x75u8, 0x30u8, 0x30u8, hex_digit(b as int / 16), hex_digit(b as int % 16)]
    } else {
        seq![b]
    }
}

/// The bytes of `s` written inside a JSON string.
pub open spec fn escape_bytes(s: Seq<u8>) -> Seq<u8>
    decreases s.len(),
{
    if s.len() == 0 {
        Seq::empty()
    } else {
        esc_byte(s[0]) + escape_bytes(s.drop_first())
    }
}

/// The bytes of `s` written as a JSON string, quotes included.
pub open spec fn quoted(s: Seq<u8>) -> Seq<u8> {
    seq![0x22u8] + escape_bytes(s) + seq![0x22u8]
}

/// Escaping one byte more extends the escaped text by that byte's escape.
proof fn lemma_escape_snoc(s: Seq<u8>, c: u8)
    ensures
        escape_bytes(s.push(c)) == escape_bytes(s) + esc_byte(c),
    decreases s.len(),
{
    if s.len() == 0 {
        assert(s.push(c).drop_first() =~= Seq::<u8>::empty());
        assert(s.push(c)[0] == c);
        assert(escape_bytes(Seq::<u8>::empty()) =~= Seq::<u8>::empty());
        assert(escape_bytes(s.push(c)) == esc_byte(c) + escape_bytes(Seq::<u8>::empty()));
        assert(escape_bytes(s.push(c)) =~= esc_byte(c));
        assert(escape_bytes(s) + esc_byte(c) =~= esc_byte(c));
    } else {
        lemma_escape_snoc(s.drop_first(), c);
        assert(s.push(c).drop_first() =~= s.drop_first().push(c));
        assert(s.push(c)[0] == s[0]);
        assert(escape_bytes(s.push(c)) == esc_byte(s[0]) + escape_bytes(s.drop_first().push(c)));
        assert(esc_byte(s[0]) + (escape_bytes(s.drop_first()) + esc_byte(c)) =~= (esc_byte(s[0])
            + escape_bytes(s.drop_first())) + esc_byte(c));
    }
}

/// Append the escape of one byte.
fn push_escaped_byte(out: &mut Vec<u8>, b: u8)
    ensures
        final(out)@ == old(out)@ + esc_byte(b),
{
    let ghost pre = out@;
    if b == 0x22 {
        out.push(0x5C);
        out.push(0x22);
    } else if b == 0x5C {
        out.push(0x5C);
        out.push(0x5C);
    } else if b == 0x08 {
        out.push(0x5C);
        out.push(0x62);
    } else if b == 0x0C {
        out.push(0x5C);
        out.push(0x66);
    } else if b == 0x0A {
        out.push(0x5C);
        out.push(0x6E);
    } else if b == 0x0D {
        out.push(0x5C);
        out.push(0x72);
    } else if b == 0x09 {
        out.push(0x5C);
        out.push(0x74);
    } else if b < 0x20 {
        out.push(0x5C);
        out.push(0x75);
        out.push(0x30);
        out.push(0x30);
        let hi = b / 16;
        let lo = b % 16;
        out.push(if hi < 10 {
            0x30 + hi
        } else {
            0x57 + hi
        });
        out.push(if lo < 10 {
            0x30 + lo
        } else {
            0x57 + lo
        });
    } else {
        out.push(b);
    }
    proof {
        assert(out@ =~= pre + esc_byte(b));
    }
}

/// Append the bytes of `s` as they stand.
fn push_bytes(out: &mut Vec<u8>, s: &str)
    ensures
        final(out)@ == old(out)@ + s.spec_bytes(),
{
    let mut b = s.as_bytes_vec();
    out.append(&mut b);
}

/// Append the bytes of `s` written as a JSON string, quotes included.
fn push_quoted(out: &mut Vec<u8>, s: &str)
    ensures
        final(out)@ == old(out)@ + quoted(s.spec_bytes()),
{
    let ghost pre = out@;
    out.push(0x22);
    let b = s.as_bytes_vec();
    let n = b.len();
    let mut k: usize = 0;
    proof {
        assert(b@.take(0) =~= Seq::<u8>::empty());
        assert(escape_bytes(b@.take(0)) =~= Seq::<u8>::empty());
        assert(out@ =~= pre + seq![0x22u8] + escape_bytes(b@.take(0)));
    }
    while k < n
        invariant
            k <= n,
            n == b@.len(),
            out@ == pre + seq![0x22u8] + escape_bytes(b@.take(k as int)),
        decreases n - k,
    {
        push_escaped_byte(out, b[k]);
        proof {
            assert(b@.take(k as int).push(b@[k as int]) =~= b@.take(k as int + 1));
            lemma_escape_snoc(b@.take(k as int), b@[k as int]);
            assert((pre + seq![0x22u8] + escape_bytes(b@.take(k as int))) + esc_byte(b@[k as int])
                =~= pre + seq![0x22u8] + escape_bytes(b@.take(k as int + 1)));
        }
        k = k + 1;
    }
    out.push(0x22);
    proof {
        assert(b@.take(n as int) =~= b@);
        assert(out@ =~= pre + quoted(s.spec_bytes()));
    }
}

/// A small hexadecimal digit reads back as its value.
proof fn lemma_hex_digit_val(d: int)
    requires
        0 <= d < 16,
    ensures
        is_hex_digit(hex_digit(d)),
        hex_val(hex_digit(d)) == d,
{
}

/// Reading the escaped form of `c` from position `i` of `s` — with the
/// closing quote right after it — yields exactly `c`.
#[verifier::rlimit(100)]
#[verifier::spinoff_prover]
proof fn lemma_escaped_parses(s: Seq<u8>, i: int, c: Seq<u8>)
    requires
        0 <= i,
        i + escape_bytes(c).len() < s.len(),
        forall|k: int| 0 <= k < escape_bytes(c).len() ==> s[i + k] == escape_bytes(c)[k],
        s[i + escape_bytes(c).len()] == 0x22,
    ensures
        str_body(s, i) == Some((c, i + escape_bytes(c).len() + 1)),
    decreases c.len(),
{
    if c.len() == 0 {
        assert(escape_bytes(c).len() == 0);
        assert(s[i] == 0x22);
    } else {
        let b = c[0];
        let e = esc_byte(b);
        let rest = escape_bytes(c.drop_first());
        assert(escape_bytes(c) == e + rest);
        let el = e.len() as int;
        assert forall|k: int| 0 <= k < el implies s[i + k] == e[k] by {
            assert((e + rest)[k] == e[k]);
            assert(s[i + k] == escape_bytes(c)[k]);
        }
        assert forall|k: int| 0 <= k < rest.len() implies s[i + el + k] == rest[k] by {
            assert((e + rest)[el + k] == rest[k]);
            assert(s[i + (el + k)] == escape_bytes(c)[el + k]);
        }
        lemma_escaped_parses(s, i + el, c.drop_first());
        let end = i + escape_bytes(c).len() + 1;
        assert(i + el + rest.len() + 1 == end);
        if b == 0x22 || b == 0x5C || b == 0x08 || b == 0x0C || b == 0x0A || b == 0x0D || b
            == 0x09 {
            // a two-character escape: backslash, then the named character
            assert(el == 2);
            assert(s[i + 0] == e[0] && s[i + 1] == e[1]);
            assert(s[i] == 0x5C);
            assert(simple_escape(s[i + 1]) == Some(b));
            assert(str_body(s, i) == Some((seq![b] + c.drop_first(), end)));
            assert(seq![b] + c.drop_first() =~= c);
        } else if b < 0x20 {
            // the six-character escape of a control byte
            assert(el == 6);
            assert(s[i + 0] == e[0] && s[i + 1] == e[1] && s[i + 2] == e[2] && s[i + 3] == e[3]
                && s[i + 4] == e[4] && s[i + 5] == e[5]);
            assert(s[i] == 0x5C && s[i + 1] == 0x75);
            assert(s[i + 2] == 0x30 && s[i + 3] == 0x30);
            assert(s[i + 4] == hex_digit(b as int / 16) && s[i + 5] == hex_digit(b as int % 16));
            lemma_hex_digit_val(b as int / 16);
            lemma_hex_digit_val(b as int % 16);
            assert(is_hex_digit(0x30u8) && hex_val(0x30u8) == 0);
            assert(four_hex_at(s, i + 2));
            assert(hex4_at(s, i + 2) == (b as int / 16) * 0x10 + b as int % 16);
            assert(hex4_at(s, i + 2) == b as int);
            let u = b as u32;
            assert(u < 0x20 ==> (u & 0x7F) == u) by (bit_vector);
            assert(vstd::utf8::has_width_1_encoding(u));
            assert(encode_scalar(u) =~= seq![b]);
            assert(str_body(s, i) == Some((encode_scalar(u) + c.drop_first(), end)));
            assert(encode_scalar(u) + c.drop_first() =~= c);
        } else {
            // the byte stands as itself
            assert(el == 1);
            assert(s[i + 0] == e[0]);
            assert(s[i] == b);
            assert(str_body(s, i) == Some((seq![b] + c.drop_first(), end)));
            assert(seq![b] + c.drop_first() =~= c);
        }
    }
}

/// Round trip of the content encoding: the quoted, escaped form of any
/// content — as the server frame carries it — denotes exactly that
/// content to the frame reader, whatever follows the closing quote.
pub proof fn law_content_encoding_round_trip(c: Seq<u8>, suffix: Seq<u8>)
    ensures
        str_body(quoted(c) + suffix, 1) == Some((c, 2 + escape_bytes(c).len() as int)),
{
    let s = quoted(c) + suffix;
    assert forall|k: int| 0 <= k < escape_bytes(c).len() implies s[1 + k] == escape_bytes(c)[k] by {
        assert(quoted(c)[1 + k] == (seq![0x22u8] + escape_bytes(c) + seq![0x22u8])[1 + k]);
    }
    assert(s[1 + escape_bytes(c).len() as int] == 0x22);
    lemma_escaped_parses(s, 1, c);
}

/// The byte at position `p` of the hyphenated form: a hyphen at 8, 13, 18
/// and 23, the digits everywhere else.
pub open spec fn uuid_byte_at(n: u128, p: int) -> u8 {
    if p == 8 || p == 13 || p == 18 || p == 23 {
        0x2Du8
    } else {
        let k = if p < 8 {
            p
        } else if p < 13 {
            p - 1
        } else if p < 18 {
            p - 2
        } else if p < 23 {
            p - 3
        } else {
            p - 4
        };
        uuid_digits(n)[k]
    }
}

/// The hyphenated form of a 128-bit identifier: 8-4-4-4-12 digits.
pub open spec fn uuid_str_bytes(n: u128) -> Seq<u8> {
    Seq::new(36, |p: int| uuid_byte_at(n, p))
}

/// The `k`-th hexadecimal digit (highest first) of `n`.
fn uuid_digit_exec(n: u128, k: usize) -> (r: u8)
    requires
        k < 32,
    ensures
        r == uuid_digits(n)[k as int],
        r <= 0x7F,
{
    let shift: u128 = (124 - 4 * k) as u128;
    let nib: u128 = (n >> shift) & 0xF;
    proof {
        assert((n >> shift) & 0xF <= 0xF) by (bit_vector);
    }
    let d = nib as u8;
    if d < 10 {
        0x30 + d
    } else {
        0x57 + d
    }
}

/// Render a 128-bit identifier the way identifiers travel on the wire:
/// 32 hexadecimal digits in small letters, hyphenated 8-4-4-4-12.
pub fn uuid_hyphenated(n: u128) -> (r: Vec<u8>)
    ensures
        r@ == uuid_str_bytes(n),
        r@.len() == 36,
        forall|k: int| 0 <= k < r@.len() ==> #[trigger] r@[k] <= 0x7F,
{
    let mut out: Vec<u8> = Vec::new();
    let mut p: usize = 0;
    while p < 36
        invariant
            p <= 36,
            out@.len() == p,
            forall|j: int| 0 <= j < p ==> #[trigger] out@[j] == uuid_byte_at(n, j),
            forall|j: int| 0 <= j < p ==> #[trigger] out@[j] <= 0x7F,
        decreases 36 - p,
    {
        if p == 8 || p == 13 || p == 18 || p == 23 {
            out.push(0x2D);
        } else {
            let k = if p < 8 {
                p
            } else if p < 13 {
                p - 1
            } else if p < 18 {
                p - 2
            } else if p < 23 {
                p - 3
            } else {
                p - 4
            };
            let d = uuid_digit_exec(n, k);
            out.push(d);
        }
        p = p + 1;
    }
    proof {
        assert(out@ =~= uuid_str_bytes(n));
    }
    out
}

/// The hyphenated form of a 128-bit identifier as a string.
pub fn uuid_string(n: u128) -> (r: String)
    ensures
        encode_utf8(r@) == uuid_str_bytes(n),
{
    let v = uuid_hyphenated(n);
    proof {
        lemma_ascii_bytes_valid_utf8(v@);
    }
    match string_from_utf8(v) {
        Some(s) => s,
        None => {
            proof {
                assert(false);
            }
            String::new()
        },
    }
}

/// The server-to-client wire form of a canonical message: one JSON object
/// with the identifiers in hyphenated form, the content and timestamp as
/// JSON strings, and the customer flag as a boolean.
pub open spec fn render_frame(m: ChatMessage) -> Seq<u8> {
    ("{\"id\":\"").spec_bytes() + uuid_str_bytes(m.id.0) + ("\",\"ticket_id\":\"").spec_bytes()
        + uuid_str_bytes(m.ticket_id.0) + ("\",\"sender_id\":\"").spec_bytes() + uuid_str_bytes(
        m.sender_id.0,
    ) + ("\",\"content\":").spec_bytes() + quoted(encode_utf8(m.content@)) + (
    ",\"is_from_customer\":").spec_bytes() + (if m.is_from_customer {
        ("true").spec_bytes()
    } else {
        ("false").spec_bytes()
    }) + (",\"created_at\":").spec_bytes() + quoted(encode_utf8(m.created_at@)) + (
    "}").spec_bytes()
}

/// Encode a canonical message for its subscribers: exactly the wire form
/// `render_frame` describes, as UTF-8 bytes.
pub fn server_frame_json(m: &ChatMessage) -> (r: Vec<u8>)
    ensures
        r@ == render_frame(*m),
{
    let mut out: Vec<u8> = Vec::new();
    push_bytes(&mut out, "{\"id\":\"");
    let mut u1 = uuid_hyphenated(m.id.0);
    out.append(&mut u1);
    push_bytes(&mut out, "\",\"ticket_id\":\"");
    let mut u2 = uuid_hyphenated(m.ticket_id.0);
    out.append(&mut u2);
    push_bytes(&mut out, "\",\"sender_id\":\"");
    let mut u3 = uuid_hyphenated(m.sender_id.0);
    out.append(&mut u3);
    push_bytes(&mut out, "\",\"content\":");
    push_quoted(&mut out, m.content.as_str());
    push_bytes(&mut out, ",\"is_from_customer\":");
    if m.is_from_customer {
        push_bytes(&mut out, "true");
    } else {
        push_bytes(&mut out, "false");
    }
    push_bytes(&mut out, ",\"created_at\":");
    push_quoted(&mut out, m.created_at.as_str());
    push_bytes(&mut out, "}");
    proof {
        assert(out@ =~= render_frame(*m));
    }
    out
}

} // verus!

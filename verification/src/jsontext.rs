//! The JSON text the wire frames are written in, at the byte level.
//!
//! Everything here is defined over the UTF-8 bytes of the frame. The
//! grammar is standard JSON: strings with the usual escapes (including
//! surrogate pairs), numbers, literals, arrays and objects; a string may
//! not contain a raw control byte, a lone surrogate escape is refused, and
//! input nested beyond the fuel bound is refused. The specification
//! functions are the grammar; the executable functions return exactly
//! what they say.

use vstd::prelude::*;
use vstd::utf8::encode_scalar;

verus! {

/// JSON insignificant whitespace.
pub open spec fn is_json_ws(b: u8) -> bool {
    b == 0x20 || b == 0x09 || b == 0x0A || b == 0x0D
}

/// An ASCII decimal digit.
pub open spec fn is_digit(b: u8) -> bool {
    0x30 <= b <= 0x39
}

/// An ASCII hexadecimal digit.
pub open spec fn is_hex_digit(b: u8) -> bool {
    (0x30 <= b <= 0x39) || (0x41 <= b <= 0x46) || (0x61 <= b <= 0x66)
}

/// The value of a hexadecimal digit.
pub open spec fn hex_val(b: u8) -> int {
    if 0x30 <= b <= 0x39 {
        b - 0x30
    } else if 0x41 <= b <= 0x46 {
        b - 0x41 + 10
    } else {
        b - 0x61 + 10
    }
}

/// The first position at or after `i` that does not hold whitespace.
pub open spec fn ws_end(s: Seq<u8>, i: int) -> int
    decreases s.len() - i,
{
    if !(0 <= i < s.len()) {
        i
    } else if is_json_ws(s[i]) {
        ws_end(s, i + 1)
    } else {
        i
    }
}

/// The first position at or after `i` that does not hold a digit.
pub open spec fn digits_end(s: Seq<u8>, i: int) -> int
    decreases s.len() - i,
{
    if !(0 <= i < s.len()) {
        i
    } else if is_digit(s[i]) {
        digits_end(s, i + 1)
    } else {
        i
    }
}

/// The word `w` stands at position `i` of `s`.
pub open spec fn lit_at(s: Seq<u8>, i: int, w: Seq<u8>) -> bool {
    0 <= i && i + w.len() <= s.len() && forall|k: int| 0 <= k < w.len() ==> s[i + k] == w[k]
}

/// The byte a one-character escape stands for, if the character may
/// follow a backslash.
pub open spec fn simple_escape(e: u8) -> Option<u8> {
    if e == 0x22 {  // \"
        Some(0x22u8)
    } else if e == 0x5C {  // backslash, escaped by itself
        Some(0x5Cu8)
    } else if e == 0x2F {  // \/
        Some(0x2Fu8)
    } else if e == 0x62 {  // \b
        Some(0x08u8)
    } else if e == 0x66 {  // \f
        Some(0x0Cu8)
    } else if e == 0x6E {  // \n
        Some(0x0Au8)
    } else if e == 0x72 {  // \r
        Some(0x0Du8)
    } else if e == 0x74 {  // \t
        Some(0x09u8)
    } else {
        None
    }
}

/// Four hexadecimal digits stand at position `i`.
pub open spec fn four_hex_at(s: Seq<u8>, i: int) -> bool {
    0 <= i && i + 4 <= s.len() && is_hex_digit(s[i]) && is_hex_digit(s[i + 1]) && is_hex_digit(
        s[i + 2],
    ) && is_hex_digit(s[i + 3])
}

/// The value of the four hexadecimal digits at position `i`.
pub open spec fn hex4_at(s: Seq<u8>, i: int) -> int {
    hex_val(s[i]) * 0x1000 + hex_val(s[i + 1]) * 0x100 + hex_val(s[i + 2]) * 0x10 + hex_val(
        s[i + 3],
    )
}

/// The body of a JSON string, read from just after the opening quote:
/// the bytes it denotes (escapes resolved, a surrogate pair combined into
/// one scalar) and the position just after the closing quote. `None` on a
/// raw control byte, an unknown escape, a lone surrogate, or a missing
/// closing quote.
pub open spec fn str_body(s: Seq<u8>, i: int) -> Option<(Seq<u8>, int)>
    decreases s.len() - i,
{
    if !(0 <= i < s.len()) {
        None
    } else {
        let b = s[i];
        if b == 0x22 {  // closing quote
            Some((Seq::empty(), i + 1))
        } else if b == 0x5C {  // backslash
            if i + 2 > s.len() {
                None
            } else {
                let e = s[i + 1];
                if e == 0x75 {  // \u
                    if !four_hex_at(s, i + 2) {
                        None
                    } else {
                        let n = hex4_at(s, i + 2);
                        if 0xDC00 <= n <= 0xDFFF {
                            None  // a low surrogate cannot lead
                        } else if 0xD800 <= n <= 0xDBFF {
                            // high surrogate: its partner must follow at once
                            if i + 12 <= s.len() && s[i + 6] == 0x5C && s[i + 7] == 0x75
                                && four_hex_at(s, i + 8) {
                                let n2 = hex4_at(s, i + 8);
                                if 0xDC00 <= n2 <= 0xDFFF {
                                    let scalar = 0x10000 + (n - 0xD800) * 0x400 + (n2 - 0xDC00);
                                    match str_body(s, i + 12) {
                                        Some(p) => Some(
                                            (encode_scalar(scalar as u32) + p.0, p.1),
                                        ),
                                        None => None,
                                    }
                                } else {
                                    None
                                }
                            } else {
                                None
                            }
                        } else {
                            match str_body(s, i + 6) {
                                Some(p) => Some((encode_scalar(n as u32) + p.0, p.1)),
                                None => None,
                            }
                        }
                    }
                } else {
                    match simple_escape(e) {
                        Some(c) => match str_body(s, i + 2) {
                            Some(p) => Some((seq![c] + p.0, p.1)),
                            None => None,
                        },
                        None => None,
                    }
                }
            }
        } else if b < 0x20 {  // raw control byte
            None
        } else {
            match str_body(s, i + 1) {
                Some(p) => Some((seq![b] + p.0, p.1)),
                None => None,
            }
        }
    }
}

/// The position just after the JSON number starting at `i`, or `None`
/// when no number of the JSON grammar starts there.
pub open spec fn number_end(s: Seq<u8>, i: int) -> Option<int> {
    let j = if 0 <= i < s.len() && s[i] == 0x2D {
        i + 1
    } else {
        i
    };
    if !(0 <= j < s.len() && is_digit(s[j])) {
        None
    } else {
        let k = if s[j] == 0x30 {
            j + 1
        } else {
            digits_end(s, j)
        };
        let k2 = if k < s.len() && s[k] == 0x2E {  // '.'
            if k + 1 < s.len() && is_digit(s[k + 1]) {
                digits_end(s, k + 1)
            } else {
                -1
            }
        } else {
            k
        };
        if k2 < 0 {
            None
        } else {
            let k3 = if k2 < s.len() && (s[k2] == 0x65 || s[k2] == 0x45) {  // 'e' | 'E'
                let e0 = if k2 + 1 < s.len() && (s[k2 + 1] == 0x2B || s[k2 + 1] == 0x2D) {
                    k2 + 2
                } else {
                    k2 + 1
                };
                if e0 < s.len() && is_digit(s[e0]) {
                    digits_end(s, e0)
                } else {
                    -1
                }
            } else {
                k2
            };
            if k3 < 0 {
                None
            } else {
                Some(k3)
            }
        }
    }
}

pub open spec fn true_lit() -> Seq<u8> {
    seq![0x74u8, 0x72u8, 0x75u8, 0x65u8]
}

pub open spec fn false_lit() -> Seq<u8> {
    seq![0x66u8, 0x61u8, 0x6Cu8, 0x73u8, 0x65u8]
}

pub open spec fn null_lit() -> Seq<u8> {
    seq![0x6Eu8, 0x75u8, 0x6Cu8, 0x6Cu8]
}

/// The position just after the JSON value starting at `i` (no leading
/// whitespace), or `None` when no value of the grammar starts there or
/// the fuel is exhausted by nesting.
pub open spec fn vskip(s: Seq<u8>, i: int, fuel: nat) -> Option<int>
    decreases fuel,
{
    if fuel == 0 {
        None
    } else if !(0 <= i < s.len()) {
        None
    } else {
        let b = s[i];
        if b == 0x22 {  // string
            match str_body(s, i + 1) {
                Some(p) => Some(p.1),
                None => None,
            }
        } else if b == 0x74 {  // true
            if lit_at(s, i, true_lit()) {
                Some(i + 4)
            } else {
                None
            }
        } else if b == 0x66 {  // false
            if lit_at(s, i, false_lit()) {
                Some(i + 5)
            } else {
                None
            }
        } else if b == 0x6E {  // null
            if lit_at(s, i, null_lit()) {
                Some(i + 4)
            } else {
                None
            }
        } else if b == 0x2D || is_digit(b) {  // number
            number_end(s, i)
        } else if b == 0x5B {  // array
            arr_rest(s, i + 1, (fuel - 1) as nat, true)
        } else if b == 0x7B {  // object
            obj_rest(s, i + 1, (fuel - 1) as nat, true)
        } else {
            None
        }
    }
}

/// The position just after the `]` that closes an array whose `[` was
/// read; `i` is just after the `[` (when `at_open`) or just after a comma.
pub open spec fn arr_rest(s: Seq<u8>, i: int, fuel: nat, at_open: bool) -> Option<int>
    decreases fuel,
{
    if fuel == 0 {
        None
    } else {
        let j = ws_end(s, i);
        if !(0 <= j < s.len()) {
            None
        } else if s[j] == 0x5D && at_open {  // ']' right after '['
            Some(j + 1)
        } else {
            match vskip(s, j, (fuel - 1) as nat) {
                Some(e) => {
                    let k = ws_end(s, e);
                    if 0 <= k < s.len() && s[k] == 0x5D {
                        Some(k + 1)
                    } else if 0 <= k < s.len() && s[k] == 0x2C {
                        arr_rest(s, k + 1, (fuel - 1) as nat, false)
                    } else {
                        None
                    }
                },
                None => None,
            }
        }
    }
}

/// The position just after the `}` that closes an object whose `{` was
/// read; `i` is just after the `{` (when `at_open`) or just after a comma.
pub open spec fn obj_rest(s: Seq<u8>, i: int, fuel: nat, at_open: bool) -> Option<int>
    decreases fuel,
{
    if fuel == 0 {
        None
    } else {
        let j = ws_end(s, i);
        if !(0 <= j < s.len()) {
            None
        } else if s[j] == 0x7D && at_open {  // '}' right after '{'
            Some(j + 1)
        } else if s[j] != 0x22 {
            None
        } else {
            match str_body(s, j + 1) {
                Some(kp) => {
                    let c = ws_end(s, kp.1);
                    if !(0 <= c < s.len() && s[c] == 0x3A) {  // ':'
                        None
                    } else {
                        let v = ws_end(s, c + 1);
                        match vskip(s, v, (fuel - 1) as nat) {
                            Some(e) => {
                                let k = ws_end(s, e);
                                if 0 <= k < s.len() && s[k] == 0x7D {
                                    Some(k + 1)
                                } else if 0 <= k < s.len() && s[k] == 0x2C {
                                    obj_rest(s, k + 1, (fuel - 1) as nat, false)
                                } else {
                                    None
                                }
                            },
                            None => None,
                        }
                    }
                },
                None => None,
            }
        }
    }
}

/// `ws_end` stays within `[i, s.len()]` and everything it passed over is
/// whitespace.
pub proof fn lemma_ws_end_bounds(s: Seq<u8>, i: int)
    requires
        0 <= i <= s.len(),
    ensures
        i <= ws_end(s, i) <= s.len(),
    decreases s.len() - i,
{
    if i < s.len() && is_json_ws(s[i]) {
        lemma_ws_end_bounds(s, i + 1);
    }
}

/// `digits_end` stays within `[i, s.len()]`.
pub proof fn lemma_digits_end_bounds(s: Seq<u8>, i: int)
    requires
        0 <= i <= s.len(),
    ensures
        i <= digits_end(s, i) <= s.len(),
    decreases s.len() - i,
{
    if i < s.len() && is_digit(s[i]) {
        lemma_digits_end_bounds(s, i + 1);
    }
}

/// Executable `ws_end`.
pub(crate) fn ws_end_exec(s: &Vec<u8>, i: usize) -> (r: usize)
    requires
        i <= s@.len(),
    ensures
        r == ws_end(s@, i as int),
        i <= r <= s@.len(),
{
    let n = s.len();
    let mut j = i;
    while j < n && (s[j] == 0x20 || s[j] == 0x09 || s[j] == 0x0A || s[j] == 0x0D)
        invariant
            i <= j <= n,
            n == s@.len(),
            ws_end(s@, i as int) == ws_end(s@, j as int),
        decreases n - j,
    {
        j = j + 1;
    }
    j
}

/// Executable `digits_end`.
pub(crate) fn digits_end_exec(s: &Vec<u8>, i: usize) -> (r: usize)
    requires
        i <= s@.len(),
    ensures
        r == digits_end(s@, i as int),
        i <= r <= s@.len(),
{
    let n = s.len();
    let mut j = i;
    while j < n && 0x30 <= s[j] && s[j] <= 0x39
        invariant
            i <= j <= n,
            n == s@.len(),
            digits_end(s@, i as int) == digits_end(s@, j as int),
        decreases n - j,
    {
        j = j + 1;
    }
    j
}

/// Executable `number_end`.
pub(crate) fn number_end_exec(s: &Vec<u8>, i: usize) -> (r: Option<usize>)
    requires
        i <= s@.len(),
    ensures
        match r {
            Some(e) => number_end(s@, i as int) == Some(e as int) && e <= s@.len(),
            None => number_end(s@, i as int) is None,
        },
{
    let n = s.len();
    let j = if i < n && s[i] == 0x2D {
        i + 1
    } else {
        i
    };
    if !(j < n && 0x30 <= s[j] && s[j] <= 0x39) {
        return None;
    }
    let k = if s[j] == 0x30 {
        j + 1
    } else {
        digits_end_exec(s, j)
    };
    let k2 = if k < n && s[k] == 0x2E {
        if k + 1 < n && 0x30 <= s[k + 1] && s[k + 1] <= 0x39 {
            digits_end_exec(s, k + 1)
        } else {
            return None;
        }
    } else {
        k
    };
    let k3 = if k2 < n && (s[k2] == 0x65 || s[k2] == 0x45) {
        let e0 = if k2 + 1 < n && (s[k2 + 1] == 0x2B || s[k2 + 1] == 0x2D) {
            k2 + 2
        } else {
            k2 + 1
        };
        if e0 < n && 0x30 <= s[e0] && s[e0] <= 0x39 {
            digits_end_exec(s, e0)
        } else {
            return None;
        }
    } else {
        k2
    };
    Some(k3)
}

/// The UTF-8 encoding of a Unicode scalar.
fn encode_scalar_exec(scalar: u32) -> (r: Vec<u8>)
    requires
        vstd::utf8::is_scalar(scalar),
    ensures
        r@ == encode_scalar(scalar),
{
    let mut v: Vec<u8> = Vec::new();
    if scalar <= 0x7F {
        proof {
            assert((scalar & 0x7F) <= 0x7F) by (bit_vector);
        }
        v.push((scalar & 0x7F) as u8);
        proof {
            assert(v@ =~= encode_scalar(scalar));
        }
    } else if scalar <= 0x7FF {
        proof {
            assert(((scalar >> 6) & 0x1F) <= 0x1F) by (bit_vector);
            assert((scalar & 0x3F) <= 0x3F) by (bit_vector);
        }
        v.push(0xC0u8 | (((scalar >> 6) & 0x1F) as u8));
        v.push(0x80u8 | ((scalar & 0x3F) as u8));
        proof {
            assert(v@ =~= encode_scalar(scalar));
        }
    } else if scalar <= 0xFFFF {
        proof {
            assert(((scalar >> 12) & 0x0F) <= 0x0F) by (bit_vector);
            assert(((scalar >> 6) & 0x3F) <= 0x3F) by (bit_vector);
            assert((scalar & 0x3F) <= 0x3F) by (bit_vector);
        }
        v.push(0xE0u8 | (((scalar >> 12) & 0x0F) as u8));
        v.push(0x80u8 | (((scalar >> 6) & 0x3F) as u8));
        v.push(0x80u8 | ((scalar & 0x3F) as u8));
        proof {
            assert(v@ =~= encode_scalar(scalar));
        }
    } else {
        proof {
            assert(((scalar >> 18) & 0x7) <= 0x7) by (bit_vector);
            assert(((scalar >> 12) & 0x3F) <= 0x3F) by (bit_vector);
            assert(((scalar >> 6) & 0x3F) <= 0x3F) by (bit_vector);
            assert((scalar & 0x3F) <= 0x3F) by (bit_vector);
        }
        v.push(0xF0u8 | (((scalar >> 18) & 0x7) as u8));
        v.push(0x80u8 | (((scalar >> 12) & 0x3F) as u8));
        v.push(0x80u8 | (((scalar >> 6) & 0x3F) as u8));
        v.push(0x80u8 | ((scalar & 0x3F) as u8));
        proof {
            assert(v@ =~= encode_scalar(scalar));
        }
    }
    v
}

/// Whether the byte is a hexadecimal digit, and its value.
fn hex_digit_exec(b: u8) -> (r: Option<u8>)
    ensures
        match r {
            Some(v) => is_hex_digit(b) && v == hex_val(b),
            None => !is_hex_digit(b),
        },
{
    if 0x30 <= b && b <= 0x39 {
        Some(b - 0x30)
    } else if 0x41 <= b && b <= 0x46 {
        Some(b - 0x41 + 10)
    } else if 0x61 <= b && b <= 0x66 {
        Some(b - 0x61 + 10)
    } else {
        None
    }
}

/// The value of the four hexadecimal digits at `i`, when they are there.
fn hex4_exec(s: &Vec<u8>, i: usize) -> (r: Option<u32>)
    requires
        i <= s@.len(),
    ensures
        match r {
            Some(v) => four_hex_at(s@, i as int) && v == hex4_at(s@, i as int) && v <= 0xFFFF,
            None => !four_hex_at(s@, i as int),
        },
{
    if s.len() - i < 4 {
        return None;
    }
    let d0 = match hex_digit_exec(s[i]) {
        Some(v) => v,
        None => {
            return None;
        },
    };
    let d1 = match hex_digit_exec(s[i + 1]) {
        Some(v) => v,
        None => {
            return None;
        },
    };
    let d2 = match hex_digit_exec(s[i + 2]) {
        Some(v) => v,
        None => {
            return None;
        },
    };
    let d3 = match hex_digit_exec(s[i + 3]) {
        Some(v) => v,
        None => {
            return None;
        },
    };
    Some(
        (d0 as u32) * 0x1000 + (d1 as u32) * 0x100 + (d2 as u32) * 0x10 + (d3 as u32),
    )
}

/// Executable `str_body`: the denoted bytes and the position after the
/// closing quote.
pub(crate) fn str_body_exec(s: &Vec<u8>, i: usize) -> (r: Option<(Vec<u8>, usize)>)
    requires
        i <= s@.len(),
    ensures
        match r {
            Some(p) => str_body(s@, i as int) == Some((p.0@, p.1 as int)) && i < p.1 <= s@.len(),
            None => str_body(s@, i as int) is None,
        },
    decreases s@.len() - i,
{
    if i >= s.len() {
        return None;
    }
    let b = s[i];
    if b == 0x22 {
        return Some((Vec::new(), i + 1));
    }
    if b == 0x5C {
        if s.len() - i < 2 {
            return None;
        }
        let e = s[i + 1];
        if e == 0x75 {
            let n = match hex4_exec(s, i + 2) {
                Some(v) => v,
                None => {
                    return None;
                },
            };
            if 0xDC00 <= n && n <= 0xDFFF {
                return None;
            }
            if 0xD800 <= n && n <= 0xDBFF {
                if s.len() - i >= 12 && s[i + 6] == 0x5C && s[i + 7] == 0x75 {
                    let n2 = match hex4_exec(s, i + 8) {
                        Some(v) => v,
                        None => {
                            return None;
                        },
                    };
                    if 0xDC00 <= n2 && n2 <= 0xDFFF {
                        let scalar = 0x10000 + (n - 0xD800) * 0x400 + (n2 - 0xDC00);
                        match str_body_exec(s, i + 12) {
                            Some(p) => {
                                let mut out = encode_scalar_exec(scalar);
                                let mut tail = p.0;
                                out.append(&mut tail);
                                return Some((out, p.1));
                            },
                            None => {
                                return None;
                            },
                        }
                    } else {
                        return None;
                    }
                } else {
                    return None;
                }
            }
            match str_body_exec(s, i + 6) {
                Some(p) => {
                    let mut out = encode_scalar_exec(n);
                    let mut tail = p.0;
                    out.append(&mut tail);
                    Some((out, p.1))
                },
                None => None,
            }
        } else {
            let c = match simple_escape_exec(e) {
                Some(c) => c,
                None => {
                    return None;
                },
            };
            match str_body_exec(s, i + 2) {
                Some(p) => {
                    let mut out: Vec<u8> = Vec::new();
                    out.push(c);
                    let mut tail = p.0;
                    out.append(&mut tail);
                    proof {
                        assert(out@ =~= seq![c] + p.0@);
                    }
                    Some((out, p.1))
                },
                None => None,
            }
        }
    } else if b < 0x20 {
        None
    } else {
        match str_body_exec(s, i + 1) {
            Some(p) => {
                let mut out: Vec<u8> = Vec::new();
                out.push(b);
                let mut tail = p.0;
                out.append(&mut tail);
                proof {
                    assert(out@ =~= seq![b] + p.0@);
                }
                Some((out, p.1))
            },
            None => None,
        }
    }
}

/// Executable `simple_escape`.
fn simple_escape_exec(e: u8) -> (r: Option<u8>)
    ensures
        r == simple_escape(e),
{
    if e == 0x22 {
        Some(0x22)
    } else if e == 0x5C {
        Some(0x5C)
    } else if e == 0x2F {
        Some(0x2F)
    } else if e == 0x62 {
        Some(0x08)
    } else if e == 0x66 {
        Some(0x0C)
    } else if e == 0x6E {
        Some(0x0A)
    } else if e == 0x72 {
        Some(0x0D)
    } else if e == 0x74 {
        Some(0x09)
    } else {
        None
    }
}

/// The word `w` (given as its exact bytes) stands at `i`: executable
/// check for `true`.
fn true_at_exec(s: &Vec<u8>, i: usize) -> (r: bool)
    requires
        i <= s@.len(),
    ensures
        r == lit_at(s@, i as int, true_lit()),
{
    if s.len() - i >= 4 && s[i] == 0x74 && s[i + 1] == 0x72 && s[i + 2] == 0x75 && s[i + 3]
        == 0x65 {
        proof {
            assert forall|k: int| 0 <= k < 4 implies s@[i as int + k] == true_lit()[k] by {
                if k == 0 {
                } else if k == 1 {
                } else if k == 2 {
                } else {
                    assert(k == 3);
                }
            }
        }
        true
    } else {
        proof {
            if lit_at(s@, i as int, true_lit()) {
                assert(s@[i as int + 0] == 0x74);
                assert(s@[i as int + 1] == 0x72);
                assert(s@[i as int + 2] == 0x75);
                assert(s@[i as int + 3] == 0x65);
            }
        }
        false
    }
}

/// Executable check for `false`.
fn false_at_exec(s: &Vec<u8>, i: usize) -> (r: bool)
    requires
        i <= s@.len(),
    ensures
        r == lit_at(s@, i as int, false_lit()),
{
    if s.len() - i >= 5 && s[i] == 0x66 && s[i + 1] == 0x61 && s[i + 2] == 0x6C && s[i + 3]
        == 0x73 && s[i + 4] == 0x65 {
        proof {
            assert forall|k: int| 0 <= k < 5 implies s@[i as int + k] == false_lit()[k] by {
                if k == 0 {
                } else if k == 1 {
                } else if k == 2 {
                } else if k == 3 {
                } else {
                    assert(k == 4);
                }
            }
        }
        true
    } else {
        proof {
            if lit_at(s@, i as int, false_lit()) {
                assert(s@[i as int + 0] == 0x66);
                assert(s@[i as int + 1] == 0x61);
                assert(s@[i as int + 2] == 0x6C);
                assert(s@[i as int + 3] == 0x73);
                assert(s@[i as int + 4] == 0x65);
            }
        }
        false
    }
}

/// Executable check for `null`.
fn null_at_exec(s: &Vec<u8>, i: usize) -> (r: bool)
    requires
        i <= s@.len(),
    ensures
        r == lit_at(s@, i as int, null_lit()),
{
    if s.len() - i >= 4 && s[i] == 0x6E && s[i + 1] == 0x75 && s[i + 2] == 0x6C && s[i + 3]
        == 0x6C {
        proof {
            assert forall|k: int| 0 <= k < 4 implies s@[i as int + k] == null_lit()[k] by {
                if k == 0 {
                } else if k == 1 {
                } else if k == 2 {
                } else {
                    assert(k == 3);
                }
            }
        }
        true
    } else {
        proof {
            if lit_at(s@, i as int, null_lit()) {
                assert(s@[i as int + 0] == 0x6E);
                assert(s@[i as int + 1] == 0x75);
                assert(s@[i as int + 2] == 0x6C);
                assert(s@[i as int + 3] == 0x6C);
            }
        }
        false
    }
}

/// Executable `vskip`.
pub(crate) fn vskip_exec(s: &Vec<u8>, i: usize, fuel: u128) -> (r: Option<usize>)
    requires
        i <= s@.len(),
    ensures
        match r {
            Some(e) => vskip(s@, i as int, fuel as nat) == Some(e as int) && e <= s@.len(),
            None => vskip(s@, i as int, fuel as nat) is None,
        },
    decreases fuel,
{
    if fuel == 0 {
        return None;
    }
    if i >= s.len() {
        return None;
    }
    let b = s[i];
    if b == 0x22 {
        match str_body_exec(s, i + 1) {
            Some(p) => Some(p.1),
            None => None,
        }
    } else if b == 0x74 {
        if true_at_exec(s, i) {
            Some(i + 4)
        } else {
            None
        }
    } else if b == 0x66 {
        if false_at_exec(s, i) {
            Some(i + 5)
        } else {
            None
        }
    } else if b == 0x6E {
        if null_at_exec(s, i) {
            Some(i + 4)
        } else {
            None
        }
    } else if b == 0x2D || (0x30 <= b && b <= 0x39) {
        number_end_exec(s, i)
    } else if b == 0x5B {
        arr_rest_exec(s, i + 1, fuel - 1, true)
    } else if b == 0x7B {
        obj_rest_exec(s, i + 1, fuel - 1, true)
    } else {
        None
    }
}

/// Executable `arr_rest`.
pub(crate) fn arr_rest_exec(s: &Vec<u8>, i: usize, fuel: u128, at_open: bool) -> (r: Option<usize>)
    requires
        i <= s@.len(),
    ensures
        match r {
            Some(e) => arr_rest(s@, i as int, fuel as nat, at_open) == Some(e as int) && e
                <= s@.len(),
            None => arr_rest(s@, i as int, fuel as nat, at_open) is None,
        },
    decreases fuel,
{
    if fuel == 0 {
        return None;
    }
    let j = ws_end_exec(s, i);
    if j >= s.len() {
        return None;
    }
    if s[j] == 0x5D && at_open {
        return Some(j + 1);
    }
    match vskip_exec(s, j, fuel - 1) {
        Some(e) => {
            let k = ws_end_exec(s, e);
            if k < s.len() && s[k] == 0x5D {
                Some(k + 1)
            } else if k < s.len() && s[k] == 0x2C {
                arr_rest_exec(s, k + 1, fuel - 1, false)
            } else {
                None
            }
        },
        None => None,
    }
}

/// Executable `obj_rest`.
pub(crate) fn obj_rest_exec(s: &Vec<u8>, i: usize, fuel: u128, at_open: bool) -> (r: Option<usize>)
    requires
        i <= s@.len(),
    ensures
        match r {
            Some(e) => obj_rest(s@, i as int, fuel as nat, at_open) == Some(e as int) && e
                <= s@.len(),
            None => obj_rest(s@, i as int, fuel as nat, at_open) is None,
        },
    decreases fuel,
{
    if fuel == 0 {
        return None;
    }
    let j = ws_end_exec(s, i);
    if j >= s.len() {
        return None;
    }
    if s[j] == 0x7D && at_open {
        return Some(j + 1);
    }
    if s[j] != 0x22 {
        return None;
    }
    match str_body_exec(s, j + 1) {
        Some(kp) => {
            let c = ws_end_exec(s, kp.1);
            if !(c < s.len() && s[c] == 0x3A) {
                return None;
            }
            let v = ws_end_exec(s, c + 1);
            match vskip_exec(s, v, fuel - 1) {
                Some(e) => {
                    let k = ws_end_exec(s, e);
                    if k < s.len() && s[k] == 0x7D {
                        Some(k + 1)
                    } else if k < s.len() && s[k] == 0x2C {
                        obj_rest_exec(s, k + 1, fuel - 1, false)
                    } else {
                        None
                    }
                },
                None => None,
            }
        },
        None => None,
    }
}

} // verus!

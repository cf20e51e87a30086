//! The `Sec-WebSocket-Protocol` header value.
//!
//! A client that authenticates through the sub-protocol negotiation list
//! places its bearer credential as the first entry of this header. The
//! value is a comma-separated list; each entry is taken with surrounding
//! blanks removed.

use vstd::prelude::*;
use vstd::string::*;

verus! {

/// The blank characters stripped from around each list entry.
pub open spec fn is_blank_char(c: char) -> bool {
    c == ' ' || c == '\t' || c == '\n' || c == '\r'
}

/// `s` without its leading blanks.
pub open spec fn ltrim_chars(s: Seq<char>) -> Seq<char>
    decreases s.len(),
{
    if s.len() > 0 && is_blank_char(s[0]) {
        ltrim_chars(s.drop_first())
    } else {
        s
    }
}

/// `s` without its trailing blanks.
pub open spec fn rtrim_chars(s: Seq<char>) -> Seq<char>
    decreases s.len(),
{
    if s.len() > 0 && is_blank_char(s.last()) {
        rtrim_chars(s.drop_last())
    } else {
        s
    }
}

/// `s` without leading and trailing blanks.
pub open spec fn trim_chars(s: Seq<char>) -> Seq<char> {
    rtrim_chars(ltrim_chars(s))
}

/// The comma-separated segments of `s`, blanks kept: one segment always
/// exists, and every comma ends one segment and begins the next.
pub open spec fn split_commas(s: Seq<char>) -> Seq<Seq<char>>
    decreases s.len(),
{
    if s.len() == 0 {
        seq![Seq::empty()]
    } else {
        let prev = split_commas(s.drop_last());
        if s.last() == ',' {
            prev.push(Seq::empty())
        } else {
            prev.update(prev.len() - 1, prev.last().push(s.last()))
        }
    }
}

/// The protocol entries named by a header value: its comma-separated
/// segments, each with surrounding blanks removed.
pub open spec fn header_protocols(s: Seq<char>) -> Seq<Seq<char>> {
    split_commas(s).map_values(|t: Seq<char>| trim_chars(t))
}

/// The header value that names the given entries: the entries joined with
/// a comma and a blank.
pub open spec fn join_comma_space(ts: Seq<Seq<char>>) -> Seq<char>
    decreases ts.len(),
{
    if ts.len() == 0 {
        Seq::empty()
    } else if ts.len() == 1 {
        ts[0]
    } else {
        join_comma_space(ts.drop_last()) + seq![',', ' '] + ts.last()
    }
}

/// `split_commas` always yields at least one segment.
pub proof fn lemma_split_commas_nonempty(s: Seq<char>)
    ensures
        split_commas(s).len() >= 1,
    decreases s.len(),
{
    if s.len() > 0 {
        lemma_split_commas_nonempty(s.drop_last());
    }
}

/// Removing exactly the leading blanks of `s` is `ltrim_chars`.
proof fn lemma_ltrim_is_skip(s: Seq<char>, a: int)
    requires
        0 <= a <= s.len(),
        forall|k: int| 0 <= k < a ==> is_blank_char(s[k]),
        a < s.len() ==> !is_blank_char(s[a]),
    ensures
        ltrim_chars(s) == s.skip(a),
    decreases a,
{
    if a == 0 {
        assert(s.skip(0) =~= s);
    } else {
        assert(is_blank_char(s[0]));
        lemma_ltrim_is_skip(s.drop_first(), a - 1);
        assert(s.drop_first().skip(a - 1) =~= s.skip(a));
    }
}

/// Removing exactly the trailing blanks of `s` is `rtrim_chars`.
proof fn lemma_rtrim_is_take(s: Seq<char>, b: int)
    requires
        0 <= b <= s.len(),
        forall|k: int| b <= k < s.len() ==> is_blank_char(s[k]),
        b > 0 ==> !is_blank_char(s[b - 1]),
    ensures
        rtrim_chars(s) == s.take(b),
    decreases s.len() - b,
{
    if b == s.len() {
        if s.len() > 0 && is_blank_char(s.last()) {
            assert(!is_blank_char(s[b - 1]));
            assert(false);
        }
        assert(s.take(b) =~= s);
    } else {
        assert(is_blank_char(s.last()));
        lemma_rtrim_is_take(s.drop_last(), b);
        assert(s.drop_last().take(b) =~= s.take(b));
    }
}

/// The subrange of `s` that drops exactly its leading and trailing blanks
/// is `trim_chars`.
proof fn lemma_trim_is_subrange(s: Seq<char>, a: int, b: int)
    requires
        0 <= a <= b <= s.len(),
        forall|k: int| 0 <= k < a ==> is_blank_char(s[k]),
        forall|k: int| b <= k < s.len() ==> is_blank_char(s[k]),
        a < b ==> !is_blank_char(s[a]) && !is_blank_char(s[b - 1]),
    ensures
        trim_chars(s) == s.subrange(a, b),
{
    if a == b {
        // Every character is blank; the trimmed segment is empty.
        lemma_ltrim_is_skip(s, s.len() as int);
        assert(s.skip(s.len() as int) =~= Seq::<char>::empty());
        lemma_rtrim_is_take(Seq::<char>::empty(), 0);
        assert(s.subrange(a, b) =~= Seq::<char>::empty());
    } else {
        lemma_ltrim_is_skip(s, a);
        let t = s.skip(a);
        lemma_rtrim_is_take(t, b - a);
        assert(t.take(b - a) =~= s.subrange(a, b));
    }
}

/// The bounds of `value[from..to]` once surrounding blanks are removed:
/// `value[r.0..r.1]` is the trimmed segment.
pub(crate) fn trim_bounds(value: &str, from: usize, to: usize) -> (r: (usize, usize))
    requires
        from <= to <= value@.len(),
    ensures
        from <= r.0 <= r.1 <= to,
        value@.subrange(r.0 as int, r.1 as int) == trim_chars(
            value@.subrange(from as int, to as int),
        ),
{
    let mut a = from;
    let mut found_start = false;
    while a < to && !found_start
        invariant
            from <= a <= to <= value@.len(),
            forall|k: int| from <= k < a ==> is_blank_char(value@[k]),
            found_start ==> a < to && !is_blank_char(value@[a as int]),
        decreases to - a + (if found_start { 0int } else { 1int }),
    {
        if is_blank_char_exec(value.get_char(a)) {
            a = a + 1;
        } else {
            found_start = true;
        }
    }
    let mut b = to;
    let mut found_end = false;
    while b > a && !found_end
        invariant
            from <= a <= b <= to <= value@.len(),
            forall|k: int| b <= k < to ==> is_blank_char(value@[k]),
            found_end ==> b > a && !is_blank_char(value@[b - 1]),
        decreases b - a + (if found_end { 0int } else { 1int }),
    {
        if is_blank_char_exec(value.get_char(b - 1)) {
            b = b - 1;
        } else {
            found_end = true;
        }
    }
    proof {
        let seg = value@.subrange(from as int, to as int);
        if a < b {
            assert(!is_blank_char(value@[a as int]));
            assert(!is_blank_char(value@[b - 1]));
        }
        lemma_trim_is_subrange(seg, a - from, b - from);
        assert(seg.subrange(a - from, b - from) =~= value@.subrange(a as int, b as int));
    }
    (a, b)
}

/// The entry `value[from..to]` with surrounding blanks removed.
fn trimmed_segment(value: &str, from: usize, to: usize) -> (r: String)
    requires
        from <= to <= value@.len(),
    ensures
        r@ == trim_chars(value@.subrange(from as int, to as int)),
{
    let (a, b) = trim_bounds(value, from, to);
    String::from_str(value.substring_char(a, b))
}

/// Whether `c` is stripped from around a list entry.
fn is_blank_char_exec(c: char) -> (r: bool)
    ensures
        r == is_blank_char(c),
{
    c == ' ' || c == '\t' || c == '\n' || c == '\r'
}

/// The list of protocols a client offered at upgrade, in offer order. The
/// first entry is where a bearer credential travels when the sub-protocol
/// channel is used for authentication.
pub struct SecWebSocketProtocol(pub Vec<String>);

impl SecWebSocketProtocol {
    /// The header name this value travels under.
    pub fn name(&self) -> (r: &'static str)
        ensures
            r@ == "sec-websocket-protocol"@,
    {
        "sec-websocket-protocol"
    }

    /// Decode a header value: split on commas and strip blanks around each
    /// entry.
    pub fn decode(value: &str) -> (r: SecWebSocketProtocol)
        ensures
            r.0@.len() == header_protocols(value@).len(),
            forall|k: int| 0 <= k < r.0@.len() ==> (#[trigger] r.0@[k])@ == header_protocols(
                value@,
            )[k],
    {
        let n = value.unicode_len();
        let mut out: Vec<String> = Vec::new();
        let ghost mut raws: Seq<Seq<char>> = Seq::empty();
        let mut seg_start: usize = 0;
        let mut i: usize = 0;
        proof {
            assert(split_commas(value@.take(0)) =~= seq![Seq::<char>::empty()]);
            assert(value@.subrange(0, 0) =~= Seq::<char>::empty());
        }
        while i < n
            invariant
                seg_start <= i <= n,
                n == value@.len(),
                out@.len() == raws.len(),
                forall|k: int| 0 <= k < raws.len() ==> (#[trigger] out@[k])@ == trim_chars(
                    raws[k],
                ),
                split_commas(value@.take(i as int)) == raws.push(
                    value@.subrange(seg_start as int, i as int),
                ),
            decreases n - i,
        {
            let c = value.get_char(i);
            proof {
                assert(value@.take(i as int + 1).drop_last() =~= value@.take(i as int));
                assert(value@.take(i as int + 1).last() == value@[i as int]);
                lemma_split_commas_nonempty(value@.take(i as int));
            }
            if c == ',' {
                let token = trimmed_segment(value, seg_start, i);
                out.push(token);
                proof {
                    raws = raws.push(value@.subrange(seg_start as int, i as int));
                    assert(split_commas(value@.take(i as int + 1)) =~= raws.push(
                        Seq::<char>::empty(),
                    ));
                    assert(value@.subrange(i as int + 1, i as int + 1) =~= Seq::<char>::empty());
                }
                seg_start = i + 1;
            } else {
                proof {
                    let before = split_commas(value@.take(i as int));
                    let after = split_commas(value@.take(i as int + 1));
                    assert(after == before.update(
                        before.len() - 1,
                        before.last().push(value@[i as int]),
                    ));
                    assert(before.last() == value@.subrange(seg_start as int, i as int));
                    assert(value@.subrange(seg_start as int, i as int).push(value@[i as int])
                        =~= value@.subrange(seg_start as int, i as int + 1));
                    assert(after =~= raws.push(
                        value@.subrange(seg_start as int, i as int + 1),
                    ));
                }
            }
            i = i + 1;
        }
        let token = trimmed_segment(value, seg_start, n);
        out.push(token);
        proof {
            raws = raws.push(value@.subrange(seg_start as int, n as int));
            assert(value@.take(n as int) =~= value@);
            assert(split_commas(value@) == raws);
            let hp = header_protocols(value@);
            assert(hp.len() == raws.len());
            assert forall|k: int| 0 <= k < out@.len() implies (#[trigger] out@[k])@ == hp[k] by {
                assert(hp[k] == trim_chars(raws[k]));
            }
        }
        SecWebSocketProtocol(out)
    }

    /// Encode the list as a header value: the entries joined with a comma
    /// and a blank.
    pub fn encode(&self) -> (r: String)
        ensures
            r@ == join_comma_space(self.0@.map_values(|t: String| t@)),
    {
        let ghost views = self.0@.map_values(|t: String| t@);
        let mut out = String::new();
        let n = self.0.len();
        let mut k: usize = 0;
        proof {
            assert(join_comma_space(views.take(0)) =~= Seq::<char>::empty());
        }
        while k < n
            invariant
                k <= n,
                n == self.0@.len(),
                views == self.0@.map_values(|t: String| t@),
                views.len() == n,
                out@ == join_comma_space(views.take(k as int)),
            decreases n - k,
        {
            proof {
                reveal_strlit(", ");
                assert(views.take(k as int + 1).drop_last() =~= views.take(k as int));
                assert(views.take(k as int + 1).last() == views[k as int]);
            }
            if k > 0 {
                out.append(", ");
            }
            out.append(self.0[k].as_str());
            proof {
                if k == 0 {
                    assert(views.take(1int)[0] == views[0]);
                    assert(out@ =~= join_comma_space(views.take(1int)));
                }
            }
            k = k + 1;
        }
        proof {
            assert(views.take(n as int) =~= views);
        }
        out
    }

    /// The first offered protocol: the bearer credential, when the
    /// sub-protocol channel carries one.
    pub fn first(&self) -> (r: Option<String>)
        ensures
            match r {
                Some(t) => self.0@.len() > 0 && t@ == self.0@[0]@,
                None => self.0@.len() == 0,
            },
    {
        if self.0.len() > 0 {
            Some(self.0[0].clone())
        } else {
            None
        }
    }
}

} // verus!

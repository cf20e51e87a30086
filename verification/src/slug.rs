//! Slugs for knowledge-base articles.
//!
//! A slug is built from a title in three steps: every character becomes a
//! small run of ASCII characters (itself when it is ASCII, else its
//! transliteration, else a dash); the run is folded into the slug, keeping
//! small letters and digits, lowering capitals, and collapsing everything
//! else into single dashes that never lead; a trailing dash is dropped.
//! The result holds only `a-z`, `0-9` and `-`.

use vstd::prelude::*;
use vstd::string::*;
use vstd::utf8::encode_utf8;

use deunicode::deunicode_char;

use crate::codec::string_from_utf8;

verus! {

/// The ASCII transliteration of one character, for a character that has
/// one. Named after what `deunicode` returns: a function of the character
/// alone.
pub uninterp spec fn ascii_of_char(c: char) -> Option<Seq<char>>;

/// Relies on `deunicode::deunicode_char`: the ASCII transliteration of a
/// single character — the same on every call — or nothing for a character
/// it has none for; whatever it returns is ASCII.
#[verifier::external_body]
fn transliterate_char(c: char) -> (r: Option<String>)
    ensures
        r is Some <==> ascii_of_char(c) is Some,
        r matches Some(s) ==> ascii_of_char(c) == Some(s@),
        r matches Some(s) ==> forall|k: int| 0 <= k < s@.len() ==> (((#[trigger] s@[k]) as u32)
            < 128),
{
    deunicode_char(c).map(|t| t.to_string())
}

/// The ASCII run one character contributes: itself when ASCII, else its
/// transliteration, else a dash.
pub open spec fn char_run(c: char) -> Seq<char> {
    if (c as u32) < 128 {
        seq![c]
    } else {
        match ascii_of_char(c) {
            Some(t) => t,
            None => seq!['-'],
        }
    }
}

/// The whole ASCII stream a title contributes, character by character.
pub open spec fn expand_chars(s: Seq<char>) -> Seq<char>
    decreases s.len(),
{
    if s.len() == 0 {
        Seq::empty()
    } else {
        char_run(s[0]) + expand_chars(s.drop_first())
    }
}

/// One step of the fold: keep a small letter or digit, lower a capital,
/// and turn anything else into a dash unless one was just written.
pub open spec fn slug_push(acc: Seq<u8>, prev_dash: bool, x: char) -> (Seq<u8>, bool) {
    let u = x as u32;
    if (0x61 <= u && u <= 0x7A) || (0x30 <= u && u <= 0x39) {
        (acc.push(u as u8), false)
    } else if 0x41 <= u && u <= 0x5A {
        (acc.push((u + 32) as u8), false)
    } else if prev_dash {
        (acc, true)
    } else {
        (acc.push(0x2Du8), true)
    }
}

/// The fold of a whole character stream.
pub open spec fn slug_fold(s: Seq<char>, acc: Seq<u8>, prev_dash: bool) -> (Seq<u8>, bool)
    decreases s.len(),
{
    if s.len() == 0 {
        (acc, prev_dash)
    } else {
        let st = slug_push(acc, prev_dash, s[0]);
        slug_fold(s.drop_first(), st.0, st.1)
    }
}

/// The slug of a title, as ASCII bytes: the expanded stream folded —
/// starting as if a dash had just been written, so no dash leads — with a
/// trailing dash dropped.
pub open spec fn slug_bytes(s: Seq<char>) -> Seq<u8> {
    let r = slug_fold(expand_chars(s), Seq::empty(), true).0;
    if r.len() > 0 && r.last() == 0x2D {
        r.drop_last()
    } else {
        r
    }
}

/// Folding one more character applies one more push.
proof fn lemma_fold_snoc(s: Seq<char>, acc: Seq<u8>, prev: bool, c: char)
    ensures
        slug_fold(s.push(c), acc, prev) == {
            let st = slug_fold(s, acc, prev);
            slug_push(st.0, st.1, c)
        },
    decreases s.len(),
{
    if s.len() == 0 {
        let st = slug_push(acc, prev, c);
        assert(s.push(c)[0] == c);
        assert(s.push(c).drop_first() =~= Seq::<char>::empty());
        assert(slug_fold(Seq::<char>::empty(), st.0, st.1) == st);
    } else {
        assert(s.push(c)[0] == s[0]);
        assert(s.push(c).drop_first() =~= s.drop_first().push(c));
        let st0 = slug_push(acc, prev, s[0]);
        lemma_fold_snoc(s.drop_first(), st0.0, st0.1, c);
    }
}

/// Folding a concatenation folds the parts in order.
proof fn lemma_fold_append(a: Seq<char>, b: Seq<char>, acc: Seq<u8>, prev: bool)
    ensures
        slug_fold(a + b, acc, prev) == {
            let st = slug_fold(a, acc, prev);
            slug_fold(b, st.0, st.1)
        },
    decreases a.len(),
{
    if a.len() == 0 {
        assert(a + b =~= b);
    } else {
        assert((a + b)[0] == a[0]);
        assert((a + b).drop_first() =~= a.drop_first() + b);
        let st0 = slug_push(acc, prev, a[0]);
        lemma_fold_append(a.drop_first(), b, st0.0, st0.1);
    }
}

/// Expanding one more character appends its run.
proof fn lemma_expand_snoc(s: Seq<char>, c: char)
    ensures
        expand_chars(s.push(c)) == expand_chars(s) + char_run(c),
    decreases s.len(),
{
    if s.len() == 0 {
        assert(s.push(c)[0] == c);
        assert(s.push(c).drop_first() =~= Seq::<char>::empty());
        assert(expand_chars(Seq::<char>::empty()) =~= Seq::<char>::empty());
        assert(expand_chars(s.push(c)) == char_run(c) + expand_chars(Seq::<char>::empty()));
        assert(char_run(c) + Seq::<char>::empty() =~= char_run(c));
        assert(expand_chars(s) + char_run(c) =~= char_run(c));
    } else {
        lemma_expand_snoc(s.drop_first(), c);
        assert(s.push(c)[0] == s[0]);
        assert(s.push(c).drop_first() =~= s.drop_first().push(c));
        assert(expand_chars(s.push(c)) == char_run(s[0]) + expand_chars(s.drop_first().push(c)));
        assert(char_run(s[0]) + (expand_chars(s.drop_first()) + char_run(c)) =~= (char_run(s[0])
            + expand_chars(s.drop_first())) + char_run(c));
    }
}

/// One step of the fold, executably.
fn push_char_exec(acc: &mut Vec<u8>, prev_dash: &mut bool, x: char)
    ensures
        final(acc)@ == slug_push(old(acc)@, *old(prev_dash), x).0,
        *final(prev_dash) == slug_push(old(acc)@, *old(prev_dash), x).1,
{
    let u = x as u32;
    if (0x61 <= u && u <= 0x7A) || (0x30 <= u && u <= 0x39) {
        acc.push(u as u8);
        *prev_dash = false;
    } else if 0x41 <= u && u <= 0x5A {
        acc.push((u + 32) as u8);
        *prev_dash = false;
    } else if !*prev_dash {
        acc.push(0x2D);
        *prev_dash = true;
    } else {
        *prev_dash = true;
    }
}

/// Fold a whole ASCII run.
fn fold_run_exec(acc: &mut Vec<u8>, prev_dash: &mut bool, t: &str)
    ensures
        final(acc)@ == slug_fold(t@, old(acc)@, *old(prev_dash)).0,
        *final(prev_dash) == slug_fold(t@, old(acc)@, *old(prev_dash)).1,
{
    let n = t.unicode_len();
    let mut k: usize = 0;
    proof {
        assert(t@.take(0) =~= Seq::<char>::empty());
    }
    while k < n
        invariant
            k <= n,
            n == t@.len(),
            acc@ == slug_fold(t@.take(k as int), old(acc)@, *old(prev_dash)).0,
            *prev_dash == slug_fold(t@.take(k as int), old(acc)@, *old(prev_dash)).1,
        decreases n - k,
    {
        let c = t.get_char(k);
        push_char_exec(acc, prev_dash, c);
        proof {
            assert(t@.take(k as int).push(t@[k as int]) =~= t@.take(k as int + 1));
            lemma_fold_snoc(t@.take(k as int), old(acc)@, *old(prev_dash), t@[k as int]);
        }
        k = k + 1;
    }
    proof {
        assert(t@.take(n as int) =~= t@);
    }
}

/// Convert a title into its slug: ASCII small letters, digits and single
/// dashes, with no dash leading or trailing.
pub fn to_slug(input: &str) -> (r: String)
    ensures
        encode_utf8(r@) == slug_bytes(input@),
{
    let n = input.unicode_len();
    let mut acc: Vec<u8> = Vec::new();
    let mut prev_dash = true;
    let mut i: usize = 0;
    proof {
        assert(input@.take(0) =~= Seq::<char>::empty());
        assert(expand_chars(Seq::<char>::empty()) =~= Seq::<char>::empty());
    }
    while i < n
        invariant
            i <= n,
            n == input@.len(),
            acc@ == slug_fold(expand_chars(input@.take(i as int)), Seq::empty(), true).0,
            prev_dash == slug_fold(expand_chars(input@.take(i as int)), Seq::empty(), true).1,
            forall|k: int| 0 <= k < acc@.len() ==> #[trigger] acc@[k] <= 0x7F,
        decreases n - i,
    {
        let ghost pre_expanded = expand_chars(input@.take(i as int));
        let ghost pre_acc = acc@;
        let c = input.get_char(i);
        if (c as u32) < 128 {
            push_char_exec(&mut acc, &mut prev_dash, c);
            proof {
                assert(char_run(c) =~= seq![c]);
                assert(pre_expanded.push(c) =~= pre_expanded + char_run(c));
                lemma_fold_snoc(pre_expanded, Seq::empty(), true, c);
            }
        } else {
            match transliterate_char(c) {
                Some(t) => {
                    fold_run_exec(&mut acc, &mut prev_dash, t.as_str());
                    proof {
                        assert(char_run(c) == t@);
                        lemma_fold_append(pre_expanded, t@, Seq::empty(), true);
                    }
                },
                None => {
                    push_char_exec(&mut acc, &mut prev_dash, '-');
                    proof {
                        assert(char_run(c) =~= seq!['-']);
                        assert(pre_expanded.push('-') =~= pre_expanded + char_run(c));
                        lemma_fold_snoc(pre_expanded, Seq::empty(), true, '-');
                    }
                },
            }
        }
        proof {
            assert(input@.take(i as int).push(input@[i as int]) =~= input@.take(i as int + 1));
            lemma_expand_snoc(input@.take(i as int), input@[i as int]);
            lemma_fold_ascii(expand_chars(input@.take(i as int + 1)));
        }
        i = i + 1;
    }
    proof {
        assert(input@.take(n as int) =~= input@);
    }
    if acc.len() > 0 && acc[acc.len() - 1] == 0x2D {
        let _last = acc.pop();
        proof {
            let full = slug_fold(expand_chars(input@), Seq::empty(), true).0;
            assert(acc@ =~= full.drop_last());
        }
    }
    proof {
        crate::codec::lemma_ascii_bytes_valid_utf8(acc@);
    }
    match string_from_utf8(acc) {
        Some(s) => s,
        None => {
            proof {
                assert(false);
            }
            String::new()
        },
    }
}

/// Every byte the fold ever writes is ASCII.
proof fn lemma_fold_ascii(s: Seq<char>)
    ensures
        forall|k: int|
            0 <= k < slug_fold(s, Seq::empty(), true).0.len() ==> #[trigger] slug_fold(
                s,
                Seq::empty(),
                true,
            ).0[k] <= 0x7F,
{
    lemma_fold_ascii_general(s, Seq::empty(), true);
}

proof fn lemma_fold_ascii_general(s: Seq<char>, acc: Seq<u8>, prev: bool)
    requires
        forall|k: int| 0 <= k < acc.len() ==> #[trigger] acc[k] <= 0x7F,
    ensures
        forall|k: int|
            0 <= k < slug_fold(s, acc, prev).0.len() ==> #[trigger] slug_fold(s, acc, prev).0[k]
                <= 0x7F,
    decreases s.len(),
{
    if s.len() > 0 {
        let st = slug_push(acc, prev, s[0]);
        assert forall|k: int| 0 <= k < st.0.len() implies #[trigger] st.0[k] <= 0x7F by {
            if k < acc.len() {
                assert(acc[k] <= 0x7F);
            }
        }
        lemma_fold_ascii_general(s.drop_first(), st.0, st.1);
        assert(slug_fold(s, acc, prev) == slug_fold(s.drop_first(), st.0, st.1));
    }
}

} // verus!

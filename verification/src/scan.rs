//! Character-sequence scanning primitives.
//!
//! Every extraction pass in this crate works over a `Vec<char>` copy of its
//! input, so the searching and slicing helpers here are shared by all of
//! them.  The spec functions give the mathematical meaning (occurrence of a
//! pattern, the first occurrence at or after a position) and the executable
//! functions are proved against them.

use vstd::prelude::*;
use vstd::std_specs::iter::IteratorSpec;

verus! {

/// `pat` occurs in `s` starting at index `i`.
pub open spec fn match_at(s: Seq<char>, pat: Seq<char>, i: int) -> bool {
    &&& 0 <= i
    &&& i + pat.len() <= s.len()
    &&& s.subrange(i, i + pat.len()) == pat
}

/// Index of the first occurrence of `pat` in `s` at or after `from`, if any.
pub open spec fn spec_find(s: Seq<char>, pat: Seq<char>, from: int) -> Option<int>
    decreases s.len() + 1 - from,
{
    if from + pat.len() > s.len() {
        None
    } else if match_at(s, pat, from) {
        Some(from)
    } else {
        spec_find(s, pat, from + 1)
    }
}

/// What `spec_find` returns: the first match position, or `None` when no
/// position at or after `from` matches.
pub proof fn lemma_spec_find(s: Seq<char>, pat: Seq<char>, from: int)
    ensures
        match spec_find(s, pat, from) {
            Some(i) => from <= i && match_at(s, pat, i) && (forall|j: int|
                from <= j < i ==> !match_at(s, pat, j)),
            None => forall|j: int| from <= j ==> !match_at(s, pat, j),
        },
    decreases s.len() + 1 - from,
{
    if from + pat.len() > s.len() {
    } else if match_at(s, pat, from) {
    } else {
        lemma_spec_find(s, pat, from + 1);
    }
}

/// A match inside the tail `s.skip(k)` is a match inside `s`, shifted.
pub proof fn lemma_match_shift(s: Seq<char>, pat: Seq<char>, k: int, i: int)
    requires
        0 <= k <= s.len(),
        k <= i,
    ensures
        match_at(s, pat, i) == match_at(s.skip(k), pat, i - k),
{
    if match_at(s, pat, i) {
        assert(s.skip(k).subrange(i - k, i - k + pat.len() as int) =~= s.subrange(
            i,
            i + pat.len(),
        ));
    }
    if match_at(s.skip(k), pat, i - k) {
        assert(s.subrange(i, i + pat.len()) =~= s.skip(k).subrange(
            i - k,
            i - k + pat.len() as int,
        ));
    }
}

/// Searching the tail `s.skip(k)` finds the same occurrence as searching `s`
/// from the shifted start.
pub proof fn lemma_find_shift(s: Seq<char>, pat: Seq<char>, k: int, from: int)
    requires
        0 <= k <= s.len(),
        k <= from,
    ensures
        match spec_find(s.skip(k), pat, from - k) {
            Some(j) => spec_find(s, pat, from) == Some(j + k),
            None => spec_find(s, pat, from) is None,
        },
    decreases s.len() + 1 - from,
{
    assert(s.skip(k).len() == s.len() - k);
    lemma_match_shift(s, pat, k, from);
    if from + pat.len() > s.len() {
    } else if match_at(s, pat, from) {
    } else {
        lemma_find_shift(s, pat, k, from + 1);
    }
}

/// True when `s[i..i + pat.len()]` equals `pat`; `i` may be anywhere up to
/// the length of `s`.
pub fn check_match_at(s: &[char], pat: &[char], i: usize) -> (b: bool)
    requires
        i <= s@.len(),
    ensures
        b == match_at(s@, pat@, i as int),
{
    let n = s.len();
    let plen = pat.len();
    if n - i < plen {
        return false;
    }
    let mut k: usize = 0;
    while k < plen
        invariant
            n == s@.len(),
            plen == pat@.len(),
            i + plen <= n,
            k <= plen,
            forall|m: int| 0 <= m < k ==> s@[i + m] == pat@[m],
        decreases plen - k,
    {
        if s[i + k] != pat[k] {
            proof {
                if match_at(s@, pat@, i as int) {
                    assert(s@.subrange(i as int, i + pat@.len())[k as int] == pat@[k as int]);
                }
            }
            return false;
        }
        k += 1;
    }
    proof {
        assert(s@.subrange(i as int, i + pat@.len()) =~= pat@);
    }
    true
}

/// First occurrence of `pat` in `s` at or after `from`.
pub fn find_from(s: &[char], pat: &[char], from: usize) -> (r: Option<usize>)
    requires
        from <= s@.len(),
    ensures
        match r {
            Some(i) => spec_find(s@, pat@, from as int) == Some(i as int) && from <= i
                && i + pat@.len() <= s@.len(),
            None => spec_find(s@, pat@, from as int) is None,
        },
{
    let n = s.len();
    let mut i = from;
    loop
        invariant
            n == s@.len(),
            from <= i <= n,
            spec_find(s@, pat@, from as int) == spec_find(s@, pat@, i as int),
        decreases n - i,
    {
        if n - i < pat.len() {
            return None;
        }
        if check_match_at(s, pat, i) {
            return Some(i);
        }
        proof {
            if pat@.len() == 0 {
                assert(s@.subrange(i as int, i as int) =~= pat@);
            }
        }
        i += 1;
    }
}

/// No newline character occurs in `t`.
pub open spec fn no_newline(t: Seq<char>) -> bool {
    forall|i: int| 0 <= i < t.len() ==> t[i] != '\n'
}

/// Whether `s[a..b]` is free of newline characters.
pub fn range_no_newline(s: &[char], a: usize, b: usize) -> (r: bool)
    requires
        a <= b <= s@.len(),
    ensures
        r == no_newline(s@.subrange(a as int, b as int)),
{
    let mut k = a;
    while k < b
        invariant
            a <= k <= b <= s@.len(),
            forall|m: int| a <= m < k ==> s@[m] != '\n',
        decreases b - k,
    {
        if s[k] == '\n' {
            proof {
                assert(s@.subrange(a as int, b as int)[k - a] == '\n');
            }
            return false;
        }
        k += 1;
    }
    proof {
        assert forall|i: int| 0 <= i < b - a implies s@.subrange(a as int, b as int)[i] != '\n' by {
            assert(s@.subrange(a as int, b as int)[i] == s@[a + i]);
        }
    }
    true
}

/// A copy of `s[a..b]` as a fresh vector.
pub fn copy_range(s: &[char], a: usize, b: usize) -> (v: Vec<char>)
    requires
        a <= b <= s@.len(),
    ensures
        v@ == s@.subrange(a as int, b as int),
{
    let mut v: Vec<char> = Vec::new();
    let mut k = a;
    while k < b
        invariant
            a <= k <= b <= s@.len(),
            v@ =~= s@.subrange(a as int, k as int),
        decreases b - k,
    {
        v.push(s[k]);
        k += 1;
    }
    proof {
        assert(v@ =~= s@.subrange(a as int, b as int));
    }
    v
}

/// A whitespace character, as the patterns understand it: the full Unicode
/// White_Space set.
pub open spec fn is_space_char(c: char) -> bool {
    ||| c == ' '
    ||| ('\u{09}' <= c && c <= '\u{0d}')
    ||| c == '\u{85}'
    ||| c == '\u{a0}'
    ||| c == '\u{1680}'
    ||| ('\u{2000}' <= c && c <= '\u{200a}')
    ||| c == '\u{2028}'
    ||| c == '\u{2029}'
    ||| c == '\u{202f}'
    ||| c == '\u{205f}'
    ||| c == '\u{3000}'
}

/// Whether `c` is a whitespace character.
pub fn is_space(c: char) -> (b: bool)
    ensures
        b == is_space_char(c),
{
    c == ' ' || ('\u{09}' <= c && c <= '\u{0d}') || c == '\u{85}' || c == '\u{a0}'
        || c == '\u{1680}' || ('\u{2000}' <= c && c <= '\u{200a}') || c == '\u{2028}'
        || c == '\u{2029}' || c == '\u{202f}' || c == '\u{205f}' || c == '\u{3000}'
}

/// First index at or after `from` holding a non-whitespace character (or the
/// end of `s`).
pub open spec fn spec_skip_spaces(s: Seq<char>, from: int) -> int
    decreases s.len() - from,
{
    if 0 <= from < s.len() && is_space_char(s[from]) {
        spec_skip_spaces(s, from + 1)
    } else {
        from
    }
}

/// Advances past whitespace characters.
pub fn skip_spaces(s: &[char], from: usize) -> (r: usize)
    requires
        from <= s@.len(),
    ensures
        r == spec_skip_spaces(s@, from as int),
        from <= r <= s@.len(),
{
    let mut k = from;
    loop
        invariant
            from <= k <= s@.len(),
            spec_skip_spaces(s@, from as int) == spec_skip_spaces(s@, k as int),
        decreases s@.len() - k,
    {
        if k == s.len() {
            return k;
        }
        if is_space(s[k]) {
            k += 1;
        } else {
            return k;
        }
    }
}

/// Bounds of the first capture between `open` and `close` at or after
/// `from`: the text between the end of the first occurrence of `open` and
/// the first following occurrence of `close`.  A candidate whose capture
/// would span a newline is rejected and the search resumes at the next
/// occurrence of `open`.
pub open spec fn spec_capture(s: Seq<char>, open: Seq<char>, close: Seq<char>, from: int) -> Option<
    (int, int),
>
    decreases s.len() + 1 - from,
    via spec_capture_dec
{
    match spec_find(s, open, from) {
        None => None,
        Some(i) => {
            let cs = i + open.len();
            match spec_find(s, close, cs) {
                None => None,
                Some(j) => if no_newline(s.subrange(cs, j)) {
                    Some((cs, j))
                } else {
                    spec_capture(s, open, close, i + 1)
                },
            }
        },
    }
}

#[via_fn]
proof fn spec_capture_dec(s: Seq<char>, open: Seq<char>, close: Seq<char>, from: int) {
    lemma_spec_find(s, open, from);
    if spec_find(s, open, from) is Some {
        lemma_spec_find(s, close, spec_find(s, open, from)->0 + open.len() as int);
    }
}

/// First capture between `open` and `close`, as `spec_capture` has it.
pub fn capture_from(s: &[char], open: &[char], close: &[char]) -> (r: Option<(usize, usize)>)
    requires
        open@.len() >= 1,
    ensures
        match r {
            Some(p) => spec_capture(s@, open@, close@, 0) == Some((p.0 as int, p.1 as int))
                && p.0 <= p.1 <= s@.len(),
            None => spec_capture(s@, open@, close@, 0) is None,
        },
{
    let n = s.len();
    let mut from: usize = 0;
    loop
        invariant
            n == s@.len(),
            open@.len() >= 1,
            from <= n,
            spec_capture(s@, open@, close@, 0) == spec_capture(s@, open@, close@, from as int),
        decreases n - from,
    {
        match find_from(s, open, from) {
            None => {
                return None;
            },
            Some(i) => {
                let cs = i + open.len();
                match find_from(s, close, cs) {
                    None => {
                        return None;
                    },
                    Some(j) => {
                        if range_no_newline(s, cs, j) {
                            return Some((cs, j));
                        }
                        from = i + 1;
                    },
                }
            },
        }
    }
}

/// The characters of `s`, as a vector.
pub fn chars_vec(s: &str) -> (v: Vec<char>)
    ensures
        v@ == s@,
{
    broadcast use vstd::string::group_string_axioms;

    let mut it = s.chars();
    let mut v: Vec<char> = Vec::new();
    loop
        invariant
            it.obeys_prophetic_iter_laws(),
            it.decrease() is Some,
            v@ + it.remaining() == s@,
        decreases it.decrease()->0,
    {
        match it.next() {
            Some(c) => {
                v.push(c);
                proof {
                    assert(v@ + it.remaining() =~= s@);
                }
            },
            None => {
                proof {
                    assert(v@ =~= s@);
                }
                return v;
            },
        }
    }
}

/// Relies on `String::push`: appends one character to the string.
#[verifier::external_body]
fn push_char(s: &mut String, c: char)
    ensures
        final(s)@ == old(s)@.push(c),
{
    s.push(c);
}

/// The characters of `v`, as an owned string.
pub fn chars_string(v: &[char]) -> (r: String)
    ensures
        r@ == v@,
{
    let mut r = String::new();
    let mut i: usize = 0;
    while i < v.len()
        invariant
            i <= v@.len(),
            r@ =~= v@.subrange(0, i as int),
        decreases v@.len() - i,
    {
        push_char(&mut r, v[i]);
        i += 1;
    }
    proof {
        assert(r@ =~= v@);
    }
    r
}

} // verus!

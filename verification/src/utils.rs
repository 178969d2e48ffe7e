//! Identifier resolution and output-file planning.
//!
//! `extract_video_id` recognizes the supported URL shapes by an ordered list
//! of pattern rules with first-match-wins semantics.  The remaining helpers
//! compute the paths and contents of the files a run writes; the caller
//! performs the actual writes.

use crate::errors::PipelineError;
use crate::scan::{
    chars_string, chars_vec, check_match_at, copy_range, find_from, is_space, is_space_char,
    lemma_spec_find, match_at, spec_find,
};
use crate::transcript::VideoMetadata;
use vstd::prelude::*;
use vstd::string::StringExecFns;

verus! {

// --- identifier resolution -------------------------------------------------

pub open spec fn p_watch() -> Seq<char> {
    seq!['y', 'o', 'u', 't', 'u', 'b', 'e', '.', 'c', 'o', 'm', '/', 'w', 'a', 't', 'c', 'h', '?', 'v', '=']
}

pub open spec fn p_short() -> Seq<char> {
    seq!['y', 'o', 'u', 't', 'u', '.', 'b', 'e', '/']
}

pub open spec fn p_embed() -> Seq<char> {
    seq!['y', 'o', 'u', 't', 'u', 'b', 'e', '.', 'c', 'o', 'm', '/', 'e', 'm', 'b', 'e', 'd', '/']
}

pub open spec fn p_v() -> Seq<char> {
    seq!['y', 'o', 'u', 't', 'u', 'b', 'e', '.', 'c', 'o', 'm', '/', 'v', '/']
}

pub open spec fn p_e() -> Seq<char> {
    seq!['y', 'o', 'u', 't', 'u', 'b', 'e', '.', 'c', 'o', 'm', '/', 'e', '/']
}

pub open spec fn p_shorts() -> Seq<char> {
    seq!['y', 'o', 'u', 't', 'u', 'b', 'e', '.', 'c', 'o', 'm', '/', 's', 'h', 'o', 'r', 't', 's', '/']
}

pub open spec fn watch_key() -> Seq<char> {
    seq!['y', 'o', 'u', 't', 'u', 'b', 'e', '.', 'c', 'o', 'm', '/', 'w', 'a', 't', 'c', 'h']
}

/// A character that may appear in an identifier: anything but `&`, `?`, `/`
/// and whitespace.
pub open spec fn id_char(c: char) -> bool {
    c != '&' && c != '?' && c != '/' && !is_space_char(c)
}

/// Eleven identifier characters start at index `i`.
pub open spec fn valid_id_at(s: Seq<char>, i: int) -> bool {
    &&& 0 <= i
    &&& i + 11 <= s.len()
    &&& forall|k: int| i <= k < i + 11 ==> id_char(s[k])
}

/// The first rule: one of the six path shapes matches at `i` and is
/// followed by an identifier; yields the index where the identifier starts.
pub open spec fn rule1_at(s: Seq<char>, i: int) -> Option<int> {
    if match_at(s, p_watch(), i) && valid_id_at(s, i + 20) {
        Some(i + 20)
    } else if match_at(s, p_short(), i) && valid_id_at(s, i + 9) {
        Some(i + 9)
    } else if match_at(s, p_embed(), i) && valid_id_at(s, i + 18) {
        Some(i + 18)
    } else if match_at(s, p_v(), i) && valid_id_at(s, i + 14) {
        Some(i + 14)
    } else if match_at(s, p_e(), i) && valid_id_at(s, i + 14) {
        Some(i + 14)
    } else if match_at(s, p_shorts(), i) && valid_id_at(s, i + 19) {
        Some(i + 19)
    } else {
        None
    }
}

/// Leftmost position where the first rule hits, as the identifier start.
pub open spec fn rule1_find(s: Seq<char>, from: int) -> Option<int>
    decreases s.len() + 1 - from,
{
    if from > s.len() {
        None
    } else if rule1_at(s, from) is Some {
        rule1_at(s, from)
    } else if from == s.len() {
        None
    } else {
        rule1_find(s, from + 1)
    }
}

/// A `?v=` or `&v=` query parameter carrying an identifier starts at `j`.
pub open spec fn vparam_at(s: Seq<char>, j: int) -> bool {
    &&& 0 <= j
    &&& j + 3 <= s.len()
    &&& (s[j] == '?' || s[j] == '&')
    &&& s[j + 1] == 'v'
    &&& s[j + 2] == '='
    &&& valid_id_at(s, j + 3)
}

/// Rightmost `v=` parameter at or after `from`, as the second rule's greedy
/// scan finds it.
pub open spec fn rule2_last_v(s: Seq<char>, from: int) -> Option<int>
    decreases s.len() + 1 - from,
{
    if from > s.len() {
        None
    } else {
        match rule2_last_v(s, from + 1) {
            Some(j) => Some(j),
            None => if vparam_at(s, from) {
                Some(from)
            } else {
                None
            },
        }
    }
}

pub proof fn lemma_rule2_last_v(s: Seq<char>, from: int)
    ensures
        match rule2_last_v(s, from) {
            Some(j) => from <= j && vparam_at(s, j) && (forall|m: int|
                m > j ==> !vparam_at(s, m)),
            None => forall|m: int| from <= m ==> !vparam_at(s, m),
        },
    decreases s.len() + 1 - from,
{
    if from > s.len() {
    } else {
        lemma_rule2_last_v(s, from + 1);
    }
}

/// What identifier resolution yields: the first rule's leftmost hit, else
/// the second rule (a `watch` URL with the identifier in a later query
/// parameter), else nothing.
pub open spec fn spec_video_id(s: Seq<char>) -> Option<Seq<char>> {
    match rule1_find(s, 0) {
        Some(c) => Some(s.subrange(c, c + 11)),
        None => match spec_find(s, watch_key(), 0) {
            None => None,
            Some(i) => match rule2_last_v(s, i + 17) {
                Some(j) => Some(s.subrange(j + 3, j + 14)),
                None => None,
            },
        },
    }
}

proof fn lemma_rule1_starts_y(s: Seq<char>, q: int)
    ensures
        rule1_at(s, q) is Some ==> s[q] == 'y',
{
    if match_at(s, p_watch(), q) {
        assert(s.subrange(q, q + p_watch().len())[0] == s[q]);
    }
    if match_at(s, p_short(), q) {
        assert(s.subrange(q, q + p_short().len())[0] == s[q]);
    }
    if match_at(s, p_embed(), q) {
        assert(s.subrange(q, q + p_embed().len())[0] == s[q]);
    }
    if match_at(s, p_v(), q) {
        assert(s.subrange(q, q + p_v().len())[0] == s[q]);
    }
    if match_at(s, p_e(), q) {
        assert(s.subrange(q, q + p_e().len())[0] == s[q]);
    }
    if match_at(s, p_shorts(), q) {
        assert(s.subrange(q, q + p_shorts().len())[0] == s[q]);
    }
}

proof fn lemma_rule1_find_skip(s: Seq<char>, a: int, b: int)
    requires
        0 <= a <= b <= s.len(),
        forall|q: int| a <= q < b ==> rule1_at(s, q) is None,
    ensures
        rule1_find(s, a) == rule1_find(s, b),
    decreases b - a,
{
    if a < b {
        lemma_rule1_find_skip(s, a + 1, b);
    }
}

proof fn lemma_shape_watch(id: Seq<char>)
    requires
        id.len() == 11,
        forall|k: int| 0 <= k < 11 ==> id_char(id[k]),
    ensures
        spec_video_id("https://www.youtube.com/watch?v="@ + id) == Some(id),
{
    reveal_strlit("https://www.youtube.com/watch?v=");
    let pre = "https://www.youtube.com/watch?v="@;
    let s = pre + id;
    assert(pre.len() == 32);
    assert forall|q: int| 0 <= q < 12 implies rule1_at(s, q) is None by {
        lemma_rule1_starts_y(s, q);
        assert(s[q] == pre[q]);
        assert(pre[q] != 'y');
    }
    assert(match_at(s, p_watch(), 12)) by {
        assert(s.subrange(12, 32) =~= p_watch());
    }
    assert(valid_id_at(s, 32)) by {
        assert forall|k: int| 32 <= k < 43 implies id_char(s[k]) by {
            assert(s[k] == id[k - 32]);
        }
    }
    assert(rule1_at(s, 12) == Some(32int));
    lemma_rule1_find_skip(s, 0, 12);
    assert(rule1_find(s, 12) == Some(32int));
    assert(s.subrange(32, 43) =~= id);
}

proof fn lemma_shape_short(id: Seq<char>)
    requires
        id.len() == 11,
        forall|k: int| 0 <= k < 11 ==> id_char(id[k]),
    ensures
        spec_video_id("https://youtu.be/"@ + id) == Some(id),
{
    reveal_strlit("https://youtu.be/");
    let pre = "https://youtu.be/"@;
    let s = pre + id;
    assert(pre.len() == 17);
    assert forall|q: int| 0 <= q < 8 implies rule1_at(s, q) is None by {
        lemma_rule1_starts_y(s, q);
        assert(s[q] == pre[q]);
        assert(pre[q] != 'y');
    }
    assert(!match_at(s, p_watch(), 8)) by {
        if match_at(s, p_watch(), 8) {
            assert(s.subrange(8, 28)[5] == p_watch()[5]);
            assert(s[13] == pre[13]);
        }
    }
    assert(match_at(s, p_short(), 8)) by {
        assert(s.subrange(8, 17) =~= p_short());
    }
    assert(valid_id_at(s, 17)) by {
        assert forall|k: int| 17 <= k < 28 implies id_char(s[k]) by {
            assert(s[k] == id[k - 17]);
        }
    }
    assert(rule1_at(s, 8) == Some(17int));
    lemma_rule1_find_skip(s, 0, 8);
    assert(rule1_find(s, 8) == Some(17int));
    assert(s.subrange(17, 28) =~= id);
}

proof fn lemma_shape_embed(id: Seq<char>)
    requires
        id.len() == 11,
        forall|k: int| 0 <= k < 11 ==> id_char(id[k]),
    ensures
        spec_video_id("https://www.youtube.com/embed/"@ + id) == Some(id),
{
    reveal_strlit("https://www.youtube.com/embed/");
    let pre = "https://www.youtube.com/embed/"@;
    let s = pre + id;
    assert(pre.len() == 30);
    assert forall|q: int| 0 <= q < 12 implies rule1_at(s, q) is None by {
        lemma_rule1_starts_y(s, q);
        assert(s[q] == pre[q]);
        assert(pre[q] != 'y');
    }
    assert(!match_at(s, p_watch(), 12)) by {
        if match_at(s, p_watch(), 12) {
            assert(s.subrange(12, 32)[12] == p_watch()[12]);
            assert(s[24] == pre[24]);
        }
    }
    assert(!match_at(s, p_short(), 12)) by {
        if match_at(s, p_short(), 12) {
            assert(s.subrange(12, 21)[5] == p_short()[5]);
            assert(s[17] == pre[17]);
        }
    }
    assert(match_at(s, p_embed(), 12)) by {
        assert(s.subrange(12, 30) =~= p_embed());
    }
    assert(valid_id_at(s, 30)) by {
        assert forall|k: int| 30 <= k < 41 implies id_char(s[k]) by {
            assert(s[k] == id[k - 30]);
        }
    }
    assert(rule1_at(s, 12) == Some(30int));
    lemma_rule1_find_skip(s, 0, 12);
    assert(rule1_find(s, 12) == Some(30int));
    assert(s.subrange(30, 41) =~= id);
}

proof fn lemma_shape_v(id: Seq<char>)
    requires
        id.len() == 11,
        forall|k: int| 0 <= k < 11 ==> id_char(id[k]),
    ensures
        spec_video_id("https://www.youtube.com/v/"@ + id) == Some(id),
{
    reveal_strlit("https://www.youtube.com/v/");
    let pre = "https://www.youtube.com/v/"@;
    let s = pre + id;
    assert(pre.len() == 26);
    assert forall|q: int| 0 <= q < 12 implies rule1_at(s, q) is None by {
        lemma_rule1_starts_y(s, q);
        assert(s[q] == pre[q]);
        assert(pre[q] != 'y');
    }
    assert(!match_at(s, p_watch(), 12)) by {
        if match_at(s, p_watch(), 12) {
            assert(s.subrange(12, 32)[12] == p_watch()[12]);
            assert(s[24] == pre[24]);
        }
    }
    assert(!match_at(s, p_short(), 12)) by {
        if match_at(s, p_short(), 12) {
            assert(s.subrange(12, 21)[5] == p_short()[5]);
            assert(s[17] == pre[17]);
        }
    }
    assert(!match_at(s, p_embed(), 12)) by {
        if match_at(s, p_embed(), 12) {
            assert(s.subrange(12, 30)[12] == p_embed()[12]);
            assert(s[24] == pre[24]);
        }
    }
    assert(match_at(s, p_v(), 12)) by {
        assert(s.subrange(12, 26) =~= p_v());
    }
    assert(valid_id_at(s, 26)) by {
        assert forall|k: int| 26 <= k < 37 implies id_char(s[k]) by {
            assert(s[k] == id[k - 26]);
        }
    }
    assert(rule1_at(s, 12) == Some(26int));
    lemma_rule1_find_skip(s, 0, 12);
    assert(rule1_find(s, 12) == Some(26int));
    assert(s.subrange(26, 37) =~= id);
}

proof fn lemma_shape_e(id: Seq<char>)
    requires
        id.len() == 11,
        forall|k: int| 0 <= k < 11 ==> id_char(id[k]),
    ensures
        spec_video_id("https://www.youtube.com/e/"@ + id) == Some(id),
{
    reveal_strlit("https://www.youtube.com/e/");
    let pre = "https://www.youtube.com/e/"@;
    let s = pre + id;
    assert(pre.len() == 26);
    assert forall|q: int| 0 <= q < 12 implies rule1_at(s, q) is None by {
        lemma_rule1_starts_y(s, q);
        assert(s[q] == pre[q]);
        assert(pre[q] != 'y');
    }
    assert(!match_at(s, p_watch(), 12)) by {
        if match_at(s, p_watch(), 12) {
            assert(s.subrange(12, 32)[12] == p_watch()[12]);
            assert(s[24] == pre[24]);
        }
    }
    assert(!match_at(s, p_short(), 12)) by {
        if match_at(s, p_short(), 12) {
            assert(s.subrange(12, 21)[5] == p_short()[5]);
            assert(s[17] == pre[17]);
        }
    }
    assert(!match_at(s, p_embed(), 12)) by {
        if match_at(s, p_embed(), 12) {
            assert(s.subrange(12, 30)[13] == p_embed()[13]);
            assert(s[25] == pre[25]);
        }
    }
    assert(!match_at(s, p_v(), 12)) by {
        if match_at(s, p_v(), 12) {
            assert(s.subrange(12, 26)[12] == p_v()[12]);
            assert(s[24] == pre[24]);
        }
    }
    assert(match_at(s, p_e(), 12)) by {
        assert(s.subrange(12, 26) =~= p_e());
    }
    assert(valid_id_at(s, 26)) by {
        assert forall|k: int| 26 <= k < 37 implies id_char(s[k]) by {
            assert(s[k] == id[k - 26]);
        }
    }
    assert(rule1_at(s, 12) == Some(26int));
    lemma_rule1_find_skip(s, 0, 12);
    assert(rule1_find(s, 12) == Some(26int));
    assert(s.subrange(26, 37) =~= id);
}

proof fn lemma_shape_shorts(id: Seq<char>)
    requires
        id.len() == 11,
        forall|k: int| 0 <= k < 11 ==> id_char(id[k]),
    ensures
        spec_video_id("https://www.youtube.com/shorts/"@ + id) == Some(id),
{
    reveal_strlit("https://www.youtube.com/shorts/");
    let pre = "https://www.youtube.com/shorts/"@;
    let s = pre + id;
    assert(pre.len() == 31);
    assert forall|q: int| 0 <= q < 12 implies rule1_at(s, q) is None by {
        lemma_rule1_starts_y(s, q);
        assert(s[q] == pre[q]);
        assert(pre[q] != 'y');
    }
    assert(!match_at(s, p_watch(), 12)) by {
        if match_at(s, p_watch(), 12) {
            assert(s.subrange(12, 32)[12] == p_watch()[12]);
            assert(s[24] == pre[24]);
        }
    }
    assert(!match_at(s, p_short(), 12)) by {
        if match_at(s, p_short(), 12) {
            assert(s.subrange(12, 21)[5] == p_short()[5]);
            assert(s[17] == pre[17]);
        }
    }
    assert(!match_at(s, p_embed(), 12)) by {
        if match_at(s, p_embed(), 12) {
            assert(s.subrange(12, 30)[12] == p_embed()[12]);
            assert(s[24] == pre[24]);
        }
    }
    assert(!match_at(s, p_v(), 12)) by {
        if match_at(s, p_v(), 12) {
            assert(s.subrange(12, 26)[12] == p_v()[12]);
            assert(s[24] == pre[24]);
        }
    }
    assert(!match_at(s, p_e(), 12)) by {
        if match_at(s, p_e(), 12) {
            assert(s.subrange(12, 26)[12] == p_e()[12]);
            assert(s[24] == pre[24]);
        }
    }
    assert(match_at(s, p_shorts(), 12)) by {
        assert(s.subrange(12, 31) =~= p_shorts());
    }
    assert(valid_id_at(s, 31)) by {
        assert forall|k: int| 31 <= k < 42 implies id_char(s[k]) by {
            assert(s[k] == id[k - 31]);
        }
    }
    assert(rule1_at(s, 12) == Some(31int));
    lemma_rule1_find_skip(s, 0, 12);
    assert(rule1_find(s, 12) == Some(31int));
    assert(s.subrange(31, 42) =~= id);
}

/// On every supported URL shape wrapped around any 11-character identifier,
/// resolution returns exactly that identifier: the standard watch query
/// parameter, the short link, the embed path, the legacy `/v/` and `/e/`
/// paths, and the shorts path.
pub proof fn lemma_resolve_supported_shapes(id: Seq<char>)
    requires
        id.len() == 11,
        forall|k: int| 0 <= k < 11 ==> id_char(id[k]),
    ensures
        spec_video_id("https://www.youtube.com/watch?v="@ + id) == Some(id),
        spec_video_id("https://youtu.be/"@ + id) == Some(id),
        spec_video_id("https://www.youtube.com/embed/"@ + id) == Some(id),
        spec_video_id("https://www.youtube.com/v/"@ + id) == Some(id),
        spec_video_id("https://www.youtube.com/e/"@ + id) == Some(id),
        spec_video_id("https://www.youtube.com/shorts/"@ + id) == Some(id),
{
    lemma_shape_watch(id);
    lemma_shape_short(id);
    lemma_shape_embed(id);
    lemma_shape_v(id);
    lemma_shape_e(id);
    lemma_shape_shorts(id);
}

/// A URL unrelated to the video host fails resolution: every rule is
/// anchored on host text beginning with `y`, so an input in which that
/// letter never occurs matches no rule.
pub proof fn lemma_resolve_unrelated_host(s: Seq<char>)
    requires
        forall|i: int| 0 <= i < s.len() ==> s[i] != 'y',
    ensures
        spec_video_id(s) is None,
{
    assert forall|q: int| 0 <= q < s.len() implies rule1_at(s, q) is None by {
        lemma_rule1_starts_y(s, q);
    }
    lemma_rule1_find_skip(s, 0, s.len() as int);
    lemma_spec_find(s, watch_key(), 0);
    if spec_find(s, watch_key(), 0) is Some {
        let i = spec_find(s, watch_key(), 0)->0;
        assert(s.subrange(i, i + watch_key().len())[0] == s[i]);
        assert(false);
    }
}

/// Eleven identifier characters start at `c`.
fn check_id_at(s: &[char], c: usize) -> (b: bool)
    requires
        c <= s@.len(),
    ensures
        b == valid_id_at(s@, c as int),
{
    let n = s.len();
    if n - c < 11 {
        return false;
    }
    let mut k: usize = 0;
    while k < 11
        invariant
            c + 11 <= n == s@.len(),
            k <= 11,
            forall|m: int| c <= m < c + k ==> id_char(s@[m]),
        decreases 11 - k,
    {
        let ch = s[c + k];
        if ch == '&' || ch == '?' || ch == '/' || is_space(ch) {
            return false;
        }
        k += 1;
    }
    true
}

/// The first rule, checked at one position.
fn rule1_hit_at(s: &[char], i: usize) -> (r: Option<usize>)
    requires
        i <= s@.len(),
    ensures
        match r {
            Some(c) => rule1_at(s@, i as int) == Some(c as int) && c + 11 <= s@.len(),
            None => rule1_at(s@, i as int) is None,
        },
{
    let n = s.len();
    let p1 = chars_vec("youtube.com/watch?v=");
    let p2 = chars_vec("youtu.be/");
    let p3 = chars_vec("youtube.com/embed/");
    let p4 = chars_vec("youtube.com/v/");
    let p5 = chars_vec("youtube.com/e/");
    let p6 = chars_vec("youtube.com/shorts/");
    proof {
        reveal_strlit("youtube.com/watch?v=");
        reveal_strlit("youtu.be/");
        reveal_strlit("youtube.com/embed/");
        reveal_strlit("youtube.com/v/");
        reveal_strlit("youtube.com/e/");
        reveal_strlit("youtube.com/shorts/");
        assert(p1@ =~= p_watch());
        assert(p2@ =~= p_short());
        assert(p3@ =~= p_embed());
        assert(p4@ =~= p_v());
        assert(p5@ =~= p_e());
        assert(p6@ =~= p_shorts());
        assert(n == s@.len());
    }
    if check_match_at(s, p1.as_slice(), i) && check_id_at(s, i + 20) {
        return Some(i + 20);
    }
    if check_match_at(s, p2.as_slice(), i) && check_id_at(s, i + 9) {
        return Some(i + 9);
    }
    if check_match_at(s, p3.as_slice(), i) && check_id_at(s, i + 18) {
        return Some(i + 18);
    }
    if check_match_at(s, p4.as_slice(), i) && check_id_at(s, i + 14) {
        return Some(i + 14);
    }
    if check_match_at(s, p5.as_slice(), i) && check_id_at(s, i + 14) {
        return Some(i + 14);
    }
    if check_match_at(s, p6.as_slice(), i) && check_id_at(s, i + 19) {
        return Some(i + 19);
    }
    None
}

/// Leftmost hit of the first rule over the whole input.
fn rule1_search(s: &[char]) -> (r: Option<usize>)
    ensures
        match r {
            Some(c) => rule1_find(s@, 0) == Some(c as int) && c + 11 <= s@.len(),
            None => rule1_find(s@, 0) is None,
        },
{
    let n = s.len();
    let mut i: usize = 0;
    loop
        invariant
            n == s@.len(),
            i <= n,
            rule1_find(s@, 0) == rule1_find(s@, i as int),
        decreases n + 1 - i,
    {
        match rule1_hit_at(s, i) {
            Some(c) => {
                return Some(c);
            },
            None => {
                if i == n {
                    return None;
                }
                i += 1;
            },
        }
    }
}

/// A `v=` parameter with an identifier, checked at one position.
fn check_vparam(s: &[char], j: usize) -> (b: bool)
    requires
        j <= s@.len(),
    ensures
        b == vparam_at(s@, j as int),
{
    let n = s.len();
    if n - j < 14 {
        return false;
    }
    let c0 = s[j];
    if !(c0 == '?' || c0 == '&') {
        return false;
    }
    if s[j + 1] != 'v' {
        return false;
    }
    if s[j + 2] != '=' {
        return false;
    }
    check_id_at(s, j + 3)
}

/// Rightmost `v=` parameter at or after `lo`.
fn rule2_v_scan(s: &[char], lo: usize) -> (r: Option<usize>)
    requires
        lo <= s@.len(),
    ensures
        match r {
            Some(j) => rule2_last_v(s@, lo as int) == Some(j as int) && j + 14 <= s@.len(),
            None => rule2_last_v(s@, lo as int) is None,
        },
{
    let n = s.len();
    let mut j = n;
    proof {
        assert forall|m: int| j <= m implies !vparam_at(s@, m) by {}
    }
    loop
        invariant
            n == s@.len(),
            lo <= j <= n,
            forall|m: int| j <= m ==> !vparam_at(s@, m),
        decreases j,
    {
        if j == lo {
            proof {
                lemma_rule2_last_v(s@, lo as int);
            }
            return None;
        }
        j -= 1;
        if check_vparam(s, j) {
            proof {
                lemma_rule2_last_v(s@, lo as int);
            }
            return Some(j);
        }
    }
}

/// Extracts the canonical 11-character video identifier from a URL.  The
/// path shapes (watch query parameter, short link, embed, `/v/`, `/e/`,
/// shorts) are tried first over every position; a `watch` URL with the
/// identifier in a later query parameter is the fallback.  Pure; fails with
/// `IdentifierNotFound` carrying the URL when no rule matches.
pub fn extract_video_id(url: &str) -> (r: Result<String, PipelineError>)
    ensures
        match spec_video_id(url@) {
            Some(id) => r matches Ok(v) && v@ == id,
            None => r matches Err(e) && (e matches PipelineError::IdentifierNotFound {
                url: u,
            } && u@ == url@),
        },
        r matches Ok(v) ==> v@.len() == 11,
{
    let v = chars_vec(url);
    let n = v.len();
    if let Some(c) = rule1_search(v.as_slice()) {
        let id = copy_range(v.as_slice(), c, c + 11);
        return Ok(chars_string(id.as_slice()));
    }
    let wk = chars_vec("youtube.com/watch");
    proof {
        reveal_strlit("youtube.com/watch");
        assert(wk@ =~= watch_key());
    }
    match find_from(v.as_slice(), wk.as_slice(), 0) {
        None => Err(PipelineError::IdentifierNotFound { url: url.to_owned() }),
        Some(i) => {
            proof {
                assert(i + 17 <= n);
            }
            match rule2_v_scan(v.as_slice(), i + 17) {
                Some(j) => {
                    let id = copy_range(v.as_slice(), j + 3, j + 14);
                    Ok(chars_string(id.as_slice()))
                },
                None => Err(PipelineError::IdentifierNotFound { url: url.to_owned() }),
            }
        },
    }
}

// --- output-file planning --------------------------------------------------

/// One file a run writes: a path and its full content.
#[derive(Debug, Clone)]
pub struct FileEntry {
    pub path: String,
    pub content: String,
}

/// The directory all of a video's files live in.
pub fn video_directory(video_id: &str) -> (p: String)
    ensures
        p@ == "output/"@ + video_id@,
{
    let mut p = String::from_str("output/");
    p.append(video_id);
    p
}

/// The path of a video's transcript file.
pub fn get_transcript_path(video_id: &str) -> (p: String)
    ensures
        p@ == "output/"@ + video_id@ + "/transcript.txt"@,
{
    let mut p = video_directory(video_id);
    p.append("/transcript.txt");
    p
}

/// The four files a fetched video produces: the transcript, the metadata
/// page, and empty summary and highlights files to be filled later.
pub fn save_video_files(metadata: &VideoMetadata) -> (entries: Vec<FileEntry>)
    ensures
        entries@.len() == 4,
        entries@[0].path@ == "output/"@ + metadata.video_id@ + "/transcript.txt"@,
        entries@[0].content@ == metadata.transcript@,
        entries@[1].path@ == "output/"@ + metadata.video_id@ + "/info.md"@,
        entries@[1].content@ == "# "@ + metadata.title@ + "\n\n"@ + metadata.description@,
        entries@[2].path@ == "output/"@ + metadata.video_id@ + "/summary.md"@,
        entries@[2].content@ == Seq::<char>::empty(),
        entries@[3].path@ == "output/"@ + metadata.video_id@ + "/highlights.md"@,
        entries@[3].content@ == Seq::<char>::empty(),
{
    let mut entries: Vec<FileEntry> = Vec::new();
    let transcript_path = get_transcript_path(metadata.video_id.as_str());
    entries.push(
        FileEntry { path: transcript_path, content: metadata.transcript.clone() },
    );
    let mut info_path = video_directory(metadata.video_id.as_str());
    info_path.append("/info.md");
    let mut info = String::from_str("# ");
    info.append(metadata.title.as_str());
    info.append("\n\n");
    info.append(metadata.description.as_str());
    entries.push(FileEntry { path: info_path, content: info });
    let mut summary_path = video_directory(metadata.video_id.as_str());
    summary_path.append("/summary.md");
    entries.push(FileEntry { path: summary_path, content: String::new() });
    let mut highlights_path = video_directory(metadata.video_id.as_str());
    highlights_path.append("/highlights.md");
    entries.push(FileEntry { path: highlights_path, content: String::new() });
    entries
}

/// The summary file of a video, with its content.
pub fn save_summary(video_id: &str, summary: &str) -> (e: FileEntry)
    ensures
        e.path@ == "output/"@ + video_id@ + "/summary.md"@,
        e.content@ == summary@,
{
    let mut p = video_directory(video_id);
    p.append("/summary.md");
    FileEntry { path: p, content: summary.to_owned() }
}

/// The highlights file of a video, with its content.
pub fn save_highlights(video_id: &str, highlights: &str) -> (e: FileEntry)
    ensures
        e.path@ == "output/"@ + video_id@ + "/highlights.md"@,
        e.content@ == highlights@,
{
    let mut p = video_directory(video_id);
    p.append("/highlights.md");
    FileEntry { path: p, content: highlights.to_owned() }
}

} // verus!

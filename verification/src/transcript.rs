//! Markup extraction and transcript normalization.
//!
//! Given raw page markup, the extractors locate the video title, the video
//! description, and the caption-track resource locator, each by an ordered
//! list of pattern strategies with first-match-wins semantics.  Title and
//! description are best-effort and fall back to fixed placeholders; a
//! missing caption locator is fatal.  The normalizer turns a caption payload
//! into one plain-text transcript by decoding every `<text ...>...</text>`
//! fragment and joining the results with single spaces.

use crate::entities::{decode_fragment, spec_decode};
use crate::errors::PipelineError;
use crate::scan::{
    chars_string, chars_vec, check_match_at, copy_range, find_from, lemma_spec_find, match_at,
    no_newline, range_no_newline, skip_spaces, spec_capture, spec_find, spec_skip_spaces,
    capture_from,
};
use vstd::prelude::*;

verus! {

/// Metadata and transcript of one video.  `transcript` is non-empty on
/// every successful pipeline run.
#[derive(Debug, Clone)]
pub struct VideoMetadata {
    pub video_id: String,
    pub title: String,
    pub description: String,
    pub transcript: String,
}

// --- title -----------------------------------------------------------------

pub open spec fn og_title_open() -> Seq<char> {
    "<meta property=\"og:title\" content=\""@
}

pub open spec fn meta_title_open() -> Seq<char> {
    "<meta name=\"title\" content=\""@
}

pub open spec fn title_open() -> Seq<char> {
    "<title>"@
}

pub open spec fn quote_gt() -> Seq<char> {
    "\">"@
}

pub open spec fn title_close() -> Seq<char> {
    " - YouTube</title>"@
}

pub open spec fn default_title() -> Seq<char> {
    "Untitled YouTube Video"@
}

/// The title that extraction yields: the first of three patterns that
/// captures, decoded; a fixed placeholder when none does.
pub open spec fn spec_title(h: Seq<char>) -> Seq<char> {
    match spec_capture(h, og_title_open(), quote_gt(), 0) {
        Some(p) => spec_decode(h.subrange(p.0, p.1)),
        None => match spec_capture(h, meta_title_open(), quote_gt(), 0) {
            Some(p) => spec_decode(h.subrange(p.0, p.1)),
            None => match spec_capture(h, title_open(), title_close(), 0) {
                Some(p) => spec_decode(h.subrange(p.0, p.1)),
                None => default_title(),
            },
        },
    }
}

/// Extracts the video title from page markup.  Best-effort: falls back to a
/// placeholder title, never fails.
pub fn extract_video_title(html: &str) -> (t: String)
    ensures
        t@ == spec_title(html@),
{
    let v = chars_vec(html);
    let open1 = chars_vec("<meta property=\"og:title\" content=\"");
    let open2 = chars_vec("<meta name=\"title\" content=\"");
    let open3 = chars_vec("<title>");
    let close12 = chars_vec("\">");
    let close3 = chars_vec(" - YouTube</title>");
    proof {
        reveal_strlit("<meta property=\"og:title\" content=\"");
        reveal_strlit("<meta name=\"title\" content=\"");
        reveal_strlit("<title>");
    }
    if let Some(p) = capture_from(v.as_slice(), open1.as_slice(), close12.as_slice()) {
        let frag = copy_range(v.as_slice(), p.0, p.1);
        return chars_string(decode_fragment(frag.as_slice()).as_slice());
    }
    if let Some(p) = capture_from(v.as_slice(), open2.as_slice(), close12.as_slice()) {
        let frag = copy_range(v.as_slice(), p.0, p.1);
        return chars_string(decode_fragment(frag.as_slice()).as_slice());
    }
    if let Some(p) = capture_from(v.as_slice(), open3.as_slice(), close3.as_slice()) {
        let frag = copy_range(v.as_slice(), p.0, p.1);
        return chars_string(decode_fragment(frag.as_slice()).as_slice());
    }
    String::from_str("Untitled YouTube Video")
}

// --- description -----------------------------------------------------------

pub open spec fn og_desc_open() -> Seq<char> {
    "<meta property=\"og:description\" content=\""@
}

pub open spec fn meta_desc_open() -> Seq<char> {
    "<meta name=\"description\" content=\""@
}

pub open spec fn desc_key() -> Seq<char> {
    "\"description\":"@
}

pub open spec fn default_description() -> Seq<char> {
    "No description available."@
}

/// Number of consecutive backslashes immediately before index `j`.
pub open spec fn backslash_run(s: Seq<char>, j: int) -> int
    decreases j,
{
    if 0 < j <= s.len() && s[j - 1] == '\\' {
        backslash_run(s, j - 1) + 1
    } else {
        0
    }
}

/// Index `j` closes a JSON string: a quote preceded by an even number of
/// consecutive backslashes.
pub open spec fn json_close_at(s: Seq<char>, j: int) -> bool {
    0 <= j < s.len() && s[j] == '"' && backslash_run(s, j) % 2 == 0
}

/// First index at or after `j` that closes a JSON string.
pub open spec fn spec_json_end(s: Seq<char>, j: int) -> Option<int>
    decreases s.len() + 1 - j,
{
    if j >= s.len() {
        None
    } else if json_close_at(s, j) {
        Some(j)
    } else {
        spec_json_end(s, j + 1)
    }
}

pub proof fn lemma_spec_json_end(s: Seq<char>, j: int)
    ensures
        match spec_json_end(s, j) {
            Some(k) => j <= k < s.len() && json_close_at(s, k) && (forall|m: int|
                j <= m < k ==> !json_close_at(s, m)),
            None => forall|m: int| j <= m ==> !json_close_at(s, m),
        },
    decreases s.len() + 1 - j,
{
    if j >= s.len() {
    } else if json_close_at(s, j) {
    } else {
        lemma_spec_json_end(s, j + 1);
    }
}

/// The capture of the escaped-quote-aware JSON description pattern: after
/// `"description":` and optional whitespace, the content of the JSON string
/// literal up to its first unescaped closing quote.  A candidate that is not
/// followed by a quoted string, or whose capture spans a newline, is skipped
/// and the search resumes at the next occurrence of the key.
pub open spec fn spec_desc_json(h: Seq<char>, from: int) -> Option<(int, int)>
    decreases h.len() + 1 - from,
    via spec_desc_json_dec
{
    match spec_find(h, desc_key(), from) {
        None => None,
        Some(i) => {
            let p = spec_skip_spaces(h, i + desc_key().len());
            if p < h.len() && h[p] == '"' {
                match spec_json_end(h, p + 1) {
                    None => None,
                    Some(j) => if no_newline(h.subrange(p + 1, j)) {
                        Some((p + 1, j))
                    } else {
                        spec_desc_json(h, i + 1)
                    },
                }
            } else {
                spec_desc_json(h, i + 1)
            }
        },
    }
}

#[via_fn]
proof fn spec_desc_json_dec(h: Seq<char>, from: int) {
    lemma_spec_find(h, desc_key(), from);
}

/// The description that extraction yields: the first of three patterns that
/// captures, decoded; a fixed placeholder when none does.
pub open spec fn spec_description(h: Seq<char>) -> Seq<char> {
    match spec_capture(h, og_desc_open(), quote_gt(), 0) {
        Some(p) => spec_decode(h.subrange(p.0, p.1)),
        None => match spec_capture(h, meta_desc_open(), quote_gt(), 0) {
            Some(p) => spec_decode(h.subrange(p.0, p.1)),
            None => match spec_desc_json(h, 0) {
                Some(p) => spec_decode(h.subrange(p.0, p.1)),
                None => default_description(),
            },
        },
    }
}

/// Parity-checked search for the first unescaped closing quote.
fn json_string_end(s: &[char], from: usize) -> (r: Option<usize>)
    requires
        from <= s@.len(),
    ensures
        match r {
            Some(k) => spec_json_end(s@, from as int) == Some(k as int) && from <= k < s@.len(),
            None => spec_json_end(s@, from as int) is None,
        },
{
    let n = s.len();
    let mut j = from;
    loop
        invariant
            n == s@.len(),
            from <= j <= n,
            spec_json_end(s@, from as int) == spec_json_end(s@, j as int),
        decreases n - j,
    {
        if j == n {
            return None;
        }
        if s[j] == '"' {
            let mut cnt: usize = 0;
            let mut t = j;
            while t > 0 && s[t - 1] == '\\'
                invariant
                    t <= j < n == s@.len(),
                    cnt == j - t,
                    backslash_run(s@, j as int) == backslash_run(s@, t as int) + cnt,
                decreases t,
            {
                t -= 1;
                cnt += 1;
            }
            proof {
                assert(backslash_run(s@, t as int) == 0);
            }
            if cnt % 2 == 0 {
                proof {
                    lemma_spec_json_end(s@, from as int);
                }
                return Some(j);
            }
        }
        j += 1;
    }
}

/// The escaped-quote-aware JSON description pattern, over the markup.
fn desc_json_capture(v: &[char]) -> (r: Option<(usize, usize)>)
    ensures
        match r {
            Some(p) => spec_desc_json(v@, 0) == Some((p.0 as int, p.1 as int)) && p.0 <= p.1
                <= v@.len(),
            None => spec_desc_json(v@, 0) is None,
        },
{
    let key = chars_vec("\"description\":");
    proof {
        reveal_strlit("\"description\":");
    }
    let n = v.len();
    let mut from: usize = 0;
    loop
        invariant
            n == v@.len(),
            from <= n,
            key@ == desc_key(),
            spec_desc_json(v@, 0) == spec_desc_json(v@, from as int),
        decreases n - from,
    {
        proof {
            reveal_strlit("\"description\":");
        }
        match find_from(v, key.as_slice(), from) {
            None => {
                return None;
            },
            Some(i) => {
                let p = skip_spaces(v, i + key.len());
                if p < n {
                    if v[p] == '"' {
                        match json_string_end(v, p + 1) {
                            None => {
                                return None;
                            },
                            Some(j) => {
                                if range_no_newline(v, p + 1, j) {
                                    return Some((p + 1, j));
                                }
                                from = i + 1;
                            },
                        }
                    } else {
                        from = i + 1;
                    }
                } else {
                    from = i + 1;
                }
            },
        }
    }
}

/// Extracts the video description from page markup.  Best-effort: falls back
/// to a placeholder, never fails.
pub fn extract_video_description(html: &str) -> (d: String)
    ensures
        d@ == spec_description(html@),
{
    let v = chars_vec(html);
    let open1 = chars_vec("<meta property=\"og:description\" content=\"");
    let open2 = chars_vec("<meta name=\"description\" content=\"");
    let close12 = chars_vec("\">");
    proof {
        reveal_strlit("<meta property=\"og:description\" content=\"");
        reveal_strlit("<meta name=\"description\" content=\"");
    }
    if let Some(p) = capture_from(v.as_slice(), open1.as_slice(), close12.as_slice()) {
        let frag = copy_range(v.as_slice(), p.0, p.1);
        return chars_string(decode_fragment(frag.as_slice()).as_slice());
    }
    if let Some(p) = capture_from(v.as_slice(), open2.as_slice(), close12.as_slice()) {
        let frag = copy_range(v.as_slice(), p.0, p.1);
        return chars_string(decode_fragment(frag.as_slice()).as_slice());
    }
    if let Some(p) = desc_json_capture(v.as_slice()) {
        let frag = copy_range(v.as_slice(), p.0, p.1);
        return chars_string(decode_fragment(frag.as_slice()).as_slice());
    }
    String::from_str("No description available.")
}

// --- caption locator -------------------------------------------------------

pub open spec fn tight_open() -> Seq<char> {
    "\"captionTracks\":[{\"baseUrl\":\""@
}

pub open spec fn quote_comma() -> Seq<char> {
    "\","@
}

pub open spec fn renderer_key() -> Seq<char> {
    "\"playerCaptionsTracklistRenderer\""@
}

pub open spec fn tracks_key() -> Seq<char> {
    "\"captionTracks\":"@
}

pub open spec fn base_url_key() -> Seq<char> {
    "\"baseUrl\":"@
}

pub open spec fn quote() -> Seq<char> {
    "\""@
}

/// One candidate of the loose pattern: at a `"captionTracks":` occurrence,
/// `[`, `{` and a quoted `"baseUrl":` value through optional whitespace; the
/// capture runs to the next quote and may not span a newline.
pub open spec fn loose_candidate(h: Seq<char>, i: int) -> Option<(int, int)> {
    let a = spec_skip_spaces(h, i + tracks_key().len());
    if a < h.len() && h[a] == '[' {
        let b = spec_skip_spaces(h, a + 1);
        if b < h.len() && h[b] == '{' {
            let c = spec_skip_spaces(h, b + 1);
            if match_at(h, base_url_key(), c) {
                let d = spec_skip_spaces(h, c + base_url_key().len());
                if d < h.len() && h[d] == '"' {
                    match spec_find(h, quote(), d + 1) {
                        None => None,
                        Some(e) => if no_newline(h.subrange(d + 1, e)) {
                            Some((d + 1, e))
                        } else {
                            None
                        },
                    }
                } else {
                    None
                }
            } else {
                None
            }
        } else {
            None
        }
    } else {
        None
    }
}

/// The `"captionTracks":` occurrences at or after `from`, tried in order:
/// the first whose candidate fits wins, and the search gives up for this
/// renderer once the gap back to `gap` (the end of the renderer key) spans
/// a newline.
pub open spec fn loose_tracks_from(h: Seq<char>, gap: int, from: int) -> Option<(int, int)>
    decreases h.len() + 1 - from,
    via loose_tracks_from_dec
{
    match spec_find(h, tracks_key(), from) {
        None => None,
        Some(i) => if gap <= i && !no_newline(h.subrange(gap, i)) {
            None
        } else {
            match loose_candidate(h, i) {
                Some(p) => Some(p),
                None => loose_tracks_from(h, gap, i + 1),
            }
        },
    }
}

#[via_fn]
proof fn loose_tracks_from_dec(h: Seq<char>, gap: int, from: int) {
    lemma_spec_find(h, tracks_key(), from);
}

/// The loose fallback pattern: each `"playerCaptionsTracklistRenderer"`
/// occurrence at or after `from` in turn, with its `"captionTracks":`
/// candidates; a renderer whose candidates all fail is abandoned and the
/// search resumes at the next renderer occurrence.
pub open spec fn spec_captions_loose_from(h: Seq<char>, from: int) -> Option<(int, int)>
    decreases h.len() + 1 - from,
    via spec_captions_loose_from_dec
{
    match spec_find(h, renderer_key(), from) {
        None => None,
        Some(r) => match loose_tracks_from(h, r + renderer_key().len(), r + renderer_key().len()) {
            Some(p) => Some(p),
            None => spec_captions_loose_from(h, r + 1),
        },
    }
}

#[via_fn]
proof fn spec_captions_loose_from_dec(h: Seq<char>, from: int) {
    lemma_spec_find(h, renderer_key(), from);
}

/// The loose fallback pattern over the whole markup.
pub open spec fn spec_captions_loose(h: Seq<char>) -> Option<(int, int)> {
    spec_captions_loose_from(h, 0)
}

/// Bounds of the caption locator inside the markup: the tight anchored
/// pattern is tried first, the loose fallback only when it fails.
pub open spec fn spec_captions_locator(h: Seq<char>) -> Option<(int, int)> {
    match spec_capture(h, tight_open(), quote_comma(), 0) {
        Some(p) => Some(p),
        None => spec_captions_loose(h),
    }
}

/// When the tight anchored pattern matches, the locator comes from it: the
/// loose fallback is never consulted.
pub proof fn lemma_tight_pattern_preferred(h: Seq<char>)
    requires
        spec_capture(h, tight_open(), quote_comma(), 0) is Some,
    ensures
        spec_captions_locator(h) == spec_capture(h, tight_open(), quote_comma(), 0),
{
}

pub open spec fn esc_amp() -> Seq<char> {
    seq!['\\', 'u', '0', '0', '2', '6']
}

/// One pass replacing every `&` escape with a literal ampersand.
pub open spec fn spec_unescape_u0026(u: Seq<char>) -> Seq<char>
    decreases u.len(),
{
    if match_at(u, esc_amp(), 0) {
        seq!['&'] + spec_unescape_u0026(u.skip(6))
    } else if u.len() == 0 {
        Seq::empty()
    } else {
        seq![u[0]] + spec_unescape_u0026(u.skip(1))
    }
}

fn unescape_u0026(s: &[char]) -> (out: Vec<char>)
    ensures
        out@ == spec_unescape_u0026(s@),
{
    let pat = chars_vec("\\u0026");
    proof {
        reveal_strlit("\\u0026");
        assert(pat@ =~= esc_amp());
    }
    let n = s.len();
    let mut out: Vec<char> = Vec::new();
    let mut i: usize = 0;
    proof {
        assert(s@.skip(0) =~= s@);
        assert(out@ + spec_unescape_u0026(s@) =~= spec_unescape_u0026(s@));
    }
    while i < n
        invariant
            n == s@.len(),
            i <= n,
            pat@ == esc_amp(),
            spec_unescape_u0026(s@) == out@ + spec_unescape_u0026(s@.skip(i as int)),
        decreases n - i,
    {
        proof {
            crate::scan::lemma_match_shift(s@, esc_amp(), i as int, i as int);
        }
        let ghost tail = s@.skip(i as int);
        if check_match_at(s, pat.as_slice(), i) {
            out.push('&');
            proof {
                assert(tail.skip(6) =~= s@.skip(i + 6));
            }
            i += 6;
        } else {
            out.push(s[i]);
            proof {
                assert(tail[0] == s@[i as int]);
                assert(tail.skip(1) =~= s@.skip(i + 1));
            }
            i += 1;
        }
    }
    proof {
        assert(s@.skip(n as int) =~= Seq::<char>::empty());
    }
    out
}

/// One loose candidate, checked at a `"captionTracks":` occurrence.
fn loose_candidate_exec(v: &[char], i: usize) -> (r: Option<(usize, usize)>)
    requires
        i + tracks_key().len() <= v@.len(),
    ensures
        match r {
            Some(p) => loose_candidate(v@, i as int) == Some((p.0 as int, p.1 as int)) && p.0
                <= p.1 <= v@.len(),
            None => loose_candidate(v@, i as int) is None,
        },
{
    let base = chars_vec("\"baseUrl\":");
    let q = chars_vec("\"");
    proof {
        reveal_strlit("\"captionTracks\":");
        reveal_strlit("\"baseUrl\":");
        reveal_strlit("\"");
        assert(base@ =~= base_url_key());
        assert(q@ =~= quote());
        assert(tracks_key().len() == 16);
    }
    let n = v.len();
    let a = skip_spaces(v, i + 16);
    if a < n && v[a] == '[' {
        let b = skip_spaces(v, a + 1);
        if b < n && v[b] == '{' {
            let c = skip_spaces(v, b + 1);
            if check_match_at(v, base.as_slice(), c) {
                let d = skip_spaces(v, c + base.len());
                if d < n && v[d] == '"' {
                    match find_from(v, q.as_slice(), d + 1) {
                        None => None,
                        Some(e) => {
                            if range_no_newline(v, d + 1, e) {
                                Some((d + 1, e))
                            } else {
                                None
                            }
                        },
                    }
                } else {
                    None
                }
            } else {
                None
            }
        } else {
            None
        }
    } else {
        None
    }
}

/// The candidates of one renderer occurrence, tried in order.
fn loose_tracks_scan(v: &[char], gap: usize) -> (r: Option<(usize, usize)>)
    requires
        gap <= v@.len(),
    ensures
        match r {
            Some(p) => loose_tracks_from(v@, gap as int, gap as int) == Some(
                (p.0 as int, p.1 as int),
            ) && p.0 <= p.1 <= v@.len(),
            None => loose_tracks_from(v@, gap as int, gap as int) is None,
        },
{
    let tracks = chars_vec("\"captionTracks\":");
    proof {
        reveal_strlit("\"captionTracks\":");
        assert(tracks@ =~= tracks_key());
    }
    let n = v.len();
    let mut from = gap;
    loop
        invariant
            n == v@.len(),
            gap <= from <= n,
            tracks@ == tracks_key(),
            loose_tracks_from(v@, gap as int, gap as int) == loose_tracks_from(
                v@,
                gap as int,
                from as int,
            ),
        decreases n - from,
    {
        proof {
            reveal_strlit("\"captionTracks\":");
        }
        match find_from(v, tracks.as_slice(), from) {
            None => {
                return None;
            },
            Some(i) => {
                if !range_no_newline(v, gap, i) {
                    return None;
                }
                match loose_candidate_exec(v, i) {
                    Some(p) => {
                        return Some(p);
                    },
                    None => {
                        from = i + 1;
                    },
                }
            },
        }
    }
}

/// The loose fallback pattern, over the markup.
fn captions_loose(v: &[char]) -> (r: Option<(usize, usize)>)
    ensures
        match r {
            Some(p) => spec_captions_loose(v@) == Some((p.0 as int, p.1 as int)) && p.0 <= p.1
                <= v@.len(),
            None => spec_captions_loose(v@) is None,
        },
{
    let renderer = chars_vec("\"playerCaptionsTracklistRenderer\"");
    proof {
        reveal_strlit("\"playerCaptionsTracklistRenderer\"");
        assert(renderer@ =~= renderer_key());
    }
    let n = v.len();
    let mut from: usize = 0;
    loop
        invariant
            n == v@.len(),
            from <= n,
            renderer@ == renderer_key(),
            spec_captions_loose_from(v@, 0) == spec_captions_loose_from(v@, from as int),
        decreases n - from,
    {
        proof {
            reveal_strlit("\"playerCaptionsTracklistRenderer\"");
        }
        match find_from(v, renderer.as_slice(), from) {
            None => {
                return None;
            },
            Some(r) => {
                let gap = r + renderer.len();
                match loose_tracks_scan(v, gap) {
                    Some(p) => {
                        return Some(p);
                    },
                    None => {
                        from = r + 1;
                    },
                }
            },
        }
    }
}

/// Extracts the caption-track resource locator from page markup and
/// unescapes the `&` sequences embedded by its JSON context.  Unlike
/// title and description, failure here is fatal: no captions means no
/// transcript.
pub fn extract_captions_url(html: &str) -> (r: Result<String, PipelineError>)
    ensures
        match spec_captions_locator(html@) {
            Some(p) => r matches Ok(u) && u@ == spec_unescape_u0026(
                html@.subrange(p.0, p.1),
            ),
            None => r matches Err(e) && e is NoCaptionsAvailable,
        },
{
    let v = chars_vec(html);
    let t_open = chars_vec("\"captionTracks\":[{\"baseUrl\":\"");
    let t_close = chars_vec("\",");
    proof {
        reveal_strlit("\"captionTracks\":[{\"baseUrl\":\"");
    }
    if let Some(p) = capture_from(v.as_slice(), t_open.as_slice(), t_close.as_slice()) {
        let cap = copy_range(v.as_slice(), p.0, p.1);
        return Ok(chars_string(unescape_u0026(cap.as_slice()).as_slice()));
    }
    match captions_loose(v.as_slice()) {
        Some(p) => {
            let cap = copy_range(v.as_slice(), p.0, p.1);
            Ok(chars_string(unescape_u0026(cap.as_slice()).as_slice()))
        },
        None => Err(PipelineError::NoCaptionsAvailable),
    }
}

// --- transcript normalization ----------------------------------------------

pub open spec fn text_open() -> Seq<char> {
    seq!['<', 't', 'e', 'x', 't']
}

pub open spec fn text_close() -> Seq<char> {
    seq!['<', '/', 't', 'e', 'x', 't', '>']
}

pub open spec fn gt_pat() -> Seq<char> {
    seq!['>']
}

/// The caption text fragments of a payload, in document order: the inner
/// content of every `<text ...>...</text>` element.  A candidate whose
/// attribute region or content spans a newline is skipped and the search
/// resumes at the next `<text`.
pub open spec fn spec_fragments(d: Seq<char>, from: int) -> Seq<Seq<char>>
    decreases d.len() + 1 - from,
    via spec_fragments_dec
{
    match spec_find(d, text_open(), from) {
        None => Seq::empty(),
        Some(i) => match spec_find(d, gt_pat(), i + 5) {
            None => Seq::empty(),
            Some(g) => if !no_newline(d.subrange(i + 5, g)) {
                spec_fragments(d, i + 1)
            } else {
                match spec_find(d, text_close(), g + 1) {
                    None => Seq::empty(),
                    Some(k) => if !no_newline(d.subrange(g + 1, k)) {
                        spec_fragments(d, i + 1)
                    } else {
                        seq![d.subrange(g + 1, k)] + spec_fragments(d, k + 7)
                    },
                }
            },
        },
    }
}

#[via_fn]
proof fn spec_fragments_dec(d: Seq<char>, from: int) {
    lemma_spec_find(d, text_open(), from);
    match spec_find(d, text_open(), from) {
        Some(i) => {
            lemma_spec_find(d, gt_pat(), i + 5);
            match spec_find(d, gt_pat(), i + 5) {
                Some(g) => {
                    lemma_spec_find(d, text_close(), g + 1);
                },
                None => {},
            }
        },
        None => {},
    }
}

/// The transcript text: every fragment decoded, each followed by one space.
pub open spec fn join_decoded(frs: Seq<Seq<char>>) -> Seq<char>
    decreases frs.len(),
{
    if frs.len() == 0 {
        Seq::empty()
    } else {
        spec_decode(frs[0]) + seq![' '] + join_decoded(frs.skip(1))
    }
}

/// Decodes and joins every fragment; also reports how many there were.
fn collect_fragments(d: &[char]) -> (r: (Vec<char>, usize))
    ensures
        r.0@ == join_decoded(spec_fragments(d@, 0)),
        r.1 == spec_fragments(d@, 0).len(),
{
    let p_open = chars_vec("<text");
    let p_gt = chars_vec(">");
    let p_close = chars_vec("</text>");
    proof {
        reveal_strlit("<text");
        reveal_strlit(">");
        reveal_strlit("</text>");
        assert(p_open@ =~= text_open());
        assert(p_gt@ =~= gt_pat());
        assert(p_close@ =~= text_close());
    }
    let n = d.len();
    let mut out: Vec<char> = Vec::new();
    let mut count: usize = 0;
    let mut from: usize = 0;
    proof {
        assert(out@ + join_decoded(spec_fragments(d@, 0)) =~= join_decoded(spec_fragments(d@, 0)));
    }
    loop
        invariant
            n == d@.len(),
            count <= from <= n,
            p_open@ == text_open(),
            p_gt@ == gt_pat(),
            p_close@ == text_close(),
            join_decoded(spec_fragments(d@, 0)) == out@ + join_decoded(
                spec_fragments(d@, from as int),
            ),
            spec_fragments(d@, 0).len() == count + spec_fragments(d@, from as int).len(),
        decreases n - from,
    {
        match find_from(d, p_open.as_slice(), from) {
            None => {
                proof {
                    assert(out@ + Seq::<char>::empty() =~= out@);
                }
                return (out, count);
            },
            Some(i) => {
                match find_from(d, p_gt.as_slice(), i + 5) {
                    None => {
                        proof {
                            assert(out@ + Seq::<char>::empty() =~= out@);
                        }
                        return (out, count);
                    },
                    Some(g) => {
                        if !range_no_newline(d, i + 5, g) {
                            from = i + 1;
                        } else {
                            match find_from(d, p_close.as_slice(), g + 1) {
                                None => {
                                    proof {
                                        assert(out@ + Seq::<char>::empty() =~= out@);
                                    }
                                    return (out, count);
                                },
                                Some(k) => {
                                    if !range_no_newline(d, g + 1, k) {
                                        from = i + 1;
                                    } else {
                                        let frag = copy_range(d, g + 1, k);
                                        let mut dec = decode_fragment(frag.as_slice());
                                        let ghost out0 = out@;
                                        let ghost frs = spec_fragments(d@, from as int);
                                        out.append(&mut dec);
                                        out.push(' ');
                                        proof {
                                            assert(frs == seq![d@.subrange(g + 1, k as int)]
                                                + spec_fragments(d@, k + 7));
                                            assert(frs[0] == d@.subrange(g + 1, k as int));
                                            assert(frs.skip(1) =~= spec_fragments(d@, k + 7));
                                            assert(out@ =~= out0 + spec_decode(frs[0])
                                                + seq![' ']);
                                            assert(out0 + join_decoded(frs) =~= out@
                                                + join_decoded(spec_fragments(d@, k + 7)));
                                        }
                                        count += 1;
                                        from = k + 7;
                                    }
                                },
                            }
                        }
                    },
                }
            },
        }
    }
}

/// Parses a caption payload into one normalized plain-text transcript: every
/// fragment decoded and joined with single spaces, in document order.  Zero
/// fragments is a hard failure, never an empty-string success.
pub fn parse_transcript_data(data: &str) -> (r: Result<String, PipelineError>)
    ensures
        spec_fragments(data@, 0).len() == 0 ==> (r matches Err(e) && e is EmptyTranscript),
        spec_fragments(data@, 0).len() > 0 ==> (r matches Ok(t) && t@ == join_decoded(
            spec_fragments(data@, 0),
        )),
        r matches Ok(t) ==> t@.len() > 0,
{
    let v = chars_vec(data);
    let (out, count) = collect_fragments(v.as_slice());
    if count == 0 {
        Err(PipelineError::EmptyTranscript)
    } else {
        proof {
            lemma_join_nonempty(spec_fragments(v@, 0));
        }
        Ok(chars_string(out.as_slice()))
    }
}

/// At least one fragment always leaves a non-empty transcript: every
/// fragment contributes its trailing space even when its text is empty.
proof fn lemma_join_nonempty(frs: Seq<Seq<char>>)
    requires
        frs.len() > 0,
    ensures
        join_decoded(frs).len() > 0,
{
}

/// Builds the full metadata aggregate from fetched page markup and caption
/// payload.  Title and description are best-effort; an empty transcript is
/// the one failure.
pub fn build_video_metadata(video_id: &str, html: &str, payload: &str) -> (r: Result<
    VideoMetadata,
    PipelineError,
>)
    ensures
        spec_fragments(payload@, 0).len() == 0 ==> (r matches Err(e) && e is EmptyTranscript),
        spec_fragments(payload@, 0).len() > 0 ==> (r matches Ok(m) && m.video_id@ == video_id@
            && m.title@ == spec_title(html@) && m.description@ == spec_description(html@)
            && m.transcript@ == join_decoded(spec_fragments(payload@, 0))),
        r matches Ok(m) ==> m.transcript@.len() > 0,
{
    let title = extract_video_title(html);
    let description = extract_video_description(html);
    match parse_transcript_data(payload) {
        Ok(transcript) => Ok(
            VideoMetadata {
                video_id: video_id.to_owned(),
                title,
                description,
                transcript,
            },
        ),
        Err(e) => Err(e),
    }
}

} // verus!

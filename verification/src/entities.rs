//! Character-reference decoding for caption text fragments.
//!
//! Decoding runs in two passes.  The first pass substitutes a closed table of
//! named references (and two spellings of a self-closing break tag), each
//! exactly once per occurrence: the substitution is a single forward scan, so
//! text produced by one substitution is never rescanned, and `&amp;lt;`
//! decodes to the literal `&lt;`.  The second pass substitutes decimal
//! numeric references: at `&#`, everything up to the first following `;` is
//! taken as the digit run; if it parses as a decimal Unicode scalar value the
//! whole reference is replaced by that character, otherwise the whole
//! reference is deleted.

use crate::scan::{
    chars_string, chars_vec, check_match_at, find_from, lemma_find_shift, lemma_match_shift,
    lemma_spec_find, match_at, spec_find,
};
use vstd::prelude::*;

verus! {

pub open spec fn pat_quot() -> Seq<char> {
    seq!['&', 'q', 'u', 'o', 't', ';']
}

pub open spec fn pat_amp() -> Seq<char> {
    seq!['&', 'a', 'm', 'p', ';']
}

pub open spec fn pat_lt() -> Seq<char> {
    seq!['&', 'l', 't', ';']
}

pub open spec fn pat_gt() -> Seq<char> {
    seq!['&', 'g', 't', ';']
}

pub open spec fn pat_dec39() -> Seq<char> {
    seq!['&', '#', '3', '9', ';']
}

pub open spec fn pat_apos() -> Seq<char> {
    seq!['&', 'a', 'p', 'o', 's', ';']
}

pub open spec fn pat_hex27() -> Seq<char> {
    seq!['&', '#', 'x', '2', '7', ';']
}

pub open spec fn pat_hex2f() -> Seq<char> {
    seq!['&', '#', 'x', '2', 'F', ';']
}

pub open spec fn pat_br() -> Seq<char> {
    seq!['<', 'b', 'r', '/', '>']
}

pub open spec fn pat_br_sp() -> Seq<char> {
    seq!['<', 'b', 'r', ' ', '/', '>']
}

pub open spec fn semi() -> Seq<char> {
    seq![';']
}

/// The fixed-table pass: each named reference is substituted exactly once,
/// in a single forward scan.
pub open spec fn decode_named(s: Seq<char>) -> Seq<char>
    decreases s.len(),
{
    if match_at(s, pat_quot(), 0) {
        seq!['"'] + decode_named(s.skip(6))
    } else if match_at(s, pat_amp(), 0) {
        seq!['&'] + decode_named(s.skip(5))
    } else if match_at(s, pat_lt(), 0) {
        seq!['<'] + decode_named(s.skip(4))
    } else if match_at(s, pat_gt(), 0) {
        seq!['>'] + decode_named(s.skip(4))
    } else if match_at(s, pat_dec39(), 0) {
        seq!['\''] + decode_named(s.skip(5))
    } else if match_at(s, pat_apos(), 0) {
        seq!['\''] + decode_named(s.skip(6))
    } else if match_at(s, pat_hex27(), 0) {
        seq!['\''] + decode_named(s.skip(6))
    } else if match_at(s, pat_hex2f(), 0) {
        seq!['/'] + decode_named(s.skip(6))
    } else if match_at(s, pat_br(), 0) {
        seq!['\n'] + decode_named(s.skip(5))
    } else if match_at(s, pat_br_sp(), 0) {
        seq!['\n'] + decode_named(s.skip(6))
    } else if s.len() == 0 {
        Seq::empty()
    } else {
        seq![s[0]] + decode_named(s.skip(1))
    }
}

pub open spec fn is_digit(c: char) -> bool {
    48 <= c as u32 <= 57
}

pub open spec fn digit_val(c: char) -> int {
    c as u32 - 48
}

pub open spec fn all_digits(s: Seq<char>) -> bool {
    forall|i: int| 0 <= i < s.len() ==> is_digit(s[i])
}

/// The decimal value of a digit run.
pub open spec fn dec_val(s: Seq<char>) -> int
    decreases s.len(),
{
    if s.len() == 0 {
        0
    } else {
        dec_val(s.drop_last()) * 10 + digit_val(s.last())
    }
}

/// A Unicode scalar value: what `char` can hold.
pub open spec fn is_scalar_value(n: int) -> bool {
    (0 <= n < 0xD800) || (0xDFFF < n <= 0x10FFFF)
}

/// The character denoted by a digit run, when it parses to a scalar value.
pub open spec fn numeric_entity_char(digits: Seq<char>) -> Option<char> {
    if digits.len() >= 1 && all_digits(digits) && is_scalar_value(dec_val(digits)) {
        Some(dec_val(digits) as u32 as char)
    } else {
        None
    }
}

/// The head of `s` is a numeric-reference candidate: `&#` with a `;`
/// somewhere after.
pub open spec fn numeric_start(s: Seq<char>) -> bool {
    s.len() >= 2 && s[0] == '&' && s[1] == '#' && spec_find(s, semi(), 2) is Some
}

/// The numeric-reference pass: at each `&#`, the run up to the first `;` is
/// replaced by the denoted character, or deleted when it does not parse.
pub open spec fn decode_numeric(s: Seq<char>) -> Seq<char>
    decreases s.len(),
    via decode_numeric_dec
{
    if numeric_start(s) {
        let j = spec_find(s, semi(), 2)->0;
        match numeric_entity_char(s.subrange(2, j)) {
            Some(c) => seq![c] + decode_numeric(s.skip(j + 1)),
            None => decode_numeric(s.skip(j + 1)),
        }
    } else if s.len() == 0 {
        Seq::empty()
    } else {
        seq![s[0]] + decode_numeric(s.skip(1))
    }
}

#[via_fn]
proof fn decode_numeric_dec(s: Seq<char>) {
    if numeric_start(s) {
        lemma_spec_find(s, semi(), 2);
    }
}

/// What `decode_html_entities` returns: the named-reference pass followed by
/// the numeric-reference pass.
pub open spec fn spec_decode(s: Seq<char>) -> Seq<char> {
    decode_numeric(decode_named(s))
}

/// Relies on `char::from_u32`: `Some` exactly for Unicode scalar values (not
/// a surrogate, at most 0x10FFFF), and then equal to the cast of the value.
#[verifier::external_body]
fn char_from_u32(n: u32) -> (r: Option<char>)
    ensures
        r is Some <==> is_scalar_value(n as int),
        is_scalar_value(n as int) ==> r == Some(n as char),
{
    char::from_u32(n)
}

/// Parses `s[a..b]` as a decimal scalar value, as `numeric_entity_char` has
/// it.
fn parse_entity(s: &[char], a: usize, b: usize) -> (r: Option<char>)
    requires
        a <= b <= s@.len(),
    ensures
        r == numeric_entity_char(s@.subrange(a as int, b as int)),
{
    let ghost digits = s@.subrange(a as int, b as int);
    if a == b {
        return None;
    }
    let mut val: u32 = 0;
    let mut k = a;
    while k < b
        invariant
            a <= k <= b <= s@.len(),
            all_digits(s@.subrange(a as int, k as int)),
            if dec_val(s@.subrange(a as int, k as int)) <= 0x10FFFF {
                val == dec_val(s@.subrange(a as int, k as int))
            } else {
                val == 0x110000u32
            },
            dec_val(s@.subrange(a as int, k as int)) >= 0,
        decreases b - k,
    {
        let u = s[k] as u32;
        if u < 48 || u > 57 {
            proof {
                assert(s@.subrange(a as int, b as int)[k - a] == s@[k as int]);
                assert(!is_digit(s@.subrange(a as int, b as int)[k - a]));
                assert(!all_digits(s@.subrange(a as int, b as int)));
            }
            return None;
        }
        let d = u - 48;
        proof {
            let pre = s@.subrange(a as int, k as int);
            let cur = s@.subrange(a as int, k + 1);
            assert(cur.drop_last() =~= pre);
            assert(cur.last() == s@[k as int]);
        }
        if val <= 0x10FFFF {
            val = val * 10 + d;
        }
        if val > 0x10FFFF {
            val = 0x110000;
        }
        k += 1;
    }
    proof {
        assert(digits =~= s@.subrange(a as int, b as int));
    }
    if val < 0xD800 || (val > 0xDFFF && val <= 0x10FFFF) {
        let c = char_from_u32(val);
        proof {
            assert(is_scalar_value(dec_val(digits)));
        }
        c
    } else {
        proof {
            if val == 0x110000 {
                assert(dec_val(digits) > 0x10FFFF);
            } else {
                assert(val == dec_val(digits));
            }
            assert(!is_scalar_value(dec_val(digits)));
        }
        None
    }
}

/// The named-reference pass over a character vector.
fn decode_named_exec(s: &[char]) -> (out: Vec<char>)
    ensures
        out@ == decode_named(s@),
{
    let p_quot = chars_vec("&quot;");
    let p_amp = chars_vec("&amp;");
    let p_lt = chars_vec("&lt;");
    let p_gt = chars_vec("&gt;");
    let p_dec39 = chars_vec("&#39;");
    let p_apos = chars_vec("&apos;");
    let p_hex27 = chars_vec("&#x27;");
    let p_hex2f = chars_vec("&#x2F;");
    let p_br = chars_vec("<br/>");
    let p_br_sp = chars_vec("<br />");
    proof {
        reveal_strlit("&quot;");
        reveal_strlit("&amp;");
        reveal_strlit("&lt;");
        reveal_strlit("&gt;");
        reveal_strlit("&#39;");
        reveal_strlit("&apos;");
        reveal_strlit("&#x27;");
        reveal_strlit("&#x2F;");
        reveal_strlit("<br/>");
        reveal_strlit("<br />");
        assert(p_quot@ =~= pat_quot());
        assert(p_amp@ =~= pat_amp());
        assert(p_lt@ =~= pat_lt());
        assert(p_gt@ =~= pat_gt());
        assert(p_dec39@ =~= pat_dec39());
        assert(p_apos@ =~= pat_apos());
        assert(p_hex27@ =~= pat_hex27());
        assert(p_hex2f@ =~= pat_hex2f());
        assert(p_br@ =~= pat_br());
        assert(p_br_sp@ =~= pat_br_sp());
    }
    let n = s.len();
    let mut out: Vec<char> = Vec::new();
    let mut i: usize = 0;
    proof {
        assert(s@.skip(0) =~= s@);
        assert(out@ + decode_named(s@) =~= decode_named(s@));
    }
    while i < n
        invariant
            n == s@.len(),
            i <= n,
            decode_named(s@) == out@ + decode_named(s@.skip(i as int)),
            p_quot@ == pat_quot(),
            p_amp@ == pat_amp(),
            p_lt@ == pat_lt(),
            p_gt@ == pat_gt(),
            p_dec39@ == pat_dec39(),
            p_apos@ == pat_apos(),
            p_hex27@ == pat_hex27(),
            p_hex2f@ == pat_hex2f(),
            p_br@ == pat_br(),
            p_br_sp@ == pat_br_sp(),
        decreases n - i,
    {
        proof {
            lemma_match_shift(s@, pat_quot(), i as int, i as int);
            lemma_match_shift(s@, pat_amp(), i as int, i as int);
            lemma_match_shift(s@, pat_lt(), i as int, i as int);
            lemma_match_shift(s@, pat_gt(), i as int, i as int);
            lemma_match_shift(s@, pat_dec39(), i as int, i as int);
            lemma_match_shift(s@, pat_apos(), i as int, i as int);
            lemma_match_shift(s@, pat_hex27(), i as int, i as int);
            lemma_match_shift(s@, pat_hex2f(), i as int, i as int);
            lemma_match_shift(s@, pat_br(), i as int, i as int);
            lemma_match_shift(s@, pat_br_sp(), i as int, i as int);
        }
        let ghost tail = s@.skip(i as int);
        if check_match_at(s, p_quot.as_slice(), i) {
            out.push('"');
            proof {
                assert(tail.skip(6) =~= s@.skip(i + 6));
            }
            i += 6;
        } else if check_match_at(s, p_amp.as_slice(), i) {
            out.push('&');
            proof {
                assert(tail.skip(5) =~= s@.skip(i + 5));
            }
            i += 5;
        } else if check_match_at(s, p_lt.as_slice(), i) {
            out.push('<');
            proof {
                assert(tail.skip(4) =~= s@.skip(i + 4));
            }
            i += 4;
        } else if check_match_at(s, p_gt.as_slice(), i) {
            out.push('>');
            proof {
                assert(tail.skip(4) =~= s@.skip(i + 4));
            }
            i += 4;
        } else if check_match_at(s, p_dec39.as_slice(), i) {
            out.push('\'');
            proof {
                assert(tail.skip(5) =~= s@.skip(i + 5));
            }
            i += 5;
        } else if check_match_at(s, p_apos.as_slice(), i) {
            out.push('\'');
            proof {
                assert(tail.skip(6) =~= s@.skip(i + 6));
            }
            i += 6;
        } else if check_match_at(s, p_hex27.as_slice(), i) {
            out.push('\'');
            proof {
                assert(tail.skip(6) =~= s@.skip(i + 6));
            }
            i += 6;
        } else if check_match_at(s, p_hex2f.as_slice(), i) {
            out.push('/');
            proof {
                assert(tail.skip(6) =~= s@.skip(i + 6));
            }
            i += 6;
        } else if check_match_at(s, p_br.as_slice(), i) {
            out.push('\n');
            proof {
                assert(tail.skip(5) =~= s@.skip(i + 5));
            }
            i += 5;
        } else if check_match_at(s, p_br_sp.as_slice(), i) {
            out.push('\n');
            proof {
                assert(tail.skip(6) =~= s@.skip(i + 6));
            }
            i += 6;
        } else {
            out.push(s[i]);
            proof {
                assert(tail[0] == s@[i as int]);
                assert(tail.skip(1) =~= s@.skip(i + 1));
            }
            i += 1;
        }
    }
    proof {
        assert(s@.skip(n as int) =~= Seq::<char>::empty());
    }
    out
}

/// The numeric-reference pass over a character vector.
fn decode_numeric_exec(s: &[char]) -> (out: Vec<char>)
    ensures
        out@ == decode_numeric(s@),
{
    let p_semi = chars_vec(";");
    proof {
        reveal_strlit(";");
        assert(p_semi@ =~= semi());
    }
    let n = s.len();
    let mut out: Vec<char> = Vec::new();
    let mut i: usize = 0;
    proof {
        assert(s@.skip(0) =~= s@);
        assert(out@ + decode_numeric(s@) =~= decode_numeric(s@));
    }
    while i < n
        invariant
            n == s@.len(),
            i <= n,
            p_semi@ == semi(),
            decode_numeric(s@) == out@ + decode_numeric(s@.skip(i as int)),
        decreases n - i,
    {
        let ghost tail = s@.skip(i as int);
        if s[i] == '&' && i + 1 < n && s[i + 1] == '#' {
            proof {
                lemma_find_shift(s@, semi(), i as int, i + 2);
            }
            match find_from(s, p_semi.as_slice(), i + 2) {
                Some(j) => {
                    proof {
                        assert(tail[0] == '&' && tail[1] == '#');
                        assert(spec_find(tail, semi(), 2) == Some(j - i));
                        assert(numeric_start(tail));
                        assert(tail.subrange(2, j - i) =~= s@.subrange(i + 2, j as int));
                        assert(tail.skip(j - i + 1) =~= s@.skip(j + 1));
                    }
                    match parse_entity(s, i + 2, j) {
                        Some(c) => {
                            out.push(c);
                        },
                        None => {
                        },
                    }
                    i = j + 1;
                },
                None => {
                    proof {
                        assert(!numeric_start(tail));
                        assert(tail[0] == s@[i as int]);
                        assert(tail.skip(1) =~= s@.skip(i + 1));
                    }
                    out.push(s[i]);
                    i += 1;
                },
            }
        } else {
            proof {
                if numeric_start(tail) {
                    assert(s@[i as int] == '&' && i + 1 < n && s@[i + 1] == '#');
                }
                assert(tail[0] == s@[i as int]);
                assert(tail.skip(1) =~= s@.skip(i + 1));
            }
            out.push(s[i]);
            i += 1;
        }
    }
    proof {
        assert(s@.skip(n as int) =~= Seq::<char>::empty());
    }
    out
}

/// Both decoding passes over a character vector.
pub fn decode_fragment(s: &[char]) -> (out: Vec<char>)
    ensures
        out@ == spec_decode(s@),
{
    let pass1 = decode_named_exec(s);
    decode_numeric_exec(pass1.as_slice())
}

/// Decodes named and numeric character references embedded in a text
/// fragment.  Total: malformed references are deleted, never an error.
pub fn decode_html_entities(text: &str) -> (r: String)
    ensures
        r@ == spec_decode(text@),
{
    let v = chars_vec(text);
    chars_string(decode_fragment(v.as_slice()).as_slice())
}

/// A numeric reference that cannot be decoded is deleted, not kept: when the
/// head of `s` is `&#` with its run up to the first `;` failing to parse as
/// a Unicode scalar value, decoding resumes directly after that `;`, leaving
/// the empty string at the reference's position; the decodable case instead
/// contributes exactly the denoted character.
pub proof fn lemma_numeric_reference_resolved(s: Seq<char>)
    requires
        numeric_start(s),
    ensures
        ({
            let j = spec_find(s, semi(), 2)->0;
            match numeric_entity_char(s.subrange(2, j)) {
                None => decode_numeric(s) == decode_numeric(s.skip(j + 1)),
                Some(c) => decode_numeric(s) == seq![c] + decode_numeric(s.skip(j + 1)),
            }
        }),
{
}

/// A named reference (or break tag) occurs in `s` at `i`.
pub open spec fn named_ref_at(s: Seq<char>, i: int) -> bool {
    ||| match_at(s, pat_quot(), i)
    ||| match_at(s, pat_amp(), i)
    ||| match_at(s, pat_lt(), i)
    ||| match_at(s, pat_gt(), i)
    ||| match_at(s, pat_dec39(), i)
    ||| match_at(s, pat_apos(), i)
    ||| match_at(s, pat_hex27(), i)
    ||| match_at(s, pat_hex2f(), i)
    ||| match_at(s, pat_br(), i)
    ||| match_at(s, pat_br_sp(), i)
}

/// A numeric-reference candidate occurs in `s` at `i`.
pub open spec fn numeric_ref_at(s: Seq<char>, i: int) -> bool {
    &&& 0 <= i
    &&& i + 2 <= s.len()
    &&& s[i] == '&'
    &&& s[i + 1] == '#'
    &&& spec_find(s, semi(), i + 2) is Some
}

/// `s` holds no character reference at any position.
pub open spec fn entity_free(s: Seq<char>) -> bool {
    forall|i: int| !named_ref_at(s, i) && !numeric_ref_at(s, i)
}

proof fn lemma_named_pass_id(s: Seq<char>)
    requires
        forall|i: int| !named_ref_at(s, i),
    ensures
        decode_named(s) == s,
    decreases s.len(),
{
    assert(!named_ref_at(s, 0));
    if s.len() == 0 {
        assert(decode_named(s) =~= s);
    } else {
        assert forall|i: int| !named_ref_at(s.skip(1), i) by {
            if i >= 0 {
                lemma_match_shift(s, pat_quot(), 1, i + 1);
                lemma_match_shift(s, pat_amp(), 1, i + 1);
                lemma_match_shift(s, pat_lt(), 1, i + 1);
                lemma_match_shift(s, pat_gt(), 1, i + 1);
                lemma_match_shift(s, pat_dec39(), 1, i + 1);
                lemma_match_shift(s, pat_apos(), 1, i + 1);
                lemma_match_shift(s, pat_hex27(), 1, i + 1);
                lemma_match_shift(s, pat_hex2f(), 1, i + 1);
                lemma_match_shift(s, pat_br(), 1, i + 1);
                lemma_match_shift(s, pat_br_sp(), 1, i + 1);
                assert(!named_ref_at(s, i + 1));
            }
        }
        lemma_named_pass_id(s.skip(1));
        assert(decode_named(s) =~= s);
    }
}

proof fn lemma_numeric_pass_id(s: Seq<char>)
    requires
        forall|i: int| !numeric_ref_at(s, i),
    ensures
        decode_numeric(s) == s,
    decreases s.len(),
{
    if numeric_start(s) {
        lemma_find_shift(s, semi(), 0, 2);
        assert(s.skip(0) =~= s);
        assert(numeric_ref_at(s, 0));
    }
    if s.len() == 0 {
        assert(decode_numeric(s) =~= s);
    } else {
        assert forall|i: int| !numeric_ref_at(s.skip(1), i) by {
            if 0 <= i && i + 2 <= s.skip(1).len() {
                lemma_find_shift(s, semi(), 1, i + 3);
                assert(!numeric_ref_at(s, i + 1));
            }
        }
        lemma_numeric_pass_id(s.skip(1));
        assert(decode_numeric(s) =~= s);
    }
}

/// Decoding is the identity on text that is already plain: when no named or
/// numeric character reference occurs anywhere in the input, the output
/// equals the input.
pub proof fn lemma_decode_entity_free(s: Seq<char>)
    requires
        entity_free(s),
    ensures
        spec_decode(s) == s,
{
    lemma_named_pass_id(s);
    lemma_numeric_pass_id(s);
}

} // verus!

//! Regular-expression searches over text, through the `regex` crate.
//!
//! Each search compiles its pattern with `regex::Regex::new` and runs one
//! search method. What a search finds takes pages to state, so each result
//! is named by a spec function of the pattern and the haystack. Match
//! positions come from the crate as byte offsets; `char_index_at_byte`
//! turns them into positions in the haystack's character sequence.

use vstd::prelude::*;

verus! {

/// What `Regex::new(pattern)` followed by `captures(text)` finds: `None`
/// when the pattern does not compile or nothing matches, else the text of
/// each capture group of the leftmost match (group 0 first), `None` for a
/// group that did not take part in the match.
pub uninterp spec fn regex_first_captures(pattern: Seq<char>, text: Seq<char>) -> Option<
    Seq<Option<Seq<char>>>,
>;

/// What `Regex::new(pattern)` followed by `captures_iter(text)` yields: the
/// capture groups of each successive non-overlapping match (empty when the
/// pattern does not compile).
pub uninterp spec fn regex_all_captures(pattern: Seq<char>, text: Seq<char>) -> Seq<
    Seq<Option<Seq<char>>>,
>;

/// What `Regex::new(pattern)` followed by `find_iter(text)` yields: the
/// byte range `(start, end)` of each successive non-overlapping match
/// (empty when the pattern does not compile).
pub uninterp spec fn regex_match_spans(pattern: Seq<char>, text: Seq<char>) -> Seq<(usize, usize)>;

/// What `Regex::new(pattern)` followed by `replace_all(text, replacement)`
/// gives: `None` when the pattern does not compile.
pub uninterp spec fn regex_replaced(
    pattern: Seq<char>,
    text: Seq<char>,
    replacement: Seq<char>,
) -> Option<Seq<char>>;

/// `regex::Regex::new` and `Regex::captures`: the texts of the capture
/// groups of the leftmost match. Claimed: the result is
/// `regex_first_captures` of the pattern and the haystack.
#[verifier::external_body]
pub(crate) fn regex_captures(pattern: &str, text: &str) -> (res: Option<Vec<Option<String>>>)
    ensures
        res.deep_view() == regex_first_captures(pattern@, text@),
{
    let re = regex::Regex::new(pattern).ok()?;
    let caps = re.captures(text)?;
    Some(caps.iter().map(|m| m.map(|m| m.as_str().to_string())).collect())
}

/// `regex::Regex::new` and `Regex::captures_iter`: the capture-group texts
/// of every match. Claimed: the result is `regex_all_captures` of the
/// pattern and the haystack.
#[verifier::external_body]
pub(crate) fn regex_captures_all(pattern: &str, text: &str) -> (res: Vec<Vec<Option<String>>>)
    ensures
        res.deep_view() == regex_all_captures(pattern@, text@),
{
    let Ok(re) = regex::Regex::new(pattern) else {
        return Vec::new();
    };
    re.captures_iter(text).map(|caps| caps.iter().map(|m| m.map(|m| m.as_str().to_string())).collect()).collect()
}

/// `regex::Regex::new` and `Regex::find_iter`: the byte range of every
/// match. Claimed: the result is `regex_match_spans` of the pattern and the
/// haystack, and, as the crate documents for `Match` and `find_iter`, each
/// range has `start <= end` and the matches come in order without overlap.
#[verifier::external_body]
pub(crate) fn regex_find_spans(pattern: &str, text: &str) -> (res: Vec<(usize, usize)>)
    ensures
        res@ == regex_match_spans(pattern@, text@),
        forall|i: int| 0 <= i < res@.len() ==> (#[trigger] res@[i]).0 <= res@[i].1,
        forall|i: int, j: int| 0 <= i < j < res@.len() ==> (#[trigger] res@[i]).1 <= (#[trigger] res@[j]).0,
{
    let Ok(re) = regex::Regex::new(pattern) else {
        return Vec::new();
    };
    re.find_iter(text).map(|m| (m.start(), m.end())).collect()
}

/// `regex::Regex::new` and `Regex::replace_all`. Claimed: the result is
/// `regex_replaced` of the pattern, the haystack and the replacement.
#[verifier::external_body]
pub(crate) fn regex_replace_all(pattern: &str, text: &str, replacement: &str) -> (res: Option<String>)
    ensures
        res.deep_view() == regex_replaced(pattern@, text@, replacement@),
{
    let re = regex::Regex::new(pattern).ok()?;
    Some(re.replace_all(text, replacement).into_owned())
}

/// Capture group `group` of a search result, if it took part in the match.
pub open spec fn capture_group_of(caps: Option<Seq<Option<Seq<char>>>>, group: int) -> Option<
    Seq<char>,
> {
    match caps {
        Some(groups) => if 0 <= group < groups.len() {
            groups[group]
        } else {
            None
        },
        None => None,
    }
}

/// Group `group` of a list of capture groups.
pub open spec fn group_of(groups: Seq<Option<Seq<char>>>, group: int) -> Option<Seq<char>> {
    if 0 <= group < groups.len() {
        groups[group]
    } else {
        None
    }
}

/// Capture group `group` of the leftmost match of `pattern` in `text`.
pub fn capture_group(pattern: &str, text: &str, group: usize) -> (res: Option<String>)
    ensures
        res.deep_view() == capture_group_of(regex_first_captures(pattern@, text@), group as int),
{
    let caps = regex_captures(pattern, text);
    match caps {
        Some(groups) => {
            if group < groups.len() {
                let g = &groups[group];
                match g {
                    Some(s) => Some(s.clone()),
                    None => None,
                }
            } else {
                None
            }
        },
        None => None,
    }
}

/// Group `group` of one match's capture groups.
pub fn group_text(groups: &Vec<Option<String>>, group: usize) -> (res: Option<String>)
    ensures
        res.deep_view() == group_of(groups.deep_view(), group as int),
{
    if group < groups.len() {
        match &groups[group] {
            Some(s) => Some(s.clone()),
            None => None,
        }
    } else {
        None
    }
}

/// Number of bytes of the UTF-8 encoding of `c`.
pub open spec fn utf8_width(c: char) -> int {
    if (c as u32) < 0x80 {
        1
    } else if (c as u32) < 0x800 {
        2
    } else if (c as u32) < 0x10000 {
        3
    } else {
        4
    }
}

/// The number of leading characters of `s` whose UTF-8 encoding fits in the
/// first `b` bytes: the character position of byte offset `b` when `b` is a
/// character boundary.
pub open spec fn char_index_at_byte(s: Seq<char>, b: int) -> nat
    decreases s.len(),
{
    if s.len() == 0 || b < utf8_width(s[0]) {
        0
    } else {
        1 + char_index_at_byte(s.drop_first(), b - utf8_width(s[0]))
    }
}

pub proof fn lemma_char_index_bounds(s: Seq<char>, b1: int, b2: int)
    ensures
        char_index_at_byte(s, b1) <= s.len(),
        b1 <= b2 ==> char_index_at_byte(s, b1) <= char_index_at_byte(s, b2),
    decreases s.len(),
{
    if s.len() > 0 {
        lemma_char_index_bounds(s.drop_first(), b1 - utf8_width(s[0]), b2 - utf8_width(s[0]));
    }
}

/// `char::len_utf8`.
pub fn char_utf8_width(c: char) -> (w: usize)
    ensures
        w == utf8_width(c),
{
    let u = c as u32;
    if u < 0x80 {
        1
    } else if u < 0x800 {
        2
    } else if u < 0x10000 {
        3
    } else {
        4
    }
}

/// The character position of byte offset `b` in `s`.
pub fn char_index_of_byte(s: &Vec<char>, b: usize) -> (res: usize)
    ensures
        res == char_index_at_byte(s@, b as int),
{
    let n = s.len();
    let mut i: usize = 0;
    let mut used: usize = 0;
    assert(s@.skip(0) =~= s@);
    while i < n && char_utf8_width(s[i]) <= b - used
        invariant
            n == s.len(),
            i <= n,
            used <= b,
            char_index_at_byte(s@, b as int) == i + char_index_at_byte(s@.skip(i as int), b - used),
        decreases n - i,
    {
        let w = char_utf8_width(s[i]);
        assert(s@.skip(i as int).drop_first() =~= s@.skip(i + 1));
        used = used + w;
        i = i + 1;
    }
    proof {
        if i < n {
            assert(s@.skip(i as int)[0] == s@[i as int]);
        }
    }
    i
}

/// The span of a match, as character positions in `s`.
pub open spec fn char_span(s: Seq<char>, span: (usize, usize)) -> (int, int) {
    (char_index_at_byte(s, span.0 as int) as int, char_index_at_byte(s, span.1 as int) as int)
}

/// Byte ranges in the text whose characters are `chars`, as character
/// ranges.
pub fn char_spans_of(chars: &Vec<char>, spans: &Vec<(usize, usize)>) -> (res: Vec<(usize, usize)>)
    requires
        forall|k: int| 0 <= k < spans@.len() ==> (#[trigger] spans@[k]).0 <= spans@[k].1,
    ensures
        res@.len() == spans@.len(),
        forall|i: int|
            0 <= i < res@.len() ==> (#[trigger] res@[i]).0 == char_span(chars@, spans@[i]).0
                && res@[i].1 == char_span(chars@, spans@[i]).1,
        forall|i: int| 0 <= i < res@.len() ==> (#[trigger] res@[i]).0 <= res@[i].1 <= chars@.len(),
{
    let mut res: Vec<(usize, usize)> = Vec::new();
    let n = spans.len();
    for i in 0..n
        invariant
            n == spans@.len(),
            forall|k: int| 0 <= k < n ==> (#[trigger] spans@[k]).0 <= spans@[k].1,
            res@.len() == i,
            forall|k: int|
                0 <= k < i ==> (#[trigger] res@[k]).0 == char_span(chars@, spans@[k]).0 && res@[k].1
                    == char_span(chars@, spans@[k]).1,
            forall|k: int| 0 <= k < i ==> (#[trigger] res@[k]).0 <= res@[k].1 <= chars@.len(),
    {
        let (bs, be) = spans[i];
        let cs = char_index_of_byte(chars, bs);
        let ce = char_index_of_byte(chars, be);
        proof {
            lemma_char_index_bounds(chars@, bs as int, be as int);
            lemma_char_index_bounds(chars@, be as int, be as int);
        }
        res.push((cs, ce));
    }
    res
}

/// The matches of `pattern` in `text` (whose characters are `chars`), as
/// character ranges.
pub fn find_char_spans(pattern: &str, text: &str, chars: &Vec<char>) -> (res: Vec<(usize, usize)>)
    requires
        chars@ == text@,
    ensures
        res@.len() == regex_match_spans(pattern@, text@).len(),
        forall|i: int|
            0 <= i < res@.len() ==> (#[trigger] res@[i]).0 == char_span(
                text@,
                regex_match_spans(pattern@, text@)[i],
            ).0 && res@[i].1 == char_span(text@, regex_match_spans(pattern@, text@)[i]).1,
        forall|i: int| 0 <= i < res@.len() ==> (#[trigger] res@[i]).0 <= res@[i].1 <= text@.len(),
{
    let spans = regex_find_spans(pattern, text);
    char_spans_of(chars, &spans)
}

} // verus!

//! Character-level text operations used by the rest of the library.
//!
//! Text is handled as sequences of `char`; the spec functions here say what
//! the standard string operations the application relies on compute
//! (`trim`, `to_ascii_lowercase`, `starts_with`, `find`, `replace`,
//! `split_whitespace` joined by single spaces, ...).

use vstd::prelude::*;

verus! {

// ---------------------------------------------------------------------------
// Specifications
// ---------------------------------------------------------------------------

/// Unicode `White_Space` characters, as `char::is_whitespace` classifies them.
pub open spec fn is_ws(c: char) -> bool {
    let u = c as u32;
    ||| (0x09 <= u && u <= 0x0D)
    ||| u == 0x20
    ||| u == 0x85
    ||| u == 0xA0
    ||| u == 0x1680
    ||| (0x2000 <= u && u <= 0x200A)
    ||| u == 0x2028
    ||| u == 0x2029
    ||| u == 0x202F
    ||| u == 0x205F
    ||| u == 0x3000
}

pub open spec fn is_ascii_digit(c: char) -> bool {
    '0' <= c && c <= '9'
}

/// Every character is an ASCII digit (true of the empty sequence).
pub open spec fn all_digits(s: Seq<char>) -> bool {
    forall|i: int| 0 <= i < s.len() ==> #[trigger] is_ascii_digit(s[i])
}

pub open spec fn ascii_lower(c: char) -> char {
    if 'A' <= c && c <= 'Z' {
        (((c as u8) + 32) as u8) as char
    } else {
        c
    }
}

/// `to_ascii_lowercase` of a whole sequence.
pub open spec fn lower_ascii(s: Seq<char>) -> Seq<char> {
    s.map_values(|c: char| ascii_lower(c))
}

/// `eq_ignore_ascii_case`.
pub open spec fn eq_ignore_ascii_case(a: Seq<char>, b: Seq<char>) -> bool {
    lower_ascii(a) == lower_ascii(b)
}

/// The sequence without its leading whitespace.
pub open spec fn trim_start(s: Seq<char>) -> Seq<char>
    decreases s.len(),
{
    if s.len() > 0 && is_ws(s[0]) {
        trim_start(s.drop_first())
    } else {
        s
    }
}

/// The sequence without its trailing whitespace.
pub open spec fn trim_end(s: Seq<char>) -> Seq<char>
    decreases s.len(),
{
    if s.len() > 0 && is_ws(s.last()) {
        trim_end(s.drop_last())
    } else {
        s
    }
}

/// `str::trim`: leading and trailing whitespace removed.
pub open spec fn trim(s: Seq<char>) -> Seq<char> {
    trim_end(trim_start(s))
}

/// `str::starts_with`.
pub open spec fn starts_with(s: Seq<char>, p: Seq<char>) -> bool {
    p.len() <= s.len() && s.take(p.len() as int) == p
}

/// `str::ends_with`.
pub open spec fn ends_with(s: Seq<char>, p: Seq<char>) -> bool {
    p.len() <= s.len() && s.skip(s.len() - p.len()) == p
}

/// `p` occurs in `s` starting at index `i`.
pub open spec fn matches_at(s: Seq<char>, p: Seq<char>, i: int) -> bool {
    0 <= i && i + p.len() <= s.len() && s.subrange(i, i + p.len()) == p
}

/// The first index at or after `i` where `p` occurs in `s`.
pub open spec fn find_from(s: Seq<char>, p: Seq<char>, i: int) -> Option<int>
    decreases s.len() + 1 - i,
{
    if i < 0 || i + p.len() > s.len() {
        None
    } else if matches_at(s, p, i) {
        Some(i)
    } else {
        find_from(s, p, i + 1)
    }
}

/// `str::find`: the first index where `p` occurs in `s`.
pub open spec fn find(s: Seq<char>, p: Seq<char>) -> Option<int> {
    find_from(s, p, 0)
}

/// `str::contains`.
pub open spec fn contains(s: Seq<char>, p: Seq<char>) -> bool {
    exists|i: int| matches_at(s, p, i)
}

/// `str::replace` applied to the part of `s` from index `i` on: each
/// leftmost non-overlapping occurrence of `from` becomes `to`.
pub open spec fn replace_from(s: Seq<char>, from: Seq<char>, to: Seq<char>, i: int) -> Seq<char>
    decreases s.len() - i,
{
    if i < 0 || i > s.len() || from.len() == 0 {
        s.skip(i)
    } else {
        match find_from(s, from, i) {
            Some(k) => if i <= k && k + from.len() <= s.len() {
                s.subrange(i, k) + to + replace_from(s, from, to, k + from.len())
            } else {
                s.skip(i)
            },
            None => s.skip(i),
        }
    }
}

/// `str::replace(from, to)` for a non-empty `from`.
pub open spec fn replace_all(s: Seq<char>, from: Seq<char>, to: Seq<char>) -> Seq<char> {
    replace_from(s, from, to, 0)
}

/// State of reading `s` word by word: the words seen so far joined by
/// single spaces, and whether whitespace has followed the last word.
pub open spec fn collapse_state(s: Seq<char>) -> (Seq<char>, bool)
    decreases s.len(),
{
    if s.len() == 0 {
        (Seq::empty(), false)
    } else {
        let (out, gap) = collapse_state(s.drop_last());
        let c = s.last();
        if is_ws(c) {
            (out, out.len() > 0)
        } else if gap {
            (out.push(' ').push(c), false)
        } else {
            (out.push(c), false)
        }
    }
}

/// `s.split_whitespace().collect::<Vec<_>>().join(" ")`.
pub open spec fn collapse_ws(s: Seq<char>) -> Seq<char> {
    collapse_state(s).0
}

// ---------------------------------------------------------------------------
// Lemmas
// ---------------------------------------------------------------------------

pub proof fn lemma_find_from_some(s: Seq<char>, p: Seq<char>, i: int)
    requires
        0 <= i,
    ensures
        find_from(s, p, i) matches Some(k) ==> {
            &&& i <= k
            &&& matches_at(s, p, k)
            &&& forall|j: int| i <= j < k ==> !matches_at(s, p, j)
        },
        find_from(s, p, i) is None ==> forall|j: int| i <= j ==> !matches_at(s, p, j),
    decreases s.len() + 1 - i,
{
    if i + p.len() > s.len() {
    } else if matches_at(s, p, i) {
    } else {
        lemma_find_from_some(s, p, i + 1);
    }
}

proof fn lemma_trim_start_skip(s: Seq<char>, k: int)
    requires
        0 <= k <= s.len(),
        forall|j: int| 0 <= j < k ==> is_ws(#[trigger] s[j]),
    ensures
        trim_start(s) == trim_start(s.skip(k)),
    decreases k,
{
    if k > 0 {
        assert(is_ws(s[0]));
        let t = s.drop_first();
        assert forall|j: int| 0 <= j < k - 1 implies is_ws(#[trigger] t[j]) by {
            assert(t[j] == s[j + 1]);
        }
        lemma_trim_start_skip(t, k - 1);
        assert(t.skip(k - 1) =~= s.skip(k));
    } else {
        assert(s.skip(0) =~= s);
    }
}

proof fn lemma_trim_end_take(s: Seq<char>, k: int)
    requires
        0 <= k <= s.len(),
        forall|j: int| k <= j < s.len() ==> is_ws(#[trigger] s[j]),
    ensures
        trim_end(s) == trim_end(s.take(k)),
    decreases s.len() - k,
{
    if k < s.len() {
        assert(is_ws(s[s.len() - 1]));
        let t = s.drop_last();
        assert forall|j: int| k <= j < t.len() implies is_ws(#[trigger] t[j]) by {
            assert(t[j] == s[j]);
        }
        lemma_trim_end_take(t, k);
        assert(t.take(k) =~= s.take(k));
    } else {
        assert(s.take(k) =~= s);
    }
}

// ---------------------------------------------------------------------------
// Executable operations
// ---------------------------------------------------------------------------

/// Appends one character to a `String` (`String::push`).
#[verifier::external_body]
pub(crate) fn push_char(s: &mut String, c: char)
    ensures
        final(s)@ == old(s)@.push(c),
{
    s.push(c);
}

/// The characters of `s`, in order.
pub fn chars_of(s: &str) -> (res: Vec<char>)
    ensures
        res@ == s@,
{
    let mut res: Vec<char> = Vec::new();
    for c in it: s.chars()
        invariant
            res@ == it.seq().take(it.index() as int),
    {
        res.push(c);
    }
    res
}

/// The string made of the characters of `v`.
pub fn string_of(v: &Vec<char>) -> (res: String)
    ensures
        res@ == v@,
{
    let mut res = String::new();
    let n = v.len();
    for i in 0..n
        invariant
            n == v.len(),
            res@ == v@.take(i as int),
    {
        push_char(&mut res, v[i]);
        assert(v@.take(i + 1) =~= v@.take(i as int).push(v@[i as int]));
    }
    assert(v@.take(n as int) =~= v@);
    res
}

/// A copy of `v[from..to]`.
pub fn slice_chars(v: &Vec<char>, from: usize, to: usize) -> (res: Vec<char>)
    requires
        from <= to <= v.len(),
    ensures
        res@ == v@.subrange(from as int, to as int),
{
    let mut res: Vec<char> = Vec::new();
    let mut i = from;
    while i < to
        invariant
            from <= i <= to <= v.len(),
            res@ == v@.subrange(from as int, i as int),
        decreases to - i,
    {
        res.push(v[i]);
        assert(v@.subrange(from as int, i + 1) =~= v@.subrange(from as int, i as int).push(
            v@[i as int],
        ));
        i = i + 1;
    }
    res
}

/// `a` followed by `b`.
pub fn concat_chars(a: &Vec<char>, b: &Vec<char>) -> (res: Vec<char>)
    ensures
        res@ == a@ + b@,
{
    let mut res = a.clone();
    let n = b.len();
    for i in 0..n
        invariant
            n == b.len(),
            res@ == a@ + b@.take(i as int),
    {
        res.push(b[i]);
        assert(b@.take(i + 1) =~= b@.take(i as int).push(b@[i as int]));
        assert(a@ + b@.take(i + 1) =~= (a@ + b@.take(i as int)).push(b@[i as int]));
    }
    assert(b@.take(n as int) =~= b@);
    res
}

/// `char::is_whitespace`.
pub fn is_whitespace_char(c: char) -> (res: bool)
    ensures
        res == is_ws(c),
{
    let u = c as u32;
    (0x09 <= u && u <= 0x0D) || u == 0x20 || u == 0x85 || u == 0xA0 || u == 0x1680 || (0x2000
        <= u && u <= 0x200A) || u == 0x2028 || u == 0x2029 || u == 0x202F || u == 0x205F || u
        == 0x3000
}

/// `char::to_ascii_lowercase`.
pub fn ascii_lower_char(c: char) -> (res: char)
    ensures
        res == ascii_lower(c),
{
    if 'A' <= c && c <= 'Z' {
        ((c as u8) + 32) as char
    } else {
        c
    }
}

/// `to_ascii_lowercase` of a character sequence.
pub fn lower_ascii_chars(v: &Vec<char>) -> (res: Vec<char>)
    ensures
        res@ == lower_ascii(v@),
{
    let mut res: Vec<char> = Vec::new();
    let n = v.len();
    for i in 0..n
        invariant
            n == v.len(),
            res@ == lower_ascii(v@.take(i as int)),
    {
        res.push(ascii_lower_char(v[i]));
        assert(lower_ascii(v@.take(i + 1)) =~= lower_ascii(v@.take(i as int)).push(
            ascii_lower(v@[i as int]),
        ));
    }
    assert(v@.take(n as int) =~= v@);
    res
}

/// Every character is an ASCII digit.
pub fn all_digits_chars(v: &Vec<char>) -> (res: bool)
    ensures
        res == all_digits(v@),
{
    let n = v.len();
    for i in 0..n
        invariant
            n == v.len(),
            forall|j: int| 0 <= j < i ==> #[trigger] is_ascii_digit(v@[j]),
    {
        if !('0' <= v[i] && v[i] <= '9') {
            assert(!is_ascii_digit(v@[i as int]));
            return false;
        }
    }
    true
}

/// `str::trim` on a character sequence.
pub fn trim_chars(v: &Vec<char>) -> (res: Vec<char>)
    ensures
        res@ == trim(v@),
{
    let n = v.len();
    let mut a: usize = 0;
    while a < n && is_whitespace_char(v[a])
        invariant
            n == v.len(),
            a <= n,
            forall|j: int| 0 <= j < a ==> is_ws(#[trigger] v@[j]),
        decreases n - a,
    {
        a = a + 1;
    }
    proof {
        lemma_trim_start_skip(v@, a as int);
        if a < n {
            assert(!is_ws(v@.skip(a as int)[0]));
        }
        assert(trim_start(v@.skip(a as int)) == v@.skip(a as int));
    }
    let mut b: usize = n;
    while b > a && is_whitespace_char(v[b - 1])
        invariant
            n == v.len(),
            a <= b <= n,
            forall|j: int| b <= j < n ==> is_ws(#[trigger] v@[j]),
        decreases b - a,
    {
        b = b - 1;
    }
    let res = slice_chars(v, a, b);
    proof {
        let w = v@.skip(a as int);
        let k = (b - a) as int;
        assert forall|j: int| k <= j < w.len() implies is_ws(#[trigger] w[j]) by {
            assert(w[j] == v@[j + a]);
        }
        lemma_trim_end_take(w, k);
        assert(w.take(k) =~= v@.subrange(a as int, b as int));
        if b > a {
            assert(!is_ws(w.take(k).last()));
        }
    }
    res
}

/// `str::trim` returning an owned string.
pub fn trim_str(s: &str) -> (res: String)
    ensures
        res@ == trim(s@),
{
    let v = chars_of(s);
    let t = trim_chars(&v);
    string_of(&t)
}

/// Whether `p` occurs in `s` at index `i`.
pub fn matches_at_chars(s: &Vec<char>, p: &Vec<char>, i: usize) -> (res: bool)
    ensures
        res == matches_at(s@, p@, i as int),
{
    if i > s.len() || p.len() > s.len() - i {
        return false;
    }
    let n = p.len();
    for j in 0..n
        invariant
            n == p.len(),
            i + n <= s.len(),
            forall|k: int| 0 <= k < j ==> s@[i + k] == p@[k],
    {
        if s[i + j] != p[j] {
            assert(s@.subrange(i as int, i + n)[j as int] != p@[j as int]);
            return false;
        }
    }
    assert(s@.subrange(i as int, i + n) =~= p@);
    true
}

/// The first index at or after `start` where `p` occurs in `s`.
pub fn find_chars_from(s: &Vec<char>, p: &Vec<char>, start: usize) -> (res: Option<usize>)
    ensures
        res matches Some(k) ==> find_from(s@, p@, start as int) == Some(k as int),
        res is None ==> find_from(s@, p@, start as int) is None,
{
    let mut i = start;
    while i <= s.len() && p.len() <= s.len() - i
        invariant
            start <= i,
            find_from(s@, p@, start as int) == find_from(s@, p@, i as int),
        decreases s.len() + 1 - i,
    {
        if matches_at_chars(s, p, i) {
            return Some(i);
        }
        if i == s.len() {
            assert(find_from(s@, p@, i + 1) is None);
            return None;
        }
        i = i + 1;
    }
    None
}

/// `str::find`.
pub fn find_chars(s: &Vec<char>, p: &Vec<char>) -> (res: Option<usize>)
    ensures
        res matches Some(k) ==> find(s@, p@) == Some(k as int),
        res is None ==> find(s@, p@) is None,
{
    find_chars_from(s, p, 0)
}

/// `str::contains`.
pub fn contains_chars(s: &Vec<char>, p: &Vec<char>) -> (res: bool)
    ensures
        res == contains(s@, p@),
{
    let r = find_chars(s, p);
    proof {
        lemma_find_from_some(s@, p@, 0);
    }
    r.is_some()
}

/// `str::starts_with`.
pub fn starts_with_chars(s: &Vec<char>, p: &Vec<char>) -> (res: bool)
    ensures
        res == starts_with(s@, p@),
{
    let r = matches_at_chars(s, p, 0);
    proof {
        if p.len() <= s.len() {
            assert(s@.subrange(0, p@.len() as int) =~= s@.take(p@.len() as int));
        }
    }
    r
}

/// `str::ends_with`.
pub fn ends_with_chars(s: &Vec<char>, p: &Vec<char>) -> (res: bool)
    ensures
        res == ends_with(s@, p@),
{
    if p.len() > s.len() {
        return false;
    }
    let r = matches_at_chars(s, p, s.len() - p.len());
    proof {
        assert(s@.subrange(s@.len() - p@.len(), s@.len() as int) =~= s@.skip(
            s@.len() - p@.len(),
        ));
    }
    r
}

/// `str::replace(from, to)`, for a non-empty `from`.
pub fn replace_chars(s: &Vec<char>, from: &Vec<char>, to: &Vec<char>) -> (res: Vec<char>)
    requires
        from.len() > 0,
    ensures
        res@ == replace_all(s@, from@, to@),
{
    let mut out: Vec<char> = Vec::new();
    let mut i: usize = 0;
    assert(s@.skip(0) =~= s@);
    loop
        invariant
            i <= s.len(),
            from.len() > 0,
            out@ + replace_from(s@, from@, to@, i as int) == replace_all(s@, from@, to@),
        decreases s.len() - i,
    {
        let found = find_chars_from(s, from, i);
        proof {
            lemma_find_from_some(s@, from@, i as int);
        }
        match found {
            Some(k) => {
                let piece = slice_chars(s, i, k);
                out = concat_chars(&out, &piece);
                out = concat_chars(&out, to);
                proof {
                    assert(replace_from(s@, from@, to@, i as int) == s@.subrange(i as int, k as int)
                        + to@ + replace_from(s@, from@, to@, k + from@.len()));
                    assert(out@ + replace_from(s@, from@, to@, k + from@.len()) =~= (out@.take(
                        out@.len() - to@.len() - piece@.len(),
                    )) + replace_from(s@, from@, to@, i as int)) by {
                        assert(out@.take(out@.len() - to@.len() - piece@.len()) + piece@ + to@
                            =~= out@);
                    }
                }
                i = k + from.len();
            },
            None => {
                let rest = slice_chars(s, i, s.len());
                out = concat_chars(&out, &rest);
                assert(rest@ =~= s@.skip(i as int));
                return out;
            },
        }
    }
}

/// `s.split_whitespace().collect::<Vec<_>>().join(" ")`.
pub fn collapse_ws_chars(s: &Vec<char>) -> (res: Vec<char>)
    ensures
        res@ == collapse_ws(s@),
{
    let mut out: Vec<char> = Vec::new();
    let mut gap = false;
    let n = s.len();
    for i in 0..n
        invariant
            n == s.len(),
            (out@, gap) == collapse_state(s@.take(i as int)),
    {
        let c = s[i];
        assert(s@.take(i + 1).drop_last() =~= s@.take(i as int));
        if is_whitespace_char(c) {
            gap = out.len() > 0;
        } else {
            if gap {
                out.push(' ');
            }
            out.push(c);
            gap = false;
        }
    }
    assert(s@.take(n as int) =~= s@);
    out
}

/// Shape of text after whitespace collapsing: no whitespace but single
/// spaces, never at either end, never two in a row.
pub open spec fn collapsed_shape(r: Seq<char>) -> bool {
    &&& r.len() > 0 ==> r[0] != ' ' && !is_ws(r.last())
    &&& forall|k: int| 0 <= k < r.len() && is_ws(#[trigger] r[k]) ==> r[k] == ' '
    &&& forall|k: int| 0 <= k < r.len() - 1 && #[trigger] r[k] == ' ' ==> r[k + 1] != ' '
}

proof fn lemma_collapse_state_shape(s: Seq<char>)
    ensures
        collapsed_shape(collapse_state(s).0),
    decreases s.len(),
{
    if s.len() > 0 {
        lemma_collapse_state_shape(s.drop_last());
        let (out, gap) = collapse_state(s.drop_last());
        let c = s.last();
        if !is_ws(c) {
            assert(is_ws(' ')) by {
                assert((' ' as u32) == 0x20);
            }
            let r = collapse_state(s).0;
            if gap {
                assert(r == out.push(' ').push(c));
                assert(out.len() > 0);
                assert forall|k: int| 0 <= k < r.len() && is_ws(#[trigger] r[k]) implies r[k] == ' ' by {
                    if k < out.len() {
                        assert(r[k] == out[k]);
                    }
                }
                assert forall|k: int| 0 <= k < r.len() - 1 && #[trigger] r[k] == ' ' implies r[k + 1] != ' ' by {
                    if k < out.len() - 1 {
                        assert(r[k] == out[k]);
                        assert(r[k + 1] == out[k + 1]);
                    } else if k == out.len() - 1 {
                        assert(r[k] == out.last());
                    }
                }
            } else {
                assert(r == out.push(c));
                assert forall|k: int| 0 <= k < r.len() && is_ws(#[trigger] r[k]) implies r[k] == ' ' by {
                    if k < out.len() {
                        assert(r[k] == out[k]);
                    }
                }
                assert forall|k: int| 0 <= k < r.len() - 1 && #[trigger] r[k] == ' ' implies r[k + 1] != ' ' by {
                    if k < out.len() - 1 {
                        assert(r[k] == out[k]);
                        assert(r[k + 1] == out[k + 1]);
                    } else if k == out.len() - 1 {
                        assert(r[k] == out.last());
                    }
                }
            }
        }
    }
}

/// Collapsed text has no whitespace but single spaces between words, and
/// none at either end.
pub proof fn lemma_collapse_ws_shape(s: Seq<char>)
    ensures
        collapsed_shape(collapse_ws(s)),
{
    lemma_collapse_state_shape(s);
}

// ---------------------------------------------------------------------------
// Decimal numbers
// ---------------------------------------------------------------------------

/// The ASCII digit for `d` (between 0 and 9).
pub open spec fn digit_char(d: int) -> char {
    ((d + 48) as u8) as char
}

/// Decimal notation of `n`, as `format!("{}", n)` writes it.
pub open spec fn decimal(n: nat) -> Seq<char>
    decreases n,
{
    if n < 10 {
        seq![digit_char(n as int)]
    } else {
        decimal(n / 10).push(digit_char((n % 10) as int))
    }
}

/// Decimal notation of a signed number, with a leading `-` when negative.
pub open spec fn signed_decimal(n: int) -> Seq<char> {
    if n < 0 {
        seq!['-'] + decimal((-n) as nat)
    } else {
        decimal(n as nat)
    }
}

fn digit_of(d: u64) -> (c: char)
    requires
        d < 10,
    ensures
        c == digit_char(d as int),
{
    let b: u8 = d as u8;
    (b + 48) as char
}

/// `format!("{}", n)` of an unsigned number.
pub fn decimal_chars(n: u64) -> (res: Vec<char>)
    ensures
        res@ == decimal(n as nat),
    decreases n,
{
    if n < 10 {
        let mut v: Vec<char> = Vec::new();
        v.push(digit_of(n));
        assert(v@ =~= seq![digit_char(n as int)]);
        v
    } else {
        let mut v = decimal_chars(n / 10);
        v.push(digit_of(n % 10));
        v
    }
}

/// `format!("{}", n)` of a signed 32-bit number.
pub fn signed_decimal_chars(n: i32) -> (res: Vec<char>)
    ensures
        res@ == signed_decimal(n as int),
{
    if n < 0 {
        let m: i64 = n as i64;
        let abs: u64 = (-m) as u64;
        let digits = decimal_chars(abs);
        let mut v: Vec<char> = Vec::new();
        v.push('-');
        assert(v@ =~= seq!['-']);
        concat_chars(&v, &digits)
    } else {
        decimal_chars(n as u64)
    }
}

} // verus!

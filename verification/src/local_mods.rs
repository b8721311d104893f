//! Records of the mods installed in the mod folder: reading `mod.info`
//! files, completing a record from Workshop metadata, the installed Workshop
//! ids, poster file names and the order in which mods are listed.

use vstd::prelude::*;
use crate::html::{str_eq, WorkshopLocalFallback};
use crate::pattern::{capture_group_of, regex_first_captures};
use crate::text::{
    all_digits, all_digits_chars, chars_of, concat_chars, ends_with, ends_with_chars, find,
    find_chars, is_ws, lemma_find_from_some, lower_ascii, lower_ascii_chars, matches_at, slice_chars,
    starts_with, starts_with_chars, string_of, trim, trim_chars, trim_end, trim_start,
};
use crate::workshop::{contains_str, ids_of};
use crate::workshop_url::{detail_url, extract_workshop_id, workshop_detail_url, WORKSHOP_ID_PATTERN};

verus! {

/// A mod installed in the mod folder.
#[derive(Clone, Debug)]
pub struct LocalMod {
    pub folder_name: String,
    pub display_name: String,
    pub package_id: String,
    pub authors: String,
    pub mod_version: String,
    pub pz_version: String,
    pub size_bytes: u64,
    pub path: String,
    pub modified_at: String,
    pub workshop_url: String,
    pub workshop_id: String,
    pub poster_path: String,
    pub poster_url: String,
}

/// What `str::to_lowercase` gives (full Unicode lowercase mapping).
pub uninterp spec fn unicode_lowercase(s: Seq<char>) -> Seq<char>;

/// `str::to_lowercase`. Claimed: the result is `unicode_lowercase` of the
/// input, and for all-ASCII input it is the ASCII lowercasing (Unicode maps
/// `A`-`Z` to `a`-`z` and leaves every other ASCII character as it is).
#[verifier::external_body]
pub(crate) fn to_lowercase(s: &str) -> (res: String)
    ensures
        res@ == unicode_lowercase(s@),
        vstd::utf8::is_ascii_chars(s@) ==> res@ == lower_ascii(s@),
{
    s.to_lowercase()
}

/// Lowercase form of a text, as `str::to_lowercase` gives it: for ASCII
/// text, the ASCII lowercasing.
pub open spec fn lowercase_text(s: Seq<char>) -> Seq<char> {
    if vstd::utf8::is_ascii_chars(s) {
        lower_ascii(s)
    } else {
        unicode_lowercase(s)
    }
}

// ---------------------------------------------------------------------------
// mod.info
// ---------------------------------------------------------------------------

/// The pieces of `s` between newline characters.
pub open spec fn split_lines(s: Seq<char>) -> Seq<Seq<char>>
    decreases s.len(),
{
    if s.len() == 0 {
        seq![Seq::empty()]
    } else {
        let parts = split_lines(s.drop_last());
        if s.last() == '\n' {
            parts.push(Seq::empty())
        } else {
            parts.update(parts.len() - 1, parts.last().push(s.last()))
        }
    }
}

/// Index of the first entry from index `i` on whose key is `key`, if any.
pub open spec fn key_index_from(info: Seq<(Seq<char>, Seq<char>)>, key: Seq<char>, i: int) -> Option<int>
    decreases info.len() - i,
{
    if i < 0 || i >= info.len() {
        None
    } else if info[i].0 == key {
        Some(i)
    } else {
        key_index_from(info, key, i + 1)
    }
}

/// Index of the (first) entry for `key`, if any.
pub open spec fn key_index(info: Seq<(Seq<char>, Seq<char>)>, key: Seq<char>) -> Option<int> {
    key_index_from(info, key, 0)
}

proof fn lemma_key_index_from(info: Seq<(Seq<char>, Seq<char>)>, key: Seq<char>, i: int)
    requires
        0 <= i,
    ensures
        key_index_from(info, key, i) matches Some(j) ==> i <= j < info.len() && info[j].0 == key,
        key_index_from(info, key, i) is None ==> forall|k: int| i <= k < info.len() ==> (#[trigger] info[k]).0 != key,
    decreases info.len() - i,
{
    if i < info.len() && info[i].0 != key {
        lemma_key_index_from(info, key, i + 1);
    }
}

/// The entries after reading one line of `mod.info`: blank lines, comments
/// and lines without `=` change nothing; `key = value` adds the entry (key
/// lowercased, both sides trimmed), or appends a non-empty value on a new
/// line of an existing entry.
pub open spec fn mod_info_line(info: Seq<(Seq<char>, Seq<char>)>, line: Seq<char>) -> Seq<(Seq<char>, Seq<char>)> {
    let t = trim(line);
    if (t.len() > 0 && t[0] == '#') || find(t, seq!['=']) is None {
        info
    } else {
        let p = find(t, seq!['=']).unwrap();
        let key = lowercase_text(trim(t.take(p)));
        let value = trim(t.skip(p + 1));
        match key_index(info, key) {
            Some(j) => if value.len() > 0 {
                info.update(j, (key, info[j].1 + seq!['\n'] + value))
            } else {
                info
            },
            None => info.push((key, value)),
        }
    }
}

/// The entries of the lines `lines`, read in order.
pub open spec fn mod_info_lines(lines: Seq<Seq<char>>) -> Seq<(Seq<char>, Seq<char>)>
    decreases lines.len(),
{
    if lines.len() == 0 {
        Seq::empty()
    } else {
        mod_info_line(mod_info_lines(lines.drop_last()), lines.last())
    }
}

/// The entries of a `mod.info` text.
pub open spec fn mod_info_spec(raw: Seq<char>) -> Seq<(Seq<char>, Seq<char>)> {
    mod_info_lines(split_lines(raw))
}

/// No two entries share a key.
pub open spec fn distinct_keys(info: Seq<(Seq<char>, Seq<char>)>) -> bool {
    forall|a: int, b: int| 0 <= a < b < info.len() ==> (#[trigger] info[a]).0 != (#[trigger] info[b]).0
}

/// The value stored for `key`.
pub open spec fn lookup(info: Seq<(Seq<char>, Seq<char>)>, key: Seq<char>) -> Option<Seq<char>> {
    match key_index(info, key) {
        Some(j) => Some(info[j].1),
        None => None,
    }
}

/// The value of the first of `keys[i..]` that is present and not blank.
pub open spec fn first_present_from(info: Seq<(Seq<char>, Seq<char>)>, keys: Seq<Seq<char>>, i: int) -> Option<Seq<char>>
    decreases keys.len() - i,
{
    if i < 0 || i >= keys.len() {
        None
    } else {
        match lookup(info, keys[i]) {
            Some(v) => if trim(v).len() > 0 {
                Some(v)
            } else {
                first_present_from(info, keys, i + 1)
            },
            None => first_present_from(info, keys, i + 1),
        }
    }
}

proof fn lemma_mod_info_line_distinct(info: Seq<(Seq<char>, Seq<char>)>, line: Seq<char>)
    requires
        distinct_keys(info),
    ensures
        distinct_keys(mod_info_line(info, line)),
{
    let r = mod_info_line(info, line);
    let t = trim(line);
    if (t.len() > 0 && t[0] == '#') || find(t, seq!['=']) is None {
    } else {
        let p = find(t, seq!['=']).unwrap();
        let key = lowercase_text(trim(t.take(p)));
        lemma_key_index_from(info, key, 0);
        match key_index(info, key) {
            Some(j) => {
                assert forall|a: int, b: int| 0 <= a < b < r.len() implies (#[trigger] r[a]).0 != (
                #[trigger] r[b]).0 by {
                    assert(r[a].0 == info[a].0);
                    assert(r[b].0 == info[b].0);
                }
            },
            None => {
                assert forall|a: int, b: int| 0 <= a < b < r.len() implies (#[trigger] r[a]).0 != (
                #[trigger] r[b]).0 by {
                    if b == info.len() {
                        assert(info[a].0 != key);
                    }
                }
            },
        }
    }
}

/// Reading a `mod.info` text never gives two entries with one key.
pub proof fn lemma_mod_info_distinct_keys(lines: Seq<Seq<char>>)
    ensures
        distinct_keys(mod_info_lines(lines)),
    decreases lines.len(),
{
    if lines.len() > 0 {
        lemma_mod_info_distinct_keys(lines.drop_last());
        lemma_mod_info_line_distinct(mod_info_lines(lines.drop_last()), lines.last());
    }
}

proof fn lemma_blank_line_changes_nothing(info: Seq<(Seq<char>, Seq<char>)>)
    ensures
        mod_info_line(info, Seq::empty()) == info,
{
    assert(trim(Seq::<char>::empty()) =~= Seq::<char>::empty());
    assert(find(Seq::<char>::empty(), seq!['=']) is None);
}

/// A newline after the last line changes nothing: a `mod.info` text gives
/// the same entries with or without it.
pub proof fn lemma_mod_info_final_newline(raw: Seq<char>)
    ensures
        mod_info_spec(raw + seq!['\n']) == mod_info_spec(raw),
{
    let t = raw + seq!['\n'];
    assert(t.drop_last() =~= raw);
    assert(t.last() == '\n');
    let lines = split_lines(t);
    assert(lines == split_lines(raw).push(Seq::empty()));
    assert(lines.drop_last() =~= split_lines(raw));
    assert(lines.last() =~= Seq::<char>::empty());
    lemma_blank_line_changes_nothing(mod_info_lines(split_lines(raw)));
}

proof fn lemma_split_lines_extend(s: Seq<char>, t: Seq<char>)
    requires
        forall|i: int| 0 <= i < t.len() ==> t[i] != '\n',
    ensures
        split_lines(s).len() > 0,
        split_lines(s + t) == split_lines(s).drop_last().push(split_lines(s).last() + t),
    decreases s.len() + t.len(), t.len(),
{
    if t.len() == 0 {
        assert(s + t =~= s);
        if s.len() > 0 {
            lemma_split_lines_extend(s.drop_last(), t);
        }
        let l = split_lines(s);
        assert(l.last() + t =~= l.last());
        assert(l.drop_last().push(l.last()) =~= l);
    } else {
        let t0 = t.drop_last();
        lemma_split_lines_extend(s, t0);
        let u = s + t;
        assert(u.drop_last() =~= s + t0);
        assert(u.last() == t.last());
        let l = split_lines(s);
        let prev = split_lines(s + t0);
        assert(prev.last() == l.last() + t0);
        assert(t[t.len() - 1] != '\n');
        assert(u.last() != '\n');
        assert(split_lines(u) == prev.update(prev.len() - 1, prev.last().push(u.last())));
        assert((l.last() + t0).push(t.last()) =~= l.last() + t);
        assert(prev.update(prev.len() - 1, prev.last().push(u.last())) =~= l.drop_last().push(l.last() + t));
    }
}

/// Reading a `mod.info` text goes line by line: appending a line (without
/// a newline) to a text that ends with a newline, or to the empty text,
/// reads that line on top of the entries of the text.
pub proof fn lemma_mod_info_appended_line(s: Seq<char>, line: Seq<char>)
    requires
        s.len() == 0 || s.last() == '\n',
        forall|i: int| 0 <= i < line.len() ==> line[i] != '\n',
    ensures
        mod_info_spec(s + line) == mod_info_line(mod_info_spec(s), line),
{
    lemma_split_lines_extend(s, line);
    let l = split_lines(s);
    if s.len() == 0 {
        assert(l == seq![Seq::<char>::empty()]);
    } else {
        assert(l == split_lines(s.drop_last()).push(Seq::empty()));
    }
    assert(l.last() =~= Seq::<char>::empty());
    assert(l.last() + line =~= line);
    let m = l.drop_last().push(line);
    assert(m.drop_last() =~= l.drop_last());
    assert(l.drop_last().push(l.last()) =~= l);
    lemma_blank_line_changes_nothing(mod_info_lines(l.drop_last()));
    assert(mod_info_lines(l) == mod_info_line(mod_info_lines(l.drop_last()), l.last()));
}

proof fn lemma_char_at_least_nul(c: char)
    ensures
        '\0' <= c,
{
}

proof fn lemma_trim_of_unpadded(v: Seq<char>)
    requires
        v.len() > 0 ==> !is_ws(v[0]) && !is_ws(v.last()),
    ensures
        trim(v) == v,
{
    assert(trim_start(v) == v);
    assert(trim_end(v) == v);
}

/// Key of a `mod.info` line written as plain lowercase ASCII: not empty, not
/// starting a comment, without `=`, newlines, whitespace or capitals.
pub open spec fn plain_key(key: Seq<char>) -> bool {
    &&& key.len() > 0
    &&& key[0] != '#'
    &&& forall|i: int|
        0 <= i < key.len() ==> #[trigger] key[i] != '=' && key[i] != '\n' && !is_ws(key[i]) && key[i]
            <= '\u{7f}' && !('A' <= key[i] && key[i] <= 'Z')
}

/// Value of a `mod.info` line without surrounding whitespace or newlines.
pub open spec fn plain_value(value: Seq<char>) -> bool {
    &&& forall|i: int| 0 <= i < value.len() ==> #[trigger] value[i] != '\n'
    &&& value.len() > 0 ==> !is_ws(value[0]) && !is_ws(value.last())
}

proof fn lemma_plain_line_parts(key: Seq<char>, value: Seq<char>)
    requires
        plain_key(key),
        plain_value(value),
    ensures
        ({
            let line = key + seq!['='] + value;
            &&& forall|i: int| 0 <= i < line.len() ==> line[i] != '\n'
            &&& trim(line) == line
            &&& find(line, seq!['=']) == Some(key.len() as int)
            &&& line.take(key.len() as int) == key
            &&& line.skip(key.len() as int + 1) == value
            &&& trim(key) == key
            &&& trim(value) == value
            &&& lowercase_text(key) == key
        }),
{
    let line = key + seq!['='] + value;
    let n: int = key.len() as int;
    assert forall|i: int| 0 <= i < line.len() implies line[i] != '\n' by {
        if i < n {
            assert(line[i] == key[i]);
        } else if i > n {
            assert(line[i] == value[i - n - 1]);
        }
    }
    assert(trim(line) == line) by {
        assert(line[0] == key[0]);
        if value.len() > 0 {
            assert(line.last() == value.last());
        } else {
            assert(line.last() == '=');
        }
        assert(!is_ws('=')) by {
            assert(('=' as u32) == 0x3d);
        }
        lemma_trim_of_unpadded(line);
    }
    assert(find(line, seq!['=']) == Some(n)) by {
        let eq = seq!['='];
        lemma_find_from_some(line, eq, 0);
        assert(line.subrange(n, n + 1) =~= eq);
        assert(matches_at(line, eq, n));
        assert forall|j: int| 0 <= j < n implies !matches_at(line, eq, j) by {
            assert(line.subrange(j, j + 1)[0] == line[j]);
            assert(line[j] == key[j]);
        }
    }
    assert(line.take(n) =~= key);
    assert(line.skip(n + 1) =~= value);
    lemma_trim_of_unpadded(key);
    lemma_trim_of_unpadded(value);
    assert(lowercase_text(key) == key) by {
        assert forall|i: int| 0 <= i < key.len() implies '\0' <= #[trigger] key[i] <= '\u{7f}' by {
            assert(key[i] <= '\u{7f}');
            lemma_char_at_least_nul(key[i]);
        }
        assert(vstd::utf8::is_ascii_chars(key));
        assert(lower_ascii(key) =~= key);
    }
}

proof fn lemma_new_key_line(info: Seq<(Seq<char>, Seq<char>)>, key: Seq<char>, value: Seq<char>)
    requires
        plain_key(key),
        plain_value(value),
        lookup(info, key) is None,
    ensures
        lookup(mod_info_line(info, key + seq!['='] + value), key) == Some(value),
{
    lemma_plain_line_parts(key, value);
    lemma_key_index_from(info, key, 0);
    let r = info.push((key, value));
    assert(mod_info_line(info, key + seq!['='] + value) == r);
    lemma_key_index_from(r, key, 0);
    assert(r[info.len() as int].0 == key);
    if let Some(j) = key_index(r, key) {
        if j < info.len() {
            assert(r[j] == info[j]);
        }
    }
}

/// A line `key=value` naming a key the text does not have yet adds it:
/// appended to a text that ends with a newline (or to the empty text), the
/// key (plain lowercase ASCII) is looked up with exactly that value (given
/// without surrounding whitespace).
pub proof fn lemma_mod_info_new_entry(s: Seq<char>, key: Seq<char>, value: Seq<char>)
    requires
        s.len() == 0 || s.last() == '\n',
        plain_key(key),
        plain_value(value),
        lookup(mod_info_spec(s), key) is None,
    ensures
        lookup(mod_info_spec(s + key + seq!['='] + value), key) == Some(value),
{
    let line = key + seq!['='] + value;
    lemma_plain_line_parts(key, value);
    assert(s + key + seq!['='] + value =~= s + line);
    lemma_mod_info_appended_line(s, line);
    lemma_new_key_line(mod_info_spec(s), key, value);
}

fn key_position(info: &Vec<(String, String)>, key: &str) -> (res: Option<usize>)
    ensures
        res matches Some(j) ==> key_index(info.deep_view(), key@) == Some(j as int) && j
            < info@.len(),
        res is None ==> key_index(info.deep_view(), key@) is None,
{
    let n = info.len();
    for i in 0..n
        invariant
            n == info.len(),
            key_index(info.deep_view(), key@) == key_index_from(info.deep_view(), key@, i as int),
    {
        if str_eq(info[i].0.as_str(), key) {
            assert(info.deep_view()[i as int].0 == key@);
            return Some(i);
        }
    }
    None
}

fn read_mod_info_line(info: &mut Vec<(String, String)>, line: &Vec<char>)
    requires
        distinct_keys(old(info).deep_view()),
    ensures
        final(info).deep_view() == mod_info_line(old(info).deep_view(), line@),
        distinct_keys(final(info).deep_view()),
{
    proof {
        lemma_mod_info_line_distinct(info.deep_view(), line@);
    }
    let t = trim_chars(line);
    if t.len() > 0 && t[0] == '#' {
        return;
    }
    let eq = vec!['='];
    assert(eq@ =~= seq!['=']);
    let p = match find_chars(&t, &eq) {
        Some(p) => p,
        None => return,
    };
    proof {
        lemma_find_from_some(t@, eq@, 0);
    }
    let before = slice_chars(&t, 0, p);
    let after = slice_chars(&t, p + 1, t.len());
    assert(before@ =~= t@.take(p as int));
    assert(after@ =~= t@.skip(p + 1));
    let key_text = trim_chars(&before);
    let key = to_lowercase(string_of(&key_text).as_str());
    let value = trim_chars(&after);
    match key_position(info, key.as_str()) {
        Some(j) => {
            if value.len() > 0 {
                let existing = chars_of(info[j].1.as_str());
                let nl = vec!['\n'];
                assert(nl@ =~= seq!['\n']);
                let joined = concat_chars(&existing, &nl);
                let joined = concat_chars(&joined, &value);
                let ghost old_view = info.deep_view();
                let entry = (key, string_of(&joined));
                info.set(j, entry);
                assert(info.deep_view() =~= old_view.update(j as int, (entry.0@, entry.1@)));
            }
        },
        None => {
            let ghost old_view = info.deep_view();
            let entry = (key, string_of(&value));
            info.push(entry);
            assert(info.deep_view() =~= old_view.push((entry.0@, entry.1@)));
        },
    }
}

/// The entries of a `mod.info` text, in order of first appearance. Keys are
/// lowercased; a repeated key gets its non-empty values appended on new
/// lines.
pub fn parse_mod_info(raw: &str) -> (res: Vec<(String, String)>)
    ensures
        res.deep_view() == mod_info_spec(raw@),
        distinct_keys(res.deep_view()),
{
    let s = chars_of(raw);
    let mut info: Vec<(String, String)> = Vec::new();
    let mut line: Vec<char> = Vec::new();
    let ghost mut done: Seq<Seq<char>> = Seq::empty();
    assert(info.deep_view() =~= Seq::empty());
    assert(split_lines(s@.take(0)) =~= seq![Seq::<char>::empty()]);
    let n = s.len();
    for i in 0..n
        invariant
            n == s.len(),
            split_lines(s@.take(i as int)) == done.push(line@),
            info.deep_view() == mod_info_lines(done),
            distinct_keys(info.deep_view()),
    {
        let c = s[i];
        assert(s@.take(i + 1).drop_last() =~= s@.take(i as int));
        if c == '\n' {
            read_mod_info_line(&mut info, &line);
            proof {
                assert(done.push(line@).drop_last() =~= done);
                done = done.push(line@);
            }
            line = Vec::new();
            assert(split_lines(s@.take(i + 1)) =~= done.push(line@));
        } else {
            line.push(c);
            assert(split_lines(s@.take(i + 1)) =~= done.push(line@));
        }
    }
    read_mod_info_line(&mut info, &line);
    proof {
        assert(s@.take(n as int) =~= s@);
        assert(done.push(line@).drop_last() =~= done);
    }
    info
}

/// The value stored for `key`.
pub fn mod_info_get<'a>(info: &'a Vec<(String, String)>, key: &str) -> (res: Option<&'a String>)
    ensures
        res matches Some(v) ==> lookup(info.deep_view(), key@) == Some(v@),
        res is None ==> lookup(info.deep_view(), key@) is None,
{
    match key_position(info, key) {
        Some(j) => Some(&info[j].1),
        None => None,
    }
}

/// The value of the first of `keys` that is present and not blank.
pub fn first_present<'a>(values: &'a Vec<(String, String)>, keys: &[&str]) -> (res: Option<&'a String>)
    ensures
        res matches Some(v) ==> first_present_from(values.deep_view(), keys@.map_values(|k: &str| k@), 0) == Some(v@),
        res is None ==> first_present_from(values.deep_view(), keys@.map_values(|k: &str| k@), 0) is None,
{
    let ghost ks = keys@.map_values(|k: &str| k@);
    let n = keys.len();
    for i in 0..n
        invariant
            n == keys@.len(),
            ks == keys@.map_values(|k: &str| k@),
            first_present_from(values.deep_view(), ks, 0) == first_present_from(values.deep_view(), ks, i as int),
    {
        let key: &str = keys[i];
        assert(ks[i as int] == key@);
        match mod_info_get(values, key) {
            Some(v) => {
                let t = trim_chars(&chars_of(v.as_str()));
                if t.len() > 0 {
                    return Some(v);
                }
            },
            None => {},
        }
    }
    None
}

/// `value` unless it is blank.
pub fn optional_nonempty(value: String) -> (res: Option<String>)
    ensures
        trim(value@).len() > 0 ==> res == Some(value),
        trim(value@).len() == 0 ==> res is None,
{
    let t = trim_chars(&chars_of(value.as_str()));
    if t.len() > 0 {
        Some(value)
    } else {
        None
    }
}

// ---------------------------------------------------------------------------
// Installed Workshop ids
// ---------------------------------------------------------------------------

/// The non-empty Workshop ids of `mods[i..]` not yet in `acc`, appended to
/// `acc` in order.
pub open spec fn installed_acc(mods: Seq<LocalMod>, i: int, acc: Seq<Seq<char>>) -> Seq<Seq<char>>
    decreases mods.len() - i,
{
    if i < 0 || i >= mods.len() {
        acc
    } else {
        let id = mods[i].workshop_id@;
        if id.len() == 0 || acc.contains(id) {
            installed_acc(mods, i + 1, acc)
        } else {
            installed_acc(mods, i + 1, acc.push(id))
        }
    }
}

/// The Workshop ids of the installed mods.
pub open spec fn installed_ids_spec(mods: Seq<LocalMod>) -> Seq<Seq<char>> {
    installed_acc(mods, 0, Seq::empty())
}

/// Some mod among `mods[i..]` has Workshop id `x`.
pub open spec fn id_among(mods: Seq<LocalMod>, i: int, x: Seq<char>) -> bool {
    exists|k: int| i <= k < mods.len() && (#[trigger] mods[k]).workshop_id@ == x
}

proof fn lemma_id_among_step(mods: Seq<LocalMod>, i: int, x: Seq<char>)
    requires
        0 <= i < mods.len(),
    ensures
        id_among(mods, i, x) <==> (mods[i].workshop_id@ == x || id_among(mods, i + 1, x)),
{
    if id_among(mods, i, x) {
        let k = choose|k: int| i <= k < mods.len() && (#[trigger] mods[k]).workshop_id@ == x;
        if k != i {
            assert(i + 1 <= k < mods.len() && mods[k].workshop_id@ == x);
        }
    }
    if mods[i].workshop_id@ == x {
        assert(i <= i < mods.len() && mods[i].workshop_id@ == x);
    }
    if id_among(mods, i + 1, x) {
        let k = choose|k: int| i + 1 <= k < mods.len() && (#[trigger] mods[k]).workshop_id@ == x;
        assert(i <= k < mods.len() && mods[k].workshop_id@ == x);
    }
}

proof fn lemma_installed_acc(mods: Seq<LocalMod>, i: int, acc: Seq<Seq<char>>)
    requires
        0 <= i <= mods.len(),
        acc.no_duplicates(),
        forall|k: int| 0 <= k < acc.len() ==> (#[trigger] acc[k]).len() > 0,
    ensures
        installed_acc(mods, i, acc).no_duplicates(),
        forall|x: Seq<char>|
            #[trigger] installed_acc(mods, i, acc).contains(x) <==> (acc.contains(x) || (x.len()
                > 0 && id_among(mods, i, x))),
    decreases mods.len() - i,
{
    if i == mods.len() {
        assert forall|x: Seq<char>|
            #[trigger] installed_acc(mods, i, acc).contains(x) <==> (acc.contains(x) || (x.len()
                > 0 && id_among(mods, i, x))) by {}
    } else {
        let id = mods[i].workshop_id@;
        if id.len() == 0 || acc.contains(id) {
            lemma_installed_acc(mods, i + 1, acc);
            assert forall|x: Seq<char>|
                #[trigger] installed_acc(mods, i, acc).contains(x) <==> (acc.contains(x) || (x.len()
                    > 0 && id_among(mods, i, x))) by {
                lemma_id_among_step(mods, i, x);
            }
        } else {
            let acc2 = acc.push(id);
            assert forall|k: int| 0 <= k < acc2.len() implies (#[trigger] acc2[k]).len() > 0 by {
                if k < acc.len() {
                    assert(acc2[k] == acc[k]);
                }
            }
            assert(acc2.no_duplicates()) by {
                assert forall|a: int, b: int|
                    0 <= a < acc2.len() && 0 <= b < acc2.len() && a != b implies acc2[a] != acc2[b] by {
                    if a == acc.len() {
                        assert(acc2[b] == acc[b]);
                    } else if b == acc.len() {
                        assert(acc2[a] == acc[a]);
                    } else {
                        assert(acc2[a] == acc[a]);
                        assert(acc2[b] == acc[b]);
                    }
                }
            }
            lemma_installed_acc(mods, i + 1, acc2);
            assert forall|x: Seq<char>|
                #[trigger] installed_acc(mods, i, acc).contains(x) <==> (acc.contains(x) || (x.len()
                    > 0 && id_among(mods, i, x))) by {
                lemma_id_among_step(mods, i, x);
                if acc2.contains(x) {
                    let j = choose|j: int| 0 <= j < acc2.len() && acc2[j] == x;
                    if j < acc.len() {
                        assert(acc[j] == x);
                    } else {
                        assert(x == id);
                    }
                }
                if acc.contains(x) {
                    let j = choose|j: int| 0 <= j < acc.len() && acc[j] == x;
                    assert(acc2[j] == x);
                }
                if x == id {
                    assert(acc2[acc.len() as int] == x);
                }
            }
        }
    }
}

/// The installed Workshop ids never repeat, and are exactly the non-empty
/// Workshop ids of the installed mods.
pub proof fn lemma_installed_ids(mods: Seq<LocalMod>)
    ensures
        installed_ids_spec(mods).no_duplicates(),
        forall|x: Seq<char>|
            #[trigger] installed_ids_spec(mods).contains(x) <==> (x.len() > 0 && id_among(mods, 0, x)),
{
    lemma_installed_acc(mods, 0, Seq::empty());
}

/// The Workshop ids of the installed mods, each once, in order of first
/// appearance; mods without an id are left out.
pub fn installed_ids_from_mods(mods: &Vec<LocalMod>) -> (res: Vec<String>)
    ensures
        ids_of(res@) == installed_ids_spec(mods@),
{
    let mut res: Vec<String> = Vec::new();
    assert(ids_of(res@) =~= Seq::empty());
    let n = mods.len();
    for i in 0..n
        invariant
            n == mods.len(),
            installed_ids_spec(mods@) == installed_acc(mods@, i as int, ids_of(res@)),
    {
        let id = &mods[i].workshop_id;
        if id.as_str().is_empty() || contains_str(&res, id.as_str()) {
        } else {
            let ghost before = res@;
            res.push(id.clone());
            assert(ids_of(res@) =~= ids_of(before).push(id@));
        }
    }
    res
}

// ---------------------------------------------------------------------------
// Building a record
// ---------------------------------------------------------------------------

/// The Workshop id of a mod folder: the `id=` of the address stored for it,
/// else the folder name when it is all digits, else none (empty).
pub open spec fn folder_workshop_id(workshop_url: Seq<char>, folder_name: Seq<char>) -> Seq<char> {
    match capture_group_of(regex_first_captures(WORKSHOP_ID_PATTERN@, workshop_url), 1) {
        Some(id) => id,
        None => if all_digits(folder_name) {
            folder_name
        } else {
            Seq::empty()
        },
    }
}

/// Workshop id of a mod folder: the id in its recorded Workshop address, else the folder name when it is all digits, else empty.
pub fn workshop_id_for_folder(workshop_url: &str, folder_name: &str) -> (res: String)
    ensures
        res@ == folder_workshop_id(workshop_url@, folder_name@),
{
    match extract_workshop_id(workshop_url) {
        Some(id) => id,
        None => {
            if all_digits_chars(&chars_of(folder_name)) {
                folder_name.to_owned()
            } else {
                String::new()
            }
        },
    }
}

/// Folders of the mod folder that are not mods: hidden ones and the SteamCMD
/// work folder.
pub open spec fn skipped_folder(folder_name: Seq<char>) -> bool {
    (folder_name.len() > 0 && folder_name[0] == '.') || folder_name == "steamapps"@
}

/// Poster address to cache for a mod listed from the metadata cache: its
/// cached address when that is not blank, else what `fallback` (the Workshop
/// page metadata) gives; `fallback` is consulted only then.
pub fn poster_url_for_cache<F: FnOnce() -> Option<String>>(poster_url: &String, fallback: F) -> (res: Option<
    String,
>)
    requires
        trim(poster_url@).len() == 0 ==> fallback.requires(()),
    ensures
        trim(poster_url@).len() > 0 ==> res == Some(*poster_url),
        trim(poster_url@).len() == 0 ==> fallback.ensures((), res),
{
    match optional_nonempty(poster_url.clone()) {
        Some(p) => Some(p),
        None => fallback(),
    }
}

/// A mod record read back from the metadata cache: the stored fields as
/// they are, a negative stored size read as zero.
pub fn local_mod_from_cache(
    folder_name: String,
    path: String,
    modified_at: String,
    display_name: String,
    package_id: String,
    authors: String,
    mod_version: String,
    pz_version: String,
    size_bytes: i64,
    poster_path: String,
    poster_url: String,
    workshop_id: String,
    workshop_url: String,
) -> (res: LocalMod)
    ensures
        res.size_bytes == (if size_bytes < 0 { 0 } else { size_bytes as int }),
        res.folder_name == folder_name,
        res.path == path,
        res.modified_at == modified_at,
        res.display_name == display_name,
        res.package_id == package_id,
        res.authors == authors,
        res.mod_version == mod_version,
        res.pz_version == pz_version,
        res.poster_path == poster_path,
        res.poster_url == poster_url,
        res.workshop_id == workshop_id,
        res.workshop_url == workshop_url,
{
    let size: u64 = if size_bytes < 0 {
        0
    } else {
        size_bytes as u64
    };
    LocalMod {
        folder_name,
        display_name,
        package_id,
        authors,
        mod_version,
        pz_version,
        size_bytes: size,
        path,
        modified_at,
        workshop_url,
        workshop_id,
        poster_path,
        poster_url,
    }
}

/// Whether a mod folder is configured: a blank setting means there are no
/// local mods to list.
pub fn mod_folder_configured(mod_download_path: &str) -> (res: bool)
    ensures
        res == (trim(mod_download_path@).len() > 0),
{
    trim_chars(&chars_of(mod_download_path)).len() > 0
}

/// Whether a folder of the mod folder is not listed as a mod.
pub fn is_skipped_mod_folder(folder_name: &str) -> (res: bool)
    ensures
        res == skipped_folder(folder_name@),
{
    let v = chars_of(folder_name);
    (v.len() > 0 && v[0] == '.') || str_eq(folder_name, "steamapps")
}

/// The first present of a mod-info value, a Workshop fallback value and a default.
pub open spec fn or_text(a: Option<Seq<char>>, b: Option<String>, c: Seq<char>) -> Seq<char> {
    match a {
        Some(x) => x,
        None => match b {
            Some(y) => y@,
            None => c,
        },
    }
}

fn pick_text(a: Option<&String>, b: &Option<String>, c: &str) -> (res: String)
    ensures
        res@ == or_text(
            match a {
                Some(x) => Some(x@),
                None => None,
            },
            *b,
            c@,
        ),
{
    match a {
        Some(x) => x.clone(),
        None => match b {
            Some(y) => y.clone(),
            None => c.to_owned(),
        },
    }
}

/// The record of a mod folder: names and versions from `mod.info`, with the
/// Workshop page's metadata filling what `mod.info` lacks.
pub fn local_mod_from_parts(
    folder_name: String,
    info: &Vec<(String, String)>,
    fallback: &WorkshopLocalFallback,
    workshop_url: String,
    workshop_id: String,
    poster_path: String,
    size_bytes: u64,
    path: String,
    modified_at: String,
) -> (res: LocalMod)
    ensures
        res.display_name@ == or_text(lookup(info.deep_view(), "name"@), fallback.title, folder_name@),
        res.package_id@ == or_text(lookup(info.deep_view(), "id"@), None, Seq::empty()),
        res.authors@ == or_text(
            first_present_from(info.deep_view(), seq!["authors"@, "author"@], 0),
            fallback.author,
            Seq::empty(),
        ),
        res.mod_version@ == or_text(
            first_present_from(info.deep_view(), seq!["modversion"@, "version"@], 0),
            fallback.mod_version,
            Seq::empty(),
        ),
        res.pz_version@ == or_text(
            first_present_from(info.deep_view(), seq!["pzversion"@, "pz_version"@, "build"@], 0),
            fallback.supported_version,
            Seq::empty(),
        ),
        res.workshop_url@ == (if workshop_url@.len() == 0 && workshop_id@.len() > 0 {
            detail_url(workshop_id@)
        } else {
            workshop_url@
        }),
        res.poster_url@ == or_text(None, fallback.poster_url, Seq::empty()),
        res.folder_name == folder_name,
        res.workshop_id == workshop_id,
        res.poster_path == poster_path,
        res.size_bytes == size_bytes,
        res.path == path,
        res.modified_at == modified_at,
{
    proof {
        reveal_strlit("");
    }
    let display_name = pick_text(mod_info_get(info, "name"), &fallback.title, folder_name.as_str());
    let package_id = pick_text(mod_info_get(info, "id"), &None, "");
    let author_keys: [&str; 2] = ["authors", "author"];
    let authors = pick_text(first_present(info, &author_keys), &fallback.author, "");
    assert(author_keys@.map_values(|k: &str| k@) =~= seq!["authors"@, "author"@]);
    let version_keys: [&str; 2] = ["modversion", "version"];
    let mod_version = pick_text(first_present(info, &version_keys), &fallback.mod_version, "");
    assert(version_keys@.map_values(|k: &str| k@) =~= seq!["modversion"@, "version"@]);
    let build_keys: [&str; 3] = ["pzversion", "pz_version", "build"];
    let pz_version = pick_text(first_present(info, &build_keys), &fallback.supported_version, "");
    assert(build_keys@.map_values(|k: &str| k@) =~= seq!["pzversion"@, "pz_version"@, "build"@]);
    let url = if workshop_url.as_str().is_empty() && !workshop_id.as_str().is_empty() {
        workshop_detail_url(workshop_id.as_str())
    } else {
        workshop_url
    };
    let poster_url = pick_text(None, &fallback.poster_url, "");
    LocalMod {
        folder_name,
        display_name,
        package_id,
        authors,
        mod_version,
        pz_version,
        size_bytes,
        path,
        modified_at,
        workshop_url: url,
        workshop_id,
        poster_path,
        poster_url,
    }
}

// ---------------------------------------------------------------------------
// Paths and posters
// ---------------------------------------------------------------------------

/// The file extension a cached poster gets, from its address (query
/// ignored, case ignored): png, webp, gif, else jpg.
pub open spec fn poster_extension_spec(url: Seq<char>) -> Seq<char> {
    let base = match find(url, seq!['?']) {
        Some(k) => url.take(k),
        None => url,
    };
    let lower = lower_ascii(base);
    if ends_with(lower, ".png"@) {
        "png"@
    } else if ends_with(lower, ".webp"@) {
        "webp"@
    } else if ends_with(lower, ".gif"@) {
        "gif"@
    } else {
        "jpg"@
    }
}

/// File extension for a cached poster, from its address (query ignored, any case): png, webp, gif, else jpg.
pub fn poster_extension_from_url(url: &str) -> (res: &'static str)
    ensures
        res@ == poster_extension_spec(url@),
{
    let v = chars_of(url);
    let q = vec!['?'];
    assert(q@ =~= seq!['?']);
    let base = match find_chars(&v, &q) {
        Some(k) => {
            proof {
                lemma_find_from_some(v@, q@, 0);
            }
            let b = slice_chars(&v, 0, k);
            assert(b@ =~= v@.take(k as int));
            b
        },
        None => v,
    };
    let lower = lower_ascii_chars(&base);
    if ends_with_chars(&lower, &chars_of(".png")) {
        "png"
    } else if ends_with_chars(&lower, &chars_of(".webp")) {
        "webp"
    } else if ends_with_chars(&lower, &chars_of(".gif")) {
        "gif"
    } else {
        "jpg"
    }
}

/// Prefix of an extended-length Windows UNC path.
pub const EXTENDED_UNC_PREFIX: &'static str = r"\\?\UNC\";

/// Prefix of an extended-length Windows path.
pub const EXTENDED_PREFIX: &'static str = r"\\?\";

/// A Windows path without its extended-length prefix: `\\?\UNC\server`
/// becomes `\\server`, `\\?\C:` becomes `C:`.
pub open spec fn normalized_path_spec(path: Seq<char>) -> Seq<char> {
    if starts_with(path, EXTENDED_UNC_PREFIX@) {
        r"\\"@ + path.skip(EXTENDED_UNC_PREFIX@.len() as int)
    } else if starts_with(path, EXTENDED_PREFIX@) {
        path.skip(EXTENDED_PREFIX@.len() as int)
    } else {
        path
    }
}

/// A path as shown to the user: without the extended-length prefix that
/// Windows APIs add.
pub fn normalize_windows_extended_path(path: &str) -> (res: String)
    ensures
        res@ == normalized_path_spec(path@),
{
    let v = chars_of(path);
    let unc = chars_of(EXTENDED_UNC_PREFIX);
    if starts_with_chars(&v, &unc) {
        let rest = slice_chars(&v, unc.len(), v.len());
        let all = concat_chars(&chars_of(r"\\"), &rest);
        assert(rest@ =~= v@.skip(unc@.len() as int));
        return string_of(&all);
    }
    let ext = chars_of(EXTENDED_PREFIX);
    if starts_with_chars(&v, &ext) {
        let rest = slice_chars(&v, ext.len(), v.len());
        assert(rest@ =~= v@.skip(ext@.len() as int));
        return string_of(&rest);
    }
    path.to_owned()
}

// ---------------------------------------------------------------------------
// Listing order
// ---------------------------------------------------------------------------

/// `a <= b` in the order of `str::cmp` (lexicographic by code point).
pub open spec fn lex_le(a: Seq<char>, b: Seq<char>) -> bool
    decreases a.len(),
{
    if a.len() == 0 {
        true
    } else if b.len() == 0 {
        false
    } else if a[0] == b[0] {
        lex_le(a.drop_first(), b.drop_first())
    } else {
        (a[0] as u32) < (b[0] as u32)
    }
}

pub proof fn lemma_lex_total(a: Seq<char>, b: Seq<char>)
    ensures
        lex_le(a, b) || lex_le(b, a),
    decreases a.len(),
{
    if a.len() > 0 && b.len() > 0 {
        if a[0] == b[0] {
            lemma_lex_total(a.drop_first(), b.drop_first());
        } else {
            vstd::utf8::char_u32_cast(a[0], a[0] as u32);
            vstd::utf8::char_u32_cast(b[0], b[0] as u32);
        }
    }
}

pub proof fn lemma_lex_refl(a: Seq<char>)
    ensures
        lex_le(a, a),
    decreases a.len(),
{
    if a.len() > 0 {
        lemma_lex_refl(a.drop_first());
    }
}

pub proof fn lemma_lex_trans(a: Seq<char>, b: Seq<char>, c: Seq<char>)
    requires
        lex_le(a, b),
        lex_le(b, c),
    ensures
        lex_le(a, c),
    decreases a.len(),
{
    if a.len() > 0 && b.len() > 0 && c.len() > 0 && a[0] == b[0] && b[0] == c[0] {
        lemma_lex_trans(a.drop_first(), b.drop_first(), c.drop_first());
    }
}

/// The key mods are listed by: the display name in lowercase.
pub open spec fn sort_key(m: LocalMod) -> Seq<char> {
    lowercase_text(m.display_name@)
}

/// `perm` lists each index below `n` once.
pub open spec fn is_permutation(perm: Seq<int>, n: int) -> bool {
    &&& perm.len() == n
    &&& forall|k: int| 0 <= k < perm.len() ==> 0 <= #[trigger] perm[k] < n
    &&& forall|k: int, l: int| 0 <= k < l < perm.len() ==> #[trigger] perm[k] != #[trigger] perm[l]
}

/// `res` is `mods` in listing order: a rearrangement by `perm`, ordered by
/// key, mods with equal keys keeping their relative order.
pub open spec fn stable_sorted_by_key(res: Seq<LocalMod>, mods: Seq<LocalMod>, perm: Seq<int>) -> bool {
    &&& is_permutation(perm, mods.len() as int)
    &&& res.len() == mods.len()
    &&& forall|k: int| 0 <= k < res.len() ==> #[trigger] res[k] == mods[perm[k]]
    &&& forall|k: int, l: int|
        0 <= k < l < res.len() ==> lex_le(sort_key(#[trigger] res[k]), sort_key(#[trigger] res[l]))
    &&& forall|k: int, l: int|
        0 <= k < l < res.len() && sort_key(#[trigger] res[k]) == sort_key(#[trigger] res[l]) ==> perm[k]
            < perm[l]
}

/// A listing is ordered by display name ignoring case: going down the list,
/// the lowercased display names never decrease in code point order (for
/// ASCII names this is their ASCII lowercasing, so `apple` comes before
/// `Banana`), and mods whose names differ only in case keep their order.
pub proof fn lemma_listing_ignores_case(res: Seq<LocalMod>, mods: Seq<LocalMod>, perm: Seq<int>)
    requires
        stable_sorted_by_key(res, mods, perm),
    ensures
        forall|k: int, l: int|
            0 <= k < l < res.len() ==> lex_le(
                lowercase_text((#[trigger] res[k]).display_name@),
                lowercase_text((#[trigger] res[l]).display_name@),
            ),
        forall|k: int, l: int|
            0 <= k < l < res.len() && vstd::utf8::is_ascii_chars((#[trigger] res[k]).display_name@)
                && vstd::utf8::is_ascii_chars((#[trigger] res[l]).display_name@) ==> lex_le(
                lower_ascii(res[k].display_name@),
                lower_ascii(res[l].display_name@),
            ),
        forall|k: int, l: int|
            0 <= k < l < res.len() && lowercase_text((#[trigger] res[k]).display_name@) == lowercase_text(
                (#[trigger] res[l]).display_name@,
            ) ==> perm[k] < perm[l],
{
}

/// `a <= b` in code point order.
pub fn lex_le_chars(a: &Vec<char>, b: &Vec<char>) -> (res: bool)
    ensures
        res == lex_le(a@, b@),
{
    let mut i: usize = 0;
    assert(a@.skip(0) =~= a@);
    assert(b@.skip(0) =~= b@);
    loop
        invariant
            i <= a.len(),
            i <= b.len(),
            lex_le(a@, b@) == lex_le(a@.skip(i as int), b@.skip(i as int)),
        decreases a.len() - i,
    {
        if i == a.len() {
            return true;
        }
        if i == b.len() {
            return false;
        }
        if a[i] != b[i] {
            return (a[i] as u32) < (b[i] as u32);
        }
        assert(a@.skip(i as int).drop_first() =~= a@.skip(i + 1));
        assert(b@.skip(i as int).drop_first() =~= b@.skip(i + 1));
        i = i + 1;
    }
}

/// The mods in listing order: by display name ignoring case, mods with
/// equal names keeping their order (a stable sort).
pub fn sort_local_mods(mods: Vec<LocalMod>) -> (res: Vec<LocalMod>)
    ensures
        exists|perm: Seq<int>| stable_sorted_by_key(res@, mods@, perm),
{
    let ghost orig = mods@;
    let mut rest = mods;
    let mut out: Vec<LocalMod> = Vec::new();
    let mut out_keys: Vec<Vec<char>> = Vec::new();
    let ghost mut perm: Seq<int> = Seq::empty();
    let n = rest.len();
    assert(orig.skip(0) =~= orig);
    for i in 0..n
        invariant
            n == orig.len(),
            rest@ == orig.skip(i as int),
            out@.len() == i,
            out_keys@.len() == i,
            perm.len() == i,
            forall|k: int| 0 <= k < i ==> (#[trigger] out_keys@[k])@ == sort_key(out@[k]),
            forall|k: int| 0 <= k < i ==> 0 <= #[trigger] perm[k] < i,
            forall|k: int, l: int| 0 <= k < l < i ==> #[trigger] perm[k] != #[trigger] perm[l],
            forall|k: int| 0 <= k < i ==> #[trigger] out@[k] == orig[perm[k]],
            forall|k: int, l: int|
                0 <= k < l < i ==> lex_le(sort_key(#[trigger] out@[k]), sort_key(#[trigger] out@[l])),
            forall|k: int, l: int|
                0 <= k < l < i && sort_key(#[trigger] out@[k]) == sort_key(#[trigger] out@[l])
                    ==> perm[k] < perm[l],
    {
        assert(rest@.len() > 0);
        let m = rest.remove(0);
        assert(rest@ =~= orig.skip(i + 1));
        assert(m == orig[i as int]);
        let key_text = to_lowercase(m.display_name.as_str());
        let key = chars_of(key_text.as_str());
        let mut p: usize = 0;
        while p < out_keys.len() && lex_le_chars(&out_keys[p], &key)
            invariant
                p <= out_keys@.len(),
                out_keys@.len() == i,
                forall|k: int| 0 <= k < p ==> lex_le((#[trigger] out_keys@[k])@, key@),
            decreases out_keys@.len() - p,
        {
            p = p + 1;
        }
        let ghost old_out = out@;
        let ghost old_perm = perm;
        let ghost old_keys = out_keys@;
        proof {
            if p < i {
                lemma_lex_total(key@, sort_key(old_out[p as int]));
                assert(lex_le(key@, sort_key(old_out[p as int])));
            }
            assert forall|k: int| 0 <= k < p implies lex_le(sort_key(#[trigger] old_out[k]), key@) by {
                assert(old_keys[k]@ == sort_key(old_out[k]));
            }
            assert forall|l: int| p <= l < i implies lex_le(key@, sort_key(#[trigger] old_out[l]))
                && sort_key(old_out[l]) != key@ by {
                if l > p {
                    lemma_lex_trans(key@, sort_key(old_out[p as int]), sort_key(old_out[l]));
                }
                if sort_key(old_out[l]) == key@ {
                    if l > p {
                        lemma_lex_refl(key@);
                        lemma_lex_trans(
                            sort_key(old_out[p as int]),
                            sort_key(old_out[l]),
                            key@,
                        );
                    }
                    assert(old_keys[p as int]@ == sort_key(old_out[p as int]));
                }
            }
        }
        out.insert(p, m);
        out_keys.insert(p, key);
        proof {
            perm = perm.insert(p as int, i as int);
            let ni = (i + 1) as int;
            let pp = p as int;
            assert forall|k: int| 0 <= k < ni implies (#[trigger] out_keys@[k])@ == sort_key(out@[k]) by {
                if k < pp {
                    assert(out_keys@[k] == old_keys[k]);
                    assert(out@[k] == old_out[k]);
                } else if k > pp {
                    assert(out_keys@[k] == old_keys[k - 1]);
                    assert(out@[k] == old_out[k - 1]);
                }
            }
            assert forall|k: int| 0 <= k < ni implies 0 <= #[trigger] perm[k] < ni by {
                if k < pp {
                    assert(perm[k] == old_perm[k]);
                } else if k > pp {
                    assert(perm[k] == old_perm[k - 1]);
                }
            }
            assert forall|k: int, l: int| 0 <= k < l < ni implies #[trigger] perm[k] != #[trigger] perm[l] by {
                let ok = if k < pp { k } else { k - 1 };
                let ol = if l < pp { l } else { l - 1 };
                if k != pp && l != pp {
                    assert(perm[k] == old_perm[ok]);
                    assert(perm[l] == old_perm[ol]);
                } else if k == pp {
                    assert(perm[l] == old_perm[ol]);
                } else {
                    assert(perm[k] == old_perm[ok]);
                }
            }
            assert forall|k: int| 0 <= k < ni implies #[trigger] out@[k] == orig[perm[k]] by {
                if k < pp {
                    assert(out@[k] == old_out[k]);
                    assert(perm[k] == old_perm[k]);
                } else if k > pp {
                    assert(out@[k] == old_out[k - 1]);
                    assert(perm[k] == old_perm[k - 1]);
                }
            }
            assert forall|k: int, l: int|
                0 <= k < l < ni implies lex_le(sort_key(#[trigger] out@[k]), sort_key(#[trigger] out@[l]))
                    && (sort_key(out@[k]) == sort_key(out@[l]) ==> perm[k] < perm[l]) by {
                let ok = if k < pp { k } else { k - 1 };
                let ol = if l < pp { l } else { l - 1 };
                if k == pp {
                    assert(out@[l] == old_out[ol]);
                    assert(p <= ol < i);
                } else if l == pp {
                    assert(out@[k] == old_out[ok]);
                    assert(0 <= ok < p);
                    assert(perm[k] == old_perm[ok]);
                } else {
                    assert(out@[k] == old_out[ok]);
                    assert(out@[l] == old_out[ol]);
                    assert(perm[k] == old_perm[ok]);
                    assert(perm[l] == old_perm[ol]);
                }
            }
        }
    }
    assert(stable_sorted_by_key(out@, orig, perm));
    out
}

} // verus!

//! Steam Workshop addresses: reading the Workshop id out of user input, page
//! addresses and the in-page bridge links, and building item addresses.

use vstd::prelude::*;
use crate::pattern::{capture_group, capture_group_of, regex_first_captures};
use crate::text::{
    all_digits, all_digits_chars, chars_of, concat_chars, contains, contains_chars, ends_with,
    ends_with_chars, lower_ascii, lower_ascii_chars, string_of,
};
use crate::html::{chars_eq, str_eq};

verus! {

/// What `url::Url::parse(input)` gives, as plain values: `None` when the
/// text is not a URL, else the scheme, the host (if any), the path and the
/// percent-decoded key/value pairs of the query, in order.
pub uninterp spec fn url_components(input: Seq<char>) -> Option<
    (Seq<char>, Option<Seq<char>>, Seq<char>, Seq<(Seq<char>, Seq<char>)>),
>;

/// `url::Url::parse` with `Url::scheme`, `Url::host_str`, `Url::path` and
/// `Url::query_pairs`. Claimed: the result is `url_components` of the input.
#[verifier::external_body]
pub(crate) fn parse_url(input: &str) -> (res: Option<(String, Option<String>, String, Vec<(String, String)>)>)
    ensures
        res.deep_view() == url_components(input@),
{
    let url = url::Url::parse(input).ok()?;
    let pairs = url.query_pairs().map(|(k, v)| (k.into_owned(), v.into_owned())).collect();
    Some((url.scheme().to_string(), url.host_str().map(|h| h.to_string()), url.path().to_string(), pairs))
}

/// Address of a Workshop item page, without the id.
pub const WORKSHOP_ITEM_URL_PREFIX: &'static str =
    "https://steamcommunity.com/sharedfiles/filedetails/?id=";

/// The `id` query parameter of an address (group 1).
pub const WORKSHOP_ID_PATTERN: &'static str = r"[?&]id=(\d+)";

/// Address of the Workshop page of item `id`.
pub open spec fn detail_url(id: Seq<char>) -> Seq<char> {
    WORKSHOP_ITEM_URL_PREFIX@ + id
}

/// A host of the Steam Community site.
pub open spec fn is_steam_host(host: Seq<char>) -> bool {
    host == "steamcommunity.com"@ || ends_with(host, ".steamcommunity.com"@)
}

/// The first query pair from index `i` on whose key is `id` or
/// `publishedfileid` and whose value is all digits.
pub open spec fn first_id_param(pairs: Seq<(Seq<char>, Seq<char>)>, i: int) -> Option<Seq<char>>
    decreases pairs.len() - i,
{
    if i < 0 || i >= pairs.len() {
        None
    } else if (pairs[i].0 == "id"@ || pairs[i].0 == "publishedfileid"@) && all_digits(
        pairs[i].1,
    ) {
        Some(pairs[i].1)
    } else {
        first_id_param(pairs, i + 1)
    }
}

/// Reading of user input: a numeric id of at least five digits is taken as
/// is and needs no page fetch; otherwise a Steam Community URL whose query
/// names the id, which needs a fetch to tell items from collections.
pub open spec fn parse_workshop_input_spec(input: Seq<char>) -> Option<(Seq<char>, Seq<char>, bool)> {
    if all_digits(input) && input.len() >= 5 {
        Some((input, detail_url(input), false))
    } else {
        input_from_url_parts(url_components(input))
    }
}

/// Reading of a parsed Steam Community address (scheme, host, path, query
/// pairs): the host (any case) must be the Steam Community site and the
/// query must name a numeric id.
pub open spec fn input_from_url_parts(
    parts: Option<(Seq<char>, Option<Seq<char>>, Seq<char>, Seq<(Seq<char>, Seq<char>)>)>,
) -> Option<(Seq<char>, Seq<char>, bool)> {
    match parts {
        None => None,
        Some(parts) => match parts.1 {
            None => None,
            Some(host) => if !is_steam_host(lower_ascii(host)) {
                None
            } else {
                match first_id_param(parts.3, 0) {
                    None => None,
                    Some(id) => Some((id, detail_url(id), true)),
                }
            },
        },
    }
}

/// The Workshop id of a Steam Community item page address.
pub open spec fn workshop_id_from_url_spec(url: Seq<char>) -> Option<Seq<char>> {
    id_from_url_parts(url_components(url))
}

/// The Workshop id of a parsed item page address.
pub open spec fn id_from_url_parts(
    parts: Option<(Seq<char>, Option<Seq<char>>, Seq<char>, Seq<(Seq<char>, Seq<char>)>)>,
) -> Option<Seq<char>> {
    match parts {
        None => None,
        Some(parts) => match parts.1 {
            None => None,
            Some(host) => if !is_steam_host(host) {
                None
            } else if !contains(parts.2, "/sharedfiles/filedetails"@) && !contains(
                parts.2,
                "/workshop/filedetails"@,
            ) {
                None
            } else {
                first_id_param(parts.3, 0)
            },
        },
    }
}

/// The value of the last query pair with key `key` among `pairs[..i]`, or
/// `current` if there is none.
pub open spec fn last_param(pairs: Seq<(Seq<char>, Seq<char>)>, key: Seq<char>, i: int, current: Seq<char>) -> Seq<char>
    decreases i,
{
    if i <= 0 || i > pairs.len() {
        current
    } else if pairs[i - 1].0 == key {
        pairs[i - 1].1
    } else {
        last_param(pairs, key, i - 1, current)
    }
}

/// Address of the Workshop page of item `id`.
pub fn workshop_detail_url(id: &str) -> (res: String)
    ensures
        res@ == detail_url(id@),
{
    let prefix = chars_of(WORKSHOP_ITEM_URL_PREFIX);
    let idc = chars_of(id);
    let all = concat_chars(&prefix, &idc);
    string_of(&all)
}

fn is_steam_host_chars(host: &Vec<char>) -> (res: bool)
    ensures
        res == is_steam_host(host@),
{
    chars_eq(host, &chars_of("steamcommunity.com")) || ends_with_chars(
        host,
        &chars_of(".steamcommunity.com"),
    )
}

fn first_id_param_of(pairs: &Vec<(String, String)>) -> (res: Option<String>)
    ensures
        res.deep_view() == first_id_param(pairs.deep_view(), 0),
{
    let n = pairs.len();
    for i in 0..n
        invariant
            n == pairs.len(),
            first_id_param(pairs.deep_view(), 0) == first_id_param(pairs.deep_view(), i as int),
    {
        let (k, v) = &pairs[i];
        assert(pairs.deep_view()[i as int] == (k@, v@));
        if str_eq(k.as_str(), "id") || str_eq(k.as_str(), "publishedfileid") {
            let vc = chars_of(v.as_str());
            if all_digits_chars(&vc) {
                return Some(v.clone());
            }
        }
    }
    None
}

/// Reads a Workshop id from user input: `(id, item page address, whether the
/// page must be fetched)`, or `None` when the input is neither a numeric id
/// of five or more digits nor a Steam Community address naming an id.
pub fn parse_workshop_input(input: &str) -> (res: Option<(String, String, bool)>)
    ensures
        res.deep_view() == parse_workshop_input_spec(input@),
{
    let chars = chars_of(input);
    if all_digits_chars(&chars) && chars.len() >= 5 {
        let id = string_of(&chars);
        let url = workshop_detail_url(input);
        return Some((id, url, false));
    }
    workshop_input_from_url_parts(parse_url(input))
}

/// Reads a Workshop id from a parsed address: `(id, item page address,
/// true)` for a Steam Community address whose query names a numeric id.
pub fn workshop_input_from_url_parts(
    parts: Option<(String, Option<String>, String, Vec<(String, String)>)>,
) -> (res: Option<(String, String, bool)>)
    ensures
        res.deep_view() == input_from_url_parts(parts.deep_view()),
{
    let (_scheme, host, _path, pairs) = match parts {
        Some(p) => p,
        None => return None,
    };
    let host = match host {
        Some(h) => h,
        None => return None,
    };
    let hc = chars_of(host.as_str());
    let lower = lower_ascii_chars(&hc);
    if !is_steam_host_chars(&lower) {
        return None;
    }
    match first_id_param_of(&pairs) {
        Some(id) => {
            let url = workshop_detail_url(id.as_str());
            Some((id, url, true))
        },
        None => None,
    }
}

/// The Workshop id of a Steam Community item page address, if it is one.
pub fn workshop_id_from_url(url: &str) -> (res: Option<String>)
    ensures
        res.deep_view() == workshop_id_from_url_spec(url@),
{
    workshop_id_from_url_parts(parse_url(url))
}

/// The Workshop id of a parsed Steam Community item page address.
pub fn workshop_id_from_url_parts(
    parts: Option<(String, Option<String>, String, Vec<(String, String)>)>,
) -> (res: Option<String>)
    ensures
        res.deep_view() == id_from_url_parts(parts.deep_view()),
{
    let (_scheme, host, path, pairs) = match parts {
        Some(p) => p,
        None => return None,
    };
    let host = match host {
        Some(h) => h,
        None => return None,
    };
    if !is_steam_host_chars(&chars_of(host.as_str())) {
        return None;
    }
    let pc = chars_of(path.as_str());
    if !contains_chars(&pc, &chars_of("/sharedfiles/filedetails")) && !contains_chars(
        &pc,
        &chars_of("/workshop/filedetails"),
    ) {
        return None;
    }
    first_id_param_of(&pairs)
}

/// The id in the `id=` query parameter of a stored Workshop address.
pub fn extract_workshop_id(url: &str) -> (res: Option<String>)
    ensures
        res.deep_view() == capture_group_of(regex_first_captures(WORKSHOP_ID_PATTERN@, url@), 1),
{
    capture_group(WORKSHOP_ID_PATTERN, url, 1)
}

/// The value of the last query pair named `key`, or the empty string.
pub fn last_param_value(pairs: &Vec<(String, String)>, key: &str) -> (res: String)
    ensures
        res@ == last_param(pairs.deep_view(), key@, pairs.deep_view().len() as int, Seq::empty()),
{
    let mut i = pairs.len();
    while i > 0
        invariant
            i <= pairs.len(),
            last_param(pairs.deep_view(), key@, pairs.deep_view().len() as int, Seq::empty())
                == last_param(pairs.deep_view(), key@, i as int, Seq::empty()),
        decreases i,
    {
        let (k, v) = &pairs[i - 1];
        assert(pairs.deep_view()[i - 1] == (k@, v@));
        if str_eq(k.as_str(), key) {
            return v.clone();
        }
        i = i - 1;
    }
    String::new()
}

proof fn lemma_first_id_param_digits(pairs: Seq<(Seq<char>, Seq<char>)>, i: int)
    ensures
        first_id_param(pairs, i) matches Some(v) ==> all_digits(v),
    decreases pairs.len() - i,
{
    if 0 <= i < pairs.len() {
        lemma_first_id_param_digits(pairs, i + 1);
    }
}

/// Whatever input is accepted, the id read from it is numeric and the
/// address returned is that id's Workshop page; only numeric input of five
/// or more digits is resolved without fetching the page.
pub proof fn lemma_parse_workshop_input(input: Seq<char>)
    ensures
        parse_workshop_input_spec(input) matches Some(p) ==> {
            &&& all_digits(p.0)
            &&& p.1 == detail_url(p.0)
            &&& !p.2 <==> (all_digits(input) && input.len() >= 5)
        },
{
    if let Some(parts) = url_components(input) {
        lemma_first_id_param_digits(parts.3, 0);
    }
}

/// The id read from a Workshop page address is numeric.
pub proof fn lemma_workshop_id_from_url_digits(url: Seq<char>)
    ensures
        workshop_id_from_url_spec(url) matches Some(v) ==> all_digits(v),
{
    if let Some(parts) = url_components(url) {
        lemma_first_id_param_digits(parts.3, 0);
    }
}

proof fn lemma_lower_ascii_unchanged(s: Seq<char>)
    requires
        forall|i: int| 0 <= i < s.len() ==> !('A' <= #[trigger] s[i] && s[i] <= 'Z'),
    ensures
        lower_ascii(s) == s,
{
    assert(lower_ascii(s) =~= s);
}

proof fn lemma_steam_host_any_case(host: Seq<char>)
    requires
        is_steam_host(host),
    ensures
        is_steam_host(lower_ascii(host)),
{
    reveal_strlit("steamcommunity.com");
    reveal_strlit(".steamcommunity.com");
    let site = "steamcommunity.com"@;
    let suffix = ".steamcommunity.com"@;
    lemma_lower_ascii_unchanged(site);
    lemma_lower_ascii_unchanged(suffix);
    if host == site {
    } else {
        let n = host.len() - suffix.len();
        assert(lower_ascii(host).skip(n) =~= lower_ascii(host.skip(n)));
    }
}

/// An address that the Workshop browser recognises as an item page is also
/// accepted as user input naming the same item, whose page is then fetched
/// (an address made only of five or more digits is read as an id instead).
pub proof fn lemma_item_page_is_valid_input(url: Seq<char>)
    requires
        workshop_id_from_url_spec(url) is Some,
        !(all_digits(url) && url.len() >= 5),
    ensures
        ({
            let id = workshop_id_from_url_spec(url).unwrap();
            parse_workshop_input_spec(url) == Some((id, detail_url(id), true))
        }),
{
    let parts = url_components(url).unwrap();
    lemma_steam_host_any_case(parts.1.unwrap());
}

} // verus!

//! Extraction of Workshop information from Steam Workshop HTML pages:
//! page titles, collection children, required items, author, version and
//! poster image.

use vstd::prelude::*;
use vstd::string::StrSliceExecFns;
use crate::pattern::{
    capture_group, capture_group_of, char_span, char_spans_of, find_char_spans, group_of, group_text,
    lemma_char_index_bounds, regex_all_captures, regex_captures, regex_captures_all,
    regex_find_spans, regex_first_captures, regex_match_spans, regex_replace_all, regex_replaced,
};
use crate::text::{
    chars_of, collapse_ws, collapse_ws_chars, concat_chars, contains, contains_chars,
    eq_ignore_ascii_case, find, find_chars, lemma_find_from_some, lower_ascii, lower_ascii_chars,
    replace_all, replace_chars, slice_chars, starts_with, starts_with_chars, string_of, trim,
    trim_chars, trim_start, trim_str,
};

verus! {

// ---------------------------------------------------------------------------
// Patterns
// ---------------------------------------------------------------------------

/// Any HTML tag.
pub const HTML_TAG_PATTERN: &'static str = r"(?is)<[^>]+>";

/// Content of the `workshopItemTitle` element.
pub const WORKSHOP_TITLE_DIV_PATTERN: &'static str =
    r#"(?is)<div[^>]+class=["'][^"']*workshopItemTitle[^"']*["'][^>]*>(.*?)</div>"#;

/// Content of the `<title>` element.
pub const TITLE_TAG_PATTERN: &'static str = r#"(?is)<title[^>]*>(.*?)</title>"#;

/// Content of a `div` whose class mentions a title.
pub const TITLE_DIV_PATTERN: &'static str =
    r#"(?is)<div[^>]+class=["'][^"']*title[^"']*["'][^>]*>(.*?)</div>"#;

/// A link to a Workshop item page: the id (group 1) and the link content (group 2).
pub const WORKSHOP_LINK_PATTERN: &'static str =
    r#"(?is)<a[^>]+href=["'][^"']*(?:sharedfiles|workshop)/filedetails/[^"']*(?:\?|&amp;|&)id=(\d+)[^"']*["'][^>]*>(.*?)</a>"#;

/// Opening tag of a collection card.
pub const COLLECTION_ITEM_DIV_PATTERN: &'static str =
    r#"(?is)<div\b[^>]*class=["'][^"']*(?:collectionItem|workshopItemCollection)[^"']*["'][^>]*>"#;

/// An opening or closing `div` tag.
pub const DIV_TAG_PATTERN: &'static str = r#"(?is)</?div\b[^>]*>"#;

/// Author link in the creator block of a Workshop page.
pub const AUTHOR_FRIEND_BLOCK_PATTERN: &'static str =
    r#"(?is)<div[^>]+class=["'][^"']*friendBlockContent[^"']*["'][^>]*>\s*<a[^>]*>(.*?)</a>"#;

/// Author link in the author-name element of a Workshop page.
pub const AUTHOR_NAME_PATTERN: &'static str =
    r#"(?is)<div[^>]+class=["'][^"']*workshopItemAuthorName[^"']*["'][^>]*>\s*<a[^>]*>(.*?)</a>"#;

/// Author link after "Created by".
pub const AUTHOR_CREATED_BY_PATTERN: &'static str =
    r#"(?is)Created by\s*</?[^>]*>\s*<a[^>]*>(.*?)</a>"#;

/// "Mod version: ..." in page text.
pub const MOD_VERSION_PATTERN: &'static str =
    r#"(?i)\bmod\s+version\s*[:=-]\s*([A-Za-z0-9._ -]{1,32})"#;

/// "Version: ..." in page text.
pub const VERSION_PATTERN: &'static str = r#"(?i)\bversion\s*[:=-]\s*([A-Za-z0-9._ -]{1,32})"#;

/// "Build NN" in page text.
pub const BUILD_PATTERN: &'static str = r#"(?i)\bBuild\s*([0-9]+(?:\.[0-9]+)?)\b"#;

/// `src` of the main preview image (id before src).
pub const PREVIEW_SRC_PATTERN: &'static str =
    r#"(?is)<img[^>]+id=["']previewImageMain["'][^>]+src=["']([^"']+)["']"#;

/// `data-src` of the main preview image (id before data-src).
pub const PREVIEW_DATA_SRC_PATTERN: &'static str =
    r#"(?is)<img[^>]+id=["']previewImageMain["'][^>]+data-src=["']([^"']+)["']"#;

/// `src` of the main preview image (src before id).
pub const SRC_PREVIEW_PATTERN: &'static str =
    r#"(?is)<img[^>]+src=["']([^"']+)["'][^>]+id=["']previewImageMain["']"#;

/// `data-src` of the main preview image (data-src before id).
pub const DATA_SRC_PREVIEW_PATTERN: &'static str =
    r#"(?is)<img[^>]+data-src=["']([^"']+)["'][^>]+id=["']previewImageMain["']"#;

/// `og:image` meta content (property before content).
pub const OG_IMAGE_PATTERN: &'static str =
    r#"(?is)<meta[^>]+property=["']og:image["'][^>]+content=["']([^"']+)["']"#;

/// `og:image` meta content (content before property).
pub const CONTENT_OG_IMAGE_PATTERN: &'static str =
    r#"(?is)<meta[^>]+content=["']([^"']+)["'][^>]+property=["']og:image["']"#;

/// A Steam user-content image address anywhere in the page.
pub const STEAMUSERCONTENT_IMAGE_PATTERN: &'static str =
    r#"(?is)https?://images\.steamusercontent\.com/ugc/[^"' <>)\\]+"#;

// ---------------------------------------------------------------------------
// Specifications
// ---------------------------------------------------------------------------

/// HTML tags of `v` replaced by single spaces.
pub open spec fn strip_tags(v: Seq<char>) -> Seq<char> {
    match regex_replaced(HTML_TAG_PATTERN@, v, " "@) {
        Some(r) => r,
        None => v,
    }
}

/// The HTML entities the application understands, decoded in this order.
pub open spec fn decode_entities(s: Seq<char>) -> Seq<char> {
    let s1 = replace_all(s, "&amp;"@, "&"@);
    let s2 = replace_all(s1, "&quot;"@, "\""@);
    let s3 = replace_all(s2, "&#39;"@, "'"@);
    let s4 = replace_all(s3, "&apos;"@, "'"@);
    let s5 = replace_all(s4, "&lt;"@, "<"@);
    let s6 = replace_all(s5, "&gt;"@, ">"@);
    replace_all(s6, "&nbsp;"@, " "@)
}

/// Visible text of an HTML fragment: tags dropped, entities decoded, words
/// separated by single spaces.
pub open spec fn clean_text(v: Seq<char>) -> Seq<char> {
    collapse_ws(decode_entities(strip_tags(v)))
}

/// The first of two optional values that is present.
pub open spec fn or_else<A>(a: Option<A>, b: Option<A>) -> Option<A> {
    match a {
        Some(x) => Some(x),
        None => b,
    }
}

/// Capture group 1 of `pattern` in `text`, cleaned, if that is not empty.
pub open spec fn cleaned_capture(pattern: Seq<char>, text: Seq<char>) -> Option<Seq<char>> {
    match capture_group_of(regex_first_captures(pattern, text), 1) {
        Some(g) => if clean_text(g).len() > 0 {
            Some(clean_text(g))
        } else {
            None
        },
        None => None,
    }
}

/// Title of a Workshop page: the item title element, else the `<title>`
/// element, without the " - Steam Workshop" suffix.
pub open spec fn page_title_spec(html: Seq<char>) -> Option<Seq<char>> {
    match or_else(
        cleaned_capture(WORKSHOP_TITLE_DIV_PATTERN@, html),
        cleaned_capture(TITLE_TAG_PATTERN@, html),
    ) {
        Some(t) => Some(replace_all(t, " - Steam Workshop"@, ""@)),
        None => None,
    }
}

/// Title shown on a collection card or next to a link.
pub open spec fn item_title_spec(block: Seq<char>) -> Option<Seq<char>> {
    or_else(
        cleaned_capture(WORKSHOP_TITLE_DIV_PATTERN@, block),
        cleaned_capture(TITLE_DIV_PATTERN@, block),
    )
}

/// Text of a link that can serve as a mod title: not blank, not a URL and
/// not the "instructions page" link.
pub open spec fn valid_link_text(v: Seq<char>) -> bool {
    let t = trim(v);
    &&& t.len() > 0
    &&& !starts_with(t, "http://"@)
    &&& !starts_with(t, "https://"@)
    &&& !eq_ignore_ascii_case(t, "instructions page"@)
}

/// Title used for an item whose page gives none.
pub open spec fn default_title(id: Seq<char>) -> Seq<char> {
    "Workshop Item "@ + id
}

/// Title chosen for a linked item: the card title, else usable link text,
/// else the default title.
pub open spec fn link_title(card_title: Option<Seq<char>>, link_text: Seq<char>, id: Seq<char>) -> Seq<char> {
    match card_title {
        Some(t) => if t.len() > 0 {
            t
        } else if valid_link_text(link_text) {
            link_text
        } else {
            default_title(id)
        },
        None => if valid_link_text(link_text) {
            link_text
        } else {
            default_title(id)
        },
    }
}

/// Some entry of `items` has id `id`.
pub open spec fn has_id(items: Seq<(Seq<char>, Seq<char>)>, id: Seq<char>) -> bool {
    exists|k: int| 0 <= k < items.len() && (#[trigger] items[k]).0 == id
}

/// Group `g` of a match, or the empty text.
pub open spec fn group_or_empty(groups: Seq<Option<Seq<char>>>, g: int) -> Seq<char> {
    match group_of(groups, g) {
        Some(t) => t,
        None => Seq::empty(),
    }
}

/// Items linked from the matches `all[i..]`, appended to `acc`: ids equal to
/// `excluded` or already listed are skipped.
pub open spec fn links_acc(
    all: Seq<Seq<Option<Seq<char>>>>,
    excluded: Seq<char>,
    i: int,
    acc: Seq<(Seq<char>, Seq<char>)>,
) -> Seq<(Seq<char>, Seq<char>)>
    decreases all.len() - i,
{
    if i < 0 || i >= all.len() {
        acc
    } else {
        let groups = all[i];
        match group_of(groups, 1) {
            None => links_acc(all, excluded, i + 1, acc),
            Some(id) => if id == excluded || has_id(acc, id) {
                links_acc(all, excluded, i + 1, acc)
            } else {
                let text = clean_text(group_or_empty(groups, 2));
                let title = link_title(item_title_spec(group_or_empty(groups, 0)), text, id);
                links_acc(all, excluded, i + 1, acc.push((id, title)))
            },
        }
    }
}

/// Workshop items linked from `html`, with their titles, in order of first
/// appearance, without `excluded`.
pub open spec fn workshop_links_spec(html: Seq<char>, excluded: Seq<char>) -> Seq<(Seq<char>, Seq<char>)> {
    links_acc(regex_all_captures(WORKSHOP_LINK_PATTERN@, html), excluded, 0, Seq::empty())
}

/// The part of a page from "Required items" (any case) to the first of the
/// markers that ends that section, or to the end of the page.
pub open spec fn marker_pos(after: Seq<char>, marker: Seq<char>) -> Option<int> {
    match find(after, marker) {
        Some(p) => if p > "required items"@.len() {
            Some(p)
        } else {
            None
        },
        None => None,
    }
}

pub open spec fn min_opt(a: Option<int>, b: Option<int>) -> Option<int> {
    match (a, b) {
        (Some(x), Some(y)) => Some(if x <= y { x } else { y }),
        (Some(x), None) => Some(x),
        (None, Some(y)) => Some(y),
        (None, None) => None,
    }
}

pub open spec fn section_end(after: Seq<char>) -> Option<int> {
    min_opt(
        marker_pos(after, "created by"@),
        min_opt(
            marker_pos(after, "subscribe to download"@),
            min_opt(
                marker_pos(after, "description"@),
                min_opt(marker_pos(after, "workshop id:"@), marker_pos(after, "popular discussions"@)),
            ),
        ),
    )
}

pub open spec fn required_section_spec(html: Seq<char>) -> Option<Seq<char>> {
    let lower = lower_ascii(html);
    match find(lower, "required items"@) {
        None => None,
        Some(start) => {
            let end = match section_end(lower.skip(start)) {
                Some(p) => start + p,
                None => html.len() as int,
            };
            Some(html.subrange(start, end))
        },
    }
}

/// Items a Workshop page lists under "Required items", without the page's
/// own item.
pub open spec fn required_items_spec(html: Seq<char>, own_id: Seq<char>) -> Seq<(Seq<char>, Seq<char>)> {
    match required_section_spec(html) {
        Some(section) => workshop_links_spec(section, own_id),
        None => Seq::empty(),
    }
}

/// The page mentions a collection.
pub open spec fn looks_like_collection_spec(html: Seq<char>) -> bool {
    let lower = lower_ascii(html);
    ||| contains(lower, "collectionchildren"@)
    ||| contains(lower, "workshopcollection"@)
    ||| contains(lower, "collectionitem"@)
    ||| contains(lower, "items in this collection"@)
}

/// A `div` tag text that closes an element.
pub open spec fn is_close_tag(t: Seq<char>) -> bool {
    t.len() >= 2 && t[0] == '<' && t[1] == '/'
}

/// Walking the `div` tags `spans[i..]` of `text` from nesting depth
/// `depth`: the end position of the tag that brings the depth to zero.
pub open spec fn div_depth_end(text: Seq<char>, spans: Seq<(usize, usize)>, i: int, depth: int) -> Option<int>
    decreases spans.len() - i,
{
    if i < 0 || i >= spans.len() {
        None
    } else {
        let sp = char_span(text, spans[i]);
        let d = if is_close_tag(text.subrange(sp.0, sp.1)) {
            depth - 1
        } else {
            depth + 1
        };
        if d == 0 {
            Some(sp.1)
        } else {
            div_depth_end(text, spans, i + 1, d)
        }
    }
}

/// End position of the `div` element opened at position `start` of `html`.
pub open spec fn matching_div_end_spec(html: Seq<char>, start: int) -> Option<int> {
    let rest = html.skip(start);
    match div_depth_end(rest, regex_match_spans(DIV_TAG_PATTERN@, rest), 0, 0) {
        Some(e) => Some(start + e),
        None => None,
    }
}

/// The collection card elements opened by `opens[i..]`, skipping openings
/// inside a card already taken (before `last_end`).
pub open spec fn blocks_from(html: Seq<char>, opens: Seq<(usize, usize)>, i: int, last_end: int) -> Seq<Seq<char>>
    decreases opens.len() - i,
{
    if i < 0 || i >= opens.len() {
        Seq::empty()
    } else {
        let s = char_span(html, opens[i]).0;
        if s < last_end {
            blocks_from(html, opens, i + 1, last_end)
        } else {
            match matching_div_end_spec(html, s) {
                Some(e) => seq![html.subrange(s, e)] + blocks_from(html, opens, i + 1, e),
                None => blocks_from(html, opens, i + 1, last_end),
            }
        }
    }
}

/// The collection card elements of a page, outermost first.
pub open spec fn collection_blocks_spec(html: Seq<char>) -> Seq<Seq<char>> {
    blocks_from(html, regex_match_spans(COLLECTION_ITEM_DIV_PATTERN@, html), 0, 0)
}

/// What a collection card gives: the id of the item it links to (if any),
/// its card title, and the cleaned text of the link.
pub type CardView = (Option<Seq<char>>, Option<Seq<char>>, Seq<char>);

/// The card read from a collection card's HTML `block`: no id when it has
/// no item link.
pub open spec fn card_of(block: Seq<char>) -> CardView {
    match regex_first_captures(WORKSHOP_LINK_PATTERN@, block) {
        None => (None, None, Seq::empty()),
        Some(groups) => match group_of(groups, 1) {
            None => (None, None, Seq::empty()),
            Some(id) => (Some(id), item_title_spec(block), clean_text(group_or_empty(groups, 2))),
        },
    }
}

/// Children of a collection from cards `cards[i..]`, appended to `acc`:
/// cards without an id, for the collection itself, or for an item already
/// listed are skipped; each child is titled by its card title, else its
/// link text when that can serve as a title, else the default title.
pub open spec fn cards_acc(
    cards: Seq<CardView>,
    collection_id: Seq<char>,
    i: int,
    acc: Seq<(Seq<char>, Seq<char>)>,
) -> Seq<(Seq<char>, Seq<char>)>
    decreases cards.len() - i,
{
    if i < 0 || i >= cards.len() {
        acc
    } else {
        match cards[i].0 {
            None => cards_acc(cards, collection_id, i + 1, acc),
            Some(id) => if id == collection_id || has_id(acc, id) {
                cards_acc(cards, collection_id, i + 1, acc)
            } else {
                cards_acc(cards, collection_id, i + 1, acc.push((id, link_title(cards[i].1, cards[i].2, id))))
            },
        }
    }
}

/// The child items of a collection page, with their titles.
pub open spec fn collection_items_spec(html: Seq<char>, collection_id: Seq<char>) -> Seq<(Seq<char>, Seq<char>)> {
    cards_acc(collection_blocks_spec(html).map_values(|b: Seq<char>| card_of(b)), collection_id, 0, Seq::empty())
}

/// Capture group 1 of `pattern` in `text`, trimmed, if that is not empty.
pub open spec fn trimmed_capture(pattern: Seq<char>, text: Seq<char>) -> Option<Seq<char>> {
    match capture_group_of(regex_first_captures(pattern, text), 1) {
        Some(g) => if trim(g).len() > 0 {
            Some(trim(g))
        } else {
            None
        },
        None => None,
    }
}

pub open spec fn author_spec(html: Seq<char>) -> Option<Seq<char>> {
    or_else(
        cleaned_capture(AUTHOR_FRIEND_BLOCK_PATTERN@, html),
        or_else(
            cleaned_capture(AUTHOR_NAME_PATTERN@, html),
            cleaned_capture(AUTHOR_CREATED_BY_PATTERN@, html),
        ),
    )
}

pub open spec fn mod_version_spec(html: Seq<char>) -> Option<Seq<char>> {
    let text = clean_text(html);
    or_else(trimmed_capture(MOD_VERSION_PATTERN@, text), trimmed_capture(VERSION_PATTERN@, text))
}

pub open spec fn supported_version_spec(html: Seq<char>) -> Option<Seq<char>> {
    match capture_group_of(regex_first_captures(BUILD_PATTERN@, clean_text(html)), 1) {
        Some(g) => Some("Build "@ + g),
        None => None,
    }
}

/// An image URL found in a page, entities and escaped slashes decoded.
pub open spec fn normalize_image_url_spec(v: Seq<char>) -> Seq<char> {
    trim(replace_all(decode_entities(v), "\\/"@, "/"@))
}

/// A Steam user-content image address.
pub open spec fn is_image_url_spec(v: Seq<char>) -> bool {
    &&& (starts_with(v, "http://"@) || starts_with(v, "https://"@))
    &&& (contains(v, "images.steamusercontent.com/ugc/"@) || contains(
        v,
        "steamuserimages-a.akamaihd.net/ugc/"@,
    ))
}

pub open spec fn poster_capture(pattern: Seq<char>, html: Seq<char>) -> Option<Seq<char>> {
    match capture_group_of(regex_first_captures(pattern, html), 1) {
        Some(g) => if is_image_url_spec(normalize_image_url_spec(g)) {
            Some(normalize_image_url_spec(g))
        } else {
            None
        },
        None => None,
    }
}

/// The first of the matches `spans[i..]` of `text` that is an image URL.
pub open spec fn first_image_in_spans(text: Seq<char>, spans: Seq<(usize, usize)>, i: int) -> Option<Seq<char>>
    decreases spans.len() - i,
{
    if i < 0 || i >= spans.len() {
        None
    } else {
        let sp = char_span(text, spans[i]);
        let n = normalize_image_url_spec(text.subrange(sp.0, sp.1));
        if is_image_url_spec(n) {
            Some(n)
        } else {
            first_image_in_spans(text, spans, i + 1)
        }
    }
}

pub open spec fn steamusercontent_image_spec(html: Seq<char>) -> Option<Seq<char>> {
    let text = replace_all(html, "\\/"@, "/"@);
    first_image_in_spans(text, regex_match_spans(STEAMUSERCONTENT_IMAGE_PATTERN@, text), 0)
}

pub open spec fn poster_spec(html: Seq<char>) -> Option<Seq<char>> {
    or_else(
        poster_capture(PREVIEW_SRC_PATTERN@, html),
        or_else(
            poster_capture(PREVIEW_DATA_SRC_PATTERN@, html),
            or_else(
                poster_capture(SRC_PREVIEW_PATTERN@, html),
                or_else(
                    poster_capture(DATA_SRC_PREVIEW_PATTERN@, html),
                    or_else(
                        poster_capture(OG_IMAGE_PATTERN@, html),
                        or_else(
                            poster_capture(CONTENT_OG_IMAGE_PATTERN@, html),
                            steamusercontent_image_spec(html),
                        ),
                    ),
                ),
            ),
        ),
    )
}

// ---------------------------------------------------------------------------
// Executable functions
// ---------------------------------------------------------------------------

/// `str::replace` with a literal pattern.
pub fn replace_lit(v: &Vec<char>, from: &str, to: &str) -> (res: Vec<char>)
    requires
        from@.len() > 0,
    ensures
        res@ == replace_all(v@, from@, to@),
{
    let f = chars_of(from);
    let t = chars_of(to);
    replace_chars(v, &f, &t)
}

/// HTML entity decoding on characters.
pub fn decode_entities_chars(v: &Vec<char>) -> (res: Vec<char>)
    ensures
        res@ == decode_entities(v@),
{
    proof {
        reveal_strlit("&amp;");
        reveal_strlit("&quot;");
        reveal_strlit("&#39;");
        reveal_strlit("&apos;");
        reveal_strlit("&lt;");
        reveal_strlit("&gt;");
        reveal_strlit("&nbsp;");
    }
    let v1 = replace_lit(v, "&amp;", "&");
    let v2 = replace_lit(&v1, "&quot;", "\"");
    let v3 = replace_lit(&v2, "&#39;", "'");
    let v4 = replace_lit(&v3, "&apos;", "'");
    let v5 = replace_lit(&v4, "&lt;", "<");
    let v6 = replace_lit(&v5, "&gt;", ">");
    replace_lit(&v6, "&nbsp;", " ")
}

/// Decodes the HTML entities `&amp;`, `&quot;`, `&#39;`, `&apos;`, `&lt;`,
/// `&gt;` and `&nbsp;`.
pub fn decode_html_entities(value: &str) -> (res: String)
    ensures
        res@ == decode_entities(value@),
{
    let v = chars_of(value);
    let d = decode_entities_chars(&v);
    string_of(&d)
}

/// The visible text of `value` once its tags have been replaced by spaces
/// (`without_tags`; `None` when that replacement could not be made, and
/// `value` is then taken as it is): entities decoded, whitespace collapsed.
pub fn visible_text(without_tags: Option<String>, value: &str) -> (res: String)
    ensures
        res@ == collapse_ws(
            decode_entities(
                match without_tags {
                    Some(r) => r@,
                    None => value@,
                },
            ),
        ),
{
    let text = match without_tags {
        Some(r) => chars_of(r.as_str()),
        None => chars_of(value),
    };
    let decoded = decode_entities_chars(&text);
    let collapsed = collapse_ws_chars(&decoded);
    string_of(&collapsed)
}

/// The visible text of an HTML fragment, whitespace collapsed.
pub fn clean_html_text(value: &str) -> (res: String)
    ensures
        res@ == clean_text(value@),
{
    let without_tags = regex_replace_all(HTML_TAG_PATTERN, value, " ");
    visible_text(without_tags, value)
}

/// Capture group 1 of `pattern` in `text`, cleaned, if not empty.
pub fn cleaned_capture_of(pattern: &str, text: &str) -> (res: Option<String>)
    ensures
        res.deep_view() == cleaned_capture(pattern@, text@),
{
    match capture_group(pattern, text, 1) {
        Some(g) => {
            let c = clean_html_text(g.as_str());
            if c.as_str().is_empty() {
                None
            } else {
                Some(c)
            }
        },
        None => None,
    }
}

/// Title of a Workshop page.
pub fn page_title(html: &str) -> (res: Option<String>)
    ensures
        res.deep_view() == page_title_spec(html@),
{
    let found = match cleaned_capture_of(WORKSHOP_TITLE_DIV_PATTERN, html) {
        Some(t) => Some(t),
        None => cleaned_capture_of(TITLE_TAG_PATTERN, html),
    };
    match found {
        Some(t) => {
            let v = chars_of(t.as_str());
            proof {
                reveal_strlit(" - Steam Workshop");
            }
            let r = replace_lit(&v, " - Steam Workshop", "");
            Some(string_of(&r))
        },
        None => None,
    }
}

/// Title of a collection card or of the element around a link.
pub fn collection_item_title(block: &str) -> (res: Option<String>)
    ensures
        res.deep_view() == item_title_spec(block@),
{
    match cleaned_capture_of(WORKSHOP_TITLE_DIV_PATTERN, block) {
        Some(t) => Some(t),
        None => cleaned_capture_of(TITLE_DIV_PATTERN, block),
    }
}

/// Whether link text can serve as a mod title.
pub fn valid_workshop_link_text(value: &str) -> (res: bool)
    ensures
        res == valid_link_text(value@),
{
    let v = chars_of(value);
    let t = trim_chars(&v);
    if t.len() == 0 {
        return false;
    }
    let http = chars_of("http://");
    let https = chars_of("https://");
    if starts_with_chars(&t, &http) || starts_with_chars(&t, &https) {
        return false;
    }
    let lowered = lower_ascii_chars(&t);
    let instructions = chars_of("instructions page");
    let lowered_instructions = lower_ascii_chars(&instructions);
    !chars_eq(&lowered, &lowered_instructions)
}

/// Equality of character sequences.
pub fn chars_eq(a: &Vec<char>, b: &Vec<char>) -> (res: bool)
    ensures
        res == (a@ == b@),
{
    if a.len() != b.len() {
        return false;
    }
    let n = a.len();
    for i in 0..n
        invariant
            n == a.len(),
            n == b.len(),
            forall|k: int| 0 <= k < i ==> a@[k] == b@[k],
    {
        if a[i] != b[i] {
            return false;
        }
    }
    assert(a@ =~= b@);
    true
}

/// Equality of strings.
pub fn str_eq(a: &str, b: &str) -> (res: bool)
    ensures
        res == (a@ == b@),
{
    let x = chars_of(a);
    let y = chars_of(b);
    chars_eq(&x, &y)
}

/// `format!("Workshop Item {id}")`.
pub fn default_title_string(id: &str) -> (res: String)
    ensures
        res@ == default_title(id@),
{
    let prefix = chars_of("Workshop Item ");
    let idc = chars_of(id);
    let all = concat_chars(&prefix, &idc);
    string_of(&all)
}

/// The title chosen for a linked item.
pub fn choose_link_title(card_title: Option<String>, link_text: String, id: &str) -> (res: String)
    ensures
        res@ == link_title(card_title.deep_view(), link_text@, id@),
{
    match card_title {
        Some(t) => {
            if !t.as_str().is_empty() {
                return t;
            }
        },
        None => {},
    }
    if valid_workshop_link_text(link_text.as_str()) {
        link_text
    } else {
        default_title_string(id)
    }
}

/// Some entry of `items` has id `id`.
pub fn contains_id(items: &Vec<(String, String)>, id: &str) -> (res: bool)
    ensures
        res == has_id(items.deep_view(), id@),
{
    let n = items.len();
    for i in 0..n
        invariant
            n == items.len(),
            forall|k: int| 0 <= k < i ==> (#[trigger] items.deep_view()[k]).0 != id@,
    {
        if str_eq(items[i].0.as_str(), id) {
            assert(items.deep_view()[i as int].0 == id@);
            return true;
        }
    }
    false
}

/// Group `g` of a match's groups, or the empty string.
pub fn group_or_empty_text(groups: &Vec<Option<String>>, g: usize) -> (res: String)
    ensures
        res@ == group_or_empty(groups.deep_view(), g as int),
{
    match group_text(groups, g) {
        Some(t) => t,
        None => String::new(),
    }
}

/// Workshop items linked from `html`, in order of first appearance, with
/// their titles; `excluded_id` and repeated ids are skipped.
pub fn workshop_links_from_html(html: &str, excluded_id: &str) -> (res: Vec<(String, String)>)
    ensures
        res.deep_view() == workshop_links_spec(html@, excluded_id@),
{
    let all = regex_captures_all(WORKSHOP_LINK_PATTERN, html);
    links_from_captures(&all, excluded_id)
}

/// The linked items of a page from the capture groups of its link matches
/// (group 0 the whole link, 1 the id, 2 the link content).
pub fn links_from_captures(all: &Vec<Vec<Option<String>>>, excluded_id: &str) -> (res: Vec<(String, String)>)
    ensures
        res.deep_view() == links_acc(all.deep_view(), excluded_id@, 0, Seq::empty()),
{
    let mut items: Vec<(String, String)> = Vec::new();
    assert(items.deep_view() =~= Seq::empty());
    let n = all.len();
    for i in 0..n
        invariant
            n == all.len(),
            links_acc(all.deep_view(), excluded_id@, 0, Seq::empty()) == links_acc(
                all.deep_view(),
                excluded_id@,
                i as int,
                items.deep_view(),
            ),
    {
        let groups = &all[i];
        assert(all.deep_view()[i as int] == groups.deep_view());
        match group_text(groups, 1) {
            None => {},
            Some(id) => {
                if str_eq(id.as_str(), excluded_id) || contains_id(&items, id.as_str()) {
                } else {
                    let raw_text = group_or_empty_text(groups, 2);
                    let text = clean_html_text(raw_text.as_str());
                    let whole = group_or_empty_text(groups, 0);
                    let card = collection_item_title(whole.as_str());
                    let title = choose_link_title(card, text, id.as_str());
                    let ghost before = items.deep_view();
                    items.push((id, title));
                    assert(items.deep_view() =~= before.push((id@, title@)));
                }
            },
        }
    }
    items
}

/// Whether the page mentions a Workshop collection.
pub fn looks_like_collection_page(html: &str) -> (res: bool)
    ensures
        res == looks_like_collection_spec(html@),
{
    let v = chars_of(html);
    let lower = lower_ascii_chars(&v);
    contains_chars(&lower, &chars_of("collectionchildren")) || contains_chars(
        &lower,
        &chars_of("workshopcollection"),
    ) || contains_chars(&lower, &chars_of("collectionitem")) || contains_chars(
        &lower,
        &chars_of("items in this collection"),
    )
}

/// Position of `marker` in `after`, if it lies beyond the section heading.
fn marker_position(after: &Vec<char>, marker: &str, heading_len: usize) -> (res: Option<usize>)
    requires
        heading_len == "required items"@.len(),
    ensures
        res matches Some(p) ==> marker_pos(after@, marker@) == Some(p as int) && p <= after@.len(),
        res is None ==> marker_pos(after@, marker@) is None,
{
    let m = chars_of(marker);
    proof {
        lemma_find_from_some(after@, m@, 0);
    }
    match find_chars(after, &m) {
        Some(p) => if p > heading_len {
            Some(p)
        } else {
            None
        },
        None => None,
    }
}

fn min_position(a: Option<usize>, b: Option<usize>) -> (res: Option<usize>)
    ensures
        res matches Some(p) ==> min_opt(
            match a { Some(x) => Some(x as int), None => None },
            match b { Some(x) => Some(x as int), None => None },
        ) == Some(p as int),
        res is None ==> min_opt(
            match a { Some(x) => Some(x as int), None => None },
            match b { Some(x) => Some(x as int), None => None },
        ) is None,
        res matches Some(p) ==> a == Some(p) || b == Some(p),
{
    match (a, b) {
        (Some(x), Some(y)) => Some(if x <= y { x } else { y }),
        (Some(x), None) => Some(x),
        (None, Some(y)) => Some(y),
        (None, None) => None,
    }
}

/// The "Required items" section of a Workshop page.
pub fn required_items_section(html: &str) -> (res: Option<&str>)
    ensures
        res matches Some(r) ==> required_section_spec(html@) == Some(r@),
        res is None ==> required_section_spec(html@) is None,
{
    let v = chars_of(html);
    let lower = lower_ascii_chars(&v);
    let heading = chars_of("required items");
    let start = match find_chars(&lower, &heading) {
        Some(s) => s,
        None => return None,
    };
    proof {
        lemma_find_from_some(lower@, heading@, 0);
    }
    let after = slice_chars(&lower, start, lower.len());
    assert(after@ =~= lower@.skip(start as int));
    let hl = heading.len();
    let p1 = marker_position(&after, "created by", hl);
    let p2 = marker_position(&after, "subscribe to download", hl);
    let p3 = marker_position(&after, "description", hl);
    let p4 = marker_position(&after, "workshop id:", hl);
    let p5 = marker_position(&after, "popular discussions", hl);
    let m45 = min_position(p4, p5);
    let m345 = min_position(p3, m45);
    let m2345 = min_position(p2, m345);
    let m = min_position(p1, m2345);
    let end = match m {
        Some(p) => start + p,
        None => v.len(),
    };
    Some(html.substring_char(start, end))
}

/// Items listed under "Required items" on a Workshop page.
pub fn required_items_from_html(html: &str, publishedfileid: &str) -> (res: Vec<(String, String)>)
    ensures
        res.deep_view() == required_items_spec(html@, publishedfileid@),
{
    match required_items_section(html) {
        Some(section) => workshop_links_from_html(section, publishedfileid),
        None => Vec::new(),
    }
}

/// End position (exclusive) of the `div` element whose opening tag starts
/// at character position `start` of `html`.
pub fn matching_div_end(html: &str, start: usize) -> (res: Option<usize>)
    requires
        start <= html@.len(),
    ensures
        res matches Some(e) ==> matching_div_end_spec(html@, start as int) == Some(e as int),
        res is None ==> matching_div_end_spec(html@, start as int) is None,
{
    let v = chars_of(html);
    matching_div_end_chars(&v, start)
}

fn matching_div_end_chars(html: &Vec<char>, start: usize) -> (res: Option<usize>)
    requires
        start <= html@.len(),
    ensures
        res matches Some(e) ==> matching_div_end_spec(html@, start as int) == Some(e as int)
            && start <= e <= html@.len(),
        res is None ==> matching_div_end_spec(html@, start as int) is None,
{
    let rest = slice_chars(html, start, html.len());
    assert(rest@ =~= html@.skip(start as int));
    let rest_text = string_of(&rest);
    let spans = regex_find_spans(DIV_TAG_PATTERN, rest_text.as_str());
    match div_end_from_spans(&rest, &spans) {
        Some(e) => Some(start + e),
        None => None,
    }
}

/// Walking the `div` tags at byte ranges `spans` of `text` (whose characters
/// are `text`): the character position just after the tag that closes the
/// first one opened.
pub fn div_end_from_spans(text: &Vec<char>, spans: &Vec<(usize, usize)>) -> (res: Option<usize>)
    requires
        forall|k: int| 0 <= k < spans@.len() ==> (#[trigger] spans@[k]).0 <= spans@[k].1,
    ensures
        res matches Some(e) ==> div_depth_end(text@, spans@, 0, 0) == Some(e as int) && e <= text@.len(),
        res is None ==> div_depth_end(text@, spans@, 0, 0) is None,
{
    let tags = char_spans_of(text, spans);
    let mut opens: usize = 0;
    let mut closes: usize = 0;
    let n = tags.len();
    for i in 0..n
        invariant
            n == tags@.len(),
            n == spans@.len(),
            forall|k: int|
                0 <= k < n ==> (#[trigger] tags@[k]).0 == char_span(text@, spans@[k]).0 && tags@[k].1
                    == char_span(text@, spans@[k]).1,
            forall|k: int| 0 <= k < n ==> (#[trigger] tags@[k]).0 <= tags@[k].1 <= text@.len(),
            opens + closes == i,
            div_depth_end(text@, spans@, 0, 0) == div_depth_end(
                text@,
                spans@,
                i as int,
                opens - closes,
            ),
    {
        let (cs, ce) = tags[i];
        let is_close = ce - cs >= 2 && text[cs] == '<' && text[cs + 1] == '/';
        assert(is_close == is_close_tag(text@.subrange(cs as int, ce as int)));
        if is_close {
            closes = closes + 1;
        } else {
            opens = opens + 1;
        }
        if opens == closes {
            return Some(ce);
        }
    }
    None
}

/// The collection card elements of a page (`div`s whose class names a
/// collection item), each from its opening tag to its matching closing tag;
/// cards nested in an earlier card are not listed again.
pub fn collection_item_blocks(html: &str) -> (res: Vec<&str>)
    ensures
        res.deep_view() == collection_blocks_spec(html@),
{
    let v = chars_of(html);
    let opens = find_char_spans(COLLECTION_ITEM_DIV_PATTERN, html, &v);
    let ghost spans = regex_match_spans(COLLECTION_ITEM_DIV_PATTERN@, html@);
    let mut blocks: Vec<&str> = Vec::new();
    let mut last_end: usize = 0;
    let n = opens.len();
    assert(blocks.deep_view() =~= Seq::<Seq<char>>::empty());
    for i in 0..n
        invariant
            n == opens@.len(),
            n == spans.len(),
            v@ == html@,
            spans == regex_match_spans(COLLECTION_ITEM_DIV_PATTERN@, html@),
            forall|k: int|
                0 <= k < n ==> (#[trigger] opens@[k]).0 == char_span(html@, spans[k]).0
                    && opens@[k].1 == char_span(html@, spans[k]).1,
            forall|k: int| 0 <= k < n ==> (#[trigger] opens@[k]).0 <= opens@[k].1 <= html@.len(),
            blocks.deep_view() + blocks_from(html@, spans, i as int, last_end as int)
                == collection_blocks_spec(html@),
    {
        let s = opens[i].0;
        if s < last_end {
        } else {
            match matching_div_end_chars(&v, s) {
                Some(e) => {
                    let block = html.substring_char(s, e);
                    let ghost before = blocks.deep_view();
                    blocks.push(block);
                    assert(blocks.deep_view() =~= before.push(block@));
                    assert(before + blocks_from(html@, spans, i as int, last_end as int) =~= before
                        + seq![block@] + blocks_from(html@, spans, i + 1, e as int));
                    last_end = e;
                },
                None => {},
            }
        }
    }
    assert(blocks.deep_view() + blocks_from(html@, spans, n as int, last_end as int)
        =~= blocks.deep_view());
    blocks
}

/// The children of a collection read from its cards (`(id, card title,
/// link text)`, see `cards_acc`), in order, without the collection itself
/// and without repeats.
pub fn collection_items_from_cards(
    cards: &Vec<(Option<String>, Option<String>, String)>,
    collection_id: &str,
) -> (res: Vec<(String, String)>)
    ensures
        res.deep_view() == cards_acc(cards.deep_view(), collection_id@, 0, Seq::empty()),
{
    let mut items: Vec<(String, String)> = Vec::new();
    assert(items.deep_view() =~= Seq::empty());
    let n = cards.len();
    for i in 0..n
        invariant
            n == cards.len(),
            cards_acc(cards.deep_view(), collection_id@, 0, Seq::empty()) == cards_acc(
                cards.deep_view(),
                collection_id@,
                i as int,
                items.deep_view(),
            ),
    {
        let (id, card_title, link_text) = &cards[i];
        assert(cards.deep_view()[i as int] == (id.deep_view(), card_title.deep_view(), link_text@));
        match id {
            None => {},
            Some(id) => {
                if str_eq(id.as_str(), collection_id) || contains_id(&items, id.as_str()) {
                } else {
                    let title = choose_link_title(card_title.clone(), link_text.clone(), id.as_str());
                    let ghost before = items.deep_view();
                    items.push((id.clone(), title));
                    assert(items.deep_view() =~= before.push((id@, title@)));
                }
            },
        }
    }
    items
}

/// The card of a collection card's HTML `block` (see `card_of`).
pub fn card_of_block(block: &str) -> (res: (Option<String>, Option<String>, String))
    ensures
        res.deep_view() == card_of(block@),
{
    match regex_captures(WORKSHOP_LINK_PATTERN, block) {
        None => (None, None, String::new()),
        Some(groups) => match group_text(&groups, 1) {
            None => (None, None, String::new()),
            Some(id) => {
                let raw_text = group_or_empty_text(&groups, 2);
                let text = clean_html_text(raw_text.as_str());
                let card = collection_item_title(block);
                (Some(id), card, text)
            },
        },
    }
}

/// Child items of a collection page, with their titles, in page order;
/// the collection itself and repeated ids are skipped.
pub fn collection_items_from_html(html: &str, collection_id: &str) -> (res: Vec<(String, String)>)
    ensures
        res.deep_view() == collection_items_spec(html@, collection_id@),
{
    let blocks = collection_item_blocks(html);
    let mut cards: Vec<(Option<String>, Option<String>, String)> = Vec::new();
    let n = blocks.len();
    for i in 0..n
        invariant
            n == blocks.len(),
            cards.deep_view() == blocks.deep_view().take(i as int).map_values(|b: Seq<char>| card_of(b)),
    {
        let block: &str = blocks[i];
        assert(blocks.deep_view()[i as int] == block@);
        let card = card_of_block(block);
        let ghost before = cards.deep_view();
        cards.push(card);
        assert(cards.deep_view() =~= before.push(card.deep_view()));
        assert(blocks.deep_view().take(i + 1).map_values(|b: Seq<char>| card_of(b)) =~= blocks.deep_view().take(
            i as int,
        ).map_values(|b: Seq<char>| card_of(b)).push(card_of(block@)));
    }
    assert(blocks.deep_view().take(n as int) =~= blocks.deep_view());
    collection_items_from_cards(&cards, collection_id)
}

/// Capture group 1 of `pattern` in `text`, trimmed, if not empty.
pub fn trimmed_capture_of(pattern: &str, text: &str) -> (res: Option<String>)
    ensures
        res.deep_view() == trimmed_capture(pattern@, text@),
{
    match capture_group(pattern, text, 1) {
        Some(g) => {
            let t = trim_str(g.as_str());
            if t.as_str().is_empty() {
                None
            } else {
                Some(t)
            }
        },
        None => None,
    }
}

/// The author named on a Workshop page.
pub fn workshop_author_from_html(html: &str) -> (res: Option<String>)
    ensures
        res.deep_view() == author_spec(html@),
{
    match cleaned_capture_of(AUTHOR_FRIEND_BLOCK_PATTERN, html) {
        Some(a) => Some(a),
        None => match cleaned_capture_of(AUTHOR_NAME_PATTERN, html) {
            Some(a) => Some(a),
            None => cleaned_capture_of(AUTHOR_CREATED_BY_PATTERN, html),
        },
    }
}

/// The mod version stated in a Workshop page's text.
pub fn workshop_mod_version_from_html(html: &str) -> (res: Option<String>)
    ensures
        res.deep_view() == mod_version_spec(html@),
{
    let text = clean_html_text(html);
    match trimmed_capture_of(MOD_VERSION_PATTERN, text.as_str()) {
        Some(v) => Some(v),
        None => trimmed_capture_of(VERSION_PATTERN, text.as_str()),
    }
}

/// The game build a Workshop page says the mod supports ("Build 42").
pub fn workshop_supported_version_from_html(html: &str) -> (res: Option<String>)
    ensures
        res.deep_view() == supported_version_spec(html@),
{
    let text = clean_html_text(html);
    match capture_group(BUILD_PATTERN, text.as_str(), 1) {
        Some(g) => {
            let prefix = chars_of("Build ");
            let gc = chars_of(g.as_str());
            let all = concat_chars(&prefix, &gc);
            Some(string_of(&all))
        },
        None => None,
    }
}

/// An image URL as found in a page: entities and `\/` decoded, trimmed.
pub fn normalize_workshop_image_url(value: &str) -> (res: String)
    ensures
        res@ == normalize_image_url_spec(value@),
{
    let v = chars_of(value);
    let d = decode_entities_chars(&v);
    proof {
        reveal_strlit("\\/");
    }
    let r = replace_lit(&d, "\\/", "/");
    let t = trim_chars(&r);
    string_of(&t)
}

/// Whether `value` is a Steam user-content image URL.
pub fn is_workshop_image_url(value: &str) -> (res: bool)
    ensures
        res == is_image_url_spec(value@),
{
    let v = chars_of(value);
    (starts_with_chars(&v, &chars_of("http://")) || starts_with_chars(&v, &chars_of("https://")))
        && (contains_chars(&v, &chars_of("images.steamusercontent.com/ugc/")) || contains_chars(
        &v,
        &chars_of("steamuserimages-a.akamaihd.net/ugc/"),
    ))
}

/// Capture group 1 of `pattern` in `html`, normalized, if it is an image URL.
pub fn poster_capture_of(pattern: &str, html: &str) -> (res: Option<String>)
    ensures
        res.deep_view() == poster_capture(pattern@, html@),
{
    match capture_group(pattern, html, 1) {
        Some(g) => {
            let n = normalize_workshop_image_url(g.as_str());
            if is_workshop_image_url(n.as_str()) {
                Some(n)
            } else {
                None
            }
        },
        None => None,
    }
}

/// The first Steam user-content image address written anywhere in the page
/// (escaped slashes `\/` read as `/`).
pub fn steamusercontent_image_from_html(html: &str) -> (res: Option<String>)
    ensures
        res.deep_view() == steamusercontent_image_spec(html@),
{
    let v = chars_of(html);
    proof {
        reveal_strlit("\\/");
    }
    let normalized = replace_lit(&v, "\\/", "/");
    let text = string_of(&normalized);
    let spans = regex_find_spans(STEAMUSERCONTENT_IMAGE_PATTERN, text.as_str());
    first_image_from_spans(&normalized, &spans)
}

/// The first of the matches at byte ranges `spans` of `text` that is a
/// Steam user-content image address, normalized.
pub fn first_image_from_spans(text: &Vec<char>, spans: &Vec<(usize, usize)>) -> (res: Option<String>)
    requires
        forall|k: int| 0 <= k < spans@.len() ==> (#[trigger] spans@[k]).0 <= spans@[k].1,
    ensures
        res.deep_view() == first_image_in_spans(text@, spans@, 0),
{
    let cspans = char_spans_of(text, spans);
    let n = cspans.len();
    for i in 0..n
        invariant
            n == cspans@.len(),
            n == spans@.len(),
            forall|k: int|
                0 <= k < n ==> (#[trigger] cspans@[k]).0 == char_span(text@, spans@[k]).0
                    && cspans@[k].1 == char_span(text@, spans@[k]).1,
            forall|k: int| 0 <= k < n ==> (#[trigger] cspans@[k]).0 <= cspans@[k].1 <= text@.len(),
            first_image_in_spans(text@, spans@, 0) == first_image_in_spans(text@, spans@, i as int),
    {
        let (a, b) = cspans[i];
        let piece = slice_chars(text, a, b);
        let piece_text = string_of(&piece);
        let url = normalize_workshop_image_url(piece_text.as_str());
        if is_workshop_image_url(url.as_str()) {
            return Some(url);
        }
    }
    None
}

/// The poster image URL of a Workshop page.
pub fn workshop_poster_from_html(html: &str) -> (res: Option<String>)
    ensures
        res.deep_view() == poster_spec(html@),
{
    if let Some(p) = poster_capture_of(PREVIEW_SRC_PATTERN, html) {
        return Some(p);
    }
    if let Some(p) = poster_capture_of(PREVIEW_DATA_SRC_PATTERN, html) {
        return Some(p);
    }
    if let Some(p) = poster_capture_of(SRC_PREVIEW_PATTERN, html) {
        return Some(p);
    }
    if let Some(p) = poster_capture_of(DATA_SRC_PREVIEW_PATTERN, html) {
        return Some(p);
    }
    if let Some(p) = poster_capture_of(OG_IMAGE_PATTERN, html) {
        return Some(p);
    }
    if let Some(p) = poster_capture_of(CONTENT_OG_IMAGE_PATTERN, html) {
        return Some(p);
    }
    steamusercontent_image_from_html(html)
}

/// Metadata read from a Workshop page, used when a local mod lacks it.
#[derive(Clone, Debug)]
pub struct WorkshopLocalFallback {
    pub title: Option<String>,
    pub author: Option<String>,
    pub mod_version: Option<String>,
    pub supported_version: Option<String>,
    pub poster_url: Option<String>,
}

impl WorkshopLocalFallback {
    /// A fallback that knows nothing.
    pub fn empty() -> (res: Self)
        ensures
            res.title is None,
            res.author is None,
            res.mod_version is None,
            res.supported_version is None,
            res.poster_url is None,
    {
        WorkshopLocalFallback {
            title: None,
            author: None,
            mod_version: None,
            supported_version: None,
            poster_url: None,
        }
    }
}

/// Title, author, mod version, supported build and poster of a Workshop page.
pub fn workshop_local_fallback_from_html(html: &str) -> (res: WorkshopLocalFallback)
    ensures
        res.title.deep_view() == page_title_spec(html@),
        res.author.deep_view() == author_spec(html@),
        res.mod_version.deep_view() == mod_version_spec(html@),
        res.supported_version.deep_view() == supported_version_spec(html@),
        res.poster_url.deep_view() == poster_spec(html@),
{
    WorkshopLocalFallback {
        title: page_title(html),
        author: workshop_author_from_html(html),
        mod_version: workshop_mod_version_from_html(html),
        supported_version: workshop_supported_version_from_html(html),
        poster_url: workshop_poster_from_html(html),
    }
}

// ---------------------------------------------------------------------------
// Laws
// ---------------------------------------------------------------------------

/// Every entry has an id other than `excluded`, and no two share an id.
pub open spec fn distinct_ids_without(items: Seq<(Seq<char>, Seq<char>)>, excluded: Seq<char>) -> bool {
    &&& forall|k: int| 0 <= k < items.len() ==> (#[trigger] items[k]).0 != excluded
    &&& forall|a: int, b: int| 0 <= a < b < items.len() ==> (#[trigger] items[a]).0 != (#[trigger] items[b]).0
}

proof fn lemma_push_distinct(acc: Seq<(Seq<char>, Seq<char>)>, excluded: Seq<char>, id: Seq<char>, title: Seq<char>)
    requires
        distinct_ids_without(acc, excluded),
        id != excluded,
        !has_id(acc, id),
    ensures
        distinct_ids_without(acc.push((id, title)), excluded),
{
    let r = acc.push((id, title));
    assert forall|a: int, b: int| 0 <= a < b < r.len() implies (#[trigger] r[a]).0 != (#[trigger] r[b]).0 by {
        if b == acc.len() {
            assert(r[a] == acc[a]);
        } else {
            assert(r[a] == acc[a]);
            assert(r[b] == acc[b]);
        }
    }
    assert forall|k: int| 0 <= k < r.len() implies (#[trigger] r[k]).0 != excluded by {
        if k < acc.len() {
            assert(r[k] == acc[k]);
        }
    }
}

proof fn lemma_links_acc_distinct(
    all: Seq<Seq<Option<Seq<char>>>>,
    excluded: Seq<char>,
    i: int,
    acc: Seq<(Seq<char>, Seq<char>)>,
)
    requires
        0 <= i,
        distinct_ids_without(acc, excluded),
    ensures
        distinct_ids_without(links_acc(all, excluded, i, acc), excluded),
    decreases all.len() - i,
{
    if i < all.len() {
        let groups = all[i];
        match group_of(groups, 1) {
            None => lemma_links_acc_distinct(all, excluded, i + 1, acc),
            Some(id) => if id == excluded || has_id(acc, id) {
                lemma_links_acc_distinct(all, excluded, i + 1, acc);
            } else {
                let text = clean_text(group_or_empty(groups, 2));
                let title = link_title(item_title_spec(group_or_empty(groups, 0)), text, id);
                lemma_push_distinct(acc, excluded, id, title);
                lemma_links_acc_distinct(all, excluded, i + 1, acc.push((id, title)));
            },
        }
    }
}

/// The items linked from a page never include the excluded id and never
/// repeat an id; so the required items of a Workshop page never list the
/// page's own item, nor any item twice.
pub proof fn lemma_workshop_links_distinct(html: Seq<char>, excluded: Seq<char>)
    ensures
        distinct_ids_without(workshop_links_spec(html, excluded), excluded),
        distinct_ids_without(required_items_spec(html, excluded), excluded),
{
    lemma_links_acc_distinct(regex_all_captures(WORKSHOP_LINK_PATTERN@, html), excluded, 0, Seq::empty());
    if let Some(section) = required_section_spec(html) {
        lemma_links_acc_distinct(
            regex_all_captures(WORKSHOP_LINK_PATTERN@, section),
            excluded,
            0,
            Seq::empty(),
        );
    }
}

proof fn lemma_cards_acc_distinct(
    cards: Seq<CardView>,
    collection_id: Seq<char>,
    i: int,
    acc: Seq<(Seq<char>, Seq<char>)>,
)
    requires
        0 <= i,
        distinct_ids_without(acc, collection_id),
    ensures
        distinct_ids_without(cards_acc(cards, collection_id, i, acc), collection_id),
    decreases cards.len() - i,
{
    if i < cards.len() {
        match cards[i].0 {
            None => lemma_cards_acc_distinct(cards, collection_id, i + 1, acc),
            Some(id) => if id == collection_id || has_id(acc, id) {
                lemma_cards_acc_distinct(cards, collection_id, i + 1, acc);
            } else {
                let title = link_title(cards[i].1, cards[i].2, id);
                lemma_push_distinct(acc, collection_id, id, title);
                lemma_cards_acc_distinct(cards, collection_id, i + 1, acc.push((id, title)));
            },
        }
    }
}

/// The children listed for a collection never include the collection
/// itself and never repeat an id.
pub proof fn lemma_collection_items_distinct(html: Seq<char>, collection_id: Seq<char>)
    ensures
        distinct_ids_without(collection_items_spec(html, collection_id), collection_id),
{
    lemma_cards_acc_distinct(
        collection_blocks_spec(html).map_values(|b: Seq<char>| card_of(b)),
        collection_id,
        0,
        Seq::empty(),
    );
}

/// Character position where opening `k` among `opens` starts.
pub open spec fn open_start(html: Seq<char>, opens: Seq<(usize, usize)>, k: int) -> int {
    char_span(html, opens[k]).0
}

/// Opening `k` lies after every earlier opening's element: it is not nested
/// inside an earlier card (as the card openings of a page come in order,
/// an opening is nested in an earlier card exactly when it starts before
/// that card's element ends).
pub open spec fn after_earlier_cards(html: Seq<char>, opens: Seq<(usize, usize)>, k: int) -> bool {
    forall|j: int|
        0 <= j < k ==> ((#[trigger] matching_div_end_spec(html, open_start(html, opens, j))) matches Some(e)
            ==> e <= open_start(html, opens, k))
}

proof fn lemma_blocks_from_keeps(
    html: Seq<char>,
    opens: Seq<(usize, usize)>,
    i: int,
    last_end: int,
    k: int,
    ek: int,
)
    requires
        0 <= i <= k < opens.len(),
        last_end <= open_start(html, opens, k),
        after_earlier_cards(html, opens, k),
        matching_div_end_spec(html, open_start(html, opens, k)) == Some(ek),
    ensures
        blocks_from(html, opens, i, last_end).contains(html.subrange(open_start(html, opens, k), ek)),
    decreases k - i,
{
    let s = open_start(html, opens, i);
    let r = blocks_from(html, opens, i, last_end);
    if i == k {
        assert(r[0] == html.subrange(s, ek));
    } else if s < last_end {
        lemma_blocks_from_keeps(html, opens, i + 1, last_end, k, ek);
    } else {
        match matching_div_end_spec(html, s) {
            Some(e) => {
                assert(e <= open_start(html, opens, k));
                lemma_blocks_from_keeps(html, opens, i + 1, e, k, ek);
                let rest = blocks_from(html, opens, i + 1, e);
                let b = html.subrange(open_start(html, opens, k), ek);
                let m = choose|m: int| 0 <= m < rest.len() && rest[m] == b;
                assert(r[m + 1] == b);
            },
            None => {
                lemma_blocks_from_keeps(html, opens, i + 1, last_end, k, ek);
            },
        }
    }
}

/// Every collection card of a page that is not nested inside an earlier
/// card, and whose element closes, is one of the page's blocks: the text
/// from its opening tag to its closing tag.
pub proof fn lemma_top_level_cards_are_blocks(html: Seq<char>, k: int)
    requires
        0 <= k < regex_match_spans(COLLECTION_ITEM_DIV_PATTERN@, html).len(),
        after_earlier_cards(html, regex_match_spans(COLLECTION_ITEM_DIV_PATTERN@, html), k),
        matching_div_end_spec(
            html,
            open_start(html, regex_match_spans(COLLECTION_ITEM_DIV_PATTERN@, html), k),
        ) is Some,
    ensures
        ({
            let opens = regex_match_spans(COLLECTION_ITEM_DIV_PATTERN@, html);
            let s = open_start(html, opens, k);
            collection_blocks_spec(html).contains(html.subrange(s, matching_div_end_spec(html, s).unwrap()))
        }),
{
    let opens = regex_match_spans(COLLECTION_ITEM_DIV_PATTERN@, html);
    let s = open_start(html, opens, k);
    let ek = matching_div_end_spec(html, s).unwrap();
    lemma_blocks_from_keeps(html, opens, 0, 0, k, ek);
}

proof fn lemma_cards_acc_keeps(
    cards: Seq<CardView>,
    collection_id: Seq<char>,
    i: int,
    acc: Seq<(Seq<char>, Seq<char>)>,
    m: int,
    id: Seq<char>,
)
    requires
        0 <= i,
        0 <= m < cards.len(),
        cards[m].0 == Some(id),
        id != collection_id,
        m < i ==> has_id(acc, id),
    ensures
        has_id(cards_acc(cards, collection_id, i, acc), id),
    decreases cards.len() - i,
{
    if i >= cards.len() {
    } else {
        match cards[i].0 {
            None => lemma_cards_acc_keeps(cards, collection_id, i + 1, acc, m, id),
            Some(x) => if x == collection_id || has_id(acc, x) {
                lemma_cards_acc_keeps(cards, collection_id, i + 1, acc, m, id);
            } else {
                let acc2 = acc.push((x, link_title(cards[i].1, cards[i].2, x)));
                if has_id(acc, id) {
                    let j = choose|j: int| 0 <= j < acc.len() && (#[trigger] acc[j]).0 == id;
                    assert(acc2[j] == acc[j]);
                }
                if m == i {
                    assert(acc2[acc.len() as int].0 == id);
                }
                lemma_cards_acc_keeps(cards, collection_id, i + 1, acc2, m, id);
            },
        }
    }
}

/// Every card of a collection page that is not nested inside an earlier
/// card, whose element closes and which links to an item other than the
/// collection itself, gives that item as a child of the collection.
pub proof fn lemma_top_level_cards_are_children(html: Seq<char>, collection_id: Seq<char>, k: int, id: Seq<char>)
    requires
        0 <= k < regex_match_spans(COLLECTION_ITEM_DIV_PATTERN@, html).len(),
        after_earlier_cards(html, regex_match_spans(COLLECTION_ITEM_DIV_PATTERN@, html), k),
        matching_div_end_spec(
            html,
            open_start(html, regex_match_spans(COLLECTION_ITEM_DIV_PATTERN@, html), k),
        ) is Some,
        ({
            let s = open_start(html, regex_match_spans(COLLECTION_ITEM_DIV_PATTERN@, html), k);
            card_of(html.subrange(s, matching_div_end_spec(html, s).unwrap())).0 == Some(id)
        }),
        id != collection_id,
    ensures
        has_id(collection_items_spec(html, collection_id), id),
{
    let opens = regex_match_spans(COLLECTION_ITEM_DIV_PATTERN@, html);
    let s = open_start(html, opens, k);
    let b = html.subrange(s, matching_div_end_spec(html, s).unwrap());
    lemma_top_level_cards_are_blocks(html, k);
    let blocks = collection_blocks_spec(html);
    let m = choose|m: int| 0 <= m < blocks.len() && blocks[m] == b;
    let cards = blocks.map_values(|x: Seq<char>| card_of(x));
    assert(cards[m] == card_of(b));
    lemma_cards_acc_keeps(cards, collection_id, 0, Seq::empty(), m, id);
}

/// Every title chosen for a linked item is non-empty text: a card title, or
/// link text that is not blank, or the default title.
pub proof fn lemma_link_title_nonempty(card_title: Option<Seq<char>>, link_text: Seq<char>, id: Seq<char>)
    ensures
        link_title(card_title, link_text, id).len() > 0,
{
    reveal_strlit("Workshop Item ");
    if valid_link_text(link_text) {
        if link_text.len() == 0 {
            assert(trim_start(link_text) == link_text);
            assert(trim(link_text) == link_text);
        }
    }
}

} // verus!

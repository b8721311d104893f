//! Download-queue planning and Workshop previews: which items a queue
//! request adds, what the preview of an item or a collection shows, and how
//! user input is resolved to one of them.

use vstd::prelude::*;
use crate::html::{
    collection_items_from_html, collection_items_spec, contains_id, default_title,
    default_title_string, has_id, looks_like_collection_page, looks_like_collection_spec,
    lemma_workshop_links_distinct, page_title, page_title_spec, required_items_from_html,
    required_items_spec, str_eq,
};
use crate::text::{
    all_digits, all_digits_chars, chars_of, is_ws, string_of, trim, trim_chars, trim_end, trim_start,
    trim_str,
};
use crate::workshop_url::{
    detail_url, last_param, last_param_value, parse_url, parse_workshop_input,
    parse_workshop_input_spec, url_components, workshop_detail_url,
};

verus! {

/// An item waiting in the download queue.
#[derive(Clone, Debug)]
pub struct QueuedMod {
    pub publishedfileid: String,
    pub title: String,
    pub added_date: String,
}

/// Whether an item is queued or installed, and its queued title.
#[derive(Debug)]
pub struct WorkshopItemState {
    pub queued: bool,
    pub installed: bool,
    pub title: Option<String>,
}

/// Preview of one Workshop item.
#[derive(Debug)]
pub struct WorkshopModPreview {
    pub publishedfileid: String,
    pub title: String,
    pub url: String,
    pub queued: bool,
    pub installed: bool,
}

/// Preview of a Workshop collection and its children.
#[derive(Debug)]
pub struct WorkshopCollectionPreview {
    pub collection_id: String,
    pub title: String,
    pub url: String,
    pub items: Vec<WorkshopModPreview>,
    pub total_count: usize,
    pub queued_count: usize,
    pub installed_count: usize,
    pub addable_count: usize,
}

/// What user input resolved to: an item (`kind` "item") or a collection
/// (`kind` "collection").
#[derive(Debug)]
pub struct ResolvedWorkshopEntry {
    pub kind: String,
    pub item: Option<WorkshopModPreview>,
    pub collection: Option<WorkshopCollectionPreview>,
}

/// One child of a collection the user asked to queue.
#[derive(Clone, Debug)]
pub struct QueueCollectionItem {
    pub publishedfileid: String,
    pub title: String,
}

/// A collection the in-page Workshop button asked to open.
#[derive(Debug)]
pub struct WorkshopCollectionRequested {
    pub collection_id: String,
    pub title: String,
    pub url: String,
}

// ---------------------------------------------------------------------------
// Specifications
// ---------------------------------------------------------------------------

/// The title stored for an item: the given title trimmed, or the default
/// title when it is blank.
pub open spec fn normalized_title(id: Seq<char>, title: Seq<char>) -> Seq<char> {
    if trim(title).len() == 0 {
        default_title(id)
    } else {
        trim(title)
    }
}

/// The ids in a list of strings.
pub open spec fn ids_of(ids: Seq<String>) -> Seq<Seq<char>> {
    ids.map_values(|s: String| s@)
}

/// The title of the first queue entry for `id` among `queue[i..]`.
pub open spec fn queued_title_from(queue: Seq<QueuedMod>, id: Seq<char>, i: int) -> Option<Seq<char>>
    decreases queue.len() - i,
{
    if i < 0 || i >= queue.len() {
        None
    } else if queue[i].publishedfileid@ == id {
        Some(queue[i].title@)
    } else {
        queued_title_from(queue, id, i + 1)
    }
}

/// The view of a preview: id, title, address, queued, installed.
pub open spec fn preview_view(p: WorkshopModPreview) -> (Seq<char>, Seq<char>, Seq<char>, bool, bool) {
    (p.publishedfileid@, p.title@, p.url@, p.queued, p.installed)
}

pub open spec fn previews_view(items: Seq<WorkshopModPreview>) -> Seq<(Seq<char>, Seq<char>, Seq<char>, bool, bool)> {
    items.map_values(|p: WorkshopModPreview| preview_view(p))
}

/// Some preview in `acc` has id `id`.
pub open spec fn has_preview(acc: Seq<(Seq<char>, Seq<char>, Seq<char>, bool, bool)>, id: Seq<char>) -> bool {
    exists|k: int| 0 <= k < acc.len() && (#[trigger] acc[k]).0 == id
}

/// Previews of the children `children[i..]` appended to `acc`: the
/// collection itself and repeated ids are skipped.
pub open spec fn collection_previews(
    children: Seq<(Seq<char>, Seq<char>)>,
    collection_id: Seq<char>,
    queued: Seq<Seq<char>>,
    installed: Seq<Seq<char>>,
    i: int,
    acc: Seq<(Seq<char>, Seq<char>, Seq<char>, bool, bool)>,
) -> Seq<(Seq<char>, Seq<char>, Seq<char>, bool, bool)>
    decreases children.len() - i,
{
    if i < 0 || i >= children.len() {
        acc
    } else {
        let (id, title) = children[i];
        if id == collection_id || has_preview(acc, id) {
            collection_previews(children, collection_id, queued, installed, i + 1, acc)
        } else {
            collection_previews(
                children,
                collection_id,
                queued,
                installed,
                i + 1,
                acc.push(
                    (id, normalized_title(id, title), detail_url(id), queued.contains(id), installed.contains(id)),
                ),
            )
        }
    }
}

/// Number of previews that are queued.
pub open spec fn count_queued(s: Seq<(Seq<char>, Seq<char>, Seq<char>, bool, bool)>) -> nat
    decreases s.len(),
{
    if s.len() == 0 {
        0
    } else {
        count_queued(s.drop_last()) + if s.last().3 { 1nat } else { 0nat }
    }
}

/// Number of previews that are installed.
pub open spec fn count_installed(s: Seq<(Seq<char>, Seq<char>, Seq<char>, bool, bool)>) -> nat
    decreases s.len(),
{
    if s.len() == 0 {
        0
    } else {
        count_installed(s.drop_last()) + if s.last().4 { 1nat } else { 0nat }
    }
}

/// Number of previews that are neither queued nor installed.
pub open spec fn count_addable(s: Seq<(Seq<char>, Seq<char>, Seq<char>, bool, bool)>) -> nat
    decreases s.len(),
{
    if s.len() == 0 {
        0
    } else {
        count_addable(s.drop_last()) + if !s.last().3 && !s.last().4 { 1nat } else { 0nat }
    }
}

/// Number of previews that are queued or installed.
pub open spec fn count_taken(s: Seq<(Seq<char>, Seq<char>, Seq<char>, bool, bool)>) -> nat
    decreases s.len(),
{
    if s.len() == 0 {
        0
    } else {
        count_taken(s.drop_last()) + if s.last().3 || s.last().4 { 1nat } else { 0nat }
    }
}

/// The ids of the queue entries.
pub open spec fn queue_ids(queue: Seq<QueuedMod>) -> Seq<Seq<char>> {
    queue.map_values(|q: QueuedMod| q.publishedfileid@)
}

/// `p` is the preview of item `id` offered as `title`, given its queued
/// title and whether it is installed.
pub open spec fn mod_preview_ok(
    p: WorkshopModPreview,
    id: Seq<char>,
    title: Seq<char>,
    queued_title: Option<Seq<char>>,
    queued: bool,
    installed: bool,
) -> bool {
    &&& p.publishedfileid@ == id
    &&& p.title@ == normalized_title(
        id,
        match queued_title {
            Some(t) => t,
            None => title,
        },
    )
    &&& p.url@ == detail_url(id)
    &&& p.queued == queued
    &&& p.installed == installed
}

/// `c` is the preview of collection `id` at `url` titled `title` with the
/// children `children`.
pub open spec fn collection_preview_ok(
    c: WorkshopCollectionPreview,
    queued: Seq<Seq<char>>,
    installed: Seq<Seq<char>>,
    id: Seq<char>,
    url: Seq<char>,
    title: Seq<char>,
    children: Seq<(Seq<char>, Seq<char>)>,
) -> bool {
    let items = previews_view(c.items@);
    &&& items == collection_previews(children, id, queued, installed, 0, Seq::empty())
    &&& c.collection_id@ == id
    &&& c.title@ == normalized_title(id, title)
    &&& c.url@ == url
    &&& c.total_count == items.len()
    &&& c.queued_count == count_queued(items)
    &&& c.installed_count == count_installed(items)
    &&& c.addable_count == count_addable(items)
}

/// The title used for a fetched page: its own title, else the default.
pub open spec fn fetched_title(html: Seq<char>, id: Seq<char>) -> Seq<char> {
    match page_title_spec(html) {
        Some(t) => t,
        None => default_title(id),
    }
}

/// The children found on a fetched page, if it looks like a collection.
pub open spec fn fetched_children(html: Seq<char>, id: Seq<char>) -> Seq<(Seq<char>, Seq<char>)> {
    if looks_like_collection_spec(html) {
        collection_items_spec(html, id)
    } else {
        Seq::empty()
    }
}

/// `res` is the resolution of item or collection `id` at `url` from the
/// outcome `page` of fetching that page.
pub open spec fn fetched_entry_ok(
    res: Result<ResolvedWorkshopEntry, String>,
    id: Seq<char>,
    url: Seq<char>,
    page: Result<String, String>,
    queue: Seq<QueuedMod>,
    installed: Seq<Seq<char>>,
) -> bool {
    match page {
        Err(e) => res matches Err(r) && r@ == e@,
        Ok(html) => {
            let title = fetched_title(html@, id);
            let children = fetched_children(html@, id);
            match res {
                Err(_) => false,
                Ok(entry) => if children.len() > 0 {
                    &&& entry.kind@ == "collection"@
                    &&& entry.item is None
                    &&& entry.collection matches Some(c) && collection_preview_ok(
                        c,
                        queue_ids(queue),
                        installed,
                        id,
                        url,
                        title,
                        children,
                    )
                } else {
                    &&& entry.kind@ == "item"@
                    &&& entry.collection is None
                    &&& entry.item matches Some(p) && mod_preview_ok(
                        p,
                        id,
                        title,
                        queued_title_from(queue, id, 0),
                        queued_title_from(queue, id, 0) is Some,
                        installed.contains(id),
                    )
                },
            }
        },
    }
}

/// The ids a queue request for `publishedfileid` targets: the trimmed id,
/// when it is a non-empty string of digits not already installed.
pub open spec fn queue_target_spec(publishedfileid: Seq<char>, installed: Seq<Seq<char>>) -> Option<Seq<char>> {
    let id = trim(publishedfileid);
    if id.len() == 0 || !all_digits(id) || installed.contains(id) {
        None
    } else {
        Some(id)
    }
}

/// Required items `required[i..]` that are neither `id` nor installed,
/// appended to `acc`.
pub open spec fn required_entries(
    required: Seq<(Seq<char>, Seq<char>)>,
    id: Seq<char>,
    installed: Seq<Seq<char>>,
    i: int,
    acc: Seq<(Seq<char>, Seq<char>)>,
) -> Seq<(Seq<char>, Seq<char>)>
    decreases required.len() - i,
{
    if i < 0 || i >= required.len() {
        acc
    } else if required[i].0 == id || installed.contains(required[i].0) {
        required_entries(required, id, installed, i + 1, acc)
    } else {
        required_entries(required, id, installed, i + 1, acc.push(required[i]))
    }
}

/// Required items of the page fetched for item `id`: none when the fetch
/// failed.
pub open spec fn page_required_items(id: Seq<char>, page: Result<String, String>) -> Seq<(Seq<char>, Seq<char>)> {
    match page {
        Ok(html) => required_items_spec(html@, id),
        Err(_) => Seq::empty(),
    }
}

/// Children `items[i..]` of a collection to queue, appended to `acc`:
/// trimmed ids that are non-empty digit strings, not installed and not
/// already taken.
pub open spec fn collection_targets(
    items: Seq<QueueCollectionItem>,
    installed: Seq<Seq<char>>,
    i: int,
    acc: Seq<(Seq<char>, Seq<char>)>,
) -> Seq<(Seq<char>, Seq<char>)>
    decreases items.len() - i,
{
    if i < 0 || i >= items.len() {
        acc
    } else {
        let id = trim(items[i].publishedfileid@);
        if id.len() == 0 || !all_digits(id) || installed.contains(id) || has_id(acc, id) {
            collection_targets(items, installed, i + 1, acc)
        } else {
            collection_targets(items, installed, i + 1, acc.push((id, items[i].title@)))
        }
    }
}

// ---------------------------------------------------------------------------
// Executable functions
// ---------------------------------------------------------------------------

/// The title stored for an item: trimmed, or "Workshop Item {id}" when blank.
pub fn normalized_workshop_title(publishedfileid: &str, title: &str) -> (res: String)
    ensures
        res@ == normalized_title(publishedfileid@, title@),
{
    let trimmed = trim_str(title);
    if trimmed.as_str().is_empty() {
        default_title_string(publishedfileid)
    } else {
        trimmed
    }
}

/// Whether `ids` holds `id`.
pub fn contains_str(ids: &Vec<String>, id: &str) -> (res: bool)
    ensures
        res == ids_of(ids@).contains(id@),
{
    let n = ids.len();
    for i in 0..n
        invariant
            n == ids.len(),
            forall|k: int| 0 <= k < i ==> (#[trigger] ids@[k])@ != id@,
    {
        if str_eq(ids[i].as_str(), id) {
            assert(ids_of(ids@)[i as int] == id@);
            return true;
        }
    }
    assert forall|k: int| 0 <= k < ids_of(ids@).len() implies ids_of(ids@)[k] != id@ by {
        assert(ids_of(ids@)[k] == ids@[k]@);
    }
    false
}

/// Title of the queue entry for `publishedfileid`, if it is queued.
pub fn queued_title(queue: &Vec<QueuedMod>, publishedfileid: &str) -> (res: Option<String>)
    ensures
        res.deep_view() == queued_title_from(queue@, publishedfileid@, 0),
{
    let n = queue.len();
    for i in 0..n
        invariant
            n == queue.len(),
            queued_title_from(queue@, publishedfileid@, 0) == queued_title_from(
                queue@,
                publishedfileid@,
                i as int,
            ),
    {
        if str_eq(queue[i].publishedfileid.as_str(), publishedfileid) {
            return Some(queue[i].title.clone());
        }
    }
    None
}

/// The ids of the queue entries.
pub fn queued_ids(queue: &Vec<QueuedMod>) -> (res: Vec<String>)
    ensures
        ids_of(res@) == queue_ids(queue@),
{
    let mut res: Vec<String> = Vec::new();
    let n = queue.len();
    for i in 0..n
        invariant
            n == queue.len(),
            ids_of(res@) == queue_ids(queue@.take(i as int)),
    {
        let ghost before = res@;
        let id = queue[i].publishedfileid.clone();
        res.push(id);
        assert(res@ == before.push(id));
        assert(queue@.take(i + 1) =~= queue@.take(i as int).push(queue@[i as int]));
        assert(ids_of(res@) =~= ids_of(before).push(id@));
        assert(queue_ids(queue@.take(i + 1)) =~= queue_ids(queue@.take(i as int)).push(
            queue@[i as int].publishedfileid@,
        ));
    }
    assert(queue@.take(n as int) =~= queue@);
    res
}

/// Queue and install state of an item.
pub fn workshop_item_state(
    queued_title: Option<String>,
    installed_ids: &Vec<String>,
    publishedfileid: &str,
) -> (res: WorkshopItemState)
    ensures
        res.queued == queued_title is Some,
        res.installed == ids_of(installed_ids@).contains(publishedfileid@),
        res.title.deep_view() == queued_title.deep_view(),
{
    let installed = contains_str(installed_ids, publishedfileid);
    WorkshopItemState { queued: queued_title.is_some(), installed, title: queued_title }
}

/// Preview of item `publishedfileid`, titled by its queue entry if it has
/// one, else by `title`.
pub fn build_mod_preview(state: WorkshopItemState, publishedfileid: &str, title: &str) -> (res: WorkshopModPreview)
    ensures
        mod_preview_ok(
            res,
            publishedfileid@,
            title@,
            state.title.deep_view(),
            state.queued,
            state.installed,
        ),
{
    let shown = match &state.title {
        Some(t) => normalized_workshop_title(publishedfileid, t.as_str()),
        None => normalized_workshop_title(publishedfileid, title),
    };
    WorkshopModPreview {
        publishedfileid: publishedfileid.to_owned(),
        title: shown,
        url: workshop_detail_url(publishedfileid),
        queued: state.queued,
        installed: state.installed,
    }
}

fn has_preview_exec(items: &Vec<WorkshopModPreview>, id: &str) -> (res: bool)
    ensures
        res == has_preview(previews_view(items@), id@),
{
    let n = items.len();
    for i in 0..n
        invariant
            n == items.len(),
            forall|k: int| 0 <= k < i ==> (#[trigger] items@[k]).publishedfileid@ != id@,
    {
        if str_eq(items[i].publishedfileid.as_str(), id) {
            assert(previews_view(items@)[i as int].0 == id@);
            return true;
        }
    }
    assert forall|k: int| 0 <= k < previews_view(items@).len() implies (
    #[trigger] previews_view(items@)[k]).0 != id@ by {
        assert(previews_view(items@)[k] == preview_view(items@[k]));
    }
    false
}

/// Preview of a collection: its children without the collection itself and
/// without repeats, each marked queued or installed, with the counts of
/// queued, installed and addable (neither) children.
pub fn build_collection_preview(
    queued_ids: &Vec<String>,
    installed_ids: &Vec<String>,
    collection_id: &str,
    url: &str,
    title: &str,
    child_items: Vec<(String, String)>,
) -> (res: WorkshopCollectionPreview)
    ensures
        collection_preview_ok(
            res,
            ids_of(queued_ids@),
            ids_of(installed_ids@),
            collection_id@,
            url@,
            title@,
            child_items.deep_view(),
        ),
{
    let ghost queued = ids_of(queued_ids@);
    let ghost installed = ids_of(installed_ids@);
    let ghost children = child_items.deep_view();
    let mut items: Vec<WorkshopModPreview> = Vec::new();
    let mut queued_count: usize = 0;
    let mut installed_count: usize = 0;
    let mut addable_count: usize = 0;
    assert(previews_view(items@) =~= Seq::empty());
    let n = child_items.len();
    for i in 0..n
        invariant
            n == child_items.len(),
            children == child_items.deep_view(),
            queued == ids_of(queued_ids@),
            installed == ids_of(installed_ids@),
            collection_previews(children, collection_id@, queued, installed, 0, Seq::empty())
                == collection_previews(
                children,
                collection_id@,
                queued,
                installed,
                i as int,
                previews_view(items@),
            ),
            items@.len() <= i,
            queued_count == count_queued(previews_view(items@)),
            installed_count == count_installed(previews_view(items@)),
            addable_count == count_addable(previews_view(items@)),
            queued_count <= items@.len(),
            installed_count <= items@.len(),
            addable_count <= items@.len(),
    {
        let (id, child_title) = &child_items[i];
        assert(children[i as int] == (id@, child_title@));
        if str_eq(id.as_str(), collection_id) || has_preview_exec(&items, id.as_str()) {
        } else {
            let queued_flag = contains_str(queued_ids, id.as_str());
            let installed_flag = contains_str(installed_ids, id.as_str());
            if queued_flag {
                queued_count = queued_count + 1;
            }
            if installed_flag {
                installed_count = installed_count + 1;
            }
            if !queued_flag && !installed_flag {
                addable_count = addable_count + 1;
            }
            let preview = WorkshopModPreview {
                url: workshop_detail_url(id.as_str()),
                title: normalized_workshop_title(id.as_str(), child_title.as_str()),
                publishedfileid: id.clone(),
                queued: queued_flag,
                installed: installed_flag,
            };
            let ghost before = previews_view(items@);
            items.push(preview);
            assert(previews_view(items@) =~= before.push(preview_view(preview)));
            assert(previews_view(items@).drop_last() =~= before);
        }
    }
    let total_count = items.len();
    WorkshopCollectionPreview {
        collection_id: collection_id.to_owned(),
        title: normalized_workshop_title(collection_id, title),
        url: url.to_owned(),
        items,
        total_count,
        queued_count,
        installed_count,
        addable_count,
    }
}

/// Resolves item or collection `publishedfileid` at `url` from the outcome
/// of fetching its page.
pub fn resolve_fetched_entry(
    publishedfileid: &str,
    url: &str,
    page: Result<String, String>,
    queue: &Vec<QueuedMod>,
    installed_ids: &Vec<String>,
) -> (res: Result<ResolvedWorkshopEntry, String>)
    ensures
        fetched_entry_ok(res, publishedfileid@, url@, page, queue@, ids_of(installed_ids@)),
{
    let html = match page {
        Ok(html) => html,
        Err(e) => return Err(e),
    };
    let title = match page_title(html.as_str()) {
        Some(t) => t,
        None => default_title_string(publishedfileid),
    };
    let child_items = if looks_like_collection_page(html.as_str()) {
        collection_items_from_html(html.as_str(), publishedfileid)
    } else {
        Vec::new()
    };
    assert(child_items.deep_view() =~= fetched_children(html@, publishedfileid@));
    if child_items.len() > 0 {
        let queued = queued_ids(queue);
        let collection = build_collection_preview(
            &queued,
            installed_ids,
            publishedfileid,
            url,
            title.as_str(),
            child_items,
        );
        return Ok(
            ResolvedWorkshopEntry {
                kind: "collection".to_owned(),
                item: None,
                collection: Some(collection),
            },
        );
    }
    let state = workshop_item_state(queued_title(queue, publishedfileid), installed_ids, publishedfileid);
    let item = build_mod_preview(state, publishedfileid, title.as_str());
    Ok(ResolvedWorkshopEntry { kind: "item".to_owned(), item: Some(item), collection: None })
}

/// The queue and the installed Workshop ids, or the error that loading
/// them gave.
pub type Snapshot = Result<(Vec<QueuedMod>, Vec<String>), String>;

/// Preview of item `id` given without a page fetch, from the snapshot of
/// the queue and the installed ids (whose loading error is passed on).
pub open spec fn numeric_entry_ok(res: Result<ResolvedWorkshopEntry, String>, id: Seq<char>, snap: Snapshot) -> bool {
    match snap {
        Err(e) => res matches Err(r) && r@ == e@,
        Ok((queue, installed)) => {
            &&& res matches Ok(entry)
            &&& entry.kind@ == "item"@
            &&& entry.collection is None
            &&& entry.item matches Some(item)
            &&& mod_preview_ok(
                item,
                id,
                default_title(id),
                queued_title_from(queue@, id, 0),
                queued_title_from(queue@, id, 0) is Some,
                ids_of(installed@).contains(id),
            )
        },
    }
}

/// Entry for the fetched page `html` of `id` at `url`, from the snapshot of
/// the queue and the installed ids (whose loading error is passed on).
pub open spec fn fetched_snapshot_entry_ok(
    res: Result<ResolvedWorkshopEntry, String>,
    id: Seq<char>,
    url: Seq<char>,
    html: String,
    snap: Snapshot,
) -> bool {
    match snap {
        Err(e) => res matches Err(r) && r@ == e@,
        Ok((queue, installed)) => fetched_entry_ok(res, id, url, Ok(html), queue@, ids_of(installed@)),
    }
}

/// Resolves user input to an item or collection preview. The input is read
/// first: unreadable input is refused before anything else is done. For a
/// Workshop address the page is then fetched with `fetch`, and a failed
/// fetch is reported as it came. Only then are the queue and the installed
/// ids loaded with `load` (a loading error is reported as it came). A
/// numeric id is previewed as an item without fetching anything.
pub fn resolve_workshop_entry_impl<F, L>(input: &str, fetch: F, load: L) -> (res: Result<ResolvedWorkshopEntry, String>) where
    F: FnOnce(&str) -> Result<String, String>,
    L: FnOnce() -> Snapshot,

    requires
        (parse_workshop_input_spec(trim(input@)) matches Some(p) && p.2) ==> forall|u: &str| fetch.requires((u,)),
        parse_workshop_input_spec(trim(input@)) is Some ==> load.requires(()),
    ensures
        match parse_workshop_input_spec(trim(input@)) {
            None => (res matches Err(e) && e@ == "Paste a Steam Workshop URL or numeric Workshop ID."@),
            Some(p) => if !p.2 {
                exists|snap: Snapshot| #[trigger] load.ensures((), snap) && numeric_entry_ok(res, p.0, snap)
            } else {
                exists|u: &str, page: Result<String, String>|
                    u@ == p.1 && #[trigger] fetch.ensures((u,), page) && match page {
                        Err(e) => res matches Err(r) && r@ == e@,
                        Ok(html) => exists|snap: Snapshot|
                            #[trigger] load.ensures((), snap) && fetched_snapshot_entry_ok(
                                res,
                                p.0,
                                p.1,
                                html,
                                snap,
                            ),
                    }
            },
        },
{
    let trimmed = trim_str(input);
    let (id, url, should_fetch) = match parse_workshop_input(trimmed.as_str()) {
        Some(p) => p,
        None => return Err("Paste a Steam Workshop URL or numeric Workshop ID.".to_owned()),
    };
    if should_fetch {
        let u = url.as_str();
        let page = fetch(u);
        let ghost page_g = page;
        assert(fetch.ensures((u,), page_g));
        let html = match page {
            Ok(html) => html,
            Err(e) => return Err(e),
        };
        let snap = load();
        let ghost snap_g = snap;
        assert(load.ensures((), snap_g));
        let (queue, installed_ids) = match snap {
            Ok(s) => s,
            Err(e) => return Err(e),
        };
        let res = resolve_fetched_entry(id.as_str(), u, Ok(html), &queue, &installed_ids);
        assert(fetched_snapshot_entry_ok(res, id@, url@, html, snap_g));
        return res;
    }
    let snap = load();
    let ghost snap_g = snap;
    assert(load.ensures((), snap_g));
    let (queue, installed_ids) = match snap {
        Ok(s) => s,
        Err(e) => return Err(e),
    };
    let title = default_title_string(id.as_str());
    let state = workshop_item_state(queued_title(&queue, id.as_str()), &installed_ids, id.as_str());
    let item = build_mod_preview(state, id.as_str(), title.as_str());
    Ok(ResolvedWorkshopEntry { kind: "item".to_owned(), item: Some(item), collection: None })
}

/// Required items read from the outcome of fetching item
/// `publishedfileid`'s page: none when the fetch failed.
pub fn required_items_from_page(publishedfileid: &str, page: Result<String, String>) -> (res: Vec<(String, String)>)
    ensures
        res.deep_view() == page_required_items(publishedfileid@, page),
{
    match page {
        Ok(html) => required_items_from_html(html.as_str(), publishedfileid),
        Err(_) => {
            let v: Vec<(String, String)> = Vec::new();
            assert(v.deep_view() =~= Seq::empty());
            v
        },
    }
}

/// The items that item `publishedfileid` requires, read from its Workshop
/// page fetched with `fetch`.
pub fn required_items_for_workshop_item<F: FnOnce(&str) -> Result<String, String>>(
    publishedfileid: &str,
    fetch: F,
) -> (res: Vec<(String, String)>)
    requires
        forall|u: &str| fetch.requires((u,)),
    ensures
        exists|u: &str, page: Result<String, String>|
            u@ == detail_url(publishedfileid@) && #[trigger] fetch.ensures((u,), page)
                && res.deep_view() == page_required_items(publishedfileid@, page),
{
    let url = workshop_detail_url(publishedfileid);
    let u = url.as_str();
    let page = fetch(u);
    let res = required_items_from_page(publishedfileid, page);
    assert(fetch.ensures((u,), page));
    res
}

/// The id a queue request targets, if any.
pub fn queue_target(publishedfileid: &str, installed_ids: &Vec<String>) -> (res: Option<String>)
    ensures
        res.deep_view() == queue_target_spec(publishedfileid@, ids_of(installed_ids@)),
{
    let id = trim_str(publishedfileid);
    let idc = chars_of(id.as_str());
    if id.as_str().is_empty() || !all_digits_chars(&idc) || contains_str(installed_ids, id.as_str()) {
        None
    } else {
        Some(id)
    }
}

/// Required items that are neither the item itself nor installed.
pub fn filter_required_entries(
    required: Vec<(String, String)>,
    id: &str,
    installed_ids: &Vec<String>,
) -> (res: Vec<(String, String)>)
    ensures
        res.deep_view() == required_entries(
            required.deep_view(),
            id@,
            ids_of(installed_ids@),
            0,
            Seq::empty(),
        ),
{
    let mut res: Vec<(String, String)> = Vec::new();
    assert(res.deep_view() =~= Seq::empty());
    let n = required.len();
    for i in 0..n
        invariant
            n == required.len(),
            required_entries(required.deep_view(), id@, ids_of(installed_ids@), 0, Seq::empty())
                == required_entries(
                required.deep_view(),
                id@,
                ids_of(installed_ids@),
                i as int,
                res.deep_view(),
            ),
    {
        let (rid, rtitle) = &required[i];
        assert(required.deep_view()[i as int] == (rid@, rtitle@));
        if str_eq(rid.as_str(), id) || contains_str(installed_ids, rid.as_str()) {
        } else {
            let ghost before = res.deep_view();
            res.push((rid.clone(), rtitle.clone()));
            assert(res.deep_view() =~= before.push((rid@, rtitle@)));
        }
    }
    res
}

/// The queue entries `(id, title)` a request to queue `publishedfileid`
/// makes: nothing when the request has no target (and then nothing is
/// fetched); else the item, followed by the items its Workshop page (fetched
/// with `fetch`) lists as required that are neither the item itself nor
/// installed.
pub fn plan_queue_with_required_items<F: FnOnce(&str) -> Result<String, String>>(
    installed_ids: &Vec<String>,
    publishedfileid: &str,
    title: &str,
    fetch: F,
) -> (res: Vec<(String, String)>)
    requires
        queue_target_spec(publishedfileid@, ids_of(installed_ids@)) is Some ==> forall|u: &str| fetch.requires(
            (u,),
        ),
    ensures
        match queue_target_spec(publishedfileid@, ids_of(installed_ids@)) {
            None => res@.len() == 0,
            Some(id) => exists|u: &str, page: Result<String, String>|
                u@ == detail_url(id) && #[trigger] fetch.ensures((u,), page) && res.deep_view()
                    == seq![(id, title@)] + required_entries(
                    page_required_items(id, page),
                    id,
                    ids_of(installed_ids@),
                    0,
                    Seq::empty(),
                ),
        },
{
    let id = match queue_target(publishedfileid, installed_ids) {
        Some(id) => id,
        None => return Vec::new(),
    };
    let url = workshop_detail_url(id.as_str());
    let u = url.as_str();
    let page = fetch(u);
    let required = required_items_from_page(id.as_str(), page);
    let extra = filter_required_entries(required, id.as_str(), installed_ids);
    let mut res: Vec<(String, String)> = Vec::new();
    res.push((id.clone(), title.to_owned()));
    let n = extra.len();
    for i in 0..n
        invariant
            n == extra.len(),
            res.deep_view() == seq![(id@, title@)] + extra.deep_view().take(i as int),
    {
        let ghost before = res.deep_view();
        res.push((extra[i].0.clone(), extra[i].1.clone()));
        assert(res.deep_view() =~= before.push(extra.deep_view()[i as int]));
        assert(extra.deep_view().take(i + 1) =~= extra.deep_view().take(i as int).push(
            extra.deep_view()[i as int],
        ));
    }
    assert(extra.deep_view().take(n as int) =~= extra.deep_view());
    assert(fetch.ensures((u,), page));
    res
}

/// The children of a collection request that get queued, in order: trimmed
/// ids that are non-empty digit strings, not installed and not repeated.
pub fn collection_queue_targets(items: &Vec<QueueCollectionItem>, installed_ids: &Vec<String>) -> (res: Vec<(String, String)>)
    ensures
        res.deep_view() == collection_targets(items@, ids_of(installed_ids@), 0, Seq::empty()),
{
    let mut res: Vec<(String, String)> = Vec::new();
    assert(res.deep_view() =~= Seq::empty());
    let n = items.len();
    for i in 0..n
        invariant
            n == items.len(),
            collection_targets(items@, ids_of(installed_ids@), 0, Seq::empty()) == collection_targets(
                items@,
                ids_of(installed_ids@),
                i as int,
                res.deep_view(),
            ),
    {
        let id = trim_str(items[i].publishedfileid.as_str());
        let idc = chars_of(id.as_str());
        if id.as_str().is_empty() || !all_digits_chars(&idc) {
        } else if contains_str(installed_ids, id.as_str()) || contains_id(&res, id.as_str()) {
        } else {
            let ghost before = res.deep_view();
            let t = items[i].title.clone();
            res.push((id, t));
            assert(res.deep_view() =~= before.push((id@, items@[i as int].title@)));
        }
    }
    res
}

/// What a navigation inside the Workshop browser asks for.
#[derive(Debug)]
pub enum BridgeAction {
    /// An ordinary page: let the browser navigate.
    Allow,
    /// A bridge link whose id is not numeric: nothing to do.
    Ignore,
    /// Queue the item (with its required items).
    Queue { publishedfileid: String, title: String },
    /// Remove the item from the queue.
    Unqueue { publishedfileid: String },
    /// Open the collection in the application.
    Collection { publishedfileid: String, request: WorkshopCollectionRequested },
    /// Report the item's state only.
    Refresh { publishedfileid: String },
}

/// Scheme of the links through which the Workshop browser script talks to the application.
pub const BRIDGE_SCHEME: &'static str = "zmd-workshop";

/// Decision for a navigation to `url`, from its parsed components.
pub open spec fn bridge_action_ok(res: BridgeAction, url: Seq<char>) -> bool {
    bridge_action_from_parts_ok(res, url_components(url))
}

/// Decision for a navigation to a parsed address.
pub open spec fn bridge_action_from_parts_ok(
    res: BridgeAction,
    parts: Option<(Seq<char>, Option<Seq<char>>, Seq<char>, Seq<(Seq<char>, Seq<char>)>)>,
) -> bool {
    match parts {
        None => res is Allow,
        Some(parts) => if parts.0 != BRIDGE_SCHEME@ {
            res is Allow
        } else {
            let action = match parts.1 {
                Some(h) => h,
                None => Seq::empty(),
            };
            let id = last_param(parts.3, "publishedfileid"@, parts.3.len() as int, Seq::empty());
            let title = last_param(parts.3, "title"@, parts.3.len() as int, Seq::empty());
            if !all_digits(id) {
                res is Ignore
            } else if action == "queue"@ {
                res matches BridgeAction::Queue { publishedfileid, title: t } && publishedfileid@
                    == id && t@ == title
            } else if action == "unqueue"@ {
                res matches BridgeAction::Unqueue { publishedfileid } && publishedfileid@ == id
            } else if action == "collection"@ {
                res matches BridgeAction::Collection { publishedfileid, request } && publishedfileid@
                    == id && request.collection_id@ == id && request.title@ == normalized_title(
                    id,
                    title,
                ) && request.url@ == detail_url(id)
            } else {
                res matches BridgeAction::Refresh { publishedfileid } && publishedfileid@ == id
            }
        },
    }
}

/// Reads a navigation of the Workshop browser: ordinary pages are allowed;
/// `zmd-workshop://ACTION/?publishedfileid=ID&title=TITLE` links become
/// queue, unqueue, collection or refresh requests.
pub fn bridge_navigation_action(url: &str) -> (res: BridgeAction)
    ensures
        bridge_action_ok(res, url@),
{
    bridge_action_from_url_parts(parse_url(url))
}

/// Decision for a navigation of the Workshop browser to a parsed address.
pub fn bridge_action_from_url_parts(
    parts: Option<(String, Option<String>, String, Vec<(String, String)>)>,
) -> (res: BridgeAction)
    ensures
        bridge_action_from_parts_ok(res, parts.deep_view()),
{
    let (scheme, host, _path, pairs) = match parts {
        Some(p) => p,
        None => return BridgeAction::Allow,
    };
    if !str_eq(scheme.as_str(), BRIDGE_SCHEME) {
        return BridgeAction::Allow;
    }
    let action = match host {
        Some(h) => h,
        None => String::new(),
    };
    let publishedfileid = last_param_value(&pairs, "publishedfileid");
    let title = last_param_value(&pairs, "title");
    let idc = chars_of(publishedfileid.as_str());
    if !all_digits_chars(&idc) {
        return BridgeAction::Ignore;
    }
    if str_eq(action.as_str(), "queue") {
        BridgeAction::Queue { publishedfileid, title }
    } else if str_eq(action.as_str(), "unqueue") {
        BridgeAction::Unqueue { publishedfileid }
    } else if str_eq(action.as_str(), "collection") {
        let request = WorkshopCollectionRequested {
            collection_id: publishedfileid.clone(),
            title: normalized_workshop_title(publishedfileid.as_str(), title.as_str()),
            url: workshop_detail_url(publishedfileid.as_str()),
        };
        BridgeAction::Collection { publishedfileid, request }
    } else {
        BridgeAction::Refresh { publishedfileid }
    }
}

// ---------------------------------------------------------------------------
// Laws
// ---------------------------------------------------------------------------

proof fn lemma_counts(s: Seq<(Seq<char>, Seq<char>, Seq<char>, bool, bool)>)
    ensures
        count_addable(s) + count_taken(s) == s.len(),
        count_queued(s) <= count_taken(s),
        count_installed(s) <= count_taken(s),
        count_taken(s) <= count_queued(s) + count_installed(s),
    decreases s.len(),
{
    if s.len() > 0 {
        lemma_counts(s.drop_last());
    }
}

/// The counts of a collection preview agree: every child is either
/// addable or queued or installed (or both), so the addable children are
/// the total less those taken, and no count exceeds the total.
pub proof fn lemma_collection_preview_counts(
    c: WorkshopCollectionPreview,
    queued: Seq<Seq<char>>,
    installed: Seq<Seq<char>>,
    id: Seq<char>,
    url: Seq<char>,
    title: Seq<char>,
    children: Seq<(Seq<char>, Seq<char>)>,
)
    requires
        collection_preview_ok(c, queued, installed, id, url, title, children),
    ensures
        c.addable_count + count_taken(previews_view(c.items@)) == c.total_count,
        c.queued_count <= c.total_count - c.addable_count,
        c.installed_count <= c.total_count - c.addable_count,
        c.total_count - c.addable_count <= c.queued_count + c.installed_count,
{
    lemma_counts(previews_view(c.items@));
}

proof fn lemma_counts_are_filters(s: Seq<WorkshopModPreview>)
    ensures
        count_queued(previews_view(s)) == s.filter(|p: WorkshopModPreview| p.queued).len(),
        count_installed(previews_view(s)) == s.filter(|p: WorkshopModPreview| p.installed).len(),
        count_addable(previews_view(s)) == s.filter(|p: WorkshopModPreview| !p.queued && !p.installed).len(),
    decreases s.len(),
{
    reveal(Seq::filter);
    if s.len() > 0 {
        lemma_counts_are_filters(s.drop_last());
        let v = previews_view(s);
        assert(v.drop_last() =~= previews_view(s.drop_last()));
        assert(v.last() == preview_view(s.last()));
    } else {
        assert(previews_view(s) =~= Seq::empty());
    }
}

/// The counts of a collection preview count its listed children: the
/// queued ones and the installed ones (each flag on its own, whatever the
/// other), the ones neither queued nor installed, and all of them.
pub proof fn lemma_collection_preview_count_flags(
    c: WorkshopCollectionPreview,
    queued: Seq<Seq<char>>,
    installed: Seq<Seq<char>>,
    id: Seq<char>,
    url: Seq<char>,
    title: Seq<char>,
    children: Seq<(Seq<char>, Seq<char>)>,
)
    requires
        collection_preview_ok(c, queued, installed, id, url, title, children),
    ensures
        c.total_count == c.items@.len(),
        c.queued_count == c.items@.filter(|p: WorkshopModPreview| p.queued).len(),
        c.installed_count == c.items@.filter(|p: WorkshopModPreview| p.installed).len(),
        c.addable_count == c.items@.filter(|p: WorkshopModPreview| !p.queued && !p.installed).len(),
{
    lemma_counts_are_filters(c.items@);
}

proof fn lemma_collection_previews_distinct(
    children: Seq<(Seq<char>, Seq<char>)>,
    collection_id: Seq<char>,
    queued: Seq<Seq<char>>,
    installed: Seq<Seq<char>>,
    i: int,
    acc: Seq<(Seq<char>, Seq<char>, Seq<char>, bool, bool)>,
)
    requires
        0 <= i,
        forall|k: int| 0 <= k < acc.len() ==> (#[trigger] acc[k]).0 != collection_id,
        forall|a: int, b: int| 0 <= a < b < acc.len() ==> (#[trigger] acc[a]).0 != (#[trigger] acc[b]).0,
        forall|k: int| 0 <= k < acc.len() ==> (#[trigger] acc[k]).3 == queued.contains(acc[k].0) && acc[k].4
            == installed.contains(acc[k].0),
    ensures
        ({
            let r = collection_previews(children, collection_id, queued, installed, i, acc);
            &&& forall|k: int| 0 <= k < r.len() ==> (#[trigger] r[k]).0 != collection_id
            &&& forall|a: int, b: int| 0 <= a < b < r.len() ==> (#[trigger] r[a]).0 != (#[trigger] r[b]).0
            &&& forall|k: int| 0 <= k < r.len() ==> (#[trigger] r[k]).3 == queued.contains(r[k].0) && r[k].4
                == installed.contains(r[k].0)
        }),
    decreases children.len() - i,
{
    if i >= children.len() {
        assert(collection_previews(children, collection_id, queued, installed, i, acc) == acc);
    } else {
        let id = children[i].0;
        let title = children[i].1;
        if id == collection_id || has_preview(acc, id) {
            lemma_collection_previews_distinct(children, collection_id, queued, installed, i + 1, acc);
            assert(collection_previews(children, collection_id, queued, installed, i, acc)
                == collection_previews(children, collection_id, queued, installed, i + 1, acc));
        } else {
            let e = (id, normalized_title(id, title), detail_url(id), queued.contains(id), installed.contains(id));
            let acc2 = acc.push(e);
            assert forall|a: int, b: int| 0 <= a < b < acc2.len() implies (#[trigger] acc2[a]).0 != (
            #[trigger] acc2[b]).0 by {
                assert(acc2[a] == acc[a]);
                if b < acc.len() {
                    assert(acc2[b] == acc[b]);
                } else {
                    assert(!((0 <= a < acc.len()) && acc[a].0 == id));
                }
            }
            assert forall|k: int| 0 <= k < acc2.len() implies (#[trigger] acc2[k]).0 != collection_id && acc2[k].3
                == queued.contains(acc2[k].0) && acc2[k].4 == installed.contains(acc2[k].0) by {
                if k < acc.len() {
                    assert(acc2[k] == acc[k]);
                }
            }
            lemma_collection_previews_distinct(children, collection_id, queued, installed, i + 1, acc2);
            assert(collection_previews(children, collection_id, queued, installed, i, acc)
                == collection_previews(children, collection_id, queued, installed, i + 1, acc2));
        }
    }
}

/// A collection preview lists each child once, never the collection
/// itself, and marks a child queued (installed) exactly when its id is
/// among the queued (installed) ids.
pub proof fn lemma_collection_preview_items(
    c: WorkshopCollectionPreview,
    queued: Seq<Seq<char>>,
    installed: Seq<Seq<char>>,
    id: Seq<char>,
    url: Seq<char>,
    title: Seq<char>,
    children: Seq<(Seq<char>, Seq<char>)>,
)
    requires
        collection_preview_ok(c, queued, installed, id, url, title, children),
    ensures
        ({
            let r = previews_view(c.items@);
            &&& forall|k: int| 0 <= k < r.len() ==> (#[trigger] r[k]).0 != id
            &&& forall|a: int, b: int| 0 <= a < b < r.len() ==> (#[trigger] r[a]).0 != (#[trigger] r[b]).0
            &&& forall|k: int| 0 <= k < r.len() ==> (#[trigger] r[k]).3 == queued.contains(r[k].0) && r[k].4
                == installed.contains(r[k].0)
        }),
{
    lemma_collection_previews_distinct(children, id, queued, installed, 0, Seq::empty());
}

proof fn lemma_trim_start_idem(s: Seq<char>)
    ensures
        trim_start(trim_start(s)) == trim_start(s),
        trim_start(s).len() > 0 ==> !is_ws(trim_start(s)[0]),
    decreases s.len(),
{
    if s.len() > 0 && is_ws(s[0]) {
        lemma_trim_start_idem(s.drop_first());
    }
}

proof fn lemma_trim_end_keeps_start(s: Seq<char>)
    requires
        s.len() > 0 ==> !is_ws(s[0]),
    ensures
        trim_end(s).len() > 0 ==> !is_ws(trim_end(s)[0]),
        trim_end(s).len() > 0 ==> !is_ws(trim_end(s).last()),
        trim_end(s).len() <= s.len(),
        forall|k: int| 0 <= k < trim_end(s).len() ==> trim_end(s)[k] == s[k],
    decreases s.len(),
{
    if s.len() > 0 && is_ws(s.last()) {
        lemma_trim_end_keeps_start(s.drop_last());
        assert forall|k: int| 0 <= k < trim_end(s).len() implies trim_end(s)[k] == s[k] by {
            assert(trim_end(s) == trim_end(s.drop_last()));
            assert(s.drop_last()[k] == s[k]);
        }
    }
}

proof fn lemma_trim_of_trimmed(s: Seq<char>)
    requires
        s.len() > 0 ==> !is_ws(s[0]) && !is_ws(s.last()),
    ensures
        trim(s) == s,
{
    assert(trim_start(s) == s);
    assert(trim_end(s) == s);
}

/// `trim` of a trimmed text changes nothing.
pub proof fn lemma_trim_idempotent(s: Seq<char>)
    ensures
        trim(trim(s)) == trim(s),
{
    lemma_trim_start_idem(s);
    lemma_trim_end_keeps_start(trim_start(s));
    lemma_trim_of_trimmed(trim(s));
}

/// Normalizing a title twice gives the same title as normalizing it once,
/// for ids that are non-empty and do not end in whitespace (for the empty
/// id the default title "Workshop Item " ends in a space that the second
/// normalization trims).
pub proof fn lemma_normalized_title_idempotent(id: Seq<char>, title: Seq<char>)
    requires
        id.len() > 0,
        !is_ws(id.last()),
    ensures
        normalized_title(id, normalized_title(id, title)) == normalized_title(id, title),
{
    reveal_strlit("Workshop Item ");
    lemma_trim_idempotent(title);
    let d = default_title(id);
    assert(d.last() == id.last());
    assert(d[0] == 'W');
    lemma_trim_of_trimmed(d);
}

proof fn lemma_required_entries_acc(
    required: Seq<(Seq<char>, Seq<char>)>,
    id: Seq<char>,
    installed: Seq<Seq<char>>,
    i: int,
    acc: Seq<(Seq<char>, Seq<char>)>,
)
    requires
        0 <= i,
        forall|k: int| 0 <= k < acc.len() ==> (#[trigger] acc[k]).0 != id && !installed.contains(acc[k].0),
        forall|a: int, b: int| 0 <= a < b < acc.len() ==> (#[trigger] acc[a]).0 != (#[trigger] acc[b]).0,
        forall|a: int, b: int| 0 <= a < b < required.len() ==> (#[trigger] required[a]).0 != (#[trigger] required[b]).0,
        forall|j: int| i <= j < required.len() ==> !has_id(acc, (#[trigger] required[j]).0),
    ensures
        ({
            let r = required_entries(required, id, installed, i, acc);
            &&& forall|k: int| 0 <= k < r.len() ==> (#[trigger] r[k]).0 != id && !installed.contains(r[k].0)
            &&& forall|a: int, b: int| 0 <= a < b < r.len() ==> (#[trigger] r[a]).0 != (#[trigger] r[b]).0
        }),
    decreases required.len() - i,
{
    if i >= required.len() {
        assert(required_entries(required, id, installed, i, acc) == acc);
    } else {
        if required[i].0 == id || installed.contains(required[i].0) {
            lemma_required_entries_acc(required, id, installed, i + 1, acc);
            assert(required_entries(required, id, installed, i, acc) == required_entries(required, id, installed, i + 1, acc));
        } else {
            let acc2 = acc.push(required[i]);
            assert(!has_id(acc, required[i].0));
            assert forall|k: int| 0 <= k < acc2.len() implies (#[trigger] acc2[k]).0 != id
                && !installed.contains(acc2[k].0) by {
                if k < acc.len() {
                    assert(acc2[k] == acc[k]);
                }
            }
            assert forall|a: int, b: int| 0 <= a < b < acc2.len() implies (#[trigger] acc2[a]).0 != (
            #[trigger] acc2[b]).0 by {
                assert(acc2[a] == acc[a]);
                if b < acc.len() {
                    assert(acc2[b] == acc[b]);
                } else {
                    assert(!(0 <= a < acc.len() && acc[a].0 == required[i].0));
                }
            }
            assert forall|j: int| i + 1 <= j < required.len() implies !has_id(acc2, (#[trigger] required[j]).0) by {
                assert(!has_id(acc, required[j].0));
                assert(required[i].0 != required[j].0);
                if has_id(acc2, required[j].0) {
                    let k = choose|k: int| 0 <= k < acc2.len() && (#[trigger] acc2[k]).0 == required[j].0;
                    if k < acc.len() {
                        assert(acc2[k] == acc[k]);
                        assert(0 <= k < acc.len() && acc[k].0 == required[j].0);
                    }
                }
            }
            lemma_required_entries_acc(required, id, installed, i + 1, acc2);
            assert(required_entries(required, id, installed, i, acc) == required_entries(required, id, installed, i + 1, acc2));
        }
    }
}

proof fn lemma_required_entries_members(
    required: Seq<(Seq<char>, Seq<char>)>,
    id: Seq<char>,
    installed: Seq<Seq<char>>,
    i: int,
    acc: Seq<(Seq<char>, Seq<char>)>,
)
    requires
        0 <= i,
    ensures
        forall|k: int|
            i <= k < required.len() && required[k].0 != id && !installed.contains(required[k].0)
                ==> required_entries(required, id, installed, i, acc).contains(#[trigger] required[k]),
        forall|x: (Seq<char>, Seq<char>)|
            acc.contains(x) ==> #[trigger] required_entries(required, id, installed, i, acc).contains(x),
        forall|x: (Seq<char>, Seq<char>)|
            #[trigger] required_entries(required, id, installed, i, acc).contains(x) ==> acc.contains(x)
                || required.contains(x),
    decreases required.len() - i,
{
    let r = required_entries(required, id, installed, i, acc);
    if i >= required.len() {
        assert(r == acc);
    } else {
        if required[i].0 == id || installed.contains(required[i].0) {
            lemma_required_entries_members(required, id, installed, i + 1, acc);
            assert(r == required_entries(required, id, installed, i + 1, acc));
        } else {
            let acc2 = acc.push(required[i]);
            lemma_required_entries_members(required, id, installed, i + 1, acc2);
            assert(r == required_entries(required, id, installed, i + 1, acc2));
            assert(acc2[acc.len() as int] == required[i]);
            assert(acc2.contains(required[i]));
            assert(r.contains(required[i]));
            assert forall|x: (Seq<char>, Seq<char>)| acc.contains(x) implies #[trigger] r.contains(x) by {
                let j = choose|j: int| 0 <= j < acc.len() && acc[j] == x;
                assert(acc2[j] == x);
                assert(acc2.contains(x));
            }
            assert forall|x: (Seq<char>, Seq<char>)| #[trigger] r.contains(x) implies acc.contains(x) || required.contains(x) by {
                if acc2.contains(x) {
                    let j = choose|j: int| 0 <= j < acc2.len() && acc2[j] == x;
                    if j < acc.len() {
                        assert(acc[j] == x);
                    } else {
                        assert(required[i] == x);
                    }
                }
            }
        }
    }
}

/// A request to queue an item plans, after the item itself, every item its
/// Workshop page requires that is neither the item nor installed, with the
/// title the page gives it, and nothing that the page does not require.
pub proof fn lemma_queue_plan_complete(
    installed: Seq<Seq<char>>,
    publishedfileid: Seq<char>,
    title: Seq<char>,
    page: Result<String, String>,
)
    requires
        queue_target_spec(publishedfileid, installed) is Some,
    ensures
        ({
            let id = queue_target_spec(publishedfileid, installed).unwrap();
            let required = page_required_items(id, page);
            let plan = seq![(id, title)] + required_entries(required, id, installed, 0, Seq::empty());
            &&& forall|k: int|
                0 <= k < required.len() && required[k].0 != id && !installed.contains(required[k].0)
                    ==> plan.contains(#[trigger] required[k])
            &&& forall|k: int| 1 <= k < plan.len() ==> required.contains(#[trigger] plan[k])
        }),
{
    let id = queue_target_spec(publishedfileid, installed).unwrap();
    let required = page_required_items(id, page);
    let empty = Seq::<(Seq<char>, Seq<char>)>::empty();
    let extra = required_entries(required, id, installed, 0, empty);
    let plan = seq![(id, title)] + extra;
    lemma_required_entries_members(required, id, installed, 0, empty);
    assert forall|k: int|
        0 <= k < required.len() && required[k].0 != id && !installed.contains(required[k].0) implies plan.contains(
        #[trigger] required[k],
    ) by {
        assert(extra.contains(required[k]));
        let j = choose|j: int| 0 <= j < extra.len() && extra[j] == required[k];
        assert(plan[j + 1] == extra[j]);
    }
    assert forall|k: int| 1 <= k < plan.len() implies required.contains(#[trigger] plan[k]) by {
        assert(plan[k] == extra[k - 1]);
        assert(extra.contains(extra[k - 1]));
    }
}

/// A request to queue an item plans the item itself first, then the items
/// its Workshop page requires that are neither the item nor installed; no
/// planned item is installed, and no id is planned twice.
pub proof fn lemma_queue_plan(
    installed: Seq<Seq<char>>,
    publishedfileid: Seq<char>,
    title: Seq<char>,
    page: Result<String, String>,
)
    requires
        queue_target_spec(publishedfileid, installed) is Some,
    ensures
        ({
            let id = queue_target_spec(publishedfileid, installed).unwrap();
            let plan = seq![(id, title)] + required_entries(
                page_required_items(id, page),
                id,
                installed,
                0,
                Seq::empty(),
            );
            &&& plan[0] == (id, title)
            &&& forall|k: int| 0 <= k < plan.len() ==> !installed.contains((#[trigger] plan[k]).0)
            &&& forall|k: int| 1 <= k < plan.len() ==> (#[trigger] plan[k]).0 != id
            &&& forall|a: int, b: int| 0 <= a < b < plan.len() ==> (#[trigger] plan[a]).0 != (#[trigger] plan[b]).0
        }),
{
    let id = queue_target_spec(publishedfileid, installed).unwrap();
    let required = page_required_items(id, page);
    if let Ok(html) = page {
        lemma_workshop_links_distinct(html@, id);
    }
    assert(forall|a: int, b: int| 0 <= a < b < required.len() ==> (#[trigger] required[a]).0 != (#[trigger] required[b]).0);
    let empty = Seq::<(Seq<char>, Seq<char>)>::empty();
    lemma_required_entries_acc(required, id, installed, 0, empty);
    let extra = required_entries(required, id, installed, 0, empty);
    let plan = seq![(id, title)] + extra;
    assert forall|k: int| 1 <= k < plan.len() implies (#[trigger] plan[k]).0 != id && !installed.contains(plan[k].0) by {
        assert(plan[k] == extra[k - 1]);
    }
    assert forall|a: int, b: int| 0 <= a < b < plan.len() implies (#[trigger] plan[a]).0 != (#[trigger] plan[b]).0 by {
        assert(plan[b] == extra[b - 1]);
        if a > 0 {
            assert(plan[a] == extra[a - 1]);
        }
    }
}

proof fn lemma_collection_targets_acc(
    items: Seq<QueueCollectionItem>,
    installed: Seq<Seq<char>>,
    i: int,
    acc: Seq<(Seq<char>, Seq<char>)>,
)
    requires
        0 <= i,
        forall|k: int| 0 <= k < acc.len() ==> (#[trigger] acc[k]).0.len() > 0 && all_digits(acc[k].0)
            && !installed.contains(acc[k].0),
        forall|a: int, b: int| 0 <= a < b < acc.len() ==> (#[trigger] acc[a]).0 != (#[trigger] acc[b]).0,
    ensures
        ({
            let r = collection_targets(items, installed, i, acc);
            &&& forall|k: int| 0 <= k < r.len() ==> (#[trigger] r[k]).0.len() > 0 && all_digits(r[k].0)
                && !installed.contains(r[k].0)
            &&& forall|a: int, b: int| 0 <= a < b < r.len() ==> (#[trigger] r[a]).0 != (#[trigger] r[b]).0
        }),
    decreases items.len() - i,
{
    if i >= items.len() {
        assert(collection_targets(items, installed, i, acc) == acc);
    } else {
        let id = trim(items[i].publishedfileid@);
        if id.len() == 0 || !all_digits(id) || installed.contains(id) || has_id(acc, id) {
            lemma_collection_targets_acc(items, installed, i + 1, acc);
            assert(collection_targets(items, installed, i, acc) == collection_targets(items, installed, i + 1, acc));
        } else {
            let acc2 = acc.push((id, items[i].title@));
            assert forall|a: int, b: int| 0 <= a < b < acc2.len() implies (#[trigger] acc2[a]).0 != (
            #[trigger] acc2[b]).0 by {
                assert(acc2[a] == acc[a]);
                if b < acc.len() {
                    assert(acc2[b] == acc[b]);
                }
            }
            assert forall|k: int| 0 <= k < acc2.len() implies (#[trigger] acc2[k]).0.len() > 0 && all_digits(
                acc2[k].0,
            ) && !installed.contains(acc2[k].0) by {
                if k < acc.len() {
                    assert(acc2[k] == acc[k]);
                }
            }
            lemma_collection_targets_acc(items, installed, i + 1, acc2);
            assert(collection_targets(items, installed, i, acc) == collection_targets(items, installed, i + 1, acc2));
        }
    }
}

/// The children of a collection request that get queued have non-empty
/// numeric ids, none installed, none repeated.
pub proof fn lemma_collection_queue_targets(items: Seq<QueueCollectionItem>, installed: Seq<Seq<char>>)
    ensures
        ({
            let r = collection_targets(items, installed, 0, Seq::empty());
            &&& forall|k: int| 0 <= k < r.len() ==> (#[trigger] r[k]).0.len() > 0 && all_digits(r[k].0)
                && !installed.contains(r[k].0)
            &&& forall|a: int, b: int| 0 <= a < b < r.len() ==> (#[trigger] r[a]).0 != (#[trigger] r[b]).0
        }),
{
    lemma_collection_targets_acc(items, installed, 0, Seq::empty());
}

} // verus!

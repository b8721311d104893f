//! The SteamCMD download run: its command line, and how its output lines
//! are reported.

use vstd::prelude::*;
use crate::settings::{AppSettings, CommandResult, ValidationResult};
use crate::text::{
    chars_of, concat_chars, contains, contains_chars, decimal, decimal_chars, signed_decimal,
    signed_decimal_chars, string_of, trim, trim_chars,
};
use crate::workshop::QueuedMod;
use crate::workshop_url::{detail_url, workshop_detail_url};

verus! {

/// Steam application id of Project Zomboid.
pub const PROJECT_ZOMBOID_APP_ID: &'static str = "108600";

/// The `+workshop_download_item` arguments for `queue[..i]`.
pub open spec fn download_item_args(queue: Seq<QueuedMod>, i: int) -> Seq<Seq<char>>
    decreases i,
{
    if i <= 0 || i > queue.len() {
        Seq::empty()
    } else {
        download_item_args(queue, i - 1) + seq![
            "+workshop_download_item"@,
            PROJECT_ZOMBOID_APP_ID@,
            queue[i - 1].publishedfileid@,
        ]
    }
}

/// The SteamCMD arguments for downloading `queue`: log in (anonymously or
/// as the configured user), install into the mod folder, download each
/// queued item, quit. Without anonymous login a user name is required.
pub open spec fn steamcmd_args_spec(settings: AppSettings, queue: Seq<QueuedMod>) -> Result<Seq<Seq<char>>, Seq<char>> {
    if !settings.use_anonymous_login && trim(settings.steam_username@).len() == 0 {
        Err("Steam username is required when anonymous login is disabled."@)
    } else {
        let login = if settings.use_anonymous_login {
            seq!["+login"@, "anonymous"@]
        } else {
            seq!["+login"@, settings.steam_username@]
        };
        Ok(login + seq!["+force_install_dir"@, settings.mod_download_path@] + download_item_args(
            queue,
            queue.len() as int,
        ) + seq!["+quit"@])
    }
}

/// The SteamCMD command line for downloading the queue.
pub fn steamcmd_args(settings: &AppSettings, queue: &Vec<QueuedMod>) -> (res: Result<Vec<String>, String>)
    ensures
        match res {
            Ok(args) => steamcmd_args_spec(*settings, queue@) == Ok::<Seq<Seq<char>>, Seq<char>>(args.deep_view()),
            Err(e) => steamcmd_args_spec(*settings, queue@) == Err::<Seq<Seq<char>>, Seq<char>>(e@),
        },
{
    let mut args: Vec<String> = Vec::new();
    if settings.use_anonymous_login {
        args.push("+login".to_owned());
        args.push("anonymous".to_owned());
    } else {
        let user = trim_chars(&chars_of(settings.steam_username.as_str()));
        if user.len() == 0 {
            return Err("Steam username is required when anonymous login is disabled.".to_owned());
        }
        args.push("+login".to_owned());
        args.push(settings.steam_username.clone());
    }
    args.push("+force_install_dir".to_owned());
    args.push(settings.mod_download_path.clone());
    let ghost head = args.deep_view();
    assert(head =~= (if settings.use_anonymous_login {
        seq!["+login"@, "anonymous"@]
    } else {
        seq!["+login"@, settings.steam_username@]
    }) + seq!["+force_install_dir"@, settings.mod_download_path@]);
    let n = queue.len();
    for i in 0..n
        invariant
            n == queue.len(),
            args.deep_view() == head + download_item_args(queue@, i as int),
    {
        let ghost before = args.deep_view();
        args.push("+workshop_download_item".to_owned());
        args.push(PROJECT_ZOMBOID_APP_ID.to_owned());
        args.push(queue[i].publishedfileid.clone());
        assert(args.deep_view() =~= before + seq![
            "+workshop_download_item"@,
            PROJECT_ZOMBOID_APP_ID@,
            queue@[i as int].publishedfileid@,
        ]);
        assert(download_item_args(queue@, i + 1) == download_item_args(queue@, i as int) + seq![
            "+workshop_download_item"@,
            PROJECT_ZOMBOID_APP_ID@,
            queue@[i as int].publishedfileid@,
        ]);
    }
    let ghost before = args.deep_view();
    args.push("+quit".to_owned());
    assert(args.deep_view() =~= before + seq!["+quit"@]);
    Ok(args)
}

/// The line of SteamCMD output shown in the progress log.
pub open spec fn output_message_spec(line: Seq<char>, is_error: bool) -> Seq<char> {
    if is_error {
        "ERROR: "@ + line + seq!['\n']
    } else {
        line + seq!['\n']
    }
}

/// The progress status a SteamCMD output line announces, if any.
pub open spec fn progress_message_spec(line: Seq<char>) -> Option<Seq<char>> {
    if contains(line, "Downloading"@) {
        Some("Downloading..."@)
    } else if contains(line, "Update state"@) {
        Some("Updating..."@)
    } else if contains(line, "Success"@) || contains(line, "fully installed"@) {
        Some("Download successful."@)
    } else {
        None
    }
}

/// The progress-log text of a SteamCMD output line (error output prefixed).
pub fn download_output_message(line: &str, is_error: bool) -> (res: String)
    ensures
        res@ == output_message_spec(line@, is_error),
{
    let nl = vec!['\n'];
    assert(nl@ =~= seq!['\n']);
    let body = if is_error {
        concat_chars(&chars_of("ERROR: "), &chars_of(line))
    } else {
        chars_of(line)
    };
    string_of(&concat_chars(&body, &nl))
}

/// The progress status a SteamCMD output line announces, if any.
pub fn download_progress_message(line: &str) -> (res: Option<&'static str>)
    ensures
        match res {
            Some(m) => progress_message_spec(line@) == Some(m@),
            None => progress_message_spec(line@) is None,
        },
{
    let v = chars_of(line);
    if contains_chars(&v, &chars_of("Downloading")) {
        Some("Downloading...")
    } else if contains_chars(&v, &chars_of("Update state")) {
        Some("Updating...")
    } else if contains_chars(&v, &chars_of("Success")) || contains_chars(&v, &chars_of("fully installed")) {
        Some("Download successful.")
    } else {
        None
    }
}

proof fn lemma_download_item_args(queue: Seq<QueuedMod>, i: int)
    requires
        0 <= i <= queue.len(),
    ensures
        download_item_args(queue, i).len() == 3 * i,
        forall|k: int|
            0 <= k < i ==> download_item_args(queue, i).subrange(3 * k, 3 * k + 3) == seq![
                "+workshop_download_item"@,
                PROJECT_ZOMBOID_APP_ID@,
                (#[trigger] queue[k]).publishedfileid@,
            ],
    decreases i,
{
    if i > 0 {
        lemma_download_item_args(queue, i - 1);
        let prev = download_item_args(queue, i - 1);
        let tail = seq!["+workshop_download_item"@, PROJECT_ZOMBOID_APP_ID@, queue[i - 1].publishedfileid@];
        let cur = download_item_args(queue, i);
        assert(cur == prev + tail);
        assert forall|k: int| 0 <= k < i implies cur.subrange(3 * k, 3 * k + 3) == seq![
            "+workshop_download_item"@,
            PROJECT_ZOMBOID_APP_ID@,
            (#[trigger] queue[k]).publishedfileid@,
        ] by {
            if k < i - 1 {
                assert(prev.subrange(3 * k, 3 * k + 3) == seq![
                    "+workshop_download_item"@,
                    PROJECT_ZOMBOID_APP_ID@,
                    queue[k].publishedfileid@,
                ]);
                assert(cur.subrange(3 * k, 3 * k + 3) =~= prev.subrange(3 * k, 3 * k + 3));
            } else {
                assert(cur.subrange(3 * k, 3 * k + 3) =~= tail);
            }
        }
    }
}

/// A SteamCMD command line, when it can be built, logs in, installs into
/// the mod folder, then downloads every queued item in queue order under
/// the Project Zomboid app id, and quits: five arguments plus three per
/// queued item.
pub proof fn lemma_steamcmd_args_shape(settings: AppSettings, queue: Seq<QueuedMod>)
    requires
        steamcmd_args_spec(settings, queue) is Ok,
    ensures
        ({
            let args = steamcmd_args_spec(settings, queue)->Ok_0;
            &&& args.len() == 5 + 3 * queue.len()
            &&& args.take(4) == seq![
                "+login"@,
                if settings.use_anonymous_login { "anonymous"@ } else { settings.steam_username@ },
                "+force_install_dir"@,
                settings.mod_download_path@,
            ]
            &&& args.last() == "+quit"@
            &&& forall|k: int|
                0 <= k < queue.len() ==> args.subrange(4 + 3 * k, 7 + 3 * k) == seq![
                    "+workshop_download_item"@,
                    PROJECT_ZOMBOID_APP_ID@,
                    (#[trigger] queue[k]).publishedfileid@,
                ]
        }),
{
    lemma_download_item_args(queue, queue.len() as int);
    let login = if settings.use_anonymous_login {
        seq!["+login"@, "anonymous"@]
    } else {
        seq!["+login"@, settings.steam_username@]
    };
    let head = login + seq!["+force_install_dir"@, settings.mod_download_path@];
    let items = download_item_args(queue, queue.len() as int);
    let args = head + items + seq!["+quit"@];
    assert(steamcmd_args_spec(settings, queue)->Ok_0 == args);
    assert(args.take(4) =~= head);
    assert forall|k: int| 0 <= k < queue.len() implies args.subrange(4 + 3 * k, 7 + 3 * k) == seq![
        "+workshop_download_item"@,
        PROJECT_ZOMBOID_APP_ID@,
        (#[trigger] queue[k]).publishedfileid@,
    ] by {
        assert(items.subrange(3 * k, 3 * k + 3) == seq![
            "+workshop_download_item"@,
            PROJECT_ZOMBOID_APP_ID@,
            queue[k].publishedfileid@,
        ]);
        assert(args.subrange(4 + 3 * k, 7 + 3 * k) =~= items.subrange(3 * k, 3 * k + 3));
    }
}

// ---------------------------------------------------------------------------
// Starting a download
// ---------------------------------------------------------------------------

/// Answer to a request to start a download, from what has been checked so
/// far, in the order the checks are made: a download already running; the
/// settings (`validation`, `None` while not yet checked); the number of
/// queued items (`None` while not yet counted). `None` means the next check
/// is needed; `(true, ..)` means the download starts.
pub open spec fn start_outcome_spec(
    in_progress: bool,
    validation: Option<(bool, Seq<char>)>,
    queued: Option<nat>,
) -> Option<(bool, Seq<char>)> {
    if in_progress {
        Some((false, "Download already in progress."@))
    } else {
        match validation {
            None => None,
            Some(v) => if !v.0 {
                Some((false, v.1))
            } else {
                match queued {
                    None => None,
                    Some(n) => if n == 0 {
                        Some((false, "No mods are queued."@))
                    } else {
                        Some((true, "Download started."@))
                    },
                }
            },
        }
    }
}

/// Decides a request to start a download as far as the checks made so far
/// allow (see `start_outcome_spec`).
pub fn start_download_outcome(
    in_progress: bool,
    validation: Option<ValidationResult>,
    queued: Option<usize>,
) -> (res: Option<CommandResult>)
    ensures
        match start_outcome_spec(
            in_progress,
            match validation {
                Some(v) => Some((v.valid, v.message@)),
                None => None,
            },
            match queued {
                Some(n) => Some(n as nat),
                None => None,
            },
        ) {
            Some((success, message)) => res matches Some(r) && r.success == success && r.message@ == message,
            None => res is None,
        },
{
    if in_progress {
        return Some(CommandResult { success: false, message: "Download already in progress.".to_owned() });
    }
    let v = match validation {
        Some(v) => v,
        None => return None,
    };
    if !v.valid {
        return Some(CommandResult { success: false, message: v.message });
    }
    match queued {
        None => None,
        Some(n) => if n == 0 {
            Some(CommandResult { success: false, message: "No mods are queued.".to_owned() })
        } else {
            Some(CommandResult { success: true, message: "Download started.".to_owned() })
        },
    }
}

/// The progress-log line announcing the SteamCMD run.
pub fn steamcmd_run_message(queued: usize) -> (res: String)
    ensures
        res@ == "Executing SteamCMD with "@ + decimal(queued as nat) + " queued item(s).\n"@,
{
    let a = concat_chars(&chars_of("Executing SteamCMD with "), &decimal_chars(queued as u64));
    string_of(&concat_chars(&a, &chars_of(" queued item(s).\n")))
}

// ---------------------------------------------------------------------------
// After SteamCMD exits
// ---------------------------------------------------------------------------

/// What follows the end of a SteamCMD run.
#[derive(Debug)]
pub enum ExitPlan {
    /// SteamCMD failed: the run finishes unsuccessfully with `message`.
    Failed { message: String },
    /// SteamCMD succeeded: process the downloaded items, then clear the
    /// queue if `clear_queue`.
    ProcessDownloads { clear_queue: bool },
}

/// Progress-log line shown before the downloaded items are processed.
pub const PROCESSING_DOWNLOADS_MESSAGE: &'static str = "\nProcessing downloaded mods...\n";

/// Message of a download run that finished successfully.
pub const DOWNLOAD_COMPLETE_MESSAGE: &'static str = "Download completed and mods processed successfully.";

/// Decision once SteamCMD has exited with `exit_code`: a non-zero code fails
/// the run; zero leads to processing the downloads, and to clearing the
/// queue exactly when the settings ask for it.
pub fn after_steamcmd_exit(exit_code: i32, auto_clear_queue: bool) -> (res: ExitPlan)
    ensures
        exit_code != 0 ==> (res matches ExitPlan::Failed { message }
            && message@ == "SteamCMD exited with code "@ + signed_decimal(exit_code as int) + "."@),
        exit_code == 0 ==> (res matches ExitPlan::ProcessDownloads { clear_queue }
            && clear_queue == auto_clear_queue),
{
    if exit_code != 0 {
        let a = concat_chars(&chars_of("SteamCMD exited with code "), &signed_decimal_chars(exit_code));
        ExitPlan::Failed { message: string_of(&concat_chars(&a, &chars_of("."))) }
    } else {
        ExitPlan::ProcessDownloads { clear_queue: auto_clear_queue }
    }
}

// ---------------------------------------------------------------------------
// Processing the downloaded items
// ---------------------------------------------------------------------------

/// What SteamCMD left for a queued item in
/// `<mod folder>/steamapps/workshop/content/108600/<id>`, as found on disk.
#[derive(Debug)]
pub enum DownloadedFolder {
    /// The item's folder is missing.
    Missing,
    /// The item's folder has a `mods` directory holding `entries`.
    WithModsDir { entries: Vec<String> },
    /// The item's folder has no `mods` directory.
    Plain,
}

/// What to do for one downloaded item. When `processed`: first report
/// `messages[0]`; then, for a `mods` directory (`from_mods_dir`), move each
/// entry `created_folders[k]` into the mod folder and report
/// `messages[k + 1]`, or else move the item's whole folder into the mod
/// folder under the name `created_folders[0]`; then record `rows` (folder,
/// title, Workshop address) as downloaded mods and report
/// `processed_message`. When not processed, only report `messages`.
#[derive(Debug)]
pub struct DownloadedItemPlan {
    pub processed: bool,
    pub from_mods_dir: bool,
    pub created_folders: Vec<String>,
    pub rows: Vec<(String, String, String)>,
    pub messages: Vec<String>,
    pub processed_message: Option<String>,
}

/// Report of a `mods` entry moved into the mod folder `mod_folder`.
pub open spec fn moved_message(entry: Seq<char>, mod_folder: Seq<char>) -> Seq<char> {
    "Moved "@ + entry + " to "@ + mod_folder + "\n"@
}

/// Plan for queued item `item`, whose download is found as `folder`, with
/// `mod_folder` the mod folder as shown to the user.
pub fn plan_downloaded_item(item: &QueuedMod, folder: DownloadedFolder, mod_folder: &str) -> (res: DownloadedItemPlan)
    ensures
        folder is Missing ==> !res.processed && res.created_folders@.len() == 0 && res.rows@.len() == 0
            && res.messages.deep_view() == seq![
            "Warning: Mod "@ + item.publishedfileid@ + " not found in workshop folder.\n"@,
        ] && res.processed_message is None,
        folder matches DownloadedFolder::WithModsDir { entries } ==> res.processed && res.from_mods_dir
            && res.created_folders.deep_view() == entries.deep_view() && res.messages@.len() == entries@.len() + 1
            && res.messages@[0]@ == "Processing mod "@ + item.publishedfileid@ + "...\n"@ && (forall|k: int|
            0 <= k < entries@.len() ==> (#[trigger] res.messages@[k + 1])@ == moved_message(
                entries@[k]@,
                mod_folder@,
            )),
        folder is Plain ==> res.processed && !res.from_mods_dir && res.created_folders.deep_view()
            == seq![item.publishedfileid@] && res.messages.deep_view() == seq![
            "Processing mod "@ + item.publishedfileid@ + " without a mods subfolder...\n"@,
        ],
        res.processed ==> (res.processed_message matches Some(m) && m@ == "Processed "@ + item.title@ + "."@),
        res.rows@.len() == res.created_folders@.len(),
        forall|k: int|
            0 <= k < res.rows@.len() ==> (#[trigger] res.rows.deep_view()[k]) == (
                res.created_folders.deep_view()[k],
                item.title@,
                detail_url(item.publishedfileid@),
            ),
{
    let id = item.publishedfileid.as_str();
    let mut messages: Vec<String> = Vec::new();
    let mut created: Vec<String> = Vec::new();
    let from_mods_dir: bool;
    match folder {
        DownloadedFolder::Missing => {
            let a = concat_chars(&chars_of("Warning: Mod "), &chars_of(id));
            messages.push(string_of(&concat_chars(&a, &chars_of(" not found in workshop folder.\n"))));
            assert(messages.deep_view() =~= seq![
                "Warning: Mod "@ + item.publishedfileid@ + " not found in workshop folder.\n"@,
            ]);
            let rows: Vec<(String, String, String)> = Vec::new();
            return DownloadedItemPlan {
                processed: false,
                from_mods_dir: false,
                created_folders: created,
                rows,
                messages,
                processed_message: None,
            };
        },
        DownloadedFolder::WithModsDir { entries } => {
            let a = concat_chars(&chars_of("Processing mod "), &chars_of(id));
            messages.push(string_of(&concat_chars(&a, &chars_of("...\n"))));
            let dest = chars_of(mod_folder);
            let n = entries.len();
            for k in 0..n
                invariant
                    n == entries@.len(),
                    dest@ == mod_folder@,
                    messages@.len() == k + 1,
                    messages@[0]@ == "Processing mod "@ + item.publishedfileid@ + "...\n"@,
                    created.deep_view() == entries.deep_view().take(k as int),
                    forall|j: int|
                        0 <= j < k ==> (#[trigger] messages@[j + 1])@ == moved_message(
                            entries@[j]@,
                            mod_folder@,
                        ),
            {
                let name = chars_of(entries[k].as_str());
                let m1 = concat_chars(&chars_of("Moved "), &name);
                let m2 = concat_chars(&m1, &chars_of(" to "));
                let m3 = concat_chars(&m2, &dest);
                let msg = string_of(&concat_chars(&m3, &chars_of("\n")));
                let ghost before = messages@;
                messages.push(msg);
                assert forall|j: int| 0 <= j < k + 1 implies (#[trigger] messages@[j + 1])@ == moved_message(
                    entries@[j]@,
                    mod_folder@,
                ) by {
                    if j < k {
                        assert(messages@[j + 1] == before[j + 1]);
                    }
                }
                let ghost cbefore = created.deep_view();
                created.push(entries[k].clone());
                assert(created.deep_view() =~= cbefore.push(entries@[k as int]@));
                assert(entries.deep_view().take(k + 1) =~= entries.deep_view().take(k as int).push(
                    entries@[k as int]@,
                ));
            }
            assert(entries.deep_view().take(n as int) =~= entries.deep_view());
            from_mods_dir = true;
        },
        DownloadedFolder::Plain => {
            let a = concat_chars(&chars_of("Processing mod "), &chars_of(id));
            messages.push(string_of(&concat_chars(&a, &chars_of(" without a mods subfolder...\n"))));
            assert(messages.deep_view() =~= seq![
                "Processing mod "@ + item.publishedfileid@ + " without a mods subfolder...\n"@,
            ]);
            created.push(item.publishedfileid.clone());
            assert(created.deep_view() =~= seq![item.publishedfileid@]);
            from_mods_dir = false;
        },
    }
    let address = workshop_detail_url(id);
    let mut rows: Vec<(String, String, String)> = Vec::new();
    let n = created.len();
    for k in 0..n
        invariant
            n == created@.len(),
            rows@.len() == k,
            forall|j: int|
                0 <= j < k ==> (#[trigger] rows.deep_view()[j]) == (
                    created.deep_view()[j],
                    item.title@,
                    detail_url(item.publishedfileid@),
                ),
            address@ == detail_url(item.publishedfileid@),
    {
        let ghost before = rows.deep_view();
        rows.push((created[k].clone(), item.title.clone(), address.clone()));
        assert(rows.deep_view() =~= before.push((created.deep_view()[k as int], item.title@, address@)));
        assert forall|j: int| 0 <= j < k + 1 implies (#[trigger] rows.deep_view()[j]) == (
            created.deep_view()[j],
            item.title@,
            detail_url(item.publishedfileid@),
        ) by {
            if j < k {
                assert(rows.deep_view()[j] == before[j]);
            }
        }
    }
    let p = concat_chars(&chars_of("Processed "), &chars_of(item.title.as_str()));
    let processed_message = string_of(&concat_chars(&p, &chars_of(".")));
    DownloadedItemPlan {
        processed: true,
        from_mods_dir,
        created_folders: created,
        rows,
        messages,
        processed_message: Some(processed_message),
    }
}

/// Number of processed items among `plans`.
pub open spec fn count_processed(plans: Seq<DownloadedItemPlan>) -> nat
    decreases plans.len(),
{
    if plans.len() == 0 {
        0
    } else {
        count_processed(plans.drop_last()) + if plans.last().processed {
            1nat
        } else {
            0nat
        }
    }
}

/// The progress-log line closing the processing of the downloaded items.
pub fn processing_summary_message(plans: &Vec<DownloadedItemPlan>) -> (res: String)
    ensures
        res@ == "\nSuccessfully processed "@ + decimal(count_processed(plans@)) + " mod(s).\n"@,
{
    let mut count: usize = 0;
    let n = plans.len();
    for k in 0..n
        invariant
            n == plans@.len(),
            count == count_processed(plans@.take(k as int)),
            count <= k,
    {
        assert(plans@.take(k + 1).drop_last() =~= plans@.take(k as int));
        if plans[k].processed {
            count = count + 1;
        }
    }
    assert(plans@.take(n as int) =~= plans@);
    let a = concat_chars(&chars_of("\nSuccessfully processed "), &decimal_chars(count as u64));
    string_of(&concat_chars(&a, &chars_of(" mod(s).\n")))
}

} // verus!

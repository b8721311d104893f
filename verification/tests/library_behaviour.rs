use zomboid_mod_downloader::download::{
    after_steamcmd_exit, download_output_message, download_progress_message, plan_downloaded_item,
    processing_summary_message, start_download_outcome, steamcmd_args, steamcmd_run_message,
    DownloadedFolder, ExitPlan, PROJECT_ZOMBOID_APP_ID,
};
use zomboid_mod_downloader::html::{
    clean_html_text, decode_html_entities, div_end_from_spans, first_image_from_spans,
    is_workshop_image_url, links_from_captures, matching_div_end, page_title,
    card_of_block, collection_items_from_cards, required_items_section, valid_workshop_link_text,
    visible_text, WorkshopLocalFallback,
};
use zomboid_mod_downloader::local_mods::{
    first_present, installed_ids_from_mods, is_skipped_mod_folder, local_mod_from_parts,
    local_mod_from_cache, mod_folder_configured, mod_info_get, poster_url_for_cache, optional_nonempty, parse_mod_info, poster_extension_from_url, sort_local_mods,
    workshop_id_for_folder, LocalMod,
};
use zomboid_mod_downloader::pattern::char_index_of_byte;
use zomboid_mod_downloader::settings::{
    steamcmd_executable_path, validate_settings_paths, AppSettings, ValidationResult,
};
use zomboid_mod_downloader::workshop::{
    bridge_navigation_action, build_collection_preview, collection_queue_targets,
    normalized_workshop_title, plan_queue_with_required_items, resolve_workshop_entry_impl,
    BridgeAction, QueueCollectionItem, QueuedMod,
};
use zomboid_mod_downloader::workshop_url::{extract_workshop_id, parse_workshop_input, workshop_id_from_url};

fn strings(v: &[&str]) -> Vec<String> {
    v.iter().map(|s| s.to_string()).collect()
}

fn pairs(v: &[(&str, &str)]) -> Vec<(String, String)> {
    v.iter().map(|(a, b)| (a.to_string(), b.to_string())).collect()
}

fn local_mod(display_name: &str, workshop_id: &str) -> LocalMod {
    LocalMod {
        folder_name: display_name.to_string(),
        display_name: display_name.to_string(),
        package_id: String::new(),
        authors: String::new(),
        mod_version: String::new(),
        pz_version: String::new(),
        size_bytes: 0,
        path: String::new(),
        modified_at: String::new(),
        workshop_url: String::new(),
        workshop_id: workshop_id.to_string(),
        poster_path: String::new(),
        poster_url: String::new(),
    }
}

fn queued(id: &str, title: &str) -> QueuedMod {
    QueuedMod {
        publishedfileid: id.to_string(),
        title: title.to_string(),
        added_date: "2024-01-01T00:00:00+00:00".to_string(),
    }
}

fn settings(anonymous: bool, username: &str) -> AppSettings {
    AppSettings {
        steamcmd_path: r"C:\steamcmd".to_string(),
        mod_download_path: r"D:\mods".to_string(),
        steam_username: username.to_string(),
        use_anonymous_login: anonymous,
        auto_clear_queue: true,
        window_width: 1280,
        window_height: 820,
    }
}

const REQUIRED_PAGE: &str = r#"
    <div>Required items</div>
    <a href="https://steamcommunity.com/sharedfiles/filedetails/?id=2627877543">
        Become Desensitized
    </a>
    <a href="https://steamcommunity.com/sharedfiles/filedetails/?id=1111111111">
        Other Requirement
    </a>
    <div>Created by</div>
    <a href="https://steamcommunity.com/sharedfiles/filedetails/?id=1234567890">
        Unrelated Link
    </a>
"#;

#[test]
fn mod_info_reads_plain_entries() {
    let info = parse_mod_info("name=Nested Mod\nauthor=Local Author\nversion=1.2.3\nposter=poster.png\n");
    assert_eq!(
        info,
        pairs(&[
            ("name", "Nested Mod"),
            ("author", "Local Author"),
            ("version", "1.2.3"),
            ("poster", "poster.png"),
        ])
    );
    assert_eq!(mod_info_get(&info, "author").map(String::as_str), Some("Local Author"));
    assert_eq!(mod_info_get(&info, "missing"), None);
}

#[test]
fn mod_info_lowercases_keys_merges_repeats_and_skips_comments() {
    let info = parse_mod_info("# comment=ignored\r\n  Name = First \r\nno separator\nname=Second\nNAME=\r\nid = abc=def\r\n");
    assert_eq!(info, pairs(&[("name", "First\nSecond"), ("id", "abc=def")]));
}

#[test]
fn first_present_skips_blank_values() {
    let info = parse_mod_info("authors=   \nauthor=Someone\n");
    assert_eq!(first_present(&info, &["authors", "author"]).map(String::as_str), Some("Someone"));
    assert_eq!(first_present(&info, &["missing", "authors"]), None);
}

#[test]
fn optional_nonempty_drops_blank_text() {
    assert_eq!(optional_nonempty("   ".to_string()), None);
    assert_eq!(optional_nonempty(" x ".to_string()), Some(" x ".to_string()));
}

#[test]
fn installed_ids_skip_empty_and_repeated_ids() {
    let mods = vec![local_mod("A", "1"), local_mod("B", ""), local_mod("C", "2"), local_mod("D", "1")];
    assert_eq!(installed_ids_from_mods(&mods), strings(&["1", "2"]));
}

#[test]
fn local_mods_sort_by_lowercased_name_keeping_ties_in_order() {
    let mut first = local_mod("Alpha", "1");
    first.folder_name = "first".to_string();
    let mut second = local_mod("alpha", "2");
    second.folder_name = "second".to_string();
    let sorted = sort_local_mods(vec![local_mod("beta", "3"), first, second]);
    let names: Vec<&str> = sorted.iter().map(|m| m.folder_name.as_str()).collect();
    assert_eq!(names, vec!["first", "second", "beta"]);
}

#[test]
fn folder_workshop_id_prefers_recorded_url_then_numeric_folder() {
    assert_eq!(
        workshop_id_for_folder("https://steamcommunity.com/sharedfiles/filedetails/?id=555", "MyMod"),
        "555"
    );
    assert_eq!(workshop_id_for_folder("", "12345"), "12345");
    assert_eq!(workshop_id_for_folder("", "MyMod"), "");
    assert!(is_skipped_mod_folder(".cache"));
    assert!(is_skipped_mod_folder("steamapps"));
    assert!(!is_skipped_mod_folder("MyMod"));
}

#[test]
fn local_mod_uses_mod_info_then_workshop_fallback() {
    let info = parse_mod_info("name=Local\nid=pkg\nauthors=\nauthor=Auth\nversion=1.0\n");
    let fallback = WorkshopLocalFallback {
        title: Some("Fallback".to_string()),
        author: Some("Fallback Author".to_string()),
        mod_version: None,
        supported_version: Some("Build 42".to_string()),
        poster_url: Some("https://poster".to_string()),
    };
    let m = local_mod_from_parts(
        "777".to_string(),
        &info,
        &fallback,
        String::new(),
        "777".to_string(),
        "cache/777.jpg".to_string(),
        42,
        "D:/mods/777".to_string(),
        "2024-01-01".to_string(),
    );
    assert_eq!(m.display_name, "Local");
    assert_eq!(m.package_id, "pkg");
    assert_eq!(m.authors, "Auth");
    assert_eq!(m.mod_version, "1.0");
    assert_eq!(m.pz_version, "Build 42");
    assert_eq!(m.workshop_url, "https://steamcommunity.com/sharedfiles/filedetails/?id=777");
    assert_eq!(m.poster_url, "https://poster");
    assert_eq!(m.size_bytes, 42);

    let empty = parse_mod_info("");
    let bare = local_mod_from_parts(
        "Folder".to_string(),
        &empty,
        &WorkshopLocalFallback::empty(),
        String::new(),
        String::new(),
        String::new(),
        0,
        String::new(),
        String::new(),
    );
    assert_eq!(bare.display_name, "Folder");
    assert_eq!(bare.workshop_url, "");
    assert_eq!(bare.authors, "");
}

#[test]
fn poster_extension_follows_path_before_query() {
    assert_eq!(poster_extension_from_url("https://x/y.PNG?name=a.gif"), "png");
    assert_eq!(poster_extension_from_url("https://x/y.webp"), "webp");
    assert_eq!(poster_extension_from_url("https://x/y.Gif?x=1"), "gif");
    assert_eq!(poster_extension_from_url("https://x/y.jpeg"), "jpg");
    assert_eq!(poster_extension_from_url("https://x/y?img.png"), "jpg");
}

#[test]
fn steamcmd_arguments_for_anonymous_login() {
    let queue = vec![queued("111", "One"), queued("222", "Two")];
    let args = steamcmd_args(&settings(true, "ignored"), &queue).unwrap();
    assert_eq!(
        args,
        strings(&[
            "+login",
            "anonymous",
            "+force_install_dir",
            r"D:\mods",
            "+workshop_download_item",
            PROJECT_ZOMBOID_APP_ID,
            "111",
            "+workshop_download_item",
            "108600",
            "222",
            "+quit",
        ])
    );
}

#[test]
fn steamcmd_arguments_for_named_login() {
    let args = steamcmd_args(&settings(false, "bob"), &Vec::new()).unwrap();
    assert_eq!(args, strings(&["+login", "bob", "+force_install_dir", r"D:\mods", "+quit"]));
}

#[test]
fn steamcmd_arguments_need_a_user_name_without_anonymous_login() {
    assert_eq!(
        steamcmd_args(&settings(false, "   "), &vec![queued("1", "x")]),
        Err("Steam username is required when anonymous login is disabled.".to_string())
    );
}

#[test]
fn download_output_lines_and_progress() {
    assert_eq!(download_output_message("abc", false), "abc\n");
    assert_eq!(download_output_message("abc", true), "ERROR: abc\n");
    assert_eq!(download_progress_message("Downloading item 1 ... Success"), Some("Downloading..."));
    assert_eq!(download_progress_message("Update state (0x61) downloading"), Some("Updating..."));
    assert_eq!(download_progress_message("Success. Downloaded item"), Some("Download successful."));
    assert_eq!(download_progress_message("App is fully installed"), Some("Download successful."));
    assert_eq!(download_progress_message("Loading Steam API"), None);
}

#[test]
fn settings_validation_messages() {
    let mut s = settings(true, "");
    let r = validate_settings_paths(&s, true, r"C:\steamcmd\steamcmd.exe");
    assert!(r.valid);
    assert_eq!(r.message, "Paths are valid.");

    let r = validate_settings_paths(&s, false, r"C:\steamcmd\steamcmd.exe");
    assert!(!r.valid);
    assert_eq!(r.message, r"SteamCMD was not found at: C:\steamcmd\steamcmd.exe");

    s.mod_download_path = "  ".to_string();
    let r = validate_settings_paths(&s, true, r"C:\steamcmd\steamcmd.exe");
    assert!(!r.valid);
    assert_eq!(r.message, "Mod download path is required.");

    s.steamcmd_path = " ".to_string();
    let r = validate_settings_paths(&s, false, "");
    assert!(!r.valid);
    assert_eq!(r.message, "SteamCMD executable path is required.");
}

#[test]
fn default_settings_values() {
    let s = AppSettings::default();
    assert_eq!(s.steamcmd_path, "");
    assert!(s.use_anonymous_login);
    assert!(s.auto_clear_queue);
    assert_eq!((s.window_width, s.window_height), (1280, 820));
}

#[test]
fn normalized_title_trims_or_defaults() {
    assert_eq!(normalized_workshop_title("123", "  My Mod \n"), "My Mod");
    assert_eq!(normalized_workshop_title("123", " \t "), "Workshop Item 123");
    let once = normalized_workshop_title("9", "  Title ");
    assert_eq!(normalized_workshop_title("9", &once), once);
}

#[test]
fn collection_preview_counts_children() {
    let preview = build_collection_preview(
        &strings(&["2"]),
        &strings(&["3"]),
        "100",
        "https://steamcommunity.com/sharedfiles/filedetails/?id=100",
        "  ",
        pairs(&[("100", "Self"), ("1", " One "), ("2", ""), ("3", "Three"), ("1", "Again")]),
    );
    assert_eq!(preview.collection_id, "100");
    assert_eq!(preview.title, "Workshop Item 100");
    let items: Vec<(&str, &str, bool, bool)> = preview
        .items
        .iter()
        .map(|i| (i.publishedfileid.as_str(), i.title.as_str(), i.queued, i.installed))
        .collect();
    assert_eq!(
        items,
        vec![("1", "One", false, false), ("2", "Workshop Item 2", true, false), ("3", "Three", false, true)]
    );
    assert_eq!(preview.items[0].url, "https://steamcommunity.com/sharedfiles/filedetails/?id=1");
    assert_eq!(
        (preview.total_count, preview.queued_count, preview.installed_count, preview.addable_count),
        (3, 1, 1, 1)
    );
}

#[test]
fn collection_queue_targets_filter_and_dedup() {
    let items: Vec<QueueCollectionItem> = [(" 11 ", "A"), ("abc", "B"), ("22", "C"), ("11", "D"), ("", "E"), ("33", "F")]
        .iter()
        .map(|(id, title)| QueueCollectionItem { publishedfileid: id.to_string(), title: title.to_string() })
        .collect();
    assert_eq!(collection_queue_targets(&items, &strings(&["22"])), pairs(&[("11", "A"), ("33", "F")]));
}

#[test]
fn queue_plan_adds_required_items_not_installed() {
    let plan = plan_queue_with_required_items(&strings(&["1111111111"]), " 3567084868 ", "Main", |url: &str| {
        assert_eq!(url, "https://steamcommunity.com/sharedfiles/filedetails/?id=3567084868");
        Ok(REQUIRED_PAGE.to_string())
    });
    assert_eq!(plan, pairs(&[("3567084868", "Main"), ("2627877543", "Become Desensitized")]));
}

#[test]
fn queue_plan_keeps_item_when_page_fails() {
    let plan = plan_queue_with_required_items(&Vec::new(), "42", "", |_url: &str| Err("offline".to_string()));
    assert_eq!(plan, pairs(&[("42", "")]));
}

#[test]
fn queue_plan_skips_installed_or_invalid_targets_without_fetching() {
    let no_fetch = |_url: &str| -> Result<String, String> { panic!("must not fetch") };
    assert!(plan_queue_with_required_items(&strings(&["42"]), "42", "x", no_fetch).is_empty());
    assert!(plan_queue_with_required_items(&Vec::new(), "4a2", "x", no_fetch).is_empty());
    assert!(plan_queue_with_required_items(&Vec::new(), "  ", "x", no_fetch).is_empty());
}

#[test]
fn resolve_numeric_input_previews_item_without_fetching() {
    let queue = vec![queued("3567084868", "Queued Title")];
    let entry = resolve_workshop_entry_impl(
        " 3567084868 ",
        |_u: &str| panic!("must not fetch"),
        move || Ok((queue, strings(&["3567084868"]))),
    )
    .unwrap();
    assert_eq!(entry.kind, "item");
    assert!(entry.collection.is_none());
    let item = entry.item.unwrap();
    assert_eq!(item.publishedfileid, "3567084868");
    assert_eq!(item.title, "Queued Title");
    assert_eq!(item.url, "https://steamcommunity.com/sharedfiles/filedetails/?id=3567084868");
    assert!(item.queued);
    assert!(item.installed);

    let entry = resolve_workshop_entry_impl("12345", |_u: &str| panic!("no"), || Ok((Vec::new(), Vec::new()))).unwrap();
    assert_eq!(entry.item.unwrap().title, "Workshop Item 12345");
}

#[test]
fn resolve_rejects_unrecognised_input() {
    let err = resolve_workshop_entry_impl("hello", |_u: &str| panic!("no"), || -> Result<(Vec<QueuedMod>, Vec<String>), String> {
        panic!("must not load")
    })
    .unwrap_err();
    assert_eq!(err, "Paste a Steam Workshop URL or numeric Workshop ID.");
    let err = resolve_workshop_entry_impl("https://example.com/?id=123", |_u: &str| panic!("no"), || {
        Err("must not load".to_string())
    })
    .unwrap_err();
    assert_eq!(err, "Paste a Steam Workshop URL or numeric Workshop ID.");
}

#[test]
fn resolve_url_reports_fetch_failure() {
    let err = resolve_workshop_entry_impl(
        "https://steamcommunity.com/sharedfiles/filedetails/?id=3724576677",
        |_u: &str| Err("Could not load Workshop page.".to_string()),
        || -> Result<(Vec<QueuedMod>, Vec<String>), String> { panic!("must not load after a failed fetch") },
    )
    .unwrap_err();
    assert_eq!(err, "Could not load Workshop page.");
}

#[test]
fn resolve_url_detects_collection() {
    let html = r#"
        <div class="collectionChildren">
            <div class="collectionItem">
                <a href="https://steamcommunity.com/sharedfiles/filedetails/?id=3567084868">
                    <div class="workshopItemTitle">Single Mod Title</div>
                </a>
            </div>
        </div>
    "#;
    let queue = vec![queued("3567084868", "Single Mod Title")];
    let entry = resolve_workshop_entry_impl(
        "https://steamcommunity.com/sharedfiles/filedetails/?id=3724576677",
        |u: &str| {
            assert_eq!(u, "https://steamcommunity.com/sharedfiles/filedetails/?id=3724576677");
            Ok(html.to_string())
        },
        move || Ok((queue, Vec::new())),
    )
    .unwrap();
    assert_eq!(entry.kind, "collection");
    let c = entry.collection.unwrap();
    assert_eq!(c.collection_id, "3724576677");
    assert_eq!(c.title, "Single Mod Title");
    assert_eq!(c.url, "https://steamcommunity.com/sharedfiles/filedetails/?id=3724576677");
    assert_eq!(c.items.len(), 1);
    assert_eq!(c.items[0].title, "Single Mod Title");
    assert_eq!((c.total_count, c.queued_count, c.installed_count, c.addable_count), (1, 1, 0, 0));
}

#[test]
fn resolve_url_of_single_item_page() {
    let html = "<html><head><title>Single Mod Title - Steam Workshop</title></head></html>";
    let entry = resolve_workshop_entry_impl(
        "https://steamcommunity.com/workshop/filedetails/?publishedfileid=555",
        |_u: &str| Ok(html.to_string()),
        || Ok((Vec::new(), Vec::new())),
    )
    .unwrap();
    assert_eq!(entry.kind, "item");
    let item = entry.item.unwrap();
    assert_eq!(item.publishedfileid, "555");
    assert_eq!(item.title, "Single Mod Title");
    assert!(!item.queued && !item.installed);
}

#[test]
fn bridge_links_become_actions() {
    assert!(matches!(
        bridge_navigation_action("https://steamcommunity.com/sharedfiles/filedetails/?id=1"),
        BridgeAction::Allow
    ));
    match bridge_navigation_action("zmd-workshop://queue/?publishedfileid=123&title=My%20Mod") {
        BridgeAction::Queue { publishedfileid, title } => {
            assert_eq!(publishedfileid, "123");
            assert_eq!(title, "My Mod");
        }
        other => panic!("unexpected {other:?}"),
    }
    match bridge_navigation_action("zmd-workshop://unqueue/?publishedfileid=123") {
        BridgeAction::Unqueue { publishedfileid } => assert_eq!(publishedfileid, "123"),
        other => panic!("unexpected {other:?}"),
    }
    match bridge_navigation_action("zmd-workshop://collection/?publishedfileid=77&title=") {
        BridgeAction::Collection { publishedfileid, request } => {
            assert_eq!(publishedfileid, "77");
            assert_eq!(request.collection_id, "77");
            assert_eq!(request.title, "Workshop Item 77");
            assert_eq!(request.url, "https://steamcommunity.com/sharedfiles/filedetails/?id=77");
        }
        other => panic!("unexpected {other:?}"),
    }
    match bridge_navigation_action("zmd-workshop://state/?publishedfileid=5") {
        BridgeAction::Refresh { publishedfileid } => assert_eq!(publishedfileid, "5"),
        other => panic!("unexpected {other:?}"),
    }
    assert!(matches!(
        bridge_navigation_action("zmd-workshop://queue/?publishedfileid=12a"),
        BridgeAction::Ignore
    ));
}

#[test]
fn html_entities_and_text_cleaning() {
    assert_eq!(
        decode_html_entities("&lt;b&gt; &amp;amp; &quot;x&quot; &#39;y&apos;&nbsp;z"),
        "<b> &amp; \"x\" 'y' z"
    );
    assert_eq!(clean_html_text("<p>Hello&nbsp;&amp;  <b>World</b>\n</p>"), "Hello & World");
    assert_eq!(clean_html_text("   "), "");
}

#[test]
fn page_title_prefers_item_title_and_strips_suffix() {
    assert_eq!(
        page_title(r#"<title>Other - Steam Workshop</title><div class="workshopItemTitle"> My <b>Mod</b> </div>"#),
        Some("My Mod".to_string())
    );
    assert_eq!(page_title("<title>Some Page - Steam Workshop</title>"), Some("Some Page".to_string()));
    assert_eq!(page_title("<p>no title</p>"), None);
}

#[test]
fn workshop_ids_from_addresses() {
    assert_eq!(extract_workshop_id("https://x/?a=1&id=42&b=2"), Some("42".to_string()));
    assert_eq!(extract_workshop_id("https://x/?a=1"), None);
    assert_eq!(
        workshop_id_from_url("https://steamcommunity.com/sharedfiles/filedetails/?id=123&searchtext="),
        Some("123".to_string())
    );
    assert_eq!(
        workshop_id_from_url("https://steamcommunity.com/workshop/filedetails/?publishedfileid=9"),
        Some("9".to_string())
    );
    assert_eq!(workshop_id_from_url("https://example.com/sharedfiles/filedetails/?id=1"), None);
    assert_eq!(workshop_id_from_url("https://steamcommunity.com/app/108600"), None);
}

#[test]
fn link_text_validity() {
    assert!(valid_workshop_link_text("  A Mod "));
    assert!(!valid_workshop_link_text("   "));
    assert!(!valid_workshop_link_text(" https://steamcommunity.com/x"));
    assert!(!valid_workshop_link_text("Instructions PAGE"));
}

#[test]
fn links_from_search_results_dedup_and_title() {
    let all = vec![
        vec![Some("<a href=x>".to_string()), Some("11".to_string()), Some(" <b>Mod &amp; One</b> ".to_string())],
        vec![Some("<a href=y>".to_string()), Some("11".to_string()), Some("Duplicate".to_string())],
        vec![Some("<a href=z>".to_string()), Some("99".to_string()), Some("Excluded".to_string())],
        vec![Some("<a>".to_string()), None, None],
        vec![Some("<a href=w>".to_string()), Some("22".to_string()), Some("https://x".to_string())],
    ];
    assert_eq!(links_from_captures(&all, "99"), pairs(&[("11", "Mod & One"), ("22", "Workshop Item 22")]));
}

#[test]
fn required_section_runs_to_first_later_marker() {
    let html = "<p>Intro</p><div>REQUIRED ITEMS</div><a>x</a><div>Description</div><div>Created by</div>";
    assert_eq!(required_items_section(html), Some("REQUIRED ITEMS</div><a>x</a><div>"));
    assert_eq!(required_items_section("<div>Required items</div> tail"), Some("Required items</div> tail"));
    assert_eq!(required_items_section("no such heading"), None);
}

#[test]
fn div_nesting_from_tag_spans() {
    let text: Vec<char> = "<div><div>é</div></div>x".chars().collect();
    assert_eq!(div_end_from_spans(&text, &vec![(0, 5), (5, 10), (12, 18), (18, 24)]), Some(23));
    assert_eq!(div_end_from_spans(&text, &vec![(0, 5), (5, 10)]), None);
    assert_eq!(matching_div_end("ab<div><div>é</div></div>x", 2), Some(25));
    assert_eq!(matching_div_end("<div><div></div>", 0), None);
}

#[test]
fn byte_offsets_become_character_positions() {
    let chars: Vec<char> = "aé😀b".chars().collect();
    assert_eq!(char_index_of_byte(&chars, 0), 0);
    assert_eq!(char_index_of_byte(&chars, 2), 1);
    assert_eq!(char_index_of_byte(&chars, 3), 2);
    assert_eq!(char_index_of_byte(&chars, 7), 3);
    assert_eq!(char_index_of_byte(&chars, 8), 4);
    assert_eq!(char_index_of_byte(&chars, 100), 4);
}

#[test]
fn workshop_image_urls() {
    assert!(is_workshop_image_url("https://images.steamusercontent.com/ugc/1/2/"));
    assert!(is_workshop_image_url("http://steamuserimages-a.akamaihd.net/ugc/1/"));
    assert!(!is_workshop_image_url("ftp://images.steamusercontent.com/ugc/1/"));
    assert!(!is_workshop_image_url("https://example.com/x.png"));
    let text: Vec<char> = "é http://example.com/x.png b https://images.steamusercontent.com/ugc/5/A/ c".chars().collect();
    assert_eq!(
        first_image_from_spans(&text, &vec![(3, 27), (30, 74)]),
        Some("https://images.steamusercontent.com/ugc/5/A/".to_string())
    );
    assert_eq!(first_image_from_spans(&text, &vec![(3, 27)]), None);
}

#[test]
fn visible_text_decodes_and_collapses() {
    assert_eq!(visible_text(Some(" Hello&nbsp;&amp;   World \n ".to_string()), "unused"), "Hello & World");
    assert_eq!(visible_text(None, "  a \t b  "), "a b");
}

#[test]
fn item_page_address_is_accepted_as_input() {
    for url in [
        "https://steamcommunity.com/sharedfiles/filedetails/?id=3567084868&searchtext=",
        "https://STEAMCOMMUNITY.com/workshop/filedetails/?publishedfileid=42",
    ] {
        let id = workshop_id_from_url(url).unwrap();
        let (input_id, detail, fetch) = parse_workshop_input(url).unwrap();
        assert_eq!(input_id, id);
        assert_eq!(detail, format!("https://steamcommunity.com/sharedfiles/filedetails/?id={id}"));
        assert!(fetch);
    }
}

#[test]
fn steamcmd_arguments_shape_for_many_items() {
    let queue: Vec<QueuedMod> = (1..=4).map(|n| queued(&n.to_string(), "t")).collect();
    let args = steamcmd_args(&settings(true, ""), &queue).unwrap();
    assert_eq!(args.len(), 5 + 3 * queue.len());
    assert_eq!(args.last().map(String::as_str), Some("+quit"));
    for (k, item) in queue.iter().enumerate() {
        assert_eq!(args[4 + 3 * k], "+workshop_download_item");
        assert_eq!(args[5 + 3 * k], "108600");
        assert_eq!(args[6 + 3 * k], item.publishedfileid);
    }
}

#[test]
fn resolve_loads_after_fetch_and_passes_load_errors() {
    let err = resolve_workshop_entry_impl("12345", |_u: &str| panic!("no"), || Err("database locked".to_string()))
        .unwrap_err();
    assert_eq!(err, "database locked");
    let err = resolve_workshop_entry_impl(
        "https://steamcommunity.com/sharedfiles/filedetails/?id=3724576677",
        |_u: &str| Ok("<title>A - Steam Workshop</title>".to_string()),
        || Err("database locked".to_string()),
    )
    .unwrap_err();
    assert_eq!(err, "database locked");
}

#[test]
fn start_download_checks_in_order() {
    let valid = || Some(ValidationResult { valid: true, message: "Paths are valid.".to_string() });
    let r = start_download_outcome(true, None, None).unwrap();
    assert!(!r.success);
    assert_eq!(r.message, "Download already in progress.");
    assert!(start_download_outcome(false, None, None).is_none());
    let r = start_download_outcome(
        false,
        Some(ValidationResult { valid: false, message: "Mod download path is required.".to_string() }),
        Some(3),
    )
    .unwrap();
    assert!(!r.success);
    assert_eq!(r.message, "Mod download path is required.");
    assert!(start_download_outcome(false, valid(), None).is_none());
    let r = start_download_outcome(false, valid(), Some(0)).unwrap();
    assert!(!r.success);
    assert_eq!(r.message, "No mods are queued.");
    let r = start_download_outcome(false, valid(), Some(2)).unwrap();
    assert!(r.success);
    assert_eq!(r.message, "Download started.");
}

#[test]
fn steamcmd_exit_decisions() {
    match after_steamcmd_exit(8, true) {
        ExitPlan::Failed { message } => assert_eq!(message, "SteamCMD exited with code 8."),
        other => panic!("unexpected {other:?}"),
    }
    match after_steamcmd_exit(-1, true) {
        ExitPlan::Failed { message } => assert_eq!(message, "SteamCMD exited with code -1."),
        other => panic!("unexpected {other:?}"),
    }
    match after_steamcmd_exit(i32::MIN, false) {
        ExitPlan::Failed { message } => assert_eq!(message, "SteamCMD exited with code -2147483648."),
        other => panic!("unexpected {other:?}"),
    }
    assert!(matches!(after_steamcmd_exit(0, true), ExitPlan::ProcessDownloads { clear_queue: true }));
    assert!(matches!(after_steamcmd_exit(0, false), ExitPlan::ProcessDownloads { clear_queue: false }));
    assert_eq!(steamcmd_run_message(12), "Executing SteamCMD with 12 queued item(s).\n");
    assert_eq!(steamcmd_run_message(0), "Executing SteamCMD with 0 queued item(s).\n");
}

#[test]
fn downloaded_item_plans() {
    let item = queued("123", "Cool Mod");
    let address = "https://steamcommunity.com/sharedfiles/filedetails/?id=123".to_string();

    let missing = plan_downloaded_item(&item, DownloadedFolder::Missing, r"D:\mods");
    assert!(!missing.processed);
    assert!(missing.created_folders.is_empty() && missing.rows.is_empty());
    assert_eq!(missing.messages, strings(&["Warning: Mod 123 not found in workshop folder.\n"]));
    assert_eq!(missing.processed_message, None);

    let with_mods = plan_downloaded_item(
        &item,
        DownloadedFolder::WithModsDir { entries: strings(&["ModA", "ModB"]) },
        r"D:\mods",
    );
    assert!(with_mods.processed && with_mods.from_mods_dir);
    assert_eq!(with_mods.created_folders, strings(&["ModA", "ModB"]));
    assert_eq!(
        with_mods.messages,
        strings(&["Processing mod 123...\n", "Moved ModA to D:\\mods\n", "Moved ModB to D:\\mods\n"])
    );
    assert_eq!(
        with_mods.rows,
        vec![
            ("ModA".to_string(), "Cool Mod".to_string(), address.clone()),
            ("ModB".to_string(), "Cool Mod".to_string(), address.clone()),
        ]
    );
    assert_eq!(with_mods.processed_message.as_deref(), Some("Processed Cool Mod."));

    let plain = plan_downloaded_item(&item, DownloadedFolder::Plain, r"D:\mods");
    assert!(plain.processed && !plain.from_mods_dir);
    assert_eq!(plain.created_folders, strings(&["123"]));
    assert_eq!(plain.messages, strings(&["Processing mod 123 without a mods subfolder...\n"]));
    assert_eq!(plain.rows, vec![("123".to_string(), "Cool Mod".to_string(), address)]);

    let empty_mods = plan_downloaded_item(&item, DownloadedFolder::WithModsDir { entries: Vec::new() }, "x");
    assert!(empty_mods.processed && empty_mods.rows.is_empty());

    assert_eq!(
        processing_summary_message(&vec![missing, with_mods, plain, empty_mods]),
        "\nSuccessfully processed 3 mod(s).\n"
    );
    assert_eq!(processing_summary_message(&Vec::new()), "\nSuccessfully processed 0 mod(s).\n");
}

#[test]
fn blank_mod_folder_means_no_local_mods() {
    assert!(!mod_folder_configured(""));
    assert!(!mod_folder_configured(" \t "));
    assert!(mod_folder_configured(r" D:\mods "));
}

#[test]
fn steamcmd_executable_location() {
    assert_eq!(steamcmd_executable_path("  C:/steamcmd/steamcmd.exe \n", false), "C:/steamcmd/steamcmd.exe");
    let joined = steamcmd_executable_path(" /opt/steamcmd ", true);
    assert!(joined.ends_with("steamcmd.exe"));
    assert!(joined.starts_with("/opt/steamcmd"));
    assert_eq!(joined.len(), "/opt/steamcmd".len() + 1 + "steamcmd.exe".len());
}

#[test]
fn cached_mod_records() {
    let calls = std::cell::Cell::new(0);
    let kept = poster_url_for_cache(&"https://poster".to_string(), || {
        calls.set(calls.get() + 1);
        Some("other".to_string())
    });
    assert_eq!(kept.as_deref(), Some("https://poster"));
    assert_eq!(calls.get(), 0);
    let from_page = poster_url_for_cache(&"  ".to_string(), || Some("https://page".to_string()));
    assert_eq!(from_page.as_deref(), Some("https://page"));
    assert_eq!(poster_url_for_cache(&String::new(), || None), None);

    let m = local_mod_from_cache(
        "777".to_string(),
        "D:/mods/777".to_string(),
        "2024".to_string(),
        "Name".to_string(),
        "pkg".to_string(),
        "Auth".to_string(),
        "1.0".to_string(),
        "Build 42".to_string(),
        -5,
        "cache/777.png".to_string(),
        "https://poster".to_string(),
        "777".to_string(),
        "https://steamcommunity.com/sharedfiles/filedetails/?id=777".to_string(),
    );
    assert_eq!(m.size_bytes, 0);
    assert_eq!(m.display_name, "Name");
    assert_eq!(m.poster_path, "cache/777.png");
    assert_eq!(m.workshop_id, "777");
    let big = local_mod_from_cache(
        String::new(), String::new(), String::new(), String::new(), String::new(), String::new(),
        String::new(), String::new(), 4096, String::new(), String::new(), String::new(), String::new(),
    );
    assert_eq!(big.size_bytes, 4096);
}

#[test]
fn collection_children_from_cards() {
    let cards = vec![
        (None, Some("No link".to_string()), String::new()),
        (Some("100".to_string()), None, "Self".to_string()),
        (Some("1".to_string()), Some("Card One".to_string()), "Link One".to_string()),
        (Some("2".to_string()), None, "Link Two".to_string()),
        (Some("1".to_string()), Some("Again".to_string()), String::new()),
        (Some("3".to_string()), None, "https://steamcommunity.com/x".to_string()),
        (Some("4".to_string()), None, "instructions page".to_string()),
    ];
    assert_eq!(
        collection_items_from_cards(&cards, "100"),
        pairs(&[("1", "Card One"), ("2", "Link Two"), ("3", "Workshop Item 3"), ("4", "Workshop Item 4")])
    );
    let block = r#"<div class="collectionItem"><a href="https://steamcommunity.com/sharedfiles/filedetails/?id=42"> Some <b>Mod</b> </a><div class="workshopItemTitle">Card Title</div></div>"#;
    assert_eq!(
        card_of_block(block),
        (Some("42".to_string()), Some("Card Title".to_string()), "Some Mod".to_string())
    );
    assert_eq!(card_of_block("<div>no link</div>"), (None, None, String::new()));
}

use zomboid_mod_downloader::html::{
    collection_items_from_html, looks_like_collection_page, required_items_from_html,
    workshop_local_fallback_from_html, workshop_poster_from_html,
};
use zomboid_mod_downloader::local_mods::normalize_windows_extended_path;
use zomboid_mod_downloader::workshop_url::parse_workshop_input;

#[test]
fn numeric_workshop_input_defaults_to_single_item_without_fetch() {
    let (id, url, should_fetch) = parse_workshop_input("3567084868").unwrap();

    assert_eq!(id, "3567084868");
    assert_eq!(
        url,
        "https://steamcommunity.com/sharedfiles/filedetails/?id=3567084868"
    );
    assert!(!should_fetch);
}

#[test]
fn workshop_url_requires_fetch_for_collection_detection() {
    let (id, url, should_fetch) = parse_workshop_input(
        "https://steamcommunity.com/sharedfiles/filedetails/?id=3724576677",
    )
    .unwrap();

    assert_eq!(id, "3724576677");
    assert_eq!(
        url,
        "https://steamcommunity.com/sharedfiles/filedetails/?id=3724576677"
    );
    assert!(should_fetch);
}

#[test]
fn collection_html_exposes_child_mods() {
    let html = r#"
        <html>
            <body>
                <a href="https://steamcommunity.com/sharedfiles/filedetails/?id=2872282653">
                    instructions page
                </a>
                <div class="collectionChildren">
                    <div class="collectionItem">
                        <a href="https://steamcommunity.com/sharedfiles/filedetails/?id=3567084868">
                            <div class="workshopItemTitle">Single Mod Title</div>
                        </a>
                    </div>
                </div>
            </body>
        </html>
    "#;

    assert!(looks_like_collection_page(html));
    assert_eq!(
        collection_items_from_html(html, "3724576677"),
        vec![("3567084868".to_string(), "Single Mod Title".to_string())]
    );
}

#[test]
fn collection_child_title_prefers_card_title_over_link_text() {
    let html = r#"
        <div class="collectionChildren">
            <div class="collectionItem">
                <a href="https://steamcommunity.com/sharedfiles/filedetails/?id=2627877543">
                    https://steamcommunity.com/sharedfiles/filedetails/?id=2627877543
                </a>
                <div class="workshopItemTitle">Become Desensitized</div>
            </div>
        </div>
    "#;

    assert_eq!(
        collection_items_from_html(html, "3724576677"),
        vec![("2627877543".to_string(), "Become Desensitized".to_string())]
    );
}

#[test]
fn required_items_extracts_dependencies_only_from_required_section() {
    let html = r#"
        <a href="https://steamcommunity.com/sharedfiles/filedetails/?id=2872282653">
            instructions page
        </a>
        <div>Required items</div>
        <div>This item requires all of the following other items</div>
        <a href="https://steamcommunity.com/sharedfiles/filedetails/?id=2627877543">
            Become Desensitized
        </a>
        <div>Created by</div>
        <a href="https://steamcommunity.com/sharedfiles/filedetails/?id=1234567890">
            Unrelated Link
        </a>
    "#;

    assert_eq!(
        required_items_from_html(html, "3567084868"),
        vec![("2627877543".to_string(), "Become Desensitized".to_string())]
    );
}

#[test]
fn required_items_ignores_self_and_url_link_text() {
    let html = r#"
        <div>Required items</div>
        <a href="https://steamcommunity.com/sharedfiles/filedetails/?id=3567084868">
            Same Item
        </a>
        <a href="https://steamcommunity.com/sharedfiles/filedetails/?id=1111111111">
            https://steamcommunity.com/sharedfiles/filedetails/?id=1111111111
        </a>
        <div>Created by</div>
    "#;

    assert_eq!(
        required_items_from_html(html, "3567084868"),
        vec![(
            "1111111111".to_string(),
            "Workshop Item 1111111111".to_string()
        )]
    );
}

#[test]
fn workshop_fallback_extracts_author_build_and_poster() {
    let html = r#"
        <html>
            <head>
                <title>[B42] Example Mod - Steam Workshop</title>
                <meta property="og:image" content="https://images.steamusercontent.com/ugc/24307035126317491/0578D28193C22EBCECD677A4253ACE6426BD842D/">
            </head>
            <body>
                <a>Build 42</a>
                <div>Created by</div>
                <div class="friendBlockContent"><a>Workshop Author</a></div>
                <div>Description Version: 2.5</div>
            </body>
        </html>
    "#;

    let fallback = workshop_local_fallback_from_html(html);
    assert_eq!(fallback.title.as_deref(), Some("[B42] Example Mod"));
    assert_eq!(fallback.author.as_deref(), Some("Workshop Author"));
    assert_eq!(fallback.mod_version.as_deref(), Some("2.5"));
    assert_eq!(fallback.supported_version.as_deref(), Some("Build 42"));
    assert_eq!(
        fallback.poster_url.as_deref(),
        Some("https://images.steamusercontent.com/ugc/24307035126317491/0578D28193C22EBCECD677A4253ACE6426BD842D/")
    );
}

#[test]
fn workshop_poster_extracts_steamusercontent_preview() {
    let html = r#"
        <div class="highlight_player_area">
            <img src="https://images.steamusercontent.com/ugc/24307035126317491/0578D28193C22EBCECD677A4253ACE6426BD842D/?imw=268&amp;imh=268&amp;ima=fit&amp;impolicy=Letterbox&amp;imcolor=%23000000&amp;letterbox=true">
        </div>
    "#;

    assert_eq!(
        workshop_poster_from_html(html).as_deref(),
        Some("https://images.steamusercontent.com/ugc/24307035126317491/0578D28193C22EBCECD677A4253ACE6426BD842D/?imw=268&imh=268&ima=fit&impolicy=Letterbox&imcolor=%23000000&letterbox=true")
    );
}

#[test]
fn workshop_poster_extracts_escaped_steamusercontent_preview() {
    let html = r#"
        {"preview_url":"https:\/\/images.steamusercontent.com\/ugc\/24307035126317491\/0578D28193C22EBCECD677A4253ACE6426BD842D\/?imw=268&imh=268"}
    "#;

    assert_eq!(
        workshop_poster_from_html(html).as_deref(),
        Some("https://images.steamusercontent.com/ugc/24307035126317491/0578D28193C22EBCECD677A4253ACE6426BD842D/?imw=268&imh=268")
    );
}

#[test]
fn normalizes_windows_extended_paths_for_frontend() {
    assert_eq!(
        normalize_windows_extended_path(r"\\?\C:\Mods\Example\poster.png"),
        r"C:\Mods\Example\poster.png"
    );
    assert_eq!(
        normalize_windows_extended_path(r"\\?\UNC\server\share\poster.png"),
        r"\\server\share\poster.png"
    );
}

#[test]
fn single_item_html_does_not_look_like_collection() {
    let html = r#"
        <html>
            <head><title>Single Mod Title - Steam Workshop</title></head>
            <body><div class="workshopItemTitle">Single Mod Title</div></body>
        </html>
    "#;

    assert!(!looks_like_collection_page(html));
    assert!(collection_items_from_html(html, "3567084868").is_empty());
}

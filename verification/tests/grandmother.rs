use ilovetv::{
    Catalog, CatalogError, Conf, Configuration, GetM3u8, GetPlayPath, GrandMother, M3u8, Next,
    OfflineEntry, Playlist, WatchedFind,
};
use std::path::PathBuf;
use std::rc::Rc;

fn line(title: &str, link: &str) -> String {
    format!(
        "#EXTINF:-1 tvg-id=\"i\" tvg-name=\"n\" tvg-logo=\"l\" group-title=\"g\",{}\n{}\n",
        title, link
    )
}

fn text(pairs: &[(&str, &str)]) -> String {
    let mut text = String::from("#EXTM3U\n");
    for (title, link) in pairs {
        text.push_str(&line(title, link));
    }
    text
}

fn entry(name: &str, link: &str) -> M3u8 {
    M3u8 {
        tvg_id: String::new(),
        tvg_name: String::new(),
        tvg_logo: String::new(),
        group_title: String::new(),
        name: name.to_string(),
        link: Rc::new(link.to_string()),
        watched: false,
    }
}

fn config(seen: Vec<&str>) -> Configuration {
    Configuration::new(
        Conf::new(Rc::new("http://host/list".to_string())),
        Rc::new(PathBuf::from("/cache/playlist.m3u8")),
        PathBuf::from("/cache/watched_links.json"),
        Some(seen.into_iter().map(String::from).collect()),
        PathBuf::from("/config/config.json"),
        PathBuf::from("/data"),
        Some(vec![OfflineEntry::new(entry("Saved", "http://h/s"), Rc::new("/data/s.mkv".to_string()))]),
    )
}

fn playlist(content: &str) -> Playlist {
    let mut playlist =
        Playlist::new(Rc::new(PathBuf::from("/cache/playlist.m3u8")), Rc::new("http://host/list".to_string()));
    playlist.content = content.to_string();
    playlist
}

fn state(gm: &GrandMother) -> Vec<(String, bool)> {
    gm.parser.get_m3u8().iter().map(|e| (e.name.clone(), e.watched)).collect()
}

fn pair(name: &str, watched: bool) -> (String, bool) {
    (name.to_string(), watched)
}

#[test]
fn online_catalog_takes_seen_links_from_the_configuration() {
    let gm = GrandMother::new_online(
        config(vec!["http://h/2"]),
        playlist(&text(&[("One", "http://h/1"), ("Two", "http://h/2")])),
    )
    .unwrap();
    assert!(matches!(gm.parser, Catalog::Live(_)));
    assert!(gm.playlist.is_some());
    assert_eq!(state(&gm), vec![pair("One", false), pair("Two", true)]);
}

#[test]
fn online_catalog_of_malformed_text_is_refused() {
    let r = GrandMother::new_online(config(vec![]), playlist("garbage"));
    assert!(matches!(r, Err(CatalogError::Parse)));
}

#[test]
fn offline_catalog_holds_the_ledger() {
    let gm = GrandMother::new_offline(config(vec![]));
    assert!(matches!(gm.parser, Catalog::Archived(_)));
    assert!(gm.playlist.is_none());
    assert_eq!(state(&gm), vec![pair("Saved", false)]);
    assert_eq!(
        gm.parser.get_path_to_play(Rc::new("http://h/s".to_string())),
        Ok(Rc::new("/data/s.mkv".to_string()))
    );
    assert_eq!(
        gm.parser.get_path_to_play(Rc::new("http://h/1".to_string())),
        Err(CatalogError::NotArchived)
    );
}

#[test]
fn refresh_of_archived_catalog_is_unsupported() {
    let mut gm = GrandMother::new_offline(config(vec![]));
    assert_eq!(gm.refresh(), Next::Failed(CatalogError::UnsupportedInOfflineMode));
    assert_eq!(
        gm.refreshed(Ok(text(&[("One", "http://h/1")]).into_bytes())),
        Next::Failed(CatalogError::UnsupportedInOfflineMode)
    );
    assert_eq!(state(&gm), vec![pair("Saved", false)]);
    assert!(matches!(gm.parser, Catalog::Archived(_)));
}

#[test]
fn refresh_replaces_the_catalog_and_keeps_what_was_watched() {
    let mut gm = GrandMother::new_online(
        config(vec!["http://h/2"]),
        playlist(&text(&[("One", "http://h/1"), ("Two", "http://h/2")])),
    )
    .unwrap();
    assert!(gm.mark_watched("http://h/1"));
    assert_eq!(gm.refresh(), Next::Fetch);
    assert_eq!(gm.refreshed(Err(CatalogError::Network)), Next::Fetch);
    let new_text = text(&[("Three", "http://h/3"), ("One again", "http://h/1"), ("Two", "http://h/2")]);
    assert_eq!(gm.refreshed(Ok(new_text.clone().into_bytes())), Next::Fetched);
    assert_eq!(state(&gm), vec![pair("Three", false), pair("One again", true), pair("Two", true)]);
    assert_eq!(gm.playlist.as_ref().unwrap().content, new_text);
}

#[test]
fn exhausted_refresh_keeps_the_catalog() {
    let mut gm = GrandMother::new_online(
        config(vec!["http://h/2"]),
        playlist(&text(&[("One", "http://h/1"), ("Two", "http://h/2")])),
    )
    .unwrap();
    let mut next = gm.refresh();
    let mut made = 0;
    while next == Next::Fetch {
        made += 1;
        next = gm.refreshed(Err(CatalogError::Network));
    }
    assert_eq!(made, 4);
    assert_eq!(next, Next::Failed(CatalogError::Exhausted));
    assert_eq!(state(&gm), vec![pair("One", false), pair("Two", true)]);
}

#[test]
fn malformed_refresh_keeps_the_catalog_in_use() {
    let mut gm = GrandMother::new_online(
        config(vec!["http://h/2"]),
        playlist(&text(&[("One", "http://h/1"), ("Two", "http://h/2")])),
    )
    .unwrap();
    assert_eq!(gm.refresh(), Next::Fetch);
    assert_eq!(gm.refreshed(Ok(b"#EXTM3U\nhalf a pair\n".to_vec())), Next::Failed(CatalogError::Parse));
    assert_eq!(state(&gm), vec![pair("One", false), pair("Two", true)]);
}

#[test]
fn switching_modes_swaps_the_catalog() {
    let mut gm = GrandMother::new_offline(config(vec!["http://h/1"]));
    assert_eq!(gm.promote_to_online(playlist("broken")), Err(CatalogError::Parse));
    assert!(matches!(gm.parser, Catalog::Archived(_)));
    assert_eq!(gm.promote_to_online(playlist(&text(&[("One", "http://h/1")]))), Ok(()));
    assert!(matches!(gm.parser, Catalog::Live(_)));
    assert_eq!(state(&gm), vec![pair("One", true)]);
    assert_eq!(gm.refresh(), Next::Fetch);
    gm.demote_to_offline();
    assert!(matches!(gm.parser, Catalog::Archived(_)));
    assert!(gm.playlist.is_none());
    assert_eq!(state(&gm), vec![pair("Saved", false)]);
    assert_eq!(gm.refresh(), Next::Failed(CatalogError::UnsupportedInOfflineMode));
}

#[test]
fn watched_links_are_saved_as_a_json_array_of_strings() {
    let mut gm = GrandMother::new_online(
        config(vec!["http://h/2"]),
        playlist(&text(&[("One", "http://h/1"), ("Two", "http://h/2"), ("Q", "http://h/\"q\"")])),
    )
    .unwrap();
    assert_eq!(gm.save_watched(), Ok("[\"http://h/2\"]".to_string()));
    assert!(gm.mark_watched("http://h/\"q\""));
    assert_eq!(gm.save_watched(), Ok("[\"http://h/2\",\"http://h/\\\"q\\\"\"]".to_string()));
    let saved = gm.save_watched().unwrap();
    assert_eq!(
        Configuration::get_watched(&saved),
        Some(vec!["http://h/2".to_string(), "http://h/\"q\"".to_string()])
    );
}

#[test]
fn nothing_watched_is_saved_as_an_empty_array() {
    let gm = GrandMother::new_online(config(vec![]), playlist(&text(&[("One", "http://h/1")]))).unwrap();
    assert_eq!(gm.save_watched(), Ok("[]".to_string()));
    assert_eq!(gm.parser.get_watched_links().len(), 0);
}

#[test]
fn there_is_always_a_text_to_save() {
    let offline = GrandMother::new_offline(config(vec![]));
    assert_eq!(offline.save_watched(), Ok("[]".to_string()));
    let mut gm = GrandMother::new_online(
        config(vec![]),
        playlist(&text(&[("Odd", "http://h/\u{1}\\\u{e9}\u{1F600}\t")])),
    )
    .unwrap();
    assert!(gm.mark_watched("http://h/\u{1}\\\u{e9}\u{1F600}"));
    let saved = gm.save_watched().unwrap();
    assert_eq!(
        Configuration::get_watched(&saved),
        Some(vec!["http://h/\u{1}\\\u{e9}\u{1F600}".to_string()])
    );
}

use ilovetv::{
    CatalogError, Conf, Configuration, GetM3u8, GetPlayPath, M3u8, OfflineEntry, OfflineParser,
    OnlineParser, WatchedFind,
};
use std::path::PathBuf;
use std::rc::Rc;

fn line(id: &str, title: &str, link: &str) -> String {
    format!(
        "#EXTINF:-1 tvg-id=\"{}\" tvg-name=\"n\" tvg-logo=\"l\" group-title=\"g\",{}\n{}\n",
        id, title, link
    )
}

fn sample() -> String {
    let mut text = String::from("#EXTM3U\n");
    text.push_str(&line("bbc1", "BBC One", "http://h/1"));
    text.push_str(&line("svt", "SVT Nyheter", "http://h/2"));
    text.push_str(&line("BBC2", "bbc two", "http://h/3"));
    text.push_str(&line("ard", "Das Erste", "http://h/4"));
    text
}

fn names(items: &Vec<&M3u8>) -> Vec<String> {
    items.iter().map(|e| e.name.clone()).collect()
}

fn entry(name: &str, link: &str, watched: bool) -> M3u8 {
    M3u8 {
        tvg_id: format!("id-{}", name),
        tvg_name: name.to_string(),
        tvg_logo: String::new(),
        group_title: String::new(),
        name: name.to_string(),
        link: Rc::new(link.to_string()),
        watched,
    }
}

fn config_with(ledger: Vec<OfflineEntry>) -> Configuration {
    Configuration::new(
        Conf::new(Rc::new("http://host/list".to_string())),
        Rc::new(PathBuf::from("/cache/playlist.m3u8")),
        PathBuf::from("/cache/watched_links.json"),
        None,
        PathBuf::from("/config/config.json"),
        PathBuf::from("/data"),
        Some(ledger),
    )
}

fn archive() -> OfflineParser {
    OfflineParser::new(&config_with(vec![
        OfflineEntry::new(entry("Zulu", "http://h/z", false), Rc::new("/data/zulu.mkv".to_string())),
        OfflineEntry::new(entry("Alpha", "http://h/a", true), Rc::new("/data/alpha.mp4".to_string())),
        OfflineEntry::new(entry("Mike", "http://h/m", false), Rc::new("/data/mike.mkv".to_string())),
        OfflineEntry::new(entry("Alpha again", "http://h/a", false), Rc::new("/data/alpha2.mp4".to_string())),
    ]))
}

#[test]
fn find_matches_title_whatever_the_case() {
    let parser = OnlineParser::new(&sample(), &vec![]).unwrap();
    assert_eq!(names(&parser.find("bbc")), vec!["BBC One", "bbc two"]);
    assert_eq!(names(&parser.find("BBC")), vec!["BBC One", "bbc two"]);
    assert_eq!(names(&parser.find("nyh")), vec!["SVT Nyheter"]);
}

#[test]
fn find_matches_identifier_as_written() {
    let parser = OnlineParser::new(&sample(), &vec![]).unwrap();
    // the identifier `ard` is found in lower case
    assert_eq!(names(&parser.find("\"ard\"")), vec!["Das Erste"]);
    // `BBC2` is written in upper case: the lowered query does not stand in it
    assert_eq!(names(&parser.find("\"BBC2\"")), Vec::<String>::new());
    assert_eq!(names(&parser.find("\"bbc1\"")), vec!["BBC One"]);
}

#[test]
fn find_through_the_trait_agrees() {
    let parser = OnlineParser::new(&sample(), &vec![]).unwrap();
    assert_eq!(names(&WatchedFind::find(&parser, "ERSTE")), vec!["Das Erste"]);
    assert_eq!(names(&WatchedFind::find(&parser, "nothing like it")), Vec::<String>::new());
}

#[test]
fn empty_query_finds_everything_in_order() {
    let parser = OnlineParser::new(&sample(), &vec![]).unwrap();
    assert_eq!(names(&parser.find("")), vec!["BBC One", "SVT Nyheter", "bbc two", "Das Erste"]);
}

#[test]
fn find_lowers_the_title_by_unicode() {
    let mut text = String::from("#EXTM3U\n");
    text.push_str(&line("x", "ÅNGSTRÖM TV", "http://h/1"));
    let parser = OnlineParser::new(&text, &vec![]).unwrap();
    assert_eq!(names(&parser.find("ångström")), vec!["ÅNGSTRÖM TV"]);
    assert_eq!(names(&parser.find("Ström")), vec!["ÅNGSTRÖM TV"]);
}

#[test]
fn get_m3u8_hands_out_all_entries_in_order() {
    let parser = OnlineParser::new(&sample(), &vec![]).unwrap();
    assert_eq!(names(&parser.get_m3u8()), vec!["BBC One", "SVT Nyheter", "bbc two", "Das Erste"]);
}

#[test]
fn listing_watched_gives_back_the_links_that_are_present() {
    let watched = vec!["http://h/3", "http://gone", "http://h/1"];
    let parser = OnlineParser::new(&sample(), &watched).unwrap();
    assert_eq!(names(&parser.get_watched()), vec!["BBC One", "bbc two"]);
    let links: Vec<String> = parser.get_watched_links().iter().map(|l| (**l).clone()).collect();
    assert_eq!(links, vec!["http://h/1", "http://h/3"]);
}

#[test]
fn refresh_carries_the_watched_state_forward() {
    let mut parser = OnlineParser::new(&sample(), &vec!["http://h/2", "http://h/4"]).unwrap();
    let mut text = String::from("#EXTM3U\n");
    text.push_str(&line("new", "Brand New", "http://h/9"));
    text.push_str(&line("svt", "SVT Nyheter HD", "http://h/2"));
    text.push_str(&line("bbc1", "BBC One", "http://h/1"));
    assert_eq!(parser.forcefully_update(&text), Ok(()));
    let state: Vec<(String, bool)> = parser.iter().map(|e| ((*e.link).clone(), e.watched)).collect();
    assert_eq!(
        state,
        vec![
            ("http://h/9".to_string(), false),
            ("http://h/2".to_string(), true),
            ("http://h/1".to_string(), false),
        ]
    );
}

#[test]
fn malformed_refresh_keeps_the_catalog() {
    let mut parser = OnlineParser::new(&sample(), &vec!["http://h/2"]).unwrap();
    assert_eq!(parser.forcefully_update("#EXTM3U\nnot a playlist\n"), Err(CatalogError::Parse));
    assert_eq!(names(&parser.get_m3u8()), vec!["BBC One", "SVT Nyheter", "bbc two", "Das Erste"]);
    assert_eq!(names(&parser.get_watched()), vec!["SVT Nyheter"]);
}

#[test]
fn marking_sets_the_flag_of_the_entries_with_the_link() {
    let mut parser = OnlineParser::new(&sample(), &vec![]).unwrap();
    assert!(parser.mark_watched("http://h/3"));
    assert!(!parser.mark_watched("http://h/none"));
    assert_eq!(names(&parser.get_watched()), vec!["bbc two"]);
    assert!(parser.mark_watched("http://h/3"));
    assert_eq!(names(&parser.get_watched()), vec!["bbc two"]);
}

#[test]
fn live_entries_play_from_their_link() {
    let parser = OnlineParser::new(&sample(), &vec![]).unwrap();
    let link = Rc::new("http://anything".to_string());
    assert_eq!(parser.get_path_to_play(link.clone()), Ok(link));
}

#[test]
fn archived_entries_play_from_their_file() {
    let parser = archive();
    assert_eq!(
        parser.get_path_to_play(Rc::new("http://h/m".to_string())),
        Ok(Rc::new("/data/mike.mkv".to_string()))
    );
    assert_eq!(
        parser.get_path_to_play(Rc::new("http://h/z".to_string())),
        Ok(Rc::new("/data/zulu.mkv".to_string()))
    );
}

#[test]
fn first_ledger_entry_with_the_link_decides_the_path() {
    let parser = archive();
    assert_eq!(
        parser.get_path_to_play(Rc::new("http://h/a".to_string())),
        Ok(Rc::new("/data/alpha.mp4".to_string()))
    );
}

#[test]
fn unknown_link_is_not_archived() {
    let parser = archive();
    assert_eq!(
        parser.get_path_to_play(Rc::new("http://h/unknown".to_string())),
        Err(CatalogError::NotArchived)
    );
    assert_eq!(
        parser.get_path_to_play(Rc::new("HTTP://H/M".to_string())),
        Err(CatalogError::NotArchived)
    );
    let empty = OfflineParser::new(&config_with(vec![]));
    assert_eq!(
        empty.get_path_to_play(Rc::new("http://h/m".to_string())),
        Err(CatalogError::NotArchived)
    );
}

#[test]
fn archived_entries_come_sorted_by_link() {
    let parser = archive();
    assert_eq!(names(&parser.get_m3u8()), vec!["Alpha", "Alpha again", "Mike", "Zulu"]);
    // the ledger itself keeps its order
    let ledger: Vec<String> = parser.iter().map(|e| e.name.clone()).collect();
    assert_eq!(ledger, vec!["Zulu", "Alpha", "Mike", "Alpha again"]);
}

#[test]
fn archived_order_is_the_order_of_strings() {
    let links = ["b", "a", "ab", "", "B", "é", "z", "a\u{10000}", "a\u{ffff}", "aa"];
    let ledger: Vec<OfflineEntry> = links
        .iter()
        .map(|l| OfflineEntry::new(entry(l, l, false), Rc::new(format!("/data/{}", l))))
        .collect();
    let parser = OfflineParser::new(&config_with(ledger));
    let got: Vec<String> = parser.get_m3u8().iter().map(|e| (*e.link).clone()).collect();
    let mut expected: Vec<String> = links.iter().map(|l| l.to_string()).collect();
    expected.sort();
    assert_eq!(got, expected);
}

#[test]
fn archived_catalog_is_searched_and_listed_like_a_live_one() {
    let mut parser = archive();
    assert_eq!(names(&parser.find("ALPHA")), vec!["Alpha", "Alpha again"]);
    assert_eq!(names(&parser.get_watched()), vec!["Alpha"]);
    assert!(parser.mark_watched("http://h/a"));
    assert!(!parser.mark_watched("http://h/q"));
    assert_eq!(names(&parser.get_watched()), vec!["Alpha", "Alpha again"]);
    assert_eq!(*parser[3].path, "/data/alpha2.mp4");
}

#[test]
fn offline_entry_derefs_to_its_entry() {
    let e = OfflineEntry::new(entry("Mike", "http://h/m", true), Rc::new("/data/m.mkv".to_string()));
    assert_eq!(e.name, "Mike");
    assert_eq!(*e.link, "http://h/m");
    assert!(e.watched);
    assert_eq!(*e.path, "/data/m.mkv");
    let copy = e.clone();
    assert_eq!(copy.name, "Mike");
    assert_eq!(*copy.path, "/data/m.mkv");
}

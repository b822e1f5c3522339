use ilovetv::{CatalogError, OnlineParser};

const ONE: &str = "#EXTM3U\n#EXTINF:-1 tvg-id=\"1\" tvg-name=\"A\" tvg-logo=\"l\" group-title=\"G\",Channel One\nhttp://x/1\n";

fn meta(id: &str, title: &str) -> String {
    format!(
        "#EXTINF:-1 tvg-id=\"{}\" tvg-name=\"n{}\" tvg-logo=\"logo{}\" group-title=\"News\",{}",
        id, id, id, title
    )
}

fn playlist(n: usize) -> String {
    let mut text = String::from("#EXTM3U\n");
    for i in 0..n {
        text.push_str(&meta(&i.to_string(), &format!("Channel {}", i)));
        text.push('\n');
        text.push_str(&format!("http://host/stream/{}", i));
        text.push('\n');
    }
    text
}

#[test]
fn decodes_one_pair_into_one_entry() {
    let items = OnlineParser::parse_m3u8(ONE, &vec![]).unwrap();
    assert_eq!(items.len(), 1);
    let entry = &items[0];
    assert_eq!(entry.name, "Channel One");
    assert_eq!(*entry.link, "http://x/1");
    assert!(!entry.watched);
}

#[test]
fn attribute_runs_through_the_last_equals_sign() {
    let items = OnlineParser::parse_m3u8(ONE, &vec![]).unwrap();
    let entry = &items[0];
    assert_eq!(entry.tvg_id, "\"1\" tvg-name=\"A\" tvg-logo=\"l\" group-title=");
    assert_eq!(entry.tvg_name, "\"A\" tvg-logo=\"l\" group-title=");
    assert_eq!(entry.tvg_logo, "\"l\" group-title=");
    assert_eq!(entry.group_title, "");
}

#[test]
fn attribute_value_ends_at_last_equals_sign_of_the_line() {
    let text = "#EXTINF:-1 tvg-id=a tvg-name=b tvg-logo=c group-title=d=, x=y,Title\nlink\n";
    let items = OnlineParser::parse_m3u8(text, &vec![]).unwrap();
    assert_eq!(items[0].group_title, "d=, x=");
    assert_eq!(items[0].tvg_logo, "c group-title=d=, x=");
    assert_eq!(items[0].name, "Title");
}

#[test]
fn n_pairs_give_n_entries_in_file_order() {
    for n in [0usize, 1, 2, 7, 40] {
        let items = OnlineParser::parse_m3u8(&playlist(n), &vec![]).unwrap();
        assert_eq!(items.len(), n);
        for (i, entry) in items.iter().enumerate() {
            assert_eq!(*entry.link, format!("http://host/stream/{}", i));
            assert_eq!(entry.name, format!("Channel {}", i));
        }
    }
}

#[test]
fn watched_is_set_exactly_for_links_in_the_set() {
    let text = playlist(5);
    let watched = vec!["http://host/stream/1", "http://host/stream/3", "http://elsewhere"];
    let items = OnlineParser::parse_m3u8(&text, &watched).unwrap();
    let flags: Vec<bool> = items.iter().map(|e| e.watched).collect();
    assert_eq!(flags, vec![false, true, false, true, false]);
}

#[test]
fn nothing_is_watched_without_watched_links() {
    let items = OnlineParser::parse_m3u8(&playlist(6), &vec![]).unwrap();
    assert!(items.iter().all(|e| !e.watched));
}

#[test]
fn watched_links_match_case_sensitively() {
    let watched = vec!["HTTP://X/1"];
    let items = OnlineParser::parse_m3u8(ONE, &watched).unwrap();
    assert!(!items[0].watched);
}

#[test]
fn header_is_optional() {
    let text = "#EXTINF:-1 tvg-id=\"1\" tvg-name=\"A\" tvg-logo=\"l\" group-title=\"G\",One\nhttp://x/1";
    let items = OnlineParser::parse_m3u8(text, &vec![]).unwrap();
    assert_eq!(items.len(), 1);
    assert_eq!(*items[0].link, "http://x/1");
}

#[test]
fn only_a_leading_header_is_stripped() {
    let text = format!("{}#EXTM3U\n", playlist(1));
    assert!(matches!(OnlineParser::parse_m3u8(&text, &vec![]), Err(CatalogError::Parse)));
}

#[test]
fn lines_are_trimmed() {
    let text = "#EXTM3U\n  \t#EXTINF:-1 tvg-id=\"1\" tvg-name=\"A\" tvg-logo=\"l\" group-title=\"G\",One \u{a0}\r\n   http://x/1\u{3000}\r\n";
    let items = OnlineParser::parse_m3u8(text, &vec!["http://x/1"]).unwrap();
    assert_eq!(items.len(), 1);
    assert_eq!(items[0].name, "One");
    assert_eq!(*items[0].link, "http://x/1");
    assert!(items[0].watched);
}

#[test]
fn non_ascii_titles_are_kept() {
    let text = "#EXTM3U\n#EXTINF:-1 tvg-id=\"é\" tvg-name=\"A\" tvg-logo=\"l\" group-title=\"G\",Kanal Ünø 日本\nhttp://x/ü\n";
    let items = OnlineParser::parse_m3u8(text, &vec!["http://x/ü"]).unwrap();
    assert_eq!(items[0].name, "Kanal Ünø 日本");
    assert_eq!(*items[0].link, "http://x/ü");
    assert!(items[0].watched);
    assert!(items[0].tvg_id.starts_with("\"é\" tvg-name="));
}

#[test]
fn empty_text_has_no_entries() {
    assert_eq!(OnlineParser::parse_m3u8("", &vec![]).unwrap().len(), 0);
    assert_eq!(OnlineParser::parse_m3u8("#EXTM3U\n", &vec![]).unwrap().len(), 0);
}

#[test]
fn odd_number_of_lines_is_malformed() {
    let text = "#EXTM3U\n#EXTINF:-1 tvg-id=\"1\" tvg-name=\"A\" tvg-logo=\"l\" group-title=\"G\",One\n";
    assert!(matches!(OnlineParser::parse_m3u8(text, &vec![]), Err(CatalogError::Parse)));
}

#[test]
fn blank_line_between_pairs_is_malformed() {
    let text = format!("{}\n{}", playlist(1), &playlist(1)["#EXTM3U\n".len()..]);
    assert!(matches!(OnlineParser::parse_m3u8(&text, &vec![]), Err(CatalogError::Parse)));
}

#[test]
fn missing_attribute_is_malformed() {
    for key in ["tvg-id", "tvg-name", "tvg-logo", "group-title"] {
        let line = meta("1", "One").replace(&format!("{}=", key), "other=");
        let text = format!("#EXTM3U\n{}\nhttp://x/1\n", line);
        assert!(matches!(OnlineParser::parse_m3u8(&text, &vec![]), Err(CatalogError::Parse)));
    }
}

#[test]
fn missing_comma_is_malformed() {
    let text = "#EXTM3U\n#EXTINF:-1 tvg-id=\"1\" tvg-name=\"A\" tvg-logo=\"l\" group-title=\"G\" One\nhttp://x/1\n";
    assert!(matches!(OnlineParser::parse_m3u8(text, &vec![]), Err(CatalogError::Parse)));
}

#[test]
fn one_malformed_pair_rejects_the_whole_playlist() {
    let text = format!("{}#EXTINF:-1 nothing here\nhttp://x/9\n", playlist(3));
    assert!(matches!(OnlineParser::parse_m3u8(&text, &vec![]), Err(CatalogError::Parse)));
}

#[test]
fn new_holds_the_decoded_entries() {
    let parser = OnlineParser::new(&playlist(3), &vec!["http://host/stream/2"]).unwrap();
    assert_eq!(parser.len(), 3);
    assert!(parser[2].watched);
    assert!(matches!(OnlineParser::new("junk", &vec![]), Err(CatalogError::Parse)));
}

#[test]
fn usual_order_of_attributes_raises_no_doubt() {
    assert_eq!(OnlineParser::doubtful(ONE), Vec::<usize>::new());
    assert_eq!(OnlineParser::doubtful(&playlist(5)), Vec::<usize>::new());
    assert_eq!(OnlineParser::doubtful(""), Vec::<usize>::new());
}

#[test]
fn unusual_order_of_attributes_is_pointed_out() {
    let swapped = "#EXTINF:-1 tvg-name=\"A\" tvg-id=\"1\" tvg-logo=\"l\" group-title=\"G\",Swapped\nhttp://x/s\n";
    let lacking = "#EXTINF:-1 tvg-id=\"1\" tvg-logo=\"l\" group-title=\"G\",Lacking\nhttp://x/l\n";
    let text = format!("{}{}{}{}", playlist(2), swapped, &playlist(1)["#EXTM3U\n".len()..], lacking);
    assert_eq!(OnlineParser::doubtful(&text), vec![2, 4]);
    // the swapped line decodes all the same, with values that run on
    let items = OnlineParser::parse_m3u8(&format!("#EXTM3U\n{}", swapped), &vec![]).unwrap();
    assert_eq!(items[0].tvg_name, "\"A\" tvg-id=\"1\" tvg-logo=\"l\" group-title=");
    assert_eq!(items[0].tvg_id, "\"1\" tvg-logo=\"l\" group-title=");
}

#[test]
fn a_last_line_without_its_pair_is_looked_at_too() {
    let text = format!("{}not a metadata line\n", playlist(1));
    assert_eq!(OnlineParser::doubtful(&text), vec![1]);
}

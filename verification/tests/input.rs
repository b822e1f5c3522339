use ilovetv::downloader::range_header;
use ilovetv::input::{
    confirms, confirms_lowered, mode_answer, parse_number, parse_place, parse_selection,
    which_to_download, which_to_stream, ModeAnswer, Selection,
};
use ilovetv::names::{archive_file_name, download_file_name, file_ending, player_args};
use ilovetv::text::{pieces_of, trim};
use ilovetv::Mode;

fn cs(s: &str) -> Vec<char> {
    s.chars().collect()
}

#[test]
fn parse_number_agrees_with_parse() {
    let max = usize::MAX.to_string();
    let over = format!("{}0", usize::MAX);
    let just_over = "18446744073709551616";
    for s in [
        "", "+", "0", "7", "+7", "007", "42", "-1", "1 ", " 1", "1a", "a1", "++1", "+-1", "1+", "٣", "1.5",
        "18446744073709551615", just_over, &max, &over, "99999999999999999999999999",
    ] {
        assert_eq!(parse_number(&cs(s)), s.parse::<usize>().ok(), "{:?}", s);
    }
}

#[test]
fn place_is_one_less_than_the_number() {
    assert_eq!(parse_place(&cs(" 3 "), 5), Some(2));
    assert_eq!(parse_place(&cs("1"), 5), Some(0));
    assert_eq!(parse_place(&cs("5"), 5), Some(4));
    assert_eq!(which_to_stream("2\n", 2), Some(1));
}

#[test]
fn place_outside_the_list_is_none() {
    assert_eq!(parse_place(&cs("0"), 5), None);
    assert_eq!(parse_place(&cs("6"), 5), None);
    assert_eq!(parse_place(&cs("1"), 0), None);
    assert_eq!(parse_place(&cs("x"), 5), None);
    assert_eq!(parse_place(&cs(""), 5), None);
    assert_eq!(which_to_stream("q", 5), None);
}

#[test]
fn a_selects_all() {
    assert_eq!(which_to_download("a", 3), Selection::All);
    assert_eq!(which_to_download("  A \n", 3), Selection::All);
    assert_eq!(parse_selection("a", 0), Selection::All);
}

#[test]
fn numbers_select_places_in_the_order_given() {
    assert_eq!(which_to_download("1,2,3", 3), Selection::Picked(vec![0, 1, 2]));
    assert_eq!(which_to_download(" 3 , 1,1 \n", 3), Selection::Picked(vec![2, 0, 0]));
    assert_eq!(which_to_download("2", 2), Selection::Picked(vec![1]));
    assert_eq!(which_to_download("+2", 2), Selection::Picked(vec![1]));
}

#[test]
fn anything_else_is_no_selection() {
    for answer in ["", " ", "1,", ",1", "1,,2", "1;2", "b", "aa", "a,1", "0", "4", "1,4", "-1", "1 2"] {
        assert_eq!(which_to_download(answer, 3), Selection::Invalid, "{:?}", answer);
    }
    // `A` selects all only once it is lowered
    assert_eq!(parse_selection("A", 3), Selection::Invalid);
}

#[test]
fn pieces_agree_with_split() {
    for s in ["", ",", "a", "a,b", "a,,b", ",a,", "1, 2 ,3"] {
        let got: Vec<String> = pieces_of(&cs(s), ',').iter().map(|p| p.iter().collect()).collect();
        let expected: Vec<String> = s.split(',').map(String::from).collect();
        assert_eq!(got, expected, "{:?}", s);
    }
}

#[test]
fn mode_is_answered_by_number() {
    assert_eq!(mode_answer("1"), ModeAnswer::Chosen(Mode::Online));
    assert_eq!(mode_answer(" 2\n"), ModeAnswer::Chosen(Mode::Offline));
    assert_eq!(mode_answer("+1"), ModeAnswer::Chosen(Mode::Online));
    assert_eq!(mode_answer("0"), ModeAnswer::Neither);
    assert_eq!(mode_answer("3"), ModeAnswer::Neither);
    assert_eq!(mode_answer("255"), ModeAnswer::Neither);
}

#[test]
fn what_is_no_byte_is_no_number() {
    assert_eq!(mode_answer("256"), ModeAnswer::NotANumber);
    assert_eq!(mode_answer("99999999999999999999999999"), ModeAnswer::NotANumber);
    assert_eq!(mode_answer("online"), ModeAnswer::NotANumber);
    assert_eq!(mode_answer(""), ModeAnswer::NotANumber);
    assert_eq!(mode_answer("-1"), ModeAnswer::NotANumber);
}

#[test]
fn everything_confirms_but_n() {
    assert!(confirms("y"));
    assert!(confirms(""));
    assert!(confirms("\n"));
    assert!(confirms("no"));
    assert!(!confirms("n"));
    assert!(!confirms(" N \n"));
    assert!(confirms_lowered("N"));
    assert!(!confirms_lowered("n"));
}

#[test]
fn trim_agrees_with_std() {
    for s in ["", "  http://host/list \n", "x", "\u{a0}a b\t"] {
        assert_eq!(trim(s), s.trim());
    }
}

#[test]
fn ending_comes_from_the_last_dot_of_the_link() {
    assert_eq!(file_ending("http://h/a/film.mp4"), Some(".mp4".to_string()));
    assert_eq!(file_ending("http://h/a.b/film.m3u8"), Some(".m3u8".to_string()));
    assert_eq!(file_ending("http://h/film."), Some(".".to_string()));
    assert_eq!(file_ending("x.abcde"), Some(".abcde".to_string()));
}

#[test]
fn long_ending_gives_way_to_the_standard_one() {
    assert_eq!(file_ending("x.abcdef"), Some(".mkv".to_string()));
    assert_eq!(file_ending("http://h.example/stream/123"), Some(".mkv".to_string()));
    // six bytes, though four characters
    assert_eq!(file_ending("x.éé"), Some(".éé".to_string()));
    assert_eq!(file_ending("x.ééé"), Some(".mkv".to_string()));
}

#[test]
fn link_without_a_dot_has_no_ending() {
    assert_eq!(file_ending("localhost/stream"), None);
    assert_eq!(file_ending(""), None);
    assert_eq!(download_file_name("Film", "localhost/stream"), None);
}

#[test]
fn download_is_named_by_title_and_ending() {
    assert_eq!(download_file_name("Film", "http://h/a/film.mp4"), Some("Film.mp4".to_string()));
    assert_eq!(download_file_name("Film", "http://h.example/stream/123"), Some("Film.mkv".to_string()));
}

#[test]
fn archive_is_named_by_title() {
    assert_eq!(archive_file_name("Film"), "Film.mkv");
    assert_eq!(archive_file_name("a.mp4"), "a.mp4.mp4");
    assert_eq!(archive_file_name("abcde.mp4"), "abcde.mp4.mp4");
    assert_eq!(archive_file_name("abcdef.mp4"), "abcdef.mp4.mkv");
    assert_eq!(archive_file_name("Long title.avi"), "Long title.avi.mkv");
    assert_eq!(archive_file_name("ééé.ts"), "ééé.ts.mkv");
    assert_eq!(archive_file_name("éé.ts"), "éé.ts.ts");
}

#[test]
fn player_gets_the_link_and_the_switch() {
    assert_eq!(player_args("/data/a.mkv", false), vec!["/data/a.mkv"]);
    assert_eq!(player_args("http://h/1", true), vec!["http://h/1", "--fs"]);
}

#[test]
fn range_header_names_the_first_missing_byte() {
    assert_eq!(range_header(0), "bytes=0-");
    assert_eq!(range_header(9), "bytes=9-");
    assert_eq!(range_header(10), "bytes=10-");
    assert_eq!(range_header(1234567890), "bytes=1234567890-");
    assert_eq!(range_header(u64::MAX), format!("bytes={}-", u64::MAX));
}

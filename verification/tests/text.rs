use recsys_prep::text::{join, parse_int_text, debug_quote, string_from_chars, to_chars};
use recsys_prep::files::{get_filepath, size_text, record_field_name};

#[test]
fn join_uses_separator_between_items() {
    let list = vec!["a".to_string(), "b".to_string(), "c".to_string()];
    assert_eq!(join(&list, "|"), "a|b|c");
    assert_eq!(join(&vec!["one".to_string()], "\n\n"), "one");
    assert_eq!(join(&Vec::new(), "|"), "");
}

#[test]
fn parse_int_text_follows_str_parse() {
    assert_eq!(parse_int_text("150", false), Some(150));
    assert_eq!(parse_int_text("+7", false), Some(7));
    assert_eq!(parse_int_text("-7", false), None);
    assert_eq!(parse_int_text("-7", true), Some(-7));
    assert_eq!(parse_int_text("", true), None);
    assert_eq!(parse_int_text("+", true), None);
    assert_eq!(parse_int_text("-", true), None);
    assert_eq!(parse_int_text("2.0", false), None);
    assert_eq!(parse_int_text("18446744073709551615", false), Some(18446744073709551615));
    assert_eq!(parse_int_text("18446744073709551616", false), None);
    assert_eq!(parse_int_text("99999999999999999999999999", false), None);
}

#[test]
fn debug_quote_quotes_and_escapes() {
    assert_eq!(debug_quote("key"), "\"key\"");
    assert_eq!(debug_quote("a\"b"), "\"a\\\"b\"");
    assert_eq!(debug_quote("Транспорт"), "\"Транспорт\"");
}

#[test]
fn chars_round_trip() {
    let chars = to_chars("héllo");
    assert_eq!(chars, vec!['h', 'é', 'l', 'l', 'o']);
    assert_eq!(string_from_chars(&chars), "héllo");
}

#[test]
fn filepath_joins_like_pathbuf_push() {
    assert_eq!(get_filepath("../../data", "train.csv.zip"), "../../data/train.csv.zip");
    assert_eq!(get_filepath("../../data/", "train.csv.zip"), "../../data/train.csv.zip");
    assert_eq!(get_filepath("", "train.csv.zip"), "train.csv.zip");
    assert_eq!(get_filepath("../data", "/abs/file"), "/abs/file");
    let mut p = std::path::PathBuf::from("../data");
    p.push("itemid_asin.csv");
    assert_eq!(get_filepath("../data", "itemid_asin.csv"), p.to_str().unwrap());
}

#[test]
fn size_text_picks_unit() {
    assert_eq!(size_text(0), "0b");
    assert_eq!(size_text(1023), "1023b");
    assert_eq!(size_text(1024), "1Kb");
    assert_eq!(size_text(5 * 1024 * 1024 + 7), "5Mb");
    assert_eq!(size_text(3 * 1024 * 1024 * 1024), "3Gb");
}

#[test]
fn record_field_names() {
    assert_eq!(record_field_name(3, "style"), "[3].style");
    assert_eq!(record_field_name(0, "image"), "[0].image");
}

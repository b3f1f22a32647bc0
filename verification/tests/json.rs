use recsys_prep::json;
use recsys_prep::json::{key_less, By, Json, JsonError, JsonNumber, JsonSource, JsonValue};

fn pretty(v: &JsonValue) -> String {
    json::pretty(v).unwrap()
}

fn message(err: &JsonError) -> String {
    err.shown_message().unwrap()
}

fn from_str(text: &str, name: &str) -> Json {
    Json::from_str(text, name).unwrap()
}

const SAMPLE_PATH: &str = "test_data/sample.json";

/// The parts of the sample document that the tests below read.
fn sample() -> Json {
    let text = r#"{
        "defaultModificationId": 363896,
        "breadcrumbs": [
            {"title": "Все объявления в России", "url": "/rossiya"},
            {"title": "Транспорт", "url": "/rossiya/transport"},
            {"title": "Автомобили", "url": "/rossiya/avtomobili"}
        ],
        "modifications": {"items": [{"specification": {"blocks": [
            {"params": [
                {"name": "Мощность", "value": "249"},
                {"name": "Объём двигателя", "value": "150"},
                {"name": "Объём", "value": "2.0"},
                {"name": "x", "value": "1"},
                {"name": "Разгон 100 км/ч", "value": "6.2"}
            ]},
            {"params": []},
            {"params": [
                {"name": "a", "value": "1"},
                {"name": "b", "value": "2"},
                {"name": "Длина", "value": "330"}
            ]}
        ]}}]},
        "itemsBlockData": {"searchButton": {
            "errorButtonText": "Выбрать другой автомобиль на Авито",
            "errorInfoText": {
                "bold": "На Авито нет BMW 5 серия",
                "normal": ", но есть много других машин"
            },
            "errorSearchLink": "/rossiya/avtomobili",
            "infoText": {
                "bold": {
                    "few": "объявления BMW 5 серия",
                    "many": "объявлений BMW 5 серия",
                    "one": "объявление BMW 5 серия",
                    "other": "объявлений BMW 5 серия"
                },
                "normal": "найдено в России"
            }
        }}
    }"#;
    Json::from_text(text, JsonSource::FilePath(SAMPLE_PATH.to_string())).unwrap()
}

#[test]
fn test_json_0() {
    let json = sample();
    let key = "defaultModificationId";
    let value = json.get(&[By::key(key)]).unwrap();
    assert_eq!(value.as_u64().unwrap(), 363896u64);
    assert_eq!(value.as_usize().unwrap(), 363896usize);
    assert_eq!(value.as_u32().unwrap(), 363896u32);

    let err = value.as_u16().unwrap_err();
    let eta = format!("{:?}.{:?} expected to be a u16, but: {}", SAMPLE_PATH, key, 363896);
    assert_eq!(message(&err), eta);

    let err = value.as_u8().unwrap_err();
    let eta = format!("{:?}.{:?} expected to be a u8, but: {}", SAMPLE_PATH, key, 363896);
    assert_eq!(message(&err), eta);

    let err = value.as_str().unwrap_err();
    let eta = format!("{:?}.{:?} expected to be a String, but: {}", SAMPLE_PATH, key, pretty(&value.value));
    assert_eq!(message(&err), eta);
}

#[test]
fn test_json_1() {
    let json = sample();
    let value = json.get(&[By::key("defaultModificationId")]).unwrap();
    let tst = value.shown_text().unwrap();
    let eta = r#""test_data/sample.json"."defaultModificationId": 363896"#;
    assert_eq!(tst, eta);
}

#[test]
fn test_json_2() {
    let json = sample();
    let key = "defaultModificationId2";
    let err = json.get(&[By::key(key)]).unwrap_err();
    let eta = format!("{:?}: not found .{:?} at {}", SAMPLE_PATH, key, pretty(&json.value));
    assert_eq!(message(&err), eta);
}

#[test]
fn test_json_3() {
    let json = sample();
    let value = json.get(&[By::key("breadcrumbs"), By::index(1), By::key("title")]).unwrap();
    assert_eq!(value.as_str().unwrap(), "Транспорт");
}

#[test]
fn test_json_4() {
    let json = sample();
    let value = json.get(&[By::key("breadcrumbs")]).unwrap();
    let _tst = value.as_vec().unwrap();
}

#[test]
fn test_json_5() {
    let json = sample();
    let value = json.get(&[By::key("breadcrumbs"), By::index(1)]).unwrap();
    let _tst = value.as_map().unwrap();
}

fn param(json: &Json, block: usize, param: usize, field: &str) -> Json {
    json.get(&[
        By::key("modifications"), By::key("items"), By::index(0), By::key("specification"),
        By::key("blocks"), By::index(block), By::key("params"), By::index(param), By::key(field),
    ]).unwrap()
}

#[test]
fn test_json_6() {
    let json = sample();
    let value = param(&json, 0, 1, "value");
    assert_eq!(value.as_str().unwrap(), "150");
    assert_eq!(value.parse_as_u64().unwrap(), 150);
    assert_eq!(value.parse_as_u8().unwrap(), 150);
}

#[test]
fn test_json_7() {
    let json = sample();
    let value = param(&json, 2, 2, "value");
    assert_eq!(value.parse_as_u64().unwrap(), 330);
    let err = value.parse_as_u8().unwrap_err();
    let eta = r#""test_data/sample.json"."modifications"."items"[0]."specification"."blocks"[2]."params"[2]."value" expected to be a u8 or String parseable to u8, but: "330""#;
    assert_eq!(message(&err), eta);
}

#[test]
fn test_json_8() {
    let json = sample();
    let value = param(&json, 0, 2, "value");
    let err = value.parse_as_u8().unwrap_err();
    let eta = r#""test_data/sample.json"."modifications"."items"[0]."specification"."blocks"[0]."params"[2]."value" expected to be a u8 or String parseable to u8, but: "2.0""#;
    assert_eq!(message(&err), eta);
}

#[test]
fn test_json_9() {
    let json = sample();
    let value = json.get(&[By::key("breadcrumbs"), By::index(1), By::key("title")]).unwrap();
    let err = value.parse_as_u64().unwrap_err();
    let eta = r#""test_data/sample.json"."breadcrumbs"[1]."title" expected to be a u64 or String parseable to u64, but: "Транспорт""#;
    assert_eq!(message(&err), eta);
}

#[test]
fn test_json_a() {
    let json = sample();
    let value = json.get(&[By::key("itemsBlockData"), By::key("searchButton")]).unwrap();
    let mut keys: Vec<String> = Vec::new();
    let mut it = value.iter_map().unwrap();
    while let Some((key, val)) = it.next() {
        keys.push(key.to_string());
        if key == "errorInfoText" {
            let bold = val.get(&[By::key("bold")]).unwrap();
            assert_eq!(bold.as_str().unwrap(), "На Авито нет BMW 5 серия");
            let err = bold.parse_as_u8().unwrap_err();
            let eta = r#""test_data/sample.json"."itemsBlockData"."searchButton"."errorInfoText"."bold" expected to be a u8 or String parseable to u8, but: "На Авито нет BMW 5 серия""#;
            assert_eq!(message(&err), eta);
        }
    }
    assert_eq!(keys, ["errorButtonText", "errorInfoText", "errorSearchLink", "infoText"]);

    let err = value.iter_vec().err().unwrap();
    let eta = "\"test_data/sample.json\".\"itemsBlockData\".\"searchButton\" expected to be an Array, but: {\n  \"errorButtonText\": \"Выбрать другой автомобиль на Авито\",\n  \"errorInfoText\": {\n    \"bold\": \"На Авито нет BMW 5 серия\",\n    \"normal\": \", но есть много других машин\"\n  },\n  \"errorSearchLink\": \"/rossiya/avtomobili\",\n  \"infoText\": {\n    \"bold\": {\n      \"few\": \"объявления BMW 5 серия\",\n      \"many\": \"объявлений BMW 5 серия\",\n      \"one\": \"объявление BMW 5 серия\",\n      \"other\": \"объявлений BMW 5 серия\"\n    },\n    \"normal\": \"найдено в России\"\n  }\n}";
    assert_eq!(message(&err), eta);
}

#[test]
fn test_json_b() {
    let json = sample();
    let value = json.get(&[By::key("breadcrumbs")]).unwrap();
    let mut titles: Vec<String> = Vec::new();
    let mut it = value.iter_vec().unwrap();
    while let Some(val) = it.next() {
        let val = val.get(&[By::key("title")]).unwrap();
        titles.push(val.as_str().unwrap().to_owned());
    }
    assert_eq!(titles, ["Все объявления в России", "Транспорт", "Автомобили"]);
}

#[test]
fn test_json_c() {
    let json = from_str(r#"
            { "some": "thing" }
        "#, "json");
    let value = json.get(&[By::key("some")]).unwrap();
    assert_eq!(value.as_str().unwrap(), "thing");
    let err = value.parse_as_u8().unwrap_err();
    let eta = r#""json"."some" expected to be a u8 or String parseable to u8, but: "thing""#;
    assert_eq!(message(&err), eta);
}

#[test]
fn test_json_d() {
    let json = sample();
    let value = param(&json, 0, 4, "name");
    let re = regex::Regex::new(r"[^\d]").unwrap();
    let tst = value.parse_as_u64_after(|s: &str| re.replace_all(s, "").into_owned()).unwrap();
    assert_eq!(tst, 100);
}

#[test]
fn json_empty_path_is_identity() {
    let json = from_str(r#"{"a": [1, 2]}"#, "doc");
    let same = json.get(&[]).unwrap();
    assert_eq!(pretty(&same.value), pretty(&json.value));
    assert_eq!(same.path.to_text(), "\"doc\"");
}

#[test]
fn json_get_in_two_pieces() {
    let json = from_str(r#"{"a": {"b": [10, 20, 30]}}"#, "doc");
    let whole = json.get(&[By::key("a"), By::key("b"), By::index(2)]).unwrap();
    let first = json.get(&[By::key("a")]).unwrap();
    let second = first.get(&[By::key("b"), By::index(2)]).unwrap();
    assert_eq!(whole.as_u64().unwrap(), 30);
    assert_eq!(second.as_u64().unwrap(), 30);
    assert_eq!(whole.path.to_text(), second.path.to_text());
    assert_eq!(whole.path.to_text(), "\"doc\".\"a\".\"b\"[2]");
}

#[test]
fn json_index_out_of_range() {
    let json = from_str(r#"[1, 2]"#, "arr");
    let err = json.get(&[By::index(2)]).unwrap_err();
    assert_eq!(message(&err), "\"arr\": not found [2] at [\n  1,\n  2\n]");
}

#[test]
fn json_signed_accessors() {
    let json = from_str(r#"{"neg": -5, "big": 300, "huge": 18446744073709551615, "f": 1.5, "t": "-12"}"#, "n");
    let neg = json.get(&[By::key("neg")]).unwrap();
    assert_eq!(neg.as_i64().unwrap(), -5);
    assert_eq!(neg.as_i8().unwrap(), -5);
    assert_eq!(message(&neg.as_u64().unwrap_err()), "\"n\".\"neg\" expected to be a u64, but: -5");
    assert_eq!(message(&neg.as_u8().unwrap_err()), "\"n\".\"neg\" expected to be a u64, but: -5");
    let big = json.get(&[By::key("big")]).unwrap();
    assert_eq!(big.as_i16().unwrap(), 300);
    assert_eq!(message(&big.as_i8().unwrap_err()), "\"n\".\"big\" expected to be a i8, but: 300");
    let huge = json.get(&[By::key("huge")]).unwrap();
    assert_eq!(message(&huge.as_i64().unwrap_err()), "\"n\".\"huge\" expected to be a i64, but: 18446744073709551615");
    let f = json.get(&[By::key("f")]).unwrap();
    assert_eq!(message(&f.as_u64().unwrap_err()), "\"n\".\"f\" expected to be a u64, but: 1.5");
    assert_eq!(message(&f.parse_as_i32().unwrap_err()), "\"n\".\"f\" expected to be a i32, but: 1.5");
    let t = json.get(&[By::key("t")]).unwrap();
    assert_eq!(t.parse_as_i32().unwrap(), -12);
    assert_eq!(message(&t.as_i32().unwrap_err()), "\"n\".\"t\" expected to be a i64, but: \"-12\"");
    assert_eq!(message(&t.parse_as_u32().unwrap_err()), "\"n\".\"t\" expected to be a u32 or String parseable to u32, but: \"-12\"");
}

#[test]
fn json_kind_accessors() {
    let json = from_str(r#"{"n": null, "b": true, "s": "x"}"#, "k");
    assert!(json.get(&[By::key("n")]).unwrap().as_null().is_ok());
    assert_eq!(json.get(&[By::key("b")]).unwrap().as_bool().unwrap(), true);
    let s = json.get(&[By::key("s")]).unwrap();
    assert_eq!(s.as_string().unwrap(), "x");
    assert_eq!(message(&s.as_null().unwrap_err()), "\"k\".\"s\" expected to be a Null, but: \"x\"");
    assert_eq!(message(&s.as_bool().unwrap_err()), "\"k\".\"s\" expected to be a Bool, but: \"x\"");
    assert_eq!(message(&s.as_map().unwrap_err()), "\"k\".\"s\" expected to be an Object, but: \"x\"");
    assert_eq!(message(&json.as_vec().unwrap_err()).starts_with("\"k\" expected to be an Array, but: {"), true);
}

#[test]
fn json_vec_iterator_paths() {
    let json = from_str(r#"{"xs": ["a", "b"]}"#, "v");
    let xs = json.get(&[By::key("xs")]).unwrap();
    let mut it = xs.iter_vec().unwrap();
    let first = it.next().unwrap();
    let second = it.next().unwrap();
    assert!(it.next().is_none());
    assert!(it.next().is_none());
    assert_eq!(first.as_str().unwrap(), "a");
    assert_eq!(first.path.to_text(), "\"v\".\"xs\"[0]");
    assert_eq!(second.path.to_text(), "\"v\".\"xs\"[1]");
}

#[test]
fn sources_render_as_paths_or_strings() {
    assert_eq!(JsonSource::FilePath("it's.json".to_string()).to_text(), "\"it's.json\"");
    assert_eq!(JsonSource::FilePath("a\tb".to_string()).to_text(), "\"a\\tb\"");
    assert_eq!(JsonSource::Name("it's".to_string()).to_text(), "\"it's\"");
    assert_eq!(JsonSource::FilePath("a\"b".to_string()).to_text(), "\"a\\\"b\"");
}

fn obj(members: Vec<(&str, JsonValue)>) -> JsonValue {
    JsonValue::Object(members.into_iter().map(|(k, v)| (k.to_string(), v)).collect())
}

#[test]
fn well_formed_objects_have_ascending_keys() {
    assert!(obj(vec![("a", JsonValue::Null), ("b", JsonValue::Null)]).is_wf());
    assert!(!obj(vec![("b", JsonValue::Null), ("a", JsonValue::Null)]).is_wf());
    assert!(!obj(vec![("a", JsonValue::Null), ("a", JsonValue::Null)]).is_wf());
    let nested_bad = JsonValue::Array(vec![obj(vec![("y", JsonValue::Null), ("x", JsonValue::Null)])]);
    assert!(!nested_bad.is_wf());
    let nested_ok = obj(vec![("k", JsonValue::Array(vec![obj(vec![("x", JsonValue::Null)])]))]);
    assert!(nested_ok.is_wf());
    assert!(key_less("Z", "a") && key_less("ab", "abc") && !key_less("b", "ab") && !key_less("a", "a"));
    assert!(key_less("z", "\u{e9}"));
    let parsed = json::parse_value(r#"{"b": 1, "a": {"d": 2, "c": 3}}"#).unwrap();
    assert!(parsed.is_wf());
    assert!(json::parse_value("{\"a\": ").is_err());
}

#[test]
fn one_step_not_found_message() {
    let doc = Json::new(obj(vec![("a", JsonValue::Null)]), JsonSource::Name("doc".to_string()));
    match doc.get(&[By::key("b")]) {
        Err(e) => {
            assert_eq!(e.message("{}"), "\"doc\": not found .\"b\" at {}");
            assert_eq!(e.shown_message().unwrap(), "\"doc\": not found .\"b\" at {\n  \"a\": null\n}");
        }
        Ok(_) => panic!("found"),
    }
}

#[test]
fn documents_parse_through_the_library() {
    let doc = Json::from_str(r#"{"z": [1, -2, 2.5, "s"], "a": true}"#, "d").unwrap();
    assert_eq!(doc.path.to_text(), "\"d\"");
    assert!(doc.value.is_wf());
    assert_eq!(doc.get(&[By::key("z"), By::index(1)]).unwrap().as_i64().unwrap(), -2);
    assert_eq!(doc.shown_text().unwrap(), "\"d\": {\n  \"a\": true,\n  \"z\": [\n    1,\n    -2,\n    2.5,\n    \"s\"\n  ]\n}");
    match Json::from_str("[1,", "d") {
        Err(m) => assert!(m.contains("EOF")),
        Ok(_) => panic!("parsed"),
    }
    assert!(json::pretty(&JsonValue::Number(JsonNumber::Float("x".to_string()))).is_none());
}

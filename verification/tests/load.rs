use recsys_prep::db::{AlsoViewUsed, CategoryUsed, ItemIdAsin, NormalizedUsed, RecordImage};
use recsys_prep::dictionary::Dictionary;
use recsys_prep::json::{Json, JsonNumber, JsonSource, JsonValue};
use recsys_prep::load::{
    parse_price, AlsoViewStage, CategoryStage, ItemStage, PriceError, PricePattern, TrainError, TrainRow, TrainStage,
};
use recsys_prep::style::{collect_style_keys, ReviewPatterns, StyleRewriter};
use recsys_prep::sets::{IdSet, KeySet};

fn s(v: &str) -> String {
    v.to_string()
}

#[test]
fn price_in_cents() {
    let prices = PricePattern::new().unwrap();
    let parse_price = |p: &str| parse_price(&prices, p);
    assert_eq!(parse_price("$12.34").unwrap(), 1234);
    assert_eq!(parse_price("$0.05 each").unwrap(), 5);
    assert_eq!(parse_price("$65535.99").unwrap(), 6553599);
    match parse_price("$65536.00") {
        Err(PriceError::Dollars(d)) => assert_eq!(d, "65536"),
        other => panic!("{:?}", other),
    }
    for bad in ["12.34", "$.34", "$12.3", "$12,34", "", "$", "$12.", " $12.34"] {
        match parse_price(bad) {
            Err(PriceError::Format(p)) => assert_eq!(p, bad),
            other => panic!("{:?} {:?}", bad, other),
        }
    }
}

#[test]
fn price_with_other_decimal_digits() {
    let prices = PricePattern::new().unwrap();
    match parse_price(&prices, "$\u{0661}\u{0662}.34") {
        Err(PriceError::Dollars(d)) => assert_eq!(d, "\u{0661}\u{0662}"),
        other => panic!("{:?}", other),
    }
    match parse_price(&prices, "$12.3\u{0664}") {
        Err(PriceError::Cents(c)) => assert_eq!(c, "3\u{0664}"),
        other => panic!("{:?}", other),
    }
}

#[test]
fn dictionary_gives_dense_ids() {
    let mut d = Dictionary::new();
    assert_eq!(d.normalize(s("a")), 0);
    assert_eq!(d.normalize(s("b")), 1);
    assert_eq!(d.normalize(s("a")), 0);
    assert_eq!(d.normalize_opt(None), None);
    assert_eq!(d.normalize_opt(Some(s("c"))), Some(2));
    assert_eq!(d.len(), 3);
    let entries = d.entries();
    assert_eq!(entries, vec![(s("a"), 0), (s("b"), 1), (s("c"), 2)]);
}

fn used(itemid: usize, main_cat: Option<&str>, price: Option<&str>) -> NormalizedUsed {
    NormalizedUsed {
        itemid,
        brand: Some(s("B")),
        description: None,
        title: Some(s("T")),
        main_cat: main_cat.map(s),
        price: price.map(s),
        is_train: true,
    }
}

#[test]
fn item_stage_takes_grocery_once() {
    let mut seen = IdSet::new();
    let mut stage = ItemStage::new();
    let prices = PricePattern::new().unwrap();
    stage.add(&prices, &mut seen, used(5, Some("Grocery"), Some("$3.20"))).unwrap();
    stage.add(&prices, &mut seen, used(5, Some("Grocery"), Some("$9.99"))).unwrap();
    stage.add(&prices, &mut seen, used(6, Some("Books"), None)).unwrap();
    stage.add(&prices, &mut seen, used(7, None, None)).unwrap();
    stage.add(&prices, &mut seen, used(8, Some("Grocery"), None)).unwrap();
    assert_eq!(stage.items.len(), 2);
    assert_eq!(stage.items[0].itemid, 5);
    assert_eq!(stage.items[0].price, Some(320));
    assert_eq!(stage.items[0].brand_id, Some(0));
    assert_eq!(stage.items[1].brand_id, Some(0));
    assert_eq!(stage.items[0].description_id, None);
    assert_eq!(stage.items[0].is_train, 1);
    assert_eq!(stage.items[1].price, None);
    assert!(seen.contains(5) && seen.contains(8) && !seen.contains(6));
    match stage.add(&prices, &mut seen, used(9, Some("Grocery"), Some("12"))) {
        Err(PriceError::Format(p)) => assert_eq!(p, "12"),
        other => panic!("{:?}", other),
    }
    assert!(!seen.contains(9));
    assert_eq!(stage.items.len(), 2);
}

#[test]
fn also_view_and_category_stages() {
    let mut seen = IdSet::new();
    seen.insert(1);
    seen.insert(2);
    let mut av = AlsoViewStage::new();
    av.add(&seen, AlsoViewUsed { itemid: 1, also_view_itemid: 2, is_train: false });
    av.add(&seen, AlsoViewUsed { itemid: 1, also_view_itemid: 3, is_train: true });
    av.add(&seen, AlsoViewUsed { itemid: 2, also_view_itemid: 1, is_train: true });
    assert_eq!(av.rows.len(), 2);
    assert_eq!((av.rows[0].id, av.rows[0].is_train), (0, 0));
    assert_eq!((av.rows[1].id, av.rows[1].itemid, av.rows[1].is_train), (1, 2, 1));

    let mut cat = CategoryStage::new();
    cat.add(&seen, CategoryUsed { itemid: 1, category: s("Tea"), is_train: true });
    cat.add(&seen, CategoryUsed { itemid: 3, category: s("Coffee"), is_train: true });
    cat.add(&seen, CategoryUsed { itemid: 2, category: s("Tea"), is_train: false });
    assert_eq!(cat.rows.len(), 2);
    assert_eq!((cat.rows[1].id, cat.rows[1].category_id, cat.rows[1].is_train), (1, 0, 0));
    assert_eq!(cat.dic_category.len(), 1);
}

#[test]
fn itemid_asin_narrowing() {
    let r = ItemIdAsin { itemid: 42, asin: s("B0001") }.to_record();
    assert_eq!(r.itemid, 42);
    assert_eq!(r.asin, "B0001");
}

fn row(itemid: usize, vote: Option<&str>) -> TrainRow {
    TrainRow {
        overall: 5,
        verified: s("True"),
        unix_review_time: 1_500_000_000,
        reviewer_name: Some(s("Ann")),
        review_text: Some(s("good")),
        summary: Some(s("Nice")),
        vote: vote.map(s),
        userid: 10,
        itemid,
        rating: 4,
    }
}

fn json(value: JsonValue) -> Json {
    assert!(value.is_wf());
    Json::new(value, JsonSource::Name(s("[0].image")))
}

#[test]
fn train_stage_stores_reviews_and_images() {
    let patterns = ReviewPatterns::new().unwrap();
    let mut seen = IdSet::new();
    seen.insert(1);
    let mut stage = TrainStage::new();
    let images = json(JsonValue::Array(vec![
        JsonValue::String(s("http://a")),
        JsonValue::Number(JsonNumber::PosInt(3)),
        JsonValue::String(s("http://b")),
        JsonValue::String(s("http://a")),
    ]));
    let style = Json::new(
        JsonValue::Object(vec![(s("Size:"), JsonValue::String(s("1 lb")))]),
        JsonSource::Name(s("[0].style")),
    );
    stage.add(&seen, &patterns, row(1, Some("1,234")), Some(Ok(style)), Some(Ok(images))).unwrap();
    stage.add(&seen, &patterns, row(2, Some("x")), None, None).unwrap();
    let mut r2 = row(1, None);
    r2.verified = s("False");
    stage.add(&seen, &patterns, r2, None, None).unwrap();
    assert_eq!(stage.rows.len(), 2);
    assert_eq!(stage.rows[0].vote, Some(1234));
    assert_eq!(stage.rows[0].verified, 1);
    assert_eq!(stage.rows[1].verified, 0);
    assert_eq!(stage.rows[1].id, 1);
    assert_eq!(stage.rows[1].reviewer_name_id, Some(0));
    assert_eq!(stage.rows[0].unix_review_time, 1_500_000_000);
    let imgs: Vec<RecordImage> = stage.images.clone();
    assert_eq!(imgs.len(), 3);
    assert_eq!((imgs[0].id, imgs[0].train_id, imgs[0].image_id), (0, 0, 0));
    assert_eq!((imgs[1].id, imgs[1].image_id), (1, 1));
    assert_eq!((imgs[2].id, imgs[2].image_id), (2, 0));
    assert!(stage.style_keys.contains("Size:"));
    assert_eq!(stage.dic_image.len(), 2);
}

#[test]
fn train_stage_errors_in_order() {
    let patterns = ReviewPatterns::new().unwrap();
    let mut seen = IdSet::new();
    seen.insert(1);
    let mut stage = TrainStage::new();
    match stage.add(&seen, &patterns, row(1, Some("1,2x")), Some(Err(s("bad style"))), None) {
        Err(TrainError::Vote(v)) => assert_eq!(v, "12x"),
        other => panic!("{:?}", other),
    }
    match stage.add(&seen, &patterns, row(1, None), Some(Err(s("bad style"))), Some(Err(s("bad image")))) {
        Err(TrainError::StyleSyntax(m)) => assert_eq!(m, "bad style"),
        other => panic!("{:?}", other),
    }
    let not_object = json(JsonValue::Array(Vec::new()));
    match stage.add(&seen, &patterns, row(1, None), Some(Ok(not_object)), None) {
        Err(TrainError::StyleNotObject(_)) => {}
        other => panic!("{:?}", other),
    }
    let not_array = json(JsonValue::Null);
    match stage.add(&seen, &patterns, row(1, None), None, Some(Ok(not_array))) {
        Err(TrainError::ImageNotArray(e)) => {
            assert_eq!(e.message("null"), "\"[0].image\" expected to be an Array, but: null")
        }
        other => panic!("{:?}", other),
    }
    assert!(stage.rows.is_empty());
    assert_eq!(stage.dic_reviewer_name.len(), 0);
}

#[test]
fn style_rewriting_turns_quotes_into_json() {
    let rewriter = StyleRewriter::new().unwrap();
    assert_eq!(rewriter.rewrite("{'Size:': ' 12 Ounce'}"), "{\"Size:\": \" 12 Ounce\"}");
    assert_eq!(
        rewriter.rewrite("{'Flavor:': ' Rock 'n' Roll'}"),
        "{\"Flavor:\": \" Rock 'n' Roll\"}"
    );
    assert_eq!(
        rewriter.rewrite("{'Flavor:': ' Grandma's Pie'}"),
        "{\"Flavor:\": \" Grandma's Pie\"}"
    );
    let patterns = ReviewPatterns::new().unwrap();
    assert_eq!(patterns.image_json_text("['a', 'b']"), "[\"a\", \"b\"]");
    assert_eq!(patterns.strip_commas("1,234,567"), "1234567");
}

#[test]
fn style_keys_are_collected() {
    let mut keys = KeySet::new();
    let style = json(JsonValue::Object(vec![
        (s("Color:"), JsonValue::String(s("red"))),
        (s("Size:"), JsonValue::String(s("1"))),
    ]));
    collect_style_keys(&style, &mut keys).unwrap();
    assert!(keys.contains("Size:") && keys.contains("Color:"));
    assert_eq!(keys.len(), 2);
    assert_eq!(keys.keys(), &vec![s("Color:"), s("Size:")]);
    assert!(collect_style_keys(&json(JsonValue::Null), &mut keys).is_err());
    assert_eq!(keys.len(), 2);
}

#[test]
fn key_set_keeps_first_insertion_order() {
    let mut keys = KeySet::new();
    keys.insert(s("b"));
    keys.insert(s("a"));
    keys.insert(s("b"));
    keys.insert(s("c"));
    assert_eq!(keys.keys(), &vec![s("b"), s("a"), s("c")]);
    assert_eq!(keys.len(), 3);
}

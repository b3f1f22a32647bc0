use recsys_prep::provide::{AsinIndex, Item, Record, Tables};

fn s(v: &str) -> String {
    v.to_string()
}

fn index() -> AsinIndex {
    let mut index = AsinIndex::new();
    index.add(Record { itemid: 1, asin: s("A1") });
    index.add(Record { itemid: 2, asin: s("A2") });
    index.add(Record { itemid: 3, asin: s("A3") });
    index
}

fn item(asin: &str, also_view: Option<Vec<&str>>) -> Item {
    Item {
        also_view: also_view.map(|v| v.into_iter().map(s).collect()),
        asin: s(asin),
        brand: Some(s("Brand")),
        category: vec![s("Grocery"), s("Tea")],
        description: Some(vec![s("first"), s("second")]),
        title: Some(s("Title")),
        main_cat: Some(s("Grocery")),
        price: Some(s("$1.50")),
    }
}

#[test]
fn asin_index_later_record_wins() {
    let mut index = index();
    assert_eq!(index.get("A2"), Some(2));
    assert_eq!(index.get("B"), None);
    index.add(Record { itemid: 9, asin: s("A2") });
    assert_eq!(index.get("A2"), Some(9));
    assert_eq!(index.len(), 3);
    assert_eq!(index.id_count(), 4);
}

#[test]
fn item_with_id_fills_all_tables() {
    let index = index();
    let mut tables = Tables::new();
    tables.add_item(&item("A1", Some(vec!["A2", "X", "A3"])), &index);
    assert_eq!(tables.simple.len(), 1);
    let simple = &tables.simple[0];
    assert_eq!(simple.itemid, Some(1));
    assert_eq!(simple.category, "Grocery|Tea");
    assert_eq!(simple.also_view.as_deref(), Some("A2|X|A3"));
    assert_eq!(simple.description.as_deref(), Some("first\n\nsecond"));
    assert_eq!(tables.normalized.len(), 1);
    assert_eq!(tables.normalized[0].description.as_deref(), Some("first\n\nsecond"));
    assert_eq!(tables.category.len(), 2);
    assert_eq!(tables.category[1].category, "Tea");
    assert_eq!(tables.also_view.len(), 3);
    assert_eq!(tables.also_view[1].also_view_itemid, None);
    assert_eq!(tables.also_view[2].also_view_itemid, Some(3));
    assert_eq!(tables.normalized_used.len(), 1);
    assert_eq!(tables.normalized_used[0].itemid, 1);
    assert_eq!(tables.category_used.len(), 2);
    let pairs: Vec<(usize, usize)> =
        tables.also_view_used.iter().map(|p| (p.itemid, p.also_view_itemid)).collect();
    assert_eq!(pairs, vec![(1, 2), (1, 3)]);
}

#[test]
fn item_without_id_fills_only_general_tables() {
    let index = index();
    let mut tables = Tables::new();
    tables.add_item(&item("Z", Some(vec!["A2"])), &index);
    assert_eq!(tables.simple[0].itemid, None);
    assert_eq!(tables.category.len(), 2);
    assert_eq!(tables.also_view.len(), 1);
    assert_eq!(tables.also_view[0].itemid, None);
    assert_eq!(tables.also_view[0].also_view_itemid, Some(2));
    assert!(tables.normalized_used.is_empty());
    assert!(tables.category_used.is_empty());
    assert!(tables.also_view_used.is_empty());
}

#[test]
fn item_without_lists() {
    let index = index();
    let mut tables = Tables::new();
    let mut it = item("A3", None);
    it.description = None;
    it.category = Vec::new();
    tables.add_item(&it, &index);
    assert_eq!(tables.simple[0].also_view, None);
    assert_eq!(tables.simple[0].category, "");
    assert_eq!(tables.simple[0].description, None);
    assert!(tables.also_view.is_empty());
    assert!(tables.also_view_used.is_empty());
    assert_eq!(tables.normalized_used.len(), 1);
}

//! Splitting product metadata records into the tables of the data set:
//! a flat table, a normalized table, and one row per category and per
//! "also viewed" product, each also restricted to the products that have an
//! item id.

use vstd::prelude::*;
use vstd::hash_map::StringHashMap;
use vstd::hash_set::HashSetWithView;
use crate::text::{seq_join, join, clone_opt};

verus! {

broadcast use vstd::std_specs::hash::group_hash_axioms;

/// A product as it appears in the metadata dump.
#[derive(Debug)]
pub struct Item {
    pub also_view: Option<Vec<String>>,
    pub asin: String,
    pub brand: Option<String>,
    pub category: Vec<String>,
    pub description: Option<Vec<String>>,
    pub title: Option<String>,
    pub main_cat: Option<String>,
    pub price: Option<String>,
}

pub struct ItemModel {
    pub also_view: Option<Seq<Seq<char>>>,
    pub asin: Seq<char>,
    pub brand: Option<Seq<char>>,
    pub category: Seq<Seq<char>>,
    pub description: Option<Seq<Seq<char>>>,
    pub title: Option<Seq<char>>,
    pub main_cat: Option<Seq<char>>,
    pub price: Option<Seq<char>>,
}

impl View for Item {
    type V = ItemModel;

    open spec fn view(&self) -> ItemModel {
        ItemModel {
            also_view: self.also_view.deep_view(),
            asin: self.asin@,
            brand: self.brand.deep_view(),
            category: self.category.deep_view(),
            description: self.description.deep_view(),
            title: self.title.deep_view(),
            main_cat: self.main_cat.deep_view(),
            price: self.price.deep_view(),
        }
    }
}

/// A product flattened into one row, list fields joined with `|`.
#[derive(Debug)]
pub struct Simple {
    pub also_view: Option<String>,
    pub asin: String,
    pub itemid: Option<usize>,
    pub brand: Option<String>,
    pub category: String,
    pub description: Option<String>,
    pub title: Option<String>,
    pub main_cat: Option<String>,
    pub price: Option<String>,
}

pub struct SimpleModel {
    pub also_view: Option<Seq<char>>,
    pub asin: Seq<char>,
    pub itemid: Option<usize>,
    pub brand: Option<Seq<char>>,
    pub category: Seq<char>,
    pub description: Option<Seq<char>>,
    pub title: Option<Seq<char>>,
    pub main_cat: Option<Seq<char>>,
    pub price: Option<Seq<char>>,
}

impl View for Simple {
    type V = SimpleModel;

    open spec fn view(&self) -> SimpleModel {
        SimpleModel {
            also_view: self.also_view.deep_view(),
            asin: self.asin@,
            itemid: self.itemid,
            brand: self.brand.deep_view(),
            category: self.category@,
            description: self.description.deep_view(),
            title: self.title.deep_view(),
            main_cat: self.main_cat.deep_view(),
            price: self.price.deep_view(),
        }
    }
}

/// A product's own attributes, without its lists.
#[derive(Debug)]
pub struct Normalized {
    pub asin: String,
    pub itemid: Option<usize>,
    pub brand: Option<String>,
    pub description: Option<String>,
    pub title: Option<String>,
    pub main_cat: Option<String>,
    pub price: Option<String>,
}

pub struct NormalizedModel {
    pub asin: Seq<char>,
    pub itemid: Option<usize>,
    pub brand: Option<Seq<char>>,
    pub description: Option<Seq<char>>,
    pub title: Option<Seq<char>>,
    pub main_cat: Option<Seq<char>>,
    pub price: Option<Seq<char>>,
}

impl View for Normalized {
    type V = NormalizedModel;

    open spec fn view(&self) -> NormalizedModel {
        NormalizedModel {
            asin: self.asin@,
            itemid: self.itemid,
            brand: self.brand.deep_view(),
            description: self.description.deep_view(),
            title: self.title.deep_view(),
            main_cat: self.main_cat.deep_view(),
            price: self.price.deep_view(),
        }
    }
}

/// The attributes of a product that has an item id.
#[derive(Debug)]
pub struct NormalizedUsed {
    pub itemid: usize,
    pub brand: Option<String>,
    pub description: Option<String>,
    pub title: Option<String>,
    pub main_cat: Option<String>,
    pub price: Option<String>,
}

pub struct NormalizedUsedModel {
    pub itemid: usize,
    pub brand: Option<Seq<char>>,
    pub description: Option<Seq<char>>,
    pub title: Option<Seq<char>>,
    pub main_cat: Option<Seq<char>>,
    pub price: Option<Seq<char>>,
}

impl View for NormalizedUsed {
    type V = NormalizedUsedModel;

    open spec fn view(&self) -> NormalizedUsedModel {
        NormalizedUsedModel {
            itemid: self.itemid,
            brand: self.brand.deep_view(),
            description: self.description.deep_view(),
            title: self.title.deep_view(),
            main_cat: self.main_cat.deep_view(),
            price: self.price.deep_view(),
        }
    }
}

/// One category of a product.
#[derive(Debug)]
pub struct Category {
    pub asin: String,
    pub itemid: Option<usize>,
    pub category: String,
}

pub struct CategoryModel {
    pub asin: Seq<char>,
    pub itemid: Option<usize>,
    pub category: Seq<char>,
}

impl View for Category {
    type V = CategoryModel;

    open spec fn view(&self) -> CategoryModel {
        CategoryModel { asin: self.asin@, itemid: self.itemid, category: self.category@ }
    }
}

/// One category of a product that has an item id.
#[derive(Debug)]
pub struct CategoryUsed {
    pub itemid: usize,
    pub category: String,
}

pub struct CategoryUsedModel {
    pub itemid: usize,
    pub category: Seq<char>,
}

impl View for CategoryUsed {
    type V = CategoryUsedModel;

    open spec fn view(&self) -> CategoryUsedModel {
        CategoryUsedModel { itemid: self.itemid, category: self.category@ }
    }
}

/// A pair of products with item ids where the second was viewed with the first.
#[derive(Clone, Copy, PartialEq, Eq, Structural, Debug)]
pub struct AlsoViewUsed {
    pub itemid: usize,
    pub also_view_itemid: usize,
}

impl View for AlsoViewUsed {
    type V = AlsoViewUsed;

    open spec fn view(&self) -> AlsoViewUsed {
        *self
    }
}

/// A product viewed together with another one.
#[derive(Debug)]
pub struct AlsoView {
    pub asin: String,
    pub itemid: Option<usize>,
    pub also_view: String,
    pub also_view_itemid: Option<usize>,
}

pub struct AlsoViewModel {
    pub asin: Seq<char>,
    pub itemid: Option<usize>,
    pub also_view: Seq<char>,
    pub also_view_itemid: Option<usize>,
}

impl View for AlsoView {
    type V = AlsoViewModel;

    open spec fn view(&self) -> AlsoViewModel {
        AlsoViewModel {
            asin: self.asin@,
            itemid: self.itemid,
            also_view: self.also_view@,
            also_view_itemid: self.also_view_itemid,
        }
    }
}

/// The item id given to a product.
#[derive(Debug)]
pub struct Record {
    pub itemid: usize,
    pub asin: String,
}

/// The models of the elements of a sequence.
pub open spec fn rows_of<T: View>(rows: Seq<T>) -> Seq<T::V> {
    rows.map_values(|r: T| r@)
}

/// The item id of a product, if it has one.
pub open spec fn id_of(index: Map<Seq<char>, usize>, asin: Seq<char>) -> Option<usize> {
    if index.contains_key(asin) {
        Some(index[asin])
    } else {
        None
    }
}

/// The item ids of products: later records for the same product win.
pub struct AsinIndex {
    asin2itemid: StringHashMap<usize>,
    itemids: HashSetWithView<usize>,
}

impl AsinIndex {
    /// The item id of each product.
    pub closed spec fn ids(&self) -> Map<Seq<char>, usize> {
        self.asin2itemid@
    }

    /// The item ids that have been given.
    pub closed spec fn given(&self) -> Set<usize> {
        self.itemids@
    }

    /// An index without products.
    pub fn new() -> (res: Self)
        ensures
            res.ids() == Map::<Seq<char>, usize>::empty(),
            res.given() == Set::<usize>::empty(),
    {
        AsinIndex { asin2itemid: StringHashMap::new(), itemids: HashSetWithView::new() }
    }

    /// Records the item id of a product, replacing an earlier one.
    pub fn add(&mut self, record: Record)
        ensures
            final(self).ids() == old(self).ids().insert(record.asin@, record.itemid),
            final(self).given() == old(self).given().insert(record.itemid),
    {
        self.itemids.insert(record.itemid);
        self.asin2itemid.insert(record.asin, record.itemid);
    }

    /// The item id of the product `asin`, if it has one.
    pub fn get(&self, asin: &str) -> (res: Option<usize>)
        ensures
            res == id_of(self.ids(), asin@),
    {
        match self.asin2itemid.get(asin) {
            Some(id) => Some(*id),
            None => None,
        }
    }

    /// The number of products with an item id.
    pub fn len(&self) -> (res: usize)
        ensures
            res == self.ids().len(),
    {
        self.asin2itemid.len()
    }

    /// The number of distinct item ids given.
    pub fn id_count(&self) -> (res: usize)
        ensures
            res == self.given().len(),
    {
        self.itemids.len()
    }
}

} // verus!

verus! {

/// How a list of paragraphs becomes one description.
pub open spec fn joined_opt(list: Option<Seq<Seq<char>>>, sep: Seq<char>) -> Option<Seq<char>> {
    match list {
        Some(l) => Some(seq_join(l, sep)),
        None => None,
    }
}

/// The normalized row of a product: its description paragraphs joined by a blank line.
pub open spec fn normalized_row(it: ItemModel, id: Option<usize>) -> NormalizedModel {
    NormalizedModel {
        asin: it.asin,
        itemid: id,
        brand: it.brand,
        description: joined_opt(it.description, "\n\n"@),
        title: it.title,
        main_cat: it.main_cat,
        price: it.price,
    }
}

/// The flat row of a product: lists joined by `|`, the description by a blank line.
pub open spec fn simple_row(it: ItemModel, id: Option<usize>) -> SimpleModel {
    SimpleModel {
        also_view: joined_opt(it.also_view, "|"@),
        asin: it.asin,
        itemid: id,
        brand: it.brand,
        category: seq_join(it.category, "|"@),
        description: joined_opt(it.description, "\n\n"@),
        title: it.title,
        main_cat: it.main_cat,
        price: it.price,
    }
}

/// One category row per category of the product, in order.
pub open spec fn category_rows(it: ItemModel, id: Option<usize>) -> Seq<CategoryModel> {
    Seq::new(
        it.category.len(),
        |i: int| CategoryModel { asin: it.asin, itemid: id, category: it.category[i] },
    )
}

/// One row per product viewed with this one, each with the id of that product if it has one.
pub open spec fn also_view_rows(it: ItemModel, id: Option<usize>, index: Map<Seq<char>, usize>) -> Seq<
    AlsoViewModel,
> {
    match it.also_view {
        Some(l) => Seq::new(
            l.len(),
            |i: int|
                AlsoViewModel {
                    asin: it.asin,
                    itemid: id,
                    also_view: l[i],
                    also_view_itemid: id_of(index, l[i]),
                },
        ),
        None => Seq::empty(),
    }
}

/// The normalized row of a product that has an item id; none for one without.
pub open spec fn normalized_used_rows(it: ItemModel, id: Option<usize>) -> Seq<NormalizedUsedModel> {
    match id {
        Some(x) => seq![
            NormalizedUsedModel {
                itemid: x,
                brand: it.brand,
                description: joined_opt(it.description, "\n\n"@),
                title: it.title,
                main_cat: it.main_cat,
                price: it.price,
            },
        ],
        None => Seq::empty(),
    }
}

/// One row per category of a product that has an item id; none for one without.
pub open spec fn category_used_rows(it: ItemModel, id: Option<usize>) -> Seq<CategoryUsedModel> {
    match id {
        Some(x) => Seq::new(
            it.category.len(),
            |i: int| CategoryUsedModel { itemid: x, category: it.category[i] },
        ),
        None => Seq::empty(),
    }
}

/// The pairs of `x` with each product of `viewed` that has an item id, in order.
pub open spec fn viewed_pairs(x: usize, viewed: Seq<Seq<char>>, index: Map<Seq<char>, usize>) -> Seq<
    AlsoViewUsed,
>
    decreases viewed.len(),
{
    if viewed.len() == 0 {
        Seq::empty()
    } else {
        let rest = viewed_pairs(x, viewed.drop_last(), index);
        match id_of(index, viewed.last()) {
            Some(y) => rest.push(AlsoViewUsed { itemid: x, also_view_itemid: y }),
            None => rest,
        }
    }
}

/// The pairs of a product that has an item id with each viewed product that has one.
pub open spec fn also_view_used_rows(it: ItemModel, id: Option<usize>, index: Map<Seq<char>, usize>) -> Seq<
    AlsoViewUsed,
> {
    match (id, it.also_view) {
        (Some(x), Some(l)) => viewed_pairs(x, l, index),
        _ => Seq::empty(),
    }
}

/// The tables built from the products read so far.
pub struct Tables {
    pub simple: Vec<Simple>,
    pub normalized: Vec<Normalized>,
    pub category: Vec<Category>,
    pub also_view: Vec<AlsoView>,
    pub normalized_used: Vec<NormalizedUsed>,
    pub category_used: Vec<CategoryUsed>,
    pub also_view_used: Vec<AlsoViewUsed>,
}

impl Tables {
    /// Tables without rows.
    pub fn new() -> (res: Self)
        ensures
            res.simple@.len() == 0,
            res.normalized@.len() == 0,
            res.category@.len() == 0,
            res.also_view@.len() == 0,
            res.normalized_used@.len() == 0,
            res.category_used@.len() == 0,
            res.also_view_used@.len() == 0,
    {
        Tables {
            simple: Vec::new(),
            normalized: Vec::new(),
            category: Vec::new(),
            also_view: Vec::new(),
            normalized_used: Vec::new(),
            category_used: Vec::new(),
            also_view_used: Vec::new(),
        }
    }

    /// Adds the rows of one product: one flat and one normalized row; one row
    /// per category and per product viewed with it; and, when the product has
    /// an item id, the same restricted to products with item ids.
    pub fn add_item(&mut self, item: &Item, index: &AsinIndex)
        ensures
            ({
                let id = id_of(index.ids(), item@.asin);
                &&& rows_of(final(self).simple@) == rows_of(old(self).simple@).push(
                    simple_row(item@, id),
                )
                &&& rows_of(final(self).normalized@) == rows_of(old(self).normalized@).push(
                    normalized_row(item@, id),
                )
                &&& rows_of(final(self).category@) == rows_of(old(self).category@)
                    + category_rows(item@, id)
                &&& rows_of(final(self).also_view@) == rows_of(old(self).also_view@)
                    + also_view_rows(item@, id, index.ids())
                &&& rows_of(final(self).normalized_used@) == rows_of(old(self).normalized_used@)
                    + normalized_used_rows(item@, id)
                &&& rows_of(final(self).category_used@) == rows_of(old(self).category_used@)
                    + category_used_rows(item@, id)
                &&& rows_of(final(self).also_view_used@) == rows_of(old(self).also_view_used@)
                    + also_view_used_rows(item@, id, index.ids())
            }),
    {
        let itemid = index.get(item.asin.as_str());
        let description = match &item.description {
            None => None,
            Some(paragraphs) => Some(join(paragraphs, "\n\n")),
        };
        self.normalized.push(
            Normalized {
                asin: item.asin.clone(),
                itemid,
                brand: clone_opt(&item.brand),
                description: clone_opt(&description),
                title: clone_opt(&item.title),
                main_cat: clone_opt(&item.main_cat),
                price: clone_opt(&item.price),
            },
        );
        assert(rows_of(self.normalized@) =~= rows_of(old(self).normalized@).push(
            normalized_row(item@, itemid),
        ));
        self.push_categories(item, itemid);
        self.push_also_views(item, itemid, index);
        match itemid {
            Some(id) => {
                let ghost before = rows_of(self.normalized_used@);
                self.normalized_used.push(
                    NormalizedUsed {
                        itemid: id,
                        brand: clone_opt(&item.brand),
                        description: clone_opt(&description),
                        title: clone_opt(&item.title),
                        main_cat: clone_opt(&item.main_cat),
                        price: clone_opt(&item.price),
                    },
                );
                assert(rows_of(self.normalized_used@) =~= before + normalized_used_rows(
                    item@,
                    itemid,
                ));
            },
            None => {
                assert(rows_of(self.normalized_used@) =~= rows_of(self.normalized_used@)
                    + normalized_used_rows(item@, itemid));
            },
        }
        let also_view = match &item.also_view {
            None => None,
            Some(list) => Some(join(list, "|")),
        };
        let ghost before_simple = rows_of(self.simple@);
        self.simple.push(
            Simple {
                also_view,
                asin: item.asin.clone(),
                itemid,
                brand: clone_opt(&item.brand),
                category: join(&item.category, "|"),
                description,
                title: clone_opt(&item.title),
                main_cat: clone_opt(&item.main_cat),
                price: clone_opt(&item.price),
            },
        );
        assert(rows_of(self.simple@) =~= before_simple.push(simple_row(item@, itemid)));
    }

    fn push_categories(&mut self, item: &Item, itemid: Option<usize>)
        ensures
            final(self).simple@ == old(self).simple@,
            final(self).normalized@ == old(self).normalized@,
            final(self).also_view@ == old(self).also_view@,
            final(self).normalized_used@ == old(self).normalized_used@,
            final(self).also_view_used@ == old(self).also_view_used@,
            rows_of(final(self).category@) == rows_of(old(self).category@) + category_rows(
                item@,
                itemid,
            ),
            rows_of(final(self).category_used@) == rows_of(old(self).category_used@)
                + category_used_rows(item@, itemid),
    {
        let ghost cat0 = rows_of(self.category@);
        let ghost used0 = rows_of(self.category_used@);
        let ghost cats = item@.category;
        let mut i: usize = 0;
        while i < item.category.len()
            invariant
                i <= item.category@.len(),
                cats == item@.category,
                self.simple@ == old(self).simple@,
                self.normalized@ == old(self).normalized@,
                self.also_view@ == old(self).also_view@,
                self.normalized_used@ == old(self).normalized_used@,
                self.also_view_used@ == old(self).also_view_used@,
                rows_of(self.category@) == cat0 + category_rows(item@, itemid).take(i as int),
                rows_of(self.category_used@) == used0 + if itemid is Some {
                    category_used_rows(item@, itemid).take(i as int)
                } else {
                    Seq::empty()
                },
            decreases item.category@.len() - i,
        {
            let ghost c_before = rows_of(self.category@);
            let ghost u_before = rows_of(self.category_used@);
            self.category.push(
                Category { asin: item.asin.clone(), itemid, category: item.category[i].clone() },
            );
            assert(rows_of(self.category@) =~= c_before.push(category_rows(item@, itemid)[i as int]));
            match itemid {
                Some(id) => {
                    self.category_used.push(
                        CategoryUsed { itemid: id, category: item.category[i].clone() },
                    );
                    assert(rows_of(self.category_used@) =~= u_before.push(
                        category_used_rows(item@, itemid)[i as int],
                    ));
                },
                None => {},
            }
            i = i + 1;
            assert(rows_of(self.category@) =~= cat0 + category_rows(item@, itemid).take(i as int));
            assert(rows_of(self.category_used@) =~= used0 + if itemid is Some {
                category_used_rows(item@, itemid).take(i as int)
            } else {
                Seq::empty()
            });
        }
        assert(category_rows(item@, itemid).take(i as int) =~= category_rows(item@, itemid));
        proof {
            if itemid is Some {
                assert(category_used_rows(item@, itemid).take(i as int) =~= category_used_rows(
                    item@,
                    itemid,
                ));
            } else {
                assert(rows_of(self.category_used@) =~= used0 + category_used_rows(item@, itemid));
            }
        }
    }

    fn push_also_views(&mut self, item: &Item, itemid: Option<usize>, index: &AsinIndex)
        ensures
            final(self).simple@ == old(self).simple@,
            final(self).normalized@ == old(self).normalized@,
            final(self).category@ == old(self).category@,
            final(self).normalized_used@ == old(self).normalized_used@,
            final(self).category_used@ == old(self).category_used@,
            rows_of(final(self).also_view@) == rows_of(old(self).also_view@) + also_view_rows(
                item@,
                itemid,
                index.ids(),
            ),
            rows_of(final(self).also_view_used@) == rows_of(old(self).also_view_used@)
                + also_view_used_rows(item@, itemid, index.ids()),
    {
        match &item.also_view {
            None => {
                assert(rows_of(self.also_view@) =~= rows_of(self.also_view@) + also_view_rows(
                    item@,
                    itemid,
                    index.ids(),
                ));
                assert(rows_of(self.also_view_used@) =~= rows_of(self.also_view_used@)
                    + also_view_used_rows(item@, itemid, index.ids()));
            },
            Some(list) => {
                let ghost av0 = rows_of(self.also_view@);
                let ghost used0 = rows_of(self.also_view_used@);
                let ghost l = list.deep_view();
                let mut i: usize = 0;
                while i < list.len()
                    invariant
                        i <= list@.len(),
                        l == list.deep_view(),
                        item@.also_view == Some(l),
                        self.simple@ == old(self).simple@,
                        self.normalized@ == old(self).normalized@,
                        self.category@ == old(self).category@,
                        self.normalized_used@ == old(self).normalized_used@,
                        self.category_used@ == old(self).category_used@,
                        rows_of(self.also_view@) == av0 + also_view_rows(
                            item@,
                            itemid,
                            index.ids(),
                        ).take(i as int),
                        rows_of(self.also_view_used@) == used0 + match itemid {
                            Some(x) => viewed_pairs(x, l.take(i as int), index.ids()),
                            None => Seq::empty(),
                        },
                    decreases list@.len() - i,
                {
                    let ghost a_before = rows_of(self.also_view@);
                    let ghost u_before = rows_of(self.also_view_used@);
                    let viewed_id = index.get(list[i].as_str());
                    self.also_view.push(
                        AlsoView {
                            asin: item.asin.clone(),
                            itemid,
                            also_view: list[i].clone(),
                            also_view_itemid: viewed_id,
                        },
                    );
                    assert(rows_of(self.also_view@) =~= a_before.push(
                        also_view_rows(item@, itemid, index.ids())[i as int],
                    ));
                    proof {
                        assert(l.take(i + 1).drop_last() =~= l.take(i as int));
                        assert(l.take(i + 1).last() == l[i as int]);
                    }
                    match itemid {
                        Some(id) => {
                            match viewed_id {
                                Some(vid) => {
                                    self.also_view_used.push(
                                        AlsoViewUsed { itemid: id, also_view_itemid: vid },
                                    );
                                    assert(rows_of(self.also_view_used@) =~= u_before.push(
                                        AlsoViewUsed { itemid: id, also_view_itemid: vid },
                                    ));
                                },
                                None => {},
                            }
                        },
                        None => {},
                    }
                    i = i + 1;
                    assert(rows_of(self.also_view@) =~= av0 + also_view_rows(
                        item@,
                        itemid,
                        index.ids(),
                    ).take(i as int));
                }
                assert(also_view_rows(item@, itemid, index.ids()).take(i as int) =~= also_view_rows(
                    item@,
                    itemid,
                    index.ids(),
                ));
                assert(l.take(i as int) =~= l);
                assert(rows_of(self.also_view_used@) =~= used0 + also_view_used_rows(
                    item@,
                    itemid,
                    index.ids(),
                ));
            },
        }
    }
}

} // verus!

verus! {

/// The "also viewed" rows whose two products both have item ids, as pairs.
pub open spec fn pairs_with_ids(rows: Seq<AlsoViewModel>) -> Seq<AlsoViewUsed>
    decreases rows.len(),
{
    if rows.len() == 0 {
        Seq::empty()
    } else {
        let rest = pairs_with_ids(rows.drop_last());
        let r = rows.last();
        match (r.itemid, r.also_view_itemid) {
            (Some(x), Some(y)) => rest.push(AlsoViewUsed { itemid: x, also_view_itemid: y }),
            _ => rest,
        }
    }
}

/// The restricted "also viewed" table of a product is its "also viewed"
/// table with the rows kept where both products have item ids.
pub proof fn law_also_view_used_is_restriction(
    it: ItemModel,
    id: Option<usize>,
    index: Map<Seq<char>, usize>,
)
    ensures
        also_view_used_rows(it, id, index) == pairs_with_ids(also_view_rows(it, id, index)),
{
    match (id, it.also_view) {
        (Some(x), Some(l)) => lemma_viewed_pairs(x, it, l, id, index),
        (None, Some(l)) => lemma_pairs_none(also_view_rows(it, id, index)),
        _ => {},
    }
}

proof fn lemma_pairs_none(rows: Seq<AlsoViewModel>)
    requires
        forall|i: int| 0 <= i < rows.len() ==> (#[trigger] rows[i]).itemid is None,
    ensures
        pairs_with_ids(rows) == Seq::<AlsoViewUsed>::empty(),
    decreases rows.len(),
{
    if rows.len() > 0 {
        lemma_pairs_none(rows.drop_last());
        assert(rows.last() == rows[rows.len() - 1]);
    }
}

proof fn lemma_viewed_pairs(
    x: usize,
    it: ItemModel,
    l: Seq<Seq<char>>,
    id: Option<usize>,
    index: Map<Seq<char>, usize>,
)
    requires
        id == Some(x),
    ensures
        viewed_pairs(x, l, index) == pairs_with_ids(
            Seq::new(
                l.len(),
                |i: int|
                    AlsoViewModel {
                        asin: it.asin,
                        itemid: id,
                        also_view: l[i],
                        also_view_itemid: id_of(index, l[i]),
                    },
            ),
        ),
    decreases l.len(),
{
    let rows = Seq::new(
        l.len(),
        |i: int|
            AlsoViewModel {
                asin: it.asin,
                itemid: id,
                also_view: l[i],
                also_view_itemid: id_of(index, l[i]),
            },
    );
    if l.len() > 0 {
        lemma_viewed_pairs(x, it, l.drop_last(), id, index);
        let shorter = Seq::new(
            l.drop_last().len(),
            |i: int|
                AlsoViewModel {
                    asin: it.asin,
                    itemid: id,
                    also_view: l.drop_last()[i],
                    also_view_itemid: id_of(index, l.drop_last()[i]),
                },
        );
        assert(rows.drop_last() =~= shorter);
    }
}

/// The restricted category table of a product is its category table with
/// the item id taken out, when it has one, and empty otherwise.
pub proof fn law_category_used_is_restriction(it: ItemModel, id: Option<usize>)
    ensures
        category_used_rows(it, id).len() == if id is Some {
            category_rows(it, id).len()
        } else {
            0
        },
        forall|i: int|
            0 <= i < category_used_rows(it, id).len() ==> {
                &&& Some(#[trigger] category_used_rows(it, id)[i].itemid) == category_rows(it, id)[i].itemid
                &&& category_used_rows(it, id)[i].category == category_rows(it, id)[i].category
            },
{
}

/// A product with an item id has exactly one restricted normalized row, and
/// it carries the product's own attributes, the same as its normalized and
/// flat rows: its brand, its joined description, its title, its main category
/// and its price. A product without one has none.
pub proof fn law_normalized_used_keeps_attributes(it: ItemModel, id: Option<usize>)
    ensures
        id is None ==> normalized_used_rows(it, id).len() == 0,
        id matches Some(x) ==> {
            let n = normalized_row(it, id);
            let f = simple_row(it, id);
            let u = normalized_used_rows(it, id);
            &&& u.len() == 1
            &&& u[0].itemid == x
            &&& u[0].brand == it.brand && n.brand == it.brand && f.brand == it.brand
            &&& u[0].title == it.title && n.title == it.title && f.title == it.title
            &&& u[0].main_cat == it.main_cat && n.main_cat == it.main_cat && f.main_cat == it.main_cat
            &&& u[0].price == it.price && n.price == it.price && f.price == it.price
            &&& u[0].description == n.description && n.description == f.description
            &&& (it.description is None <==> u[0].description is None)
            &&& n.asin == it.asin && n.itemid == id
        },
{
}

} // verus!

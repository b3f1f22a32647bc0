//! Turning the prepared tables into database rows: products of the grocery
//! category, their categories, the pairs viewed together, and the reviews,
//! with repeated strings replaced by dictionary ids.

use vstd::prelude::*;
use crate::sets::{IdSet, KeySet};
use crate::text::{
    dec, is_ascii_digit, digits_value, int_text, parse_int_text,
};
use crate::dictionary::{Dictionary, dict_fold, dict_id, lemma_dict_fold_len};
use crate::db::{
    NormalizedUsed, RecordItem, AlsoViewUsed, RecordAlsoView, CategoryUsed, RecordCategory,
    RecordTrain, RecordTrainModel, RecordImage,
};
use crate::json::{Json, JsonValue, JsonError, ErrModel, JModel, PathModel, Expected, models};
use crate::pattern::{regex_replace_all, regex_capture, regex_compiles, compile, capture, Pattern};
use crate::style::{ReviewPatterns, COMMA, member_keys, collect_style_keys};
use crate::provide::rows_of;

verus! {

broadcast use vstd::std_specs::hash::group_hash_axioms;

/// The pattern a price is read with: a dollar sign, the dollars, a dot and
/// two digits of cents (anything may follow).
pub const PRICE: &'static str = r"^\$(\d+)\.(\d\d)";

/// Why a price was rejected: the pattern does not match it, its dollars do not
/// read as a 16-bit number or its cents as an 8-bit one, or the match leaves
/// out one of the two groups (the pattern never does).
#[derive(Debug)]
pub enum PriceError {
    Format(String),
    Dollars(String),
    Cents(String),
    MissingGroup(String),
}

pub enum PriceErrorModel {
    Format(Seq<char>),
    Dollars(Seq<char>),
    Cents(Seq<char>),
    MissingGroup(Seq<char>),
}

impl View for PriceError {
    type V = PriceErrorModel;

    open spec fn view(&self) -> PriceErrorModel {
        match self {
            PriceError::Format(s) => PriceErrorModel::Format(s@),
            PriceError::Dollars(s) => PriceErrorModel::Dollars(s@),
            PriceError::Cents(s) => PriceErrorModel::Cents(s@),
            PriceError::MissingGroup(s) => PriceErrorModel::MissingGroup(s@),
        }
    }
}

/// The price in cents of `s`, given what the price pattern captured of its
/// dollars and of its cents: `100 * dollars + cents`, where the dollars are
/// read as a `u16` and the cents as a `u8` (the rules of `str::parse`).
pub open spec fn price_of_groups(
    s: Seq<char>,
    dollars: Option<Option<Seq<char>>>,
    cents: Option<Option<Seq<char>>>,
) -> Result<int, PriceErrorModel> {
    match (dollars, cents) {
        (Some(Some(d)), Some(Some(c))) => match int_text(d, false) {
            Some(dv) if dv <= u16::MAX => match int_text(c, false) {
                Some(cv) if cv <= u8::MAX => Ok(100 * dv + cv),
                _ => Err(PriceErrorModel::Cents(c)),
            },
            _ => Err(PriceErrorModel::Dollars(d)),
        },
        (Some(_), Some(_)) => Err(PriceErrorModel::MissingGroup(s)),
        _ => Err(PriceErrorModel::Format(s)),
    }
}

/// The price in cents that a price text stands for.
pub open spec fn spec_price(s: Seq<char>) -> Result<int, PriceErrorModel> {
    price_of_groups(s, regex_capture(PRICE@, s, 1), regex_capture(PRICE@, s, 2))
}

/// The compiled price pattern.
pub struct PricePattern {
    pattern: Pattern,
}

impl PricePattern {
    /// The pattern was compiled from `PRICE`.
    pub closed spec fn wf(&self) -> bool {
        self.pattern.source() == PRICE@
    }

    /// Compiles the price pattern; `None` when it does not compile.
    pub fn new() -> (res: Option<Self>)
        ensures
            res is Some <==> regex_compiles(PRICE@),
            res matches Some(p) ==> p.wf(),
    {
        let pattern = compile(PRICE)?;
        Some(PricePattern { pattern })
    }
}

/// The price in cents written in `price`, e.g. `$12.34` is 1234.
pub fn parse_price(prices: &PricePattern, price: &str) -> (res: Result<i32, PriceError>)
    requires
        prices.wf(),
    ensures
        match res {
            Ok(p) => spec_price(price@) == Ok::<int, PriceErrorModel>(p as int),
            Err(e) => spec_price(price@) == Err::<int, PriceErrorModel>(e@),
        },
{
    let dollars = capture(&prices.pattern, price, 1);
    let cents = capture(&prices.pattern, price, 2);
    assert(group_view(dollars) == regex_capture(PRICE@, price@, 1));
    assert(group_view(cents) == regex_capture(PRICE@, price@, 2));
    price_from_groups(price, dollars, cents)
}

/// What `str::parse` reads for an unsigned type is never negative.
proof fn lemma_unsigned_nonneg(s: Seq<char>)
    ensures
        int_text(s, false) matches Some(v) ==> v >= 0,
{
    if s.len() > 0 && s[0] == '+' {
        if crate::text::all_ascii_digits(s.drop_first()) {
            crate::text::lemma_digits_value_nonneg(s.drop_first());
        }
    } else if crate::text::all_ascii_digits(s) {
        crate::text::lemma_digits_value_nonneg(s);
    }
}

/// A captured group by its text.
pub open spec fn group_view(o: Option<Option<String>>) -> Option<Option<Seq<char>>> {
    match o {
        None => None,
        Some(None) => Some(None),
        Some(Some(t)) => Some(Some(t@)),
    }
}

/// The price in cents of `price`, given what the price pattern captured of
/// its dollars and of its cents.
pub fn price_from_groups(
    price: &str,
    dollars: Option<Option<String>>,
    cents: Option<Option<String>>,
) -> (res: Result<i32, PriceError>)
    ensures
        match res {
            Ok(p) => price_of_groups(price@, group_view(dollars), group_view(cents)) == Ok::<
                int,
                PriceErrorModel,
            >(p as int),
            Err(e) => price_of_groups(price@, group_view(dollars), group_view(cents)) == Err::<
                int,
                PriceErrorModel,
            >(e@),
        },
{
    let (d, c) = match (&dollars, &cents) {
        (Some(Some(d)), Some(Some(c))) => (d, c),
        (Some(_), Some(_)) => {
            return Err(PriceError::MissingGroup(String::from_str(price)));
        },
        _ => {
            return Err(PriceError::Format(String::from_str(price)));
        },
    };
    proof {
        lemma_unsigned_nonneg(d@);
        lemma_unsigned_nonneg(c@);
    }
    let dv = match parse_int_text(d.as_str(), false) {
        Some(dv) if dv <= 65535 => dv,
        _ => {
            return Err(PriceError::Dollars(String::from_str(d.as_str())));
        },
    };
    let cv = match parse_int_text(c.as_str(), false) {
        Some(cv) if cv <= 255 => cv,
        _ => {
            return Err(PriceError::Cents(String::from_str(c.as_str())));
        },
    };
    Ok((100 * dv + cv) as i32)
}

} // verus!

verus! {

/// The price in cents of an optional price text.
pub open spec fn spec_price_opt(p: Option<Seq<char>>) -> Result<Option<int>, PriceErrorModel> {
    match p {
        None => Ok(None),
        Some(s) => match spec_price(s) {
            Ok(v) => Ok(Some(v)),
            Err(e) => Err(e),
        },
    }
}

/// The 0/1 flag stored for a boolean.
pub open spec fn flag(b: bool) -> i32 {
    if b {
        1
    } else {
        0
    }
}

/// Two dictionaries hold the same entries.
pub open spec fn same_dict(a: &Dictionary, b: &Dictionary) -> bool {
    a.ids() == b.ids() && a.values() == b.values()
}

/// The grocery products with their attributes replaced by dictionary ids.
pub struct ItemStage {
    pub dic_brand: Dictionary,
    pub dic_description: Dictionary,
    pub dic_title: Dictionary,
    pub items: Vec<RecordItem>,
}

impl ItemStage {
    /// Every dictionary can take one more string.
    pub open spec fn has_room(&self) -> bool {
        self.dic_brand.has_room() && self.dic_description.has_room() && self.dic_title.has_room()
    }

    /// A stage without products.
    pub fn new() -> (res: Self)
        ensures
            res.dic_brand.wf() && res.dic_brand.values().len() == 0,
            res.dic_description.wf() && res.dic_description.values().len() == 0,
            res.dic_title.wf() && res.dic_title.values().len() == 0,
            res.items@.len() == 0,
    {
        ItemStage {
            dic_brand: Dictionary::new(),
            dic_description: Dictionary::new(),
            dic_title: Dictionary::new(),
            items: Vec::new(),
        }
    }

    /// Takes a product when it belongs to the grocery category and its item id
    /// was not taken before; then its item id is marked as taken in `seen`
    /// and its row is added. A price that cannot be read stops the load with
    /// its error, and nothing changes.
    pub fn add(
        &mut self,
        prices: &PricePattern,
        seen: &mut IdSet,
        record: NormalizedUsed,
    ) -> (res: Result<(), PriceError>)
        requires
            old(self).has_room(),
            prices.wf(),
        ensures
            final(self).dic_brand.wf(),
            final(self).dic_description.wf(),
            final(self).dic_title.wf(),
            ({
                let kept = record.main_cat.deep_view() == Some("Grocery"@) && !old(seen)@.contains(
                    record.itemid,
                );
                let price = spec_price_opt(record.price.deep_view());
                if !kept || price is Err {
                    &&& final(seen)@ == old(seen)@
                    &&& same_dict(&final(self).dic_brand, &old(self).dic_brand)
                    &&& same_dict(&final(self).dic_description, &old(self).dic_description)
                    &&& same_dict(&final(self).dic_title, &old(self).dic_title)
                    &&& final(self).items@ == old(self).items@
                    &&& match price {
                        Err(e) if kept => res matches Err(r) && r@ == e,
                        _ => res is Ok,
                    }
                } else {
                    &&& res is Ok
                    &&& final(seen)@ == old(seen)@.insert(record.itemid)
                    &&& old(self).dic_brand.added_opt(
                        record.brand.deep_view(),
                        &final(self).dic_brand,
                    )
                    &&& old(self).dic_description.added_opt(
                        record.description.deep_view(),
                        &final(self).dic_description,
                    )
                    &&& old(self).dic_title.added_opt(
                        record.title.deep_view(),
                        &final(self).dic_title,
                    )
                    &&& final(self).items@ == old(self).items@.push(
                        RecordItem {
                            itemid: record.itemid as i32,
                            brand_id: old(self).dic_brand.id_for_opt(record.brand.deep_view()),
                            description_id: old(self).dic_description.id_for_opt(
                                record.description.deep_view(),
                            ),
                            title_id: old(self).dic_title.id_for_opt(record.title.deep_view()),
                            price: match price {
                                Ok(Some(p)) => Some(p as i32),
                                _ => None,
                            },
                            is_train: flag(record.is_train),
                        },
                    )
                }
            }),
    {
        let grocery = String::from_str("Grocery");
        let is_grocery = match &record.main_cat {
            Some(main_cat) => *main_cat == grocery,
            None => false,
        };
        proof {
            reveal_strlit("Grocery");
        }
        if !is_grocery || seen.contains(record.itemid) {
            return Ok(());
        }
        let price = match &record.price {
            Some(p) => Some(parse_price(prices, p.as_str())?),
            None => None,
        };
        seen.insert(record.itemid);
        let brand_id = self.dic_brand.normalize_opt(record.brand);
        let description_id = self.dic_description.normalize_opt(record.description);
        let title_id = self.dic_title.normalize_opt(record.title);
        let is_train: i32 = if record.is_train {
            1
        } else {
            0
        };
        self.items.push(
            RecordItem {
                itemid: record.itemid as i32,
                brand_id,
                description_id,
                title_id,
                price,
                is_train,
            },
        );
        Ok(())
    }
}

/// The pairs of taken products viewed together.
pub struct AlsoViewStage {
    pub rows: Vec<RecordAlsoView>,
}

impl AlsoViewStage {
    /// A stage without pairs.
    pub fn new() -> (res: Self)
        ensures
            res.rows@.len() == 0,
    {
        AlsoViewStage { rows: Vec::new() }
    }

    /// Adds the pair when both products were taken, numbered by its position.
    pub fn add(&mut self, seen: &IdSet, record: AlsoViewUsed)
        ensures
            if seen@.contains(record.itemid) && seen@.contains(record.also_view_itemid) {
                final(self).rows@ == old(self).rows@.push(
                    RecordAlsoView {
                        id: old(self).rows@.len() as i32,
                        itemid: record.itemid as i32,
                        also_view_itemid: record.also_view_itemid as i32,
                        is_train: flag(record.is_train),
                    },
                )
            } else {
                final(self).rows@ == old(self).rows@
            },
    {
        if seen.contains(record.itemid) && seen.contains(record.also_view_itemid) {
            let id = self.rows.len() as i32;
            let is_train: i32 = if record.is_train {
                1
            } else {
                0
            };
            self.rows.push(
                RecordAlsoView {
                    id,
                    itemid: record.itemid as i32,
                    also_view_itemid: record.also_view_itemid as i32,
                    is_train,
                },
            );
        }
    }
}

/// The categories of taken products, by dictionary id.
pub struct CategoryStage {
    pub dic_category: Dictionary,
    pub rows: Vec<RecordCategory>,
}

impl CategoryStage {
    /// A stage without categories.
    pub fn new() -> (res: Self)
        ensures
            res.dic_category.wf() && res.dic_category.values().len() == 0,
            res.rows@.len() == 0,
    {
        CategoryStage { dic_category: Dictionary::new(), rows: Vec::new() }
    }

    /// Adds the category of a taken product, numbered by its position.
    pub fn add(&mut self, seen: &IdSet, record: CategoryUsed)
        requires
            old(self).dic_category.has_room(),
        ensures
            final(self).dic_category.wf(),
            if seen@.contains(record.itemid) {
                &&& old(self).dic_category.added(record.category@, &final(self).dic_category)
                &&& final(self).rows@ == old(self).rows@.push(
                    RecordCategory {
                        id: old(self).rows@.len() as i32,
                        itemid: record.itemid as i32,
                        category_id: old(self).dic_category.id_for(record.category@),
                        is_train: flag(record.is_train),
                    },
                )
            } else {
                &&& same_dict(&final(self).dic_category, &old(self).dic_category)
                &&& final(self).rows@ == old(self).rows@
            },
    {
        if seen.contains(record.itemid) {
            let is_train: i32 = if record.is_train {
                1
            } else {
                0
            };
            let category_id = self.dic_category.normalize(record.category);
            let id = self.rows.len() as i32;
            self.rows.push(
                RecordCategory { id, itemid: record.itemid as i32, category_id, is_train },
            );
        }
    }
}

} // verus!

verus! {

/// A review as read, with its scores already narrowed to integers.
#[derive(Debug)]
pub struct TrainRow {
    pub overall: i32,
    pub verified: String,
    pub unix_review_time: u64,
    pub reviewer_name: Option<String>,
    pub review_text: Option<String>,
    pub summary: Option<String>,
    pub vote: Option<String>,
    pub userid: usize,
    pub itemid: usize,
    pub rating: i32,
}

/// Why a review stopped the load: its vote count is not a number, or its
/// style or image list is not valid JSON or not of the expected shape.
#[derive(Debug)]
pub enum TrainError {
    Vote(String),
    StyleSyntax(String),
    StyleNotObject(JsonError),
    ImageSyntax(String),
    ImageNotArray(JsonError),
}

pub enum TrainErrorModel {
    Vote(Seq<char>),
    StyleSyntax(Seq<char>),
    StyleNotObject(ErrModel),
    ImageSyntax(Seq<char>),
    ImageNotArray(ErrModel),
}

impl View for TrainError {
    type V = TrainErrorModel;

    open spec fn view(&self) -> TrainErrorModel {
        match self {
            TrainError::Vote(s) => TrainErrorModel::Vote(s@),
            TrainError::StyleSyntax(s) => TrainErrorModel::StyleSyntax(s@),
            TrainError::StyleNotObject(e) => TrainErrorModel::StyleNotObject(e@),
            TrainError::ImageSyntax(s) => TrainErrorModel::ImageSyntax(s@),
            TrainError::ImageNotArray(e) => TrainErrorModel::ImageNotArray(e@),
        }
    }
}

/// A parsed JSON document, or the parser's message, as a model.
pub open spec fn parsed_view(p: Option<Result<Json, String>>) -> Option<Result<(PathModel, JModel), Seq<char>>> {
    match p {
        None => None,
        Some(Ok(j)) => Some(Ok((j.path@, j.value@))),
        Some(Err(m)) => Some(Err(m@)),
    }
}

/// The vote count of a review: its text without commas, read as an `i32`.
pub open spec fn vote_value(vote: Option<Seq<char>>) -> Result<Option<i32>, Seq<char>> {
    match vote {
        None => Ok(None),
        Some(v) => {
            let t = regex_replace_all(COMMA@, v, ""@);
            match int_text(t, true) {
                Some(x) => if i32::MIN <= x <= i32::MAX {
                    Ok(Some(x as i32))
                } else {
                    Err(t)
                },
                None => Err(t),
            }
        },
    }
}

/// The strings among the elements of an image list, in order.
pub open spec fn image_names(els: Seq<JModel>) -> Seq<Seq<char>>
    decreases els.len(),
{
    if els.len() == 0 {
        Seq::empty()
    } else {
        let rest = image_names(els.drop_last());
        match els.last() {
            JModel::Str(s) => rest.push(s),
            _ => rest,
        }
    }
}

/// What a review is checked against before it is stored: its vote count,
/// then its style, then its image list. The outcome is the vote, the members
/// of the style, and the image names.
pub open spec fn review_check(
    vote: Option<Seq<char>>,
    style: Option<Result<(PathModel, JModel), Seq<char>>>,
    image: Option<Result<(PathModel, JModel), Seq<char>>>,
) -> Result<(Option<i32>, Seq<(Seq<char>, JModel)>, Seq<Seq<char>>), TrainErrorModel> {
    match vote_value(vote) {
        Err(t) => Err(TrainErrorModel::Vote(t)),
        Ok(v) => match style {
            Some(Err(m)) => Err(TrainErrorModel::StyleSyntax(m)),
            Some(Ok((p, JModel::Object(members)))) => review_image_check(v, members, image),
            Some(Ok((p, other))) => Err(
                TrainErrorModel::StyleNotObject(
                    ErrModel::Mismatch { path: p, expected: Expected::Object, value: other },
                ),
            ),
            None => review_image_check(v, Seq::empty(), image),
        },
    }
}

/// What a review's image list adds to an accepted vote and style: the image names,
/// or the error for a list that does not parse or is no array.
pub open spec fn review_image_check(
    v: Option<i32>,
    members: Seq<(Seq<char>, JModel)>,
    image: Option<Result<(PathModel, JModel), Seq<char>>>,
) -> Result<(Option<i32>, Seq<(Seq<char>, JModel)>, Seq<Seq<char>>), TrainErrorModel> {
    match image {
        Some(Err(m)) => Err(TrainErrorModel::ImageSyntax(m)),
        Some(Ok((p, JModel::Array(els)))) => Ok((v, members, image_names(els))),
        Some(Ok((p, other))) => Err(
            TrainErrorModel::ImageNotArray(
                ErrModel::Mismatch { path: p, expected: Expected::Array, value: other },
            ),
        ),
        None => Ok((v, members, Seq::empty())),
    }
}

/// The image rows of a review: one per name, numbered on from `first`, each
/// with the id its name has once the names before it were given ids.
pub open spec fn image_rows(
    ids: Map<Seq<char>, i32>,
    values: Seq<Seq<char>>,
    names: Seq<Seq<char>>,
    train_id: i32,
    first: int,
) -> Seq<RecordImage>
    decreases names.len(),
{
    if names.len() == 0 {
        Seq::empty()
    } else {
        let prev = dict_fold(ids, values, names.drop_last());
        image_rows(ids, values, names.drop_last(), train_id, first).push(
            RecordImage {
                id: (first + names.len() - 1) as i32,
                train_id,
                image_id: dict_id(prev.0, prev.1, names.last()),
            },
        )
    }
}

/// The number of elements of a parsed image list.
pub open spec fn image_len(image: Option<Result<(PathModel, JModel), Seq<char>>>) -> int {
    match image {
        Some(Ok((p, JModel::Array(els)))) => els.len() as int,
        _ => 0,
    }
}

/// The reviews of taken products, their images, and the keys their styles use.
pub struct TrainStage {
    pub dic_reviewer_name: Dictionary,
    pub dic_summary: Dictionary,
    pub dic_image: Dictionary,
    pub rows: Vec<RecordTrain>,
    pub images: Vec<RecordImage>,
    pub style_keys: KeySet,
}

impl TrainStage {
    /// A stage without reviews.
    pub fn new() -> (res: Self)
        ensures
            res.dic_reviewer_name.wf() && res.dic_reviewer_name.values().len() == 0,
            res.dic_summary.wf() && res.dic_summary.values().len() == 0,
            res.dic_image.wf() && res.dic_image.values().len() == 0,
            res.rows@.len() == 0,
            res.images@.len() == 0,
            res.style_keys.wf(),
            res.style_keys@ == Set::<Seq<char>>::empty(),
    {
        TrainStage {
            dic_reviewer_name: Dictionary::new(),
            dic_summary: Dictionary::new(),
            dic_image: Dictionary::new(),
            rows: Vec::new(),
            images: Vec::new(),
            style_keys: KeySet::new(),
        }
    }

    /// Stores a review of a taken product: its names and summary by dictionary
    /// id, its vote count as a number, the keys of its style, and one image
    /// row per image name. A review of a product that was not taken is
    /// skipped; a review that fails its checks stops the load with the error,
    /// and nothing changes.
    pub fn add(
        &mut self,
        seen: &IdSet,
        patterns: &ReviewPatterns,
        row: TrainRow,
        style: Option<Result<Json, String>>,
        image: Option<Result<Json, String>>,
    ) -> (res: Result<(), TrainError>)
        requires
            patterns.wf(),
            old(self).dic_reviewer_name.has_room(),
            old(self).dic_summary.has_room(),
            old(self).dic_image.wf(),
            old(self).dic_image.values().len() + image_len(parsed_view(image)) < i32::MAX - 1,
            old(self).style_keys.wf(),
        ensures
            final(self).style_keys.wf(),
            final(self).dic_reviewer_name.wf(),
            final(self).dic_summary.wf(),
            final(self).dic_image.wf(),
            ({
                let check = review_check(row.vote.deep_view(), parsed_view(style), parsed_view(image));
                if !seen@.contains(row.itemid) || check is Err {
                    &&& same_dict(&final(self).dic_reviewer_name, &old(self).dic_reviewer_name)
                    &&& same_dict(&final(self).dic_summary, &old(self).dic_summary)
                    &&& same_dict(&final(self).dic_image, &old(self).dic_image)
                    &&& rows_of(final(self).rows@) == rows_of(old(self).rows@)
                    &&& final(self).images@ == old(self).images@
                    &&& final(self).style_keys@ == old(self).style_keys@
                    &&& if seen@.contains(row.itemid) {
                        res matches Err(e) && check == Err::<
                            (Option<i32>, Seq<(Seq<char>, JModel)>, Seq<Seq<char>>),
                            TrainErrorModel,
                        >(e@)
                    } else {
                        res is Ok
                    }
                } else {
                    let (vote, members, names) = check->Ok_0;
                    let id = old(self).rows@.len() as i32;
                    &&& res is Ok
                    &&& old(self).dic_reviewer_name.added_opt(
                        row.reviewer_name.deep_view(),
                        &final(self).dic_reviewer_name,
                    )
                    &&& old(self).dic_summary.added_opt(
                        row.summary.deep_view(),
                        &final(self).dic_summary,
                    )
                    &&& (final(self).dic_image.ids(), final(self).dic_image.values()) == dict_fold(
                        old(self).dic_image.ids(),
                        old(self).dic_image.values(),
                        names,
                    )
                    &&& final(self).images@ == old(self).images@ + image_rows(
                        old(self).dic_image.ids(),
                        old(self).dic_image.values(),
                        names,
                        id,
                        old(self).images@.len() as int,
                    )
                    &&& final(self).style_keys@ == old(self).style_keys@.union(member_keys(members))
                    &&& rows_of(final(self).rows@) == rows_of(old(self).rows@).push(
                        RecordTrainModel {
                            id,
                            overall: row.overall,
                            verified: if row.verified@ == "True"@ {
                                1
                            } else {
                                0
                            },
                            unix_review_time: row.unix_review_time as i32,
                            reviewer_name_id: old(self).dic_reviewer_name.id_for_opt(
                                row.reviewer_name.deep_view(),
                            ),
                            summary_id: old(self).dic_summary.id_for_opt(row.summary.deep_view()),
                            vote,
                            review_text: row.review_text.deep_view(),
                            userid: row.userid as i32,
                            itemid: row.itemid as i32,
                            rating: row.rating,
                        },
                    )
                }
            }),
    {
        if !seen.contains(row.itemid) {
            return Ok(());
        }
        let vote = match &row.vote {
            None => None,
            Some(v) => {
                let stripped = patterns.strip_commas(v.as_str());
                match parse_int_text(stripped.as_str(), true) {
                    Some(x) => {
                        if i32::MIN as i128 <= x && x <= i32::MAX as i128 {
                            Some(x as i32)
                        } else {
                            return Err(TrainError::Vote(stripped));
                        }
                    },
                    None => {
                        return Err(TrainError::Vote(stripped));
                    },
                }
            },
        };
        let style_json: Option<&Json> = match &style {
            None => None,
            Some(Err(m)) => {
                return Err(TrainError::StyleSyntax(m.clone()));
            },
            Some(Ok(j)) => {
                match j.as_map() {
                    Ok(_) => Some(j),
                    Err(e) => {
                        return Err(TrainError::StyleNotObject(e));
                    },
                }
            },
        };
        let names: Vec<String> = match &image {
            None => Vec::new(),
            Some(Err(m)) => {
                return Err(TrainError::ImageSyntax(m.clone()));
            },
            Some(Ok(j)) => {
                match j.as_vec() {
                    Ok(els) => collect_image_names(els),
                    Err(e) => {
                        return Err(TrainError::ImageNotArray(e));
                    },
                }
            },
        };
        proof {
            match parsed_view(image) {
                Some(Ok((_, JModel::Array(els)))) => lemma_image_names_len(els),
                _ => {},
            }
            assert(names.deep_view() == review_check(
                row.vote.deep_view(),
                parsed_view(style),
                parsed_view(image),
            )->Ok_0.2);
        }
        match style_json {
            Some(j) => {
                let _ = collect_style_keys(j, &mut self.style_keys);
            },
            None => {
                assert(self.style_keys@ =~= old(self).style_keys@.union(
                    member_keys(Seq::<(Seq<char>, JModel)>::empty()),
                ));
            },
        }
        let reviewer_name_id = self.dic_reviewer_name.normalize_opt(row.reviewer_name);
        let summary_id = self.dic_summary.normalize_opt(row.summary);
        let id = self.rows.len() as i32;
        self.add_images(&names, id);
        let verified: i32 = if row.verified == String::from_str("True") {
            1
        } else {
            0
        };
        proof {
            reveal_strlit("True");
        }
        self.rows.push(
            RecordTrain {
                id,
                overall: row.overall,
                verified,
                unix_review_time: row.unix_review_time as i32,
                reviewer_name_id,
                summary_id,
                vote,
                review_text: row.review_text,
                userid: row.userid as i32,
                itemid: row.itemid as i32,
                rating: row.rating,
            },
        );
        assert(rows_of(self.rows@) =~= rows_of(old(self).rows@).push(self.rows@.last()@));
        Ok(())
    }

    fn add_images(&mut self, names: &Vec<String>, train_id: i32)
        requires
            old(self).dic_image.wf(),
            old(self).dic_image.values().len() + names@.len() < i32::MAX - 1,
        ensures
            final(self).dic_image.wf(),
            (final(self).dic_image.ids(), final(self).dic_image.values()) == dict_fold(
                old(self).dic_image.ids(),
                old(self).dic_image.values(),
                names.deep_view(),
            ),
            final(self).images@ == old(self).images@ + image_rows(
                old(self).dic_image.ids(),
                old(self).dic_image.values(),
                names.deep_view(),
                train_id,
                old(self).images@.len() as int,
            ),
            final(self).rows@ == old(self).rows@,
            final(self).dic_reviewer_name == old(self).dic_reviewer_name,
            final(self).dic_summary == old(self).dic_summary,
            final(self).style_keys == old(self).style_keys,
    {
        let ghost ids0 = self.dic_image.ids();
        let ghost values0 = self.dic_image.values();
        let ghost images0 = self.images@;
        let ghost all = names.deep_view();
        let mut i: usize = 0;
        while i < names.len()
            invariant
                i <= names@.len(),
                all == names.deep_view(),
                self.dic_image.wf(),
                values0.len() + names@.len() < i32::MAX - 1,
                (self.dic_image.ids(), self.dic_image.values()) == dict_fold(
                    ids0,
                    values0,
                    all.take(i as int),
                ),
                self.images@ == images0 + image_rows(
                    ids0,
                    values0,
                    all.take(i as int),
                    train_id,
                    images0.len() as int,
                ),
                self.rows@ == old(self).rows@,
                self.dic_reviewer_name == old(self).dic_reviewer_name,
                self.dic_summary == old(self).dic_summary,
                self.style_keys == old(self).style_keys,
            decreases names@.len() - i,
        {
            proof {
                lemma_dict_fold_len(ids0, values0, all.take(i as int));
                assert(all.take(i + 1).drop_last() =~= all.take(i as int));
                assert(all.take(i + 1).last() == names@[i as int]@);
            }
            let image_id = self.dic_image.normalize(names[i].clone());
            let image_row_id = self.images.len() as i32;
            let ghost before = self.images@;
            self.images.push(RecordImage { id: image_row_id, train_id, image_id });
            i = i + 1;
            assert(self.images@ =~= images0 + image_rows(
                ids0,
                values0,
                all.take(i as int),
                train_id,
                images0.len() as int,
            )) by {
                lemma_image_rows_len(ids0, values0, all.take(i - 1), train_id, images0.len() as int);
            }
        }
        assert(all.take(i as int) =~= all);
    }
}

proof fn lemma_image_names_len(els: Seq<JModel>)
    ensures
        image_names(els).len() <= els.len(),
    decreases els.len(),
{
    if els.len() > 0 {
        lemma_image_names_len(els.drop_last());
    }
}

proof fn lemma_image_rows_len(
    ids: Map<Seq<char>, i32>,
    values: Seq<Seq<char>>,
    names: Seq<Seq<char>>,
    train_id: i32,
    first: int,
)
    ensures
        image_rows(ids, values, names, train_id, first).len() == names.len(),
    decreases names.len(),
{
    if names.len() > 0 {
        lemma_image_rows_len(ids, values, names.drop_last(), train_id, first);
    }
}

/// The strings among the elements of an image list, in order.
fn collect_image_names(els: &Vec<JsonValue>) -> (res: Vec<String>)
    ensures
        res.deep_view() == image_names(models(els@)),
{
    let ghost ms = models(els@);
    let mut out: Vec<String> = Vec::new();
    let mut i: usize = 0;
    while i < els.len()
        invariant
            i <= els@.len(),
            ms == models(els@),
            out.deep_view() == image_names(ms.take(i as int)),
        decreases els@.len() - i,
    {
        proof {
            assert(ms.take(i + 1).drop_last() =~= ms.take(i as int));
            assert(ms.take(i + 1).last() == els@[i as int]@);
        }
        match &els[i] {
            JsonValue::String(s) => {
                out.push(s.clone());
                assert(out.deep_view() =~= image_names(ms.take(i + 1)));
            },
            _ => {},
        }
        i = i + 1;
    }
    assert(ms.take(i as int) =~= ms);
    out
}

} // verus!

verus! {

/// When the price pattern captures dollars written in decimal (at most
/// 65535) and two ASCII digits of cents, the price is that many cents.
pub proof fn law_price_reads_captured_price(s: Seq<char>, dollars: nat, c1: char, c2: char)
    requires
        dollars <= u16::MAX,
        is_ascii_digit(c1),
        is_ascii_digit(c2),
        regex_capture(PRICE@, s, 1) == Some(Some(dec(dollars))),
        regex_capture(PRICE@, s, 2) == Some(Some(seq![c1, c2])),
    ensures
        spec_price(s) == Ok::<int, PriceErrorModel>(
            100 * dollars + 10 * (c1 as int - '0' as int) + (c2 as int - '0' as int),
        ),
{
    crate::text::law_int_text_of_dec(dollars, false);
    let cents = seq![c1, c2];
    assert(cents.drop_first() =~= seq![c2]);
    assert(cents.drop_last() =~= seq![c1]);
    assert(cents.drop_last().drop_last() =~= Seq::<char>::empty());
    assert(digits_value(seq![c1]) == c1 as int - '0' as int) by {
        assert(seq![c1].drop_last() =~= Seq::<char>::empty());
        assert(digits_value(seq![c1].drop_last()) == 0);
        assert(seq![c1].last() == c1);
    }
    assert(crate::text::all_ascii_digits(cents));
    assert(digits_value(cents) == 10 * (c1 as int - '0' as int) + (c2 as int - '0' as int));
    assert(int_text(cents, false) == Some(digits_value(cents)));
}

/// Whether a value of an image list is a string.
pub open spec fn is_string_value() -> spec_fn(JModel) -> bool {
    |e: JModel| e is Str
}

/// The text of a string value.
pub open spec fn string_text() -> spec_fn(JModel) -> Seq<char> {
    |e: JModel| e->Str_0
}

/// The image names of a review are the strings of its image list, in order,
/// with whatever else the list holds left out.
pub proof fn law_image_names_are_the_strings(els: Seq<JModel>)
    ensures
        image_names(els) == els.filter(is_string_value()).map_values(string_text()),
    decreases els.len(),
{
    reveal(Seq::filter);
    if els.len() > 0 {
        law_image_names_are_the_strings(els.drop_last());
        let f = els.filter(is_string_value());
        let g = els.drop_last().filter(is_string_value());
        if els.last() is Str {
            assert(f == g.push(els.last()));
            assert(f.map_values(string_text()) =~= g.map_values(string_text()).push(
                els.last()->Str_0,
            ));
        } else {
            assert(f == g);
        }
    } else {
        assert(els.filter(is_string_value()) =~= Seq::<JModel>::empty());
    }
}

/// Whether a review has a style or not, and whatever its style holds, an
/// accepted review keeps the image names of its image list: the style never
/// decides which images are stored.
pub proof fn law_images_ignore_style(
    vote: Option<Seq<char>>,
    style: Option<Result<(PathModel, JModel), Seq<char>>>,
    p: PathModel,
    els: Seq<JModel>,
)
    ensures
        review_check(vote, style, Some(Ok((p, JModel::Array(els))))) matches Ok(r) ==> r.2
            == image_names(els),
        review_check(vote, style, None) matches Ok(r) ==> r.2.len() == 0,
        vote_value(vote) is Ok && (style is None || style matches Some(Ok((q, JModel::Object(m)))))
            ==> review_check(vote, style, Some(Ok((p, JModel::Array(els))))) is Ok,
{
}

/// Rows numbered by their position.
pub open spec fn also_view_numbered(rows: Seq<RecordAlsoView>) -> bool {
    forall|i: int| 0 <= i < rows.len() ==> (#[trigger] rows[i]).id == i as i32
}

/// Adding a pair keeps the pairs numbered by their position.
pub proof fn law_also_view_numbering(rows: Seq<RecordAlsoView>, r: RecordAlsoView)
    requires
        also_view_numbered(rows),
        r.id == rows.len() as i32,
    ensures
        also_view_numbered(rows.push(r)),
{
    assert forall|i: int| 0 <= i < rows.push(r).len() implies (#[trigger] rows.push(r)[i]).id
        == i as i32 by {
        if i < rows.len() {
            assert(rows.push(r)[i] == rows[i]);
        }
    }
}

/// Category rows numbered by their position.
pub open spec fn category_numbered(rows: Seq<RecordCategory>) -> bool {
    forall|i: int| 0 <= i < rows.len() ==> (#[trigger] rows[i]).id == i as i32
}

/// Adding a category keeps the rows numbered by their position.
pub proof fn law_category_numbering(rows: Seq<RecordCategory>, r: RecordCategory)
    requires
        category_numbered(rows),
        r.id == rows.len() as i32,
    ensures
        category_numbered(rows.push(r)),
{
    assert forall|i: int| 0 <= i < rows.push(r).len() implies (#[trigger] rows.push(r)[i]).id
        == i as i32 by {
        if i < rows.push(r).len() - 1 {
            assert(rows.push(r)[i] == rows[i]);
        }
    }
}

/// The image rows of a review: one per image name, numbered on from `first`,
/// all pointing at the review.
pub proof fn law_image_rows_numbered(
    ids: Map<Seq<char>, i32>,
    values: Seq<Seq<char>>,
    names: Seq<Seq<char>>,
    train_id: i32,
    first: int,
)
    ensures
        image_rows(ids, values, names, train_id, first).len() == names.len(),
        forall|j: int|
            0 <= j < names.len() ==> {
                &&& (#[trigger] image_rows(ids, values, names, train_id, first)[j]).id == (first
                    + j) as i32
                &&& image_rows(ids, values, names, train_id, first)[j].train_id == train_id
            },
    decreases names.len(),
{
    lemma_image_rows_len(ids, values, names, train_id, first);
    if names.len() > 0 {
        law_image_rows_numbered(ids, values, names.drop_last(), train_id, first);
        let rows = image_rows(ids, values, names, train_id, first);
        let prev = image_rows(ids, values, names.drop_last(), train_id, first);
        assert forall|j: int| 0 <= j < names.len() implies {
            &&& (#[trigger] rows[j]).id == (first + j) as i32
            &&& rows[j].train_id == train_id
        } by {
            if j < names.len() - 1 {
                assert(rows[j] == prev[j]);
            }
        }
    }
}

} // verus!

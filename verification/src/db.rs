//! The rows of the recommender's database and the values handed to its
//! inserts.

use vstd::prelude::*;

verus! {

/// A review as stored: strings replaced by dictionary ids.
#[derive(Debug)]
pub struct RecordTrain {
    pub id: i32,
    pub overall: i32,
    pub verified: i32,
    pub unix_review_time: i32,
    pub reviewer_name_id: Option<i32>,
    pub summary_id: Option<i32>,
    pub vote: Option<i32>,
    pub review_text: Option<String>,
    pub userid: i32,
    pub itemid: i32,
    pub rating: i32,
}

/// A review as stored, as a model.
pub struct RecordTrainModel {
    pub id: i32,
    pub overall: i32,
    pub verified: i32,
    pub unix_review_time: i32,
    pub reviewer_name_id: Option<i32>,
    pub summary_id: Option<i32>,
    pub vote: Option<i32>,
    pub review_text: Option<Seq<char>>,
    pub userid: i32,
    pub itemid: i32,
    pub rating: i32,
}

impl View for RecordTrain {
    type V = RecordTrainModel;

    open spec fn view(&self) -> RecordTrainModel {
        RecordTrainModel {
            id: self.id,
            overall: self.overall,
            verified: self.verified,
            unix_review_time: self.unix_review_time,
            reviewer_name_id: self.reviewer_name_id,
            summary_id: self.summary_id,
            vote: self.vote,
            review_text: self.review_text.deep_view(),
            userid: self.userid,
            itemid: self.itemid,
            rating: self.rating,
        }
    }
}

/// An image of a review: the review's id and the image's dictionary id.
#[derive(Clone, Copy, PartialEq, Eq, Structural, Debug)]
pub struct RecordImage {
    pub id: i32,
    pub train_id: i32,
    pub image_id: i32,
}

/// The item id given to a product, as read.
#[derive(Debug)]
pub struct ItemIdAsin {
    pub itemid: usize,
    pub asin: String,
}

/// The item id given to a product, as stored.
#[derive(Debug)]
pub struct RecordItemIdAsin {
    pub itemid: i32,
    pub asin: String,
}

/// A pair of products viewed together, as read.
#[derive(Clone, Copy, PartialEq, Eq, Structural, Debug)]
pub struct AlsoViewUsed {
    pub itemid: usize,
    pub also_view_itemid: usize,
    pub is_train: bool,
}

/// A pair of products viewed together, as stored.
#[derive(Clone, Copy, PartialEq, Eq, Structural, Debug)]
pub struct RecordAlsoView {
    pub id: i32,
    pub itemid: i32,
    pub also_view_itemid: i32,
    pub is_train: i32,
}

/// A category of a product, as read.
#[derive(Debug)]
pub struct CategoryUsed {
    pub itemid: usize,
    pub category: String,
    pub is_train: bool,
}

/// A category of a product, as stored.
#[derive(Clone, Copy, PartialEq, Eq, Structural, Debug)]
pub struct RecordCategory {
    pub id: i32,
    pub itemid: i32,
    pub category_id: i32,
    pub is_train: i32,
}

/// A product's attributes, as read.
#[derive(Debug)]
pub struct NormalizedUsed {
    pub itemid: usize,
    pub brand: Option<String>,
    pub description: Option<String>,
    pub title: Option<String>,
    pub main_cat: Option<String>,
    pub price: Option<String>,
    pub is_train: bool,
}

/// A product's attributes, as stored: strings replaced by dictionary ids and
/// the price in cents.
#[derive(Clone, Copy, PartialEq, Eq, Structural, Debug)]
pub struct RecordItem {
    pub itemid: i32,
    pub brand_id: Option<i32>,
    pub description_id: Option<i32>,
    pub title_id: Option<i32>,
    pub price: Option<i32>,
    pub is_train: i32,
}

/// The values of an insert into `train`.
pub struct NewTrain<'a> {
    pub id: &'a i32,
    pub userid: &'a i32,
    pub itemid: &'a i32,
    pub rating: &'a i32,
    pub overall: &'a i32,
    pub verified: &'a i32,
    pub unix_review_time: &'a i32,
    pub reviewer_name_id: Option<&'a i32>,
    pub summary_id: Option<&'a i32>,
    pub vote: Option<&'a i32>,
}

/// The values of an insert into `image`.
pub struct NewImage<'a> {
    pub id: &'a i32,
    pub train_id: &'a i32,
    pub image_id: &'a i32,
}

/// The values of an insert into `dic_reviewer_name`.
pub struct NewDicReviewerName<'a> {
    pub id: &'a i32,
    pub value: &'a str,
}

/// The values of an insert into `dic_summary`.
pub struct NewDicSummary<'a> {
    pub id: &'a i32,
    pub value: &'a str,
}

/// The values of an insert into `dic_image`.
pub struct NewDicImage<'a> {
    pub id: &'a i32,
    pub value: &'a str,
}

/// The values of an insert into `item`.
pub struct NewItem<'a> {
    pub itemid: &'a i32,
    pub brand_id: Option<&'a i32>,
    pub description_id: Option<&'a i32>,
    pub title_id: Option<&'a i32>,
    pub price: Option<&'a i32>,
    pub is_train: &'a i32,
}

/// The values of an insert into `category`.
pub struct NewCategory<'a> {
    pub id: &'a i32,
    pub itemid: &'a i32,
    pub category_id: &'a i32,
    pub is_train: &'a i32,
}

/// The values of an insert into `also_view`.
pub struct NewAlsoView<'a> {
    pub id: &'a i32,
    pub itemid: &'a i32,
    pub also_view_itemid: &'a i32,
    pub is_train: &'a i32,
}

/// The values of an insert into `dic_brand`.
pub struct NewDicBrand<'a> {
    pub id: &'a i32,
    pub value: &'a str,
}

/// The values of an insert into `dic_title`.
pub struct NewDicTitle<'a> {
    pub id: &'a i32,
    pub value: &'a str,
}

/// The values of an insert into `dic_description`.
pub struct NewDicDescription<'a> {
    pub id: &'a i32,
    pub value: &'a str,
}

/// The values of an insert into `dic_category`.
pub struct NewDicCategory<'a> {
    pub id: &'a i32,
    pub value: &'a str,
}

/// The values of an insert into `itemid_asin`.
pub struct NewItemidAsin<'a> {
    pub itemid: &'a i32,
    pub asin: &'a str,
}

/// A reference to the value inside an option.
pub fn opt_ref<T>(source: &Option<T>) -> (res: Option<&T>)
    ensures
        match source {
            Some(v) => res == Some(v),
            None => res is None,
        },
{
    match source {
        Some(v) => Some(v),
        None => None,
    }
}

impl RecordTrain {
    /// The values this review is inserted with.
    pub fn to_new(&self) -> (res: NewTrain<'_>)
        ensures
            *res.id == self.id,
            *res.userid == self.userid,
            *res.itemid == self.itemid,
            *res.rating == self.rating,
            *res.overall == self.overall,
            *res.verified == self.verified,
            *res.unix_review_time == self.unix_review_time,
            res.reviewer_name_id == opt_ref_spec(&self.reviewer_name_id),
            res.summary_id == opt_ref_spec(&self.summary_id),
            res.vote == opt_ref_spec(&self.vote),
    {
        NewTrain {
            id: &self.id,
            userid: &self.userid,
            itemid: &self.itemid,
            rating: &self.rating,
            overall: &self.overall,
            verified: &self.verified,
            unix_review_time: &self.unix_review_time,
            reviewer_name_id: opt_ref(&self.reviewer_name_id),
            summary_id: opt_ref(&self.summary_id),
            vote: opt_ref(&self.vote),
        }
    }
}

/// A reference to the value inside an option, in specifications.
pub open spec fn opt_ref_spec<T>(source: &Option<T>) -> Option<&T> {
    match source {
        Some(v) => Some(v),
        None => None,
    }
}

impl RecordImage {
    /// The values this image is inserted with.
    pub fn to_new(&self) -> (res: NewImage<'_>)
        ensures
            *res.id == self.id,
            *res.train_id == self.train_id,
            *res.image_id == self.image_id,
    {
        NewImage { id: &self.id, train_id: &self.train_id, image_id: &self.image_id }
    }
}

impl RecordItem {
    /// The values this product is inserted with.
    pub fn to_new(&self) -> (res: NewItem<'_>)
        ensures
            *res.itemid == self.itemid,
            res.brand_id == opt_ref_spec(&self.brand_id),
            res.description_id == opt_ref_spec(&self.description_id),
            res.title_id == opt_ref_spec(&self.title_id),
            res.price == opt_ref_spec(&self.price),
            *res.is_train == self.is_train,
    {
        NewItem {
            itemid: &self.itemid,
            brand_id: opt_ref(&self.brand_id),
            description_id: opt_ref(&self.description_id),
            title_id: opt_ref(&self.title_id),
            price: opt_ref(&self.price),
            is_train: &self.is_train,
        }
    }
}

impl RecordCategory {
    /// The values this category row is inserted with.
    pub fn to_new(&self) -> (res: NewCategory<'_>)
        ensures
            *res.id == self.id,
            *res.itemid == self.itemid,
            *res.category_id == self.category_id,
            *res.is_train == self.is_train,
    {
        NewCategory {
            id: &self.id,
            itemid: &self.itemid,
            category_id: &self.category_id,
            is_train: &self.is_train,
        }
    }
}

impl RecordAlsoView {
    /// The values this pair is inserted with.
    pub fn to_new(&self) -> (res: NewAlsoView<'_>)
        ensures
            *res.id == self.id,
            *res.itemid == self.itemid,
            *res.also_view_itemid == self.also_view_itemid,
            *res.is_train == self.is_train,
    {
        NewAlsoView {
            id: &self.id,
            itemid: &self.itemid,
            also_view_itemid: &self.also_view_itemid,
            is_train: &self.is_train,
        }
    }
}

impl RecordItemIdAsin {
    /// The values this item id is inserted with.
    pub fn to_new(&self) -> (res: NewItemidAsin<'_>)
        ensures
            *res.itemid == self.itemid,
            res.asin@ == self.asin@,
    {
        NewItemidAsin { itemid: &self.itemid, asin: self.asin.as_str() }
    }
}

impl ItemIdAsin {
    /// The stored form: the item id narrowed to the database's integer type.
    pub fn to_record(self) -> (res: RecordItemIdAsin)
        ensures
            res.itemid == self.itemid as i32,
            res.asin@ == self.asin@,
    {
        RecordItemIdAsin { itemid: self.itemid as i32, asin: self.asin }
    }
}

} // verus!

verus! {

/// The values a dictionary entry `(value, id)` is inserted with.
pub fn new_dic_reviewer_name(entry: &(String, i32)) -> (res: NewDicReviewerName<'_>)
    ensures
        *res.id == entry.1,
        res.value@ == entry.0@,
{
    NewDicReviewerName { id: &entry.1, value: entry.0.as_str() }
}

/// The values a dictionary entry `(value, id)` is inserted with.
pub fn new_dic_summary(entry: &(String, i32)) -> (res: NewDicSummary<'_>)
    ensures
        *res.id == entry.1,
        res.value@ == entry.0@,
{
    NewDicSummary { id: &entry.1, value: entry.0.as_str() }
}

/// The values a dictionary entry `(value, id)` is inserted with.
pub fn new_dic_image(entry: &(String, i32)) -> (res: NewDicImage<'_>)
    ensures
        *res.id == entry.1,
        res.value@ == entry.0@,
{
    NewDicImage { id: &entry.1, value: entry.0.as_str() }
}

/// The values a dictionary entry `(value, id)` is inserted with.
pub fn new_dic_brand(entry: &(String, i32)) -> (res: NewDicBrand<'_>)
    ensures
        *res.id == entry.1,
        res.value@ == entry.0@,
{
    NewDicBrand { id: &entry.1, value: entry.0.as_str() }
}

/// The values a dictionary entry `(value, id)` is inserted with.
pub fn new_dic_title(entry: &(String, i32)) -> (res: NewDicTitle<'_>)
    ensures
        *res.id == entry.1,
        res.value@ == entry.0@,
{
    NewDicTitle { id: &entry.1, value: entry.0.as_str() }
}

/// The values a dictionary entry `(value, id)` is inserted with.
pub fn new_dic_description(entry: &(String, i32)) -> (res: NewDicDescription<'_>)
    ensures
        *res.id == entry.1,
        res.value@ == entry.0@,
{
    NewDicDescription { id: &entry.1, value: entry.0.as_str() }
}

/// The values a dictionary entry `(value, id)` is inserted with.
pub fn new_dic_category(entry: &(String, i32)) -> (res: NewDicCategory<'_>)
    ensures
        *res.id == entry.1,
        res.value@ == entry.0@,
{
    NewDicCategory { id: &entry.1, value: entry.0.as_str() }
}

} // verus!

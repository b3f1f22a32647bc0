//! Navigation in a parsed JSON document by a path of keys and indices, with
//! typed accessors that report the path of the value they reject.

use vstd::prelude::*;
use serde_json::Value;
use crate::text::{
    int_text, parse_int_text, dec, debug_quoted, debug_quote, path_debug_quoted, path_debug_quote,
    push_str, push_decimal, string_from_chars, to_chars,
};

verus! {

/// A JSON number as it was read: a non-negative integer, a negative integer,
/// or a floating-point number kept by its textual form.
#[derive(Debug)]
pub enum JsonNumber {
    PosInt(u64),
    NegInt(i64),
    Float(String),
}

/// A parsed JSON value. Object members keep the order in which they were read.
#[derive(Debug)]
pub enum JsonValue {
    Null,
    Bool(bool),
    Number(JsonNumber),
    String(String),
    Array(Vec<JsonValue>),
    Object(Vec<(String, JsonValue)>),
}

/// Mathematical model of a JSON number.
pub enum NumberModel {
    PosInt(u64),
    NegInt(i64),
    Float(Seq<char>),
}

/// Mathematical model of a JSON value.
pub enum JModel {
    Null,
    Bool(bool),
    Number(NumberModel),
    Str(Seq<char>),
    Array(Seq<JModel>),
    Object(Seq<(Seq<char>, JModel)>),
}

impl JsonNumber {
    /// The model of this number.
    pub open spec fn model(&self) -> NumberModel {
        match self {
            JsonNumber::PosInt(n) => NumberModel::PosInt(*n),
            JsonNumber::NegInt(n) => NumberModel::NegInt(*n),
            JsonNumber::Float(s) => NumberModel::Float(s@),
        }
    }
}

/// The models of a sequence of values.
pub open spec fn models(vs: Seq<JsonValue>) -> Seq<JModel>
    decreases vs,
{
    Seq::new(vs.len(), |i: int| if 0 <= i < vs.len() { vs[i].model() } else { JModel::Null })
}

/// The models of a sequence of object members.
pub open spec fn member_models(ms: Seq<(String, JsonValue)>) -> Seq<(Seq<char>, JModel)>
    decreases ms,
{
    Seq::new(
        ms.len(),
        |i: int| if 0 <= i < ms.len() { (ms[i].0@, ms[i].1.model()) } else { (Seq::empty(), JModel::Null) },
    )
}

impl JsonValue {
    /// The model of this value.
    pub open spec fn model(&self) -> JModel
        decreases self,
    {
        match self {
            JsonValue::Null => JModel::Null,
            JsonValue::Bool(b) => JModel::Bool(*b),
            JsonValue::Number(n) => JModel::Number(n.model()),
            JsonValue::String(s) => JModel::Str(s@),
            JsonValue::Array(v) => JModel::Array(models(v@)),
            JsonValue::Object(m) => JModel::Object(member_models(m@)),
        }
    }
}

} // verus!

verus! {

impl View for JsonValue {
    type V = JModel;

    open spec fn view(&self) -> JModel {
        self.model()
    }
}

impl Clone for JsonNumber {
    fn clone(&self) -> (res: Self)
        ensures
            res.model() == self.model(),
    {
        match self {
            JsonNumber::PosInt(n) => JsonNumber::PosInt(*n),
            JsonNumber::NegInt(n) => JsonNumber::NegInt(*n),
            JsonNumber::Float(s) => JsonNumber::Float(s.clone()),
        }
    }
}

impl Clone for JsonValue {
    #[verifier::loop_isolation(false)]
    fn clone(&self) -> (res: Self)
        ensures
            res@ == self@,
        decreases self,
    {
        match self {
            JsonValue::Null => JsonValue::Null,
            JsonValue::Bool(b) => JsonValue::Bool(*b),
            JsonValue::Number(n) => JsonValue::Number(n.clone()),
            JsonValue::String(s) => JsonValue::String(s.clone()),
            JsonValue::Array(items) => {
                let mut out: Vec<JsonValue> = Vec::new();
                let mut i: usize = 0;
                while i < items.len()
                    invariant
                        i <= items@.len(),
                        out@.len() == i,
                        forall|j: int| 0 <= j < i ==> #[trigger] out@[j].model() == items@[j].model(),
                    decreases items@.len() - i,
                {
                    assert(decreases_to!(self => items@[i as int]));
                    let item = items[i].clone();
                    out.push(item);
                    i = i + 1;
                }
                assert forall|j: int| 0 <= j < out@.len() implies #[trigger] models(out@)[j] == models(
                    items@,
                )[j] by {
                    assert(out@[j].model() == items@[j].model());
                }
                assert(models(out@) =~= models(items@));
                JsonValue::Array(out)
            },
            JsonValue::Object(members) => {
                let mut out: Vec<(String, JsonValue)> = Vec::new();
                let mut i: usize = 0;
                while i < members.len()
                    invariant
                        i <= members@.len(),
                        out@.len() == i,
                        forall|j: int|
                            0 <= j < i ==> #[trigger] out@[j].0@ == members@[j].0@ && out@[j].1.model()
                                == members@[j].1.model(),
                    decreases members@.len() - i,
                {
                    assert(decreases_to!(self => members@[i as int].1));
                    let key = members[i].0.clone();
                    let value = members[i].1.clone();
                    out.push((key, value));
                    i = i + 1;
                }
                assert(member_models(out@) =~= member_models(members@));
                JsonValue::Object(out)
            },
        }
    }
}

} // verus!

verus! {

/// One step of a path into a JSON document: an array index or an object key.
#[derive(Debug)]
pub enum By {
    Index(usize),
    Key(String),
}

/// Model of a path step.
pub enum PathStep {
    Index(usize),
    Key(Seq<char>),
}

impl View for By {
    type V = PathStep;

    open spec fn view(&self) -> PathStep {
        match self {
            By::Index(i) => PathStep::Index(*i),
            By::Key(k) => PathStep::Key(k@),
        }
    }
}

impl Clone for By {
    fn clone(&self) -> (res: Self)
        ensures
            res@ == self@,
    {
        match self {
            By::Index(i) => By::Index(*i),
            By::Key(k) => By::Key(k.clone()),
        }
    }
}

/// How a path step is rendered: `.` and the quoted key, or the index in brackets.
pub open spec fn step_text(step: PathStep) -> Seq<char> {
    match step {
        PathStep::Key(k) => seq!['.'] + debug_quoted(k),
        PathStep::Index(i) => seq!['['] + dec(i as nat) + seq![']'],
    }
}

impl By {
    /// A step into the member `key` of an object.
    pub fn key(key: &str) -> (res: By)
        ensures
            res@ == PathStep::Key(key@),
    {
        By::Key(String::from_str(key))
    }

    /// A step into the element `index` of an array.
    pub fn index(index: usize) -> (res: By)
        ensures
            res@ == PathStep::Index(index),
    {
        By::Index(index)
    }

    /// Appends the rendering of this step to `out`.
    pub fn push_text(&self, out: &mut Vec<char>)
        ensures
            final(out)@ == old(out)@ + step_text(self@),
    {
        match self {
            By::Key(k) => {
                out.push('.');
                let quoted = debug_quote(k.as_str());
                push_str(out, quoted.as_str());
            },
            By::Index(i) => {
                out.push('[');
                push_decimal(*i as u128, out);
                out.push(']');
            },
        }
    }

    /// The rendering of this step, e.g. `."title"` or `[1]`.
    pub fn to_text(&self) -> (res: String)
        ensures
            res@ == step_text(self@),
    {
        let mut out: Vec<char> = Vec::new();
        self.push_text(&mut out);
        assert(out@ =~= step_text(self@));
        string_from_chars(&out)
    }
}

/// Where a document came from: a file or a name given by the caller.
#[derive(Debug)]
pub enum JsonSource {
    FilePath(String),
    Name(String),
}

/// Model of a document source.
pub enum SourceModel {
    FilePath(Seq<char>),
    Name(Seq<char>),
}

impl View for JsonSource {
    type V = SourceModel;

    open spec fn view(&self) -> SourceModel {
        match self {
            JsonSource::FilePath(p) => SourceModel::FilePath(p@),
            JsonSource::Name(n) => SourceModel::Name(n@),
        }
    }
}

impl Clone for JsonSource {
    fn clone(&self) -> (res: Self)
        ensures
            res@ == self@,
    {
        match self {
            JsonSource::FilePath(p) => JsonSource::FilePath(p.clone()),
            JsonSource::Name(n) => JsonSource::Name(n.clone()),
        }
    }
}

/// A source is rendered as its quoted path (as a file path is) or its quoted
/// name (as a string is).
pub open spec fn source_text(src: SourceModel) -> Seq<char> {
    match src {
        SourceModel::FilePath(p) => path_debug_quoted(p),
        SourceModel::Name(n) => debug_quoted(n),
    }
}

impl JsonSource {
    /// The rendering of this source, e.g. `"test_data/sample.json"`.
    pub fn to_text(&self) -> (res: String)
        ensures
            res@ == source_text(self@),
    {
        match self {
            JsonSource::FilePath(p) => path_debug_quote(p.as_str()),
            JsonSource::Name(n) => debug_quote(n.as_str()),
        }
    }
}

/// Model of a path: its source and its steps from the root.
pub struct PathModel {
    pub src: SourceModel,
    pub items: Seq<PathStep>,
}

/// The position of a value in a document: the document's source and the
/// steps that lead from its root to the value.
#[derive(Debug)]
pub struct JsonPath {
    pub src: JsonSource,
    pub items: Vec<By>,
}

/// The models of a sequence of path steps.
pub open spec fn steps_of(items: Seq<By>) -> Seq<PathStep> {
    items.map_values(|b: By| b@)
}

impl View for JsonPath {
    type V = PathModel;

    open spec fn view(&self) -> PathModel {
        PathModel { src: self.src@, items: steps_of(self.items@) }
    }
}

/// The steps of a path, rendered one after the other.
pub open spec fn steps_text(steps: Seq<PathStep>) -> Seq<char>
    decreases steps.len(),
{
    if steps.len() == 0 {
        Seq::empty()
    } else {
        steps_text(steps.drop_last()) + step_text(steps.last())
    }
}

/// A path is rendered as its source followed by its steps.
pub open spec fn path_text(p: PathModel) -> Seq<char> {
    source_text(p.src) + steps_text(p.items)
}

/// The path extended by one more step.
pub open spec fn path_push(p: PathModel, step: PathStep) -> PathModel {
    PathModel { src: p.src, items: p.items.push(step) }
}

fn clone_steps(items: &Vec<By>) -> (res: Vec<By>)
    ensures
        steps_of(res@) == steps_of(items@),
{
    let mut out: Vec<By> = Vec::new();
    let mut i: usize = 0;
    while i < items.len()
        invariant
            i <= items@.len(),
            out@.len() == i,
            forall|j: int| 0 <= j < i ==> #[trigger] out@[j]@ == items@[j]@,
        decreases items@.len() - i,
    {
        out.push(items[i].clone());
        i = i + 1;
    }
    assert(steps_of(out@) =~= steps_of(items@));
    out
}

impl Clone for JsonPath {
    fn clone(&self) -> (res: Self)
        ensures
            res@ == self@,
    {
        JsonPath { src: self.src.clone(), items: clone_steps(&self.items) }
    }
}

impl JsonPath {
    /// The path of the root of a document.
    pub fn new(src: JsonSource) -> (res: Self)
        ensures
            res@ == (PathModel { src: src@, items: Seq::empty() }),
    {
        let res = JsonPath { src, items: Vec::new() };
        assert(steps_of(res.items@) =~= Seq::<PathStep>::empty());
        res
    }

    /// This path extended by `path_item`; the path itself is unchanged.
    pub fn add(&self, path_item: By) -> (res: Self)
        ensures
            res@ == path_push(self@, path_item@),
    {
        let mut items = clone_steps(&self.items);
        let ghost before = items@;
        items.push(path_item);
        assert(steps_of(items@) =~= steps_of(before).push(path_item@));
        JsonPath { src: self.src.clone(), items }
    }

    /// The rendering of this path, e.g. `"sample.json"."breadcrumbs"[1]`.
    pub fn to_text(&self) -> (res: String)
        ensures
            res@ == path_text(self@),
    {
        let mut out: Vec<char> = Vec::new();
        let src = self.src.to_text();
        push_str(&mut out, src.as_str());
        let mut i: usize = 0;
        while i < self.items.len()
            invariant
                i <= self.items@.len(),
                out@ == source_text(self@.src) + steps_text(steps_of(self.items@).take(i as int)),
            decreases self.items@.len() - i,
        {
            let ghost before = out@;
            self.items[i].push_text(&mut out);
            proof {
                let st = steps_of(self.items@);
                assert(st.take(i + 1).drop_last() =~= st.take(i as int));
                assert(st.take(i + 1).last() == self.items@[i as int]@);
            }
            i = i + 1;
            assert(out@ =~= source_text(self@.src) + steps_text(steps_of(self.items@).take(i as int)));
        }
        assert(steps_of(self.items@).take(i as int) =~= steps_of(self.items@));
        string_from_chars(&out)
    }
}

} // verus!

verus! {

/// The primitive integer types that the typed accessors convert to.
#[derive(Clone, Copy, PartialEq, Eq, Structural, Debug)]
pub enum IntKind {
    U64,
    Usize,
    U32,
    U16,
    U8,
    I64,
    Isize,
    I32,
    I16,
    I8,
}

/// Whether values of `k` may be negative.
pub open spec fn is_signed(k: IntKind) -> bool {
    match k {
        IntKind::I64 | IntKind::Isize | IntKind::I32 | IntKind::I16 | IntKind::I8 => true,
        _ => false,
    }
}

/// Whether `v` is a value of the integer type `k`.
pub open spec fn fits(k: IntKind, v: int) -> bool {
    match k {
        IntKind::U64 => 0 <= v <= u64::MAX,
        IntKind::Usize => 0 <= v <= usize::MAX,
        IntKind::U32 => 0 <= v <= u32::MAX,
        IntKind::U16 => 0 <= v <= u16::MAX,
        IntKind::U8 => 0 <= v <= u8::MAX,
        IntKind::I64 => i64::MIN <= v <= i64::MAX,
        IntKind::Isize => isize::MIN <= v <= isize::MAX,
        IntKind::I32 => i32::MIN <= v <= i32::MAX,
        IntKind::I16 => i16::MIN <= v <= i16::MAX,
        IntKind::I8 => i8::MIN <= v <= i8::MAX,
    }
}

/// The 64-bit type through which a number is read before it is narrowed to `k`.
pub open spec fn wide_kind(k: IntKind) -> IntKind {
    if is_signed(k) {
        IntKind::I64
    } else {
        IntKind::U64
    }
}

/// What an accessor expected to find.
#[derive(Clone, Copy, PartialEq, Eq, Structural, Debug)]
pub enum Expected {
    Text,
    Array,
    Object,
    Null,
    Bool,
    Int(IntKind),
    IntOrText(IntKind),
}

/// Model of an accessor's error.
pub enum ErrModel {
    NotFound { path: PathModel, step: PathStep, value: JModel },
    Mismatch { path: PathModel, expected: Expected, value: JModel },
    OutOfRange { path: PathModel, kind: IntKind, number: NumberModel },
}

/// Why an access failed. `NotFound`: the step leads nowhere from `value`.
/// `Mismatch`: `value` is not of the expected kind. `OutOfRange`: `number` is
/// not a value of the expected integer type.
#[derive(Debug)]
pub enum JsonError {
    NotFound { path: JsonPath, step: By, value: JsonValue },
    Mismatch { path: JsonPath, expected: Expected, value: JsonValue },
    OutOfRange { path: JsonPath, kind: IntKind, number: JsonNumber },
}

impl View for JsonError {
    type V = ErrModel;

    open spec fn view(&self) -> ErrModel {
        match self {
            JsonError::NotFound { path, step, value } => ErrModel::NotFound {
                path: path@,
                step: step@,
                value: value@,
            },
            JsonError::Mismatch { path, expected, value } => ErrModel::Mismatch {
                path: path@,
                expected: *expected,
                value: value@,
            },
            JsonError::OutOfRange { path, kind, number } => ErrModel::OutOfRange {
                path: path@,
                kind: *kind,
                number: number.model(),
            },
        }
    }
}

/// A value of a document together with its position in that document.
#[derive(Debug)]
pub struct Json {
    pub value: JsonValue,
    pub path: JsonPath,
}

impl Clone for Json {
    fn clone(&self) -> (res: Self)
        ensures
            res.value@ == self.value@,
            res.path@ == self.path@,
    {
        Json { value: self.value.clone(), path: self.path.clone() }
    }
}

/// The value of the first member of `members` named `key`.
pub open spec fn lookup_key(members: Seq<(Seq<char>, JModel)>, key: Seq<char>) -> Option<JModel>
    decreases members.len(),
{
    if members.len() == 0 {
        None
    } else if members[0].0 == key {
        Some(members[0].1)
    } else {
        lookup_key(members.drop_first(), key)
    }
}

/// Where one step leads from a value: a member of an object, an element of
/// an array, or nowhere.
pub open spec fn step_value(v: JModel, step: PathStep) -> Option<JModel> {
    match step {
        PathStep::Key(k) => match v {
            JModel::Object(members) => lookup_key(members, k),
            _ => None,
        },
        PathStep::Index(i) => match v {
            JModel::Array(items) => if i < items.len() {
                Some(items[i as int])
            } else {
                None
            },
            _ => None,
        },
    }
}

/// Following `steps` from `v` at `path`, one after the other: the position and
/// value reached, or the first step that leads nowhere.
pub open spec fn follow(path: PathModel, v: JModel, steps: Seq<PathStep>) -> Result<
    (PathModel, JModel),
    ErrModel,
>
    decreases steps.len(),
{
    if steps.len() == 0 {
        Ok((path, v))
    } else {
        match follow(path, v, steps.drop_last()) {
            Ok((p, w)) => match step_value(w, steps.last()) {
                Some(u) => Ok((path_push(p, steps.last()), u)),
                None => Err(ErrModel::NotFound { path: p, step: steps.last(), value: w }),
            },
            Err(e) => Err(e),
        }
    }
}

/// The number as read through `u64`, if it is one.
pub open spec fn number_as_u64(n: NumberModel) -> Option<int> {
    match n {
        NumberModel::PosInt(v) => Some(v as int),
        _ => None,
    }
}

/// The number as read through `i64`, if it is one.
pub open spec fn number_as_i64(n: NumberModel) -> Option<int> {
    match n {
        NumberModel::PosInt(v) => if v <= i64::MAX {
            Some(v as int)
        } else {
            None
        },
        NumberModel::NegInt(v) => Some(v as int),
        _ => None,
    }
}

/// The number read through the 64-bit type of `k`'s signedness.
pub open spec fn number_as_wide(n: NumberModel, k: IntKind) -> Option<int> {
    if is_signed(k) {
        number_as_i64(n)
    } else {
        number_as_u64(n)
    }
}

/// What `as_<k>` gives for value `v` at `path`: the number, when it is an
/// integer of `k`; otherwise the error naming the type that rejected it.
pub open spec fn spec_as_int(path: PathModel, v: JModel, k: IntKind) -> Result<int, ErrModel> {
    match v {
        JModel::Number(n) => match number_as_wide(n, k) {
            Some(x) => if fits(k, x) {
                Ok(x)
            } else {
                Err(ErrModel::OutOfRange { path, kind: k, number: n })
            },
            None => Err(ErrModel::OutOfRange { path, kind: wide_kind(k), number: n }),
        },
        _ => Err(ErrModel::Mismatch { path, expected: Expected::Int(wide_kind(k)), value: v }),
    }
}

/// What `parse_as_<k>` gives for value `v` at `path`: as `as_<k>` for numbers,
/// and for strings the integer they spell, when it is a value of `k`.
pub open spec fn spec_parse_as_int(path: PathModel, v: JModel, k: IntKind) -> Result<int, ErrModel> {
    match v {
        JModel::Number(n) => match number_as_wide(n, k) {
            Some(x) => if fits(k, x) {
                Ok(x)
            } else {
                Err(ErrModel::OutOfRange { path, kind: k, number: n })
            },
            None => Err(ErrModel::OutOfRange { path, kind: k, number: n }),
        },
        JModel::Str(s) => match int_text(s, is_signed(k)) {
            Some(x) => if fits(k, x) {
                Ok(x)
            } else {
                Err(ErrModel::Mismatch { path, expected: Expected::IntOrText(k), value: v })
            },
            None => Err(ErrModel::Mismatch { path, expected: Expected::IntOrText(k), value: v }),
        },
        _ => Err(ErrModel::Mismatch { path, expected: Expected::IntOrText(k), value: v }),
    }
}

} // verus!

verus! {

/// The value of the first member of `members` named `key`.
fn find_member<'a>(members: &'a Vec<(String, JsonValue)>, key: &String) -> (res: Option<
    &'a JsonValue,
>)
    ensures
        match res {
            Some(v) => lookup_key(member_models(members@), key@) == Some(v@),
            None => lookup_key(member_models(members@), key@) is None,
        },
{
    let ghost ms = member_models(members@);
    assert(ms.skip(0) =~= ms);
    let mut i: usize = 0;
    while i < members.len()
        invariant
            i <= members@.len(),
            ms == member_models(members@),
            lookup_key(ms, key@) == lookup_key(ms.skip(i as int), key@),
        decreases members@.len() - i,
    {
        assert(ms.skip(i as int)[0] == ms[i as int]);
        if members[i].0 == *key {
            return Some(&members[i].1);
        }
        assert(ms.skip(i as int).drop_first() =~= ms.skip(i + 1));
        i = i + 1;
    }
    None
}

/// `a` comes before `b` when their characters are compared by code point, one
/// after the other, a proper prefix coming first (the order of `String`, by
/// which a parsed document keeps an object's members).
pub open spec fn key_lt(a: Seq<char>, b: Seq<char>) -> bool
    decreases a.len(),
{
    if a.len() == 0 {
        b.len() > 0
    } else if b.len() == 0 {
        false
    } else if a[0] != b[0] {
        (a[0] as int) < (b[0] as int)
    } else {
        key_lt(a.drop_first(), b.drop_first())
    }
}

/// Every object in the value lists its members by strictly ascending keys, as
/// the objects of a parsed document do: each key occurs once.
pub open spec fn json_wf(v: JModel) -> bool
    decreases v,
{
    match v {
        JModel::Array(items) => forall|i: int| 0 <= i < items.len() ==> json_wf(#[trigger] items[i]),
        JModel::Object(members) => {
            &&& forall|i: int, j: int|
                0 <= i < j < members.len() ==> key_lt(#[trigger] members[i].0, #[trigger] members[j].0)
            &&& forall|i: int| 0 <= i < members.len() ==> json_wf(#[trigger] members[i].1)
        },
        _ => true,
    }
}

/// What `json_wf` says of an array and of an object, spelled out.
proof fn lemma_json_wf_unfold(v: JModel)
    ensures
        v matches JModel::Array(items) ==> (json_wf(v) <==> forall|i: int|
            0 <= i < items.len() ==> json_wf(#[trigger] items[i])),
        v matches JModel::Object(members) ==> (json_wf(v) <==> (forall|i: int, j: int|
            0 <= i < j < members.len() ==> key_lt(#[trigger] members[i].0, #[trigger] members[j].0))
            && forall|i: int| 0 <= i < members.len() ==> json_wf(#[trigger] members[i].1)),
{
    match v {
        JModel::Array(items) => {
            assert(decreases_to!(v => v->Array_0));
            assert forall|i: int| 0 <= i < items.len() implies decreases_to!(v => #[trigger] items[i]) by {
                assert(decreases_to!(v => v->Array_0));
                assert(decreases_to!(items => items[i]));
            }
        },
        JModel::Object(members) => {
            assert forall|i: int| 0 <= i < members.len() implies decreases_to!(
                v => #[trigger] members[i].1
            ) by {
                assert(decreases_to!(v => v->Object_0));
                assert(decreases_to!(members => members[i]));
                assert(decreases_to!(members[i] => members[i].1));
            }
        },
        _ => {},
    }
}

/// What `json_wf` says of an array, spelled out.
proof fn lemma_array_wf(items: Seq<JModel>)
    ensures
        json_wf(JModel::Array(items)) <==> forall|i: int|
            0 <= i < items.len() ==> json_wf(#[trigger] items[i]),
{
    lemma_json_wf_unfold(JModel::Array(items));
}

/// What `json_wf` says of an object, spelled out.
proof fn lemma_object_wf(members: Seq<(Seq<char>, JModel)>)
    ensures
        json_wf(JModel::Object(members)) <==> (forall|i: int, j: int|
            0 <= i < j < members.len() ==> key_lt(#[trigger] members[i].0, #[trigger] members[j].0))
            && forall|i: int| 0 <= i < members.len() ==> json_wf(#[trigger] members[i].1),
{
    lemma_json_wf_unfold(JModel::Object(members));
}

/// No key comes before itself.
proof fn lemma_key_lt_irreflexive(a: Seq<char>)
    ensures
        !key_lt(a, a),
    decreases a.len(),
{
    if a.len() > 0 {
        lemma_key_lt_irreflexive(a.drop_first());
    }
}

/// The order of keys is transitive.
proof fn lemma_key_lt_transitive(a: Seq<char>, b: Seq<char>, c: Seq<char>)
    requires
        key_lt(a, b),
        key_lt(b, c),
    ensures
        key_lt(a, c),
    decreases a.len(),
{
    if a.len() > 0 && b.len() > 0 && c.len() > 0 && a[0] == b[0] && b[0] == c[0] {
        lemma_key_lt_transitive(a.drop_first(), b.drop_first(), c.drop_first());
    }
}

/// Whether `a` comes before `b` in the order of keys.
pub fn key_less(a: &str, b: &str) -> (res: bool)
    ensures
        res == key_lt(a@, b@),
{
    let x = to_chars(a);
    let y = to_chars(b);
    let mut i: usize = 0;
    assert(x@.skip(0) =~= x@);
    assert(y@.skip(0) =~= y@);
    while i < x.len() && i < y.len() && x[i] == y[i]
        invariant
            i <= x@.len(),
            i <= y@.len(),
            x@ == a@,
            y@ == b@,
            key_lt(a@, b@) == key_lt(x@.skip(i as int), y@.skip(i as int)),
        decreases x@.len() - i,
    {
        assert(x@.skip(i as int).drop_first() =~= x@.skip(i + 1));
        assert(y@.skip(i as int).drop_first() =~= y@.skip(i + 1));
        i = i + 1;
    }
    if i == x.len() {
        i < y.len()
    } else if i == y.len() {
        false
    } else {
        assert(x@.skip(i as int)[0] == x@[i as int]);
        assert(y@.skip(i as int)[0] == y@[i as int]);
        x[i] < y[i]
    }
}

impl JsonValue {
    /// Whether every object in this value lists its members by strictly
    /// ascending keys (see `json_wf`).
    #[verifier::loop_isolation(false)]
    pub fn is_wf(&self) -> (res: bool)
        ensures
            res == json_wf(self@),
        decreases self,
    {
        match self {
            JsonValue::Array(items) => {
                let ghost ms = models(items@);
                let mut i: usize = 0;
                while i < items.len()
                    invariant
                        i <= items@.len(),
                        ms == models(items@),
                        forall|j: int| 0 <= j < i ==> json_wf(#[trigger] ms[j]),
                    decreases items@.len() - i,
                {
                    assert(decreases_to!(self => items@[i as int])) by {
                        assert(decreases_to!(self => *items));
                        assert(decreases_to!(*items => items@));
                        assert(decreases_to!(items@ => items@[i as int]));
                    }
                    if !items[i].is_wf() {
                        assert(ms[i as int] == items@[i as int]@);
                        assert(self@ == JModel::Array(ms));
                        assert(!json_wf(ms[i as int]));
                        proof {
                            lemma_array_wf(ms);
                        }
                        return false;
                    }
                    i = i + 1;
                }
                proof {
                    lemma_array_wf(ms);
                }
                true
            },
            JsonValue::Object(members) => {
                let ghost ms = member_models(members@);
                let mut i: usize = 0;
                while i < members.len()
                    invariant
                        i <= members@.len(),
                        ms == member_models(members@),
                        forall|j: int| 0 <= j < i ==> json_wf(#[trigger] ms[j].1),
                        forall|a: int, b: int|
                            0 <= a < b < i ==> key_lt(#[trigger] ms[a].0, #[trigger] ms[b].0),
                    decreases members@.len() - i,
                {
                    assert(decreases_to!(self => members@[i as int].1)) by {
                        assert(decreases_to!(self => *members));
                        assert(decreases_to!(*members => members@));
                        assert(decreases_to!(members@ => members@[i as int]));
                        assert(decreases_to!(members@[i as int] => members@[i as int].1));
                    }
                    if !members[i].1.is_wf() {
                        assert(ms[i as int].1 == members@[i as int].1@);
                        assert(self@ == JModel::Object(ms));
                        assert(!json_wf(ms[i as int].1));
                        proof {
                            lemma_object_wf(ms);
                        }
                        return false;
                    }
                    if i > 0 {
                        if !key_less(members[i - 1].0.as_str(), members[i].0.as_str()) {
                            assert(ms[i - 1].0 == members@[i - 1].0@);
                            assert(ms[i as int].0 == members@[i as int].0@);
                            assert(self@ == JModel::Object(ms));
                            assert(!key_lt(ms[i - 1].0, ms[i as int].0));
                            proof {
                                lemma_object_wf(ms);
                            }
                            return false;
                        }
                        assert forall|a: int, b: int| 0 <= a < b < i + 1 implies key_lt(
                            #[trigger] ms[a].0,
                            #[trigger] ms[b].0,
                        ) by {
                            if b == i && a < i - 1 {
                                lemma_key_lt_transitive(ms[a].0, ms[i - 1].0, ms[b].0);
                            }
                        }
                    }
                    i = i + 1;
                }
                proof {
                    lemma_object_wf(ms);
                }
                true
            },
            _ => true,
        }
    }
}

/// Where a step leads from a well-formed value is well-formed.
proof fn lemma_step_keeps_wf(v: JModel, step: PathStep)
    requires
        json_wf(v),
    ensures
        step_value(v, step) matches Some(w) ==> json_wf(w),
{
    match v {
        JModel::Array(items) => lemma_array_wf(items),
        JModel::Object(members) => lemma_object_wf(members),
        _ => {},
    }
    if let PathStep::Key(k) = step {
        if let JModel::Object(members) = v {
            lemma_lookup_key(members, k);
        }
    }
}

/// Every value reached from a well-formed value is well-formed.
pub proof fn law_follow_keeps_wf(path: PathModel, v: JModel, steps: Seq<PathStep>)
    requires
        json_wf(v),
    ensures
        follow(path, v, steps) matches Ok((p, w)) ==> json_wf(w),
    decreases steps.len(),
{
    if steps.len() > 0 {
        law_follow_keeps_wf(path, v, steps.drop_last());
        if let Ok((p, w)) = follow(path, v, steps.drop_last()) {
            lemma_step_keeps_wf(w, steps.last());
        }
    }
}

/// In a well-formed object, looking up the key of any member finds that very
/// member: no other member has its key.
pub proof fn law_wf_object_lookup(members: Seq<(Seq<char>, JModel)>, i: int)
    requires
        json_wf(JModel::Object(members)),
        0 <= i < members.len(),
    ensures
        lookup_key(members, members[i].0) == Some(members[i].1),
{
    let key = members[i].0;
    lemma_lookup_key(members, key);
    let w = lookup_key(members, key)->0;
    let j = choose|j: int|
        0 <= j < members.len() && #[trigger] members[j].0 == key && members[j].1 == w
            && forall|k: int| 0 <= k < j ==> #[trigger] members[k].0 != key;
    lemma_object_wf(members);
    if j < i {
        assert(key_lt(members[j].0, members[i].0));
        lemma_key_lt_irreflexive(key);
    }
}

impl Json {
    /// The root of a document with the given source.
    pub fn new(value: JsonValue, src: JsonSource) -> (res: Self)
        requires
            json_wf(value@),
        ensures
            res.value@ == value@,
            res.path@ == (PathModel { src: src@, items: Seq::empty() }),
    {
        Json { value, path: JsonPath::new(src) }
    }

    fn get_by_path_item(&self, path_item: &By) -> (res: Result<Json, JsonError>)
        ensures
            match res {
                Ok(j) => step_value(self.value@, path_item@) == Some(j.value@) && j.path@
                    == path_push(self.path@, path_item@),
                Err(e) => step_value(self.value@, path_item@) is None && e@ == (ErrModel::NotFound {
                    path: self.path@,
                    step: path_item@,
                    value: self.value@,
                }),
            },
    {
        let found: Option<&JsonValue> = match path_item {
            By::Key(key) => match &self.value {
                JsonValue::Object(members) => find_member(members, key),
                _ => None,
            },
            By::Index(index) => match &self.value {
                JsonValue::Array(items) => {
                    if *index < items.len() {
                        Some(&items[*index])
                    } else {
                        None
                    }
                },
                _ => None,
            },
        };
        match found {
            Some(value) => Ok(Json { value: value.clone(), path: self.path.add(path_item.clone()) }),
            None => Err(
                JsonError::NotFound {
                    path: self.path.clone(),
                    step: path_item.clone(),
                    value: self.value.clone(),
                },
            ),
        }
    }

    /// The value reached from this one by following `path_items` in order,
    /// or the error of the first step that leads nowhere.
    pub fn get(&self, path_items: &[By]) -> (res: Result<Json, JsonError>)
        ensures
            match res {
                Ok(j) => follow(self.path@, self.value@, steps_of(path_items@)) == Ok::<
                    (PathModel, JModel),
                    ErrModel,
                >((j.path@, j.value@)),
                Err(e) => follow(self.path@, self.value@, steps_of(path_items@)) == Err::<
                    (PathModel, JModel),
                    ErrModel,
                >(e@),
            },
            json_wf(self.value@) ==> (res matches Ok(j) ==> json_wf(j.value@)),
    {
        let ghost steps = steps_of(path_items@);
        let mut ret = self.clone();
        let mut i: usize = 0;
        while i < path_items.len()
            invariant
                i <= path_items@.len(),
                steps == steps_of(path_items@),
                follow(self.path@, self.value@, steps.take(i as int)) == Ok::<
                    (PathModel, JModel),
                    ErrModel,
                >((ret.path@, ret.value@)),
            decreases path_items@.len() - i,
        {
            assert(steps.take(i + 1).drop_last() =~= steps.take(i as int));
            assert(steps.take(i + 1).last() == path_items@[i as int]@);
            match ret.get_by_path_item(&path_items[i]) {
                Ok(next) => {
                    ret = next;
                },
                Err(e) => {
                    proof {
                        lemma_follow_err_extends(self.path@, self.value@, steps, i + 1);
                    }
                    return Err(e);
                },
            }
            i = i + 1;
        }
        assert(steps.take(i as int) =~= steps);
        proof {
            if json_wf(self.value@) {
                law_follow_keeps_wf(self.path@, self.value@, steps);
            }
        }
        Ok(ret)
    }
}

/// Once a step leads nowhere, so does every longer walk along the same steps.
proof fn lemma_follow_err_extends(path: PathModel, v: JModel, steps: Seq<PathStep>, k: int)
    requires
        0 <= k <= steps.len(),
        follow(path, v, steps.take(k)) is Err,
    ensures
        follow(path, v, steps) == follow(path, v, steps.take(k)),
    decreases steps.len() - k,
{
    if k < steps.len() {
        assert(steps.take(k + 1).drop_last() =~= steps.take(k));
        lemma_follow_err_extends(path, v, steps, k + 1);
    } else {
        assert(steps.take(k) =~= steps);
    }
}

} // verus!

verus! {

/// The name of an integer type, e.g. `u16`.
pub open spec fn kind_name(k: IntKind) -> Seq<char> {
    match k {
        IntKind::U64 => "u64"@,
        IntKind::Usize => "usize"@,
        IntKind::U32 => "u32"@,
        IntKind::U16 => "u16"@,
        IntKind::U8 => "u8"@,
        IntKind::I64 => "i64"@,
        IntKind::Isize => "isize"@,
        IntKind::I32 => "i32"@,
        IntKind::I16 => "i16"@,
        IntKind::I8 => "i8"@,
    }
}

/// How an expectation is phrased in an error message.
pub open spec fn expected_text(e: Expected) -> Seq<char> {
    match e {
        Expected::Text => "a String"@,
        Expected::Array => "an Array"@,
        Expected::Object => "an Object"@,
        Expected::Null => "a Null"@,
        Expected::Bool => "a Bool"@,
        Expected::Int(k) => "a "@ + kind_name(k),
        Expected::IntOrText(k) => "a "@ + kind_name(k) + " or String parseable to "@ + kind_name(k),
    }
}

/// How a number is written: its decimal digits, or the text of a float.
pub open spec fn number_text(n: NumberModel) -> Seq<char> {
    match n {
        NumberModel::PosInt(v) => dec(v as nat),
        NumberModel::NegInt(v) => if v < 0 {
            seq!['-'] + dec((-v) as nat)
        } else {
            dec(v as nat)
        },
        NumberModel::Float(s) => s,
    }
}

/// The message of an error, given the rendering of the value it carries.
pub open spec fn error_text(e: ErrModel, rendered: Seq<char>) -> Seq<char> {
    match e {
        ErrModel::NotFound { path, step, value } => path_text(path) + ": not found "@ + step_text(step)
            + " at "@ + rendered,
        ErrModel::Mismatch { path, expected, value } => path_text(path) + " expected to be "@
            + expected_text(expected) + ", but: "@ + rendered,
        ErrModel::OutOfRange { path, kind, number } => path_text(path) + " expected to be a "@
            + kind_name(kind) + ", but: "@ + number_text(number),
    }
}

impl IntKind {
    /// Appends the name of this type to `out`.
    pub fn push_name(&self, out: &mut Vec<char>)
        ensures
            final(out)@ == old(out)@ + kind_name(*self),
    {
        match self {
            IntKind::U64 => push_str(out, "u64"),
            IntKind::Usize => push_str(out, "usize"),
            IntKind::U32 => push_str(out, "u32"),
            IntKind::U16 => push_str(out, "u16"),
            IntKind::U8 => push_str(out, "u8"),
            IntKind::I64 => push_str(out, "i64"),
            IntKind::Isize => push_str(out, "isize"),
            IntKind::I32 => push_str(out, "i32"),
            IntKind::I16 => push_str(out, "i16"),
            IntKind::I8 => push_str(out, "i8"),
        }
    }
}

impl Expected {
    /// Appends the phrasing of this expectation to `out`.
    pub fn push_text(&self, out: &mut Vec<char>)
        ensures
            final(out)@ == old(out)@ + expected_text(*self),
    {
        let ghost start = out@;
        match self {
            Expected::Text => push_str(out, "a String"),
            Expected::Array => push_str(out, "an Array"),
            Expected::Object => push_str(out, "an Object"),
            Expected::Null => push_str(out, "a Null"),
            Expected::Bool => push_str(out, "a Bool"),
            Expected::Int(k) => {
                push_str(out, "a ");
                k.push_name(out);
                assert(out@ =~= start + expected_text(*self));
            },
            Expected::IntOrText(k) => {
                push_str(out, "a ");
                k.push_name(out);
                push_str(out, " or String parseable to ");
                k.push_name(out);
                assert(out@ =~= start + expected_text(*self));
            },
        }
    }
}

impl JsonNumber {
    /// Appends how this number is written to `out`.
    pub fn push_text(&self, out: &mut Vec<char>)
        ensures
            final(out)@ == old(out)@ + number_text(self.model()),
    {
        match self {
            JsonNumber::PosInt(v) => push_decimal(*v as u128, out),
            JsonNumber::NegInt(v) => {
                if *v < 0 {
                    out.push('-');
                    let magnitude = (-(*v as i128)) as u128;
                    push_decimal(magnitude, out);
                } else {
                    push_decimal(*v as u128, out);
                }
            },
            JsonNumber::Float(s) => push_str(out, s.as_str()),
        }
    }
}

impl JsonError {
    /// The value an error message shows in full, if it shows one.
    pub fn shown_value(&self) -> (res: Option<&JsonValue>)
        ensures
            match self {
                JsonError::NotFound { value, .. } => res == Some(value),
                JsonError::Mismatch { value, .. } => res == Some(value),
                JsonError::OutOfRange { .. } => res is None,
            },
    {
        match self {
            JsonError::NotFound { value, .. } => Some(value),
            JsonError::Mismatch { value, .. } => Some(value),
            JsonError::OutOfRange { .. } => None,
        }
    }

    /// The message of this error, where `rendered_value` is the pretty-printed
    /// JSON text of the value that `shown_value` returns (unused otherwise).
    pub fn message(&self, rendered_value: &str) -> (res: String)
        ensures
            res@ == error_text(self@, rendered_value@),
    {
        let mut out: Vec<char> = Vec::new();
        match self {
            JsonError::NotFound { path, step, .. } => {
                let p = path.to_text();
                push_str(&mut out, p.as_str());
                push_str(&mut out, ": not found ");
                step.push_text(&mut out);
                push_str(&mut out, " at ");
                push_str(&mut out, rendered_value);
            },
            JsonError::Mismatch { path, expected, .. } => {
                let p = path.to_text();
                push_str(&mut out, p.as_str());
                push_str(&mut out, " expected to be ");
                expected.push_text(&mut out);
                push_str(&mut out, ", but: ");
                push_str(&mut out, rendered_value);
            },
            JsonError::OutOfRange { path, kind, number } => {
                let p = path.to_text();
                push_str(&mut out, p.as_str());
                push_str(&mut out, " expected to be a ");
                kind.push_name(&mut out);
                push_str(&mut out, ", but: ");
                number.push_text(&mut out);
            },
        }
        assert(out@ =~= error_text(self@, rendered_value@));
        string_from_chars(&out)
    }
}

/// Iterates over the members of an object, yielding each key with its value
/// positioned below the object.
pub struct MapIterator<'a> {
    path: &'a JsonPath,
    members: &'a Vec<(String, JsonValue)>,
    pos: usize,
}

impl<'a> MapIterator<'a> {
    /// The position of the object.
    pub closed spec fn path_model(&self) -> PathModel {
        self.path@
    }

    /// The members of the object, in order.
    pub closed spec fn entries(&self) -> Seq<(Seq<char>, JModel)> {
        member_models(self.members@)
    }

    /// How many members have been yielded.
    pub closed spec fn position(&self) -> int {
        self.pos as int
    }

    /// The next member, or `None` once all have been yielded.
    pub fn next(&mut self) -> (res: Option<(&'a str, Json)>)
        ensures
            final(self).path_model() == old(self).path_model(),
            final(self).entries() == old(self).entries(),
            if old(self).position() < old(self).entries().len() {
                &&& final(self).position() == old(self).position() + 1
                &&& res matches Some((key, j)) && {
                    &&& key@ == old(self).entries()[old(self).position()].0
                    &&& j.value@ == old(self).entries()[old(self).position()].1
                    &&& j.path@ == path_push(old(self).path_model(), PathStep::Key(key@))
                }
            } else {
                final(self).position() == old(self).position() && res is None
            },
    {
        let members: &'a Vec<(String, JsonValue)> = self.members;
        if self.pos < members.len() {
            let pos = self.pos;
            let key: &'a str = members[pos].0.as_str();
            let path: &'a JsonPath = self.path;
            let value = Json { value: members[pos].1.clone(), path: path.add(By::key(key)) };
            self.pos = pos + 1;
            Some((key, value))
        } else {
            None
        }
    }
}

/// Iterates over the elements of an array, yielding each with its position
/// below the array.
pub struct VecIterator<'a> {
    path: &'a JsonPath,
    items: &'a Vec<JsonValue>,
    index: usize,
}

impl<'a> VecIterator<'a> {
    /// The position of the array.
    pub closed spec fn path_model(&self) -> PathModel {
        self.path@
    }

    /// The elements of the array, in order.
    pub closed spec fn elements(&self) -> Seq<JModel> {
        models(self.items@)
    }

    /// How many elements have been yielded.
    pub closed spec fn position(&self) -> int {
        self.index as int
    }

    /// The next element, or `None` once all have been yielded.
    pub fn next(&mut self) -> (res: Option<Json>)
        ensures
            final(self).path_model() == old(self).path_model(),
            final(self).elements() == old(self).elements(),
            if old(self).position() < old(self).elements().len() {
                &&& final(self).position() == old(self).position() + 1
                &&& res matches Some(j) && {
                    &&& j.value@ == old(self).elements()[old(self).position()]
                    &&& j.path@ == path_push(
                        old(self).path_model(),
                        PathStep::Index(old(self).position() as usize),
                    )
                }
            } else {
                final(self).position() == old(self).position() && res is None
            },
    {
        let items: &'a Vec<JsonValue> = self.items;
        if self.index < items.len() {
            let index = self.index;
            let path: &'a JsonPath = self.path;
            let value = Json { value: items[index].clone(), path: path.add(By::index(index)) };
            self.index = index + 1;
            Some(value)
        } else {
            None
        }
    }
}

/// Whether `v` is a value of the integer type `k`.
fn fits_kind(k: IntKind, v: i128) -> (res: bool)
    ensures
        res == fits(k, v as int),
{
    match k {
        IntKind::U64 => 0 <= v && v <= u64::MAX as i128,
        IntKind::Usize => 0 <= v && v <= usize::MAX as i128,
        IntKind::U32 => 0 <= v && v <= u32::MAX as i128,
        IntKind::U16 => 0 <= v && v <= u16::MAX as i128,
        IntKind::U8 => 0 <= v && v <= u8::MAX as i128,
        IntKind::I64 => i64::MIN as i128 <= v && v <= i64::MAX as i128,
        IntKind::Isize => isize::MIN as i128 <= v && v <= isize::MAX as i128,
        IntKind::I32 => i32::MIN as i128 <= v && v <= i32::MAX as i128,
        IntKind::I16 => i16::MIN as i128 <= v && v <= i16::MAX as i128,
        IntKind::I8 => i8::MIN as i128 <= v && v <= i8::MAX as i128,
    }
}

fn is_signed_kind(k: IntKind) -> (res: bool)
    ensures
        res == is_signed(k),
{
    match k {
        IntKind::I64 | IntKind::Isize | IntKind::I32 | IntKind::I16 | IntKind::I8 => true,
        _ => false,
    }
}

fn wide_kind_of(k: IntKind) -> (res: IntKind)
    ensures
        res == wide_kind(k),
{
    if is_signed_kind(k) {
        IntKind::I64
    } else {
        IntKind::U64
    }
}

/// The number read through the 64-bit type of the given signedness.
fn number_wide(n: &JsonNumber, signed: bool) -> (res: Option<i128>)
    ensures
        match res {
            Some(x) => (if signed {
                number_as_i64(n.model())
            } else {
                number_as_u64(n.model())
            }) == Some(x as int),
            None => (if signed {
                number_as_i64(n.model())
            } else {
                number_as_u64(n.model())
            }) is None,
        },
{
    match n {
        JsonNumber::PosInt(v) => {
            if signed && *v > i64::MAX as u64 {
                None
            } else {
                Some(*v as i128)
            }
        },
        JsonNumber::NegInt(v) => {
            if signed {
                Some(*v as i128)
            } else {
                None
            }
        },
        JsonNumber::Float(_) => None,
    }
}

impl Json {
    /// The string this value holds.
    pub fn as_str(&self) -> (res: Result<&str, JsonError>)
        ensures
            match res {
                Ok(s) => self.value@ == JModel::Str(s@),
                Err(e) => !(self.value@ is Str) && e@ == (ErrModel::Mismatch {
                    path: self.path@,
                    expected: Expected::Text,
                    value: self.value@,
                }),
            },
    {
        match &self.value {
            JsonValue::String(s) => Ok(s.as_str()),
            _ => Err(self.mismatch(Expected::Text)),
        }
    }

    /// A copy of the string this value holds.
    pub fn as_string(&self) -> (res: Result<String, JsonError>)
        ensures
            match res {
                Ok(s) => self.value@ == JModel::Str(s@),
                Err(e) => !(self.value@ is Str) && e@ == (ErrModel::Mismatch {
                    path: self.path@,
                    expected: Expected::Text,
                    value: self.value@,
                }),
            },
    {
        let s = self.as_str()?;
        Ok(String::from_str(s))
    }

    /// The elements of the array this value is.
    pub fn as_vec(&self) -> (res: Result<&Vec<JsonValue>, JsonError>)
        ensures
            match res {
                Ok(v) => self.value@ == JModel::Array(models(v@)),
                Err(e) => !(self.value@ is Array) && e@ == (ErrModel::Mismatch {
                    path: self.path@,
                    expected: Expected::Array,
                    value: self.value@,
                }),
            },
    {
        match &self.value {
            JsonValue::Array(v) => Ok(v),
            _ => Err(self.mismatch(Expected::Array)),
        }
    }

    /// The members of the object this value is.
    pub fn as_map(&self) -> (res: Result<&Vec<(String, JsonValue)>, JsonError>)
        ensures
            match res {
                Ok(m) => self.value@ == JModel::Object(member_models(m@)),
                Err(e) => !(self.value@ is Object) && e@ == (ErrModel::Mismatch {
                    path: self.path@,
                    expected: Expected::Object,
                    value: self.value@,
                }),
            },
    {
        match &self.value {
            JsonValue::Object(m) => Ok(m),
            _ => Err(self.mismatch(Expected::Object)),
        }
    }

    /// Succeeds when this value is `null`.
    pub fn as_null(&self) -> (res: Result<(), JsonError>)
        ensures
            match res {
                Ok(_) => self.value@ == JModel::Null,
                Err(e) => !(self.value@ is Null) && e@ == (ErrModel::Mismatch {
                    path: self.path@,
                    expected: Expected::Null,
                    value: self.value@,
                }),
            },
    {
        match &self.value {
            JsonValue::Null => Ok(()),
            _ => Err(self.mismatch(Expected::Null)),
        }
    }

    /// The boolean this value is.
    pub fn as_bool(&self) -> (res: Result<bool, JsonError>)
        ensures
            match res {
                Ok(b) => self.value@ == JModel::Bool(b),
                Err(e) => !(self.value@ is Bool) && e@ == (ErrModel::Mismatch {
                    path: self.path@,
                    expected: Expected::Bool,
                    value: self.value@,
                }),
            },
    {
        match &self.value {
            JsonValue::Bool(b) => Ok(*b),
            _ => Err(self.mismatch(Expected::Bool)),
        }
    }

    /// An iterator over the members of the object this value is.
    pub fn iter_map<'b>(&'b self) -> (res: Result<MapIterator<'b>, JsonError>)
        ensures
            match res {
                Ok(it) => self.value@ == JModel::Object(it.entries()) && it.path_model()
                    == self.path@ && it.position() == 0,
                Err(e) => !(self.value@ is Object) && e@ == (ErrModel::Mismatch {
                    path: self.path@,
                    expected: Expected::Object,
                    value: self.value@,
                }),
            },
    {
        let members = self.as_map()?;
        Ok(MapIterator { path: &self.path, members, pos: 0 })
    }

    /// An iterator over the elements of the array this value is.
    pub fn iter_vec<'b>(&'b self) -> (res: Result<VecIterator<'b>, JsonError>)
        ensures
            match res {
                Ok(it) => self.value@ == JModel::Array(it.elements()) && it.path_model()
                    == self.path@ && it.position() == 0,
                Err(e) => !(self.value@ is Array) && e@ == (ErrModel::Mismatch {
                    path: self.path@,
                    expected: Expected::Array,
                    value: self.value@,
                }),
            },
    {
        let items = self.as_vec()?;
        Ok(VecIterator { path: &self.path, items, index: 0 })
    }

    fn mismatch(&self, expected: Expected) -> (res: JsonError)
        ensures
            res@ == (ErrModel::Mismatch { path: self.path@, expected, value: self.value@ }),
    {
        JsonError::Mismatch { path: self.path.clone(), expected, value: self.value.clone() }
    }

    fn out_of_range(&self, kind: IntKind, number: &JsonNumber) -> (res: JsonError)
        ensures
            res@ == (ErrModel::OutOfRange { path: self.path@, kind, number: number.model() }),
    {
        JsonError::OutOfRange { path: self.path.clone(), kind, number: number.clone() }
    }

    /// The integer this value is, when it is a value of `kind`.
    fn int_value(&self, kind: IntKind) -> (res: Result<i128, JsonError>)
        ensures
            match res {
                Ok(x) => spec_as_int(self.path@, self.value@, kind) == Ok::<int, ErrModel>(x as int),
                Err(e) => spec_as_int(self.path@, self.value@, kind) == Err::<int, ErrModel>(e@),
            },
    {
        match &self.value {
            JsonValue::Number(n) => match number_wide(n, is_signed_kind(kind)) {
                Some(x) => {
                    if fits_kind(kind, x) {
                        Ok(x)
                    } else {
                        Err(self.out_of_range(kind, n))
                    }
                },
                None => Err(self.out_of_range(wide_kind_of(kind), n)),
            },
            _ => Err(self.mismatch(Expected::Int(wide_kind_of(kind)))),
        }
    }

    /// The integer this value is or spells, when it is a value of `kind`.
    fn parsed_int_value(&self, kind: IntKind) -> (res: Result<i128, JsonError>)
        ensures
            match res {
                Ok(x) => spec_parse_as_int(self.path@, self.value@, kind) == Ok::<int, ErrModel>(
                    x as int,
                ),
                Err(e) => spec_parse_as_int(self.path@, self.value@, kind) == Err::<int, ErrModel>(
                    e@,
                ),
            },
    {
        match &self.value {
            JsonValue::Number(n) => match number_wide(n, is_signed_kind(kind)) {
                Some(x) => {
                    if fits_kind(kind, x) {
                        Ok(x)
                    } else {
                        Err(self.out_of_range(kind, n))
                    }
                },
                None => Err(self.out_of_range(kind, n)),
            },
            JsonValue::String(s) => match parse_int_text(s.as_str(), is_signed_kind(kind)) {
                Some(x) => {
                    if fits_kind(kind, x) {
                        Ok(x)
                    } else {
                        Err(self.mismatch(Expected::IntOrText(kind)))
                    }
                },
                None => Err(self.mismatch(Expected::IntOrText(kind))),
            },
            _ => Err(self.mismatch(Expected::IntOrText(kind))),
        }
    }

    /// The number this value is, as a `u64`.
    pub fn as_u64(&self) -> (res: Result<u64, JsonError>)
        ensures
            match res {
                Ok(x) => spec_as_int(self.path@, self.value@, IntKind::U64) == Ok::<int, ErrModel>(x as int),
                Err(e) => spec_as_int(self.path@, self.value@, IntKind::U64) == Err::<int, ErrModel>(e@),
            },
    {
        let x = self.int_value(IntKind::U64)?;
        Ok(x as u64)
    }

    /// The number this value is, or the string spells, as a `u64`.
    pub fn parse_as_u64(&self) -> (res: Result<u64, JsonError>)
        ensures
            match res {
                Ok(x) => spec_parse_as_int(self.path@, self.value@, IntKind::U64) == Ok::<int, ErrModel>(x as int),
                Err(e) => spec_parse_as_int(self.path@, self.value@, IntKind::U64) == Err::<int, ErrModel>(e@),
            },
    {
        let x = self.parsed_int_value(IntKind::U64)?;
        Ok(x as u64)
    }

    /// The number this value is, as a `usize`.
    pub fn as_usize(&self) -> (res: Result<usize, JsonError>)
        ensures
            match res {
                Ok(x) => spec_as_int(self.path@, self.value@, IntKind::Usize) == Ok::<int, ErrModel>(x as int),
                Err(e) => spec_as_int(self.path@, self.value@, IntKind::Usize) == Err::<int, ErrModel>(e@),
            },
    {
        let x = self.int_value(IntKind::Usize)?;
        Ok(x as usize)
    }

    /// The number this value is, or the string spells, as a `usize`.
    pub fn parse_as_usize(&self) -> (res: Result<usize, JsonError>)
        ensures
            match res {
                Ok(x) => spec_parse_as_int(self.path@, self.value@, IntKind::Usize) == Ok::<int, ErrModel>(x as int),
                Err(e) => spec_parse_as_int(self.path@, self.value@, IntKind::Usize) == Err::<int, ErrModel>(e@),
            },
    {
        let x = self.parsed_int_value(IntKind::Usize)?;
        Ok(x as usize)
    }

    /// The number this value is, as a `u32`.
    pub fn as_u32(&self) -> (res: Result<u32, JsonError>)
        ensures
            match res {
                Ok(x) => spec_as_int(self.path@, self.value@, IntKind::U32) == Ok::<int, ErrModel>(x as int),
                Err(e) => spec_as_int(self.path@, self.value@, IntKind::U32) == Err::<int, ErrModel>(e@),
            },
    {
        let x = self.int_value(IntKind::U32)?;
        Ok(x as u32)
    }

    /// The number this value is, or the string spells, as a `u32`.
    pub fn parse_as_u32(&self) -> (res: Result<u32, JsonError>)
        ensures
            match res {
                Ok(x) => spec_parse_as_int(self.path@, self.value@, IntKind::U32) == Ok::<int, ErrModel>(x as int),
                Err(e) => spec_parse_as_int(self.path@, self.value@, IntKind::U32) == Err::<int, ErrModel>(e@),
            },
    {
        let x = self.parsed_int_value(IntKind::U32)?;
        Ok(x as u32)
    }

    /// The number this value is, as a `u16`.
    pub fn as_u16(&self) -> (res: Result<u16, JsonError>)
        ensures
            match res {
                Ok(x) => spec_as_int(self.path@, self.value@, IntKind::U16) == Ok::<int, ErrModel>(x as int),
                Err(e) => spec_as_int(self.path@, self.value@, IntKind::U16) == Err::<int, ErrModel>(e@),
            },
    {
        let x = self.int_value(IntKind::U16)?;
        Ok(x as u16)
    }

    /// The number this value is, or the string spells, as a `u16`.
    pub fn parse_as_u16(&self) -> (res: Result<u16, JsonError>)
        ensures
            match res {
                Ok(x) => spec_parse_as_int(self.path@, self.value@, IntKind::U16) == Ok::<int, ErrModel>(x as int),
                Err(e) => spec_parse_as_int(self.path@, self.value@, IntKind::U16) == Err::<int, ErrModel>(e@),
            },
    {
        let x = self.parsed_int_value(IntKind::U16)?;
        Ok(x as u16)
    }

    /// The number this value is, as a `u8`.
    pub fn as_u8(&self) -> (res: Result<u8, JsonError>)
        ensures
            match res {
                Ok(x) => spec_as_int(self.path@, self.value@, IntKind::U8) == Ok::<int, ErrModel>(x as int),
                Err(e) => spec_as_int(self.path@, self.value@, IntKind::U8) == Err::<int, ErrModel>(e@),
            },
    {
        let x = self.int_value(IntKind::U8)?;
        Ok(x as u8)
    }

    /// The number this value is, or the string spells, as a `u8`.
    pub fn parse_as_u8(&self) -> (res: Result<u8, JsonError>)
        ensures
            match res {
                Ok(x) => spec_parse_as_int(self.path@, self.value@, IntKind::U8) == Ok::<int, ErrModel>(x as int),
                Err(e) => spec_parse_as_int(self.path@, self.value@, IntKind::U8) == Err::<int, ErrModel>(e@),
            },
    {
        let x = self.parsed_int_value(IntKind::U8)?;
        Ok(x as u8)
    }

    /// The number this value is, as a `i64`.
    pub fn as_i64(&self) -> (res: Result<i64, JsonError>)
        ensures
            match res {
                Ok(x) => spec_as_int(self.path@, self.value@, IntKind::I64) == Ok::<int, ErrModel>(x as int),
                Err(e) => spec_as_int(self.path@, self.value@, IntKind::I64) == Err::<int, ErrModel>(e@),
            },
    {
        let x = self.int_value(IntKind::I64)?;
        Ok(x as i64)
    }

    /// The number this value is, or the string spells, as a `i64`.
    pub fn parse_as_i64(&self) -> (res: Result<i64, JsonError>)
        ensures
            match res {
                Ok(x) => spec_parse_as_int(self.path@, self.value@, IntKind::I64) == Ok::<int, ErrModel>(x as int),
                Err(e) => spec_parse_as_int(self.path@, self.value@, IntKind::I64) == Err::<int, ErrModel>(e@),
            },
    {
        let x = self.parsed_int_value(IntKind::I64)?;
        Ok(x as i64)
    }

    /// The number this value is, as a `isize`.
    pub fn as_isize(&self) -> (res: Result<isize, JsonError>)
        ensures
            match res {
                Ok(x) => spec_as_int(self.path@, self.value@, IntKind::Isize) == Ok::<int, ErrModel>(x as int),
                Err(e) => spec_as_int(self.path@, self.value@, IntKind::Isize) == Err::<int, ErrModel>(e@),
            },
    {
        let x = self.int_value(IntKind::Isize)?;
        Ok(x as isize)
    }

    /// The number this value is, or the string spells, as a `isize`.
    pub fn parse_as_isize(&self) -> (res: Result<isize, JsonError>)
        ensures
            match res {
                Ok(x) => spec_parse_as_int(self.path@, self.value@, IntKind::Isize) == Ok::<int, ErrModel>(x as int),
                Err(e) => spec_parse_as_int(self.path@, self.value@, IntKind::Isize) == Err::<int, ErrModel>(e@),
            },
    {
        let x = self.parsed_int_value(IntKind::Isize)?;
        Ok(x as isize)
    }

    /// The number this value is, as a `i32`.
    pub fn as_i32(&self) -> (res: Result<i32, JsonError>)
        ensures
            match res {
                Ok(x) => spec_as_int(self.path@, self.value@, IntKind::I32) == Ok::<int, ErrModel>(x as int),
                Err(e) => spec_as_int(self.path@, self.value@, IntKind::I32) == Err::<int, ErrModel>(e@),
            },
    {
        let x = self.int_value(IntKind::I32)?;
        Ok(x as i32)
    }

    /// The number this value is, or the string spells, as a `i32`.
    pub fn parse_as_i32(&self) -> (res: Result<i32, JsonError>)
        ensures
            match res {
                Ok(x) => spec_parse_as_int(self.path@, self.value@, IntKind::I32) == Ok::<int, ErrModel>(x as int),
                Err(e) => spec_parse_as_int(self.path@, self.value@, IntKind::I32) == Err::<int, ErrModel>(e@),
            },
    {
        let x = self.parsed_int_value(IntKind::I32)?;
        Ok(x as i32)
    }

    /// The number this value is, as a `i16`.
    pub fn as_i16(&self) -> (res: Result<i16, JsonError>)
        ensures
            match res {
                Ok(x) => spec_as_int(self.path@, self.value@, IntKind::I16) == Ok::<int, ErrModel>(x as int),
                Err(e) => spec_as_int(self.path@, self.value@, IntKind::I16) == Err::<int, ErrModel>(e@),
            },
    {
        let x = self.int_value(IntKind::I16)?;
        Ok(x as i16)
    }

    /// The number this value is, or the string spells, as a `i16`.
    pub fn parse_as_i16(&self) -> (res: Result<i16, JsonError>)
        ensures
            match res {
                Ok(x) => spec_parse_as_int(self.path@, self.value@, IntKind::I16) == Ok::<int, ErrModel>(x as int),
                Err(e) => spec_parse_as_int(self.path@, self.value@, IntKind::I16) == Err::<int, ErrModel>(e@),
            },
    {
        let x = self.parsed_int_value(IntKind::I16)?;
        Ok(x as i16)
    }

    /// The number this value is, as a `i8`.
    pub fn as_i8(&self) -> (res: Result<i8, JsonError>)
        ensures
            match res {
                Ok(x) => spec_as_int(self.path@, self.value@, IntKind::I8) == Ok::<int, ErrModel>(x as int),
                Err(e) => spec_as_int(self.path@, self.value@, IntKind::I8) == Err::<int, ErrModel>(e@),
            },
    {
        let x = self.int_value(IntKind::I8)?;
        Ok(x as i8)
    }

    /// The number this value is, or the string spells, as a `i8`.
    pub fn parse_as_i8(&self) -> (res: Result<i8, JsonError>)
        ensures
            match res {
                Ok(x) => spec_parse_as_int(self.path@, self.value@, IntKind::I8) == Ok::<int, ErrModel>(x as int),
                Err(e) => spec_parse_as_int(self.path@, self.value@, IntKind::I8) == Err::<int, ErrModel>(e@),
            },
    {
        let x = self.parsed_int_value(IntKind::I8)?;
        Ok(x as i8)
    }
}

} // verus!

verus! {

/// The outcome of an integer accessor, as a model.
pub open spec fn u64_outcome(res: Result<u64, JsonError>) -> Result<int, ErrModel> {
    match res {
        Ok(x) => Ok(x as int),
        Err(e) => Err(e@),
    }
}

/// What `parse_as_u64_after` gives for value `v` at `path` when a string
/// value was rewritten to `rewritten` before it was read as a number.
pub open spec fn spec_parse_as_u64_after(path: PathModel, v: JModel, rewritten: Seq<char>) -> Result<
    int,
    ErrModel,
> {
    match v {
        JModel::Str(_) => match int_text(rewritten, false) {
            Some(x) => if fits(IntKind::U64, x) {
                Ok(x)
            } else {
                Err(ErrModel::Mismatch { path, expected: Expected::IntOrText(IntKind::U64), value: v })
            },
            None => Err(ErrModel::Mismatch { path, expected: Expected::IntOrText(IntKind::U64), value: v }),
        },
        _ => spec_parse_as_int(path, v, IntKind::U64),
    }
}

impl Json {
    /// As `parse_as_u64`, but a string value is first passed through `rewrite`
    /// and its result is read as the number.
    pub fn parse_as_u64_after<F: Fn(&str) -> String>(&self, rewrite: F) -> (res: Result<u64, JsonError>)
        requires
            forall|s: &str| rewrite.requires((s,)),
        ensures
            match self.value@ {
                JModel::Str(text) => exists|s: &str, t: String|
                    s@ == text && #[trigger] rewrite.ensures((s,), t) && u64_outcome(res)
                        == spec_parse_as_u64_after(self.path@, self.value@, t@),
                _ => u64_outcome(res) == spec_parse_as_u64_after(
                    self.path@,
                    self.value@,
                    Seq::empty(),
                ),
            },
    {
        match &self.value {
            JsonValue::String(s) => {
                let text: &str = s.as_str();
                let rewritten = rewrite(text);
                let res = match parse_int_text(rewritten.as_str(), false) {
                    Some(x) => {
                        if fits_kind(IntKind::U64, x) {
                            Ok(x as u64)
                        } else {
                            Err(self.mismatch(Expected::IntOrText(IntKind::U64)))
                        }
                    },
                    None => Err(self.mismatch(Expected::IntOrText(IntKind::U64))),
                };
                assert(rewrite.ensures((text,), rewritten));
                res
            },
            _ => self.parse_as_u64(),
        }
    }
}

} // verus!

verus! {

impl Json {
    /// How this value is shown: its path, a colon, and `rendered_value`, the
    /// pretty-printed JSON text of the value.
    pub fn to_text(&self, rendered_value: &str) -> (res: String)
        ensures
            res@ == path_text(self.path@) + seq![':', ' '] + rendered_value@,
    {
        let mut out: Vec<char> = Vec::new();
        let p = self.path.to_text();
        push_str(&mut out, p.as_str());
        out.push(':');
        out.push(' ');
        push_str(&mut out, rendered_value);
        assert(out@ =~= path_text(self.path@) + seq![':', ' '] + rendered_value@);
        string_from_chars(&out)
    }
}

} // verus!

verus! {

/// Following no steps stays at the value and its path.
pub proof fn law_get_empty_path(path: PathModel, v: JModel)
    ensures
        follow(path, v, Seq::empty()) == Ok::<(PathModel, JModel), ErrModel>((path, v)),
{
}

/// A value reached by following `steps` sits at the starting path extended
/// by exactly those steps.
pub proof fn law_get_path_extends(path: PathModel, v: JModel, steps: Seq<PathStep>)
    ensures
        follow(path, v, steps) matches Ok((p, w)) ==> p == (PathModel {
            src: path.src,
            items: path.items + steps,
        }),
    decreases steps.len(),
{
    if steps.len() > 0 {
        law_get_path_extends(path, v, steps.drop_last());
        if let Ok((p, w)) = follow(path, v, steps) {
            assert(path.items + steps =~= (path.items + steps.drop_last()).push(steps.last()));
        }
    }
}

/// Following a path in two pieces is following the whole path: the second
/// piece starts where the first one ended, and an error in the first piece
/// is the error of the whole.
pub proof fn law_get_concat(path: PathModel, v: JModel, first: Seq<PathStep>, second: Seq<PathStep>)
    ensures
        follow(path, v, first + second) == match follow(path, v, first) {
            Ok((p, w)) => follow(p, w, second),
            Err(e) => Err(e),
        },
    decreases second.len(),
{
    if second.len() == 0 {
        assert(first + second =~= first);
    } else {
        law_get_concat(path, v, first, second.drop_last());
        assert((first + second).drop_last() =~= first + second.drop_last());
        assert((first + second).last() == second.last());
    }
}

/// A key is found among members exactly when some member has that name, and
/// what is found is the value of the first such member.
proof fn lemma_lookup_key(members: Seq<(Seq<char>, JModel)>, key: Seq<char>)
    ensures
        lookup_key(members, key) is Some <==> exists|i: int|
            0 <= i < members.len() && #[trigger] members[i].0 == key,
        lookup_key(members, key) matches Some(w) ==> exists|i: int|
            0 <= i < members.len() && #[trigger] members[i].0 == key && members[i].1 == w
                && forall|j: int| 0 <= j < i ==> #[trigger] members[j].0 != key,
    decreases members.len(),
{
    if members.len() > 0 {
        let rest = members.drop_first();
        lemma_lookup_key(rest, key);
        if members[0].0 == key {
            assert(members[0].0 == key);
        } else {
            if exists|i: int| 0 <= i < members.len() && #[trigger] members[i].0 == key {
                let i = choose|i: int| 0 <= i < members.len() && #[trigger] members[i].0 == key;
                assert(rest[i - 1].0 == key);
            }
            if let Some(w) = lookup_key(rest, key) {
                let i = choose|i: int|
                    0 <= i < rest.len() && #[trigger] rest[i].0 == key && rest[i].1 == w
                        && forall|j: int| 0 <= j < i ==> #[trigger] rest[j].0 != key;
                assert(members[i + 1].0 == key);
                assert forall|j: int| 0 <= j < i + 1 implies #[trigger] members[j].0 != key by {
                    if j > 0 {
                        assert(members[j] == rest[j - 1]);
                    }
                }
            }
        }
    }
}

/// One step from a value succeeds exactly when a key meets an object with a
/// member of that name, or an index meets an array longer than the index.
/// The value reached is the first member of that name, or the element at that
/// index, at the path extended by the step; otherwise the error names the
/// path, the step and the value the step was taken from.
pub proof fn law_get_one_step(path: PathModel, v: JModel, step: PathStep)
    ensures
        follow(path, v, seq![step]) is Ok <==> match step {
            PathStep::Key(k) => v matches JModel::Object(members) && exists|i: int|
                0 <= i < members.len() && #[trigger] members[i].0 == k,
            PathStep::Index(n) => v matches JModel::Array(items) && n < items.len(),
        },
        match follow(path, v, seq![step]) {
            Ok((p, w)) => p == path_push(path, step) && match step {
                PathStep::Key(k) => v matches JModel::Object(members) && exists|i: int|
                    0 <= i < members.len() && #[trigger] members[i].0 == k && members[i].1 == w
                        && forall|j: int| 0 <= j < i ==> #[trigger] members[j].0 != k,
                PathStep::Index(n) => v matches JModel::Array(items) && w == items[n as int],
            },
            Err(e) => e == (ErrModel::NotFound { path: path, step: step, value: v }),
        },
{
    let steps = seq![step];
    assert(steps.drop_last() =~= Seq::<PathStep>::empty());
    assert(steps.last() == step);
    assert(follow(path, v, steps.drop_last()) == Ok::<(PathModel, JModel), ErrModel>((path, v)));
    assert(follow(path, v, steps) == match step_value(v, step) {
        Some(u) => Ok((path_push(path, step), u)),
        None => Err(ErrModel::NotFound { path: path, step: step, value: v }),
    });
    if let PathStep::Key(k) = step {
        if let JModel::Object(members) = v {
            lemma_lookup_key(members, k);
        }
    }
}

/// The message of a step that leads nowhere: the position, `not found`, the
/// step, `at` and the pretty-printed value the step was taken from.
pub proof fn law_not_found_message(path: PathModel, v: JModel, step: PathStep)
    ensures
        follow(path, v, seq![step]) matches Err(e) ==> match json_pretty(v) {
            Some(t) => error_text(e, t) == path_text(path) + ": not found "@ + step_text(step)
                + " at "@ + t,
            None => true,
        },
{
    law_get_one_step(path, v, step);
}

/// The integers each reader accepts are exactly those of its Rust type.
pub proof fn law_kind_ranges(v: int)
    ensures
        fits(IntKind::U64, v) <==> 0 <= v <= 18446744073709551615,
        fits(IntKind::U32, v) <==> 0 <= v <= 4294967295,
        fits(IntKind::U16, v) <==> 0 <= v <= 65535,
        fits(IntKind::U8, v) <==> 0 <= v <= 255,
        fits(IntKind::I64, v) <==> -9223372036854775808 <= v <= 9223372036854775807,
        fits(IntKind::I32, v) <==> -2147483648 <= v <= 2147483647,
        fits(IntKind::I16, v) <==> -32768 <= v <= 32767,
        fits(IntKind::I8, v) <==> -128 <= v <= 127,
        fits(IntKind::Usize, v) <==> 0 <= v <= usize::MAX,
        fits(IntKind::Isize, v) <==> isize::MIN <= v <= isize::MAX,
        usize::MAX == 4294967295 || usize::MAX == 18446744073709551615,
        isize::MIN == -2147483648 || isize::MIN == -9223372036854775808,
{
}

/// A signed reader takes a negative number that its type holds as that very
/// number, both from a number and from the text that spells it.
pub proof fn law_signed_readers_take_negatives(path: PathModel, n: i64, k: IntKind)
    requires
        is_signed(k),
        n < 0,
        fits(k, n as int),
    ensures
        spec_as_int(path, JModel::Number(NumberModel::NegInt(n)), k) == Ok::<int, ErrModel>(n as int),
        spec_parse_as_int(path, JModel::Number(NumberModel::NegInt(n)), k) == Ok::<int, ErrModel>(
            n as int,
        ),
        -32768 <= n ==> spec_as_int(path, JModel::Number(NumberModel::NegInt(n)), IntKind::I16)
            == Ok::<int, ErrModel>(n as int),
        -128 <= n ==> spec_as_int(path, JModel::Number(NumberModel::NegInt(n)), IntKind::I8)
            == Ok::<int, ErrModel>(n as int),
        -2147483648 <= n ==> spec_as_int(path, JModel::Number(NumberModel::NegInt(n)), IntKind::I32)
            == Ok::<int, ErrModel>(n as int),
{
}

/// Reading a string after a rewrite gives a number only when the rewritten
/// text spells it: a rewritten text that spells no `u64` is an error, and one
/// that spells a `u64` is read as that number.
pub proof fn law_parse_after_reads_rewritten(path: PathModel, s: Seq<char>, t: Seq<char>)
    ensures
        spec_parse_as_u64_after(path, JModel::Str(s), t) matches Ok(x) ==> int_text(t, false)
            == Some(x) && 0 <= x <= 18446744073709551615,
        int_text(t, false) is None ==> spec_parse_as_u64_after(path, JModel::Str(s), t) is Err,
        forall|x: int|
            int_text(t, false) == Some(x) && 0 <= x <= 18446744073709551615 ==> spec_parse_as_u64_after(
                path,
                JModel::Str(s),
                t,
            ) == Ok::<int, ErrModel>(x),
        t.len() == 0 ==> spec_parse_as_u64_after(path, JModel::Str(s), t) is Err,
{
}

/// On a value that `as_<k>` accepts, `parse_as_<k>` gives the same number.
pub proof fn law_parse_as_agrees_with_as(path: PathModel, v: JModel, k: IntKind)
    ensures
        spec_as_int(path, v, k) is Ok ==> spec_parse_as_int(path, v, k) == spec_as_int(path, v, k),
{
}

} // verus!

verus! {

/// A string holding the decimal digits of a number of type `k` is read by
/// `parse_as_<k>` as that number.
pub proof fn law_parse_as_reads_decimal(path: PathModel, n: nat, k: IntKind)
    requires
        fits(k, n as int),
    ensures
        spec_parse_as_int(path, JModel::Str(dec(n)), k) == Ok::<int, ErrModel>(n as int),
{
    crate::text::law_int_text_of_dec(n, is_signed(k));
}

} // verus!

verus! {

impl JsonNumber {
    /// How this number is written, e.g. `-5` or `1.5`.
    pub fn to_text(&self) -> (res: String)
        ensures
            res@ == number_text(self.model()),
    {
        let mut out: Vec<char> = Vec::new();
        self.push_text(&mut out);
        assert(out@ =~= number_text(self.model()));
        string_from_chars(&out)
    }
}

} // verus!


verus! {

#[verifier::external_type_specification]
#[verifier::external_body]
pub struct ExSerdeValue(serde_json::Value);

/// What `serde_json::from_str::<serde_json::Value>` makes of `text`: the
/// document it reads, or the text (`Display`) of the error it rejects it with.
pub uninterp spec fn json_parsed(text: Seq<char>) -> Result<JModel, Seq<char>>;

/// What `serde_json::to_string_pretty` writes for `v`, once `v` is a
/// `serde_json::Value`; `None` where a float of `v` is kept by a text that
/// `serde_json::Number`'s `FromStr` does not read, or the writer fails.
pub uninterp spec fn json_pretty(v: JModel) -> Option<Seq<char>>;

#[verifier::external_type_specification]
#[verifier::external_body]
pub struct ExSerdeNumber(serde_json::Number);

/// The library's number for a `serde_json::Number`, by the kind it holds.
#[verifier::external_body]
fn number_from_serde(n: &serde_json::Number) -> JsonNumber {
    match (n.as_u64(), n.as_i64()) {
        (Some(u), _) => JsonNumber::PosInt(u),
        (None, Some(i)) => JsonNumber::NegInt(i),
        (None, None) => JsonNumber::Float(n.to_string()),
    }
}

/// The `serde_json::Number` for a number of the library; `None` where a
/// float's text is not one.
#[verifier::external_body]
fn number_to_serde(n: &JsonNumber) -> Option<serde_json::Number> {
    match n {
        JsonNumber::PosInt(u) => Some((*u).into()),
        JsonNumber::NegInt(i) => Some((*i).into()),
        JsonNumber::Float(t) => t.parse().ok(),
    }
}

/// The library's value for a `serde_json::Value`, variant by variant.
#[verifier::external_body]
fn from_serde(v: &Value) -> JsonValue {
    match v {
        Value::Null => JsonValue::Null,
        Value::Bool(b) => JsonValue::Bool(*b),
        Value::Number(n) => JsonValue::Number(number_from_serde(n)),
        Value::String(s) => JsonValue::String(s.clone()),
        Value::Array(a) => JsonValue::Array(a.iter().map(from_serde).collect()),
        Value::Object(m) => JsonValue::Object(m.iter().map(|(k, v)| (k.clone(), from_serde(v))).collect()),
    }
}

/// The `serde_json::Value` for a value of the library, variant by variant;
/// `None` where a float's text is not a `serde_json::Number`.
#[verifier::external_body]
fn to_serde(v: &JsonValue) -> Option<Value> {
    Some(match v {
        JsonValue::Null => Value::Null,
        JsonValue::Bool(b) => Value::Bool(*b),
        JsonValue::Number(n) => Value::Number(number_to_serde(n)?),
        JsonValue::String(s) => Value::String(s.clone()),
        JsonValue::Array(a) => Value::Array(a.iter().map(to_serde).collect::<Option<_>>()?),
        JsonValue::Object(m) => Value::Object(m.iter().map(|(k, v)| Some((k.clone(), to_serde(v)?))).collect::<Option<_>>()?),
    })
}

/// Parses `text` as a JSON document (`serde_json::from_str` into a
/// `serde_json::Value`). The result is named by `json_parsed`. A document
/// read is well-formed: `serde_json`'s map (a `BTreeMap`, as no
/// `preserve_order` is asked for) keeps each key once, in ascending order.
#[verifier::external_body]
pub fn parse_value(text: &str) -> (res: Result<JsonValue, String>)
    ensures
        match res {
            Ok(v) => json_parsed(text@) == Ok::<JModel, Seq<char>>(v@) && json_wf(v@),
            Err(m) => json_parsed(text@) == Err::<JModel, Seq<char>>(m@),
        },
{
    match serde_json::from_str::<serde_json::Value>(text) {
        Ok(v) => Ok(from_serde(&v)),
        Err(e) => Err(e.to_string()),
    }
}

/// The pretty-printed JSON text of `v` (`serde_json::to_string_pretty`). The
/// result is named by `json_pretty`.
#[verifier::external_body]
pub fn pretty(v: &JsonValue) -> (res: Option<String>)
    ensures
        match res {
            Some(t) => json_pretty(v@) == Some(t@),
            None => json_pretty(v@) is None,
        },
{
    match to_serde(v) {
        Some(sv) => serde_json::to_string_pretty(&sv).ok(),
        None => None,
    }
}

/// The value an error message shows in full, if it shows one.
pub open spec fn shown_model(e: ErrModel) -> Option<JModel> {
    match e {
        ErrModel::NotFound { value, .. } => Some(value),
        ErrModel::Mismatch { value, .. } => Some(value),
        ErrModel::OutOfRange { .. } => None,
    }
}

/// The message of an error with the value it shows pretty-printed; `None`
/// where that value cannot be printed.
pub open spec fn shown_error_text(e: ErrModel) -> Option<Seq<char>> {
    match shown_model(e) {
        Some(v) => match json_pretty(v) {
            Some(t) => Some(error_text(e, t)),
            None => None,
        },
        None => Some(error_text(e, Seq::empty())),
    }
}

impl JsonError {
    /// The message of this error, the value it shows pretty-printed.
    pub fn shown_message(&self) -> (res: Option<String>)
        ensures
            match res {
                Some(t) => shown_error_text(self@) == Some(t@),
                None => shown_error_text(self@) is None,
            },
    {
        match self.shown_value() {
            Some(v) => match pretty(v) {
                Some(t) => Some(self.message(t.as_str())),
                None => None,
            },
            None => Some(self.message("")),
        }
    }
}

impl Json {
    /// The document read from `text`, at the root of source `src`; the
    /// parser's message where the text is no JSON.
    pub fn from_text(text: &str, src: JsonSource) -> (res: Result<Json, String>)
        ensures
            match res {
                Ok(j) => json_parsed(text@) == Ok::<JModel, Seq<char>>(j.value@) && j.path@
                    == (PathModel { src: src@, items: Seq::empty() }) && json_wf(j.value@),
                Err(m) => json_parsed(text@) == Err::<JModel, Seq<char>>(m@),
            },
    {
        match parse_value(text) {
            Ok(v) => Ok(Json::new(v, src)),
            Err(m) => Err(m),
        }
    }

    /// The document read from `text`, at the root of a source named `name`.
    pub fn from_str(text: &str, name: &str) -> (res: Result<Json, String>)
        ensures
            match res {
                Ok(j) => json_parsed(text@) == Ok::<JModel, Seq<char>>(j.value@) && j.path@
                    == (PathModel { src: SourceModel::Name(name@), items: Seq::empty() }) && json_wf(
                    j.value@,
                ),
                Err(m) => json_parsed(text@) == Err::<JModel, Seq<char>>(m@),
            },
    {
        Json::from_text(text, JsonSource::Name(String::from_str(name)))
    }

    /// How this value is shown: its path, a colon and the value
    /// pretty-printed; `None` where the value cannot be printed.
    pub fn shown_text(&self) -> (res: Option<String>)
        ensures
            match res {
                Some(t) => json_pretty(self.value@) matches Some(p) && t@ == path_text(self.path@)
                    + seq![':', ' '] + p,
                None => json_pretty(self.value@) is None,
            },
    {
        match pretty(&self.value) {
            Some(p) => Some(self.to_text(p.as_str())),
            None => None,
        }
    }
}

} // verus!

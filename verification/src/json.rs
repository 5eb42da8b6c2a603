//! JSON values: the library's own tree, its mathematical model, and the bridge
//! to `serde_json` that parses and prints it.
use crate::keyed;
use crate::text;
use vstd::prelude::*;

verus! {

// ---------------------------------------------------------------------------
// Outside types

#[verifier::external_type_specification]
#[verifier::external_body]
pub struct ExNumber(serde_json::Number);

#[verifier::external_type_specification]
#[verifier::external_body]
pub struct ExValue(serde_json::Value);

/// The number that `serde_json` makes of an unsigned integer.
pub uninterp spec fn number_of(n: u64) -> serde_json::Number;

/// The unsigned integer that a number holds, if it holds one.
pub uninterp spec fn number_u64(n: serde_json::Number) -> Option<u64>;

/// The text of a number.
pub uninterp spec fn number_text(n: serde_json::Number) -> Seq<char>;

/// What a `serde_json` value holds.
pub uninterp spec fn value_model(v: serde_json::Value) -> JsonModel;

/// What a JSON text stands for, or the message of the error that it gives.
pub uninterp spec fn parsed(source: Seq<char>) -> Result<JsonModel, Seq<char>>;

/// The compact text of a JSON value.
pub uninterp spec fn compact_text(m: JsonModel) -> Seq<char>;

/// The indented text of a JSON value.
pub uninterp spec fn pretty_text(m: JsonModel) -> Seq<char>;

// ---------------------------------------------------------------------------
// Model

/// The layers of arrays and objects up to which a text is read.
pub const MAX_LAYERS: usize = 127;

/// The key by which an object stands for the text of another value.
pub const RESERVED_KEY: &'static str = "$serde_json::private::RawValue";

/// A JSON value as a mathematical tree. The entries of an object stand in
/// increasing order of their keys.
#[verifier::ext_equal]
pub enum JsonModel {
    Null,
    Bool(bool),
    Number(serde_json::Number),
    Text(Seq<char>),
    Array(Seq<JsonModel>),
    Object(Seq<(Seq<char>, JsonModel)>),
}

impl JsonModel {
    /// The object without entries.
    pub open spec fn empty_object() -> JsonModel {
        JsonModel::Object(seq![])
    }

    /// The value under a key of an object; nothing for any other value.
    pub open spec fn get(self, key: Seq<char>) -> Option<JsonModel> {
        match self {
            JsonModel::Object(entries) => keyed::entry(entries, key),
            _ => None,
        }
    }

    /// The text, if the value is one.
    pub open spec fn as_text(self) -> Option<Seq<char>> {
        match self {
            JsonModel::Text(s) => Some(s),
            _ => None,
        }
    }

    /// The text under a key.
    pub open spec fn text_at(self, key: Seq<char>) -> Option<Seq<char>> {
        match self.get(key) {
            Some(v) => v.as_text(),
            None => None,
        }
    }

    /// The items, if the value is an array.
    pub open spec fn as_items(self) -> Option<Seq<JsonModel>> {
        match self {
            JsonModel::Array(items) => Some(items),
            _ => None,
        }
    }

    /// The items of the array under a key.
    pub open spec fn items_at(self, key: Seq<char>) -> Option<Seq<JsonModel>> {
        match self.get(key) {
            Some(v) => v.as_items(),
            None => None,
        }
    }

    /// The unsigned integer, if the value is one.
    pub open spec fn as_uint(self) -> Option<u64> {
        match self {
            JsonModel::Number(n) => number_u64(n),
            _ => None,
        }
    }

    /// The unsigned integer under a key.
    pub open spec fn uint_at(self, key: Seq<char>) -> Option<u64> {
        match self.get(key) {
            Some(v) => v.as_uint(),
            None => None,
        }
    }

    /// The object with one entry set; any other value stays as it is.
    pub open spec fn with(self, key: Seq<char>, value: JsonModel) -> JsonModel {
        match self {
            JsonModel::Object(entries) => JsonModel::Object(keyed::with_entry(entries, key, value)),
            _ => self,
        }
    }

    /// The object without one entry; any other value stays as it is.
    pub open spec fn without(self, key: Seq<char>) -> JsonModel {
        match self {
            JsonModel::Object(entries) => JsonModel::Object(keyed::without_entry(entries, key)),
            _ => self,
        }
    }

    /// The value that stands for an unsigned integer.
    pub open spec fn uint(n: u64) -> JsonModel {
        JsonModel::Number(number_of(n))
    }

    /// The value has at most the given number of layers of arrays and objects,
    /// its numbers are unsigned integers, and none of its keys is reserved.
    pub open spec fn plain(self, layers: nat) -> bool
        decreases self,
    {
        match self {
            JsonModel::Number(n) => number_u64(n) is Some,
            JsonModel::Array(items) => layers > 0 && forall|i: int|
                0 <= i < items.len() ==> (#[trigger] items[i]).plain((layers - 1) as nat),
            JsonModel::Object(entries) => layers > 0 && forall|i: int|
                0 <= i < entries.len() ==> (#[trigger] entries[i]).0 != RESERVED_KEY@
                    && entries[i].1.plain((layers - 1) as nat),
            _ => true,
        }
    }

    /// The value is read back from its text just as it was written.
    pub open spec fn reads_back(self) -> bool {
        self.plain(MAX_LAYERS as nat)
    }

    /// A text, or null where there is none.
    pub open spec fn optional_text(s: Option<Seq<char>>) -> JsonModel {
        match s {
            Some(t) => JsonModel::Text(t),
            None => JsonModel::Null,
        }
    }
}

// ---------------------------------------------------------------------------
// Values

/// A JSON value.
#[derive(Debug, PartialEq)]
pub enum Json {
    Null,
    Bool(bool),
    Number(serde_json::Number),
    Text(String),
    Array(Vec<Json>),
    Object(JsonObject),
}

/// The entries of a JSON object, in increasing order of their keys.
#[derive(Debug, PartialEq)]
pub struct JsonObject {
    entries: Vec<(String, Json)>,
}

/// The mathematical tree of a JSON value.
pub open spec fn json_model(j: Json) -> JsonModel
    decreases j,
{
    match j {
        Json::Null => JsonModel::Null,
        Json::Bool(b) => JsonModel::Bool(b),
        Json::Number(n) => JsonModel::Number(n),
        Json::Text(s) => JsonModel::Text(s@),
        Json::Array(v) => JsonModel::Array(
            Seq::new(
                v@.len(),
                |i: int|
                    if 0 <= i < v@.len() {
                        json_model(v@[i])
                    } else {
                        JsonModel::Null
                    },
            ),
        ),
        Json::Object(o) => JsonModel::Object(object_model(o)),
    }
}

/// The entries of an object, with the mathematical tree of each value.
pub closed spec fn object_model(o: JsonObject) -> Seq<(Seq<char>, JsonModel)>
    decreases o,
{
    Seq::new(
        o.entries@.len(),
        |i: int|
            if 0 <= i < o.entries@.len() {
                (o.entries@[i].0@, json_model(o.entries@[i].1))
            } else {
                (Seq::empty(), JsonModel::Null)
            },
    )
}

impl View for Json {
    type V = JsonModel;

    open spec fn view(&self) -> JsonModel {
        json_model(*self)
    }
}

impl DeepView for Json {
    type V = JsonModel;

    open spec fn deep_view(&self) -> JsonModel {
        json_model(*self)
    }
}

impl View for JsonObject {
    type V = Seq<(Seq<char>, JsonModel)>;

    open spec fn view(&self) -> Seq<(Seq<char>, JsonModel)> {
        object_model(*self)
    }
}

/// The tree of an array is the sequence of its items' trees.
pub proof fn lemma_array(v: Vec<Json>)
    ensures
        Json::Array(v)@ == JsonModel::Array(v.deep_view()),
{
    assert(Json::Array(v)@->Array_0 =~= v.deep_view());
}

impl JsonObject {
    #[verifier::type_invariant]
    spec fn ordered(self) -> bool {
        keyed::keys_increase(object_model(self))
    }

    /// The object without entries.
    pub fn new() -> (r: JsonObject)
        ensures
            r@ == Seq::<(Seq<char>, JsonModel)>::empty(),
    {
        let r = JsonObject { entries: Vec::new() };
        assert(r@ =~= Seq::<(Seq<char>, JsonModel)>::empty());
        r
    }

    /// The object with `value` under `key`.
    pub fn with(self, key: &str, value: Json) -> (r: JsonObject)
        ensures
            r@ == keyed::with_entry(self@, key@, value@),
    {
        let ghost before = self@;
        proof {
            use_type_invariant(&self);
            keyed::lemma_with_entry_order(before, key@, value@);
        }
        let mut entries = self.entries;
        let mut at: usize = 0;
        while at < entries.len() && text::is_before(entries[at].0.as_str(), key)
            invariant
                at <= entries@.len(),
                before.len() == entries@.len(),
                forall|k: int| 0 <= k < before.len() ==> (#[trigger] before[k]).0 == entries@[k].0@,
                forall|k: int| 0 <= k < at ==> text::precedes((#[trigger] before[k]).0, key@),
            decreases entries@.len() - at,
        {
            assert(before[at as int].0 == entries@[at as int].0@);
            at = at + 1;
        }
        let ghost tree = value@;
        let ghost stored = entries@;
        proof {
            keyed::lemma_with_entry_at(before, key@, tree, at as int);
            if at < before.len() {
                assert(before[at as int].0 == stored[at as int].0@);
                text::lemma_precedes_total(before[at as int].0, key@);
                assert(before.skip(at as int)[0] == before[at as int]);
            }
            assert forall|k: int| 0 <= k < before.len() implies #[trigger] before[k] == (
                stored[k].0@,
                stored[k].1@,
            ) by {}
        }
        if at < entries.len() && text::same_text(entries[at].0.as_str(), key) {
            entries.set(at, (text::owned(key), value));
            proof {
                let shown = Seq::new(
                    entries@.len(),
                    |i: int| (entries@[i].0@, entries@[i].1@),
                );
                assert(shown =~= keyed::with_entry(before, key@, tree)) by {
                    assert(before.skip(at as int).skip(1) =~= before.skip(at + 1));
                    assert(before.take(at as int) + (seq![(key@, tree)] + before.skip(at + 1))
                        =~= before.update(at as int, (key@, tree)));
                }
            }
        } else {
            entries.insert(at, (text::owned(key), value));
            proof {
                let shown = Seq::new(
                    entries@.len(),
                    |i: int| (entries@[i].0@, entries@[i].1@),
                );
                let rest = before.skip(at as int);
                assert(keyed::with_entry(rest, key@, tree) =~= seq![(key@, tree)] + rest);
                assert(shown =~= before.take(at as int) + (seq![(key@, tree)] + rest));
            }
        }
        proof {
            let shown = Seq::new(entries@.len(), |i: int| (entries@[i].0@, entries@[i].1@));
            assert(object_model(JsonObject { entries }) =~= shown);
        }
        JsonObject { entries }
    }

    /// The object without what stands under `key`.
    pub fn without(self, key: &str) -> (r: JsonObject)
        ensures
            r@ == keyed::without_entry(self@, key@),
    {
        let ghost before = self@;
        proof {
            use_type_invariant(&self);
            keyed::lemma_without_entry_order(before, key@);
        }
        let ghost stored = self.entries@;
        let mut rest = self.entries;
        let mut entries: Vec<(String, Json)> = Vec::new();
        let ghost mut done: int = 0;
        assert(before.take(0) =~= seq![]);
        while rest.len() > 0
            invariant
                0 <= done <= stored.len(),
                before.len() == stored.len(),
                forall|k: int|
                    0 <= k < before.len() ==> #[trigger] before[k] == (stored[k].0@, stored[k].1@),
                rest@ == stored.skip(done),
                Seq::new(entries@.len(), |i: int| (entries@[i].0@, entries@[i].1@))
                    == keyed::without_entry(before.take(done), key@),
            decreases rest@.len(),
        {
            let ghost shown = Seq::new(entries@.len(), |i: int| (entries@[i].0@, entries@[i].1@));
            let item = rest.remove(0);
            proof {
                assert(item == stored[done]);
                assert(rest@ =~= stored.skip(done + 1));
                assert(before.take(done + 1).drop_last() =~= before.take(done));
                assert(before.take(done + 1).last() == before[done]);
                done = done + 1;
            }
            if !text::same_text(item.0.as_str(), key) {
                entries.push(item);
                proof {
                    assert(Seq::new(entries@.len(), |i: int| (entries@[i].0@, entries@[i].1@))
                        =~= shown.push((item.0@, item.1@)));
                }
            }
        }
        proof {
            assert(before.take(done) =~= before);
            assert(object_model(JsonObject { entries }) =~= keyed::without_entry(before, key@));
        }
        JsonObject { entries }
    }

    /// The value under `key`.
    pub fn get(&self, key: &str) -> (r: Option<&Json>)
        ensures
            r.deep_view() == keyed::entry(self@, key@),
    {
        let mut i: usize = 0;
        assert(self@.skip(0) =~= self@);
        while i < self.entries.len()
            invariant
                i <= self.entries@.len(),
                self@.len() == self.entries@.len(),
                keyed::entry(self@.skip(i as int), key@) == keyed::entry(self@, key@),
            decreases self.entries@.len() - i,
        {
            proof {
                assert(self@.skip(i as int)[0] == self@[i as int]);
                assert(self@.skip(i as int).skip(1) =~= self@.skip(i + 1));
            }
            if text::same_text(self.entries[i].0.as_str(), key) {
                return Some(&self.entries[i].1);
            }
            i = i + 1;
        }
        None
    }

    /// The number of entries.
    pub fn len(&self) -> (n: usize)
        ensures
            n == self@.len(),
    {
        self.entries.len()
    }

    /// The key at a position.
    pub fn key_at(&self, i: usize) -> (r: &str)
        requires
            i < self@.len(),
        ensures
            r@ == self@[i as int].0,
    {
        self.entries[i].0.as_str()
    }

    /// The value at a position.
    pub fn value_at(&self, i: usize) -> (r: &Json)
        requires
            i < self@.len(),
        ensures
            r@ == self@[i as int].1,
            decreases_to!(*self => *r),
    {
        &self.entries[i].1
    }
}

impl Clone for JsonObject {
    fn clone(&self) -> (r: JsonObject)
        ensures
            r@ == self@,
        decreases self,
    {
        proof {
            use_type_invariant(self);
        }
        let mut entries: Vec<(String, Json)> = Vec::new();
        let mut i: usize = 0;
        while i < self.entries.len()
            invariant
                i <= self.entries@.len(),
                entries@.len() == i,
                forall|k: int|
                    0 <= k < i ==> (#[trigger] entries@[k]).0@ == self.entries@[k].0@
                        && entries@[k].1@ == self.entries@[k].1@,
            decreases self.entries@.len() - i,
        {
            let value = self.entries[i].1.clone();
            entries.push((self.entries[i].0.clone(), value));
            i = i + 1;
        }
        assert(object_model(JsonObject { entries }) =~= object_model(*self));
        JsonObject { entries }
    }
}

impl Clone for Json {
    fn clone(&self) -> (r: Json)
        ensures
            r@ == self@,
        decreases self,
    {
        match self {
            Json::Null => Json::Null,
            Json::Bool(b) => Json::Bool(*b),
            Json::Number(n) => Json::Number(n.clone()),
            Json::Text(s) => Json::Text(s.clone()),
            Json::Array(v) => {
                let mut items: Vec<Json> = Vec::new();
                let mut i: usize = 0;
                while i < v.len()
                    invariant
                        i <= v@.len(),
                        items@.len() == i,
                        decreases_to!(*self => *v),
                        forall|k: int| 0 <= k < i ==> (#[trigger] items@[k])@ == v@[k]@,
                    decreases v@.len() - i,
                {
                    items.push(v[i].clone());
                    i = i + 1;
                }
                proof {
                    lemma_array(items);
                    lemma_array(*v);
                    assert(items.deep_view() =~= v.deep_view());
                }
                Json::Array(items)
            },
            Json::Object(o) => Json::Object(o.clone()),
        }
    }
}

impl Json {
    /// A text value.
    pub fn text(s: &str) -> (r: Json)
        ensures
            r@ == JsonModel::Text(s@),
    {
        Json::Text(text::owned(s))
    }

    /// A text value, or null where there is none.
    pub fn optional_text(s: &Option<String>) -> (r: Json)
        ensures
            r@ == JsonModel::optional_text(s.deep_view()),
    {
        match s {
            Some(t) => Json::text(t.as_str()),
            None => Json::Null,
        }
    }

    /// An unsigned integer.
    pub fn uint(n: u64) -> (r: Json)
        ensures
            r@ == JsonModel::uint(n),
    {
        Json::Number(number_from_u64(n))
    }

    /// An array of the given items.
    pub fn array(items: Vec<Json>) -> (r: Json)
        ensures
            r@ == JsonModel::Array(items.deep_view()),
    {
        proof {
            lemma_array(items);
        }
        Json::Array(items)
    }

    /// The object without entries.
    pub fn empty_object() -> (r: Json)
        ensures
            r@ == JsonModel::empty_object(),
    {
        Json::Object(JsonObject::new())
    }

    /// The object with one entry set; any other value stays as it is.
    pub fn with(self, key: &str, value: Json) -> (r: Json)
        ensures
            r@ == self@.with(key@, value@),
    {
        match self {
            Json::Object(o) => Json::Object(o.with(key, value)),
            other => other,
        }
    }

    /// The object without one entry; any other value stays as it is.
    pub fn without(self, key: &str) -> (r: Json)
        ensures
            r@ == self@.without(key@),
    {
        match self {
            Json::Object(o) => Json::Object(o.without(key)),
            other => other,
        }
    }

    /// The value under `key`, if this is an object that has it.
    pub fn get(&self, key: &str) -> (r: Option<&Json>)
        ensures
            r.deep_view() == self@.get(key@),
            r matches Some(v) ==> v@ == self@.get(key@)->0,
    {
        match self {
            Json::Object(o) => o.get(key),
            _ => None,
        }
    }

    /// The text, if this is one.
    pub fn as_str(&self) -> (r: Option<&str>)
        ensures
            r.deep_view() == self@.as_text(),
            r matches Some(s) ==> s@ == self@.as_text()->0,
    {
        match self {
            Json::Text(s) => Some(s.as_str()),
            _ => None,
        }
    }

    /// The text under `key`.
    pub fn get_str(&self, key: &str) -> (r: Option<&str>)
        ensures
            r.deep_view() == self@.text_at(key@),
            r matches Some(s) ==> s@ == self@.text_at(key@)->0,
    {
        match self.get(key) {
            Some(v) => v.as_str(),
            None => None,
        }
    }

    /// The items, if this is an array.
    pub fn as_array(&self) -> (r: Option<&Vec<Json>>)
        ensures
            r.deep_view() == self@.as_items(),
            r matches Some(v) ==> v.deep_view() == self@.as_items()->0,
    {
        match self {
            Json::Array(v) => {
                proof {
                    lemma_array(*v);
                }
                Some(v)
            },
            _ => None,
        }
    }

    /// The items of the array under `key`.
    pub fn get_array(&self, key: &str) -> (r: Option<&Vec<Json>>)
        ensures
            r.deep_view() == self@.items_at(key@),
            r matches Some(v) ==> v.deep_view() == self@.items_at(key@)->0,
    {
        match self.get(key) {
            Some(v) => v.as_array(),
            None => None,
        }
    }

    /// The unsigned integer, if this is one.
    pub fn as_u64(&self) -> (r: Option<u64>)
        ensures
            r == self@.as_uint(),
    {
        match self {
            Json::Number(n) => number_as_u64(n),
            _ => None,
        }
    }

    /// The unsigned integer under `key`.
    pub fn get_u64(&self, key: &str) -> (r: Option<u64>)
        ensures
            r == self@.uint_at(key@),
    {
        match self.get(key) {
            Some(v) => v.as_u64(),
            None => None,
        }
    }

    /// The compact text of the value.
    pub fn to_compact_string(&self) -> (r: String)
        ensures
            r@ == compact_text(self@),
            text::fills_line(r@),
            self@.reads_back() ==> parsed(r@) == Ok::<JsonModel, Seq<char>>(self@),
    {
        print_compact(&value_of_json(self))
    }

    /// The indented text of the value.
    pub fn to_pretty_string(&self) -> (r: String)
        ensures
            r@ == pretty_text(self@),
            !text::is_blank(r@),
            self@.reads_back() ==> parsed(r@) == Ok::<JsonModel, Seq<char>>(self@),
    {
        match print_pretty(&value_of_json(self)) {
            Some(s) => {
                proof {
                    text::lemma_not_blank(s@);
                }
                s
            },
            None => String::new(),
        }
    }
}

/// Copies of the values at `from..to`.
pub fn clone_range(v: &Vec<Json>, from: usize, to: usize) -> (r: Vec<Json>)
    requires
        from <= to <= v@.len(),
    ensures
        r.deep_view() == v.deep_view().subrange(from as int, to as int),
{
    let ghost all = v.deep_view();
    let mut r: Vec<Json> = Vec::new();
    let mut i: usize = from;
    while i < to
        invariant
            from <= i <= to <= v@.len(),
            all == v.deep_view(),
            r.deep_view() == all.subrange(from as int, i as int),
        decreases to - i,
    {
        let ghost before = r.deep_view();
        r.push(v[i].clone());
        proof {
            assert(r.deep_view() =~= before.push(all[i as int]));
            assert(all.subrange(from as int, i + 1) =~= all.subrange(from as int, i as int).push(
                all[i as int],
            ));
        }
        i = i + 1;
    }
    r
}

/// The value that a JSON text stands for, or the message of the error.
pub fn parse_json(source: &str) -> (r: Result<Json, String>)
    ensures
        match r {
            Ok(j) => parsed(source@) == Ok::<JsonModel, Seq<char>>(j@),
            Err(e) => parsed(source@) == Err::<JsonModel, Seq<char>>(e@),
        },
{
    match parse_value(source) {
        Ok(v) => Ok(json_of_value(v)),
        Err(e) => Err(e),
    }
}

// ---------------------------------------------------------------------------
// Bridge to serde_json

/// Cloning a `serde_json::Number` gives the same number.
pub assume_specification[ <serde_json::Number as Clone>::clone ](
    n: &serde_json::Number,
) -> (r: serde_json::Number)
    ensures
        r == *n,
;

/// `serde_json::Number::from(u64)`: the number holds exactly that integer.
#[verifier::external_body]
fn number_from_u64(n: u64) -> (r: serde_json::Number)
    ensures
        r == number_of(n),
        number_u64(r) == Some(n),
{
    serde_json::Number::from(n)
}

/// `serde_json::Number::as_u64`: the unsigned integer that the number holds.
#[verifier::external_body]
fn number_as_u64(n: &serde_json::Number) -> (r: Option<u64>)
    ensures
        r == number_u64(*n),
{
    n.as_u64()
}

/// `Display` of a `serde_json::Number`: the number as JSON writes it.
#[verifier::external_body]
pub(crate) fn number_to_string(n: &serde_json::Number) -> (r: String)
    ensures
        r@ == number_text(*n),
{
    n.to_string()
}

/// One layer of a `serde_json` value.
pub enum Layer {
    Null,
    Bool(bool),
    Number(serde_json::Number),
    Text(String),
    Array(Vec<serde_json::Value>),
    Object(Vec<(String, serde_json::Value)>),
}

impl Layer {
    /// What a value made of this layer holds.
    pub open spec fn model(self) -> JsonModel {
        match self {
            Layer::Null => JsonModel::Null,
            Layer::Bool(b) => JsonModel::Bool(b),
            Layer::Number(n) => JsonModel::Number(n),
            Layer::Text(s) => JsonModel::Text(s@),
            Layer::Array(v) => JsonModel::Array(
                Seq::new(v@.len(), |i: int| value_model(v@[i])),
            ),
            Layer::Object(v) => JsonModel::Object(
                Seq::new(v@.len(), |i: int| (v@[i].0@, value_model(v@[i].1))),
            ),
        }
    }

    /// The keys of an object stand in increasing order.
    pub open spec fn ordered(self) -> bool {
        self.model() matches JsonModel::Object(entries) ==> keyed::keys_increase(entries)
    }
}

/// The outermost layer of a `serde_json::Value`. Its map is a `BTreeMap`, so
/// that the entries come out in increasing order of their keys.
#[verifier::external_body]
fn open_layer(v: serde_json::Value) -> (r: Layer)
    ensures
        r.model() == value_model(v),
        r.ordered(),
{
    match v {
        serde_json::Value::Null => Layer::Null,
        serde_json::Value::Bool(b) => Layer::Bool(b),
        serde_json::Value::Number(n) => Layer::Number(n),
        serde_json::Value::String(s) => Layer::Text(s),
        serde_json::Value::Array(items) => Layer::Array(items),
        serde_json::Value::Object(map) => Layer::Object(map.into_iter().collect()),
    }
}

/// The `serde_json::Value` with the given outermost layer. Its map is a
/// `BTreeMap`: entries with increasing keys are all kept, in that order.
#[verifier::external_body]
fn close_layer(layer: Layer) -> (r: serde_json::Value)
    requires
        layer.ordered(),
    ensures
        value_model(r) == layer.model(),
{
    match layer {
        Layer::Null => serde_json::Value::Null,
        Layer::Bool(b) => serde_json::Value::Bool(b),
        Layer::Number(n) => serde_json::Value::Number(n),
        Layer::Text(s) => serde_json::Value::String(s),
        Layer::Array(items) => serde_json::Value::Array(items),
        Layer::Object(entries) => serde_json::Value::Object(entries.into_iter().collect()),
    }
}

/// `serde_json::from_str` into a `Value`; the error is given by its message.
#[verifier::external_body]
fn parse_value(source: &str) -> (r: Result<serde_json::Value, String>)
    ensures
        match r {
            Ok(v) => parsed(source@) == Ok::<JsonModel, Seq<char>>(value_model(v)),
            Err(e) => parsed(source@) == Err::<JsonModel, Seq<char>>(e@),
        },
{
    match serde_json::from_str::<serde_json::Value>(source) {
        Ok(v) => Ok(v),
        Err(e) => Err(e.to_string()),
    }
}

/// `Display` of a `serde_json::Value`: its compact text. It depends on what the
/// value holds, and it fits on one line, since control characters are escaped.
/// `serde_json::from_str` makes the same value of it, where all numbers in the
/// value are unsigned integers, no more layers are nested than are read, and no
/// key is the one by which `serde_json` marks a text that is still to be read.
#[verifier::external_body]
fn print_compact(v: &serde_json::Value) -> (r: String)
    ensures
        r@ == compact_text(value_model(*v)),
        text::fills_line(r@),
        value_model(*v).reads_back() ==> parsed(r@) is Ok && parsed(r@)->Ok_0 == value_model(*v),
{
    v.to_string()
}

/// `serde_json::to_string_pretty` of a `Value`, which always succeeds: the
/// keys of its objects are strings and the text is written to memory. The text
/// depends on what the value holds, and does not start with white space.
/// `serde_json::from_str` makes the same value of it where it does so of the
/// compact text.
#[verifier::external_body]
fn print_pretty(v: &serde_json::Value) -> (r: Option<String>)
    ensures
        r is Some,
        r->0@ == pretty_text(value_model(*v)),
        r->0@.len() > 0 && !text::is_white_space(r->0@[0]),
        value_model(*v).reads_back() ==> parsed(r->0@) is Ok && parsed(r->0@)->Ok_0
            == value_model(*v),
{
    serde_json::to_string_pretty(v).ok()
}

/// The library's value for a `serde_json` value.
pub fn json_of_value(v: serde_json::Value) -> (r: Json)
    ensures
        r@ == value_model(v),
    decreases value_model(v),
{
    let ghost m = value_model(v);
    match open_layer(v) {
        Layer::Null => Json::Null,
        Layer::Bool(b) => Json::Bool(b),
        Layer::Number(n) => Json::Number(n),
        Layer::Text(s) => Json::Text(s),
        Layer::Array(values) => {
            let ghost all = values@;
            let mut values = values;
            let mut items: Vec<Json> = Vec::new();
            while values.len() > 0
                invariant
                    m == value_model(v),
                    m is Array,
                    m->Array_0 == Seq::new(all.len(), |i: int| value_model(all[i])),
                    values@.len() + items@.len() == all.len(),
                    values@ == all.skip(items@.len() as int),
                    forall|k: int|
                        0 <= k < items@.len() ==> (#[trigger] items@[k])@ == value_model(all[k]),
                decreases values@.len(),
            {
                let item = values.remove(0);
                proof {
                    assert(item == all[items@.len() as int]);
                    assert(m->Array_0[items@.len() as int] == value_model(item));
                    assert(values@ =~= all.skip(items@.len() as int + 1));
                }
                items.push(json_of_value(item));
            }
            proof {
                lemma_array(items);
                assert(items.deep_view() =~= m->Array_0);
            }
            Json::Array(items)
        },
        Layer::Object(values) => {
            let ghost all = values@;
            let mut values = values;
            let mut entries: Vec<(String, Json)> = Vec::new();
            while values.len() > 0
                invariant
                    m == value_model(v),
                    m is Object,
                    m->Object_0 == Seq::new(
                        all.len(),
                        |i: int| (all[i].0@, value_model(all[i].1)),
                    ),
                    values@.len() + entries@.len() == all.len(),
                    values@ == all.skip(entries@.len() as int),
                    forall|k: int|
                        0 <= k < entries@.len() ==> (#[trigger] entries@[k]).0@ == all[k].0@
                            && entries@[k].1@ == value_model(all[k].1),
                decreases values@.len(),
            {
                let item = values.remove(0);
                proof {
                    assert(item == all[entries@.len() as int]);
                    assert(m->Object_0[entries@.len() as int].1 == value_model(item.1));
                    assert(values@ =~= all.skip(entries@.len() as int + 1));
                    assert(decreases_to!(m => m->Object_0));
                    assert(decreases_to!(m->Object_0 => m->Object_0[entries@.len() as int]));
                    assert(decreases_to!(m->Object_0[entries@.len() as int] => m->Object_0[entries@.len() as int].1));
                }
                let value = json_of_value(item.1);
                entries.push((item.0, value));
            }
            proof {
                assert(object_model(JsonObject { entries }) =~= m->Object_0);
            }
            Json::Object(JsonObject { entries })
        },
    }
}

/// The `serde_json` value for a value of the library.
pub fn value_of_json(j: &Json) -> (r: serde_json::Value)
    ensures
        value_model(r) == j@,
    decreases j,
{
    match j {
        Json::Null => close_layer(Layer::Null),
        Json::Bool(b) => close_layer(Layer::Bool(*b)),
        Json::Number(n) => close_layer(Layer::Number(n.clone())),
        Json::Text(s) => close_layer(Layer::Text(s.clone())),
        Json::Array(v) => {
            let mut items: Vec<serde_json::Value> = Vec::new();
            let mut i: usize = 0;
            while i < v.len()
                invariant
                    i <= v@.len(),
                    items@.len() == i,
                    decreases_to!(*j => *v),
                    forall|k: int| 0 <= k < i ==> value_model(#[trigger] items@[k]) == v@[k]@,
                decreases v@.len() - i,
            {
                items.push(value_of_json(&v[i]));
                i = i + 1;
            }
            proof {
                lemma_array(*v);
                assert(Layer::Array(items).model()->Array_0 =~= v.deep_view());
            }
            close_layer(Layer::Array(items))
        },
        Json::Object(o) => {
            proof {
                use_type_invariant(o);
            }
            let mut entries: Vec<(String, serde_json::Value)> = Vec::new();
            let mut i: usize = 0;
            while i < o.entries.len()
                invariant
                    i <= o.entries@.len(),
                    entries@.len() == i,
                    decreases_to!(*j => *o),
                    forall|k: int|
                        0 <= k < i ==> (#[trigger] entries@[k]).0@ == o.entries@[k].0@
                            && value_model(entries@[k].1) == o.entries@[k].1@,
                decreases o.entries@.len() - i,
            {
                let value = value_of_json(&o.entries[i].1);
                entries.push((o.entries[i].0.clone(), value));
                i = i + 1;
            }
            proof {
                assert(Layer::Object(entries).model()->Object_0 =~= o@);
            }
            close_layer(Layer::Object(entries))
        },
    }
}

// ---------------------------------------------------------------------------
// Quoted texts

/// A text in quotes, as JSON writes it.
pub uninterp spec fn quoted(s: Seq<char>) -> Seq<char>;

/// `serde_json::to_string` of a string slice, which always succeeds. What it
/// gives depends on the text alone, and fits on one line: it stands in quotes,
/// and control characters are escaped.
#[verifier::external_body]
fn quote(s: &str) -> (r: Option<String>)
    ensures
        r is Some,
        r->0@ == quoted(s@),
        text::fills_line(r->0@),
{
    serde_json::to_string(s).ok()
}

/// A text in quotes.
pub fn quoted_text(s: &str) -> (r: String)
    ensures
        r@ == quoted(s@),
        text::fills_line(r@),
{
    match quote(s) {
        Some(r) => r,
        None => String::new(),
    }
}

impl JsonModel {
    /// An object whose keys stand in order.
    pub open spec fn tidy(self) -> bool {
        self matches JsonModel::Object(entries) && keyed::keys_increase(entries)
    }
}

/// What is put under a key of an object is found there, and what stands under
/// the other keys stays.
pub proof fn lemma_with_is_read(m: JsonModel, key: Seq<char>, value: JsonModel)
    requires
        m.tidy(),
    ensures
        m.with(key, value).tidy(),
        m.with(key, value).get(key) == Some(value),
        forall|other: Seq<char>|
            other != key ==> #[trigger] m.with(key, value).get(other) == m.get(other),
{
    let entries = m->Object_0;
    keyed::lemma_with_entry_order(entries, key, value);
    keyed::lemma_entry_of_with_entry(entries, key, value, key);
    assert forall|other: Seq<char>| other != key implies #[trigger] m.with(key, value).get(other)
        == m.get(other) by {
        keyed::lemma_entry_of_with_entry(entries, key, value, other);
    }
}

/// An object without entries is in order, and nothing is found in it.
pub proof fn lemma_empty_object_is_tidy(key: Seq<char>)
    ensures
        JsonModel::empty_object().tidy(),
        JsonModel::empty_object().get(key) is None,
{
}

/// What is taken from under a key is gone, and what stands under the other keys
/// stays.
pub proof fn lemma_without_is_read(m: JsonModel, key: Seq<char>)
    requires
        m.tidy(),
    ensures
        m.without(key).get(key) is None,
        forall|other: Seq<char>|
            other != key ==> #[trigger] m.without(key).get(other) == m.get(other),
{
    let entries = m->Object_0;
    keyed::lemma_entry_of_without_entry(entries, key, key);
    assert forall|other: Seq<char>| other != key implies #[trigger] m.without(key).get(other)
        == m.get(other) by {
        keyed::lemma_entry_of_without_entry(entries, key, other);
    }
}

/// What is read under a key is read by its kind: a text as a text, items as
/// items, and nothing in the place of another kind.
pub proof fn lemma_values_are_read_by_kind(m: JsonModel, key: Seq<char>, s: Seq<char>, items: Seq<JsonModel>)
    ensures
        m.get(key) == Some(JsonModel::Text(s)) <==> m.text_at(key) == Some(s),
        m.get(key) == Some(JsonModel::Array(items)) <==> m.items_at(key) == Some(items),
        m.text_at(key) is Some ==> m.items_at(key) is None && m.uint_at(key) is None,
        m.items_at(key) is Some ==> m.uint_at(key) is None,
{
}

} // verus!

//! JSON values as the library reads them, and the bridge to `serde_json`.
//!
//! [`Json`] mirrors `serde_json::Value` level by level. Numbers stay `serde_json::Number`,
//! because they may be floating point; the model [`NumberView`] speaks of their bits.

use crate::failure::Failure;
use crate::text::same_text;
use vstd::prelude::*;

verus! {

/// `serde_json::Number`, carried through unopened.
#[verifier::external_type_specification]
#[verifier::external_body]
pub struct ExJsonNumber(serde_json::Number);

/// `serde_json::Value`, the parser's own tree.
#[verifier::external_type_specification]
#[verifier::external_body]
pub struct ExJsonValue(serde_json::Value);

/// `serde_json::Error`, the parser's own error.
#[verifier::external_type_specification]
#[verifier::external_body]
pub struct ExJsonError(serde_json::Error);

/// The model of a JSON number.
pub enum NumberView {
    /// An integer from zero up.
    PosInt(u64),
    /// An integer below zero.
    NegInt(i64),
    /// A finite binary64 number, by its bits.
    Float(u64),
}

/// The model of a JSON value. An object is the sequence of its entries, in the order in
/// which they are walked.
pub enum JsonView {
    Null,
    Bool(bool),
    Number(NumberView),
    Text(Seq<char>),
    Array(Seq<JsonView>),
    Object(Seq<(Seq<char>, JsonView)>),
}

/// What a `serde_json::Number` holds.
pub uninterp spec fn number_view(number: serde_json::Number) -> NumberView;

/// What a `serde_json::Value` holds.
pub uninterp spec fn json_view(value: serde_json::Value) -> JsonView;

/// What `serde_json::from_str` makes of a text.
pub uninterp spec fn parsed_json(text: Seq<char>) -> Result<JsonView, serde_json::Error>;

/// What `serde_json::from_slice` makes of bytes.
pub uninterp spec fn parsed_json_bytes(bytes: Seq<u8>) -> Result<JsonView, serde_json::Error>;

/// The compact text that `serde_json` prints for a value.
pub uninterp spec fn json_text(value: JsonView) -> Seq<char>;

/// The message that a `serde_json::Error` prints.
pub uninterp spec fn json_error_text(error: serde_json::Error) -> Seq<char>;

/// Equality of JSON numbers: integers by value, floats by IEEE equality, never across the
/// two. Floats are finite, so they are equal when their bits are, or when both are zeros.
pub open spec fn numbers_agree(a: NumberView, b: NumberView) -> bool {
    match (a, b) {
        (NumberView::Float(x), NumberView::Float(y)) => {
            x == y || (is_zero_bits(x) && is_zero_bits(y))
        },
        _ => a == b,
    }
}

/// The bits of positive or negative zero.
pub open spec fn is_zero_bits(bits: u64) -> bool {
    bits == 0 || bits == 0x8000_0000_0000_0000
}

/// `a` comes before `b` in the order of strings, decided at position `at`.
pub open spec fn key_below_at(a: Seq<char>, b: Seq<char>, at: int) -> bool {
    &&& 0 <= at <= a.len()
    &&& at < b.len()
    &&& a.take(at) == b.take(at)
    &&& at < a.len() ==> a[at] < b[at]
}

/// `a` comes before `b` in the order of strings: by the first character that differs, or
/// because `a` ends first.
pub open spec fn key_below(a: Seq<char>, b: Seq<char>) -> bool {
    exists|at: int| key_below_at(a, b, at)
}

/// The keys of an object come in ascending order, so none comes twice.
pub open spec fn keys_ascend(entries: Seq<(Seq<char>, JsonView)>) -> bool {
    forall|i: int, j: int|
        0 <= i < j < entries.len() ==> key_below(
            (#[trigger] entries[i]).0,
            (#[trigger] entries[j]).0,
        )
}

/// Every object in the value has its keys in ascending order.
pub open spec fn well_formed(value: JsonView) -> bool
    decreases value,
{
    match value {
        JsonView::Array(items) => forall|i: int|
            0 <= i < items.len() ==> well_formed(#[trigger] items[i]),
        JsonView::Object(entries) => {
            &&& keys_ascend(entries)
            &&& forall|i: int| 0 <= i < entries.len() ==> well_formed((#[trigger] entries[i]).1)
        },
        _ => true,
    }
}

/// The first entry under `key` is the one at `at`.
pub open spec fn key_at(entries: Seq<(Seq<char>, JsonView)>, key: Seq<char>, at: int) -> bool {
    &&& 0 <= at < entries.len()
    &&& entries[at].0 == key
    &&& forall|i: int| 0 <= i < at ==> (#[trigger] entries[i]).0 != key
}

/// Some entry stands under `key`.
pub open spec fn has_key(entries: Seq<(Seq<char>, JsonView)>, key: Seq<char>) -> bool {
    exists|at: int| key_at(entries, key, at)
}

/// The position of the entry under `key`.
pub open spec fn position_of(entries: Seq<(Seq<char>, JsonView)>, key: Seq<char>) -> int {
    choose|at: int| key_at(entries, key, at)
}

/// The value under `key`.
pub open spec fn value_of(entries: Seq<(Seq<char>, JsonView)>, key: Seq<char>) -> JsonView {
    entries[position_of(entries, key)].1
}

/// The member `key` of a value; none where the value is no object or lacks the member.
pub open spec fn member(value: JsonView, key: Seq<char>) -> Option<JsonView> {
    match value {
        JsonView::Object(entries) => if has_key(entries, key) {
            Some(value_of(entries, key))
        } else {
            None
        },
        _ => None,
    }
}

/// Equality of JSON values: arrays item by item, objects entry by entry.
pub open spec fn values_agree(a: JsonView, b: JsonView) -> bool
    decreases a,
{
    match (a, b) {
        (JsonView::Null, JsonView::Null) => true,
        (JsonView::Bool(x), JsonView::Bool(y)) => x == y,
        (JsonView::Number(x), JsonView::Number(y)) => numbers_agree(x, y),
        (JsonView::Text(x), JsonView::Text(y)) => x == y,
        (JsonView::Array(x), JsonView::Array(y)) => {
            &&& x.len() == y.len()
            &&& forall|i: int|
                0 <= i < x.len() ==> values_agree(#[trigger] x[i], y[i])
        },
        (JsonView::Object(x), JsonView::Object(y)) => {
            &&& x.len() == y.len()
            &&& forall|i: int|
                0 <= i < x.len() ==> (#[trigger] x[i]).0 == y[i].0 && values_agree(x[i].1, y[i].1)
        },
        _ => false,
    }
}

/// A JSON value. The entries of an object stand in ascending order of their keys.
#[derive(Debug)]
pub enum Json {
    Null,
    Bool(bool),
    Number(serde_json::Number),
    Text(String),
    Array(Vec<Json>),
    Object(Vec<(String, Json)>),
}

/// The models of the items of an array.
pub open spec fn item_views(items: Seq<Json>) -> Seq<JsonView> {
    items.map_values(|item: Json| item@)
}

/// The models of the entries of an object.
pub open spec fn entry_views(entries: Seq<(String, Json)>) -> Seq<(Seq<char>, JsonView)> {
    entries.map_values(|entry: (String, Json)| (entry.0@, entry.1@))
}

/// The model of a value.
pub open spec fn model_of(json: Json) -> JsonView
    decreases json,
{
    match json {
        Json::Null => JsonView::Null,
        Json::Bool(b) => JsonView::Bool(b),
        Json::Number(n) => JsonView::Number(number_view(n)),
        Json::Text(s) => JsonView::Text(s@),
        Json::Array(items) => JsonView::Array(
            Seq::new(
                items@.len(),
                |i: int| if 0 <= i < items@.len() { model_of(items@[i]) } else { JsonView::Null },
            ),
        ),
        Json::Object(entries) => JsonView::Object(
            Seq::new(
                entries@.len(),
                |i: int|
                    if 0 <= i < entries@.len() {
                        (entries@[i].0@, model_of(entries@[i].1))
                    } else {
                        (Seq::empty(), JsonView::Null)
                    },
            ),
        ),
    }
}

impl View for Json {
    type V = JsonView;

    open spec fn view(&self) -> JsonView {
        model_of(*self)
    }
}

/// The model of an array is the sequence of its items' models.
pub proof fn array_view(items: Vec<Json>)
    ensures
        Json::Array(items)@ == JsonView::Array(item_views(items@)),
{
    if let JsonView::Array(views) = Json::Array(items)@ {
        assert(views =~= item_views(items@));
    }
}

/// The model of an object is the sequence of its entries' models.
pub proof fn object_view(entries: Vec<(String, Json)>)
    ensures
        Json::Object(entries)@ == JsonView::Object(entry_views(entries@)),
{
    if let JsonView::Object(views) = Json::Object(entries)@ {
        assert(views =~= entry_views(entries@));
    }
}

/// One level of a `serde_json::Value`.
enum Node {
    Null,
    Bool(bool),
    Number(serde_json::Number),
    Text(String),
    Array(Vec<serde_json::Value>),
    Object(Vec<(String, serde_json::Value)>),
}

/// The models of the items below an array node.
spec fn child_views(items: Seq<serde_json::Value>) -> Seq<JsonView> {
    items.map_values(|item: serde_json::Value| json_view(item))
}

/// The models of the entries below an object node.
spec fn field_views(entries: Seq<(String, serde_json::Value)>) -> Seq<(Seq<char>, JsonView)> {
    entries.map_values(|entry: (String, serde_json::Value)| (entry.0@, json_view(entry.1)))
}

/// The model of a node.
spec fn node_view(node: Node) -> JsonView {
    match node {
        Node::Null => JsonView::Null,
        Node::Bool(b) => JsonView::Bool(b),
        Node::Number(n) => JsonView::Number(number_view(n)),
        Node::Text(s) => JsonView::Text(s@),
        Node::Array(items) => JsonView::Array(child_views(items@)),
        Node::Object(entries) => JsonView::Object(field_views(entries@)),
    }
}

/// The entries of an object node stand in ascending order of their keys.
spec fn node_sorted(node: Node) -> bool {
    match node {
        Node::Object(entries) => keys_ascend(field_views(entries@)),
        _ => true,
    }
}

/// Takes the variants of `serde_json::Value` apart. The contract says that the node holds
/// what the value held, and that an object's entries come out in ascending order of their
/// keys: `serde_json::Map` is a `BTreeMap` here.
#[verifier::external_body]
fn open_value(value: serde_json::Value) -> (node: Node)
    ensures
        json_view(value) == node_view(node),
        node_sorted(node),
{
    match value {
        serde_json::Value::Null => Node::Null,
        serde_json::Value::Bool(b) => Node::Bool(b),
        serde_json::Value::Number(n) => Node::Number(n),
        serde_json::Value::String(s) => Node::Text(s),
        serde_json::Value::Array(items) => Node::Array(items),
        serde_json::Value::Object(map) => Node::Object(map.into_iter().collect()),
    }
}

/// Builds the variants of `serde_json::Value`. The contract says that the value holds what
/// the node held, for an object only where its keys ascend: a `serde_json::Map` sorts them.
#[verifier::external_body]
fn close_value(node: Node) -> (value: serde_json::Value)
    ensures
        node_sorted(node) ==> json_view(value) == node_view(node),
{
    match node {
        Node::Null => serde_json::Value::Null,
        Node::Bool(b) => serde_json::Value::Bool(b),
        Node::Number(n) => serde_json::Value::Number(n),
        Node::Text(s) => serde_json::Value::String(s),
        Node::Array(items) => serde_json::Value::Array(items),
        Node::Object(entries) => serde_json::Value::Object(entries.into_iter().collect()),
    }
}

/// `serde_json::Number::clone`: the copy holds the same number.
pub assume_specification[ <serde_json::Number as Clone>::clone ](
    number: &serde_json::Number,
) -> (copy: serde_json::Number)
    ensures
        number_view(copy) == number_view(*number),
;

/// `serde_json::Number`'s `==`: integers by value, floats by IEEE equality, which on the
/// finite floats that a number can hold is equality of bits or both being a zero.
#[verifier::external_body]
fn same_number(a: &serde_json::Number, b: &serde_json::Number) -> (same: bool)
    ensures
        same == numbers_agree(number_view(*a), number_view(*b)),
{
    a == b
}

/// `serde_json::Number::from` on a `u64`: the number is that integer.
#[verifier::external_body]
pub(crate) fn number_from(n: u64) -> (number: serde_json::Number)
    ensures
        number_view(number) == NumberView::PosInt(n),
{
    serde_json::Number::from(n)
}

/// Calls `serde_json::from_str` for a `serde_json::Value`. The contract only gives the
/// result a name, `parsed_json`: the JSON grammar is left unsaid.
#[verifier::external_body]
fn parse_str(text: &str) -> (r: Result<serde_json::Value, serde_json::Error>)
    ensures
        (match r {
            Ok(value) => Ok(json_view(value)),
            Err(error) => Err(error),
        }) == parsed_json(text@),
{
    serde_json::from_str(text)
}

/// Calls `serde_json::from_slice` for a `serde_json::Value`. The contract only gives the
/// result a name, `parsed_json_bytes`: the JSON grammar is left unsaid.
#[verifier::external_body]
fn parse_slice(bytes: &[u8]) -> (r: Result<serde_json::Value, serde_json::Error>)
    ensures
        (match r {
            Ok(value) => Ok(json_view(value)),
            Err(error) => Err(error),
        }) == parsed_json_bytes(bytes@),
{
    serde_json::from_slice(bytes)
}

/// Calls `serde_json::Value`'s `Display`. The contract only gives the printed text a name,
/// `json_text`.
#[verifier::external_body]
fn print_value(value: &serde_json::Value) -> (text: String)
    ensures
        text@ == json_text(json_view(*value)),
{
    value.to_string()
}

/// Calls `serde_json::Error`'s `Display`. The contract only gives the printed text a name,
/// `json_error_text`.
#[verifier::external_body]
fn print_error(error: &serde_json::Error) -> (text: String)
    ensures
        text@ == json_error_text(*error),
{
    error.to_string()
}

/// The items of a well-formed array are well formed.
pub proof fn items_are_well_formed(items: Seq<JsonView>)
    requires
        well_formed(JsonView::Array(items)),
    ensures
        forall|i: int| 0 <= i < items.len() ==> well_formed(#[trigger] items[i]),
{
    let whole = JsonView::Array(items);
    let same = whole->Array_0;
    assert(forall|i: int| 0 <= i < same.len() ==> well_formed(#[trigger] same[i]));
    assert(same == items);
}

/// A level of an object decreases to the values in it.
pub proof fn entry_is_smaller(entries: Seq<(Seq<char>, JsonView)>, i: int)
    requires
        0 <= i < entries.len(),
    ensures
        decreases_to!(JsonView::Object(entries) => entries[i].1),
{
    let whole = JsonView::Object(entries);
    assert(decreases_to!(whole => whole->Object_0));
    assert(decreases_to!(entries => entries[i]));
    assert(decreases_to!(entries[i] => entries[i].1));
}

/// A level of an array decreases to the items in it.
pub proof fn item_is_smaller(items: Seq<JsonView>, i: int)
    requires
        0 <= i < items.len(),
    ensures
        decreases_to!(JsonView::Array(items) => items[i]),
{
    let whole = JsonView::Array(items);
    assert(decreases_to!(whole => whole->Array_0));
    assert(decreases_to!(items => items[i]));
}

impl Json {
    /// Converts a parser tree.
    pub fn from_value(value: serde_json::Value) -> (json: Json)
        ensures
            json@ == json_view(value),
            well_formed(json@),
        decreases json_view(value),
    {
        match open_value(value) {
            Node::Null => Json::Null,
            Node::Bool(b) => Json::Bool(b),
            Node::Number(n) => Json::Number(n),
            Node::Text(s) => Json::Text(s),
            Node::Array(items) => {
                let ghost all = items@;
                let mut out: Vec<Json> = Vec::new();
                for item in iter: items
                    invariant
                        iter.seq() == all,
                        json_view(value) == JsonView::Array(child_views(all)),
                        out@.len() == iter.index(),
                        forall|i: int|
                            0 <= i < out@.len() ==> (#[trigger] out@[i])@ == json_view(all[i])
                                && well_formed(out@[i]@),
                {
                    proof {
                        item_is_smaller(child_views(all), iter.index());
                    }
                    out.push(Json::from_value(item));
                }
                proof {
                    array_view(out);
                    assert(item_views(out@) =~= child_views(all));
                    assert forall|i: int| 0 <= i < child_views(all).len() implies well_formed(
                        #[trigger] child_views(all)[i],
                    ) by {
                        assert(well_formed(out@[i]@));
                    }
                }
                Json::Array(out)
            },
            Node::Object(entries) => {
                let ghost all = entries@;
                let mut out: Vec<(String, Json)> = Vec::new();
                for entry in iter: entries
                    invariant
                        iter.seq() == all,
                        json_view(value) == JsonView::Object(field_views(all)),
                        out@.len() == iter.index(),
                        forall|i: int|
                            0 <= i < out@.len() ==> (#[trigger] out@[i]).1@ == json_view(all[i].1)
                                && out@[i].0 == all[i].0 && well_formed(out@[i].1@),
                {
                    proof {
                        entry_is_smaller(field_views(all), iter.index());
                    }
                    let (key, child) = entry;
                    out.push((key, Json::from_value(child)));
                }
                proof {
                    object_view(out);
                    assert(entry_views(out@) =~= field_views(all));
                    assert forall|i: int| 0 <= i < field_views(all).len() implies well_formed(
                        (#[trigger] field_views(all)[i]).1,
                    ) by {
                        assert(well_formed(out@[i].1@));
                    }
                }
                Json::Object(out)
            },
        }
    }

    /// Converts to a parser tree.
    pub fn to_value(&self) -> (value: serde_json::Value)
        ensures
            well_formed(self@) ==> json_view(value) == self@,
        decreases self@,
    {
        match self {
            Json::Null => close_value(Node::Null),
            Json::Bool(b) => close_value(Node::Bool(*b)),
            Json::Number(n) => close_value(Node::Number(n.clone())),
            Json::Text(s) => close_value(Node::Text(s.clone())),
            Json::Array(items) => {
                let ghost views = item_views(items@);
                proof {
                    array_view(*items);
                }
                let mut out: Vec<serde_json::Value> = Vec::new();
                let mut i: usize = 0;
                while i < items.len()
                    invariant
                        self@ == JsonView::Array(views),
                        views == item_views(items@),
                        i <= items@.len(),
                        out@.len() == i,
                        forall|k: int|
                            0 <= k < i && well_formed(views[k]) ==> json_view(#[trigger] out@[k])
                                == views[k],
                    decreases items@.len() - i,
                {
                    proof {
                        item_is_smaller(views, i as int);
                    }
                    out.push(items[i].to_value());
                    i += 1;
                }
                proof {
                    if well_formed(self@) {
                        items_are_well_formed(views);
                        assert(child_views(out@) =~= views);
                    }
                }
                close_value(Node::Array(out))
            },
            Json::Object(entries) => {
                let ghost views = entry_views(entries@);
                proof {
                    object_view(*entries);
                }
                let mut out: Vec<(String, serde_json::Value)> = Vec::new();
                let mut i: usize = 0;
                while i < entries.len()
                    invariant
                        self@ == JsonView::Object(views),
                        views == entry_views(entries@),
                        i <= entries@.len(),
                        out@.len() == i,
                        forall|k: int|
                            0 <= k < i ==> (#[trigger] out@[k]).0@ == views[k].0 && (well_formed(
                                views[k].1,
                            ) ==> json_view(out@[k].1) == views[k].1),
                    decreases entries@.len() - i,
                {
                    let entry = &entries[i];
                    proof {
                        entry_is_smaller(views, i as int);
                    }
                    out.push((entry.0.clone(), entry.1.to_value()));
                    i += 1;
                }
                proof {
                    if well_formed(self@) {
                        assert(field_views(out@) =~= views);
                    }
                }
                close_value(Node::Object(out))
            },
        }
    }

    /// Parses a JSON text.
    pub fn parse(text: &str) -> (r: Result<Json, Failure>)
        ensures
            match parsed_json(text@) {
                Ok(value) => r matches Ok(json) && json@ == value && well_formed(value),
                Err(error) => r == Err::<Json, Failure>(Failure::Json(error)),
            },
    {
        match parse_str(text) {
            Ok(value) => Ok(Json::from_value(value)),
            Err(error) => Err(Failure::Json(error)),
        }
    }

    /// Parses JSON bytes; the error is the parser's message.
    pub fn parse_bytes(bytes: &[u8]) -> (r: Result<Json, String>)
        ensures
            match parsed_json_bytes(bytes@) {
                Ok(value) => r matches Ok(json) && json@ == value && well_formed(value),
                Err(error) => r matches Err(message) && message@ == json_error_text(error),
            },
    {
        match parse_slice(bytes) {
            Ok(value) => Ok(Json::from_value(value)),
            Err(error) => Err(print_error(&error)),
        }
    }

    /// Prints the value as compact JSON.
    pub fn print(&self) -> (text: String)
        ensures
            well_formed(self@) ==> text@ == json_text(self@),
    {
        print_value(&self.to_value())
    }

    /// The JSON number `n`.
    pub fn number(n: u64) -> (json: Json)
        ensures
            json@ == JsonView::Number(NumberView::PosInt(n)),
    {
        Json::Number(number_from(n))
    }

    /// Where the entry under `key` stands among `entries`.
    pub(crate) fn find(entries: &Vec<(String, Json)>, key: &str) -> (r: Option<usize>)
        ensures
            match r {
                Some(at) => key_at(entry_views(entries@), key@, at as int),
                None => !has_key(entry_views(entries@), key@),
            },
    {
        let ghost views = entry_views(entries@);
        let mut i: usize = 0;
        while i < entries.len()
            invariant
                i <= entries@.len(),
                views == entry_views(entries@),
                forall|k: int| 0 <= k < i ==> (#[trigger] views[k]).0 != key@,
            decreases entries@.len() - i,
        {
            assert(views[i as int].0 == entries@[i as int].0@);
            if same_text(entries[i].0.as_str(), key) {
                return Some(i);
            }
            i += 1;
        }
        None
    }

    /// The member `key`; none where the value is no object or lacks the member.
    pub fn get(&self, key: &str) -> (r: Option<&Json>)
        ensures
            match r {
                Some(json) => member(self@, key@) == Some(json@),
                None => member(self@, key@) is None,
            },
    {
        match self {
            Json::Object(entries) => {
                proof {
                    object_view(*entries);
                }
                match Json::find(entries, key) {
                    Some(at) => {
                        proof {
                            position_is_unique(entry_views(entries@), key@, at as int);
                        }
                        Some(&entries[at].1)
                    },
                    None => None,
                }
            },
            _ => None,
        }
    }

    /// Whether two values are equal.
    pub fn agrees_with(&self, other: &Json) -> (r: bool)
        ensures
            r == values_agree(self@, other@),
        decreases self,
    {
        match (self, other) {
            (Json::Null, Json::Null) => true,
            (Json::Bool(a), Json::Bool(b)) => *a == *b,
            (Json::Number(a), Json::Number(b)) => same_number(a, b),
            (Json::Text(a), Json::Text(b)) => same_text(a.as_str(), b.as_str()),
            (Json::Array(a), Json::Array(b)) => {
                proof {
                    array_view(*a);
                    array_view(*b);
                }
                if a.len() != b.len() {
                    return false;
                }
                let mut i: usize = 0;
                while i < a.len()
                    invariant
                        self == Json::Array(*a),
                        self@ == JsonView::Array(item_views(a@)),
                        other@ == JsonView::Array(item_views(b@)),
                        i <= a@.len() == b@.len(),
                        forall|k: int|
                            0 <= k < i ==> values_agree(
                                #[trigger] item_views(a@)[k],
                                item_views(b@)[k],
                            ),
                    decreases a@.len() - i,
                {
                    assert(item_views(a@)[i as int] == a@[i as int]@);
                    assert(item_views(b@)[i as int] == b@[i as int]@);
                    if !a[i].agrees_with(&b[i]) {
                        return false;
                    }
                    i += 1;
                }
                true
            },
            (Json::Object(a), Json::Object(b)) => {
                proof {
                    object_view(*a);
                    object_view(*b);
                }
                if a.len() != b.len() {
                    return false;
                }
                let mut i: usize = 0;
                while i < a.len()
                    invariant
                        self == Json::Object(*a),
                        self@ == JsonView::Object(entry_views(a@)),
                        other@ == JsonView::Object(entry_views(b@)),
                        i <= a@.len() == b@.len(),
                        forall|k: int|
                            0 <= k < i ==> (#[trigger] entry_views(a@)[k]).0 == entry_views(b@)[k].0
                                && values_agree(entry_views(a@)[k].1, entry_views(b@)[k].1),
                    decreases a@.len() - i,
                {
                    assert(entry_views(a@)[i as int] == (a@[i as int].0@, a@[i as int].1@));
                    assert(entry_views(b@)[i as int] == (b@[i as int].0@, b@[i as int].1@));
                    if !same_text(a[i].0.as_str(), b[i].0.as_str()) {
                        return false;
                    }
                    if !a[i].1.agrees_with(&b[i].1) {
                        return false;
                    }
                    i += 1;
                }
                true
            },
            _ => false,
        }
    }
}

/// Only one entry is the first under its key.
pub proof fn position_is_unique(entries: Seq<(Seq<char>, JsonView)>, key: Seq<char>, at: int)
    requires
        key_at(entries, key, at),
    ensures
        has_key(entries, key),
        position_of(entries, key) == at,
        value_of(entries, key) == entries[at].1,
{
    let found = position_of(entries, key);
    assert(key_at(entries, key, found));
    if found < at {
        assert(entries[found].0 != key);
    }
    if at < found {
        assert(entries[at].0 != key);
    }
}

/// In an object whose keys ascend no key stands twice.
pub proof fn ascending_keys_are_distinct(entries: Seq<(Seq<char>, JsonView)>, i: int, j: int)
    requires
        keys_ascend(entries),
        0 <= i < j < entries.len(),
    ensures
        entries[i].0 != entries[j].0,
{
    assert(key_below(entries[i].0, entries[j].0));
}

/// Every value equals itself.
pub proof fn agreement_is_reflexive(value: JsonView)
    ensures
        values_agree(value, value),
    decreases value,
{
    match value {
        JsonView::Array(items) => {
            assert forall|i: int| 0 <= i < items.len() implies values_agree(
                #[trigger] items[i],
                items[i],
            ) by {
                agreement_is_reflexive(items[i]);
            }
        },
        JsonView::Object(entries) => {
            assert forall|i: int| 0 <= i < entries.len() implies values_agree(
                (#[trigger] entries[i]).1,
                entries[i].1,
            ) by {
                agreement_is_reflexive(entries[i].1);
            }
        },
        _ => {},
    }
}

/// Equality does not depend on the side.
pub proof fn agreement_is_symmetric(a: JsonView, b: JsonView)
    ensures
        values_agree(a, b) == values_agree(b, a),
    decreases a,
{
    match (a, b) {
        (JsonView::Array(x), JsonView::Array(y)) => {
            if x.len() == y.len() {
                assert forall|i: int| 0 <= i < x.len() implies values_agree(#[trigger] x[i], y[i])
                    == values_agree(y[i], x[i]) by {
                    agreement_is_symmetric(x[i], y[i]);
                }
                assert(values_agree(b, a) == forall|i: int|
                    0 <= i < y.len() ==> values_agree(#[trigger] y[i], x[i]));
            }
        },
        (JsonView::Object(x), JsonView::Object(y)) => {
            if x.len() == y.len() {
                assert forall|i: int| 0 <= i < x.len() implies values_agree(
                    (#[trigger] x[i]).1,
                    y[i].1,
                ) == values_agree(y[i].1, x[i].1) by {
                    agreement_is_symmetric(x[i].1, y[i].1);
                }
            }
        },
        _ => {},
    }
}

/// The value with every negative zero written as a positive one.
pub open spec fn zeros_unsigned(value: JsonView) -> JsonView
    decreases value,
{
    match value {
        JsonView::Number(NumberView::Float(bits)) => if bits == 0x8000_0000_0000_0000 {
            JsonView::Number(NumberView::Float(0))
        } else {
            value
        },
        JsonView::Array(items) => JsonView::Array(
            Seq::new(
                items.len(),
                |i: int|
                    if 0 <= i < items.len() {
                        zeros_unsigned(items[i])
                    } else {
                        JsonView::Null
                    },
            ),
        ),
        JsonView::Object(entries) => JsonView::Object(
            Seq::new(
                entries.len(),
                |i: int|
                    if 0 <= i < entries.len() {
                        (entries[i].0, zeros_unsigned(entries[i].1))
                    } else {
                        (Seq::empty(), JsonView::Null)
                    },
            ),
        ),
        _ => value,
    }
}

/// The value holds no floating-point number anywhere.
pub open spec fn holds_no_float(value: JsonView) -> bool
    decreases value,
{
    match value {
        JsonView::Number(number) => !(number is Float),
        JsonView::Array(items) => forall|i: int|
            0 <= i < items.len() ==> holds_no_float(#[trigger] items[i]),
        JsonView::Object(entries) => forall|i: int|
            0 <= i < entries.len() ==> holds_no_float((#[trigger] entries[i]).1),
        _ => true,
    }
}

/// Two values agree exactly where they are the same up to the signs of zeros.
pub proof fn agreement_is_sameness(a: JsonView, b: JsonView)
    ensures
        values_agree(a, b) == (zeros_unsigned(a) == zeros_unsigned(b)),
    decreases a,
{
    let x = zeros_unsigned(a);
    let y = zeros_unsigned(b);
    match (a, b) {
        (JsonView::Array(p), JsonView::Array(q)) => {
            let u = x->Array_0;
            let v = y->Array_0;
            assert(u.len() == p.len() && v.len() == q.len());
            if p.len() == q.len() {
                assert forall|i: int| 0 <= i < p.len() implies values_agree(#[trigger] p[i], q[i])
                    == (u[i] == v[i]) by {
                    item_is_smaller(p, i);
                    agreement_is_sameness(p[i], q[i]);
                }
                if values_agree(a, b) {
                    assert forall|i: int| 0 <= i < u.len() implies u[i] == v[i] by {
                        assert(values_agree(p[i], q[i]));
                    }
                    assert(u =~= v);
                }
                if x == y {
                    assert forall|i: int| 0 <= i < p.len() implies values_agree(
                        #[trigger] p[i],
                        q[i],
                    ) by {
                        assert(u[i] == v[i]);
                    }
                }
            }
        },
        (JsonView::Object(p), JsonView::Object(q)) => {
            let u = x->Object_0;
            let v = y->Object_0;
            assert(u.len() == p.len() && v.len() == q.len());
            if p.len() == q.len() {
                assert forall|i: int| 0 <= i < p.len() implies ((#[trigger] p[i]).0 == q[i].0
                    && values_agree(p[i].1, q[i].1)) == (u[i] == v[i]) by {
                    entry_is_smaller(p, i);
                    agreement_is_sameness(p[i].1, q[i].1);
                    assert(u[i] == (p[i].0, zeros_unsigned(p[i].1)));
                    assert(v[i] == (q[i].0, zeros_unsigned(q[i].1)));
                }
                if values_agree(a, b) {
                    assert forall|i: int| 0 <= i < u.len() implies u[i] == v[i] by {
                        assert(p[i].0 == q[i].0 && values_agree(p[i].1, q[i].1));
                    }
                    assert(u =~= v);
                }
                if x == y {
                    assert forall|i: int| 0 <= i < p.len() implies (#[trigger] p[i]).0 == q[i].0
                        && values_agree(p[i].1, q[i].1) by {
                        assert(u[i] == v[i]);
                    }
                }
            }
        },
        _ => {},
    }
}

/// A value without floating-point numbers has no zeros to unsign.
proof fn integers_keep_their_zeros(value: JsonView)
    requires
        holds_no_float(value),
    ensures
        zeros_unsigned(value) == value,
    decreases value,
{
    match value {
        JsonView::Array(items) => {
            let same = value->Array_0;
            assert(forall|i: int| 0 <= i < same.len() ==> holds_no_float(#[trigger] same[i]));
            let out = zeros_unsigned(value)->Array_0;
            assert forall|i: int| 0 <= i < items.len() implies out[i] == items[i] by {
                item_is_smaller(items, i);
                assert(holds_no_float(same[i]));
                integers_keep_their_zeros(items[i]);
            }
            assert(out =~= items);
        },
        JsonView::Object(entries) => {
            let out = zeros_unsigned(value)->Object_0;
            assert forall|i: int| 0 <= i < entries.len() implies out[i] == entries[i] by {
                entry_is_smaller(entries, i);
                assert(holds_no_float(entries[i].1));
                integers_keep_their_zeros(entries[i].1);
            }
            assert(out =~= entries);
        },
        _ => {},
    }
}

/// Comparing two values finds them equal exactly where they are the same up to the signs of
/// zeros; where one holds no floating-point number, exactly where they are the same.
pub proof fn comparison_is_exact(a: Json, b: Json, same: bool)
    requires
        call_ensures(Json::agrees_with, (&a, &b), same),
    ensures
        same == (zeros_unsigned(a@) == zeros_unsigned(b@)),
        holds_no_float(a@) && holds_no_float(b@) ==> same == (a@ == b@),
        same ==> a@ is Null == b@ is Null && a@ is Bool == b@ is Bool && a@ is Number
            == b@ is Number && a@ is Text == b@ is Text && a@ is Array == b@ is Array
            && a@ is Object == b@ is Object,
        a@ is Text && b@ is Text ==> same == (a@->Text_0 == b@->Text_0),
{
    agreement_is_sameness(a@, b@);
    if holds_no_float(a@) && holds_no_float(b@) {
        integers_keep_their_zeros(a@);
        integers_keep_their_zeros(b@);
    }
}

/// Values that both agree with a third agree with each other.
pub proof fn agreement_is_transitive(a: JsonView, b: JsonView, c: JsonView)
    requires
        values_agree(a, b),
        values_agree(b, c),
    ensures
        values_agree(a, c),
{
    agreement_is_sameness(a, b);
    agreement_is_sameness(b, c);
    agreement_is_sameness(a, c);
}

/// An entry stands under a key exactly where some entry has that key.
pub proof fn keys_are_held_by_entries(entries: Seq<(Seq<char>, JsonView)>, key: Seq<char>)
    ensures
        has_key(entries, key) == exists|i: int| 0 <= i < entries.len() && (#[trigger] entries[i]).0 == key,
    decreases entries.len(),
{
    if has_key(entries, key) {
        let at = position_of(entries, key);
        assert(key_at(entries, key, at));
        assert(entries[at].0 == key);
    }
    if exists|i: int| 0 <= i < entries.len() && (#[trigger] entries[i]).0 == key {
        let i = choose|i: int| 0 <= i < entries.len() && (#[trigger] entries[i]).0 == key;
        first_entry_under(entries, key, i);
    }
}

/// Some entry is the first under a key that an entry has.
proof fn first_entry_under(entries: Seq<(Seq<char>, JsonView)>, key: Seq<char>, i: int)
    requires
        0 <= i < entries.len(),
        entries[i].0 == key,
    ensures
        has_key(entries, key),
    decreases i,
{
    if exists|j: int| 0 <= j < i && (#[trigger] entries[j]).0 == key {
        let j = choose|j: int| 0 <= j < i && (#[trigger] entries[j]).0 == key;
        first_entry_under(entries, key, j);
    } else {
        assert(key_at(entries, key, i));
    }
}

/// Asking a value for a member finds it exactly where the value is an object with an entry
/// of that key, and finds the value of that entry.
pub proof fn members_are_entries(json: Json, key: &str, found: Option<&Json>)
    requires
        call_ensures(Json::get, (&json, key), found),
    ensures
        found is Some ==> json@ is Object,
        json@ matches JsonView::Object(entries) ==> {
            &&& found is Some == exists|i: int|
                0 <= i < entries.len() && (#[trigger] entries[i]).0 == key@
            &&& forall|i: int|
                found is Some && 0 <= i < entries.len() && (#[trigger] entries[i]).0 == key@ && (
                forall|j: int| 0 <= j < i ==> (#[trigger] entries[j]).0 != key@)
                    ==> entries[i].1 == found->0@
        },
{
    if let JsonView::Object(entries) = json@ {
        keys_are_held_by_entries(entries, key@);
        assert forall|i: int|
            found is Some && 0 <= i < entries.len() && (#[trigger] entries[i]).0 == key@ && (
            forall|j: int|
                0 <= j < i ==> (#[trigger] entries[j]).0 != key@) implies entries[i].1
            == found->0@ by {
            position_is_unique(entries, key@, i);
        }
    }
}

/// The model of a value holds what the value holds.
pub proof fn models_are_faithful(json: Json)
    ensures
        json is Null == json@ is Null,
        json matches Json::Bool(b) ==> json@ == JsonView::Bool(b),
        json matches Json::Number(n) ==> json@ == JsonView::Number(number_view(n)),
        json matches Json::Text(text) ==> json@ == JsonView::Text(text@),
        json matches Json::Array(items) ==> json@ is Array && json@->Array_0.len() == items@.len()
            && forall|i: int|
            0 <= i < items@.len() ==> #[trigger] json@->Array_0[i] == items@[i]@,
        json matches Json::Object(entries) ==> json@ is Object && json@->Object_0.len()
            == entries@.len() && forall|i: int|
            0 <= i < entries@.len() ==> #[trigger] json@->Object_0[i] == (
                entries@[i].0@,
                entries@[i].1@,
            ),
{
    match json {
        Json::Array(items) => array_view(items),
        Json::Object(entries) => object_view(entries),
        _ => {},
    }
}

/// Every two different keys stand in one order, and none comes before itself.
pub proof fn keys_are_ordered(a: Seq<char>, b: Seq<char>)
    ensures
        !key_below(a, a),
        !(key_below(a, b) && key_below(b, a)),
        a != b ==> key_below(a, b) || key_below(b, a),
{
    if key_below(a, a) {
        let at = choose|at: int| key_below_at(a, a, at);
        assert(key_below_at(a, a, at));
    }
    if key_below(a, b) && key_below(b, a) {
        let i = choose|at: int| key_below_at(a, b, at);
        let j = choose|at: int| key_below_at(b, a, at);
        assert(key_below_at(a, b, i) && key_below_at(b, a, j));
        if i < j {
            assert(b.take(j)[i] == a.take(j)[i]);
            assert(b.take(j)[i] == b[i] && a.take(j)[i] == a[i]);
        } else if j < i {
            assert(b.take(i)[j] == a.take(i)[j]);
            assert(b.take(i)[j] == b[j] && a.take(i)[j] == a[j]);
        }
    }
    if a != b {
        assert(a.take(0) =~= b.take(0));
        differing_texts_part(a, b, 0);
    }
}

/// Texts that are alike up to `from` and differ are in one order.
proof fn differing_texts_part(a: Seq<char>, b: Seq<char>, from: int)
    requires
        a != b,
        0 <= from <= a.len(),
        from <= b.len(),
        a.take(from) == b.take(from),
    ensures
        key_below(a, b) || key_below(b, a),
    decreases a.len() - from,
{
    if from == a.len() {
        if from == b.len() {
            assert(a.take(from) =~= a && b.take(from) =~= b);
        } else {
            assert(key_below_at(a, b, from));
        }
    } else if from == b.len() {
        assert(key_below_at(b, a, from));
    } else if a[from] == b[from] {
        assert(a.take(from + 1) =~= a.take(from).push(a[from]));
        assert(b.take(from + 1) =~= b.take(from).push(b[from]));
        differing_texts_part(a, b, from + 1);
    } else if a[from] < b[from] {
        assert(key_below_at(a, b, from));
    } else {
        assert(key_below_at(b, a, from));
    }
}

/// A text either fails with the parser's own error or gives the parser's value, in which keys
/// ascend.
pub proof fn parsing_is_the_parsers(text: &str, parsed: Result<Json, Failure>)
    requires
        call_ensures(Json::parse, (text,), parsed),
    ensures
        match parsed {
            Ok(json) => parsed_json(text@) == Ok::<JsonView, serde_json::Error>(json@)
                && well_formed(json@),
            Err(failure) => failure is Json && parsed_json(text@) == Err::<
                JsonView,
                serde_json::Error,
            >(failure->Json_0),
        },
{
}

/// Some entry has the key.
pub open spec fn names(entries: Seq<(Seq<char>, JsonView)>, key: Seq<char>) -> bool {
    exists|i: int| 0 <= i < entries.len() && (#[trigger] entries[i]).0 == key
}

/// The entry at `at` is the first with the key.
pub open spec fn first_named(
    entries: Seq<(Seq<char>, JsonView)>,
    key: Seq<char>,
    at: int,
) -> bool {
    &&& 0 <= at < entries.len()
    &&& entries[at].0 == key
    &&& forall|i: int| 0 <= i < at ==> (#[trigger] entries[i]).0 != key
}

/// `found` is what stands under the key in an object.
pub open spec fn stands_under(value: JsonView, key: Seq<char>, found: JsonView) -> bool {
    match value {
        JsonView::Object(entries) => exists|at: int| #[trigger]
            first_named(entries, key, at) && entries[at].1 == found,
        _ => false,
    }
}

/// The member of a value is what stands under its key.
pub proof fn members_stand_under_their_key(value: JsonView, key: Seq<char>)
    ensures
        forall|found: JsonView| #[trigger]
            stands_under(value, key, found) == (member(value, key) == Some(found)),
{
    if let JsonView::Object(entries) = value {
        assert forall|found: JsonView| #[trigger] stands_under(value, key, found) == (member(
            value,
            key,
        ) == Some(found)) by {
            if stands_under(value, key, found) {
                let at = choose|at: int| #[trigger]
                    first_named(entries, key, at) && entries[at].1 == found;
                assert(key_at(entries, key, at));
                position_is_unique(entries, key, at);
            }
            if member(value, key) == Some(found) {
                let at = position_of(entries, key);
                assert(key_at(entries, key, at));
                assert(first_named(entries, key, at));
            }
        }
    }
}

/// A value that goes to the parser's tree and back is the value that it was, and so is a tree
/// that goes the other way.
pub proof fn trees_go_both_ways(
    json: Json,
    tree: serde_json::Value,
    back: Json,
    other: serde_json::Value,
    opened: Json,
    closed: serde_json::Value,
)
    requires
        well_formed(json@),
        call_ensures(Json::to_value, (&json,), tree),
        call_ensures(Json::from_value, (tree,), back),
        call_ensures(Json::from_value, (other,), opened),
        call_ensures(Json::to_value, (&opened,), closed),
    ensures
        back@ == json@,
        json_view(closed) == json_view(other),
        well_formed(opened@),
{
}

/// Values are printed as the parser's crate prints them, a count becomes the integer that it
/// is, and bytes are parsed as the parser parses them.
pub proof fn values_are_printed_and_counted(
    json: Json,
    text: String,
    n: u64,
    number: Json,
    bytes: &[u8],
    parsed: Result<Json, String>,
)
    requires
        well_formed(json@),
        call_ensures(Json::print, (&json,), text),
        call_ensures(Json::number, (n,), number),
        call_ensures(Json::parse_bytes, (bytes,), parsed),
    ensures
        text@ == json_text(json@),
        number@ == JsonView::Number(NumberView::PosInt(n)),
        parsed is Ok == parsed_json_bytes(bytes@) is Ok,
        parsed is Ok ==> (parsed->Ok_0)@ == parsed_json_bytes(bytes@)->Ok_0 && well_formed(
            (parsed->Ok_0)@,
        ),
        parsed is Err ==> (parsed->Err_0)@ == json_error_text(parsed_json_bytes(bytes@)->Err_0),
{
}

} // verus!

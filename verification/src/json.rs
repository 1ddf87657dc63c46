//! JSON values as the library reads and builds them, and the three ways in
//! which they meet text: parsing, compact printing and indented printing.
//! The text itself is `serde_json`'s work; this module carries values to and
//! from its `Value` tree one node at a time.

use vstd::prelude::*;

verus! {

/// A JSON value.
#[derive(Debug, PartialEq)]
pub enum Json {
    Null,
    Bool(bool),
    /// A number that `serde_json` keeps as an unsigned integer.
    Integer(u64),
    /// Any other number, in the form that `serde_json` keeps it in.
    Number(serde_json::Number),
    String(String),
    Array(Vec<Json>),
    /// Named fields. Where a name occurs twice, the later field counts.
    Object(Vec<(String, Json)>),
}

/// The value that a [`Json`] stands for. The fields of an object have no order.
pub enum JsonView {
    Null,
    Bool(bool),
    Number(NumberView),
    String(Seq<char>),
    Array(Seq<JsonView>),
    Object(Map<Seq<char>, JsonView>),
}

/// A JSON number.
pub enum NumberView {
    /// A number that `serde_json` keeps as an unsigned integer.
    Integer(nat),
    /// Any other number.
    Other(serde_json::Number),
}

/// `serde_json::Value`, carried as it is.
#[verifier::external_type_specification]
#[verifier::external_body]
pub struct ExValue(serde_json::Value);

/// `serde_json::Number`, carried as it is.
#[verifier::external_type_specification]
#[verifier::external_body]
pub struct ExNumber(serde_json::Number);

/// `serde_json::Map`, the fields of a `serde_json` object.
#[verifier::external_type_specification]
#[verifier::external_body]
#[verifier::reject_recursive_types(K)]
#[verifier::reject_recursive_types(V)]
pub struct ExMap<K, V>(serde_json::Map<K, V>);

/// `serde_json::Error`, carried as it is.
#[verifier::external_type_specification]
#[verifier::external_body]
pub struct ExError(serde_json::Error);

/// The JSON value that a `serde_json::Value` holds.
pub uninterp spec fn json_of(value: serde_json::Value) -> JsonView;

/// The JSON number that a `serde_json::Number` stands for.
pub uninterp spec fn number_of(number: serde_json::Number) -> NumberView;

/// The fields that a `serde_json::Map` holds.
pub uninterp spec fn entries(map: serde_json::Map<String, serde_json::Value>) -> Map<
    Seq<char>,
    JsonView,
>;

/// What `serde_json` reads from a text; `None` where the text is not JSON.
pub uninterp spec fn parsed(text: Seq<char>) -> Option<JsonView>;

/// The text that `serde_json` prints for a value, on one line.
pub uninterp spec fn compact_text(json: JsonView) -> Seq<char>;

/// The indented text that `serde_json` prints for a value; `None` where
/// printing fails.
pub uninterp spec fn pretty_text(json: JsonView) -> Option<Seq<char>>;

/// The values of a sequence of items.
pub open spec fn items_view(items: Seq<Json>) -> Seq<JsonView>
    decreases items,
{
    if items.len() == 0 {
        Seq::empty()
    } else {
        items_view(items.drop_last()).push(json_view(items[items.len() - 1]))
    }
}

/// The object that a sequence of fields spells out.
pub open spec fn fields_view(fields: Seq<(String, Json)>) -> Map<Seq<char>, JsonView>
    decreases fields,
{
    if fields.len() == 0 {
        no_fields()
    } else {
        fields_view(fields.drop_last()).insert(
            fields[fields.len() - 1].0@,
            json_view(fields[fields.len() - 1].1),
        )
    }
}

/// The object without fields.
pub open spec fn no_fields() -> Map<Seq<char>, JsonView> {
    Map::empty()
}

/// An unsigned integer.
pub open spec fn integer(n: nat) -> JsonView {
    JsonView::Number(NumberView::Integer(n))
}

/// The value of one node.
pub open spec fn json_view(json: Json) -> JsonView
    decreases json,
{
    match json {
        Json::Null => JsonView::Null,
        Json::Bool(b) => JsonView::Bool(b),
        Json::Integer(n) => integer(n as nat),
        Json::Number(n) => JsonView::Number(number_of(n)),
        Json::String(s) => JsonView::String(s@),
        Json::Array(items) => JsonView::Array(items_view(items@)),
        Json::Object(fields) => JsonView::Object(fields_view(fields@)),
    }
}

impl View for Json {
    type V = JsonView;

    open spec fn view(&self) -> JsonView {
        json_view(*self)
    }
}

impl DeepView for Json {
    type V = JsonView;

    open spec fn deep_view(&self) -> JsonView {
        self@
    }
}

/// `items_view` is the item by item view.
pub proof fn lemma_items_view(items: Seq<Json>)
    ensures
        items_view(items).len() == items.len(),
        forall|i: int| 0 <= i < items.len() ==> (#[trigger] items_view(items)[i]) == items[i]@,
    decreases items.len(),
{
    if items.len() > 0 {
        lemma_items_view(items.drop_last());
    }
}

/// One item more.
pub proof fn lemma_items_push(items: Seq<Json>, item: Json)
    ensures
        items_view(items.push(item)) == items_view(items).push(item@),
{
    assert(items.push(item).drop_last() =~= items);
}

/// One field more.
pub proof fn lemma_fields_push(fields: Seq<(String, Json)>, field: (String, Json))
    ensures
        fields_view(fields.push(field)) == fields_view(fields).insert(field.0@, field.1@),
{
    assert(fields.push(field).drop_last() =~= fields);
}

/// `<serde_json::Number as Clone>::clone`: the copy is the same number.
pub assume_specification[ <serde_json::Number as Clone>::clone ](
    number: &serde_json::Number,
) -> (copy: serde_json::Number)
    ensures
        copy == *number,
;

impl Clone for Json {
    fn clone(&self) -> (copy: Self)
        ensures
            copy@ == self@,
        decreases self,
    {
        match self {
            Json::Null => Json::Null,
            Json::Bool(b) => Json::Bool(*b),
            Json::Integer(n) => Json::Integer(*n),
            Json::Number(n) => Json::Number(n.clone()),
            Json::String(s) => Json::String(s.clone()),
            Json::Array(items) => {
                let mut out: Vec<Json> = Vec::new();
                for i in 0..items.len()
                    invariant
                        self matches Json::Array(v) && v == items,
                        items_view(out@) == items_view(items@.take(i as int)),
                {
                    let item = items[i].clone();
                    proof {
                        lemma_items_push(out@, item);
                    }
                    out.push(item);
                    assert(items@.take(i + 1).drop_last() =~= items@.take(i as int));
                }
                assert(items@.take(items@.len() as int) =~= items@);
                Json::Array(out)
            },
            Json::Object(fields) => {
                let mut out: Vec<(String, Json)> = Vec::new();
                for i in 0..fields.len()
                    invariant
                        self matches Json::Object(v) && v == fields,
                        fields_view(out@) == fields_view(fields@.take(i as int)),
                {
                    let field = (fields[i].0.clone(), fields[i].1.clone());
                    proof {
                        lemma_fields_push(out@, field);
                    }
                    out.push(field);
                    assert(fields@.take(i + 1).drop_last() =~= fields@.take(i as int));
                }
                assert(fields@.take(fields@.len() as int) =~= fields@);
                Json::Object(out)
            },
        }
    }
}

/// The values that a sequence of `serde_json` values holds.
pub open spec fn values_view(values: Seq<serde_json::Value>) -> Seq<JsonView> {
    values.map_values(|value: serde_json::Value| json_of(value))
}

/// The object that a sequence of `serde_json` fields spells out.
pub open spec fn value_fields_view(fields: Seq<(String, serde_json::Value)>) -> Map<
    Seq<char>,
    JsonView,
>
    decreases fields.len(),
{
    if fields.len() == 0 {
        no_fields()
    } else {
        value_fields_view(fields.drop_last()).insert(
            fields.last().0@,
            json_of(fields.last().1),
        )
    }
}

proof fn lemma_value_fields_finite(fields: Seq<(String, serde_json::Value)>)
    ensures
        value_fields_view(fields).dom().finite(),
    decreases fields.len(),
{
    if fields.len() > 0 {
        lemma_value_fields_finite(fields.drop_last());
    }
}

/// `serde_json::Value::Null`.
#[verifier::external_body]
fn null_value() -> (value: serde_json::Value)
    ensures
        json_of(value) == JsonView::Null,
{
    serde_json::Value::Null
}

/// `serde_json::Value::Bool` holds the given truth value.
#[verifier::external_body]
fn bool_value(b: bool) -> (value: serde_json::Value)
    ensures
        json_of(value) == JsonView::Bool(b),
{
    serde_json::Value::Bool(b)
}

/// `<serde_json::Number as From<u64>>::from` gives the number that the integer is.
#[verifier::external_body]
fn integer_number(n: u64) -> (number: serde_json::Number)
    ensures
        number_of(number) == NumberView::Integer(n as nat),
{
    serde_json::Number::from(n)
}

/// `serde_json::Value::Number` holds the given number.
#[verifier::external_body]
fn number_value(number: serde_json::Number) -> (value: serde_json::Value)
    ensures
        json_of(value) == JsonView::Number(number_of(number)),
{
    serde_json::Value::Number(number)
}

/// `serde_json::Value::String` holds the given text.
#[verifier::external_body]
fn string_value(text: String) -> (value: serde_json::Value)
    ensures
        json_of(value) == JsonView::String(text@),
{
    serde_json::Value::String(text)
}

/// `serde_json::Value::Array` holds the given values in their order.
#[verifier::external_body]
fn array_value(items: Vec<serde_json::Value>) -> (value: serde_json::Value)
    ensures
        json_of(value) == JsonView::Array(values_view(items@)),
{
    serde_json::Value::Array(items)
}

/// `serde_json::Value::Object` holds the fields of the given map.
#[verifier::external_body]
fn object_value(fields: serde_json::Map<String, serde_json::Value>) -> (value: serde_json::Value)
    ensures
        json_of(value) == JsonView::Object(entries(fields)),
{
    serde_json::Value::Object(fields)
}

/// `serde_json::Map::new` makes a map without fields.
#[verifier::external_body]
fn new_map() -> (fields: serde_json::Map<String, serde_json::Value>)
    ensures
        entries(fields) == no_fields(),
{
    serde_json::Map::new()
}

/// `serde_json::Map::insert` sets one field and keeps the others.
#[verifier::external_body]
fn map_insert(
    fields: &mut serde_json::Map<String, serde_json::Value>,
    name: String,
    value: serde_json::Value,
)
    ensures
        entries(*final(fields)) == entries(*old(fields)).insert(name@, json_of(value)),
{
    fields.insert(name, value);
}

/// `<serde_json::Map as IntoIterator>::into_iter` hands out the fields of the
/// map, each once.
#[verifier::external_body]
fn map_fields(fields: serde_json::Map<String, serde_json::Value>) -> (list: Vec<
    (String, serde_json::Value),
>)
    ensures
        value_fields_view(list@) == entries(fields),
        forall|i: int|
            0 <= i < list@.len() ==> entries(fields).contains_pair(
                (#[trigger] list@[i]).0@,
                json_of(list@[i].1),
            ),
{
    fields.into_iter().collect()
}

/// A `serde_json::Value`, taken apart by one level.
enum Node {
    Null,
    Bool(bool),
    Number(serde_json::Number),
    String(String),
    Array(Vec<serde_json::Value>),
    Object(serde_json::Map<String, serde_json::Value>),
}

spec fn node_view(node: Node) -> JsonView {
    match node {
        Node::Null => JsonView::Null,
        Node::Bool(b) => JsonView::Bool(b),
        Node::Number(number) => JsonView::Number(number_of(number)),
        Node::String(text) => JsonView::String(text@),
        Node::Array(items) => JsonView::Array(values_view(items@)),
        Node::Object(fields) => JsonView::Object(entries(fields)),
    }
}

/// The variants of `serde_json::Value`, told apart; what each one holds is
/// handed on unchanged.
#[verifier::external_body]
fn open_value(value: serde_json::Value) -> (node: Node)
    ensures
        node_view(node) == json_of(value),
{
    match value {
        serde_json::Value::Null => Node::Null,
        serde_json::Value::Bool(b) => Node::Bool(b),
        serde_json::Value::Number(number) => Node::Number(number),
        serde_json::Value::String(text) => Node::String(text),
        serde_json::Value::Array(items) => Node::Array(items),
        serde_json::Value::Object(fields) => Node::Object(fields),
    }
}

/// `serde_json::Number::as_u64` gives the number's value where it is kept as an
/// unsigned integer, and nothing where it is kept otherwise.
#[verifier::external_body]
fn number_as_u64(number: &serde_json::Number) -> (n: Option<u64>)
    ensures
        match n {
            Some(n) => number_of(*number) == NumberView::Integer(n as nat),
            None => !(number_of(*number) is Integer),
        },
{
    number.as_u64()
}

/// `serde_json::from_str::<serde_json::Value>`: the value that the text spells,
/// or an error where it spells none.
#[verifier::external_body]
fn value_from_str(text: &str) -> (result: Result<serde_json::Value, serde_json::Error>)
    ensures
        match result {
            Ok(value) => parsed(text@) == Some(json_of(value)),
            Err(_) => parsed(text@) is None,
        },
{
    serde_json::from_str(text)
}

/// `<serde_json::Value as ToString>::to_string`: the value's text on one line.
#[verifier::external_body]
fn value_to_string(value: &serde_json::Value) -> (text: String)
    ensures
        text@ == compact_text(json_of(*value)),
{
    value.to_string()
}

/// `serde_json::to_string_pretty`: the value's indented text, or an error where
/// it cannot be printed.
#[verifier::external_body]
fn value_to_string_pretty(value: &serde_json::Value) -> (result: Result<String, serde_json::Error>)
    ensures
        match result {
            Ok(text) => pretty_text(json_of(*value)) == Some(text@),
            Err(_) => pretty_text(json_of(*value)) is None,
        },
{
    serde_json::to_string_pretty(value)
}

/// The `serde_json` tree of a value.
pub fn to_value(json: &Json) -> (value: serde_json::Value)
    ensures
        json_of(value) == json@,
    decreases json,
{
    match json {
        Json::Null => null_value(),
        Json::Bool(b) => bool_value(*b),
        Json::Integer(n) => number_value(integer_number(*n)),
        Json::Number(number) => number_value(number.clone()),
        Json::String(text) => string_value(text.clone()),
        Json::Array(items) => {
            let mut out: Vec<serde_json::Value> = Vec::new();
            for i in 0..items.len()
                invariant
                    json matches Json::Array(v) && v == items,
                    values_view(out@) == items_view(items@.take(i as int)),
            {
                let ghost before = out@;
                out.push(to_value(&items[i]));
                assert(values_view(out@) =~= values_view(before).push(items@[i as int]@));
                assert(items@.take(i + 1).drop_last() =~= items@.take(i as int));
            }
            assert(items@.take(items@.len() as int) =~= items@);
            array_value(out)
        },
        Json::Object(fields) => {
            let mut out = new_map();
            for i in 0..fields.len()
                invariant
                    json matches Json::Object(v) && v == fields,
                    entries(out) == fields_view(fields@.take(i as int)),
            {
                map_insert(&mut out, fields[i].0.clone(), to_value(&fields[i].1));
                assert(fields@.take(i + 1).drop_last() =~= fields@.take(i as int));
            }
            assert(fields@.take(fields@.len() as int) =~= fields@);
            object_value(out)
        },
    }
}

/// The value that a `serde_json` tree holds.
pub fn from_value(value: serde_json::Value) -> (json: Json)
    ensures
        json@ == json_of(value),
    decreases json_of(value),
{
    let ghost whole = json_of(value);
    match open_value(value) {
        Node::Null => Json::Null,
        Node::Bool(b) => Json::Bool(b),
        Node::Number(number) => match number_as_u64(&number) {
            Some(n) => Json::Integer(n),
            None => Json::Number(number),
        },
        Node::String(text) => Json::String(text),
        Node::Array(items) => {
            let ghost all = items@;
            let mut out: Vec<Json> = Vec::new();
            for item in it: items
                invariant
                    it.seq() == all,
                    whole == json_of(value),
                    whole == JsonView::Array(values_view(all)),
                    items_view(out@) == values_view(all.take(it.index() as int)),
            {
                let ghost i = it.index() as int;
                assert(values_view(all)[i] == json_of(item));
                assert(decreases_to!(whole => whole->Array_0));
                assert(decreases_to!(whole->Array_0 => whole->Array_0[i]));
                let json = from_value(item);
                proof {
                    lemma_items_push(out@, json);
                }
                out.push(json);
                assert(values_view(all.take(i + 1)) =~= values_view(all.take(i)).push(json@));
            }
            assert(all.take(all.len() as int) =~= all);
            Json::Array(out)
        },
        Node::Object(fields) => {
            let mut out: Vec<(String, Json)> = Vec::new();
            let list = map_fields(fields);
            let ghost all = list@;
            for field in it: list
                invariant
                    it.seq() == all,
                    whole == json_of(value),
                    whole == JsonView::Object(value_fields_view(all)),
                    forall|i: int|
                        0 <= i < all.len() ==> value_fields_view(all).contains_pair(
                            (#[trigger] all[i]).0@,
                            json_of(all[i].1),
                        ),
                    fields_view(out@) == value_fields_view(all.take(it.index() as int)),
            {
                let ghost i = it.index() as int;
                assert(all[i] == field);
                assert(decreases_to!(whole => whole->Object_0));
                proof {
                    lemma_value_fields_finite(all);
                }
                assert(decreases_to!(whole->Object_0 => whole->Object_0[field.0@]));
                let json = from_value(field.1);
                let named = (field.0, json);
                proof {
                    lemma_fields_push(out@, named);
                }
                out.push(named);
                assert(all.take(i + 1).drop_last() =~= all.take(i));
            }
            assert(all.take(all.len() as int) =~= all);
            Json::Object(out)
        },
    }
}

/// What `serde_json` reads from a text, if it is JSON.
pub fn parse(text: &str) -> (json: Option<Json>)
    ensures
        json.deep_view() == parsed(text@),
{
    match value_from_str(text) {
        Ok(value) => Some(from_value(value)),
        Err(_) => None,
    }
}

/// The arguments of a tool call: the value that was read from their text, or
/// no arguments where the text is empty or is not JSON.
pub open spec fn arguments_or_none(text: Seq<char>, value: Option<JsonView>) -> JsonView {
    if text.len() == 0 {
        JsonView::Object(no_fields())
    } else {
        match value {
            Some(value) => value,
            None => JsonView::Object(no_fields()),
        }
    }
}

/// Chooses the arguments of a tool call, given their text and what was read
/// from it.
pub fn choose_arguments(text: &str, value: Option<Json>) -> (arguments: Json)
    ensures
        arguments@ == arguments_or_none(text@, value.deep_view()),
{
    if text.is_empty() {
        Json::Object(Vec::new())
    } else {
        match value {
            Some(value) => value,
            None => Json::Object(Vec::new()),
        }
    }
}

/// The arguments that the collected text of a tool call spells.
pub fn parse_arguments(text: &str) -> (arguments: Json)
    ensures
        arguments@ == arguments_or_none(text@, parsed(text@)),
{
    if text.is_empty() {
        choose_arguments(text, None)
    } else {
        choose_arguments(text, parse(text))
    }
}

/// The indented text of a value, or its text on one line where it cannot be
/// indented.
pub open spec fn pretty_or_compact(pretty: Option<Seq<char>>, compact: Seq<char>) -> Seq<char> {
    match pretty {
        Some(text) => text,
        None => compact,
    }
}

impl Json {
    /// The value's text on one line.
    pub fn to_compact(&self) -> (text: String)
        ensures
            text@ == compact_text(self@),
    {
        value_to_string(&to_value(self))
    }

    /// The value's indented text, or its text on one line where it cannot be
    /// indented.
    pub fn to_pretty(&self) -> (text: String)
        ensures
            text@ == pretty_or_compact(pretty_text(self@), compact_text(self@)),
    {
        match value_to_string_pretty(&to_value(self)) {
            Ok(text) => text,
            Err(_) => self.to_compact(),
        }
    }

    /// A text as a JSON value.
    pub fn text(text: &str) -> (json: Json)
        ensures
            json@ == JsonView::String(text@),
    {
        Json::String(text.to_owned())
    }

    /// The field of an object.
    pub fn get(&self, name: &str) -> (field: Option<&Json>)
        ensures
            match field {
                Some(field) => self@ is Object && self@->Object_0.contains_pair(name@, field@),
                None => !(self@ is Object && self@->Object_0.contains_key(name@)),
            },
    {
        match self {
            Json::Object(fields) => {
                assert(self@ == JsonView::Object(fields_view(fields@)));
                match field_index(fields, name) {
                    Some(i) => Some(&fields[i].1),
                    None => None,
                }
            },
            _ => None,
        }
    }
}

/// Adds a field to the fields of an object.
pub fn set_field(fields: &mut Vec<(String, Json)>, name: &str, value: Json)
    ensures
        fields_view(final(fields)@) == fields_view(old(fields)@).insert(name@, value@),
{
    let field = (name.to_owned(), value);
    proof {
        lemma_fields_push(fields@, field);
    }
    fields.push(field);
}

/// An object with one more field, where there is a value for it.
pub open spec fn with_field(
    fields: Map<Seq<char>, JsonView>,
    name: Seq<char>,
    value: Option<JsonView>,
) -> Map<Seq<char>, JsonView> {
    match value {
        Some(value) => fields.insert(name, value),
        None => fields,
    }
}

/// Adds a field to the fields of an object, where there is a value for it.
pub fn set_optional(fields: &mut Vec<(String, Json)>, name: &str, value: Option<Json>)
    ensures
        fields_view(final(fields)@) == with_field(
            fields_view(old(fields)@),
            name@,
            value.deep_view(),
        ),
{
    if let Some(value) = value {
        set_field(fields, name, value);
    }
}

/// Adds an item to a list.
pub fn push_item(items: &mut Vec<Json>, item: Json)
    ensures
        items_view(final(items)@) == items_view(old(items)@).push(item@),
{
    proof {
        lemma_items_push(items@, item);
    }
    items.push(item);
}

/// Makes an array of one value.
pub fn single(item: Json) -> (array: Json)
    ensures
        array@ == JsonView::Array(seq![item@]),
{
    let mut items: Vec<Json> = Vec::new();
    push_item(&mut items, item);
    assert(items_view(items@) =~= seq![item@]);
    Json::Array(items)
}

/// A name is a field of an object where one of the fields has it.
proof fn lemma_fields_none(fields: Seq<(String, Json)>, name: Seq<char>)
    requires
        forall|i: int| 0 <= i < fields.len() ==> (#[trigger] fields[i]).0@ != name,
    ensures
        !fields_view(fields).contains_key(name),
    decreases fields.len(),
{
    if fields.len() > 0 {
        lemma_fields_none(fields.drop_last(), name);
    }
}

/// The last field of a name counts.
proof fn lemma_fields_last(fields: Seq<(String, Json)>, name: Seq<char>, at: int)
    requires
        0 <= at < fields.len(),
        fields[at].0@ == name,
        forall|i: int| at < i < fields.len() ==> (#[trigger] fields[i]).0@ != name,
    ensures
        fields_view(fields).contains_pair(name, fields[at].1@),
    decreases fields.len(),
{
    if at < fields.len() - 1 {
        lemma_fields_last(fields.drop_last(), name, at);
    }
}

/// Changing the field that counts sets that field.
pub proof fn lemma_fields_update(fields: Seq<(String, Json)>, at: int, field: (String, Json))
    requires
        0 <= at < fields.len(),
        fields[at].0@ == field.0@,
        forall|i: int| at < i < fields.len() ==> (#[trigger] fields[i]).0@ != field.0@,
    ensures
        fields_view(fields.update(at, field)) == fields_view(fields).insert(field.0@, field.1@),
    decreases fields.len(),
{
    if at < fields.len() - 1 {
        lemma_fields_update(fields.drop_last(), at, field);
        assert(fields.update(at, field).drop_last() =~= fields.drop_last().update(at, field));
        assert(fields_view(fields.update(at, field)) =~= fields_view(fields).insert(
            field.0@,
            field.1@,
        ));
    } else {
        assert(fields.update(at, field).drop_last() =~= fields.drop_last());
        assert(fields_view(fields.update(at, field)) =~= fields_view(fields).insert(
            field.0@,
            field.1@,
        ));
    }
}

/// Where the field of a name is that counts.
pub fn field_index(fields: &Vec<(String, Json)>, name: &str) -> (at: Option<usize>)
    ensures
        match at {
            Some(at) => at < fields@.len() && fields@[at as int].0@ == name@ && fields_view(
                fields@,
            ).contains_pair(name@, fields@[at as int].1@) && (forall|i: int|
                at < i < fields@.len() ==> (#[trigger] fields@[i]).0@ != name@),
            None => !fields_view(fields@).contains_key(name@),
        },
{
    let mut i: usize = fields.len();
    while i > 0
        invariant
            i <= fields@.len(),
            forall|j: int| i <= j < fields@.len() ==> (#[trigger] fields@[j]).0@ != name@,
        decreases i,
    {
        i = i - 1;
        if crate::text::same(fields[i].0.as_str(), name) {
            proof {
                lemma_fields_last(fields@, name@, i as int);
            }
            return Some(i);
        }
    }
    proof {
        lemma_fields_none(fields@, name@);
    }
    None
}

/// A value stands for what it holds: an array for its items in their order, and
/// an object for its fields, each with the last value that it has for its name.
pub proof fn law_values_stand_for_what_they_hold(json: Json, at: int)
    ensures
        match json {
            Json::Null => json@ == JsonView::Null,
            Json::Bool(b) => json@ == JsonView::Bool(b),
            Json::Integer(n) => json@ == JsonView::Number(NumberView::Integer(n as nat)),
            Json::Number(n) => json@ == JsonView::Number(number_of(n)),
            Json::String(s) => json@ == JsonView::String(s@),
            Json::Array(items) => json@ is Array && json@->Array_0.len() == items@.len() && (0 <= at
                < items@.len() ==> json@->Array_0[at] == items@[at]@),
            Json::Object(fields) => {
                &&& json@ is Object
                &&& 0 <= at < fields@.len() && (forall|i: int|
                    at < i < fields@.len() ==> (#[trigger] fields@[i]).0@ != fields@[at].0@)
                    ==> json@->Object_0.contains_pair(fields@[at].0@, fields@[at].1@)
                &&& forall|name: Seq<char>| #[trigger]
                    json@->Object_0.contains_key(name) ==> exists|i: int|
                        0 <= i < fields@.len() && (#[trigger] fields@[i]).0@ == name
            },
        },
{
    match json {
        Json::Array(items) => {
            lemma_items_view(items@);
        },
        Json::Object(fields) => {
            if 0 <= at < fields@.len() && (forall|i: int|
                at < i < fields@.len() ==> (#[trigger] fields@[i]).0@ != fields@[at].0@) {
                lemma_fields_last(fields@, fields@[at].0@, at);
            }
            assert forall|name: Seq<char>| #[trigger]
                json@->Object_0.contains_key(name) implies exists|i: int|
                0 <= i < fields@.len() && (#[trigger] fields@[i]).0@ == name by {
                if !(exists|i: int| 0 <= i < fields@.len() && (#[trigger] fields@[i]).0@ == name) {
                    lemma_fields_none(fields@, name);
                }
            }
        },
        _ => {},
    }
}

} // verus!

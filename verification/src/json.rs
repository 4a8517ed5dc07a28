//! JSON values: the value type, the mathematical value it stands for, the
//! accessors that the binding needs, and the two calls into `serde_json` that
//! turn a value into text and bytes into a value.
use serde_json::Value;
use vstd::prelude::*;
use vstd::utf8::encode_utf8;

use crate::text::{lowered, same_ignoring_case, same_text};

verus! {

/// A JSON number. Integers are exact; any other number is held by the decimal
/// text of the double that it is.
#[derive(Debug, PartialEq)]
pub enum JsonNumber {
    /// A non-negative integer.
    PosInt(u64),
    /// A negative integer.
    NegInt(i64),
    /// A finite double, as its shortest decimal text.
    Float(String),
}

/// A JSON value. The members of an object keep the order in which they were
/// put in.
#[derive(Debug, PartialEq)]
pub enum Json {
    Null,
    Bool(bool),
    Number(JsonNumber),
    Str(String),
    Array(Vec<Json>),
    Object(Vec<(String, Json)>),
}

/// What a [`JsonNumber`] stands for.
pub enum NumberModel {
    Integer(int),
    Float(Seq<char>),
}

/// What a [`Json`] value stands for.
pub enum JsonModel {
    Null,
    Bool(bool),
    Number(NumberModel),
    Text(Seq<char>),
    Array(Seq<JsonModel>),
    Object(Seq<(Seq<char>, JsonModel)>),
}

impl View for JsonNumber {
    type V = NumberModel;

    open spec fn view(&self) -> NumberModel {
        match self {
            JsonNumber::PosInt(n) => NumberModel::Integer(*n as int),
            JsonNumber::NegInt(n) => NumberModel::Integer(*n as int),
            JsonNumber::Float(text) => NumberModel::Float(text@),
        }
    }
}

/// What a value stands for, member by member.
pub open spec fn json_model(value: Json) -> JsonModel
    decreases value,
{
    match value {
        Json::Null => JsonModel::Null,
        Json::Bool(b) => JsonModel::Bool(b),
        Json::Number(n) => JsonModel::Number(n@),
        Json::Str(s) => JsonModel::Text(s@),
        Json::Array(items) => JsonModel::Array(
            Seq::new(
                items@.len(),
                |i: int|
                    if 0 <= i < items@.len() {
                        json_model(items@[i])
                    } else {
                        JsonModel::Null
                    },
            ),
        ),
        Json::Object(members) => JsonModel::Object(
            Seq::new(
                members@.len(),
                |i: int|
                    if 0 <= i < members@.len() {
                        (members@[i].0@, json_model(members@[i].1))
                    } else {
                        (Seq::empty(), JsonModel::Null)
                    },
            ),
        ),
    }
}

impl View for Json {
    type V = JsonModel;

    open spec fn view(&self) -> JsonModel {
        json_model(*self)
    }
}

/// What the values of a list stand for.
pub open spec fn models(items: Seq<Json>) -> Seq<JsonModel> {
    items.map_values(|j: Json| j@)
}

/// What the members of an object stand for.
pub open spec fn member_models(members: Seq<(String, Json)>) -> Seq<(Seq<char>, JsonModel)> {
    members.map_values(|m: (String, Json)| (m.0@, m.1@))
}

/// The value of the first member named `key`.
pub open spec fn lookup(members: Seq<(Seq<char>, JsonModel)>, key: Seq<char>) -> Option<JsonModel>
    decreases members.len(),
{
    if members.len() == 0 {
        None
    } else {
        match lookup(members.drop_last(), key) {
            Some(value) => Some(value),
            None => if members.last().0 == key {
                Some(members.last().1)
            } else {
                None
            },
        }
    }
}

proof fn lemma_array_view(items: Vec<Json>)
    ensures
        Json::Array(items)@ == JsonModel::Array(models(items@)),
{
    assert(Json::Array(items)@->Array_0 =~= models(items@));
}

proof fn lemma_object_view(members: Vec<(String, Json)>)
    ensures
        Json::Object(members)@ == JsonModel::Object(member_models(members@)),
{
    assert(Json::Object(members)@->Object_0 =~= member_models(members@));
}

impl Json {
    /// The JSON string `s`.
    pub fn text(s: &str) -> (value: Json)
        ensures
            value@ == JsonModel::Text(s@),
    {
        Json::Str(s.to_owned())
    }

    /// The JSON integer `n`.
    pub fn integer(n: i64) -> (value: Json)
        ensures
            value@ == JsonModel::Number(NumberModel::Integer(n as int)),
    {
        if n < 0 {
            Json::Number(JsonNumber::NegInt(n))
        } else {
            Json::Number(JsonNumber::PosInt(n as u64))
        }
    }

    /// The JSON integer `n`.
    pub fn count(n: u64) -> (value: Json)
        ensures
            value@ == JsonModel::Number(NumberModel::Integer(n as int)),
    {
        Json::Number(JsonNumber::PosInt(n))
    }

    /// The JSON array of `items`.
    pub fn array(items: Vec<Json>) -> (value: Json)
        ensures
            value@ == JsonModel::Array(models(items@)),
    {
        proof {
            lemma_array_view(items);
        }
        Json::Array(items)
    }

    /// The JSON object with `members`.
    pub fn object(members: Vec<(String, Json)>) -> (value: Json)
        ensures
            value@ == JsonModel::Object(member_models(members@)),
    {
        proof {
            lemma_object_view(members);
        }
        Json::Object(members)
    }

    /// A copy of the value.
    pub fn copy(&self) -> (value: Json)
        ensures
            value@ == self@,
        decreases self,
    {
        match self {
            Json::Null => Json::Null,
            Json::Bool(b) => Json::Bool(*b),
            Json::Number(JsonNumber::PosInt(n)) => Json::Number(JsonNumber::PosInt(*n)),
            Json::Number(JsonNumber::NegInt(n)) => Json::Number(JsonNumber::NegInt(*n)),
            Json::Number(JsonNumber::Float(t)) => Json::Number(JsonNumber::Float(t.clone())),
            Json::Str(s) => Json::Str(s.clone()),
            Json::Array(items) => {
                let mut copies: Vec<Json> = Vec::new();
                let mut i: usize = 0;
                while i < items.len()
                    invariant
                        i <= items@.len(),
                        *self == Json::Array(*items),
                        models(copies@) == models(items@).take(i as int),
                    decreases items@.len() - i,
                {
                    assert(decreases_to!(*self => self->Array_0));
                    assert(decreases_to!(*items => items@));
                    assert(decreases_to!(items@ => items@[i as int]));
                    let item = items[i].copy();
                    assert(models(copies@.push(item)) =~= models(copies@).push(item@));
                    copies.push(item);
                    i += 1;
                }
                assert(models(items@).take(i as int) =~= models(items@));
                proof {
                    lemma_array_view(*items);
                }
                Json::array(copies)
            },
            Json::Object(members) => {
                let mut copies: Vec<(String, Json)> = Vec::new();
                let mut i: usize = 0;
                while i < members.len()
                    invariant
                        i <= members@.len(),
                        *self == Json::Object(*members),
                        member_models(copies@) == member_models(members@).take(i as int),
                    decreases members@.len() - i,
                {
                    assert(decreases_to!(*self => self->Object_0));
                    assert(decreases_to!(*members => members@));
                    assert(decreases_to!(members@ => members@[i as int]));
                    assert(decreases_to!(members@[i as int] => members@[i as int].1));
                    let member = (members[i].0.clone(), members[i].1.copy());
                    assert(member_models(copies@.push(member)) =~= member_models(copies@).push(
                        (member.0@, member.1@),
                    ));
                    copies.push(member);
                    i += 1;
                }
                assert(member_models(members@).take(i as int) =~= member_models(members@));
                proof {
                    lemma_object_view(*members);
                }
                Json::object(copies)
            },
        }
    }

    /// The value of the first member named `key`, if this is an object that has
    /// one.
    pub fn get(&self, key: &str) -> (found: Option<&Json>)
        ensures
            match found {
                Some(value) => member_of(self@, key@) == Some(value@),
                None => member_of(self@, key@) is None,
            },
    {
        match self {
            Json::Object(members) => {
                proof {
                    lemma_object_view(*members);
                }
                let ghost all = member_models(members@);
                let mut i: usize = 0;
                while i < members.len()
                    invariant
                        i <= members@.len(),
                        all == member_models(members@),
                        self@ == JsonModel::Object(all),
                        lookup(all.take(i as int), key@) is None,
                    decreases members@.len() - i,
                {
                    assert(all.take(i + 1).drop_last() =~= all.take(i as int));
                    if same_text(&members[i].0, key) {
                        proof {
                            lemma_lookup_prefix(all, key@, i + 1);
                        }
                        return Some(&members[i].1);
                    }
                    i += 1;
                }
                assert(all.take(i as int) =~= all);
                None
            },
            _ => None,
        }
    }

    /// The value of the first member named `key` up to the case of ASCII letters,
    /// if this is an object that has one.
    pub fn get_ignoring_case(&self, key: &str) -> (found: Option<&Json>)
        ensures
            match found {
                Some(value) => folded_member_of(self@, key@) == Some(value@),
                None => folded_member_of(self@, key@) is None,
            },
    {
        match self {
            Json::Object(members) => {
                proof {
                    lemma_object_view(*members);
                }
                let ghost all = member_models(members@);
                assert(all.skip(0) =~= all);
                let mut i: usize = 0;
                while i < members.len()
                    invariant
                        i <= members@.len(),
                        all == member_models(members@),
                        self@ == JsonModel::Object(all),
                        folded_lookup(all, key@) == folded_lookup(all.skip(i as int), key@),
                    decreases members@.len() - i,
                {
                    assert(all.skip(i as int).drop_first() =~= all.skip(i + 1));
                    if same_ignoring_case(&members[i].0, key) {
                        return Some(&members[i].1);
                    }
                    i += 1;
                }
                None
            },
            _ => None,
        }
    }

    /// The first member, if this is an object that has one.
    pub fn first_member(&self) -> (first: Option<(&str, &Json)>)
        ensures
            match first {
                Some(member) => first_member_of(self@) == Some((member.0@, member.1@)),
                None => first_member_of(self@) is None,
            },
    {
        match self {
            Json::Object(members) => {
                proof {
                    lemma_object_view(*members);
                }
                if members.len() > 0 {
                    Some((members[0].0.as_str(), &members[0].1))
                } else {
                    None
                }
            },
            _ => None,
        }
    }

    /// The text of a JSON string.
    pub fn as_str(&self) -> (text: Option<&str>)
        ensures
            match text {
                Some(t) => self@ == JsonModel::Text(t@),
                None => !(self@ is Text),
            },
    {
        match self {
            Json::Str(s) => Some(s.as_str()),
            _ => None,
        }
    }
}

/// The first member of an object named `key`; nothing for any other value.
pub open spec fn member_of(value: JsonModel, key: Seq<char>) -> Option<JsonModel> {
    match value {
        JsonModel::Object(members) => lookup(members, key),
        _ => None,
    }
}

/// The value of the first member named `key` up to the case of ASCII letters.
pub open spec fn folded_lookup(members: Seq<(Seq<char>, JsonModel)>, key: Seq<char>) -> Option<
    JsonModel,
>
    decreases members.len(),
{
    if members.len() == 0 {
        None
    } else if lowered(members.first().0) == lowered(key) {
        Some(members.first().1)
    } else {
        folded_lookup(members.drop_first(), key)
    }
}

/// The first member of an object named `key` up to the case of ASCII letters;
/// nothing for any other value.
pub open spec fn folded_member_of(value: JsonModel, key: Seq<char>) -> Option<JsonModel> {
    match value {
        JsonModel::Object(members) => folded_lookup(members, key),
        _ => None,
    }
}

/// The first member of an object; nothing for any other value.
pub open spec fn first_member_of(value: JsonModel) -> Option<(Seq<char>, JsonModel)> {
    match value {
        JsonModel::Object(members) => if members.len() > 0 {
            Some(members[0])
        } else {
            None
        },
        _ => None,
    }
}

/// What is found among the first members is found among all of them.
proof fn lemma_lookup_prefix(members: Seq<(Seq<char>, JsonModel)>, key: Seq<char>, k: int)
    requires
        0 <= k <= members.len(),
        lookup(members.take(k), key) is Some,
    ensures
        lookup(members, key) == lookup(members.take(k), key),
    decreases members.len() - k,
{
    if k == members.len() {
        assert(members.take(k) =~= members);
    } else {
        assert(members.take(k + 1).drop_last() =~= members.take(k));
        lemma_lookup_prefix(members, key, k + 1);
    }
}

/// The first member named `key` is the one that is found.
pub proof fn lemma_lookup_at(members: Seq<(Seq<char>, JsonModel)>, key: Seq<char>, i: int)
    requires
        0 <= i < members.len(),
        members[i].0 == key,
        forall|j: int| 0 <= j < i ==> (#[trigger] members[j]).0 != key,
    ensures
        lookup(members, key) == Some(members[i].1),
{
    lemma_lookup_absent(members.take(i), key);
    assert(members.take(i + 1).drop_last() =~= members.take(i));
    lemma_lookup_prefix(members, key, i + 1);
}

/// Nothing is found where no member is named `key`.
pub proof fn lemma_lookup_absent(members: Seq<(Seq<char>, JsonModel)>, key: Seq<char>)
    requires
        forall|j: int| 0 <= j < members.len() ==> (#[trigger] members[j]).0 != key,
    ensures
        lookup(members, key) is None,
    decreases members.len(),
{
    if members.len() > 0 {
        let init = members.drop_last();
        assert forall|j: int| 0 <= j < init.len() implies (#[trigger] init[j]).0 != key by {
            assert(init[j] == members[j]);
        }
        lemma_lookup_absent(init, key);
        assert(members[members.len() - 1].0 != key);
    }
}

/// `members` with `key` set to `value`: in place where `key` is there already,
/// at the end where it is not.
pub open spec fn with_member(
    members: Seq<(Seq<char>, JsonModel)>,
    key: Seq<char>,
    value: JsonModel,
) -> Seq<(Seq<char>, JsonModel)>
    decreases members.len(),
{
    if members.len() == 0 {
        seq![(key, value)]
    } else if members.first().0 == key {
        seq![(key, value)] + members.drop_first()
    } else {
        seq![members.first()] + with_member(members.drop_first(), key, value)
    }
}

/// The members of an empty object.
pub fn members() -> (none: Vec<(String, Json)>)
    ensures
        member_models(none@) == Seq::<(Seq<char>, JsonModel)>::empty(),
{
    let none: Vec<(String, Json)> = Vec::new();
    assert(member_models(none@) =~= Seq::<(Seq<char>, JsonModel)>::empty());
    none
}

/// Appends a member.
pub fn put(members: &mut Vec<(String, Json)>, key: &str, value: Json)
    ensures
        member_models(final(members)@) == member_models(old(members)@).push((key@, value@)),
{
    let member = (key.to_owned(), value);
    assert(member_models(members@.push(member)) =~= member_models(members@).push((key@, value@)));
    members.push(member);
}

/// Sets a member, in place where the key is there already.
pub fn insert(members: &mut Vec<(String, Json)>, key: &str, value: Json)
    ensures
        member_models(final(members)@) == with_member(member_models(old(members)@), key@, value@),
{
    let ghost before = member_models(members@);
    let mut i: usize = 0;
    while i < members.len()
        invariant
            i <= members@.len(),
            members@ == old(members)@,
            before == member_models(members@),
            forall|j: int| 0 <= j < i ==> (#[trigger] before[j]).0 != key@,
        decreases members@.len() - i,
    {
        if same_text(&members[i].0, key) {
            let member = (key.to_owned(), value);
            proof {
                lemma_with_member_found(before, key@, value@, i as int);
                assert(member_models(members@.update(i as int, member)) =~= before.update(
                    i as int,
                    (key@, value@),
                ));
            }
            members.set(i, member);
            return;
        }
        i += 1;
    }
    proof {
        lemma_with_member_absent(before, key@, value@);
    }
    put(members, key, value);
}

proof fn lemma_with_member_found(
    members: Seq<(Seq<char>, JsonModel)>,
    key: Seq<char>,
    value: JsonModel,
    i: int,
)
    requires
        0 <= i < members.len(),
        members[i].0 == key,
        forall|j: int| 0 <= j < i ==> (#[trigger] members[j]).0 != key,
    ensures
        with_member(members, key, value) == members.update(i, (key, value)),
    decreases members.len(),
{
    if i == 0 {
        assert(with_member(members, key, value) =~= members.update(i, (key, value)));
    } else {
        let rest = members.drop_first();
        assert forall|j: int| 0 <= j < i - 1 implies (#[trigger] rest[j]).0 != key by {
            assert(rest[j] == members[j + 1]);
        }
        lemma_with_member_found(rest, key, value, i - 1);
        assert(members[0].0 != key);
        assert(with_member(members, key, value) =~= members.update(i, (key, value)));
    }
}

proof fn lemma_with_member_absent(
    members: Seq<(Seq<char>, JsonModel)>,
    key: Seq<char>,
    value: JsonModel,
)
    requires
        forall|j: int| 0 <= j < members.len() ==> (#[trigger] members[j]).0 != key,
    ensures
        with_member(members, key, value) == members.push((key, value)),
    decreases members.len(),
{
    if members.len() > 0 {
        let rest = members.drop_first();
        assert forall|j: int| 0 <= j < rest.len() implies (#[trigger] rest[j]).0 != key by {
            assert(rest[j] == members[j + 1]);
        }
        lemma_with_member_absent(rest, key, value);
        assert(members[0].0 != key);
    }
    assert(with_member(members, key, value) =~= members.push((key, value)));
}

/// Setting a member is seen by looking it up, and no other member is changed.
pub proof fn lemma_with_member_lookup(
    members: Seq<(Seq<char>, JsonModel)>,
    key: Seq<char>,
    value: JsonModel,
    wanted: Seq<char>,
)
    ensures
        lookup(with_member(members, key, value), wanted) == if wanted == key {
            Some(value)
        } else {
            lookup(members, wanted)
        },
    decreases members.len(),
{
    let after = with_member(members, key, value);
    lemma_lookup_from_front(after, wanted);
    lemma_lookup_from_front(members, wanted);
    if members.len() == 0 {
        assert(after.drop_first() =~= members);
    } else if members.first().0 == key {
        assert(after.drop_first() =~= members.drop_first());
    } else {
        assert(after.drop_first() =~= with_member(members.drop_first(), key, value));
        lemma_with_member_lookup(members.drop_first(), key, value, wanted);
    }
}

/// A lookup that starts at the first member.
proof fn lemma_lookup_from_front(members: Seq<(Seq<char>, JsonModel)>, key: Seq<char>)
    ensures
        lookup(members, key) == if members.len() == 0 {
            None
        } else if members.first().0 == key {
            Some(members.first().1)
        } else {
            lookup(members.drop_first(), key)
        },
    decreases members.len(),
{
    if members.len() == 1 {
        assert(members.drop_last() =~= members.drop_first());
    } else if members.len() > 1 {
        lemma_lookup_from_front(members.drop_last(), key);
        assert(members.drop_first().drop_last() =~= members.drop_last().drop_first());
    }
}

/// `serde_json::Value`, which verified code only hands on.
#[verifier::external_type_specification]
#[verifier::external_body]
pub struct ExSerdeValue(serde_json::Value);

/// The data that a `serde_json` value holds.
pub uninterp spec fn serde_content(held: Value) -> JsonModel;

/// The value that `serde_json::Number` reads from the decimal text of a float,
/// and `null` where it reads no number.
pub uninterp spec fn serde_number(text: Seq<char>) -> JsonModel;

/// The text that `serde_json::to_string` returns for a value with the given data.
pub uninterp spec fn serde_text(content: JsonModel) -> Seq<char>;

/// What `serde_json::from_slice` returns for bytes: the data of the value, or
/// the words of its error.
pub uninterp spec fn serde_read(bytes: Seq<u8>) -> Result<JsonModel, Seq<char>>;

/// The outermost layer of a `serde_json` value, borrowed.
enum SerdeLayer<'a> {
    Null,
    Bool(bool),
    Unsigned(u64),
    Signed(i64),
    Float(String),
    Str(&'a str),
    Array(Vec<&'a Value>),
    Object(Vec<(&'a str, &'a Value)>),
}

/// The data of a value with the given outermost layer.
spec fn layer_content(layer: SerdeLayer) -> JsonModel {
    match layer {
        SerdeLayer::Null => JsonModel::Null,
        SerdeLayer::Bool(b) => JsonModel::Bool(b),
        SerdeLayer::Unsigned(n) => JsonModel::Number(NumberModel::Integer(n as int)),
        SerdeLayer::Signed(n) => JsonModel::Number(NumberModel::Integer(n as int)),
        SerdeLayer::Float(text) => JsonModel::Number(NumberModel::Float(text@)),
        SerdeLayer::Str(text) => JsonModel::Text(text@),
        SerdeLayer::Array(items) => JsonModel::Array(
            Seq::new(items@.len(), |i: int| serde_content(*items@[i])),
        ),
        SerdeLayer::Object(members) => JsonModel::Object(
            Seq::new(members@.len(), |i: int| (members@[i].0@, serde_content(*members@[i].1))),
        ),
    }
}

/// The outermost layer of a `serde_json::Value`, variant by variant: `as_u64`
/// and `as_i64` of its number hold the integers, and the text of any other
/// number is that of its `Display`. Members come in the order of the map.
#[verifier::external_body]
fn serde_layer(held: &Value) -> (layer: SerdeLayer<'_>)
    ensures
        layer_content(layer) == serde_content(*held),
{
    match held {
        Value::Null => SerdeLayer::Null,
        Value::Bool(b) => SerdeLayer::Bool(*b),
        Value::Number(n) => match (n.as_u64(), n.as_i64()) {
            (Some(u), _) => SerdeLayer::Unsigned(u),
            (_, Some(i)) => SerdeLayer::Signed(i),
            _ => SerdeLayer::Float(n.to_string()),
        },
        Value::String(s) => SerdeLayer::Str(s),
        Value::Array(items) => SerdeLayer::Array(items.iter().collect()),
        Value::Object(map) => SerdeLayer::Object(map.iter().map(|m| (m.0.as_str(), m.1)).collect()),
    }
}

/// What a `serde_json` value is put together from.
enum SerdeParts {
    Null,
    Bool(bool),
    Unsigned(u64),
    Signed(i64),
    Str(String),
    Array(Vec<Value>),
    Object(Vec<(String, Value)>),
}

/// The data of the values of a list.
pub open spec fn serde_contents(items: Seq<Value>) -> Seq<JsonModel> {
    items.map_values(|v: Value| serde_content(v))
}

/// The data of the values of named members.
pub open spec fn serde_members(members: Seq<(String, Value)>) -> Seq<(Seq<char>, JsonModel)> {
    members.map_values(|m: (String, Value)| (m.0@, serde_content(m.1)))
}

/// The first `n` members put into an empty object one after the other.
pub open spec fn merged(members: Seq<(Seq<char>, JsonModel)>, n: int) -> Seq<
    (Seq<char>, JsonModel),
>
    decreases n,
{
    if n <= 0 {
        Seq::empty()
    } else {
        with_member(merged(members, n - 1), members[n - 1].0, members[n - 1].1)
    }
}

/// The data of the value that is put together from parts.
spec fn parts_content(parts: SerdeParts) -> JsonModel {
    match parts {
        SerdeParts::Null => JsonModel::Null,
        SerdeParts::Bool(b) => JsonModel::Bool(b),
        SerdeParts::Unsigned(n) => JsonModel::Number(NumberModel::Integer(n as int)),
        SerdeParts::Signed(n) => JsonModel::Number(NumberModel::Integer(n as int)),
        SerdeParts::Str(text) => JsonModel::Text(text@),
        SerdeParts::Array(items) => JsonModel::Array(serde_contents(items@)),
        SerdeParts::Object(members) => JsonModel::Object(
            merged(serde_members(members@), members@.len() as int),
        ),
    }
}

/// `FromStr` of `serde_json::Number` on the decimal text of a float, with the
/// error as `null`. The result depends on the text alone.
#[verifier::external_body]
fn serde_float(text: &str) -> (held: Value)
    ensures
        serde_content(held) == serde_number(text@),
{
    text.parse().map_or(Value::Null, Value::Number)
}

/// The `serde_json::Value` put together from parts, variant by variant. A map
/// takes its members in order, and a name that comes again replaces the value
/// it had.
#[verifier::external_body]
fn serde_value(parts: SerdeParts) -> (held: Value)
    ensures
        serde_content(held) == parts_content(parts),
{
    match parts {
        SerdeParts::Null => Value::Null,
        SerdeParts::Bool(b) => Value::Bool(b),
        SerdeParts::Unsigned(n) => Value::from(n),
        SerdeParts::Signed(n) => Value::from(n),
        SerdeParts::Str(text) => Value::String(text),
        SerdeParts::Array(items) => Value::Array(items),
        SerdeParts::Object(members) => Value::Object(members.into_iter().collect()),
    }
}

/// Arrays and objects in `value` are nested at most `depth` deep.
pub open spec fn nested_at_most(value: JsonModel, depth: nat) -> bool
    decreases value,
{
    match value {
        JsonModel::Array(items) => depth > 0 && forall|i: int|
            0 <= i < items.len() ==> nested_at_most(#[trigger] items[i], (depth - 1) as nat),
        JsonModel::Object(members) => depth > 0 && forall|i: int|
            0 <= i < members.len() ==> nested_at_most(
                (#[trigger] members[i]).1,
                (depth - 1) as nat,
            ),
        _ => true,
    }
}

/// `serde_json::to_string` on a `serde_json::Value`. There always is a text: the
/// names of members are strings, floats are finite, and writing to memory does
/// not fail. It depends on the data of the value alone, and
/// `serde_json::from_slice` reads the same data back from it unless that is
/// nested deeper than the 127 levels which it reads.
#[verifier::external_body]
fn serde_to_string(held: &Value) -> (text: Result<String, String>)
    ensures
        match text {
            Ok(t) => t@ == serde_text(serde_content(*held)) && (nested_at_most(
                serde_content(*held),
                127,
            ) ==> serde_read(encode_utf8(t@)) == Ok::<JsonModel, Seq<char>>(serde_content(*held))),
            Err(_) => false,
        },
{
    serde_json::to_string(held).map_err(|e| e.to_string())
}

/// `serde_json::from_slice` into a `serde_json::Value`. The result depends on
/// the bytes alone.
#[verifier::external_body]
fn serde_from_slice(bytes: &[u8]) -> (held: Result<Value, String>)
    ensures
        match held {
            Ok(v) => serde_read(bytes@) == Ok::<JsonModel, Seq<char>>(serde_content(v)),
            Err(e) => serde_read(bytes@) == Err::<JsonModel, Seq<char>>(e@),
        },
{
    serde_json::from_slice(bytes).map_err(|e| e.to_string())
}

/// The data that `serde_json` holds for a value of this library: floats as it
/// reads them from their text, and each name of an object once.
pub open spec fn serde_shape(value: JsonModel) -> JsonModel
    decreases value,
{
    match value {
        JsonModel::Number(NumberModel::Float(text)) => serde_number(text),
        JsonModel::Array(items) => JsonModel::Array(
            Seq::new(
                items.len(),
                |i: int|
                    if 0 <= i < items.len() {
                        serde_shape(items[i])
                    } else {
                        JsonModel::Null
                    },
            ),
        ),
        JsonModel::Object(members) => JsonModel::Object(
            merged(shaped_members(members), members.len() as int),
        ),
        _ => value,
    }
}

/// The members of an object with the data that `serde_json` holds for each.
pub open spec fn shaped_members(members: Seq<(Seq<char>, JsonModel)>) -> Seq<
    (Seq<char>, JsonModel),
>
    decreases members,
{
    Seq::new(
        members.len(),
        |i: int|
            if 0 <= i < members.len() {
                (members[i].0, serde_shape(members[i].1))
            } else {
                (Seq::empty(), JsonModel::Null)
            },
    )
}

/// A value without floats in whose objects each name comes once.
pub open spec fn plain(value: JsonModel) -> bool
    decreases value,
{
    match value {
        JsonModel::Number(NumberModel::Float(_)) => false,
        JsonModel::Array(items) => forall|i: int|
            0 <= i < items.len() ==> plain(#[trigger] items[i]),
        JsonModel::Object(members) => distinct_names(members) && forall|i: int|
            0 <= i < members.len() ==> plain((#[trigger] members[i]).1),
        _ => true,
    }
}

/// Each name comes once.
pub open spec fn distinct_names(members: Seq<(Seq<char>, JsonModel)>) -> bool {
    forall|i: int, j: int|
        0 <= i < j < members.len() ==> (#[trigger] members[i]).0 != (#[trigger] members[j]).0
}

/// `serde_json` holds a plain value as it is.
pub proof fn law_plain_values_keep_their_shape(value: JsonModel)
    requires
        plain(value),
    ensures
        serde_shape(value) == value,
    decreases value,
{
    match value {
        JsonModel::Array(items) => {
            assert forall|i: int| 0 <= i < items.len() implies serde_shape(#[trigger] items[i])
                == items[i] by {
                assert(decreases_to!(value => value->Array_0));
                assert(decreases_to!(items => items[i]));
                law_plain_values_keep_their_shape(items[i]);
            }
            assert(serde_shape(value)->Array_0 =~= items);
        },
        JsonModel::Object(members) => {
            assert forall|i: int| 0 <= i < members.len() implies serde_shape(
                (#[trigger] members[i]).1,
            ) == members[i].1 by {
                assert(decreases_to!(value => value->Object_0));
                assert(decreases_to!(members => members[i]));
                assert(decreases_to!(members[i] => members[i].1));
                law_plain_values_keep_their_shape(members[i].1);
            }
            assert(shaped_members(members) =~= members);
            lemma_merged_distinct(members, members.len() as int);
            assert(members.take(members.len() as int) =~= members);
        },
        _ => {},
    }
}

/// Members with distinct names are all kept, in order.
proof fn lemma_merged_distinct(members: Seq<(Seq<char>, JsonModel)>, n: int)
    requires
        0 <= n <= members.len(),
        distinct_names(members),
    ensures
        merged(members, n) == members.take(n),
    decreases n,
{
    if n == 0 {
        assert(members.take(0) =~= Seq::<(Seq<char>, JsonModel)>::empty());
    } else {
        lemma_merged_distinct(members, n - 1);
        let before = members.take(n - 1);
        assert forall|j: int| 0 <= j < before.len() implies (#[trigger] before[j]).0 != members[n
            - 1].0 by {
            assert(before[j] == members[j]);
        }
        lemma_with_member_absent(before, members[n - 1].0, members[n - 1].1);
        assert(members.take(n) =~= before.push(members[n - 1]));
    }
}

/// The compact text of a value.
pub open spec fn json_text(value: JsonModel) -> Seq<char> {
    serde_text(serde_shape(value))
}

/// The `serde_json` value that holds the same data.
fn to_serde(value: &Json) -> (held: Value)
    ensures
        serde_content(held) == serde_shape(value@),
    decreases value,
{
    match value {
        Json::Null => serde_value(SerdeParts::Null),
        Json::Bool(b) => serde_value(SerdeParts::Bool(*b)),
        Json::Number(JsonNumber::PosInt(n)) => serde_value(SerdeParts::Unsigned(*n)),
        Json::Number(JsonNumber::NegInt(n)) => serde_value(SerdeParts::Signed(*n)),
        Json::Number(JsonNumber::Float(t)) => serde_float(t),
        Json::Str(s) => serde_value(SerdeParts::Str(s.clone())),
        Json::Array(items) => {
            proof {
                lemma_array_view(*items);
            }
            let ghost all = serde_shape(value@)->Array_0;
            let mut parts: Vec<Value> = Vec::new();
            let mut i: usize = 0;
            while i < items.len()
                invariant
                    i <= items@.len(),
                    *value == Json::Array(*items),
                    value@ == JsonModel::Array(models(items@)),
                    all == serde_shape(value@)->Array_0,
                    serde_contents(parts@) == all.take(i as int),
                decreases items@.len() - i,
            {
                assert(decreases_to!(*value => value->Array_0));
                assert(decreases_to!(*items => items@));
                assert(decreases_to!(items@ => items@[i as int]));
                let part = to_serde(&items[i]);
                assert(all[i as int] == serde_shape(items@[i as int]@));
                assert(serde_contents(parts@.push(part)) =~= serde_contents(parts@).push(
                    serde_content(part),
                ));
                parts.push(part);
                i += 1;
            }
            assert(all.take(i as int) =~= all);
            serde_value(SerdeParts::Array(parts))
        },
        Json::Object(members) => {
            proof {
                lemma_object_view(*members);
            }
            let ghost all = Seq::new(
                members@.len(),
                |k: int| (members@[k].0@, serde_shape(members@[k].1@)),
            );
            let mut parts: Vec<(String, Value)> = Vec::new();
            let mut i: usize = 0;
            while i < members.len()
                invariant
                    i <= members@.len(),
                    *value == Json::Object(*members),
                    all == Seq::new(
                        members@.len(),
                        |k: int| (members@[k].0@, serde_shape(members@[k].1@)),
                    ),
                    serde_members(parts@) == all.take(i as int),
                decreases members@.len() - i,
            {
                assert(decreases_to!(*value => value->Object_0));
                assert(decreases_to!(*members => members@));
                assert(decreases_to!(members@ => members@[i as int]));
                assert(decreases_to!(members@[i as int] => members@[i as int].1));
                let part = (members[i].0.clone(), to_serde(&members[i].1));
                assert(serde_members(parts@.push(part)) =~= serde_members(parts@).push(
                    (part.0@, serde_content(part.1)),
                ));
                parts.push(part);
                i += 1;
            }
            assert(all.take(i as int) =~= all);
            assert(all =~= shaped_members(member_models(members@)));
            serde_value(SerdeParts::Object(parts))
        },
    }
}

/// The value that holds the same data as a `serde_json` value.
fn from_serde(held: &Value) -> (value: Json)
    ensures
        value@ == serde_content(*held),
    decreases serde_content(*held),
{
    match serde_layer(held) {
        SerdeLayer::Null => Json::Null,
        SerdeLayer::Bool(b) => Json::Bool(b),
        SerdeLayer::Unsigned(n) => Json::Number(JsonNumber::PosInt(n)),
        SerdeLayer::Signed(n) => Json::Number(JsonNumber::NegInt(n)),
        SerdeLayer::Float(text) => Json::Number(JsonNumber::Float(text)),
        SerdeLayer::Str(text) => Json::text(text),
        SerdeLayer::Array(items) => {
            let ghost content = serde_content(*held);
            let ghost all = content->Array_0;
            let mut values: Vec<Json> = Vec::new();
            let mut i: usize = 0;
            while i < items.len()
                invariant
                    i <= items@.len(),
                    content == serde_content(*held),
                    content == JsonModel::Array(all),
                    all == Seq::new(items@.len(), |k: int| serde_content(*items@[k])),
                    models(values@) == all.take(i as int),
                decreases items@.len() - i,
            {
                assert(decreases_to!(content => content->Array_0));
                assert(decreases_to!(all => all[i as int]));
                let item = from_serde(items[i]);
                assert(models(values@.push(item)) =~= models(values@).push(item@));
                values.push(item);
                i += 1;
            }
            assert(all.take(i as int) =~= all);
            Json::array(values)
        },
        SerdeLayer::Object(members) => {
            let ghost content = serde_content(*held);
            let ghost all = content->Object_0;
            let mut values: Vec<(String, Json)> = Vec::new();
            let mut i: usize = 0;
            while i < members.len()
                invariant
                    i <= members@.len(),
                    content == serde_content(*held),
                    content == JsonModel::Object(all),
                    all == Seq::new(
                        members@.len(),
                        |k: int| (members@[k].0@, serde_content(*members@[k].1)),
                    ),
                    member_models(values@) == all.take(i as int),
                decreases members@.len() - i,
            {
                assert(decreases_to!(content => content->Object_0));
                assert(decreases_to!(all => all[i as int]));
                assert(decreases_to!(all[i as int] => all[i as int].1));
                let value = from_serde(members[i].1);
                put(&mut values, members[i].0, value);
                i += 1;
            }
            assert(all.take(i as int) =~= all);
            Json::object(values)
        },
    }
}

/// Reading `bytes` gives the data of `value` back, unless that is nested deeper
/// than what can be read.
pub open spec fn reads_back(bytes: Seq<u8>, value: JsonModel) -> bool {
    nested_at_most(serde_shape(value), 127) ==> serde_read(bytes) == Ok::<JsonModel, Seq<char>>(
        serde_shape(value),
    )
}

/// The compact text of a value. There always is one, and reading it gives the
/// same data back.
pub fn to_text(value: &Json) -> (text: Result<String, String>)
    ensures
        text matches Ok(t) && t@ == json_text(value@) && reads_back(encode_utf8(t@), value@),
{
    serde_to_string(&to_serde(value))
}

/// The value that bytes denote, or the words of the error.
pub fn from_bytes(bytes: &[u8]) -> (value: Result<Json, String>)
    ensures
        match value {
            Ok(v) => serde_read(bytes@) == Ok::<JsonModel, Seq<char>>(v@),
            Err(e) => serde_read(bytes@) == Err::<JsonModel, Seq<char>>(e@),
        },
{
    match serde_from_slice(bytes) {
        Ok(held) => Ok(from_serde(&held)),
        Err(words) => Err(words),
    }
}

/// With distinct names each member is found under its own name.
pub proof fn lemma_lookup_distinct(members: Seq<(Seq<char>, JsonModel)>, i: int)
    requires
        distinct_names(members),
        0 <= i < members.len(),
    ensures
        lookup(members, members[i].0) == Some(members[i].1),
{
    lemma_lookup_at(members, members[i].0, i);
}

/// A lookup finds the first member that has the name, and nothing where none has.
pub proof fn law_lookup_finds_the_first(members: Seq<(Seq<char>, JsonModel)>, key: Seq<char>)
    ensures
        match lookup(members, key) {
            Some(value) => exists|i: int|
                {
                    &&& 0 <= i < members.len()
                    &&& (#[trigger] members[i]).0 == key
                    &&& members[i].1 == value
                    &&& forall|j: int| 0 <= j < i ==> (#[trigger] members[j]).0 != key
                },
            None => forall|j: int| 0 <= j < members.len() ==> (#[trigger] members[j]).0 != key,
        },
        member_of(JsonModel::Object(members), key) == lookup(members, key),
    decreases members.len(),
{
    if members.len() > 0 {
        let rest = members.drop_first();
        lemma_lookup_from_front(members, key);
        law_lookup_finds_the_first(rest, key);
        if members[0].0 != key {
            match lookup(rest, key) {
                Some(value) => {
                    let i = choose|i: int|
                        {
                            &&& 0 <= i < rest.len()
                            &&& (#[trigger] rest[i]).0 == key
                            &&& rest[i].1 == value
                            &&& forall|j: int| 0 <= j < i ==> (#[trigger] rest[j]).0 != key
                        };
                    assert(members[i + 1] == rest[i]);
                    assert forall|j: int| 0 <= j < i + 1 implies (#[trigger] members[j]).0
                        != key by {
                        if j > 0 {
                            assert(rest[j - 1] == members[j]);
                        }
                    }
                },
                None => {
                    assert forall|j: int| 0 <= j < members.len() implies (#[trigger] members[j]).0
                        != key by {
                        if j > 0 {
                            assert(rest[j - 1] == members[j]);
                        }
                    }
                },
            }
        } else {
            assert(members[0].1 == members.first().1);
        }
    }
}

/// A lookup that ignores the case of ASCII letters finds the first member whose
/// name agrees, and nothing where none does.
pub proof fn law_folded_lookup_finds_the_first(
    members: Seq<(Seq<char>, JsonModel)>,
    key: Seq<char>,
)
    ensures
        match folded_member_of(JsonModel::Object(members), key) {
            Some(value) => exists|i: int|
                {
                    &&& 0 <= i < members.len()
                    &&& lowered((#[trigger] members[i]).0) == lowered(key)
                    &&& members[i].1 == value
                    &&& forall|j: int|
                        0 <= j < i ==> lowered((#[trigger] members[j]).0) != lowered(key)
                },
            None => forall|j: int|
                0 <= j < members.len() ==> lowered((#[trigger] members[j]).0) != lowered(key),
        },
    decreases members.len(),
{
    if members.len() > 0 {
        let rest = members.drop_first();
        law_folded_lookup_finds_the_first(rest, key);
        if lowered(members[0].0) != lowered(key) {
            match folded_lookup(rest, key) {
                Some(value) => {
                    let i = choose|i: int|
                        {
                            &&& 0 <= i < rest.len()
                            &&& lowered((#[trigger] rest[i]).0) == lowered(key)
                            &&& rest[i].1 == value
                            &&& forall|j: int|
                                0 <= j < i ==> lowered((#[trigger] rest[j]).0) != lowered(key)
                        };
                    assert(members[i + 1] == rest[i]);
                    assert forall|j: int| 0 <= j < i + 1 implies lowered((#[trigger] members[j]).0)
                        != lowered(key) by {
                        if j > 0 {
                            assert(rest[j - 1] == members[j]);
                        }
                    }
                },
                None => {
                    assert forall|j: int| 0 <= j < members.len() implies lowered(
                        (#[trigger] members[j]).0,
                    ) != lowered(key) by {
                        if j > 0 {
                            assert(rest[j - 1] == members[j]);
                        }
                    }
                },
            }
        } else {
            assert(members[0].1 == members.first().1);
        }
    }
}

/// Setting a member changes it in place, or adds it at the end, and leaves every
/// other member where and as it was.
pub proof fn law_setting_a_member(
    members: Seq<(Seq<char>, JsonModel)>,
    key: Seq<char>,
    value: JsonModel,
)
    ensures
        (forall|j: int| 0 <= j < members.len() ==> (#[trigger] members[j]).0 != key)
            ==> with_member(members, key, value) == members.push((key, value)),
        forall|i: int|
            0 <= i < members.len() && (#[trigger] members[i]).0 == key && (forall|j: int|
                0 <= j < i ==> (#[trigger] members[j]).0 != key) ==> with_member(
                members,
                key,
                value,
            ) == members.update(i, (key, value)),
{
    if forall|j: int| 0 <= j < members.len() ==> (#[trigger] members[j]).0 != key {
        lemma_with_member_absent(members, key, value);
    }
    assert forall|i: int|
        0 <= i < members.len() && (#[trigger] members[i]).0 == key && (forall|j: int|
            0 <= j < i ==> (#[trigger] members[j]).0 != key) implies with_member(
        members,
        key,
        value,
    ) == members.update(i, (key, value)) by {
        lemma_with_member_found(members, key, value, i);
    }
}

/// The first member of an object is its first, and only an object has one.
pub proof fn law_first_member(value: JsonModel)
    ensures
        first_member_of(value) == match value {
            JsonModel::Object(members) => if members.len() > 0 {
                Some(members[0])
            } else {
                None
            },
            _ => None,
        },
{
}

/// A value stands for what it is: scalars for themselves, lists and objects for
/// their elements, one for one and in order.
pub proof fn law_values_stand_for_what_they_are(
    b: bool,
    n: u64,
    m: i64,
    s: String,
    items: Vec<Json>,
    members: Vec<(String, Json)>,
)
    ensures
        Json::Null@ == JsonModel::Null,
        Json::Bool(b)@ == JsonModel::Bool(b),
        Json::Number(JsonNumber::PosInt(n))@ == JsonModel::Number(NumberModel::Integer(n as int)),
        Json::Number(JsonNumber::NegInt(m))@ == JsonModel::Number(NumberModel::Integer(m as int)),
        Json::Number(JsonNumber::Float(s))@ == JsonModel::Number(NumberModel::Float(s@)),
        Json::Str(s)@ == JsonModel::Text(s@),
        Json::Array(items)@ matches JsonModel::Array(held) && held.len() == items@.len() && forall|
            i: int,
        |
            0 <= i < items@.len() ==> #[trigger] held[i] == items@[i]@,
        Json::Object(members)@ matches JsonModel::Object(held) && held.len() == members@.len()
            && forall|i: int|
            0 <= i < members@.len() ==> #[trigger] held[i] == (members@[i].0@, members@[i].1@),
        models(items@).len() == items@.len(),
        forall|i: int| 0 <= i < items@.len() ==> #[trigger] models(items@)[i] == items@[i]@,
        member_models(members@).len() == members@.len(),
        forall|i: int|
            0 <= i < members@.len() ==> #[trigger] member_models(members@)[i] == (
                members@[i].0@,
                members@[i].1@,
            ),
{
    lemma_array_view(items);
    lemma_object_view(members);
}

/// `serde_json` holds scalars as they are, floats as it reads their text, and
/// arrays element by element.
pub proof fn law_shapes_of_scalars_and_arrays(
    flag: bool,
    n: int,
    text: Seq<char>,
    items: Seq<JsonModel>,
)
    ensures
        serde_shape(JsonModel::Null) == JsonModel::Null,
        serde_shape(JsonModel::Bool(flag)) == JsonModel::Bool(flag),
        serde_shape(JsonModel::Number(NumberModel::Integer(n))) == JsonModel::Number(
            NumberModel::Integer(n),
        ),
        serde_shape(JsonModel::Number(NumberModel::Float(text))) == serde_number(text),
        serde_shape(JsonModel::Text(text)) == JsonModel::Text(text),
        serde_shape(JsonModel::Array(items)) matches JsonModel::Array(held) && held.len()
            == items.len() && forall|i: int|
            0 <= i < items.len() ==> #[trigger] held[i] == serde_shape(items[i]),
{
}

/// `serde_json` holds an object with distinct names member by member, in order,
/// and of members with one name the last.
pub proof fn law_shapes_of_objects(
    members: Seq<(Seq<char>, JsonModel)>,
    key: Seq<char>,
    i: int,
)
    ensures
        distinct_names(members) ==> (serde_shape(
            JsonModel::Object(members),
        ) matches JsonModel::Object(held) && held.len() == members.len() && forall|j: int|
            0 <= j < members.len() ==> #[trigger] held[j] == (
                members[j].0,
                serde_shape(members[j].1),
            )),
        0 <= i < members.len() && members[i].0 == key && (forall|j: int|
            i < j < members.len() ==> (#[trigger] members[j]).0 != key) ==> member_of(
            serde_shape(JsonModel::Object(members)),
            key,
        ) == Some(serde_shape(members[i].1)),
{
    let shaped = shaped_members(members);
    let n = members.len() as int;
    if distinct_names(members) {
        assert forall|a: int, b: int| 0 <= a < b < shaped.len() implies (#[trigger] shaped[a]).0
            != (#[trigger] shaped[b]).0 by {
            assert(members[a].0 != members[b].0);
        }
        lemma_merged_distinct(shaped, n);
        assert(shaped.take(n) =~= shaped);
    }
    if 0 <= i < n && members[i].0 == key && (forall|j: int|
        i < j < members.len() ==> (#[trigger] members[j]).0 != key) {
        assert forall|j: int| i < j < n implies (#[trigger] shaped[j]).0 != key by {
            assert(members[j].0 != key);
        }
        lemma_merged_last(shaped, key, i, n);
    }
}

proof fn lemma_merged_last(members: Seq<(Seq<char>, JsonModel)>, key: Seq<char>, i: int, n: int)
    requires
        0 <= i < n <= members.len(),
        members[i].0 == key,
        forall|j: int| i < j < n ==> (#[trigger] members[j]).0 != key,
    ensures
        lookup(merged(members, n), key) == Some(members[i].1),
    decreases n,
{
    lemma_with_member_lookup(merged(members, n - 1), members[n - 1].0, members[n - 1].1, key);
    if i < n - 1 {
        assert(members[n - 1].0 != key);
        lemma_merged_last(members, key, i, n - 1);
    }
}

/// The text of a plain value is the one that `serde_json` gives its data, and
/// reading it back gives that value.
pub proof fn law_plain_values_read_back(value: JsonModel, bytes: Seq<u8>)
    requires
        plain(value),
    ensures
        json_text(value) == serde_text(value),
        nested_at_most(value, 127) && reads_back(bytes, value) ==> serde_read(bytes) == Ok::<
            JsonModel,
            Seq<char>,
        >(value),
{
    law_plain_values_keep_their_shape(value);
}

/// A scalar is not nested at all, and an array or an object one level deeper than
/// the deepest of what it holds.
pub proof fn law_nesting(value: JsonModel, depth: nat)
    ensures
        !(value is Array) && !(value is Object) ==> nested_at_most(value, depth),
        value matches JsonModel::Array(items) ==> (nested_at_most(value, depth + 1) <==> forall|
            i: int,
        |
            0 <= i < items.len() ==> nested_at_most(#[trigger] items[i], depth)),
        value matches JsonModel::Object(members) ==> (nested_at_most(value, depth + 1) <==> forall|
            i: int,
        |
            0 <= i < members.len() ==> nested_at_most((#[trigger] members[i]).1, depth)),
        value is Array || value is Object ==> !nested_at_most(value, 0),
{
}

} // verus!

//! Result sets as JSON: one HANA value, one row, and the capped rows of a
//! whole result set.
use vstd::prelude::*;
use vstd::string::StringExecFns;
use vstd::utf8::{decode_utf8, encode_utf8, valid_utf8};

use crate::json::{
    distinct_names, insert, json_text, law_lookup_finds_the_first, law_setting_a_member,
    lemma_lookup_at, lemma_with_member_lookup, lookup,
    member_models, member_of, models, to_text, with_member, Json, JsonModel, JsonNumber,
    NumberModel,
};
use crate::params::{bind_from_json, BindModel, HanaBind};
use crate::text::{decimal, decimal_text};

verus! {

/// One value of a result row. Types that JSON has no counterpart for are held by
/// the text that the driver gives them.
#[derive(Debug, PartialEq)]
pub enum HanaValue {
    Null,
    TinyInt(u8),
    SmallInt(i16),
    Int(i32),
    BigInt(i64),
    /// The decimal text of a finite single-precision number.
    Real(Option<String>),
    /// The decimal text of a finite double-precision number.
    Double(Option<String>),
    Decimal(String),
    Boolean(bool),
    Text(String),
    /// Character data that is not known to be well encoded.
    DbString(Vec<u8>),
    /// Binary and spatial data.
    Binary(Vec<u8>),
    LongDate(String),
    SecondDate(String),
    DayDate(String),
    SecondTime(String),
    Array(Vec<HanaValue>),
    /// Large objects, by their display form.
    Other(String),
}

/// The base64 digit for a value below 64.
pub open spec fn base64_digit(v: int) -> char {
    if v < 26 {
        (65 + v) as char
    } else if v < 52 {
        (97 + (v - 26)) as char
    } else if v < 62 {
        (48 + (v - 52)) as char
    } else if v == 62 {
        '+'
    } else {
        '/'
    }
}

/// The base64 text of bytes in the standard alphabet, padded: four digits for
/// each three bytes, six bits to a digit.
pub open spec fn base64_text(b: Seq<u8>) -> Seq<char>
    decreases b.len(),
{
    if b.len() == 0 {
        Seq::empty()
    } else if b.len() == 1 {
        seq![base64_digit(b[0] as int / 4), base64_digit(b[0] as int % 4 * 16), '=', '=']
    } else if b.len() == 2 {
        seq![
            base64_digit(b[0] as int / 4),
            base64_digit(b[0] as int % 4 * 16 + b[1] as int / 16),
            base64_digit(b[1] as int % 16 * 4),
            '=',
        ]
    } else {
        seq![
            base64_digit(b[0] as int / 4),
            base64_digit(b[0] as int % 4 * 16 + b[1] as int / 16),
            base64_digit(b[1] as int % 16 * 4 + b[2] as int / 64),
            base64_digit(b[2] as int % 64),
        ] + base64_text(b.skip(3))
    }
}

/// The base64 string of bytes. This is `encode` of the `STANDARD` engine of the
/// `base64` crate: the standard alphabet, with padding.
#[verifier::external_body]
fn base64_encode(bytes: &[u8]) -> (text: String)
    ensures
        text@ == base64_text(bytes@),
{
    base64::Engine::encode(&base64::engine::general_purpose::STANDARD, bytes)
}

/// `from_utf8` of `std::str`: the text of well-formed UTF-8, and nothing for
/// any other bytes.
#[verifier::external_body]
fn utf8_text(bytes: &[u8]) -> (text: Option<&str>)
    ensures
        match text {
            Some(t) => valid_utf8(bytes@) && t@ == decode_utf8(bytes@),
            None => !valid_utf8(bytes@),
        },
{
    std::str::from_utf8(bytes).ok()
}

/// The JSON number of a finite float, and `null` for any other float.
pub open spec fn float_json(text: Option<String>) -> JsonModel {
    match text {
        Some(t) => JsonModel::Number(NumberModel::Float(t@)),
        None => JsonModel::Null,
    }
}

/// The JSON value of a HANA value.
pub open spec fn value_json(value: HanaValue) -> JsonModel
    decreases value,
{
    match value {
        HanaValue::Null => JsonModel::Null,
        HanaValue::TinyInt(v) => JsonModel::Number(NumberModel::Integer(v as int)),
        HanaValue::SmallInt(v) => JsonModel::Number(NumberModel::Integer(v as int)),
        HanaValue::Int(v) => JsonModel::Number(NumberModel::Integer(v as int)),
        HanaValue::BigInt(v) => JsonModel::Number(NumberModel::Integer(v as int)),
        HanaValue::Real(t) => float_json(t),
        HanaValue::Double(t) => float_json(t),
        HanaValue::Decimal(t) => JsonModel::Text(t@),
        HanaValue::Boolean(b) => JsonModel::Bool(b),
        HanaValue::Text(t) => JsonModel::Text(t@),
        HanaValue::DbString(b) => if valid_utf8(b@) {
            JsonModel::Text(decode_utf8(b@))
        } else {
            JsonModel::Text(base64_text(b@))
        },
        HanaValue::Binary(b) => JsonModel::Text(base64_text(b@)),
        HanaValue::LongDate(t) => JsonModel::Text(t@),
        HanaValue::SecondDate(t) => JsonModel::Text(t@),
        HanaValue::DayDate(t) => JsonModel::Text(t@),
        HanaValue::SecondTime(t) => JsonModel::Text(t@),
        HanaValue::Array(items) => JsonModel::Array(
            Seq::new(
                items@.len(),
                |i: int|
                    if 0 <= i < items@.len() {
                        value_json(items@[i])
                    } else {
                        JsonModel::Null
                    },
            ),
        ),
        HanaValue::Other(t) => JsonModel::Text(t@),
    }
}

/// The JSON number of a finite float, and `null` for any other float.
fn float_to_json(text: &Option<String>) -> (value: Json)
    ensures
        value@ == float_json(*text),
{
    match text {
        Some(t) => Json::Number(JsonNumber::Float(t.clone())),
        None => Json::Null,
    }
}

/// The JSON string of binary data.
pub fn encode_binary(bytes: &[u8]) -> (value: Json)
    ensures
        value@ == JsonModel::Text(base64_text(bytes@)),
{
    Json::Str(base64_encode(bytes))
}

/// The JSON value of a HANA value: integers, finite floats and booleans as such,
/// NULL as `null`, decimals without loss by their text, dates and times by their
/// text, binary data in base64.
pub fn hdb_value_to_json(hv: HanaValue) -> (value: Json)
    ensures
        value@ == value_json(hv),
{
    value_to_json(&hv)
}

/// [`hdb_value_to_json`] of a borrowed value.
fn value_to_json(hv: &HanaValue) -> (value: Json)
    ensures
        value@ == value_json(*hv),
    decreases hv,
{
    match hv {
        HanaValue::Null => Json::Null,
        HanaValue::TinyInt(v) => Json::integer(*v as i64),
        HanaValue::SmallInt(v) => Json::integer(*v as i64),
        HanaValue::Int(v) => Json::integer(*v as i64),
        HanaValue::BigInt(v) => Json::integer(*v),
        HanaValue::Real(t) => float_to_json(t),
        HanaValue::Double(t) => float_to_json(t),
        HanaValue::Decimal(t) => Json::text(t),
        HanaValue::Boolean(b) => Json::Bool(*b),
        HanaValue::Text(t) => Json::text(t),
        HanaValue::DbString(b) => match utf8_text(b.as_slice()) {
            Some(t) => Json::text(t),
            None => encode_binary(b.as_slice()),
        },
        HanaValue::Binary(b) => encode_binary(b.as_slice()),
        HanaValue::LongDate(t) => Json::text(t),
        HanaValue::SecondDate(t) => Json::text(t),
        HanaValue::DayDate(t) => Json::text(t),
        HanaValue::SecondTime(t) => Json::text(t),
        HanaValue::Array(items) => {
            let ghost all = value_json(*hv)->Array_0;
            let mut values: Vec<Json> = Vec::new();
            let mut i: usize = 0;
            while i < items.len()
                invariant
                    i <= items@.len(),
                    *hv == HanaValue::Array(*items),
                    all == value_json(*hv)->Array_0,
                    models(values@) == all.take(i as int),
                decreases items@.len() - i,
            {
                assert(decreases_to!(*hv => hv->Array_0));
                assert(decreases_to!(*items => items@));
                assert(decreases_to!(items@ => items@[i as int]));
                let value = value_to_json(&items[i]);
                assert(models(values@.push(value)) =~= models(values@).push(value@));
                assert(all[i as int] == value_json(items@[i as int]));
                values.push(value);
                i += 1;
            }
            assert(all.take(i as int) =~= all);
            Json::array(values)
        },
        HanaValue::Other(t) => Json::text(t),
    }
}

/// The value that a bind is sent as.
pub open spec fn bind_value(bind: HanaBind) -> HanaValue {
    match bind {
        HanaBind::Null => HanaValue::Null,
        HanaBind::Int(i) => HanaValue::BigInt(i),
        HanaBind::Float(text) => HanaValue::Double(Some(text)),
        HanaBind::Bool(b) => HanaValue::Boolean(b),
        HanaBind::Str(text) => HanaValue::Text(text),
    }
}

/// Lowers a bind onto the value that it is sent as.
pub fn to_hdb_value(value: &HanaBind) -> (lowered: HanaValue)
    ensures
        lowered == bind_value(*value),
{
    match value {
        HanaBind::Null => HanaValue::Null,
        HanaBind::Int(i) => HanaValue::BigInt(*i),
        HanaBind::Float(text) => HanaValue::Double(Some(text.clone())),
        HanaBind::Bool(b) => HanaValue::Boolean(*b),
        HanaBind::Str(text) => HanaValue::Text(text.clone()),
    }
}

/// The JSON value of a bind.
pub open spec fn bind_json(bind: BindModel) -> JsonModel {
    match bind {
        BindModel::Null => JsonModel::Null,
        BindModel::Int(i) => JsonModel::Number(NumberModel::Integer(i as int)),
        BindModel::Float(text) => JsonModel::Number(NumberModel::Float(text)),
        BindModel::Bool(b) => JsonModel::Bool(b),
        BindModel::Str(text) => JsonModel::Text(text),
    }
}

/// A bind that comes back as a result has its own JSON value: nothing of it is
/// lost or altered on the way.
pub proof fn law_binds_come_back_as_they_are(bind: HanaBind)
    ensures
        value_json(bind_value(bind)) == bind_json(bind@),
{
}

/// A JSON scalar that is bound and comes back as a result is the same JSON value.
/// Left out are the integers that no `i64` holds, which are bound as doubles.
pub proof fn law_bound_values_come_back_as_they_are(value: JsonModel)
    requires
        !(value is Array),
        !(value is Object),
        value matches JsonModel::Number(NumberModel::Integer(n)) ==> i64::MIN <= n <= i64::MAX,
    ensures
        bind_from_json(value) matches Ok(bind) && bind_json(bind) == value,
{
}

/// The name of the `i`-th value of a row.
pub open spec fn column_name(columns: Seq<String>, i: int) -> Seq<char> {
    if i < columns.len() {
        columns[i]@
    } else {
        "col"@ + decimal_text(i as nat)
    }
}

/// The members of the object for the first `n` values of a row. A column name
/// that comes again replaces the value it had.
pub open spec fn row_members(columns: Seq<String>, cells: Seq<HanaValue>, n: int) -> Seq<
    (Seq<char>, JsonModel),
>
    decreases n,
{
    if n <= 0 {
        Seq::empty()
    } else {
        with_member(
            row_members(columns, cells, n - 1),
            column_name(columns, n - 1),
            value_json(cells[n - 1]),
        )
    }
}

/// The JSON object of a row.
pub open spec fn row_json(columns: Seq<String>, cells: Seq<HanaValue>) -> JsonModel {
    JsonModel::Object(row_members(columns, cells, cells.len() as int))
}

/// The JSON object of a row, one member for each column.
pub fn row_object(columns: &Vec<String>, cells: &Vec<HanaValue>) -> (row: Json)
    ensures
        row@ == row_json(columns@, cells@),
{
    let mut members: Vec<(String, Json)> = Vec::new();
    assert(member_models(members@) =~= Seq::<(Seq<char>, JsonModel)>::empty());
    let mut i: usize = 0;
    while i < cells.len()
        invariant
            i <= cells@.len(),
            member_models(members@) == row_members(columns@, cells@, i as int),
        decreases cells@.len() - i,
    {
        let value = value_to_json(&cells[i]);
        if i < columns.len() {
            insert(&mut members, &columns[i], value);
        } else {
            let mut name = "col".to_owned();
            name.append(&decimal(i as u128));
            insert(&mut members, &name, value);
        }
        i += 1;
    }
    Json::object(members)
}

/// The serialized size of a row in bytes.
pub open spec fn row_size(row: JsonModel) -> usize {
    encode_utf8(json_text(row)).len() as usize
}

/// The rows of a completed query, and whether there were more of them than the
/// caps let through. `row_count` counts every row.
#[derive(Debug, PartialEq)]
pub struct QueryOutcome {
    pub rows: Vec<Json>,
    pub truncated: bool,
    pub row_count: usize,
}

/// The rows kept so far, what is left of the byte budget, whether a row has been
/// dropped, and how many rows have come.
pub struct SinkModel {
    pub rows: Seq<JsonModel>,
    pub budget: int,
    pub truncated: bool,
    pub seen: nat,
}

/// What remains after one more row of the given size. Once a row has been
/// dropped, so are all that follow.
pub open spec fn sink_step(
    state: SinkModel,
    max_rows: nat,
    row: JsonModel,
    size: nat,
) -> SinkModel {
    if state.truncated || state.rows.len() >= max_rows || size > state.budget {
        SinkModel { truncated: true, seen: state.seen + 1, ..state }
    } else {
        SinkModel {
            rows: state.rows.push(row),
            budget: state.budget - size,
            seen: state.seen + 1,
            ..state
        }
    }
}

/// What remains after a whole sequence of rows with their sizes.
pub open spec fn sink_run(
    max_rows: nat,
    max_result_bytes: nat,
    offered: Seq<(JsonModel, nat)>,
) -> SinkModel
    decreases offered.len(),
{
    if offered.len() == 0 {
        SinkModel {
            rows: Seq::empty(),
            budget: max_result_bytes as int,
            truncated: false,
            seen: 0,
        }
    } else {
        sink_step(
            sink_run(max_rows, max_result_bytes, offered.drop_last()),
            max_rows,
            offered.last().0,
            offered.last().1,
        )
    }
}

/// Collects the rows of a result set under a cap on their number and a cap on
/// their serialized size.
pub struct RowSink {
    columns: Vec<String>,
    max_rows: usize,
    budget: usize,
    rows: Vec<Json>,
    truncated: bool,
    row_count: usize,
}

impl View for RowSink {
    type V = SinkModel;

    closed spec fn view(&self) -> SinkModel {
        SinkModel {
            rows: models(self.rows@),
            budget: self.budget as int,
            truncated: self.truncated,
            seen: self.row_count as nat,
        }
    }
}

impl RowSink {
    /// The column names of the result set.
    pub closed spec fn columns(&self) -> Seq<String> {
        self.columns@
    }

    /// The cap on the number of rows.
    pub closed spec fn max_rows(&self) -> nat {
        self.max_rows as nat
    }

    /// A sink for a result set with the given columns.
    pub fn new(columns: Vec<String>, max_rows: usize, max_result_bytes: usize) -> (sink: RowSink)
        ensures
            sink.columns() == columns@,
            sink.max_rows() == max_rows,
            sink@ == sink_run(max_rows as nat, max_result_bytes as nat, Seq::empty()),
    {
        let sink = RowSink {
            columns,
            max_rows,
            budget: max_result_bytes,
            rows: Vec::new(),
            truncated: false,
            row_count: 0,
        };
        assert(models(sink.rows@) =~= Seq::<JsonModel>::empty());
        sink
    }

    /// Takes in one more row, given as the values of its columns.
    pub fn offer(&mut self, cells: &Vec<HanaValue>)
        requires
            old(self)@.seen < usize::MAX,
        ensures
            final(self).columns() == old(self).columns(),
            final(self).max_rows() == old(self).max_rows(),
            final(self)@ == sink_step(
                old(self)@,
                old(self).max_rows(),
                row_json(old(self).columns(), cells@),
                row_size(row_json(old(self).columns(), cells@)) as nat,
            ),
    {
        let row = row_object(&self.columns, cells);
        let size: usize = match to_text(&row) {
            Ok(text) => text.as_str().len(),
            Err(_) => 0,
        };
        self.offer_sized(row, size);
    }

    /// Takes in one more row, given as a JSON value with its serialized size.
    pub fn offer_sized(&mut self, row: Json, size: usize)
        requires
            old(self)@.seen < usize::MAX,
        ensures
            final(self).columns() == old(self).columns(),
            final(self).max_rows() == old(self).max_rows(),
            final(self)@ == sink_step(old(self)@, old(self).max_rows(), row@, size as nat),
    {
        self.row_count = self.row_count + 1;
        if self.rows.len() >= self.max_rows || self.truncated {
            self.truncated = true;
            return;
        }
        if size > self.budget {
            self.truncated = true;
            return;
        }
        self.budget = self.budget - size;
        assert(models(self.rows@.push(row)) =~= models(self.rows@).push(row@));
        self.rows.push(row);
    }

    /// The outcome of the query.
    pub fn finish(self) -> (outcome: QueryOutcome)
        ensures
            models(outcome.rows@) == self@.rows,
            outcome.truncated == self@.truncated,
            outcome.row_count == self@.seen,
    {
        QueryOutcome { rows: self.rows, truncated: self.truncated, row_count: self.row_count }
    }
}

/// The outcome of a statement that returns no result set.
pub fn empty_outcome() -> (outcome: QueryOutcome)
    ensures
        outcome.rows@.len() == 0,
        !outcome.truncated,
        outcome.row_count == 0,
{
    QueryOutcome { rows: Vec::new(), truncated: false, row_count: 0 }
}

/// The sizes of the first `n` rows added up.
pub open spec fn total_size(offered: Seq<(JsonModel, nat)>, n: int) -> nat
    decreases n,
{
    if n <= 0 {
        0
    } else {
        total_size(offered, n - 1) + offered[n - 1].1
    }
}

/// What a result set comes to, whatever its rows: the rows kept are the first
/// ones, in order and unchanged; there are no more of them than the row cap and
/// they hold no more bytes than the byte cap; every row is counted; and the
/// truncation flag is set exactly when a row was dropped. A row is dropped only
/// where the row after the kept ones would break a cap.
pub proof fn law_rows_are_capped_prefix(
    max_rows: nat,
    max_result_bytes: nat,
    offered: Seq<(JsonModel, nat)>,
)
    ensures
        ({
            let end = sink_run(max_rows, max_result_bytes, offered);
            let kept = end.rows.len() as int;
            &&& kept <= offered.len()
            &&& kept <= max_rows
            &&& forall|i: int| 0 <= i < kept ==> #[trigger] end.rows[i] == offered[i].0
            &&& total_size(offered, kept) + end.budget == max_result_bytes
            &&& end.budget >= 0
            &&& end.seen == offered.len()
            &&& end.truncated <==> kept < offered.len()
            &&& kept < offered.len() ==> kept == max_rows || total_size(offered, kept + 1)
                > max_result_bytes
        }),
    decreases offered.len(),
{
    if offered.len() > 0 {
        let init = offered.drop_last();
        law_rows_are_capped_prefix(max_rows, max_result_bytes, init);
        let before = sink_run(max_rows, max_result_bytes, init);
        let kept = before.rows.len() as int;
        lemma_total_size_prefix(offered, init, kept);
        if kept < init.len() {
            lemma_total_size_prefix(offered, init, kept + 1);
        }
    }
}

proof fn lemma_total_size_prefix(a: Seq<(JsonModel, nat)>, b: Seq<(JsonModel, nat)>, n: int)
    requires
        n <= a.len(),
        n <= b.len(),
        forall|i: int| 0 <= i < n ==> a[i] == b[i],
    ensures
        total_size(a, n) == total_size(b, n),
    decreases n,
{
    if n > 0 {
        lemma_total_size_prefix(a, b, n - 1);
    }
}

/// Whether the `i`-th value of a row goes under `name`: the name of its column,
/// or `col` with its number where the columns have run out.
pub open spec fn goes_under(columns: Seq<String>, i: int, name: Seq<char>) -> bool {
    ||| i < columns.len() && name == columns[i]@
    ||| i >= columns.len() && name == "col"@ + decimal_text(i as nat)
}

/// A row whose columns have distinct names, one for each value, is the object of
/// exactly those names in that order, and each name gives the value of its own
/// column.
pub proof fn law_rows_hold_each_column(columns: Seq<String>, cells: Seq<HanaValue>)
    requires
        columns.len() == cells.len(),
        forall|i: int, j: int|
            0 <= i < j < columns.len() ==> #[trigger] columns[i]@ != #[trigger] columns[j]@,
    ensures
        row_json(columns, cells) matches JsonModel::Object(members) && members.len() == cells.len()
            && forall|i: int|
            0 <= i < cells.len() ==> #[trigger] members[i] == (columns[i]@, value_json(cells[i])),
        forall|i: int|
            0 <= i < cells.len() ==> member_of(row_json(columns, cells), #[trigger] columns[i]@)
                == Some(value_json(cells[i])),
{
    lemma_distinct_columns(columns, cells, cells.len() as int);
    let members = row_members(columns, cells, cells.len() as int);
    assert forall|i: int| 0 <= i < cells.len() implies member_of(
        row_json(columns, cells),
        #[trigger] columns[i]@,
    ) == Some(value_json(cells[i])) by {
        assert(members[i] == (columns[i]@, value_json(cells[i])));
        assert forall|j: int| 0 <= j < i implies (#[trigger] members[j]).0 != columns[i]@ by {
            assert(members[j] == (columns[j]@, value_json(cells[j])));
        }
        lemma_lookup_at(members, columns[i]@, i);
    }
}

proof fn lemma_distinct_columns(columns: Seq<String>, cells: Seq<HanaValue>, n: int)
    requires
        0 <= n <= cells.len(),
        columns.len() == cells.len(),
        forall|i: int, j: int|
            0 <= i < j < columns.len() ==> #[trigger] columns[i]@ != #[trigger] columns[j]@,
    ensures
        row_members(columns, cells, n).len() == n,
        forall|i: int|
            0 <= i < n ==> #[trigger] row_members(columns, cells, n)[i] == (
                columns[i]@,
                value_json(cells[i]),
            ),
    decreases n,
{
    if n > 0 {
        lemma_distinct_columns(columns, cells, n - 1);
        let before = row_members(columns, cells, n - 1);
        let name = columns[n - 1]@;
        assert forall|j: int| 0 <= j < before.len() implies (#[trigger] before[j]).0 != name by {
            assert(before[j] == (columns[j]@, value_json(cells[j])));
        }
        law_setting_a_member(before, name, value_json(cells[n - 1]));
    }
}

/// Whatever the columns, a name in a row gives the last of the values that go
/// under it, and a name under which none goes gives nothing.
pub proof fn law_row_names_give_their_last_value(
    columns: Seq<String>,
    cells: Seq<HanaValue>,
    name: Seq<char>,
)
    ensures
        forall|i: int|
            {
                &&& 0 <= i < cells.len()
                &&& #[trigger] goes_under(columns, i, name)
                &&& forall|j: int|
                    i < j < cells.len() ==> !#[trigger] goes_under(columns, j, name)
            } ==> member_of(row_json(columns, cells), name) == Some(value_json(cells[i])),
        (forall|j: int| 0 <= j < cells.len() ==> !#[trigger] goes_under(columns, j, name))
            ==> member_of(row_json(columns, cells), name) is None,
{
    assert forall|i: int|
        {
            &&& 0 <= i < cells.len()
            &&& #[trigger] goes_under(columns, i, name)
            &&& forall|j: int| i < j < cells.len() ==> !#[trigger] goes_under(columns, j, name)
        } implies member_of(row_json(columns, cells), name) == Some(value_json(cells[i])) by {
        lemma_row_last_value(columns, cells, name, i, cells.len() as int);
    }
    if forall|j: int| 0 <= j < cells.len() ==> !#[trigger] goes_under(columns, j, name) {
        lemma_row_last_value(columns, cells, name, -1, cells.len() as int);
    }
}

proof fn lemma_row_last_value(
    columns: Seq<String>,
    cells: Seq<HanaValue>,
    name: Seq<char>,
    i: int,
    n: int,
)
    requires
        -1 <= i < n || (i == -1 && n == 0),
        n <= cells.len(),
        i >= 0 ==> goes_under(columns, i, name),
        forall|j: int| i < j < n ==> !#[trigger] goes_under(columns, j, name),
    ensures
        lookup(row_members(columns, cells, n), name) == if i >= 0 {
            Some(value_json(cells[i]))
        } else {
            None
        },
    decreases n,
{
    if n > 0 {
        lemma_with_member_lookup(
            row_members(columns, cells, n - 1),
            column_name(columns, n - 1),
            value_json(cells[n - 1]),
            name,
        );
        if i < n - 1 {
            assert(!goes_under(columns, n - 1, name));
            lemma_row_last_value(columns, cells, name, i, n - 1);
        }
    }
}

/// Numbers and booleans are themselves in JSON, NULL is `null`, and everything
/// that JSON has no type for is its text.
pub proof fn law_scalars_keep_their_value(
    tiny: u8,
    small: i16,
    medium: i32,
    big: i64,
    flag: bool,
    text: String,
)
    ensures
        value_json(HanaValue::Null) == JsonModel::Null,
        value_json(HanaValue::TinyInt(tiny)) == JsonModel::Number(
            NumberModel::Integer(tiny as int),
        ),
        value_json(HanaValue::SmallInt(small)) == JsonModel::Number(
            NumberModel::Integer(small as int),
        ),
        value_json(HanaValue::Int(medium)) == JsonModel::Number(
            NumberModel::Integer(medium as int),
        ),
        value_json(HanaValue::BigInt(big)) == JsonModel::Number(NumberModel::Integer(big as int)),
        value_json(HanaValue::Boolean(flag)) == JsonModel::Bool(flag),
        value_json(HanaValue::Real(Some(text))) == JsonModel::Number(NumberModel::Float(text@)),
        value_json(HanaValue::Double(Some(text))) == JsonModel::Number(NumberModel::Float(text@)),
        value_json(HanaValue::Real(None)) == JsonModel::Null,
        value_json(HanaValue::Double(None)) == JsonModel::Null,
        value_json(HanaValue::Decimal(text)) == JsonModel::Text(text@),
        value_json(HanaValue::Text(text)) == JsonModel::Text(text@),
        value_json(HanaValue::LongDate(text)) == JsonModel::Text(text@),
        value_json(HanaValue::SecondDate(text)) == JsonModel::Text(text@),
        value_json(HanaValue::DayDate(text)) == JsonModel::Text(text@),
        value_json(HanaValue::SecondTime(text)) == JsonModel::Text(text@),
        value_json(HanaValue::Other(text)) == JsonModel::Text(text@),
{
}

/// Character data is its text where it is well encoded, and base64 where it is
/// not; binary data is always base64.
pub proof fn law_bytes_are_text_or_base64(bytes: Vec<u8>)
    ensures
        valid_utf8(bytes@) ==> value_json(HanaValue::DbString(bytes)) == JsonModel::Text(
            decode_utf8(bytes@),
        ),
        !valid_utf8(bytes@) ==> value_json(HanaValue::DbString(bytes)) == JsonModel::Text(
            base64_text(bytes@),
        ),
        value_json(HanaValue::Binary(bytes)) == JsonModel::Text(base64_text(bytes@)),
        base64_text(bytes@).len() == (bytes@.len() + 2) / 3 * 4,
{
    lemma_base64_length(bytes@);
}

proof fn lemma_base64_length(bytes: Seq<u8>)
    ensures
        base64_text(bytes).len() == (bytes.len() + 2) / 3 * 4,
    decreases bytes.len(),
{
    if bytes.len() >= 3 {
        lemma_base64_length(bytes.skip(3));
    }
}

/// An array is the array of its elements' JSON values, in order.
pub proof fn law_arrays_keep_their_elements(items: Vec<HanaValue>)
    ensures
        value_json(HanaValue::Array(items)) matches JsonModel::Array(values) && values.len()
            == items@.len() && forall|i: int|
            0 <= i < items@.len() ==> #[trigger] values[i] == value_json(items@[i]),
{
}

/// Binds are sent as the values they are: integers as big integers, doubles by
/// their text, the others as such.
pub proof fn law_binds_are_sent_as_they_are(n: i64, text: String, flag: bool)
    ensures
        bind_value(HanaBind::Null) == HanaValue::Null,
        bind_value(HanaBind::Int(n)) == HanaValue::BigInt(n),
        bind_value(HanaBind::Float(text)) == HanaValue::Double(Some(text)),
        bind_value(HanaBind::Bool(flag)) == HanaValue::Boolean(flag),
        bind_value(HanaBind::Str(text)) == HanaValue::Text(text),
{
}

/// A row weighs as many bytes as its compact JSON text in UTF-8 has.
pub proof fn law_rows_weigh_their_text(row: JsonModel)
    requires
        encode_utf8(json_text(row)).len() <= usize::MAX,
    ensures
        row_size(row) == encode_utf8(json_text(row)).len(),
{
}

/// Where neither cap is broken every row is kept.
pub proof fn law_rows_under_the_caps_are_all_kept(
    max_rows: nat,
    max_result_bytes: nat,
    offered: Seq<(JsonModel, nat)>,
)
    requires
        offered.len() <= max_rows,
        total_size(offered, offered.len() as int) <= max_result_bytes,
    ensures
        ({
            let end = sink_run(max_rows, max_result_bytes, offered);
            &&& !end.truncated
            &&& end.seen == offered.len()
            &&& end.rows.len() == offered.len()
            &&& forall|i: int| 0 <= i < offered.len() ==> #[trigger] end.rows[i] == offered[i].0
        }),
{
    law_rows_are_capped_prefix(max_rows, max_result_bytes, offered);
    let kept = sink_run(max_rows, max_result_bytes, offered).rows.len() as int;
    if kept < offered.len() {
        lemma_total_size_grows(offered, kept + 1, offered.len() as int);
    }
}

proof fn lemma_total_size_grows(offered: Seq<(JsonModel, nat)>, m: int, n: int)
    requires
        0 <= m <= n <= offered.len(),
    ensures
        total_size(offered, m) <= total_size(offered, n),
    decreases n,
{
    if m < n {
        lemma_total_size_grows(offered, m, n - 1);
    }
}

/// One more row weighs on the total by its own size.
pub proof fn law_sizes_add_up(offered: Seq<(JsonModel, nat)>, n: int)
    requires
        0 <= n < offered.len(),
    ensures
        total_size(offered, 0) == 0,
        total_size(offered, n + 1) == total_size(offered, n) + offered[n].1,
{
}

/// The object of a row whose columns have distinct names, one for each value, has
/// exactly those names in that order, and each gives the value of its own column.
pub proof fn law_row_object_holds_each_column(
    columns: &Vec<String>,
    cells: &Vec<HanaValue>,
    row: Json,
    i: int,
)
    requires
        call_ensures(row_object, (columns, cells), row),
        columns@.len() == cells@.len(),
        forall|i: int, j: int|
            0 <= i < j < columns@.len() ==> #[trigger] columns@[i]@ != #[trigger] columns@[j]@,
        0 <= i < cells@.len(),
    ensures
        member_of(row@, columns@[i]@) == Some(value_json(cells@[i])),
        row@ matches JsonModel::Object(members) && members.len() == cells@.len() && members[i].0
            == columns@[i]@,
{
    law_rows_hold_each_column(columns@, cells@);
}

/// A HANA value becomes the JSON value that it is: numbers, booleans and NULL as
/// such, well encoded character data and everything that has a text by its text,
/// and an array element by element.
pub proof fn law_values_become_json(hv: HanaValue, value: Json)
    requires
        call_ensures(hdb_value_to_json, (hv,), value),
    ensures
        hv is Null ==> value@ == JsonModel::Null,
        hv matches HanaValue::TinyInt(n) ==> value@ == JsonModel::Number(
            NumberModel::Integer(n as int),
        ),
        hv matches HanaValue::SmallInt(n) ==> value@ == JsonModel::Number(
            NumberModel::Integer(n as int),
        ),
        hv matches HanaValue::Int(n) ==> value@ == JsonModel::Number(NumberModel::Integer(n as int)),
        hv matches HanaValue::BigInt(n) ==> value@ == JsonModel::Number(
            NumberModel::Integer(n as int),
        ),
        hv matches HanaValue::Real(Some(text)) ==> value@ == JsonModel::Number(
            NumberModel::Float(text@),
        ),
        hv matches HanaValue::Double(Some(text)) ==> value@ == JsonModel::Number(
            NumberModel::Float(text@),
        ),
        hv matches HanaValue::Real(None) ==> value@ == JsonModel::Null,
        hv matches HanaValue::Double(None) ==> value@ == JsonModel::Null,
        hv matches HanaValue::Boolean(flag) ==> value@ == JsonModel::Bool(flag),
        hv matches HanaValue::Decimal(text) ==> value@ == JsonModel::Text(text@),
        hv matches HanaValue::Text(text) ==> value@ == JsonModel::Text(text@),
        hv matches HanaValue::LongDate(text) ==> value@ == JsonModel::Text(text@),
        hv matches HanaValue::SecondDate(text) ==> value@ == JsonModel::Text(text@),
        hv matches HanaValue::DayDate(text) ==> value@ == JsonModel::Text(text@),
        hv matches HanaValue::SecondTime(text) ==> value@ == JsonModel::Text(text@),
        hv matches HanaValue::Other(text) ==> value@ == JsonModel::Text(text@),
        hv matches HanaValue::DbString(bytes) ==> value@ == JsonModel::Text(
            if valid_utf8(bytes@) {
                decode_utf8(bytes@)
            } else {
                base64_text(bytes@)
            },
        ),
        hv matches HanaValue::Binary(bytes) ==> value@ == JsonModel::Text(base64_text(bytes@)),
        hv matches HanaValue::Array(items) ==> (value@ matches JsonModel::Array(values)
            && values.len() == items@.len()),
{
}

/// The elements of an array become what they would become by themselves.
pub proof fn law_elements_become_json_by_themselves(
    items: Vec<HanaValue>,
    all: Json,
    i: int,
    one: Json,
)
    requires
        call_ensures(hdb_value_to_json, (HanaValue::Array(items),), all),
        0 <= i < items@.len(),
        call_ensures(hdb_value_to_json, (items@[i],), one),
    ensures
        all@ matches JsonModel::Array(values) && values[i] == one@,
{
}

/// The member of a row under the name of a column is what the value of that column
/// becomes by itself.
pub proof fn law_row_members_are_their_values(
    columns: &Vec<String>,
    cells: &Vec<HanaValue>,
    row: Json,
    i: int,
    value: Json,
)
    requires
        call_ensures(row_object, (columns, cells), row),
        columns@.len() == cells@.len(),
        forall|i: int, j: int|
            0 <= i < j < columns@.len() ==> #[trigger] columns@[i]@ != #[trigger] columns@[j]@,
        0 <= i < cells@.len(),
        call_ensures(hdb_value_to_json, (cells@[i],), value),
    ensures
        member_of(row@, columns@[i]@) == Some(value@),
{
    law_rows_hold_each_column(columns@, cells@);
}

/// A bind that is sent to HANA and comes back is the same JSON scalar.
pub proof fn law_binds_make_the_round_trip(bind: &HanaBind, sent: HanaValue, back: Json)
    requires
        call_ensures(to_hdb_value, (bind,), sent),
        call_ensures(hdb_value_to_json, (sent,), back),
    ensures
        *bind is Null ==> back@ == JsonModel::Null,
        *bind matches HanaBind::Int(n) ==> back@ == JsonModel::Number(
            NumberModel::Integer(n as int),
        ),
        *bind matches HanaBind::Float(text) ==> back@ == JsonModel::Number(
            NumberModel::Float(text@),
        ),
        *bind matches HanaBind::Bool(flag) ==> back@ == JsonModel::Bool(flag),
        *bind matches HanaBind::Str(text) ==> back@ == JsonModel::Text(text@),
{
}

/// A new sink has taken in nothing and has its whole budget.
pub proof fn law_new_sinks_are_empty(
    columns: Vec<String>,
    max_rows: usize,
    max_result_bytes: usize,
    sink: RowSink,
)
    requires
        call_ensures(RowSink::new, (columns, max_rows, max_result_bytes), sink),
    ensures
        sink.columns() == columns@,
        sink.max_rows() == max_rows,
        sink@.rows.len() == 0,
        sink@.budget == max_result_bytes,
        !sink@.truncated,
        sink@.seen == 0,
{
}

/// A row that comes while nothing has been dropped, and that fits both caps, is
/// kept behind the others and weighs on the budget; any other row is dropped, and
/// from then on every row is. Each is counted.
pub proof fn law_rows_are_kept_while_they_fit(
    state: SinkModel,
    max_rows: nat,
    row: JsonModel,
    size: nat,
)
    ensures
        ({
            let after = sink_step(state, max_rows, row, size);
            let fits = !state.truncated && state.rows.len() < max_rows && size <= state.budget;
            &&& after.seen == state.seen + 1
            &&& fits ==> after.rows == state.rows.push(row) && after.budget == state.budget - size
                && !after.truncated
            &&& !fits ==> after.rows == state.rows && after.budget == state.budget
                && after.truncated
        }),
{
}

/// A row with one more value keeps the names of the row without it, each once and
/// where it was; the new value goes under its name, at the end where the name is
/// new.
pub proof fn law_longer_rows_keep_their_names(
    columns: Seq<String>,
    cells: Seq<HanaValue>,
    value: HanaValue,
    name: Seq<char>,
)
    requires
        goes_under(columns, cells.len() as int, name),
    ensures
        row_json(columns, cells) matches JsonModel::Object(before) && (row_json(
            columns,
            cells.push(value),
        ) matches JsonModel::Object(after) && distinct_names(after) && before.len() <= after.len()
            && (forall|i: int|
            0 <= i < before.len() ==> (#[trigger] after[i]).0 == before[i].0 && (after[i].0 != name
                ==> after[i].1 == before[i].1)) && after.len() == before.len() + (if lookup(
            before,
            name,
        ) is None {
            1int
        } else {
            0
        })),
        member_of(row_json(columns, cells.push(value)), name) == Some(value_json(value)),
{
    let n = cells.len() as int;
    let longer = cells.push(value);
    lemma_row_members_prefix(columns, cells, longer, n);
    lemma_row_names_distinct(columns, cells, n);
    lemma_row_names_distinct(columns, longer, n + 1);
    let before = row_members(columns, cells, n);
    let after = row_members(columns, longer, n + 1);
    assert(after == with_member(before, name, value_json(value)));
    lemma_with_member_lookup(before, name, value_json(value), name);
    law_setting_a_member(before, name, value_json(value));
    law_lookup_finds_the_first(before, name);
    if lookup(before, name) is Some {
        let k = choose|k: int|
            {
                &&& 0 <= k < before.len()
                &&& (#[trigger] before[k]).0 == name
                &&& before[k].1 == lookup(before, name)->0
                &&& forall|j: int| 0 <= j < k ==> (#[trigger] before[j]).0 != name
            };
        assert(before[k].0 == name);
        assert(after == before.update(k, (name, value_json(value))));
    } else {
        assert(after == before.push((name, value_json(value))));
    }
}

proof fn lemma_row_members_prefix(
    columns: Seq<String>,
    a: Seq<HanaValue>,
    b: Seq<HanaValue>,
    n: int,
)
    requires
        n <= a.len(),
        n <= b.len(),
        forall|i: int| 0 <= i < n ==> #[trigger] a[i] == b[i],
    ensures
        row_members(columns, a, n) == row_members(columns, b, n),
    decreases n,
{
    if n > 0 {
        lemma_row_members_prefix(columns, a, b, n - 1);
        assert(a[n - 1] == b[n - 1]);
    }
}

proof fn lemma_row_names_distinct(columns: Seq<String>, cells: Seq<HanaValue>, n: int)
    requires
        n <= cells.len(),
    ensures
        distinct_names(row_members(columns, cells, n)),
    decreases n,
{
    if n > 0 {
        lemma_row_names_distinct(columns, cells, n - 1);
        let before = row_members(columns, cells, n - 1);
        let name = column_name(columns, n - 1);
        let value = value_json(cells[n - 1]);
        law_setting_a_member(before, name, value);
        law_lookup_finds_the_first(before, name);
        if lookup(before, name) is Some {
            let k = choose|k: int|
                {
                    &&& 0 <= k < before.len()
                    &&& (#[trigger] before[k]).0 == name
                    &&& before[k].1 == lookup(before, name)->0
                    &&& forall|j: int| 0 <= j < k ==> (#[trigger] before[j]).0 != name
                };
            assert(before[k].0 == name);
            assert(with_member(before, name, value) == before.update(k, (name, value)));
        }
    }
}

} // verus!

//! The structured response envelope that the gateway projects onto
//! `tools/call`, its JSON Schema, and the classification of errors. A
//! `downstreamError` that is not `null` is what marks a failed call.
use vstd::prelude::*;
use vstd::string::StringExecFns;

use crate::json::{
    distinct_names, insert, law_setting_a_member, lemma_lookup_at, lemma_lookup_distinct,
    lemma_with_member_lookup, lookup, member_models, member_of, members, models, put, with_member,
    Json, JsonModel, NumberModel,
};
use crate::text::{
    ascii_lowercase, contains, lower_char, lowered, name_texts, occurs,
    occurs_at,
};

verus! {

/// The `downstreamError` object of an error.
pub open spec fn downstream_error_json(
    kind: Seq<char>,
    message: Seq<char>,
    retryable: bool,
) -> JsonModel {
    JsonModel::Object(
        seq![
            ("kind"@, JsonModel::Text(kind)),
            ("code"@, JsonModel::Text("mcpg.downstream_hana."@ + kind)),
            ("message"@, JsonModel::Text(message)),
            ("retryable"@, JsonModel::Bool(retryable)),
            (
                "retryClass"@,
                JsonModel::Text(
                    if retryable {
                        "with_backoff"@
                    } else {
                        "do_not_retry"@
                    },
                ),
            ),
            (
                "suggestedAction"@,
                JsonModel::Text(
                    if retryable {
                        "check_server_and_retry"@
                    } else {
                        "inspect_sql_error"@
                    },
                ),
            ),
        ],
    )
}

/// An error text, in small letters, that tells of a statement or a permission
/// that no retry will mend.
pub open spec fn rejects_statement(lower: Seq<char>) -> bool {
    ||| occurs(lower, "syntax error"@)
    ||| occurs(lower, "sql syntax"@)
    ||| occurs(lower, "invalid identifier"@)
    ||| occurs(lower, "invalid column"@)
    ||| occurs(lower, "invalid table name"@)
    ||| occurs(lower, "could not find table"@)
    ||| occurs(lower, "insufficient privilege"@)
    ||| occurs(lower, "not authorized"@)
    ||| occurs(lower, "type mismatch"@)
    ||| occurs(lower, "inconsistent datatype"@)
    ||| occurs(lower, "read-only"@)
    ||| occurs(lower, "readonly"@)
    ||| occurs(lower, "cannot modify"@)
}

/// An error text, in small letters, that tells of the network, a timeout or the
/// pool.
pub open spec fn tells_of_transport(lower: Seq<char>) -> bool {
    ||| occurs(lower, "timed out"@)
    ||| occurs(lower, "timeout"@)
    ||| occurs(lower, "connection"@)
    ||| occurs(lower, "connect"@)
    ||| occurs(lower, "network"@)
    ||| occurs(lower, "broken"@)
    ||| occurs(lower, "pool"@)
    ||| occurs(lower, "socket"@)
    ||| occurs(lower, "temporarily"@)
    ||| occurs(lower, "unavailable"@)
    ||| occurs(lower, "too many"@)
}

/// Whether a call that failed with `message` may succeed when it is repeated.
pub open spec fn is_retryable(message: Seq<char>) -> bool {
    !rejects_statement(lowered(message)) && tells_of_transport(lowered(message))
}

/// The kind of an error.
pub open spec fn error_kind(message: Seq<char>) -> Seq<char> {
    if is_retryable(message) {
        "transport_error"@
    } else {
        "hana_error"@
    }
}

/// The `downstreamError` object of an error text.
pub open spec fn classified(message: Seq<char>) -> JsonModel {
    downstream_error_json(error_kind(message), message, is_retryable(message))
}

/// Builds the `downstreamError` object of an error.
pub fn hana_downstream_error(kind: &str, message: &str, retryable: bool) -> (error: Json)
    ensures
        error@ == downstream_error_json(kind@, message@, retryable),
{
    let mut code = "mcpg.downstream_hana.".to_owned();
    code.append(kind);
    let mut m = members();
    put(&mut m, "kind", Json::text(kind));
    put(&mut m, "code", Json::Str(code));
    put(&mut m, "message", Json::text(message));
    put(&mut m, "retryable", Json::Bool(retryable));
    put(
        &mut m,
        "retryClass",
        Json::text(
            if retryable {
                "with_backoff"
            } else {
                "do_not_retry"
            },
        ),
    );
    put(
        &mut m,
        "suggestedAction",
        Json::text(
            if retryable {
                "check_server_and_retry"
            } else {
                "inspect_sql_error"
            },
        ),
    );
    assert(member_models(m@) =~= downstream_error_json(kind@, message@, retryable)->Object_0);
    Json::object(m)
}

/// Whether a call that failed with `message` may succeed when it is repeated. A
/// rejected statement is never masked as a transport failure, whatever else its
/// text mentions.
pub fn retryable(message: &str) -> (retry: bool)
    ensures
        retry == is_retryable(message@),
{
    let lower = ascii_lowercase(message);
    let rejected = contains(&lower, "syntax error") || contains(&lower, "sql syntax") || contains(
        &lower,
        "invalid identifier",
    ) || contains(&lower, "invalid column") || contains(&lower, "invalid table name") || contains(
        &lower,
        "could not find table",
    ) || contains(&lower, "insufficient privilege") || contains(&lower, "not authorized")
        || contains(&lower, "type mismatch") || contains(&lower, "inconsistent datatype")
        || contains(&lower, "read-only") || contains(&lower, "readonly") || contains(
        &lower,
        "cannot modify",
    );
    !rejected && (contains(&lower, "timed out") || contains(&lower, "timeout") || contains(
        &lower,
        "connection",
    ) || contains(&lower, "connect") || contains(&lower, "network") || contains(&lower, "broken")
        || contains(&lower, "pool") || contains(&lower, "socket") || contains(&lower, "temporarily")
        || contains(&lower, "unavailable") || contains(&lower, "too many"))
}

/// Classifies an error text and builds its `downstreamError` object.
pub fn classify_error(message: &str) -> (error: Json)
    ensures
        error@ == classified(message@),
{
    let retry = retryable(message);
    let kind = if retry {
        "transport_error"
    } else {
        "hana_error"
    };
    hana_downstream_error(kind, message, retry)
}

/// An error text that tells of a rejected statement or permission is never
/// retryable, and one that is retryable is exactly one of kind
/// `transport_error`. Neither depends on the case of ASCII letters.
pub proof fn law_rejections_are_final(message: Seq<char>)
    ensures
        rejects_statement(lowered(message)) ==> error_kind(message) == "hana_error"@
            && !is_retryable(message),
        is_retryable(message) <==> error_kind(message) == "transport_error"@,
        error_kind(lowered(message)) == error_kind(message),
{
    reveal_strlit("transport_error");
    reveal_strlit("hana_error");
    assert("transport_error"@.len() != "hana_error"@.len());
    assert(lowered(lowered(message)) =~= lowered(message));
}

/// `{"type": kind}`.
pub open spec fn typed_json(kind: Seq<char>) -> JsonModel {
    JsonModel::Object(seq![("type"@, JsonModel::Text(kind))])
}

/// `[kind, "null"]`.
pub open spec fn nullable_kind(kind: Seq<char>) -> JsonModel {
    JsonModel::Array(seq![JsonModel::Text(kind), JsonModel::Text("null"@)])
}

/// `{"type": [kind, "null"]}`.
pub open spec fn nullable_json(kind: Seq<char>) -> JsonModel {
    JsonModel::Object(seq![("type"@, nullable_kind(kind))])
}

/// The empty schema, which admits every value.
pub open spec fn any_json() -> JsonModel {
    JsonModel::Object(Seq::empty())
}

/// Schema of the `request` part.
pub open spec fn request_schema_json() -> JsonModel {
    JsonModel::Object(
        seq![
            ("type"@, JsonModel::Text("object"@)),
            ("properties"@, JsonModel::Object(seq![("database"@, typed_json("string"@))])),
            ("additionalProperties"@, JsonModel::Bool(true)),
        ],
    )
}

/// Schema of the `rows` of a response, with the given schema for a row.
pub open spec fn rows_schema_json(row: JsonModel) -> JsonModel {
    JsonModel::Object(seq![("type"@, nullable_kind("array"@)), ("items"@, row)])
}

/// The properties of the `response` part, with the given schema for a row.
pub open spec fn response_properties(row: JsonModel) -> Seq<(Seq<char>, JsonModel)> {
    seq![
        ("rows"@, rows_schema_json(row)),
        ("count"@, nullable_json("integer"@)),
        ("truncated"@, typed_json("boolean"@)),
        ("durationMs"@, typed_json("integer"@)),
    ]
}

/// Schema of the `response` part, with the given schema for a row.
pub open spec fn response_schema_json(row: JsonModel) -> JsonModel {
    JsonModel::Object(
        seq![
            ("type"@, nullable_kind("object"@)),
            ("properties"@, JsonModel::Object(response_properties(row))),
            ("additionalProperties"@, JsonModel::Bool(true)),
        ],
    )
}

/// Schema of the `downstreamErrors` part.
pub open spec fn errors_schema_json() -> JsonModel {
    JsonModel::Object(seq![("type"@, JsonModel::Text("array"@)), ("items"@, any_json())])
}

/// The properties of the envelope, with the given schema for a row.
pub open spec fn envelope_properties(row: JsonModel) -> Seq<(Seq<char>, JsonModel)> {
    seq![
        ("toolName"@, typed_json("string"@)),
        ("profile"@, typed_json("string"@)),
        ("request"@, request_schema_json()),
        ("response"@, response_schema_json(row)),
        ("downstreamError"@, nullable_json("object"@)),
        ("downstreamErrors"@, errors_schema_json()),
        ("error"@, nullable_json("string"@)),
    ]
}

/// Schema of the envelope, with the given schema for a row.
pub open spec fn envelope_schema_json(row: JsonModel) -> JsonModel {
    JsonModel::Object(
        seq![
            ("$schema"@, JsonModel::Text("https://json-schema.org/draft/2020-12/schema"@)),
            ("type"@, JsonModel::Text("object"@)),
            ("properties"@, JsonModel::Object(envelope_properties(row))),
            ("additionalProperties"@, JsonModel::Bool(true)),
        ],
    )
}

/// One property, open to every value, for each of the first `n` names; a name
/// that comes again adds nothing.
pub open spec fn open_properties(names: Seq<Seq<char>>, n: int) -> Seq<(Seq<char>, JsonModel)>
    decreases n,
{
    if n <= 0 {
        Seq::empty()
    } else {
        with_member(open_properties(names, n - 1), names[n - 1], any_json())
    }
}

/// Schema of an open object with the named properties.
pub open spec fn open_object_json(names: Seq<Seq<char>>) -> JsonModel {
    JsonModel::Object(
        seq![
            ("type"@, JsonModel::Text("object"@)),
            ("properties"@, JsonModel::Object(open_properties(names, names.len() as int))),
            ("additionalProperties"@, JsonModel::Bool(true)),
        ],
    )
}

/// `{"type": kind}`.
fn typed(kind: &str) -> (schema: Json)
    ensures
        schema@ == typed_json(kind@),
{
    let mut m = members();
    put(&mut m, "type", Json::text(kind));
    Json::object(m)
}

/// `[kind, "null"]`.
fn kind_or_null(kind: &str) -> (kinds: Json)
    ensures
        kinds@ == nullable_kind(kind@),
{
    let mut items: Vec<Json> = Vec::new();
    items.push(Json::text(kind));
    items.push(Json::text("null"));
    assert(models(items@) =~= seq![JsonModel::Text(kind@), JsonModel::Text("null"@)]);
    Json::array(items)
}

/// `{"type": [kind, "null"]}`.
fn nullable(kind: &str) -> (schema: Json)
    ensures
        schema@ == nullable_json(kind@),
{
    let mut m = members();
    put(&mut m, "type", kind_or_null(kind));
    Json::object(m)
}

/// The empty schema.
fn any() -> (schema: Json)
    ensures
        schema@ == any_json(),
{
    Json::object(members())
}

/// Schema of the `request` part.
fn request_schema() -> (schema: Json)
    ensures
        schema@ == request_schema_json(),
{
    let mut properties = members();
    put(&mut properties, "database", typed("string"));
    let mut m = members();
    put(&mut m, "type", Json::text("object"));
    put(&mut m, "properties", Json::object(properties));
    put(&mut m, "additionalProperties", Json::Bool(true));
    assert(member_models(m@) =~= request_schema_json()->Object_0);
    Json::object(m)
}

/// Schema of the `response` part, with the given schema for a row.
fn response_schema(row: Json) -> (schema: Json)
    ensures
        schema@ == response_schema_json(row@),
{
    let mut rows = members();
    put(&mut rows, "type", kind_or_null("array"));
    put(&mut rows, "items", row);
    assert(member_models(rows@) =~= rows_schema_json(row@)->Object_0);
    let mut properties = members();
    put(&mut properties, "rows", Json::object(rows));
    put(&mut properties, "count", nullable("integer"));
    put(&mut properties, "truncated", typed("boolean"));
    put(&mut properties, "durationMs", typed("integer"));
    assert(member_models(properties@) =~= response_properties(row@));
    let mut m = members();
    put(&mut m, "type", kind_or_null("object"));
    put(&mut m, "properties", Json::object(properties));
    put(&mut m, "additionalProperties", Json::Bool(true));
    assert(member_models(m@) =~= response_schema_json(row@)->Object_0);
    Json::object(m)
}

/// Schema of the envelope, with the given schema for a row.
fn envelope_schema(row: Json) -> (schema: Json)
    ensures
        schema@ == envelope_schema_json(row@),
{
    let mut errors = members();
    put(&mut errors, "type", Json::text("array"));
    put(&mut errors, "items", any());
    assert(member_models(errors@) =~= errors_schema_json()->Object_0);
    let mut properties = members();
    put(&mut properties, "toolName", typed("string"));
    put(&mut properties, "profile", typed("string"));
    put(&mut properties, "request", request_schema());
    put(&mut properties, "response", response_schema(row));
    put(&mut properties, "downstreamError", nullable("object"));
    put(&mut properties, "downstreamErrors", Json::object(errors));
    put(&mut properties, "error", nullable("string"));
    assert(member_models(properties@) =~= envelope_properties(row@));
    let mut m = members();
    put(&mut m, "$schema", Json::text("https://json-schema.org/draft/2020-12/schema"));
    put(&mut m, "type", Json::text("object"));
    put(&mut m, "properties", Json::object(properties));
    put(&mut m, "additionalProperties", Json::Bool(true));
    assert(member_models(m@) =~= envelope_schema_json(row@)->Object_0);
    Json::object(m)
}

/// JSON Schema of the envelope, with rows of any shape.
pub fn result_envelope_schema() -> (schema: Json)
    ensures
        schema@ == envelope_schema_json(any_json()),
{
    envelope_schema(any())
}

/// JSON Schema of an open object with the named properties, each of any type.
pub fn open_object_schema(names: &Vec<String>) -> (schema: Json)
    ensures
        schema@ == open_object_json(name_texts(names@)),
{
    let mut properties = members();
    let mut i: usize = 0;
    while i < names.len()
        invariant
            i <= names@.len(),
            member_models(properties@) == open_properties(name_texts(names@), i as int),
        decreases names@.len() - i,
    {
        insert(&mut properties, &names[i], any());
        i += 1;
    }
    let mut m = members();
    put(&mut m, "type", Json::text("object"));
    put(&mut m, "properties", Json::object(properties));
    put(&mut m, "additionalProperties", Json::Bool(true));
    assert(member_models(m@) =~= open_object_json(name_texts(names@))->Object_0);
    Json::object(m)
}

/// JSON Schema of the envelope of a catalog operation, whose rows have the
/// given columns.
pub fn catalog_envelope_schema(columns: &Vec<String>) -> (schema: Json)
    ensures
        schema@ == envelope_schema_json(open_object_json(name_texts(columns@))),
{
    envelope_schema(open_object_schema(columns))
}

/// The columns of a `list_tables` result.
pub open spec fn tables_columns() -> Seq<Seq<char>> {
    seq!["SCHEMA_NAME"@, "TABLE_NAME"@, "TABLE_TYPE"@]
}

/// The columns of a `list_columns` result.
pub open spec fn columns_columns() -> Seq<Seq<char>> {
    seq![
        "SCHEMA_NAME"@,
        "TABLE_NAME"@,
        "COLUMN_NAME"@,
        "DATA_TYPE_NAME"@,
        "LENGTH"@,
        "IS_NULLABLE"@,
        "POSITION"@,
    ]
}

/// The columns of a `list_tables` result.
pub fn list_tables_columns() -> (columns: Vec<String>)
    ensures
        name_texts(columns@) == tables_columns(),
{
    let mut columns: Vec<String> = Vec::new();
    columns.push("SCHEMA_NAME".to_owned());
    columns.push("TABLE_NAME".to_owned());
    columns.push("TABLE_TYPE".to_owned());
    assert(name_texts(columns@) =~= tables_columns());
    columns
}

/// The columns of a `list_columns` result.
pub fn list_columns_columns() -> (columns: Vec<String>)
    ensures
        name_texts(columns@) == columns_columns(),
{
    let mut columns: Vec<String> = Vec::new();
    columns.push("SCHEMA_NAME".to_owned());
    columns.push("TABLE_NAME".to_owned());
    columns.push("COLUMN_NAME".to_owned());
    columns.push("DATA_TYPE_NAME".to_owned());
    columns.push("LENGTH".to_owned());
    columns.push("IS_NULLABLE".to_owned());
    columns.push("POSITION".to_owned());
    assert(name_texts(columns@) =~= columns_columns());
    columns
}

/// What an envelope is built from.
pub struct EnvelopeModel {
    pub tool_name: Seq<char>,
    pub profile_name: Seq<char>,
    pub database: Seq<char>,
    pub rows: Option<Seq<JsonModel>>,
    pub row_count: Option<int>,
    pub truncated: bool,
    pub duration_ms: int,
    pub downstream_error: Option<JsonModel>,
    pub error: Option<Seq<char>>,
}

/// The `count` of an envelope: the given count, else the number of rows.
pub open spec fn envelope_count(e: EnvelopeModel) -> JsonModel {
    match (e.row_count, e.rows) {
        (Some(n), _) => JsonModel::Number(NumberModel::Integer(n)),
        (None, Some(rows)) => JsonModel::Number(NumberModel::Integer(rows.len() as int)),
        (None, None) => JsonModel::Null,
    }
}

/// The `response` of an envelope, `null` where there is a downstream error.
pub open spec fn envelope_response(e: EnvelopeModel) -> JsonModel {
    if e.downstream_error is Some {
        JsonModel::Null
    } else {
        JsonModel::Object(
            seq![
                (
                    "rows"@,
                    match e.rows {
                        Some(rows) => JsonModel::Array(rows),
                        None => JsonModel::Null,
                    },
                ),
                ("count"@, envelope_count(e)),
                ("truncated"@, JsonModel::Bool(e.truncated)),
                ("durationMs"@, JsonModel::Number(NumberModel::Integer(e.duration_ms))),
            ],
        )
    }
}

/// The members of an envelope.
pub open spec fn envelope_members(e: EnvelopeModel) -> Seq<(Seq<char>, JsonModel)> {
    seq![
        ("toolName"@, JsonModel::Text(e.tool_name)),
        ("profile"@, JsonModel::Text(e.profile_name)),
        ("request"@, JsonModel::Object(seq![("database"@, JsonModel::Text(e.database))])),
        ("response"@, envelope_response(e)),
        (
            "downstreamError"@,
            match e.downstream_error {
                Some(d) => d,
                None => JsonModel::Null,
            },
        ),
        (
            "downstreamErrors"@,
            JsonModel::Array(
                match e.downstream_error {
                    Some(d) => seq![d],
                    None => Seq::empty(),
                },
            ),
        ),
        (
            "error"@,
            match e.error {
                Some(words) => JsonModel::Text(words),
                None => JsonModel::Null,
            },
        ),
    ]
}

/// An envelope.
pub open spec fn envelope_json(e: EnvelopeModel) -> JsonModel {
    JsonModel::Object(envelope_members(e))
}

/// A copy of a list of values.
pub fn copy_all(items: &Vec<Json>) -> (copies: Vec<Json>)
    ensures
        models(copies@) == models(items@),
{
    let mut copies: Vec<Json> = Vec::new();
    let mut i: usize = 0;
    while i < items.len()
        invariant
            i <= items@.len(),
            models(copies@) == models(items@).take(i as int),
        decreases items@.len() - i,
    {
        let item = items[i].copy();
        assert(models(copies@.push(item)) =~= models(copies@).push(item@));
        copies.push(item);
        i += 1;
    }
    assert(models(items@).take(i as int) =~= models(items@));
    copies
}

/// Builds the envelope of a call.
pub fn build_result_envelope(
    tool_name: &str,
    profile_name: &str,
    database: &str,
    rows: Option<&Vec<Json>>,
    row_count: Option<usize>,
    truncated: bool,
    duration_ms: u128,
    downstream_error: Option<&Json>,
    error: Option<&str>,
) -> (envelope: Json)
    requires
        downstream_error is None ==> duration_ms <= u64::MAX,
    ensures
        envelope@ == envelope_json(
            EnvelopeModel {
                tool_name: tool_name@,
                profile_name: profile_name@,
                database: database@,
                rows: match rows {
                    Some(r) => Some(models(r@)),
                    None => None,
                },
                row_count: match row_count {
                    Some(n) => Some(n as int),
                    None => None,
                },
                truncated,
                duration_ms: duration_ms as int,
                downstream_error: match downstream_error {
                    Some(d) => Some(d@),
                    None => None,
                },
                error: match error {
                    Some(words) => Some(words@),
                    None => None,
                },
            },
        ),
{
    let ghost e = EnvelopeModel {
        tool_name: tool_name@,
        profile_name: profile_name@,
        database: database@,
        rows: match rows {
            Some(r) => Some(models(r@)),
            None => None,
        },
        row_count: match row_count {
            Some(n) => Some(n as int),
            None => None,
        },
        truncated,
        duration_ms: duration_ms as int,
        downstream_error: match downstream_error {
            Some(d) => Some(d@),
            None => None,
        },
        error: match error {
            Some(words) => Some(words@),
            None => None,
        },
    };
    let response = if downstream_error.is_some() {
        Json::Null
    } else {
        let mut m = members();
        put(
            &mut m,
            "rows",
            match rows {
                Some(r) => Json::array(copy_all(r)),
                None => Json::Null,
            },
        );
        put(
            &mut m,
            "count",
            match row_count {
                Some(n) => Json::count(n as u64),
                None => match rows {
                    Some(r) => Json::count(r.len() as u64),
                    None => Json::Null,
                },
            },
        );
        put(&mut m, "truncated", Json::Bool(truncated));
        put(&mut m, "durationMs", Json::count(duration_ms as u64));
        assert(member_models(m@) =~= envelope_response(e)->Object_0);
        Json::object(m)
    };
    let mut request = members();
    put(&mut request, "database", Json::text(database));
    let mut errors: Vec<Json> = Vec::new();
    if let Some(d) = downstream_error {
        errors.push(d.copy());
        assert(models(errors@) =~= seq![d@]);
    } else {
        assert(models(errors@) =~= Seq::<JsonModel>::empty());
    }
    let mut m = members();
    put(&mut m, "toolName", Json::text(tool_name));
    put(&mut m, "profile", Json::text(profile_name));
    put(&mut m, "request", Json::object(request));
    put(&mut m, "response", response);
    put(
        &mut m,
        "downstreamError",
        match downstream_error {
            Some(d) => d.copy(),
            None => Json::Null,
        },
    );
    put(&mut m, "downstreamErrors", Json::array(errors));
    put(
        &mut m,
        "error",
        match error {
            Some(words) => Json::text(words),
            None => Json::Null,
        },
    );
    assert(member_models(m@) =~= envelope_members(e));
    Json::object(m)
}

/// The schema of an open object has a property, open to every value, for each of
/// its names.
pub proof fn law_open_schema_covers_names(names: Seq<Seq<char>>, n: int, i: int)
    requires
        0 <= i < n <= names.len(),
    ensures
        lookup(open_properties(names, n), names[i]) == Some(any_json()),
    decreases n,
{
    let before = open_properties(names, n - 1);
    lemma_with_member_lookup(before, names[n - 1], any_json(), names[i]);
    if i < n - 1 {
        law_open_schema_covers_names(names, n - 1, i);
    }
}

/// Every member of an envelope is a property of the schema, in the same order,
/// whatever the call and whatever the schema of its rows.
pub proof fn law_schema_covers_envelope(e: EnvelopeModel, row: JsonModel, i: int)
    requires
        0 <= i < envelope_members(e).len(),
    ensures
        envelope_members(e).len() == envelope_properties(row).len(),
        envelope_members(e)[i].0 == envelope_properties(row)[i].0,
{
}

/// The `downstreamError` of an envelope is `null` exactly where no downstream
/// error was given, and there exactly the `response` is not `null`.
pub proof fn law_downstream_error_marks_failure(e: EnvelopeModel)
    requires
        e.downstream_error matches Some(d) ==> !(d is Null),
    ensures
        member_of(envelope_json(e), "downstreamError"@) == Some(
            match e.downstream_error {
                Some(d) => d,
                None => JsonModel::Null,
            },
        ),
        member_of(envelope_json(e), "response"@) == Some(envelope_response(e)),
        envelope_response(e) is Null <==> e.downstream_error is Some,
        member_of(envelope_json(e), "downstreamError"@) == Some(JsonModel::Null)
            <==> e.downstream_error is None,
{
    reveal_strlit("toolName");
    reveal_strlit("profile");
    reveal_strlit("request");
    reveal_strlit("response");
    reveal_strlit("downstreamError");
    reveal_strlit("downstreamErrors");
    reveal_strlit("error");
    assert("toolName"@[0] != "response"@[0]);
    let all = envelope_members(e);
    assert(all[0].0 == "toolName"@ && all[1].0 == "profile"@ && all[2].0 == "request"@);
    assert(all[3].0 == "response"@ && all[4].0 == "downstreamError"@);
    assert forall|j: int| 0 <= j < 4 implies (#[trigger] all[j]).0 != "downstreamError"@ by {
        assert(j == 0 || j == 1 || j == 2 || j == 3);
    }
    assert forall|j: int| 0 <= j < 3 implies (#[trigger] all[j]).0 != "response"@ by {
        assert(j == 0 || j == 1 || j == 2);
    }
    lemma_lookup_at(all, "downstreamError"@, 4);
    lemma_lookup_at(all, "response"@, 3);
}

/// The members of an envelope and the properties of its schema, by their names.
proof fn lemma_envelope_names(all: Seq<(Seq<char>, JsonModel)>)
    requires
        all.len() == 7,
        all[0].0 == "toolName"@,
        all[1].0 == "profile"@,
        all[2].0 == "request"@,
        all[3].0 == "response"@,
        all[4].0 == "downstreamError"@,
        all[5].0 == "downstreamErrors"@,
        all[6].0 == "error"@,
    ensures
        distinct_names(all),
        lookup(all, "toolName"@) == Some(all[0].1),
        lookup(all, "profile"@) == Some(all[1].1),
        lookup(all, "request"@) == Some(all[2].1),
        lookup(all, "response"@) == Some(all[3].1),
        lookup(all, "downstreamError"@) == Some(all[4].1),
        lookup(all, "downstreamErrors"@) == Some(all[5].1),
        lookup(all, "error"@) == Some(all[6].1),
{
    reveal_strlit("toolName");
    reveal_strlit("profile");
    reveal_strlit("request");
    reveal_strlit("response");
    reveal_strlit("downstreamError");
    reveal_strlit("downstreamErrors");
    reveal_strlit("error");
    assert(all[0].0.len() == 8 && all[1].0.len() == 7 && all[2].0.len() == 7);
    assert(all[3].0.len() == 8 && all[4].0.len() == 15 && all[5].0.len() == 16);
    assert(all[6].0.len() == 5);
    assert(all[1].0[0] != all[2].0[0]);
    assert(all[0].0[0] != all[3].0[0]);
    assert forall|i: int, j: int| 0 <= i < j < all.len() implies (#[trigger] all[i]).0 != (
    #[trigger] all[j]).0 by {
        assert(i == 0 || i == 1 || i == 2 || i == 3 || i == 4 || i == 5 || i == 6);
        assert(j == 0 || j == 1 || j == 2 || j == 3 || j == 4 || j == 5 || j == 6);
    }
    lemma_lookup_distinct(all, 0);
    lemma_lookup_distinct(all, 1);
    lemma_lookup_distinct(all, 2);
    lemma_lookup_distinct(all, 3);
    lemma_lookup_distinct(all, 4);
    lemma_lookup_distinct(all, 5);
    lemma_lookup_distinct(all, 6);
}

/// The members of a response and the properties of its schema, by their names.
proof fn lemma_response_names(all: Seq<(Seq<char>, JsonModel)>)
    requires
        all.len() == 4,
        all[0].0 == "rows"@,
        all[1].0 == "count"@,
        all[2].0 == "truncated"@,
        all[3].0 == "durationMs"@,
    ensures
        distinct_names(all),
        lookup(all, "rows"@) == Some(all[0].1),
        lookup(all, "count"@) == Some(all[1].1),
        lookup(all, "truncated"@) == Some(all[2].1),
        lookup(all, "durationMs"@) == Some(all[3].1),
{
    reveal_strlit("rows");
    reveal_strlit("count");
    reveal_strlit("truncated");
    reveal_strlit("durationMs");
    assert(all[0].0.len() == 4 && all[1].0.len() == 5 && all[2].0.len() == 9);
    assert(all[3].0.len() == 10);
    assert forall|i: int, j: int| 0 <= i < j < all.len() implies (#[trigger] all[i]).0 != (
    #[trigger] all[j]).0 by {
        assert(i == 0 || i == 1 || i == 2 || i == 3);
        assert(j == 0 || j == 1 || j == 2 || j == 3);
    }
    lemma_lookup_distinct(all, 0);
    lemma_lookup_distinct(all, 1);
    lemma_lookup_distinct(all, 2);
    lemma_lookup_distinct(all, 3);
}

/// The members of a downstream error, by their names.
proof fn lemma_error_names(all: Seq<(Seq<char>, JsonModel)>)
    requires
        all.len() == 6,
        all[0].0 == "kind"@,
        all[1].0 == "code"@,
        all[2].0 == "message"@,
        all[3].0 == "retryable"@,
        all[4].0 == "retryClass"@,
        all[5].0 == "suggestedAction"@,
    ensures
        distinct_names(all),
        lookup(all, "kind"@) == Some(all[0].1),
        lookup(all, "code"@) == Some(all[1].1),
        lookup(all, "message"@) == Some(all[2].1),
        lookup(all, "retryable"@) == Some(all[3].1),
        lookup(all, "retryClass"@) == Some(all[4].1),
        lookup(all, "suggestedAction"@) == Some(all[5].1),
{
    reveal_strlit("kind");
    reveal_strlit("code");
    reveal_strlit("message");
    reveal_strlit("retryable");
    reveal_strlit("retryClass");
    reveal_strlit("suggestedAction");
    assert(all[0].0.len() == 4 && all[1].0.len() == 4 && all[2].0.len() == 7);
    assert(all[3].0.len() == 9 && all[4].0.len() == 10 && all[5].0.len() == 15);
    assert(all[0].0[0] != all[1].0[0]);
    assert forall|i: int, j: int| 0 <= i < j < all.len() implies (#[trigger] all[i]).0 != (
    #[trigger] all[j]).0 by {
        assert(i == 0 || i == 1 || i == 2 || i == 3 || i == 4 || i == 5);
        assert(j == 0 || j == 1 || j == 2 || j == 3 || j == 4 || j == 5);
    }
    lemma_lookup_distinct(all, 0);
    lemma_lookup_distinct(all, 1);
    lemma_lookup_distinct(all, 2);
    lemma_lookup_distinct(all, 3);
    lemma_lookup_distinct(all, 4);
    lemma_lookup_distinct(all, 5);
}

/// The keywords of an object schema, by their names.
proof fn lemma_object_schema_names(all: Seq<(Seq<char>, JsonModel)>)
    requires
        all.len() == 3,
        all[0].0 == "type"@,
        all[1].0 == "properties"@,
        all[2].0 == "additionalProperties"@,
    ensures
        distinct_names(all),
        lookup(all, "type"@) == Some(all[0].1),
        lookup(all, "properties"@) == Some(all[1].1),
        lookup(all, "additionalProperties"@) == Some(all[2].1),
{
    reveal_strlit("type");
    reveal_strlit("properties");
    reveal_strlit("additionalProperties");
    assert(all[0].0.len() == 4 && all[1].0.len() == 10 && all[2].0.len() == 20);
    assert forall|i: int, j: int| 0 <= i < j < all.len() implies (#[trigger] all[i]).0 != (
    #[trigger] all[j]).0 by {
        assert(i == 0 || i == 1 || i == 2);
        assert(j == 0 || j == 1 || j == 2);
    }
    lemma_lookup_distinct(all, 0);
    lemma_lookup_distinct(all, 1);
    lemma_lookup_distinct(all, 2);
}

/// The keywords of the envelope schema, by their names.
proof fn lemma_root_schema_names(all: Seq<(Seq<char>, JsonModel)>)
    requires
        all.len() == 4,
        all[0].0 == "$schema"@,
        all[1].0 == "type"@,
        all[2].0 == "properties"@,
        all[3].0 == "additionalProperties"@,
    ensures
        distinct_names(all),
        lookup(all, "$schema"@) == Some(all[0].1),
        lookup(all, "type"@) == Some(all[1].1),
        lookup(all, "properties"@) == Some(all[2].1),
        lookup(all, "additionalProperties"@) == Some(all[3].1),
{
    reveal_strlit("$schema");
    reveal_strlit("type");
    reveal_strlit("properties");
    reveal_strlit("additionalProperties");
    assert(all[0].0.len() == 7 && all[1].0.len() == 4 && all[2].0.len() == 10);
    assert(all[3].0.len() == 20);
    assert forall|i: int, j: int| 0 <= i < j < all.len() implies (#[trigger] all[i]).0 != (
    #[trigger] all[j]).0 by {
        assert(i == 0 || i == 1 || i == 2 || i == 3);
        assert(j == 0 || j == 1 || j == 2 || j == 3);
    }
    lemma_lookup_distinct(all, 0);
    lemma_lookup_distinct(all, 1);
    lemma_lookup_distinct(all, 2);
    lemma_lookup_distinct(all, 3);
}

/// The keywords of an array schema, by their names.
proof fn lemma_array_schema_names(all: Seq<(Seq<char>, JsonModel)>)
    requires
        all.len() == 2,
        all[0].0 == "type"@,
        all[1].0 == "items"@,
    ensures
        distinct_names(all),
        lookup(all, "type"@) == Some(all[0].1),
        lookup(all, "items"@) == Some(all[1].1),
{
    reveal_strlit("type");
    reveal_strlit("items");
    assert(all[0].0.len() == 4 && all[1].0.len() == 5);
    assert forall|i: int, j: int| 0 <= i < j < all.len() implies (#[trigger] all[i]).0 != (
    #[trigger] all[j]).0 by {
        assert(i == 0 || i == 1);
        assert(j == 0 || j == 1);
    }
    lemma_lookup_distinct(all, 0);
    lemma_lookup_distinct(all, 1);
}

/// The keyword of a plain schema, by its name.
proof fn lemma_type_name(all: Seq<(Seq<char>, JsonModel)>)
    requires
        all.len() == 1,
        all[0].0 == "type"@,
    ensures
        distinct_names(all),
        lookup(all, "type"@) == Some(all[0].1),
{
    reveal_strlit("type");
    lemma_lookup_distinct(all, 0);
}

/// The member of a request, by its name.
proof fn lemma_database_name(all: Seq<(Seq<char>, JsonModel)>)
    requires
        all.len() == 1,
        all[0].0 == "database"@,
    ensures
        distinct_names(all),
        lookup(all, "database"@) == Some(all[0].1),
{
    reveal_strlit("database");
    lemma_lookup_distinct(all, 0);
}

/// What stands under `name` in the member `outer` of an object.
pub open spec fn inner_member(value: JsonModel, outer: Seq<char>, name: Seq<char>) -> Option<
    JsonModel,
> {
    match member_of(value, outer) {
        Some(inner) => member_of(inner, name),
        None => None,
    }
}

/// The response of a call without a downstream error holds every row, in order,
/// whatever their number; its count is the one that was given, or else the number
/// of those rows; and it tells whether rows were left out and how long the call
/// took.
pub proof fn law_envelopes_hold_every_row(e: EnvelopeModel, rows: Seq<JsonModel>)
    requires
        e.downstream_error is None,
        e.rows == Some(rows),
    ensures
        inner_member(envelope_json(e), "response"@, "rows"@) == Some(JsonModel::Array(rows)),
        e.row_count matches Some(n) ==> inner_member(envelope_json(e), "response"@, "count"@)
            == Some(JsonModel::Number(NumberModel::Integer(n))),
        e.row_count is None ==> inner_member(envelope_json(e), "response"@, "count"@) == Some(
            JsonModel::Number(NumberModel::Integer(rows.len() as int)),
        ),
        inner_member(envelope_json(e), "response"@, "truncated"@) == Some(
            JsonModel::Bool(e.truncated),
        ),
        inner_member(envelope_json(e), "response"@, "durationMs"@) == Some(
            JsonModel::Number(NumberModel::Integer(e.duration_ms)),
        ),
{
    lemma_envelope_names(envelope_members(e));
    lemma_response_names(envelope_response(e)->Object_0);
}

/// A response that was given no rows has neither rows nor, where no count was
/// given, a count.
pub proof fn law_envelopes_without_rows(e: EnvelopeModel)
    requires
        e.downstream_error is None,
        e.rows is None,
    ensures
        inner_member(envelope_json(e), "response"@, "rows"@) == Some(JsonModel::Null),
        e.row_count is None ==> inner_member(envelope_json(e), "response"@, "count"@) == Some(
            JsonModel::Null,
        ),
        e.row_count matches Some(n) ==> inner_member(envelope_json(e), "response"@, "count"@)
            == Some(JsonModel::Number(NumberModel::Integer(n))),
{
    lemma_envelope_names(envelope_members(e));
    lemma_response_names(envelope_response(e)->Object_0);
}

/// An envelope names its tool, its profile and its database, and holds the error
/// and the downstream error that it was given: once by itself, and once as the
/// only one of the list of downstream errors.
pub proof fn law_envelopes_tell_who_and_why(e: EnvelopeModel)
    ensures
        member_of(envelope_json(e), "toolName"@) == Some(JsonModel::Text(e.tool_name)),
        member_of(envelope_json(e), "profile"@) == Some(JsonModel::Text(e.profile_name)),
        inner_member(envelope_json(e), "request"@, "database"@) == Some(
            JsonModel::Text(e.database),
        ),
        e.error matches Some(words) ==> member_of(envelope_json(e), "error"@) == Some(
            JsonModel::Text(words),
        ),
        e.error is None ==> member_of(envelope_json(e), "error"@) == Some(JsonModel::Null),
        e.downstream_error matches Some(d) ==> {
            &&& member_of(envelope_json(e), "downstreamError"@) == Some(d)
            &&& member_of(envelope_json(e), "downstreamErrors"@) == Some(
                JsonModel::Array(seq![d]),
            )
            &&& member_of(envelope_json(e), "response"@) == Some(JsonModel::Null)
        },
        e.downstream_error is None ==> {
            &&& member_of(envelope_json(e), "downstreamError"@) == Some(JsonModel::Null)
            &&& member_of(envelope_json(e), "downstreamErrors"@) == Some(
                JsonModel::Array(Seq::empty()),
            )
        },
{
    lemma_envelope_names(envelope_members(e));
    lemma_database_name(envelope_members(e)[2].1->Object_0);
}

/// A downstream error tells its kind, by itself and in its code, its message as
/// it stands, and whether a retry may help; the retry class and the suggested
/// action agree with that.
pub proof fn law_downstream_errors_tell_all(kind: Seq<char>, message: Seq<char>, retryable: bool)
    ensures
        ({
            let error = downstream_error_json(kind, message, retryable);
            &&& member_of(error, "kind"@) == Some(JsonModel::Text(kind))
            &&& member_of(error, "code"@) == Some(
                JsonModel::Text("mcpg.downstream_hana."@ + kind),
            )
            &&& member_of(error, "message"@) == Some(JsonModel::Text(message))
            &&& member_of(error, "retryable"@) == Some(JsonModel::Bool(retryable))
            &&& retryable ==> member_of(error, "retryClass"@) == Some(
                JsonModel::Text("with_backoff"@),
            )
            &&& retryable ==> member_of(error, "suggestedAction"@) == Some(
                JsonModel::Text("check_server_and_retry"@),
            )
            &&& !retryable ==> member_of(error, "retryClass"@) == Some(
                JsonModel::Text("do_not_retry"@),
            )
            &&& !retryable ==> member_of(error, "suggestedAction"@) == Some(
                JsonModel::Text("inspect_sql_error"@),
            )
        }),
{
    lemma_error_names(downstream_error_json(kind, message, retryable)->Object_0);
}

/// A classified error tells its message as it stands, and its kind and whether a
/// retry may help go together.
pub proof fn law_classified_errors(message: Seq<char>)
    ensures
        member_of(classified(message), "message"@) == Some(JsonModel::Text(message)),
        is_retryable(message) ==> {
            &&& member_of(classified(message), "kind"@) == Some(
                JsonModel::Text("transport_error"@),
            )
            &&& member_of(classified(message), "retryable"@) == Some(JsonModel::Bool(true))
        },
        !is_retryable(message) ==> {
            &&& member_of(classified(message), "kind"@) == Some(JsonModel::Text("hana_error"@))
            &&& member_of(classified(message), "retryable"@) == Some(JsonModel::Bool(false))
        },
{
    law_downstream_errors_tell_all(error_kind(message), message, is_retryable(message));
}

/// A text that is small already, found in a message in small letters.
proof fn lemma_small_words_occur(before: Seq<char>, word: Seq<char>, behind: Seq<char>)
    requires
        forall|i: int| 0 <= i < word.len() ==> lower_char(#[trigger] word[i]) == word[i],
    ensures
        occurs(lowered(before + word + behind), word),
{
    let all = lowered(before + word + behind);
    let at = before.len() as int;
    assert(all.subrange(at, at + word.len()) =~= word);
    assert(occurs_at(all, word, at));
}

/// A message that tells anywhere of a rejected statement or a missing permission
/// is not retryable, whatever stands around it.
pub proof fn law_rejecting_words_are_final(before: Seq<char>, behind: Seq<char>)
    ensures
        !is_retryable(before + "syntax error"@ + behind),
        !is_retryable(before + "sql syntax"@ + behind),
        !is_retryable(before + "invalid identifier"@ + behind),
        !is_retryable(before + "invalid column"@ + behind),
        !is_retryable(before + "invalid table name"@ + behind),
        !is_retryable(before + "could not find table"@ + behind),
        !is_retryable(before + "insufficient privilege"@ + behind),
        !is_retryable(before + "not authorized"@ + behind),
        !is_retryable(before + "type mismatch"@ + behind),
        !is_retryable(before + "inconsistent datatype"@ + behind),
        !is_retryable(before + "read-only"@ + behind),
        !is_retryable(before + "readonly"@ + behind),
        !is_retryable(before + "cannot modify"@ + behind),
{
    reveal_strlit("syntax error");
    lemma_small_words_occur(before, "syntax error"@, behind);
    reveal_strlit("sql syntax");
    lemma_small_words_occur(before, "sql syntax"@, behind);
    reveal_strlit("invalid identifier");
    lemma_small_words_occur(before, "invalid identifier"@, behind);
    reveal_strlit("invalid column");
    lemma_small_words_occur(before, "invalid column"@, behind);
    reveal_strlit("invalid table name");
    lemma_small_words_occur(before, "invalid table name"@, behind);
    reveal_strlit("could not find table");
    lemma_small_words_occur(before, "could not find table"@, behind);
    reveal_strlit("insufficient privilege");
    lemma_small_words_occur(before, "insufficient privilege"@, behind);
    reveal_strlit("not authorized");
    lemma_small_words_occur(before, "not authorized"@, behind);
    reveal_strlit("type mismatch");
    lemma_small_words_occur(before, "type mismatch"@, behind);
    reveal_strlit("inconsistent datatype");
    lemma_small_words_occur(before, "inconsistent datatype"@, behind);
    reveal_strlit("read-only");
    lemma_small_words_occur(before, "read-only"@, behind);
    reveal_strlit("readonly");
    lemma_small_words_occur(before, "readonly"@, behind);
    reveal_strlit("cannot modify");
    lemma_small_words_occur(before, "cannot modify"@, behind);
}

/// Nothing but those words rejects a statement.
pub proof fn law_only_rejecting_words_reject(lower: Seq<char>)
    requires
        !occurs(lower, "syntax error"@),
        !occurs(lower, "sql syntax"@),
        !occurs(lower, "invalid identifier"@),
        !occurs(lower, "invalid column"@),
        !occurs(lower, "invalid table name"@),
        !occurs(lower, "could not find table"@),
        !occurs(lower, "insufficient privilege"@),
        !occurs(lower, "not authorized"@),
        !occurs(lower, "type mismatch"@),
        !occurs(lower, "inconsistent datatype"@),
        !occurs(lower, "read-only"@),
        !occurs(lower, "readonly"@),
        !occurs(lower, "cannot modify"@),
    ensures
        !rejects_statement(lower),
{
}

/// A message that tells anywhere of the network, a timeout or the pool, and not
/// of a rejected statement, is retryable.
pub proof fn law_transport_words_are_retryable(before: Seq<char>, behind: Seq<char>)
    ensures
        !rejects_statement(lowered(before + "timed out"@ + behind)) ==> is_retryable(
            before + "timed out"@ + behind,
        ),
        !rejects_statement(lowered(before + "timeout"@ + behind)) ==> is_retryable(
            before + "timeout"@ + behind,
        ),
        !rejects_statement(lowered(before + "connection"@ + behind)) ==> is_retryable(
            before + "connection"@ + behind,
        ),
        !rejects_statement(lowered(before + "connect"@ + behind)) ==> is_retryable(
            before + "connect"@ + behind,
        ),
        !rejects_statement(lowered(before + "network"@ + behind)) ==> is_retryable(
            before + "network"@ + behind,
        ),
        !rejects_statement(lowered(before + "broken"@ + behind)) ==> is_retryable(
            before + "broken"@ + behind,
        ),
        !rejects_statement(lowered(before + "pool"@ + behind)) ==> is_retryable(
            before + "pool"@ + behind,
        ),
        !rejects_statement(lowered(before + "socket"@ + behind)) ==> is_retryable(
            before + "socket"@ + behind,
        ),
        !rejects_statement(lowered(before + "temporarily"@ + behind)) ==> is_retryable(
            before + "temporarily"@ + behind,
        ),
        !rejects_statement(lowered(before + "unavailable"@ + behind)) ==> is_retryable(
            before + "unavailable"@ + behind,
        ),
        !rejects_statement(lowered(before + "too many"@ + behind)) ==> is_retryable(
            before + "too many"@ + behind,
        ),
{
    reveal_strlit("timed out");
    lemma_small_words_occur(before, "timed out"@, behind);
    reveal_strlit("timeout");
    lemma_small_words_occur(before, "timeout"@, behind);
    reveal_strlit("connection");
    lemma_small_words_occur(before, "connection"@, behind);
    reveal_strlit("connect");
    lemma_small_words_occur(before, "connect"@, behind);
    reveal_strlit("network");
    lemma_small_words_occur(before, "network"@, behind);
    reveal_strlit("broken");
    lemma_small_words_occur(before, "broken"@, behind);
    reveal_strlit("pool");
    lemma_small_words_occur(before, "pool"@, behind);
    reveal_strlit("socket");
    lemma_small_words_occur(before, "socket"@, behind);
    reveal_strlit("temporarily");
    lemma_small_words_occur(before, "temporarily"@, behind);
    reveal_strlit("unavailable");
    lemma_small_words_occur(before, "unavailable"@, behind);
    reveal_strlit("too many");
    lemma_small_words_occur(before, "too many"@, behind);
}

/// A message without any of those words is not retryable.
pub proof fn law_only_transport_words_are_retryable(message: Seq<char>)
    requires
        !occurs(lowered(message), "timed out"@),
        !occurs(lowered(message), "timeout"@),
        !occurs(lowered(message), "connection"@),
        !occurs(lowered(message), "connect"@),
        !occurs(lowered(message), "network"@),
        !occurs(lowered(message), "broken"@),
        !occurs(lowered(message), "pool"@),
        !occurs(lowered(message), "socket"@),
        !occurs(lowered(message), "temporarily"@),
        !occurs(lowered(message), "unavailable"@),
        !occurs(lowered(message), "too many"@),
    ensures
        !is_retryable(message),
{
}

/// The schema of the property `name` of an object schema.
pub open spec fn property(schema: JsonModel, name: Seq<char>) -> Option<JsonModel> {
    inner_member(schema, "properties"@, name)
}

/// What a schema says of the type of a value: a kind, or that kind or `null`.
pub open spec fn has_kind(schema: JsonModel, kind: Seq<char>, or_null: bool) -> bool {
    if or_null {
        member_of(schema, "type"@) == Some(
            JsonModel::Array(seq![JsonModel::Text(kind), JsonModel::Text("null"@)]),
        )
    } else {
        member_of(schema, "type"@) == Some(JsonModel::Text(kind))
    }
}

/// The envelope schema gives every property its type: strings for the names, an
/// object that may be missing for the response and the downstream error, a list
/// for the downstream errors, a text that may be missing for the error. It admits
/// further properties.
pub proof fn law_envelope_schema_types(row: JsonModel)
    ensures
        ({
            let schema = envelope_schema_json(row);
            &&& member_of(schema, "$schema"@) == Some(
                JsonModel::Text("https://json-schema.org/draft/2020-12/schema"@),
            )
            &&& has_kind(schema, "object"@, false)
            &&& member_of(schema, "additionalProperties"@) == Some(JsonModel::Bool(true))
            &&& property(schema, "toolName"@) matches Some(p)
            &&& has_kind(p, "string"@, false)
            &&& property(schema, "profile"@) matches Some(p)
            &&& has_kind(p, "string"@, false)
            &&& property(schema, "request"@) matches Some(request)
            &&& has_kind(request, "object"@, false)
            &&& member_of(request, "additionalProperties"@) == Some(JsonModel::Bool(true))
            &&& property(request, "database"@) matches Some(p)
            &&& has_kind(p, "string"@, false)
            &&& property(schema, "response"@) matches Some(response)
            &&& has_kind(response, "object"@, true)
            &&& property(schema, "downstreamError"@) matches Some(p)
            &&& has_kind(p, "object"@, true)
            &&& property(schema, "downstreamErrors"@) matches Some(p)
            &&& has_kind(p, "array"@, false)
            &&& member_of(p, "items"@) == Some(JsonModel::Object(Seq::empty()))
            &&& property(schema, "error"@) matches Some(p)
            &&& has_kind(p, "string"@, true)
        }),
{
    let properties = envelope_properties(row);
    lemma_root_schema_names(envelope_schema_json(row)->Object_0);
    lemma_envelope_names(properties);
    lemma_type_name(properties[0].1->Object_0);
    lemma_type_name(properties[1].1->Object_0);
    lemma_type_name(properties[4].1->Object_0);
    lemma_type_name(properties[6].1->Object_0);
    let request = properties[2].1->Object_0;
    lemma_object_schema_names(request);
    lemma_database_name(request[1].1->Object_0);
    lemma_object_schema_names(properties[3].1->Object_0);
    lemma_array_schema_names(properties[5].1->Object_0);
}

/// The schema of a response gives every property its type, and the rows are a
/// list of what the given schema describes.
pub proof fn law_response_schema_types(row: JsonModel)
    ensures
        ({
            let schema = property(envelope_schema_json(row), "response"@)->0;
            &&& member_of(schema, "additionalProperties"@) == Some(JsonModel::Bool(true))
            &&& property(schema, "rows"@) matches Some(p)
            &&& has_kind(p, "array"@, true)
            &&& member_of(p, "items"@) == Some(row)
            &&& property(schema, "count"@) matches Some(p)
            &&& has_kind(p, "integer"@, true)
            &&& property(schema, "truncated"@) matches Some(p)
            &&& has_kind(p, "boolean"@, false)
            &&& property(schema, "durationMs"@) matches Some(p)
            &&& has_kind(p, "integer"@, false)
        }),
{
    lemma_root_schema_names(envelope_schema_json(row)->Object_0);
    lemma_envelope_names(envelope_properties(row));
    lemma_object_schema_names(response_schema_json(row)->Object_0);
    let properties = response_properties(row);
    lemma_response_names(properties);
    lemma_array_schema_names(properties[0].1->Object_0);
    lemma_type_name(properties[1].1->Object_0);
    lemma_type_name(properties[2].1->Object_0);
    lemma_type_name(properties[3].1->Object_0);
}

/// The schema of an open object is that of an object which has the named
/// properties, each open to every value, and no others, and which admits more.
pub proof fn law_open_objects_have_the_named_properties(names: Seq<Seq<char>>, name: Seq<char>)
    ensures
        has_kind(open_object_json(names), "object"@, false),
        member_of(open_object_json(names), "additionalProperties"@) == Some(
            JsonModel::Bool(true),
        ),
        names.contains(name) ==> property(open_object_json(names), name) == Some(
            JsonModel::Object(Seq::empty()),
        ),
        !names.contains(name) ==> property(open_object_json(names), name) is None,
        names.no_duplicates() ==> (member_of(
            open_object_json(names),
            "properties"@,
        ) matches Some(JsonModel::Object(properties)) && properties.len() == names.len()
            && forall|i: int|
            0 <= i < names.len() ==> (#[trigger] properties[i]).0 == names[i]),
{
    lemma_object_schema_names(open_object_json(names)->Object_0);
    if names.contains(name) {
        let i = choose|i: int| 0 <= i < names.len() && names[i] == name;
        law_open_schema_covers_names(names, names.len() as int, i);
    } else {
        lemma_open_schema_has_no_other(names, names.len() as int, name);
    }
    if names.no_duplicates() {
        lemma_open_schema_order(names, names.len() as int);
    }
}

proof fn lemma_open_schema_has_no_other(names: Seq<Seq<char>>, n: int, name: Seq<char>)
    requires
        0 <= n <= names.len(),
        !names.contains(name),
    ensures
        lookup(open_properties(names, n), name) is None,
    decreases n,
{
    if n > 0 {
        lemma_open_schema_has_no_other(names, n - 1, name);
        lemma_with_member_lookup(open_properties(names, n - 1), names[n - 1], any_json(), name);
    }
}

proof fn lemma_open_schema_order(names: Seq<Seq<char>>, n: int)
    requires
        0 <= n <= names.len(),
        names.no_duplicates(),
    ensures
        open_properties(names, n).len() == n,
        forall|i: int| 0 <= i < n ==> (#[trigger] open_properties(names, n)[i]).0 == names[i],
    decreases n,
{
    if n > 0 {
        lemma_open_schema_order(names, n - 1);
        let before = open_properties(names, n - 1);
        assert forall|j: int| 0 <= j < before.len() implies (#[trigger] before[j]).0
            != names[n - 1] by {
            assert(before[j].0 == names[j]);
        }
        law_setting_a_member(before, names[n - 1], any_json());
    }
}

/// The envelope that is built for rows holds every one of them under `response`
/// and `rows`, in order and whatever their number, with the count that was given
/// or else their number, and carries the names that it was given.
pub proof fn law_built_envelopes_hold_every_row(
    tool_name: &str,
    profile_name: &str,
    database: &str,
    rows: &Vec<Json>,
    row_count: Option<usize>,
    truncated: bool,
    duration_ms: u128,
    error: Option<&str>,
    envelope: Json,
)
    requires
        call_ensures(
            build_result_envelope,
            (
                tool_name,
                profile_name,
                database,
                Some(rows),
                row_count,
                truncated,
                duration_ms,
                None::<&Json>,
                error,
            ),
            envelope,
        ),
    ensures
        inner_member(envelope@, "response"@, "rows"@) matches Some(JsonModel::Array(held))
            && held.len() == rows@.len() && forall|i: int|
            0 <= i < rows@.len() ==> #[trigger] held[i] == rows@[i]@,
        inner_member(envelope@, "response"@, "count"@) == Some(
            JsonModel::Number(
                NumberModel::Integer(
                    match row_count {
                        Some(n) => n as int,
                        None => rows@.len() as int,
                    },
                ),
            ),
        ),
        inner_member(envelope@, "response"@, "truncated"@) == Some(JsonModel::Bool(truncated)),
        inner_member(envelope@, "response"@, "durationMs"@) == Some(
            JsonModel::Number(NumberModel::Integer(duration_ms as int)),
        ),
        member_of(envelope@, "toolName"@) == Some(JsonModel::Text(tool_name@)),
        member_of(envelope@, "profile"@) == Some(JsonModel::Text(profile_name@)),
        inner_member(envelope@, "request"@, "database"@) == Some(JsonModel::Text(database@)),
        member_of(envelope@, "downstreamError"@) == Some(JsonModel::Null),
{
    let e = EnvelopeModel {
        tool_name: tool_name@,
        profile_name: profile_name@,
        database: database@,
        rows: Some(models(rows@)),
        row_count: match row_count {
            Some(n) => Some(n as int),
            None => None,
        },
        truncated,
        duration_ms: duration_ms as int,
        downstream_error: None,
        error: match error {
            Some(words) => Some(words@),
            None => None,
        },
    };
    assert(envelope@ == envelope_json(e));
    law_envelopes_hold_every_row(e, models(rows@));
    law_envelopes_tell_who_and_why(e);
}

/// The envelope that is built for a downstream error has no response, whatever
/// rows it was given, and carries that error twice.
pub proof fn law_built_envelopes_carry_their_error(
    tool_name: &str,
    profile_name: &str,
    database: &str,
    rows: Option<&Vec<Json>>,
    row_count: Option<usize>,
    truncated: bool,
    duration_ms: u128,
    downstream_error: &Json,
    words: &str,
    envelope: Json,
)
    requires
        call_ensures(
            build_result_envelope,
            (
                tool_name,
                profile_name,
                database,
                rows,
                row_count,
                truncated,
                duration_ms,
                Some(downstream_error),
                Some(words),
            ),
            envelope,
        ),
    ensures
        member_of(envelope@, "response"@) == Some(JsonModel::Null),
        member_of(envelope@, "downstreamError"@) == Some(downstream_error@),
        member_of(envelope@, "downstreamErrors"@) == Some(
            JsonModel::Array(seq![downstream_error@]),
        ),
        member_of(envelope@, "error"@) == Some(JsonModel::Text(words@)),
        member_of(envelope@, "toolName"@) == Some(JsonModel::Text(tool_name@)),
        member_of(envelope@, "profile"@) == Some(JsonModel::Text(profile_name@)),
        inner_member(envelope@, "request"@, "database"@) == Some(JsonModel::Text(database@)),
{
    let e = EnvelopeModel {
        tool_name: tool_name@,
        profile_name: profile_name@,
        database: database@,
        rows: match rows {
            Some(r) => Some(models(r@)),
            None => None,
        },
        row_count: match row_count {
            Some(n) => Some(n as int),
            None => None,
        },
        truncated,
        duration_ms: duration_ms as int,
        downstream_error: Some(downstream_error@),
        error: Some(words@),
    };
    assert(envelope@ == envelope_json(e));
    law_envelopes_tell_who_and_why(e);
}

/// What a classified error says of retries is what [`retryable`] says.
pub proof fn law_classification_follows_retryability(message: &str, error: Json, retry: bool)
    requires
        call_ensures(classify_error, (message,), error),
        call_ensures(retryable, (message,), retry),
    ensures
        member_of(error@, "retryable"@) == Some(JsonModel::Bool(retry)),
        member_of(error@, "message"@) == Some(JsonModel::Text(message@)),
        member_of(error@, "kind"@) == Some(
            JsonModel::Text(
                if retry {
                    "transport_error"@
                } else {
                    "hana_error"@
                },
            ),
        ),
{
    law_classified_errors(message@);
}

} // verus!

//! One call of a binding, without the transport: what is asked of HANA, and what
//! the gateway is told about the answer.
use vstd::prelude::*;
use vstd::slice::slice_to_vec;
use vstd::string::StringExecFns;
use vstd::utf8::encode_utf8;

use crate::engine::{
    bind_of, binds_predicate, build_list_columns_query, build_list_tables_query, columns_binds,
    columns_predicates, columns_sql, law_catalog_binds_are_the_set_filters,
    law_set_filters_are_bound_to_their_predicate, predicate_of, same_columns_filters_set,
    same_tables_filters_set, tables_binds, tables_sql, CatalogFilters, FiltersModel,
};
use crate::envelope::{
    build_result_envelope, classified, classify_error, envelope_json, inner_member, is_retryable,
    law_classified_errors, law_downstream_error_marks_failure, law_envelopes_hold_every_row,
    law_envelopes_tell_who_and_why, retryable, EnvelopeModel,
};
use crate::json::{
    from_bytes, json_text, member_of, members, models, reads_back, serde_read, to_text, Json,
    JsonModel, NumberModel,
};
use crate::marshal::{law_rows_are_capped_prefix, sink_run, QueryOutcome};
use crate::params::{
    bind_from_json, bind_models, binds_from_json, law_arrays_and_objects_are_never_bound,
    json_to_hana_bind, law_binds_follow_values, lower_params, BindModel, HanaBind,
};
use crate::profile::{
    filters_by, law_filters_come_from_their_own_settings, profile_of, profile_runs, register_fault,
    GuardVerdicts, HanaProfile,
};
use crate::surface::{
    contents_json, law_contents_carry_uri_and_text, law_messages_carry_the_text, messages_json,
    prompt_messages_body, resolve_resource_uri, resource_contents_body, resource_uri, Surface,
};
use crate::text::{
    ascii_lowercase, contains, lowered, occurs, same_ignoring_case, text_option,
};
use crate::types::{HanaBackendSpec, HanaOperation};

verus! {

/// Why the gateway gets no payload.
#[derive(Debug, PartialEq)]
pub enum BackendError {
    /// The configuration or the request is not acceptable.
    InvalidSpec { message: String },
    /// No binding has this name.
    ProfileNotFound { backend_name: String },
    /// The backend could not be asked.
    Transport { message: String },
}

/// One statement to be prepared and executed, with the bounds on its result.
#[derive(Debug, PartialEq)]
pub struct StatementPlan {
    pub sql: String,
    pub binds: Vec<HanaBind>,
    pub max_rows: usize,
    pub max_result_bytes: usize,
    pub timeout_ms: u64,
    /// Whether the read-only guard has to pass the statement once more.
    pub guarded: bool,
}

/// What a [`StatementPlan`] stands for.
pub struct PlanModel {
    pub sql: Seq<char>,
    pub binds: Seq<BindModel>,
    pub max_rows: usize,
    pub max_result_bytes: usize,
    pub timeout_ms: u64,
    pub guarded: bool,
}

impl View for StatementPlan {
    type V = PlanModel;

    open spec fn view(&self) -> PlanModel {
        PlanModel {
            sql: self.sql@,
            binds: bind_models(self.binds@),
            max_rows: self.max_rows,
            max_result_bytes: self.max_result_bytes,
            timeout_ms: self.timeout_ms,
            guarded: self.guarded,
        }
    }
}

impl StatementPlan {
    /// Whether the statement may be executed, given what the read-only guard
    /// says of it.
    pub fn cleared(&self, verdict: &Option<String>) -> (cleared: Result<(), String>)
        ensures
            match cleared {
                Ok(()) => !self.guarded || verdict is None,
                Err(words) => self.guarded && text_option(*verdict) == Some(words@),
            },
    {
        if self.guarded {
            if let Some(words) = verdict {
                return Err(words.clone());
            }
        }
        Ok(())
    }
}

/// What a statement with these binds is run with.
pub open spec fn profile_plan(
    profile: HanaProfile,
    sql: Seq<char>,
    binds: Seq<BindModel>,
    max_rows: usize,
    guarded: bool,
) -> PlanModel {
    PlanModel {
        sql,
        binds,
        max_rows,
        max_result_bytes: profile.max_result_bytes,
        timeout_ms: profile.timeout_ms,
        guarded,
    }
}

/// The statement of a `query` call: the single-row read on the resource surface
/// where there is one, else the operator-fixed statement.
pub open spec fn effective_statement(profile: HanaProfile) -> Seq<char> {
    match (profile.surface, profile.read_query) {
        (Surface::Resource, Some(sql)) => sql@,
        _ => profile.statement@,
    }
}

/// The plan of a catalog operation, or why there is none: `query` is none, and
/// `list_columns` needs the table whose columns to list.
pub open spec fn catalog_plan(
    profile: HanaProfile,
    operation: HanaOperation,
    filters: FiltersModel,
) -> Result<PlanModel, Seq<char>> {
    match operation {
        HanaOperation::ListTables => Ok(
            profile_plan(
                profile,
                tables_sql(filters),
                tables_binds(filters, profile.max_rows),
                profile.max_rows,
                false,
            ),
        ),
        HanaOperation::ListColumns => if filters.table.len() == 0 {
            Err("operation: list_columns requires a table (the table whose columns to list)"@)
        } else {
            Ok(
                profile_plan(
                    profile,
                    columns_sql(filters),
                    columns_binds(filters, profile.max_rows),
                    profile.max_rows,
                    false,
                ),
            )
        },
        HanaOperation::Query => Err("not a catalog operation"@),
    }
}

/// What the parameter expressions came to: their values, or the words of the
/// error.
pub open spec fn evaluation(evaluated: Result<Vec<Json>, String>) -> Result<
    Seq<JsonModel>,
    Seq<char>,
> {
    match evaluated {
        Ok(values) => Ok(models(values@)),
        Err(words) => Err(words@),
    }
}

/// The plan of a `query` call, or why there is none.
pub open spec fn query_plan(
    profile: HanaProfile,
    evaluated: Result<Seq<JsonModel>, Seq<char>>,
) -> Result<PlanModel, Seq<char>> {
    match evaluated {
        Err(words) => Err("evaluating params: "@ + words),
        Ok(values) => match binds_from_json(values, values.len() as int) {
            Err(words) => Err(words),
            Ok(binds) => Ok(
                profile_plan(
                    profile,
                    effective_statement(profile),
                    binds,
                    profile.max_rows,
                    profile.read_only,
                ),
            ),
        },
    }
}

/// The plan of a call, or why there is none. The catalog operations take no
/// parameters.
pub open spec fn call_plan(
    profile: HanaProfile,
    arguments: JsonModel,
    evaluated: Result<Seq<JsonModel>, Seq<char>>,
) -> Result<PlanModel, Seq<char>> {
    if profile.operation == HanaOperation::Query {
        query_plan(profile, evaluated)
    } else {
        catalog_plan(
            profile,
            profile.operation,
            profile.catalog_filters.resolved(arguments),
        )
    }
}

/// Plans a catalog operation. A `list_columns` without a table would list every
/// column of the database and is refused.
pub fn plan_catalog(
    profile: &HanaProfile,
    operation: HanaOperation,
    filters: &CatalogFilters,
) -> (plan: Result<StatementPlan, String>)
    ensures
        match plan {
            Ok(p) => catalog_plan(*profile, operation, filters@) == Ok::<PlanModel, Seq<char>>(p@),
            Err(words) => catalog_plan(*profile, operation, filters@) == Err::<
                PlanModel,
                Seq<char>,
            >(words@),
        },
{
    let (sql, binds) = match operation {
        HanaOperation::ListTables => build_list_tables_query(filters, profile.max_rows),
        HanaOperation::ListColumns => {
            if filters.table.as_str().is_empty() {
                return Err(
                    "operation: list_columns requires a table (the table whose columns to list)".to_owned(),
                );
            }
            build_list_columns_query(filters, profile.max_rows)
        },
        HanaOperation::Query => return Err("not a catalog operation".to_owned()),
    };
    Ok(
        StatementPlan {
            sql,
            binds,
            max_rows: profile.max_rows,
            max_result_bytes: profile.max_result_bytes,
            timeout_ms: profile.timeout_ms,
            guarded: false,
        },
    )
}

/// Plans a call. `evaluated` is what the parameter expressions came to; a
/// catalog operation has none and ignores it.
pub fn plan_call(
    profile: &HanaProfile,
    arguments: &Json,
    evaluated: Result<Vec<Json>, String>,
) -> (plan: Result<StatementPlan, String>)
    ensures
        match plan {
            Ok(p) => call_plan(*profile, arguments@, evaluation(evaluated)) == Ok::<
                PlanModel,
                Seq<char>,
            >(p@),
            Err(words) => call_plan(*profile, arguments@, evaluation(evaluated)) == Err::<
                PlanModel,
                Seq<char>,
            >(words@),
        },
{
    if profile.operation.is_catalog() {
        let filters = profile.catalog_filters.resolve(arguments);
        return plan_catalog(profile, profile.operation, &filters);
    }
    let values = match evaluated {
        Ok(values) => values,
        Err(reason) => {
            let mut words = "evaluating params: ".to_owned();
            words.append(&reason);
            return Err(words);
        },
    };
    assert(models(values@).len() == values@.len());
    let binds = lower_params(values)?;
    let sql = match (profile.surface, &profile.read_query) {
        (Surface::Resource, Some(sql)) => sql.clone(),
        _ => profile.statement.clone(),
    };
    Ok(
        StatementPlan {
            sql,
            binds,
            max_rows: profile.max_rows,
            max_result_bytes: profile.max_result_bytes,
            timeout_ms: profile.timeout_ms,
            guarded: profile.read_only,
        },
    )
}

/// The text of a call never depends on what the caller sends: with a `query` not
/// at all, with a catalog operation only through which of its own filters are
/// set.
pub proof fn law_arguments_never_alter_the_statement(
    profile: HanaProfile,
    arguments: JsonModel,
    evaluated: Result<Seq<JsonModel>, Seq<char>>,
    other_arguments: JsonModel,
    other_evaluated: Result<Seq<JsonModel>, Seq<char>>,
)
    requires
        ({
            let filters = profile.catalog_filters.resolved(arguments);
            let other_filters = profile.catalog_filters.resolved(other_arguments);
            match profile.operation {
                HanaOperation::Query => true,
                HanaOperation::ListTables => same_tables_filters_set(filters, other_filters),
                HanaOperation::ListColumns => same_columns_filters_set(filters, other_filters),
            }
        }),
    ensures
        call_plan(profile, arguments, evaluated) matches Ok(plan) ==> call_plan(
            profile,
            other_arguments,
            other_evaluated,
        ) matches Ok(other) ==> plan.sql == other.sql,
{
}

/// A catalog call ignores the statement, the parameters and the read-only switch
/// of its binding.
pub proof fn law_catalog_calls_ignore_the_statement(
    profile: HanaProfile,
    other: HanaProfile,
    arguments: JsonModel,
    evaluated: Result<Seq<JsonModel>, Seq<char>>,
    other_evaluated: Result<Seq<JsonModel>, Seq<char>>,
)
    requires
        profile.operation != HanaOperation::Query,
        other == (HanaProfile {
            statement: other.statement,
            params: other.params,
            read_only: other.read_only,
            ..profile
        }),
    ensures
        call_plan(profile, arguments, evaluated) == call_plan(other, arguments, other_evaluated),
        call_plan(profile, arguments, evaluated) is Ok <==> profile.operation
            == HanaOperation::ListTables || profile.catalog_filters.resolved(arguments).table.len()
            > 0,
{
}

/// A `list_columns` call never lists every column of the database: where there is
/// a plan, it names one table and binds its name, and where the call leaves the
/// table empty there is none.
pub proof fn law_list_columns_names_a_table(
    profile: HanaProfile,
    arguments: JsonModel,
    evaluated: Result<Seq<JsonModel>, Seq<char>>,
)
    requires
        profile.operation == HanaOperation::ListColumns,
    ensures
        ({
            let filters = profile.catalog_filters.resolved(arguments);
            match call_plan(profile, arguments, evaluated) {
                Ok(plan) => {
                    &&& filters.table.len() > 0
                    &&& plan.sql == columns_sql(filters)
                    &&& columns_predicates(filters).contains("TABLE_NAME = ?"@)
                    &&& plan.binds.contains(BindModel::Str(filters.table))
                },
                Err(_) => filters.table.len() == 0,
            }
        }),
{
    let filters = profile.catalog_filters.resolved(arguments);
    if filters.table.len() > 0 {
        let before = predicate_of("SCHEMA_NAME = ?"@, filters.schema);
        assert(columns_predicates(filters)[before.len() as int] == "TABLE_NAME = ?"@);
        let bound = bind_of(filters.schema);
        assert(columns_binds(filters, profile.max_rows)[bound.len() as int] == BindModel::Str(
            filters.table,
        ));
    }
}

/// The statement of a `query` call of an accepted binding is one of those that
/// the checks have passed.
pub proof fn law_calls_run_a_checked_statement(
    spec: HanaBackendSpec,
    verdicts: GuardVerdicts,
    compile_fault: Option<String>,
    profile: HanaProfile,
)
    requires
        register_fault(spec, verdicts, compile_fault) is None,
        profile_of(spec, profile),
        profile.operation == HanaOperation::Query,
    ensures
        profile_runs(profile, effective_statement(profile)),
{
}

/// `list_tables` takes no notice of the column filter, and `list_columns` none
/// of the table-type filter.
pub proof fn law_filters_of_the_other_operation_are_ignored(
    profile: HanaProfile,
    filters: FiltersModel,
    other: Seq<char>,
)
    ensures
        catalog_plan(profile, HanaOperation::ListTables, filters) == catalog_plan(
            profile,
            HanaOperation::ListTables,
            FiltersModel { column: other, ..filters },
        ),
        catalog_plan(profile, HanaOperation::ListColumns, filters) == catalog_plan(
            profile,
            HanaOperation::ListColumns,
            FiltersModel { table_type: other, ..filters },
        ),
{
}

/// The arguments of a call, or why the payload denotes none: an empty payload is
/// an empty object.
pub open spec fn call_arguments(
    payload: Seq<u8>,
    read: Result<JsonModel, Seq<char>>,
) -> Result<JsonModel, Seq<char>> {
    if payload.len() == 0 {
        Ok(JsonModel::Object(Seq::empty()))
    } else {
        match read {
            Ok(value) => Ok(value),
            Err(words) => Err("HANA plugin payload is not valid JSON: "@ + words),
        }
    }
}

/// The arguments of a call whose payload reads as `read`.
pub fn arguments_from(payload: &[u8], read: Result<Json, String>) -> (arguments: Result<
    Json,
    BackendError,
>)
    ensures
        match arguments {
            Ok(value) => call_arguments(
                payload@,
                match read {
                    Ok(v) => Ok(v@),
                    Err(e) => Err(e@),
                },
            ) == Ok::<JsonModel, Seq<char>>(value@),
            Err(error) => error matches BackendError::InvalidSpec { message } && call_arguments(
                payload@,
                match read {
                    Ok(v) => Ok(v@),
                    Err(e) => Err(e@),
                },
            ) == Err::<JsonModel, Seq<char>>(message@),
        },
{
    if payload.len() == 0 {
        return Ok(Json::object(members()));
    }
    match read {
        Ok(value) => Ok(value),
        Err(reason) => {
            let mut message = "HANA plugin payload is not valid JSON: ".to_owned();
            message.append(&reason);
            Err(BackendError::InvalidSpec { message })
        },
    }
}

/// The arguments of a call.
pub fn parse_arguments(payload: &[u8]) -> (arguments: Result<Json, BackendError>)
    ensures
        match arguments {
            Ok(value) => call_arguments(payload@, serde_read(payload@)) == Ok::<
                JsonModel,
                Seq<char>,
            >(value@),
            Err(error) => error matches BackendError::InvalidSpec { message } && call_arguments(
                payload@,
                serde_read(payload@),
            ) == Err::<JsonModel, Seq<char>>(message@),
        },
{
    arguments_from(payload, from_bytes(payload))
}

/// The value of the first header named `name` up to the case of ASCII letters.
pub open spec fn header_value(headers: Seq<(String, String)>, name: Seq<char>) -> Option<Seq<char>>
    decreases headers.len(),
{
    if headers.len() == 0 {
        None
    } else if lowered(headers.first().0@) == lowered(name) {
        Some(headers.first().1@)
    } else {
        header_value(headers.drop_first(), name)
    }
}

/// The tool that a call is made for: the header that names it, else the binding.
pub open spec fn tool_of(headers: Seq<(String, String)>, backend_name: Seq<char>) -> Seq<char> {
    match header_value(headers, "mcpg-tool-name"@) {
        Some(name) => name,
        None => backend_name,
    }
}

/// The tool that a call is made for.
pub fn tool_name(headers: &Vec<(String, String)>, backend_name: &str) -> (name: String)
    ensures
        name@ == tool_of(headers@, backend_name@),
{
    assert(headers@.skip(0) =~= headers@);
    let mut i: usize = 0;
    while i < headers.len()
        invariant
            i <= headers@.len(),
            header_value(headers@, "mcpg-tool-name"@) == header_value(
                headers@.skip(i as int),
                "mcpg-tool-name"@,
            ),
        decreases headers@.len() - i,
    {
        assert(headers@.skip(i as int).drop_first() =~= headers@.skip(i + 1));
        if same_ignoring_case(&headers[i].0, "mcpg-tool-name") {
            return headers[i].1.clone();
        }
        i += 1;
    }
    backend_name.to_owned()
}

/// What the gateway is told about a call: the body, the outcome label, and the
/// reason of a failure.
#[derive(Debug, PartialEq)]
pub struct CallReport {
    pub body: Json,
    pub label: &'static str,
    pub reason: Option<String>,
}

/// What a [`CallReport`] stands for.
pub struct ReportModel {
    pub body: JsonModel,
    pub label: Seq<char>,
    pub reason: Option<Seq<char>>,
}

impl View for CallReport {
    type V = ReportModel;

    open spec fn view(&self) -> ReportModel {
        ReportModel { body: self.body@, label: self.label@, reason: text_option(self.reason) }
    }
}

/// Who asked whom, and how long it took.
pub struct CallContext<'a> {
    pub tool_name: &'a str,
    pub backend_name: &'a str,
    pub database: &'a str,
    pub duration_ms: u128,
}

/// The outcome label of a failed call.
pub open spec fn failure_label(message: Seq<char>) -> Seq<char> {
    let lower = lowered(message);
    if occurs(lower, "timed out"@) || occurs(lower, "timeout"@) {
        "timeout"@
    } else if is_retryable(message) {
        "transport_error"@
    } else {
        "hana_error"@
    }
}

/// The envelope of a failed call.
pub open spec fn failure_envelope(context: CallContext, message: Seq<char>) -> JsonModel {
    envelope_json(
        EnvelopeModel {
            tool_name: context.tool_name@,
            profile_name: context.backend_name@,
            database: context.database@,
            rows: None,
            row_count: None,
            truncated: false,
            duration_ms: context.duration_ms as int,
            downstream_error: Some(classified(message)),
            error: Some(message),
        },
    )
}

/// The envelope of a call that returned rows.
pub open spec fn success_envelope(context: CallContext, outcome: QueryOutcome) -> JsonModel {
    envelope_json(
        EnvelopeModel {
            tool_name: context.tool_name@,
            profile_name: context.backend_name@,
            database: context.database@,
            rows: Some(models(outcome.rows@)),
            row_count: Some(outcome.row_count as int),
            truncated: outcome.truncated,
            duration_ms: context.duration_ms as int,
            downstream_error: None,
            error: None,
        },
    )
}

/// The report of a failed call.
pub open spec fn failure_report(
    context: CallContext,
    message: Seq<char>,
    label: Seq<char>,
) -> ReportModel {
    ReportModel { body: failure_envelope(context, message), label, reason: Some(message) }
}

/// The report of a call. Rows go out in the shape of the surface; contents need
/// a URI, and without one the call has failed.
pub open spec fn call_report(
    context: CallContext,
    surface: Surface,
    surface_uri: Option<Seq<char>>,
    arguments: JsonModel,
    outcome: Result<QueryOutcome, String>,
) -> ReportModel {
    match outcome {
        Err(message) => failure_report(context, message@, failure_label(message@)),
        Ok(result) => {
            let text = json_text(JsonModel::Array(models(result.rows@)));
            match surface {
                Surface::Tool => ReportModel {
                    body: success_envelope(context, result),
                    label: "ok"@,
                    reason: None,
                },
                Surface::Prompt => ReportModel {
                    body: messages_json(text),
                    label: "ok"@,
                    reason: None,
                },
                Surface::Resource => match resource_uri(surface_uri, arguments) {
                    Some(uri) => ReportModel {
                        body: contents_json(uri, text),
                        label: "ok"@,
                        reason: None,
                    },
                    None => failure_report(
                        context,
                        "resource surface requires a `uri` (set a static `uri` on the binding or invoke via a resources/read request)"@,
                        "hana_error"@,
                    ),
                },
            }
        },
    }
}

/// Reports a call that failed with `message` under a given label.
pub fn report_failure(context: &CallContext, message: &str, label: &'static str) -> (report:
    CallReport)
    ensures
        report@ == failure_report(*context, message@, label@),
{
    let downstream = classify_error(message);
    let body = build_result_envelope(
        context.tool_name,
        context.backend_name,
        context.database,
        None,
        None,
        false,
        context.duration_ms,
        Some(&downstream),
        Some(message),
    );
    CallReport { body, label, reason: Some(message.to_owned()) }
}

/// The outcome label of a failed call.
pub fn label_failure(message: &str) -> (label: &'static str)
    ensures
        label@ == failure_label(message@),
{
    let lower = ascii_lowercase(message);
    if contains(&lower, "timed out") || contains(&lower, "timeout") {
        "timeout"
    } else if retryable(message) {
        "transport_error"
    } else {
        "hana_error"
    }
}

/// Reports a call whose parameters could not be bound. HANA was not asked.
pub fn report_unplanned(context: &CallContext, message: &str) -> (report: CallReport)
    ensures
        report@ == failure_report(*context, message@, "invalid_spec"@),
{
    report_failure(context, message, "invalid_spec")
}

/// Reports a call.
pub fn report_call(
    context: &CallContext,
    surface: Surface,
    surface_uri: Option<&str>,
    arguments: &Json,
    outcome: Result<QueryOutcome, String>,
) -> (report: CallReport)
    requires
        surface == Surface::Tool && outcome is Ok ==> context.duration_ms <= u64::MAX,
    ensures
        report@ == call_report(
            *context,
            surface,
            match surface_uri {
                Some(u) => Some(u@),
                None => None,
            },
            arguments@,
            outcome,
        ),
{
    let result = match outcome {
        Ok(result) => result,
        Err(message) => return report_failure(context, &message, label_failure(&message)),
    };
    match surface {
        Surface::Tool => CallReport {
            body: build_result_envelope(
                context.tool_name,
                context.backend_name,
                context.database,
                Some(&result.rows),
                Some(result.row_count),
                result.truncated,
                context.duration_ms,
                None,
                None,
            ),
            label: "ok",
            reason: None,
        },
        Surface::Prompt => CallReport {
            body: prompt_messages_body(&result.rows),
            label: "ok",
            reason: None,
        },
        Surface::Resource => match resolve_resource_uri(surface_uri, arguments) {
            Some(uri) => CallReport {
                body: resource_contents_body(uri, &result.rows),
                label: "ok",
                reason: None,
            },
            None => report_failure(
                context,
                "resource surface requires a `uri` (set a static `uri` on the binding or invoke via a resources/read request)",
                "hana_error",
            ),
        },
    }
}

/// The statement of a call that the read-only guard has to pass once more
/// before it is executed: that of a read-only `query`.
pub open spec fn statement_to_guard(profile: HanaProfile) -> Option<Seq<char>> {
    if profile.operation == HanaOperation::Query && profile.read_only {
        Some(effective_statement(profile))
    } else {
        None
    }
}

/// The statement of a call that the read-only guard has to pass once more.
pub fn guarded_statement(profile: &HanaProfile) -> (sql: Option<&str>)
    ensures
        match sql {
            Some(s) => statement_to_guard(*profile) == Some(s@),
            None => statement_to_guard(*profile) is None,
        },
{
    if profile.operation.is_catalog() || !profile.read_only {
        return None;
    }
    match (profile.surface, &profile.read_query) {
        (Surface::Resource, Some(sql)) => Some(sql.as_str()),
        _ => Some(profile.statement.as_str()),
    }
}

/// What to do next with a call.
pub enum CallStep {
    /// Execute this statement.
    Ask(StatementPlan),
    /// Report this; HANA is not asked.
    Answer(CallReport),
}

/// What a [`CallStep`] stands for.
pub enum StepModel {
    Ask(PlanModel),
    Answer(ReportModel),
}

impl View for CallStep {
    type V = StepModel;

    open spec fn view(&self) -> StepModel {
        match self {
            CallStep::Ask(plan) => StepModel::Ask(plan@),
            CallStep::Answer(report) => StepModel::Answer(report@),
        }
    }
}

/// What to do next with a call whose parameter expressions came to `evaluated`
/// and of whose statement the read-only guard said `verdict`.
pub open spec fn call_step(
    context: CallContext,
    profile: HanaProfile,
    arguments: JsonModel,
    evaluated: Result<Seq<JsonModel>, Seq<char>>,
    verdict: Option<Seq<char>>,
) -> StepModel {
    match call_plan(profile, arguments, evaluated) {
        Err(message) => StepModel::Answer(failure_report(context, message, "invalid_spec"@)),
        Ok(plan) => match verdict {
            Some(words) => if plan.guarded {
                StepModel::Answer(failure_report(context, words, failure_label(words)))
            } else {
                StepModel::Ask(plan)
            },
            None => StepModel::Ask(plan),
        },
    }
}

/// Decides what to do next with a call. `evaluated` is what the parameter
/// expressions came to, and `verdict` what the read-only guard says of the
/// [`guarded_statement`].
pub fn decide_call(
    context: &CallContext,
    profile: &HanaProfile,
    arguments: &Json,
    evaluated: Result<Vec<Json>, String>,
    verdict: &Option<String>,
) -> (step: CallStep)
    ensures
        step@ == call_step(
            *context,
            *profile,
            arguments@,
            evaluation(evaluated),
            text_option(*verdict),
        ),
{
    let plan = match plan_call(profile, arguments, evaluated) {
        Ok(plan) => plan,
        Err(message) => return CallStep::Answer(report_unplanned(context, &message)),
    };
    match plan.cleared(verdict) {
        Ok(()) => CallStep::Ask(plan),
        Err(words) => CallStep::Answer(report_failure(context, &words, label_failure(&words))),
    }
}

/// HANA is asked to execute nothing but the statement that the guard has passed,
/// wherever there is one to guard, and a refused statement is reported as a
/// failed call.
pub proof fn law_refused_statements_are_never_executed(
    context: CallContext,
    profile: HanaProfile,
    arguments: JsonModel,
    evaluated: Result<Seq<JsonModel>, Seq<char>>,
    verdict: Option<Seq<char>>,
)
    requires
        statement_to_guard(profile) is Some,
    ensures
        call_step(context, profile, arguments, evaluated, verdict) matches StepModel::Ask(plan)
            ==> verdict is None && Some(plan.sql) == statement_to_guard(profile),
        verdict is Some ==> call_step(context, profile, arguments, evaluated, verdict) is Answer,
{
}

/// A failed call is marked as one whatever went wrong: its envelope has a
/// `downstreamError` with the words of the failure and no `response`, and its
/// report gives the reason. A call on the tool surface that returned rows is not
/// marked.
pub proof fn law_reports_mark_failures(
    context: CallContext,
    message: Seq<char>,
    label: Seq<char>,
    outcome: QueryOutcome,
)
    ensures
        member_of(failure_report(context, message, label).body, "downstreamError"@) == Some(
            classified(message),
        ),
        !(classified(message) is Null),
        member_of(failure_report(context, message, label).body, "response"@) == Some(
            JsonModel::Null,
        ),
        failure_report(context, message, label).reason == Some(message),
        member_of(success_envelope(context, outcome), "downstreamError"@) == Some(JsonModel::Null),
{
    law_downstream_error_marks_failure(
        EnvelopeModel {
            tool_name: context.tool_name@,
            profile_name: context.backend_name@,
            database: context.database@,
            rows: None,
            row_count: None,
            truncated: false,
            duration_ms: context.duration_ms as int,
            downstream_error: Some(classified(message)),
            error: Some(message),
        },
    );
    law_downstream_error_marks_failure(
        EnvelopeModel {
            tool_name: context.tool_name@,
            profile_name: context.backend_name@,
            database: context.database@,
            rows: Some(models(outcome.rows@)),
            row_count: Some(outcome.row_count as int),
            truncated: outcome.truncated,
            duration_ms: context.duration_ms as int,
            downstream_error: None,
            error: None,
        },
    );
}

/// The words of a call that ran out of time.
pub fn timed_out() -> (message: String)
    ensures
        message@ == "HANA call timed out"@,
{
    "HANA call timed out".to_owned()
}

/// What the gateway gets.
#[derive(Debug, PartialEq)]
pub struct BackendResponse {
    pub payload: Vec<u8>,
    pub truncated: bool,
}

/// The response with a body whose JSON text is `rendered`.
pub fn response_from(rendered: Result<String, String>) -> (response: Result<
    BackendResponse,
    BackendError,
>)
    ensures
        match (rendered, response) {
            (Ok(text), Ok(r)) => r.payload@ == encode_utf8(text@) && !r.truncated,
            (Err(words), Err(BackendError::Transport { message })) => message@
                == "HANA plugin envelope serialization failed: "@ + words@,
            _ => false,
        },
{
    match rendered {
        Ok(text) => Ok(
            BackendResponse {
                payload: slice_to_vec(text.as_str().as_bytes()),
                truncated: false,
            },
        ),
        Err(reason) => {
            let mut message = "HANA plugin envelope serialization failed: ".to_owned();
            message.append(&reason);
            Err(BackendError::Transport { message })
        },
    }
}

/// The response with the given body: its JSON text. Every body has one, and
/// reading the payload gives the body back.
pub fn finalize_payload(envelope: &Json) -> (response: Result<BackendResponse, BackendError>)
    ensures
        response matches Ok(r) && r.payload@ == encode_utf8(json_text(envelope@)) && !r.truncated
            && reads_back(r.payload@, envelope@),
{
    response_from(to_text(envelope))
}

/// What a catalog call filters by reaches HANA: where the call gives the schema,
/// the table, the table type of `list_tables` or the column of `list_columns` as a
/// string argument that the configuration names, or leaves it to a pinned value,
/// the planned statement has the predicate on that column of `SYS`, and that very
/// string is bound to the `?` of the predicate.
pub proof fn law_catalog_calls_bind_their_filters(
    spec: HanaBackendSpec,
    profile: HanaProfile,
    arguments: JsonModel,
    evaluated: Result<Seq<JsonModel>, Seq<char>>,
    value: Seq<char>,
    plan: PlanModel,
)
    requires
        profile_of(spec, profile),
        spec.operation != HanaOperation::Query,
        value.len() > 0,
        call_plan(profile, arguments, evaluated) == Ok::<PlanModel, Seq<char>>(plan),
    ensures
        filters_by(spec.schema, spec.schema_arg, arguments, value) ==> binds_predicate(
            plan.sql,
            plan.binds,
            "SCHEMA_NAME = ?"@,
            value,
        ),
        filters_by(spec.table, spec.table_arg, arguments, value) ==> binds_predicate(
            plan.sql,
            plan.binds,
            "TABLE_NAME = ?"@,
            value,
        ),
        spec.operation == HanaOperation::ListTables && filters_by(
            spec.table_type,
            spec.table_type_arg,
            arguments,
            value,
        ) ==> binds_predicate(plan.sql, plan.binds, "TABLE_TYPE = ?"@, value),
        spec.operation == HanaOperation::ListColumns && filters_by(
            spec.column,
            spec.column_arg,
            arguments,
            value,
        ) ==> binds_predicate(plan.sql, plan.binds, "COLUMN_NAME = ?"@, value),
{
    let filters = profile.catalog_filters.resolved(arguments);
    law_filters_come_from_their_own_settings(profile.catalog_filters, arguments, value);
    law_set_filters_are_bound_to_their_predicate(filters, profile.max_rows);
}

/// A `list_tables` call is always planned. A `list_columns` call is planned
/// exactly where it filters by a table that is not empty, and is refused in these
/// words elsewhere.
pub proof fn law_catalog_calls_are_planned(
    spec: HanaBackendSpec,
    profile: HanaProfile,
    arguments: JsonModel,
    evaluated: Result<Seq<JsonModel>, Seq<char>>,
)
    requires
        profile_of(spec, profile),
    ensures
        spec.operation == HanaOperation::ListTables ==> call_plan(profile, arguments, evaluated)
            is Ok,
        spec.operation == HanaOperation::ListColumns ==> (call_plan(profile, arguments, evaluated)
            is Ok <==> exists|table: Seq<char>|
            table.len() > 0 && #[trigger] filters_by(
                spec.table,
                spec.table_arg,
                arguments,
                table,
            )),
        spec.operation == HanaOperation::ListColumns && call_plan(profile, arguments, evaluated)
            is Err ==> call_plan(profile, arguments, evaluated) == Err::<PlanModel, Seq<char>>(
            "operation: list_columns requires a table (the table whose columns to list)"@,
        ),
{
    let filters = profile.catalog_filters.resolved(arguments);
    law_filters_come_from_their_own_settings(
        profile.catalog_filters,
        arguments,
        filters.table,
    );
    if exists|table: Seq<char>|
        table.len() > 0 && #[trigger] filters_by(spec.table, spec.table_arg, arguments, table) {
        let table = choose|table: Seq<char>|
            table.len() > 0 && #[trigger] filters_by(spec.table, spec.table_arg, arguments, table);
        law_filters_come_from_their_own_settings(profile.catalog_filters, arguments, table);
    }
}

/// Nothing but the filters that a catalog call sets, and the row cap of the
/// configuration behind them, is bound.
pub proof fn law_catalog_calls_end_with_the_row_cap(
    spec: HanaBackendSpec,
    profile: HanaProfile,
    arguments: JsonModel,
    evaluated: Result<Seq<JsonModel>, Seq<char>>,
    plan: PlanModel,
)
    requires
        profile_of(spec, profile),
        spec.operation != HanaOperation::Query,
        spec.max_rows <= i64::MAX,
        call_plan(profile, arguments, evaluated) == Ok::<PlanModel, Seq<char>>(plan),
    ensures
        plan.binds.len() > 0,
        plan.binds.last() matches BindModel::Int(cap) && cap == spec.max_rows,
        forall|i: int|
            0 <= i < plan.binds.len() - 1 ==> (#[trigger] plan.binds[i] matches BindModel::Str(
                value,
            ) && value.len() > 0 && (filters_by(
                spec.schema,
                spec.schema_arg,
                arguments,
                value,
            ) || filters_by(spec.table, spec.table_arg, arguments, value) || (spec.operation
                == HanaOperation::ListTables && filters_by(
                spec.table_type,
                spec.table_type_arg,
                arguments,
                value,
            )) || (spec.operation == HanaOperation::ListColumns && filters_by(
                spec.column,
                spec.column_arg,
                arguments,
                value,
            )))),
{
    let filters = profile.catalog_filters.resolved(arguments);
    law_catalog_binds_are_the_set_filters(filters, profile.max_rows);
    law_filters_come_from_their_own_settings(profile.catalog_filters, arguments, filters.schema);
}

/// Every call runs under the bounds that the operator has set: its row cap, its
/// byte cap and its time limit are those of the configuration, whatever the
/// operation, the surface and the arguments. It runs under the guard exactly where
/// it is a `query` of a read-only configuration.
pub proof fn law_calls_keep_the_bounds_of_the_configuration(
    spec: HanaBackendSpec,
    profile: HanaProfile,
    arguments: JsonModel,
    evaluated: Result<Seq<JsonModel>, Seq<char>>,
    plan: PlanModel,
)
    requires
        profile_of(spec, profile),
        call_plan(profile, arguments, evaluated) == Ok::<PlanModel, Seq<char>>(plan),
    ensures
        plan.max_rows == spec.max_rows,
        plan.max_result_bytes == spec.max_result_bytes,
        plan.timeout_ms == spec.timeout_ms,
        plan.guarded <==> spec.operation == HanaOperation::Query && spec.read_only,
{
}

/// A `query` call is planned exactly where its parameter expressions came to
/// scalars. It runs the single-row read of the configuration on the resource
/// surface where there is one, and its statement elsewhere, with one bind for each
/// of those values in order.
pub proof fn law_query_calls_bind_their_parameters(
    spec: HanaBackendSpec,
    profile: HanaProfile,
    arguments: JsonModel,
    values: Seq<JsonModel>,
)
    requires
        profile_of(spec, profile),
        spec.operation == HanaOperation::Query,
    ensures
        (forall|i: int|
            0 <= i < values.len() ==> !(#[trigger] values[i] is Array) && !(values[i] is Object))
            ==> (call_plan(profile, arguments, Ok(values)) matches Ok(plan) && plan.sql == (
        if spec.surface == Surface::Resource && spec.read_query is Some {
            spec.read_query->0@
        } else {
            spec.query@
        }) && plan.binds.len() == values.len() && forall|i: int|
            0 <= i < values.len() ==> bind_from_json(values[i]) == Ok::<BindModel, Seq<char>>(
                #[trigger] plan.binds[i],
            )),
        (exists|i: int|
            0 <= i < values.len() && (#[trigger] values[i] is Array || values[i] is Object))
            ==> call_plan(profile, arguments, Ok(values)) is Err,
{
    if forall|i: int|
        0 <= i < values.len() ==> !(#[trigger] values[i] is Array) && !(values[i] is Object) {
        law_binds_follow_values(values, values.len() as int);
    }
    if exists|i: int|
        0 <= i < values.len() && (#[trigger] values[i] is Array || values[i] is Object) {
        let i = choose|i: int|
            0 <= i < values.len() && (#[trigger] values[i] is Array || values[i] is Object);
        law_arrays_and_objects_are_never_bound(values, values.len() as int, i);
    }
}

/// A `query` whose parameter expressions failed is refused in their words.
pub proof fn law_failed_parameters_are_told(
    profile: HanaProfile,
    arguments: JsonModel,
    words: Seq<char>,
)
    requires
        profile.operation == HanaOperation::Query,
    ensures
        call_plan(profile, arguments, Err(words)) == Err::<PlanModel, Seq<char>>(
            "evaluating params: "@ + words,
        ),
{
}

/// The arguments are what the payload reads as, no arguments at all where it is
/// empty, and words that say so where it reads as nothing.
pub proof fn law_payloads_are_read(
    payload: Seq<u8>,
    value: JsonModel,
    words: Seq<char>,
    read: Result<JsonModel, Seq<char>>,
)
    ensures
        payload.len() == 0 ==> call_arguments(payload, read) == Ok::<JsonModel, Seq<char>>(
            JsonModel::Object(Seq::empty()),
        ),
        payload.len() > 0 ==> call_arguments(payload, Ok(value)) == Ok::<JsonModel, Seq<char>>(
            value,
        ),
        payload.len() > 0 ==> call_arguments(payload, Err(words)) == Err::<JsonModel, Seq<char>>(
            "HANA plugin payload is not valid JSON: "@ + words,
        ),
{
}

/// The tool is the one that the first header with that name gives, in whatever
/// case the name stands, and the binding where no header has it.
pub proof fn law_tools_are_named_by_their_header(
    headers: Seq<(String, String)>,
    backend_name: Seq<char>,
)
    ensures
        forall|i: int|
            {
                &&& 0 <= i < headers.len()
                &&& lowered((#[trigger] headers[i]).0@) == lowered("mcpg-tool-name"@)
                &&& forall|j: int|
                    0 <= j < i ==> lowered((#[trigger] headers[j]).0@) != lowered(
                        "mcpg-tool-name"@,
                    )
            } ==> tool_of(headers, backend_name) == headers[i].1@,
        (forall|j: int|
            0 <= j < headers.len() ==> lowered((#[trigger] headers[j]).0@) != lowered(
                "mcpg-tool-name"@,
            )) ==> tool_of(headers, backend_name) == backend_name,
{
    assert forall|i: int|
        {
            &&& 0 <= i < headers.len()
            &&& lowered((#[trigger] headers[i]).0@) == lowered("mcpg-tool-name"@)
            &&& forall|j: int|
                0 <= j < i ==> lowered((#[trigger] headers[j]).0@) != lowered("mcpg-tool-name"@)
        } implies tool_of(headers, backend_name) == headers[i].1@ by {
        lemma_header_at(headers, "mcpg-tool-name"@, i);
    }
    if forall|j: int|
        0 <= j < headers.len() ==> lowered((#[trigger] headers[j]).0@) != lowered(
            "mcpg-tool-name"@,
        ) {
        lemma_header_absent(headers, "mcpg-tool-name"@);
    }
}

proof fn lemma_header_at(headers: Seq<(String, String)>, name: Seq<char>, i: int)
    requires
        0 <= i < headers.len(),
        lowered(headers[i].0@) == lowered(name),
        forall|j: int| 0 <= j < i ==> lowered((#[trigger] headers[j]).0@) != lowered(name),
    ensures
        header_value(headers, name) == Some(headers[i].1@),
    decreases i,
{
    if i > 0 {
        let rest = headers.drop_first();
        assert(lowered(headers[0].0@) != lowered(name));
        assert(rest[i - 1] == headers[i]);
        assert forall|j: int| 0 <= j < i - 1 implies lowered((#[trigger] rest[j]).0@) != lowered(
            name,
        ) by {
            assert(rest[j] == headers[j + 1]);
        }
        lemma_header_at(rest, name, i - 1);
    }
}

proof fn lemma_header_absent(headers: Seq<(String, String)>, name: Seq<char>)
    requires
        forall|j: int|
            0 <= j < headers.len() ==> lowered((#[trigger] headers[j]).0@) != lowered(name),
    ensures
        header_value(headers, name) is None,
    decreases headers.len(),
{
    if headers.len() > 0 {
        let rest = headers.drop_first();
        assert(lowered(headers[0].0@) != lowered(name));
        assert forall|j: int| 0 <= j < rest.len() implies lowered((#[trigger] rest[j]).0@)
            != lowered(name) by {
            assert(rest[j] == headers[j + 1]);
        }
        lemma_header_absent(rest, name);
    }
}

/// A failure that tells of a timeout is labelled as one; of the others, those that
/// may be retried are transport errors and the rest errors of HANA.
pub proof fn law_failure_labels(message: Seq<char>)
    ensures
        occurs(lowered(message), "timed out"@) || occurs(lowered(message), "timeout"@)
            ==> failure_label(message) == "timeout"@,
        !occurs(lowered(message), "timed out"@) && !occurs(lowered(message), "timeout"@)
            && is_retryable(message) ==> failure_label(message) == "transport_error"@,
        !occurs(lowered(message), "timed out"@) && !occurs(lowered(message), "timeout"@)
            && !is_retryable(message) ==> failure_label(message) == "hana_error"@,
{
}

/// A call that failed is reported with its own words: as the reason, as the error
/// and in the downstream error. The envelope names the tool, the binding and the
/// database.
pub proof fn law_failures_are_reported_in_their_words(
    context: CallContext,
    message: Seq<char>,
    label: Seq<char>,
)
    ensures
        ({
            let report = failure_report(context, message, label);
            &&& report.label == label
            &&& report.reason == Some(message)
            &&& member_of(report.body, "error"@) == Some(JsonModel::Text(message))
            &&& member_of(report.body, "downstreamError"@) == Some(classified(message))
            &&& inner_member(report.body, "downstreamError"@, "message"@) == Some(
                JsonModel::Text(message),
            )
            &&& member_of(report.body, "downstreamErrors"@) == Some(
                JsonModel::Array(seq![classified(message)]),
            )
            &&& member_of(report.body, "response"@) == Some(JsonModel::Null)
            &&& member_of(report.body, "toolName"@) == Some(JsonModel::Text(context.tool_name@))
            &&& member_of(report.body, "profile"@) == Some(JsonModel::Text(context.backend_name@))
            &&& inner_member(report.body, "request"@, "database"@) == Some(
                JsonModel::Text(context.database@),
            )
        }),
{
    law_envelopes_tell_who_and_why(
        EnvelopeModel {
            tool_name: context.tool_name@,
            profile_name: context.backend_name@,
            database: context.database@,
            rows: None,
            row_count: None,
            truncated: false,
            duration_ms: context.duration_ms as int,
            downstream_error: Some(classified(message)),
            error: Some(message),
        },
    );
    law_classified_errors(message);
}

/// What HANA failed with is what the report of the call fails with, on every
/// surface.
pub proof fn law_failed_calls_fail_on_every_surface(
    context: CallContext,
    surface: Surface,
    surface_uri: Option<Seq<char>>,
    arguments: JsonModel,
    message: String,
)
    ensures
        ({
            let report = call_report(context, surface, surface_uri, arguments, Err(message));
            &&& report.label == failure_label(message@)
            &&& report.reason == Some(message@)
            &&& member_of(report.body, "error"@) == Some(JsonModel::Text(message@))
            &&& member_of(report.body, "downstreamError"@) == Some(classified(message@))
            &&& member_of(report.body, "toolName"@) == Some(JsonModel::Text(context.tool_name@))
        }),
{
    law_failures_are_reported_in_their_words(context, message@, failure_label(message@));
}

/// The report of a tool call that returned rows holds every one of them, in order,
/// with the number of rows that came, whether some were left out, and the time it
/// took. It names the tool, the binding and the database and tells of no error.
pub proof fn law_tool_calls_return_every_row(
    context: CallContext,
    surface_uri: Option<Seq<char>>,
    arguments: JsonModel,
    outcome: QueryOutcome,
)
    ensures
        ({
            let report = call_report(context, Surface::Tool, surface_uri, arguments, Ok(outcome));
            &&& report.label == "ok"@
            &&& report.reason is None
            &&& inner_member(report.body, "response"@, "rows"@) == Some(
                JsonModel::Array(models(outcome.rows@)),
            )
            &&& inner_member(report.body, "response"@, "count"@) == Some(
                JsonModel::Number(NumberModel::Integer(outcome.row_count as int)),
            )
            &&& inner_member(report.body, "response"@, "truncated"@) == Some(
                JsonModel::Bool(outcome.truncated),
            )
            &&& inner_member(report.body, "response"@, "durationMs"@) == Some(
                JsonModel::Number(NumberModel::Integer(context.duration_ms as int)),
            )
            &&& member_of(report.body, "toolName"@) == Some(JsonModel::Text(context.tool_name@))
            &&& member_of(report.body, "profile"@) == Some(JsonModel::Text(context.backend_name@))
            &&& inner_member(report.body, "request"@, "database"@) == Some(
                JsonModel::Text(context.database@),
            )
            &&& member_of(report.body, "error"@) == Some(JsonModel::Null)
            &&& member_of(report.body, "downstreamError"@) == Some(JsonModel::Null)
            &&& member_of(report.body, "downstreamErrors"@) == Some(
                JsonModel::Array(Seq::empty()),
            )
        }),
{
    let e = EnvelopeModel {
        tool_name: context.tool_name@,
        profile_name: context.backend_name@,
        database: context.database@,
        rows: Some(models(outcome.rows@)),
        row_count: Some(outcome.row_count as int),
        truncated: outcome.truncated,
        duration_ms: context.duration_ms as int,
        downstream_error: None,
        error: None,
    };
    law_envelopes_hold_every_row(e, models(outcome.rows@));
    law_envelopes_tell_who_and_why(e);
}

/// The count of a tool call is the number of rows that HANA returned, and where
/// none was left out it is the number of rows in the response.
pub proof fn law_counts_are_those_of_the_rows(
    context: CallContext,
    surface_uri: Option<Seq<char>>,
    arguments: JsonModel,
    max_rows: nat,
    max_result_bytes: nat,
    offered: Seq<(JsonModel, nat)>,
    outcome: QueryOutcome,
)
    requires
        models(outcome.rows@) == sink_run(max_rows, max_result_bytes, offered).rows,
        outcome.truncated == sink_run(max_rows, max_result_bytes, offered).truncated,
        outcome.row_count == sink_run(max_rows, max_result_bytes, offered).seen,
    ensures
        ({
            let report = call_report(context, Surface::Tool, surface_uri, arguments, Ok(outcome));
            &&& inner_member(report.body, "response"@, "count"@) matches Some(
                JsonModel::Number(NumberModel::Integer(count)),
            )
            &&& count == offered.len()
            &&& inner_member(report.body, "response"@, "rows"@) matches Some(
                JsonModel::Array(rows),
            )
            &&& inner_member(report.body, "response"@, "truncated"@) matches Some(
                JsonModel::Bool(truncated),
            )
            &&& truncated <==> rows.len() < count
            &&& forall|i: int| 0 <= i < rows.len() ==> #[trigger] rows[i] == offered[i].0
        }),
{
    law_tool_calls_return_every_row(context, surface_uri, arguments, outcome);
    law_rows_are_capped_prefix(max_rows, max_result_bytes, offered);
}

/// The report of a prompt that returned rows is one user message with the JSON
/// text of all of them.
pub proof fn law_prompts_return_every_row(
    context: CallContext,
    surface_uri: Option<Seq<char>>,
    arguments: JsonModel,
    outcome: QueryOutcome,
)
    ensures
        ({
            let report = call_report(
                context,
                Surface::Prompt,
                surface_uri,
                arguments,
                Ok(outcome),
            );
            &&& report.label == "ok"@
            &&& report.reason is None
            &&& member_of(report.body, "messages"@) matches Some(JsonModel::Array(messages))
            &&& messages.len() == 1
            &&& member_of(messages[0], "role"@) == Some(JsonModel::Text("user"@))
            &&& inner_member(messages[0], "content"@, "type"@) == Some(JsonModel::Text("text"@))
            &&& inner_member(messages[0], "content"@, "text"@) == Some(
                JsonModel::Text(json_text(JsonModel::Array(models(outcome.rows@)))),
            )
        }),
{
    law_messages_carry_the_text(json_text(JsonModel::Array(models(outcome.rows@))));
}

/// The report of a resource that returned rows is one content with the JSON text
/// of all of them, under the URI of the binding or else the one that the caller
/// asked for.
pub proof fn law_resources_return_every_row(
    context: CallContext,
    surface_uri: Option<Seq<char>>,
    arguments: JsonModel,
    outcome: QueryOutcome,
    uri: Seq<char>,
)
    requires
        surface_uri == Some(uri) || (surface_uri is None && member_of(arguments, "uri"@) == Some(
            JsonModel::Text(uri),
        )),
    ensures
        ({
            let report = call_report(
                context,
                Surface::Resource,
                surface_uri,
                arguments,
                Ok(outcome),
            );
            &&& report.label == "ok"@
            &&& report.reason is None
            &&& member_of(report.body, "contents"@) matches Some(JsonModel::Array(contents))
            &&& contents.len() == 1
            &&& member_of(contents[0], "uri"@) == Some(JsonModel::Text(uri))
            &&& member_of(contents[0], "mimeType"@) == Some(JsonModel::Text("application/json"@))
            &&& member_of(contents[0], "text"@) == Some(
                JsonModel::Text(json_text(JsonModel::Array(models(outcome.rows@)))),
            )
        }),
{
    law_contents_carry_uri_and_text(uri, json_text(JsonModel::Array(models(outcome.rows@))));
}

/// A resource without any URI has failed, whatever HANA returned.
pub proof fn law_resources_need_a_uri(
    context: CallContext,
    arguments: JsonModel,
    outcome: QueryOutcome,
)
    requires
        !(member_of(arguments, "uri"@) matches Some(JsonModel::Text(_))),
    ensures
        ({
            let words =
                "resource surface requires a `uri` (set a static `uri` on the binding or invoke via a resources/read request)"@;
            let report = call_report(context, Surface::Resource, None, arguments, Ok(outcome));
            &&& report.label == "hana_error"@
            &&& report.reason == Some(words)
            &&& member_of(report.body, "error"@) == Some(JsonModel::Text(words))
            &&& member_of(report.body, "downstreamError"@) == Some(classified(words))
            &&& member_of(report.body, "response"@) == Some(JsonModel::Null)
        }),
{
    law_failures_are_reported_in_their_words(
        context,
        "resource surface requires a `uri` (set a static `uri` on the binding or invoke via a resources/read request)"@,
        "hana_error"@,
    );
}

/// What the guard has to pass once more is the statement that the call will run,
/// and exactly a `query` of a read-only configuration has one.
pub proof fn law_read_only_queries_are_guarded(spec: HanaBackendSpec, profile: HanaProfile)
    requires
        profile_of(spec, profile),
    ensures
        statement_to_guard(profile) is Some <==> spec.operation == HanaOperation::Query
            && spec.read_only,
        statement_to_guard(profile) matches Some(sql) ==> sql == (if spec.surface
            == Surface::Resource && spec.read_query is Some {
            spec.read_query->0@
        } else {
            spec.query@
        }),
{
}

/// A call that has a plan is executed by that plan, unless it runs under the guard
/// and the guard refuses it; then it fails in the guard's words. A call without a
/// plan fails in the words that say why, as one that was not valid.
pub proof fn law_calls_are_executed_as_planned(
    context: CallContext,
    profile: HanaProfile,
    arguments: JsonModel,
    evaluated: Result<Seq<JsonModel>, Seq<char>>,
    verdict: Option<Seq<char>>,
)
    ensures
        match call_plan(profile, arguments, evaluated) {
            Ok(plan) => {
                let step = call_step(context, profile, arguments, evaluated, verdict);
                &&& !plan.guarded || verdict is None ==> step == StepModel::Ask(plan)
                &&& plan.guarded ==> (verdict matches Some(words) ==> (
                step matches StepModel::Answer(report) && report.reason == Some(words)
                    && report.label == failure_label(words) && member_of(report.body, "error"@)
                    == Some(JsonModel::Text(words))))
            },
            Err(words) => call_step(
                context,
                profile,
                arguments,
                evaluated,
                verdict,
            ) matches StepModel::Answer(report) && report.reason == Some(words) && report.label
                == "invalid_spec"@ && member_of(report.body, "error"@) == Some(
                JsonModel::Text(words),
            ),
        },
{
    match call_plan(profile, arguments, evaluated) {
        Ok(plan) => {
            if let Some(words) = verdict {
                law_failures_are_reported_in_their_words(context, words, failure_label(words));
            }
        },
        Err(words) => {
            law_failures_are_reported_in_their_words(context, words, "invalid_spec"@);
        },
    }
}

/// Plans, reports and steps stand for what they hold.
pub proof fn law_plans_and_reports_stand_for_what_they_hold(
    plan: StatementPlan,
    report: CallReport,
    values: Vec<Json>,
    words: String,
)
    ensures
        plan@.sql == plan.sql@,
        plan@.binds.len() == plan.binds@.len(),
        forall|i: int|
            0 <= i < plan.binds@.len() ==> #[trigger] plan@.binds[i] == plan.binds@[i]@,
        plan@.max_rows == plan.max_rows,
        plan@.max_result_bytes == plan.max_result_bytes,
        plan@.timeout_ms == plan.timeout_ms,
        plan@.guarded == plan.guarded,
        report@.body == report.body@,
        report@.label == report.label@,
        report@.reason == text_option(report.reason),
        CallStep::Ask(plan)@ == StepModel::Ask(plan@),
        CallStep::Answer(report)@ == StepModel::Answer(report@),
        evaluation(Ok(values)) == Ok::<Seq<JsonModel>, Seq<char>>(models(values@)),
        evaluation(Err(words)) == Err::<Seq<JsonModel>, Seq<char>>(words@),
{
}

/// A planned call runs under the bounds of the configuration that its profile was
/// kept of, on every surface and for every operation.
pub proof fn law_planned_calls_keep_the_bounds(
    spec: HanaBackendSpec,
    profile: &HanaProfile,
    arguments: &Json,
    evaluated: Result<Vec<Json>, String>,
    plan: StatementPlan,
)
    requires
        profile_of(spec, *profile),
        call_ensures(
            plan_call,
            (profile, arguments, evaluated),
            Ok::<StatementPlan, String>(plan),
        ),
    ensures
        plan.max_rows == spec.max_rows,
        plan.max_result_bytes == spec.max_result_bytes,
        plan.timeout_ms == spec.timeout_ms,
        plan.guarded <==> spec.operation == HanaOperation::Query && spec.read_only,
{
    law_calls_keep_the_bounds_of_the_configuration(
        spec,
        *profile,
        arguments@,
        evaluation(evaluated),
        plan@,
    );
}

/// A planned `query` runs the statement that the configuration fixes, with one
/// bind for each value of its parameters, in order.
pub proof fn law_planned_queries_run_the_fixed_statement(
    spec: HanaBackendSpec,
    profile: &HanaProfile,
    arguments: &Json,
    values: Vec<Json>,
    plan: StatementPlan,
    i: int,
    one: Result<HanaBind, String>,
)
    requires
        profile_of(spec, *profile),
        spec.operation == HanaOperation::Query,
        call_ensures(
            plan_call,
            (profile, arguments, Ok::<Vec<Json>, String>(values)),
            Ok::<StatementPlan, String>(plan),
        ),
        0 <= i < values@.len(),
        call_ensures(json_to_hana_bind, (values@[i],), one),
    ensures
        plan.sql@ == (if spec.surface == Surface::Resource && spec.read_query is Some {
            spec.read_query->0@
        } else {
            spec.query@
        }),
        plan.binds@.len() == values@.len(),
        one matches Ok(bind) && plan.binds@[i]@ == bind@,
{
    let all = models(values@);
    assert forall|k: int| 0 <= k < all.len() implies !(#[trigger] all[k] is Array) && !(
    all[k] is Object) by {
        if all[k] is Array || all[k] is Object {
            law_arrays_and_objects_are_never_bound(all, all.len() as int, k);
        }
    }
    law_query_calls_bind_their_parameters(spec, *profile, arguments@, all);
    assert(all[i] == values@[i]@);
    assert(plan@.binds.len() == plan.binds@.len());
    assert(plan@.binds[i] == plan.binds@[i]@);
}

/// A planned catalog call carries what the caller filters by: the string argument
/// that the configuration names for a filter, or else its pinned value, is bound to
/// the `?` of the predicate on that column of `SYS`.
pub proof fn law_planned_catalog_calls_bind_their_filters(
    spec: HanaBackendSpec,
    profile: &HanaProfile,
    arguments: &Json,
    evaluated: Result<Vec<Json>, String>,
    plan: StatementPlan,
    value: Seq<char>,
)
    requires
        profile_of(spec, *profile),
        spec.operation != HanaOperation::Query,
        call_ensures(
            plan_call,
            (profile, arguments, evaluated),
            Ok::<StatementPlan, String>(plan),
        ),
        value.len() > 0,
    ensures
        filters_by(spec.schema, spec.schema_arg, arguments@, value) ==> binds_predicate(
            plan.sql@,
            bind_models(plan.binds@),
            "SCHEMA_NAME = ?"@,
            value,
        ),
        filters_by(spec.table, spec.table_arg, arguments@, value) ==> binds_predicate(
            plan.sql@,
            bind_models(plan.binds@),
            "TABLE_NAME = ?"@,
            value,
        ),
        spec.operation == HanaOperation::ListTables && filters_by(
            spec.table_type,
            spec.table_type_arg,
            arguments@,
            value,
        ) ==> binds_predicate(plan.sql@, bind_models(plan.binds@), "TABLE_TYPE = ?"@, value),
        spec.operation == HanaOperation::ListColumns && filters_by(
            spec.column,
            spec.column_arg,
            arguments@,
            value,
        ) ==> binds_predicate(plan.sql@, bind_models(plan.binds@), "COLUMN_NAME = ?"@, value),
{
    law_catalog_calls_bind_their_filters(
        spec,
        *profile,
        arguments@,
        evaluation(evaluated),
        value,
        plan@,
    );
}

/// The report of a tool call that returned rows holds every one of them.
pub proof fn law_reported_tool_calls_hold_every_row(
    context: &CallContext,
    surface_uri: Option<&str>,
    arguments: &Json,
    outcome: QueryOutcome,
    report: CallReport,
)
    requires
        call_ensures(
            report_call,
            (context, Surface::Tool, surface_uri, arguments, Ok::<QueryOutcome, String>(outcome)),
            report,
        ),
    ensures
        report.label@ == "ok"@,
        report.reason is None,
        inner_member(report.body@, "response"@, "rows"@) matches Some(JsonModel::Array(rows))
            && rows.len() == outcome.rows@.len() && forall|i: int|
            0 <= i < rows.len() ==> #[trigger] rows[i] == outcome.rows@[i]@,
        inner_member(report.body@, "response"@, "count"@) == Some(
            JsonModel::Number(NumberModel::Integer(outcome.row_count as int)),
        ),
        inner_member(report.body@, "response"@, "truncated"@) == Some(
            JsonModel::Bool(outcome.truncated),
        ),
        member_of(report.body@, "toolName"@) == Some(JsonModel::Text(context.tool_name@)),
        member_of(report.body@, "profile"@) == Some(JsonModel::Text(context.backend_name@)),
{
    law_tool_calls_return_every_row(
        *context,
        match surface_uri {
            Some(u) => Some(u@),
            None => None,
        },
        arguments@,
        outcome,
    );
    assert(report@.body == report.body@);
}

/// A failure of HANA is reported as one in its own words, on every surface, with
/// the label that its words give.
pub proof fn law_reported_failures_tell_their_words(
    context: &CallContext,
    surface: Surface,
    surface_uri: Option<&str>,
    arguments: &Json,
    message: String,
    text: &str,
    report: CallReport,
    label: &'static str,
)
    requires
        call_ensures(
            report_call,
            (context, surface, surface_uri, arguments, Err::<QueryOutcome, String>(message)),
            report,
        ),
        text@ == message@,
        call_ensures(label_failure, (text,), label),
    ensures
        report.label@ == label@,
        report.reason matches Some(words) && words@ == message@,
        member_of(report.body@, "error"@) == Some(JsonModel::Text(message@)),
        member_of(report.body@, "response"@) == Some(JsonModel::Null),
{
    law_failures_are_reported_in_their_words(*context, message@, failure_label(message@));
    assert(report@.body == report.body@);
}

/// A call is executed exactly by the plan that it has; it is not executed where it
/// has none, or where it runs under the guard and the guard refuses it.
pub proof fn law_decided_calls_run_their_plan(
    context: &CallContext,
    profile: &HanaProfile,
    arguments: &Json,
    evaluated: Result<Vec<Json>, String>,
    verdict: &Option<String>,
    step: CallStep,
    plan: Result<StatementPlan, String>,
)
    requires
        call_ensures(decide_call, (context, profile, arguments, evaluated, verdict), step),
        call_ensures(plan_call, (profile, arguments, evaluated), plan),
    ensures
        match (plan, step) {
            (Ok(planned), CallStep::Ask(asked)) => asked@ == planned@ && (!planned.guarded
                || verdict is None),
            (Ok(planned), CallStep::Answer(report)) => planned.guarded && verdict is Some
                && text_option(report.reason) == text_option(*verdict),
            (Err(words), CallStep::Answer(report)) => report.label@ == "invalid_spec"@
                && text_option(report.reason) == Some(words@),
            (Err(_), CallStep::Ask(_)) => false,
        },
{
    law_calls_are_executed_as_planned(
        *context,
        *profile,
        arguments@,
        evaluation(evaluated),
        text_option(*verdict),
    );
}

/// The statement that the guard is asked about is the one that the call runs.
pub proof fn law_the_guarded_statement_is_the_one_that_runs(
    profile: &HanaProfile,
    arguments: &Json,
    evaluated: Result<Vec<Json>, String>,
    plan: StatementPlan,
    sql: Option<&str>,
)
    requires
        call_ensures(
            plan_call,
            (profile, arguments, evaluated),
            Ok::<StatementPlan, String>(plan),
        ),
        call_ensures(guarded_statement, (profile,), sql),
    ensures
        plan.guarded <==> sql is Some,
        sql matches Some(text) ==> text@ == plan.sql@,
{
}

/// A statement is cleared unless it runs under the guard and the guard refuses it;
/// then the words are the guard's.
pub proof fn law_cleared_statements(
    plan: &StatementPlan,
    verdict: &Option<String>,
    cleared: Result<(), String>,
)
    requires
        call_ensures(StatementPlan::cleared, (plan, verdict), cleared),
    ensures
        cleared is Ok <==> !plan.guarded || verdict is None,
        cleared matches Err(words) ==> (verdict matches Some(said) && said@ == words@),
{
}

/// The payload of a response is the UTF-8 of its text, as it stands and never cut.
pub proof fn law_responses_carry_their_text(
    text: String,
    words: String,
    response: Result<BackendResponse, BackendError>,
    refused: Result<BackendResponse, BackendError>,
)
    requires
        call_ensures(response_from, (Ok::<String, String>(text),), response),
        call_ensures(response_from, (Err::<String, String>(words),), refused),
    ensures
        response matches Ok(r) && r.payload@ == encode_utf8(text@) && !r.truncated,
        refused matches Err(BackendError::Transport { message }) && message@
            == "HANA plugin envelope serialization failed: "@ + words@,
{
}

/// The tool of a call and its arguments are read from what the caller sent.
pub proof fn law_calls_are_read_from_their_request(
    headers: &Vec<(String, String)>,
    backend_name: &str,
    tool: String,
    payload: &[u8],
    value: Json,
    arguments: Result<Json, BackendError>,
)
    requires
        call_ensures(tool_name, (headers, backend_name), tool),
        call_ensures(arguments_from, (payload, Ok::<Json, String>(value)), arguments),
    ensures
        forall|i: int|
            {
                &&& 0 <= i < headers@.len()
                &&& lowered((#[trigger] headers@[i]).0@) == lowered("mcpg-tool-name"@)
                &&& forall|j: int|
                    0 <= j < i ==> lowered((#[trigger] headers@[j]).0@) != lowered(
                        "mcpg-tool-name"@,
                    )
            } ==> tool@ == headers@[i].1@,
        headers@.len() == 0 ==> tool@ == backend_name@,
        payload@.len() == 0 ==> (arguments matches Ok(read) && read@ == JsonModel::Object(
            Seq::empty(),
        )),
        payload@.len() > 0 ==> (arguments matches Ok(read) && read@ == value@),
{
    law_tools_are_named_by_their_header(headers@, backend_name@);
}

} // verus!

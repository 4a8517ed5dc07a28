//! Registration of a binding: every check that a configuration has to pass, in
//! the order in which the checks report, and the profile that is kept for one
//! that passes.
use vstd::prelude::*;
use vstd::string::StringExecFns;

use crate::connection::{
    build_pool, law_tls_knobs, manager_settings, resolve_tls, tls_choice, tls_settings,
    ConnectSettings, PoolPlan, TlsSettings, TrustAnchor,
};
use crate::engine::{CatalogFilters, FiltersModel};
use crate::json::{member_of, Json, JsonModel};
use crate::params::{add_distinct, with_distinct};
use crate::surface::{surface_token, Surface};
use crate::text::{
    blank, contains, decimal, decimal_text, is_blank, name_texts, occurs, text_option, trimmed,
};
use crate::types::{
    completion_fault, is_unset, list_query_fault, text_or_empty, unset, validate_completion, validate_list_query,
    CompletionConfig, HanaBackendSpec, HanaOperation, ListQueryConfig,
};

verus! {

/// The catalog filters of a binding: a pinned value and the name of a tool
/// argument for each.
#[derive(Debug)]
pub struct CatalogFilterConfig {
    pub schema: Option<String>,
    pub table: Option<String>,
    pub table_type: Option<String>,
    pub column: Option<String>,
    pub schema_arg: Option<String>,
    pub table_arg: Option<String>,
    pub table_type_arg: Option<String>,
    pub column_arg: Option<String>,
}

impl Default for CatalogFilterConfig {
    fn default() -> (config: Self)
        ensures
            config.schema is None,
            config.table is None,
            config.table_type is None,
            config.column is None,
            config.schema_arg is None,
            config.table_arg is None,
            config.table_type_arg is None,
            config.column_arg is None,
    {
        CatalogFilterConfig {
            schema: None,
            table: None,
            table_type: None,
            column: None,
            schema_arg: None,
            table_arg: None,
            table_type_arg: None,
            column_arg: None,
        }
    }
}

/// The value of one filter: the string argument where the binding names one and
/// the call has it, else the pinned value, else empty.
pub open spec fn filter_value(
    pinned: Option<Seq<char>>,
    argument: Option<Seq<char>>,
    arguments: JsonModel,
) -> Seq<char> {
    match argument {
        Some(name) => match member_of(arguments, name) {
            Some(JsonModel::Text(value)) => value,
            _ => pinned_value(pinned),
        },
        None => pinned_value(pinned),
    }
}

/// A pinned value, empty where there is none.
pub open spec fn pinned_value(pinned: Option<Seq<char>>) -> Seq<char> {
    match pinned {
        Some(value) => value,
        None => Seq::empty(),
    }
}

/// The value of one filter of a call.
pub fn resolve_one(
    static_value: Option<&str>,
    arg_name: Option<&str>,
    arguments: &Json,
) -> (value: String)
    ensures
        value@ == filter_value(
            match static_value {
                Some(s) => Some(s@),
                None => None,
            },
            match arg_name {
                Some(n) => Some(n@),
                None => None,
            },
            arguments@,
        ),
{
    if let Some(name) = arg_name {
        if let Some(found) = arguments.get(name) {
            if let Some(value) = found.as_str() {
                return value.to_owned();
            }
        }
    }
    match static_value {
        Some(value) => value.to_owned(),
        None => String::new(),
    }
}

/// An optional string as an optional slice.
fn slice(s: &Option<String>) -> (slice: Option<&str>)
    ensures
        match slice {
            Some(t) => text_option(*s) == Some(t@),
            None => s is None,
        },
{
    match s {
        Some(text) => Some(text.as_str()),
        None => None,
    }
}

/// The names in a list of optional names.
pub open spec fn given(names: Seq<Option<Seq<char>>>) -> Seq<Seq<char>>
    decreases names.len(),
{
    if names.len() == 0 {
        Seq::empty()
    } else {
        match names.last() {
            Some(name) => given(names.drop_last()).push(name),
            None => given(names.drop_last()),
        }
    }
}

impl CatalogFilterConfig {
    /// The filters of a call with the given arguments.
    pub open spec fn resolved(&self, arguments: JsonModel) -> FiltersModel {
        FiltersModel {
            schema: filter_value(
                text_option(self.schema),
                text_option(self.schema_arg),
                arguments,
            ),
            table: filter_value(text_option(self.table), text_option(self.table_arg), arguments),
            table_type: filter_value(
                text_option(self.table_type),
                text_option(self.table_type_arg),
                arguments,
            ),
            column: filter_value(
                text_option(self.column),
                text_option(self.column_arg),
                arguments,
            ),
        }
    }

    /// The names of the arguments that the filters are taken from, in filter
    /// order.
    pub open spec fn argument_list(&self) -> Seq<Seq<char>> {
        given(
            seq![
                text_option(self.schema_arg),
                text_option(self.table_arg),
                text_option(self.table_type_arg),
                text_option(self.column_arg),
            ],
        )
    }

    /// The filters of a call with the given arguments.
    pub fn resolve(&self, arguments: &Json) -> (filters: CatalogFilters)
        ensures
            filters@ == self.resolved(arguments@),
    {
        CatalogFilters {
            schema: resolve_one(slice(&self.schema), slice(&self.schema_arg), arguments),
            table: resolve_one(slice(&self.table), slice(&self.table_arg), arguments),
            table_type: resolve_one(
                slice(&self.table_type),
                slice(&self.table_type_arg),
                arguments,
            ),
            column: resolve_one(slice(&self.column), slice(&self.column_arg), arguments),
        }
    }

    /// The distinct names of the arguments that the filters are taken from, in
    /// filter order.
    pub fn argument_names(&self) -> (names: Vec<String>)
        ensures
            name_texts(names@) == with_distinct(
                Seq::empty(),
                self.argument_list(),
                self.argument_list().len() as int,
            ),
    {
        let mut names: Vec<String> = Vec::new();
        assert(name_texts(names@) =~= Seq::<Seq<char>>::empty());
        let ghost mut seen = Seq::<Option<Seq<char>>>::empty();
        add_argument(&mut names, &self.schema_arg, Ghost(seen));
        proof {
            seen = seen.push(text_option(self.schema_arg));
        }
        add_argument(&mut names, &self.table_arg, Ghost(seen));
        proof {
            seen = seen.push(text_option(self.table_arg));
        }
        add_argument(&mut names, &self.table_type_arg, Ghost(seen));
        proof {
            seen = seen.push(text_option(self.table_type_arg));
        }
        add_argument(&mut names, &self.column_arg, Ghost(seen));
        proof {
            seen = seen.push(text_option(self.column_arg));
            assert(seen =~= seq![
                text_option(self.schema_arg),
                text_option(self.table_arg),
                text_option(self.table_type_arg),
                text_option(self.column_arg),
            ]);
        }
        names
    }
}

/// The distinct names among the given ones.
spec fn distinct_given(names: Seq<Option<Seq<char>>>) -> Seq<Seq<char>> {
    with_distinct(Seq::empty(), given(names), given(names).len() as int)
}

/// Adds one more optional name to the distinct names gathered from `seen`.
fn add_argument(
    names: &mut Vec<String>,
    name: &Option<String>,
    Ghost(seen): Ghost<Seq<Option<Seq<char>>>>,
)
    requires
        name_texts(old(names)@) == distinct_given(seen),
    ensures
        name_texts(final(names)@) == distinct_given(seen.push(text_option(*name))),
{
    let ghost more = seen.push(text_option(*name));
    assert(more.drop_last() =~= seen);
    if let Some(text) = name {
        add_distinct(names, text);
        proof {
            let before = given(seen);
            let after = given(more);
            assert(after =~= before.push(text@));
            lemma_with_distinct_prefix(before, after, before.len() as int);
        }
    }
}

/// The distinct names among the first ones depend on those alone.
proof fn lemma_with_distinct_prefix(a: Seq<Seq<char>>, b: Seq<Seq<char>>, n: int)
    requires
        n <= a.len(),
        n <= b.len(),
        forall|i: int| 0 <= i < n ==> a[i] == b[i],
    ensures
        with_distinct(Seq::empty(), a, n) == with_distinct(Seq::empty(), b, n),
    decreases n,
{
    if n > 0 {
        lemma_with_distinct_prefix(a, b, n - 1);
    }
}

/// What the read-only guard said of each statement of a configuration: nothing
/// where it let the statement pass, and its words where it refused it.
pub struct GuardVerdicts {
    pub query: Option<String>,
    pub read_query: Option<String>,
    pub list_query: Option<String>,
    /// One for each completion query, in order.
    pub completions: Vec<Option<String>>,
}

/// The first of two faults.
pub open spec fn first_fault(a: Option<Seq<char>>, b: Option<Seq<char>>) -> Option<Seq<char>> {
    if a is Some {
        a
    } else {
        b
    }
}

/// The fault of a text that holds a bare `cred://` URI.
pub open spec fn bare_cred_fault(field: Seq<char>, value: Seq<char>) -> Option<Seq<char>> {
    if occurs(value, "cred://"@) {
        Some(
            field
                + " must not contain a bare cred:// URI — use ${cred://…} (resolved at config load)"@,
        )
    } else {
        None
    }
}

/// The fault of a guarded statement that the read-only guard refuses.
pub open spec fn guard_fault(read_only: bool, verdict: Option<String>) -> Option<Seq<char>> {
    if read_only {
        text_option(verdict)
    } else {
        None
    }
}

/// The fault of the connection settings.
pub open spec fn connection_fault(spec: HanaBackendSpec) -> Option<Seq<char>> {
    if blank(spec.host@) {
        Some("host must not be empty"@)
    } else if spec.port == 0 {
        Some("port must be greater than 0"@)
    } else if blank(spec.user@) {
        Some("user must not be empty"@)
    } else if text_or_empty(spec.password).len() == 0 {
        Some("password must be set (resolve it from ${cred://…} at config load)"@)
    } else {
        bare_cred_fault("password"@, text_or_empty(spec.password))
    }
}

/// The fault of the operation: a `query` needs a statement and a `list_columns`
/// a table.
pub open spec fn operation_fault(spec: HanaBackendSpec) -> Option<Seq<char>> {
    match spec.operation {
        HanaOperation::Query => if blank(spec.query@) && unset(spec.read_query) {
            Some(
                "query must not be empty (or set `read_query` for a resource_template read binding)"@,
            )
        } else {
            None
        },
        HanaOperation::ListColumns => if unset(spec.table) && unset(spec.table_arg) {
            Some(
                "operation: list_columns requires a `table` filter or a `table_arg` (the table whose columns to list)"@,
            )
        } else {
            None
        },
        HanaOperation::ListTables => None,
    }
}

/// The fault of the bounds.
pub open spec fn bounds_fault(spec: HanaBackendSpec) -> Option<Seq<char>> {
    if spec.timeout_ms == 0 {
        Some("timeout_ms must be greater than 0"@)
    } else if spec.max_rows == 0 {
        Some("max_rows must be greater than 0"@)
    } else if spec.max_result_bytes == 0 {
        Some("max_result_bytes must be greater than 0"@)
    } else if spec.pool_max_size == 0 {
        Some("pool_max_size must be greater than 0"@)
    } else {
        None
    }
}

/// The fault of the statement of `operation: query`. The catalog operations run
/// none, and a statement that is left out needs no guard.
pub open spec fn query_fault(spec: HanaBackendSpec, verdicts: GuardVerdicts) -> Option<Seq<char>> {
    if spec.operation != HanaOperation::Query {
        None
    } else {
        first_fault(
            bare_cred_fault("query"@, spec.query@),
            guard_fault(spec.read_only && !blank(spec.query@), verdicts.query),
        )
    }
}

/// The fault of a field that only the resource surface has.
pub open spec fn surface_fault(field: Seq<char>, surface: Surface) -> Option<Seq<char>> {
    if surface == Surface::Resource {
        None
    } else {
        Some(
            field + " is only valid with `surface: resource` (this binding is `surface: "@
                + surface_token(surface) + "`)"@,
        )
    }
}

/// The fault of the static URI.
pub open spec fn uri_fault(spec: HanaBackendSpec) -> Option<Seq<char>> {
    match spec.uri {
        None => None,
        Some(uri) => first_fault(
            surface_fault("`uri`"@, spec.surface),
            if blank(uri@) {
                Some("`uri` must not be empty"@)
            } else {
                None
            },
        ),
    }
}

/// The fault of the single-row read.
pub open spec fn read_query_fault(spec: HanaBackendSpec, verdicts: GuardVerdicts) -> Option<
    Seq<char>,
> {
    match spec.read_query {
        None => None,
        Some(sql) => if blank(sql@) {
            Some("`read_query` must not be empty"@)
        } else {
            first_fault(
                surface_fault("`read_query`"@, spec.surface),
                first_fault(
                    bare_cred_fault("read_query"@, sql@),
                    guard_fault(spec.read_only, verdicts.read_query),
                ),
            )
        },
    }
}

/// The fault of the listing.
pub open spec fn listing_fault(spec: HanaBackendSpec, verdicts: GuardVerdicts) -> Option<Seq<char>> {
    match spec.list_query {
        None => None,
        Some(cfg) => first_fault(
            list_query_fault(cfg),
            first_fault(
                bare_cred_fault("list_query.sql"@, cfg.sql@),
                guard_fault(spec.read_only, verdicts.list_query),
            ),
        ),
    }
}

/// The fault of the `i`-th completion query.
pub open spec fn one_completion_fault(spec: HanaBackendSpec, verdicts: GuardVerdicts, i: int) -> Option<
    Seq<char>,
> {
    let name = spec.variable_completions@[i].0@;
    let cfg = spec.variable_completions@[i].1;
    first_fault(
        completion_fault(name, cfg),
        first_fault(
            bare_cred_fault("variable_completions."@ + name + ".sql"@, cfg.sql@),
            guard_fault(spec.read_only, verdicts.completions@[i]),
        ),
    )
}

/// The fault of the first `n` completion queries.
pub open spec fn completions_fault(spec: HanaBackendSpec, verdicts: GuardVerdicts, n: int) -> Option<
    Seq<char>,
>
    decreases n,
{
    if n <= 0 {
        None
    } else {
        first_fault(
            completions_fault(spec, verdicts, n - 1),
            one_completion_fault(spec, verdicts, n - 1),
        )
    }
}

/// The fault of the parameters. `compile_fault` is why an expression does not
/// compile, if one does not. The catalog operations take no parameters.
pub open spec fn params_fault(spec: HanaBackendSpec, compile_fault: Option<String>) -> Option<
    Seq<char>,
> {
    if spec.operation == HanaOperation::Query {
        text_option(compile_fault)
    } else {
        None
    }
}

/// Why a configuration is refused, if it is: the first fault that there is.
/// `compile_fault` is why a parameter expression does not compile, if one does
/// not.
pub open spec fn register_fault(
    spec: HanaBackendSpec,
    verdicts: GuardVerdicts,
    compile_fault: Option<String>,
) -> Option<Seq<char>> {
    first_fault(
        connection_fault(spec),
        first_fault(
            operation_fault(spec),
            first_fault(
                bounds_fault(spec),
                first_fault(
                    bare_cred_fault("host"@, spec.host@),
                    first_fault(
                        query_fault(spec, verdicts),
                        first_fault(
                            uri_fault(spec),
                            first_fault(
                                read_query_fault(spec, verdicts),
                                first_fault(
                                    listing_fault(spec, verdicts),
                                    first_fault(
                                        completions_fault(
                                            spec,
                                            verdicts,
                                            spec.variable_completions@.len() as int,
                                        ),
                                        params_fault(spec, compile_fault),
                                    ),
                                ),
                            ),
                        ),
                    ),
                ),
            ),
        ),
    )
}

/// The verdict of a check: a fault, or none.
pub open spec fn verdict_is(checked: Result<(), String>, fault: Option<Seq<char>>) -> bool {
    match checked {
        Ok(()) => fault is None,
        Err(words) => fault == Some(words@),
    }
}

/// Refuses a text that holds a bare `cred://` URI, which would be sent to HANA
/// as it stands.
pub fn reject_bare_cred(field: &str, value: &str) -> (checked: Result<(), String>)
    ensures
        verdict_is(checked, bare_cred_fault(field@, value@)),
{
    if contains(value, "cred://") {
        let mut words = field.to_owned();
        words.append(
            " must not contain a bare cred:// URI — use ${cred://…} (resolved at config load)",
        );
        return Err(words);
    }
    Ok(())
}

/// Refuses a guarded statement that the read-only guard refuses.
pub fn heed_guard(read_only: bool, verdict: &Option<String>) -> (checked: Result<(), String>)
    ensures
        verdict_is(checked, guard_fault(read_only, *verdict)),
{
    if read_only {
        if let Some(words) = verdict {
            return Err(words.clone());
        }
    }
    Ok(())
}

fn check_connection(spec: &HanaBackendSpec) -> (checked: Result<(), String>)
    ensures
        verdict_is(checked, connection_fault(*spec)),
{
    if is_blank(&spec.host) {
        return Err("host must not be empty".to_owned());
    }
    if spec.port == 0 {
        return Err("port must be greater than 0".to_owned());
    }
    if is_blank(&spec.user) {
        return Err("user must not be empty".to_owned());
    }
    if let Some(password) = &spec.password {
        if !password.as_str().is_empty() {
            return reject_bare_cred("password", password);
        }
    }
    Err("password must be set (resolve it from ${cred://…} at config load)".to_owned())
}

fn check_operation(spec: &HanaBackendSpec) -> (checked: Result<(), String>)
    ensures
        verdict_is(checked, operation_fault(*spec)),
{
    match spec.operation {
        HanaOperation::Query => {
            if is_blank(&spec.query) && is_unset(&spec.read_query) {
                return Err(
                    "query must not be empty (or set `read_query` for a resource_template read binding)".to_owned(),
                );
            }
        },
        HanaOperation::ListColumns => {
            if is_unset(&spec.table) && is_unset(&spec.table_arg) {
                return Err(
                    "operation: list_columns requires a `table` filter or a `table_arg` (the table whose columns to list)".to_owned(),
                );
            }
        },
        HanaOperation::ListTables => {},
    }
    Ok(())
}

fn check_bounds(spec: &HanaBackendSpec) -> (checked: Result<(), String>)
    ensures
        verdict_is(checked, bounds_fault(*spec)),
{
    if spec.timeout_ms == 0 {
        return Err("timeout_ms must be greater than 0".to_owned());
    }
    if spec.max_rows == 0 {
        return Err("max_rows must be greater than 0".to_owned());
    }
    if spec.max_result_bytes == 0 {
        return Err("max_result_bytes must be greater than 0".to_owned());
    }
    if spec.pool_max_size == 0 {
        return Err("pool_max_size must be greater than 0".to_owned());
    }
    Ok(())
}

fn check_query(spec: &HanaBackendSpec, verdicts: &GuardVerdicts) -> (checked: Result<(), String>)
    ensures
        verdict_is(checked, query_fault(*spec, *verdicts)),
{
    if spec.operation != HanaOperation::Query {
        return Ok(());
    }
    reject_bare_cred("query", &spec.query)?;
    heed_guard(spec.read_only && !is_blank(&spec.query), &verdicts.query)
}

fn check_surface(field: &str, surface: Surface) -> (checked: Result<(), String>)
    ensures
        verdict_is(checked, surface_fault(field@, surface)),
{
    if surface != Surface::Resource {
        let mut words = field.to_owned();
        words.append(" is only valid with `surface: resource` (this binding is `surface: ");
        words.append(surface.as_str());
        words.append("`)");
        return Err(words);
    }
    Ok(())
}

fn check_uri(spec: &HanaBackendSpec) -> (checked: Result<(), String>)
    ensures
        verdict_is(checked, uri_fault(*spec)),
{
    if let Some(uri) = &spec.uri {
        check_surface("`uri`", spec.surface)?;
        if is_blank(uri) {
            return Err("`uri` must not be empty".to_owned());
        }
    }
    Ok(())
}

fn check_read_query(spec: &HanaBackendSpec, verdicts: &GuardVerdicts) -> (checked: Result<
    (),
    String,
>)
    ensures
        verdict_is(checked, read_query_fault(*spec, *verdicts)),
{
    if let Some(sql) = &spec.read_query {
        if is_blank(sql) {
            return Err("`read_query` must not be empty".to_owned());
        }
        check_surface("`read_query`", spec.surface)?;
        reject_bare_cred("read_query", sql)?;
        heed_guard(spec.read_only, &verdicts.read_query)?;
    }
    Ok(())
}

fn check_listing(spec: &HanaBackendSpec, verdicts: &GuardVerdicts) -> (checked: Result<(), String>)
    ensures
        verdict_is(checked, listing_fault(*spec, *verdicts)),
{
    if let Some(cfg) = &spec.list_query {
        validate_list_query(cfg)?;
        reject_bare_cred("list_query.sql", &cfg.sql)?;
        heed_guard(spec.read_only, &verdicts.list_query)?;
    }
    Ok(())
}

fn check_completions(spec: &HanaBackendSpec, verdicts: &GuardVerdicts) -> (checked: Result<
    (),
    String,
>)
    requires
        verdicts.completions@.len() == spec.variable_completions@.len(),
    ensures
        verdict_is(
            checked,
            completions_fault(*spec, *verdicts, spec.variable_completions@.len() as int),
        ),
{
    let mut i: usize = 0;
    while i < spec.variable_completions.len()
        invariant
            i <= spec.variable_completions@.len(),
            verdicts.completions@.len() == spec.variable_completions@.len(),
            completions_fault(*spec, *verdicts, i as int) is None,
        decreases spec.variable_completions@.len() - i,
    {
        let checked = check_completion(spec, verdicts, i);
        if checked.is_err() {
            proof {
                lemma_completions_fault_stays(*spec, *verdicts, i + 1);
            }
            return checked;
        }
        i += 1;
    }
    Ok(())
}

fn check_completion(spec: &HanaBackendSpec, verdicts: &GuardVerdicts, i: usize) -> (checked: Result<
    (),
    String,
>)
    requires
        i < spec.variable_completions@.len(),
        verdicts.completions@.len() == spec.variable_completions@.len(),
    ensures
        verdict_is(checked, one_completion_fault(*spec, *verdicts, i as int)),
{
    let name = &spec.variable_completions[i].0;
    let cfg = &spec.variable_completions[i].1;
    validate_completion(name, cfg)?;
    let mut field = "variable_completions.".to_owned();
    field.append(name);
    field.append(".sql");
    reject_bare_cred(&field, &cfg.sql)?;
    heed_guard(spec.read_only, &verdicts.completions[i])
}

/// A fault among the first completion queries is the fault of all of them.
proof fn lemma_completions_fault_stays(spec: HanaBackendSpec, verdicts: GuardVerdicts, n: int)
    requires
        0 <= n <= spec.variable_completions@.len(),
        completions_fault(spec, verdicts, n) is Some,
    ensures
        completions_fault(spec, verdicts, spec.variable_completions@.len() as int)
            == completions_fault(spec, verdicts, n),
    decreases spec.variable_completions@.len() - n,
{
    if n < spec.variable_completions@.len() {
        lemma_completions_fault_stays(spec, verdicts, n + 1);
    }
}

/// Checks a configuration. The first fault is the one that is reported.
pub fn check_spec(
    spec: &HanaBackendSpec,
    verdicts: &GuardVerdicts,
    compile_fault: &Option<String>,
) -> (checked: Result<(), String>)
    requires
        verdicts.completions@.len() == spec.variable_completions@.len(),
    ensures
        verdict_is(checked, register_fault(*spec, *verdicts, *compile_fault)),
{
    check_connection(spec)?;
    check_operation(spec)?;
    check_bounds(spec)?;
    reject_bare_cred("host", &spec.host)?;
    check_query(spec, verdicts)?;
    check_uri(spec)?;
    check_read_query(spec, verdicts)?;
    check_listing(spec, verdicts)?;
    check_completions(spec, verdicts)?;
    if spec.operation == HanaOperation::Query {
        if let Some(words) = compile_fault {
            return Err(words.clone());
        }
    }
    Ok(())
}

/// What is kept of a registered binding.
pub struct HanaProfile {
    /// The label of the database on the envelope.
    pub database: String,
    pub operation: HanaOperation,
    pub read_only: bool,
    pub statement: String,
    /// The sources of the parameter expressions.
    pub params: Vec<String>,
    pub catalog_filters: CatalogFilterConfig,
    pub max_rows: usize,
    pub max_result_bytes: usize,
    pub timeout_ms: u64,
    pub surface: Surface,
    pub surface_uri: Option<String>,
    pub list_query: Option<ListQueryConfig>,
    pub read_query: Option<String>,
    pub variable_completions: Vec<(String, CompletionConfig)>,
}

/// The label of the database on the envelope: its name where the binding gives
/// one, else `host:port`.
pub open spec fn database_label(spec: HanaBackendSpec) -> Seq<char> {
    match spec.database {
        Some(name) => name@,
        None => spec.host@ + ":"@ + decimal_text(spec.port as nat),
    }
}

/// `profile` is what is kept of `spec`.
pub open spec fn profile_of(spec: HanaBackendSpec, profile: HanaProfile) -> bool {
    &&& profile.database@ == database_label(spec)
    &&& profile.operation == spec.operation
    &&& profile.read_only == spec.read_only
    &&& profile.statement == spec.query
    &&& profile.params == spec.params
    &&& profile.catalog_filters.schema == spec.schema
    &&& profile.catalog_filters.table == spec.table
    &&& profile.catalog_filters.table_type == spec.table_type
    &&& profile.catalog_filters.column == spec.column
    &&& profile.catalog_filters.schema_arg == spec.schema_arg
    &&& profile.catalog_filters.table_arg == spec.table_arg
    &&& profile.catalog_filters.table_type_arg == spec.table_type_arg
    &&& profile.catalog_filters.column_arg == spec.column_arg
    &&& profile.max_rows == spec.max_rows
    &&& profile.max_result_bytes == spec.max_result_bytes
    &&& profile.timeout_ms == spec.timeout_ms
    &&& profile.surface == spec.surface
    &&& profile.surface_uri == spec.uri
    &&& profile.list_query == spec.list_query
    &&& profile.read_query == spec.read_query
    &&& profile.variable_completions == spec.variable_completions
}

/// `plan` is the pool that `spec` asks for.
pub open spec fn pool_of(spec: HanaBackendSpec, plan: PoolPlan) -> bool {
    &&& manager_settings(plan.manager) == (ConnectSettings {
        host: Some(spec.host@),
        port: Some(spec.port),
        user: Some(spec.user@),
        password: text_option(spec.password),
        database: text_option(spec.database),
        tls: tls_settings(
            tls_choice(spec.use_tls, spec.tls_verify_peer, text_option(spec.tls_ca_cert)),
        ),
    })
    &&& plan.max_size == spec.pool_max_size
    &&& plan.connection_timeout_ms == spec.timeout_ms
}

/// Accepts a configuration: the profile to keep and the pool to build, or the
/// first fault.
pub fn accept_spec(
    spec: HanaBackendSpec,
    verdicts: &GuardVerdicts,
    compile_fault: &Option<String>,
) -> (accepted: Result<(HanaProfile, PoolPlan), String>)
    requires
        verdicts.completions@.len() == spec.variable_completions@.len(),
    ensures
        match accepted {
            Ok(kept) => register_fault(spec, *verdicts, *compile_fault) is None && profile_of(
                spec,
                kept.0,
            ) && pool_of(spec, kept.1),
            Err(words) => register_fault(spec, *verdicts, *compile_fault) == Some(words@),
        },
{
    check_spec(&spec, verdicts, compile_fault)?;
    let tls = resolve_tls(spec.use_tls, spec.tls_verify_peer, &spec.tls_ca_cert);
    let plan = build_pool(
        &spec.host,
        spec.port,
        &spec.user,
        slice(&spec.password),
        slice(&spec.database),
        tls,
        spec.pool_max_size,
        spec.timeout_ms,
    )?;
    let database = match spec.database {
        Some(name) => name,
        None => {
            let mut label = spec.host.clone();
            label.append(":");
            label.append(&decimal(spec.port as u128));
            label
        },
    };
    let profile = HanaProfile {
        database,
        operation: spec.operation,
        read_only: spec.read_only,
        statement: spec.query,
        params: spec.params,
        catalog_filters: CatalogFilterConfig {
            schema: spec.schema,
            table: spec.table,
            table_type: spec.table_type,
            column: spec.column,
            schema_arg: spec.schema_arg,
            table_arg: spec.table_arg,
            table_type_arg: spec.table_type_arg,
            column_arg: spec.column_arg,
        },
        max_rows: spec.max_rows,
        max_result_bytes: spec.max_result_bytes,
        timeout_ms: spec.timeout_ms,
        surface: spec.surface,
        surface_uri: spec.uri,
        list_query: spec.list_query,
        read_query: spec.read_query,
        variable_completions: spec.variable_completions,
    };
    Ok((profile, plan))
}

/// Every statement that an accepted binding may run on its own account: the
/// statement and the single-row read of a `query`, the listing and the
/// completions.
pub open spec fn runs(spec: HanaBackendSpec, sql: Seq<char>) -> bool {
    ||| spec.operation == HanaOperation::Query && !blank(spec.query@) && sql == spec.query@
    ||| spec.read_query matches Some(s) && sql == s@
    ||| spec.list_query matches Some(cfg) && sql == cfg.sql@
    ||| exists|i: int|
        0 <= i < spec.variable_completions@.len() && sql == (
        #[trigger] spec.variable_completions@[i]).1.sql@
}

/// No statement of an accepted binding holds a bare `cred://` URI, and neither
/// does its host or its password.
pub proof fn law_accepted_statements_hold_no_bare_cred(
    spec: HanaBackendSpec,
    verdicts: GuardVerdicts,
    compile_fault: Option<String>,
    sql: Seq<char>,
)
    requires
        register_fault(spec, verdicts, compile_fault) is None,
    ensures
        runs(spec, sql) ==> !occurs(sql, "cred://"@),
        !occurs(spec.host@, "cred://"@),
        !occurs(text_or_empty(spec.password), "cred://"@),
{
    if exists|i: int|
        0 <= i < spec.variable_completions@.len() && sql == (
        #[trigger] spec.variable_completions@[i]).1.sql@ {
        let i = choose|i: int|
            0 <= i < spec.variable_completions@.len() && sql == (
            #[trigger] spec.variable_completions@[i]).1.sql@;
        lemma_each_completion_passes(spec, verdicts, spec.variable_completions@.len() as int, i);
    }
}

/// Where no completion query has a fault, each of them has none.
proof fn lemma_each_completion_passes(
    spec: HanaBackendSpec,
    verdicts: GuardVerdicts,
    n: int,
    i: int,
)
    requires
        0 <= i < n,
        completions_fault(spec, verdicts, n) is None,
    ensures
        one_completion_fault(spec, verdicts, i) is None,
    decreases n,
{
    if i < n - 1 {
        lemma_each_completion_passes(spec, verdicts, n - 1, i);
    }
}

/// Every statement of an accepted read-only binding has passed the read-only
/// guard.
pub proof fn law_accepted_statements_pass_the_guard(
    spec: HanaBackendSpec,
    verdicts: GuardVerdicts,
    compile_fault: Option<String>,
)
    requires
        register_fault(spec, verdicts, compile_fault) is None,
        spec.read_only,
    ensures
        spec.operation == HanaOperation::Query && !blank(spec.query@) ==> verdicts.query is None,
        spec.read_query is Some ==> verdicts.read_query is None,
        spec.list_query is Some ==> verdicts.list_query is None,
        forall|i: int|
            0 <= i < spec.variable_completions@.len() ==> (#[trigger] verdicts.completions@[i])
                is None,
{
    assert forall|i: int| 0 <= i < spec.variable_completions@.len() implies (
    #[trigger] verdicts.completions@[i]) is None by {
        lemma_each_completion_passes(spec, verdicts, spec.variable_completions@.len() as int, i);
    }
}

/// A configuration of a catalog operation is judged without its statement and
/// its parameters, whether these compile or not, and where it has no further
/// statements also without its read-only switch.
pub proof fn law_catalog_operations_ignore_the_statement(
    spec: HanaBackendSpec,
    other: HanaBackendSpec,
    verdicts: GuardVerdicts,
    compile_fault: Option<String>,
    other_fault: Option<String>,
)
    requires
        spec.operation != HanaOperation::Query,
        other == (HanaBackendSpec {
            query: other.query,
            params: other.params,
            read_only: other.read_only,
            ..spec
        }),
        spec.read_only == other.read_only || (spec.read_query is None && spec.list_query is None
            && spec.variable_completions@.len() == 0),
    ensures
        register_fault(spec, verdicts, compile_fault) == register_fault(
            other,
            verdicts,
            other_fault,
        ),
{
    lemma_same_completions_fault(
        spec,
        other,
        verdicts,
        spec.variable_completions@.len() as int,
    );
}

/// The fault of the completion queries depends on them and on the read-only
/// switch alone.
proof fn lemma_same_completions_fault(
    spec: HanaBackendSpec,
    other: HanaBackendSpec,
    verdicts: GuardVerdicts,
    n: int,
)
    requires
        spec.variable_completions == other.variable_completions,
        n > 0 ==> spec.read_only == other.read_only,
    ensures
        completions_fault(spec, verdicts, n) == completions_fault(other, verdicts, n),
    decreases n,
{
    if n > 0 {
        lemma_same_completions_fault(spec, other, verdicts, n - 1);
    }
}

/// Every statement that a kept profile may run: its own where it is a `query`
/// and the statement is not left out, the single-row read, the listing and the
/// completions.
pub open spec fn profile_runs(profile: HanaProfile, sql: Seq<char>) -> bool {
    ||| profile.operation == HanaOperation::Query && !blank(profile.statement@) && sql
        == profile.statement@
    ||| profile.read_query matches Some(s) && sql == s@
    ||| profile.list_query matches Some(cfg) && sql == cfg.sql@
    ||| exists|i: int|
        0 <= i < profile.variable_completions@.len() && sql == (
        #[trigger] profile.variable_completions@[i]).1.sql@
}

/// What holds of every profile that is kept, where `guard` tells which
/// statements the read-only guard lets pass: its bounds are above zero, none of
/// its statements holds a bare `cred://` URI, all of them pass the guard where it
/// is read-only, and what only the resource surface has is found only there.
pub open spec fn sound_profile(profile: HanaProfile, guard: spec_fn(Seq<char>) -> bool) -> bool {
    &&& profile.timeout_ms > 0
    &&& profile.max_rows > 0
    &&& profile.max_result_bytes > 0
    &&& forall|sql: Seq<char>| #[trigger]
        profile_runs(profile, sql) ==> !occurs(sql, "cred://"@) && (profile.read_only ==> guard(
            sql,
        ))
    &&& profile.read_query is Some ==> profile.surface == Surface::Resource
    &&& profile.surface_uri is Some ==> profile.surface == Surface::Resource
}

/// `verdicts` are those of `guard` on the statements of `spec`.
pub open spec fn verdicts_of(
    guard: spec_fn(Seq<char>) -> bool,
    spec: HanaBackendSpec,
    verdicts: GuardVerdicts,
) -> bool {
    &&& verdicts.query is None ==> guard(spec.query@)
    &&& spec.read_query matches Some(sql) ==> verdicts.read_query is None ==> guard(sql@)
    &&& spec.list_query matches Some(cfg) ==> verdicts.list_query is None ==> guard(cfg.sql@)
    &&& forall|i: int|
        0 <= i < spec.variable_completions@.len() ==> (#[trigger] verdicts.completions@[i] is None
            ==> guard(spec.variable_completions@[i].1.sql@))
}

/// The profile that is kept of an accepted configuration is sound.
pub proof fn law_accepted_profiles_are_sound(
    spec: HanaBackendSpec,
    verdicts: GuardVerdicts,
    compile_fault: Option<String>,
    profile: HanaProfile,
    guard: spec_fn(Seq<char>) -> bool,
)
    requires
        register_fault(spec, verdicts, compile_fault) is None,
        profile_of(spec, profile),
        verdicts_of(guard, spec, verdicts),
    ensures
        sound_profile(profile, guard),
{
    assert forall|sql: Seq<char>| #[trigger] profile_runs(profile, sql) implies !occurs(
        sql,
        "cred://"@,
    ) && (profile.read_only ==> guard(sql)) by {
        assert(runs(spec, sql));
        law_accepted_statements_hold_no_bare_cred(spec, verdicts, compile_fault, sql);
        if profile.read_only {
            law_accepted_statements_pass_the_guard(spec, verdicts, compile_fault);
            if exists|i: int|
                0 <= i < spec.variable_completions@.len() && sql == (
                #[trigger] spec.variable_completions@[i]).1.sql@ {
                let i = choose|i: int|
                    0 <= i < spec.variable_completions@.len() && sql == (
                    #[trigger] spec.variable_completions@[i]).1.sql@;
                assert(verdicts.completions@[i] is None);
            }
        }
    }
}

/// A string argument that a filter names overrides the pinned value, and
/// nothing else in the arguments changes it.
pub proof fn law_argument_overrides_pinned_filter(
    pinned: Option<Seq<char>>,
    name: Seq<char>,
    arguments: JsonModel,
    value: Seq<char>,
)
    ensures
        member_of(arguments, name) == Some(JsonModel::Text(value)) ==> filter_value(
            pinned,
            Some(name),
            arguments,
        ) == value,
        !(member_of(arguments, name) matches Some(JsonModel::Text(_))) ==> filter_value(
            pinned,
            Some(name),
            arguments,
        ) == pinned_value(pinned),
        filter_value(pinned, None, arguments) == pinned_value(pinned),
{
}

/// A call filters by `value`: the argument that the binding names for the filter
/// is the string `value`, or the call has no such string and `value` is pinned.
pub open spec fn filters_by(
    pinned: Option<String>,
    argument: Option<String>,
    arguments: JsonModel,
    value: Seq<char>,
) -> bool {
    ||| argument matches Some(name) && member_of(arguments, name@) == Some(JsonModel::Text(value))
    ||| pinned matches Some(text) && text@ == value && (argument matches Some(name) ==> !(
    member_of(arguments, name@) matches Some(JsonModel::Text(_))))
}

/// Each filter of a call comes from its own pinned value and its own argument, and
/// a filter that neither gives is empty.
pub proof fn law_filters_come_from_their_own_settings(
    filters: CatalogFilterConfig,
    arguments: JsonModel,
    value: Seq<char>,
)
    ensures
        ({
            let resolved = filters.resolved(arguments);
            &&& filters_by(filters.schema, filters.schema_arg, arguments, value)
                ==> resolved.schema == value
            &&& filters_by(filters.table, filters.table_arg, arguments, value) ==> resolved.table
                == value
            &&& filters_by(filters.table_type, filters.table_type_arg, arguments, value)
                ==> resolved.table_type == value
            &&& filters_by(filters.column, filters.column_arg, arguments, value)
                ==> resolved.column == value
            &&& resolved.schema.len() > 0 ==> filters_by(
                filters.schema,
                filters.schema_arg,
                arguments,
                resolved.schema,
            )
            &&& resolved.table.len() > 0 ==> filters_by(
                filters.table,
                filters.table_arg,
                arguments,
                resolved.table,
            )
            &&& resolved.table_type.len() > 0 ==> filters_by(
                filters.table_type,
                filters.table_type_arg,
                arguments,
                resolved.table_type,
            )
            &&& resolved.column.len() > 0 ==> filters_by(
                filters.column,
                filters.column_arg,
                arguments,
                resolved.column,
            )
        }),
{
}

/// What is asked of every configuration: whom to connect to and as whom, with a
/// password, none of it a bare `cred://` URI, and bounds above zero.
pub open spec fn connects_within_bounds(spec: HanaBackendSpec) -> bool {
    &&& !blank(spec.host@)
    &&& !occurs(spec.host@, "cred://"@)
    &&& spec.port > 0
    &&& !blank(spec.user@)
    &&& spec.password matches Some(password)
    &&& password@.len() > 0
    &&& !occurs(password@, "cred://"@)
    &&& spec.timeout_ms > 0
    &&& spec.max_rows > 0
    &&& spec.max_result_bytes > 0
    &&& spec.pool_max_size > 0
}

/// What is asked of the operation: a `query` has a statement or a single-row read,
/// its statement holds no bare `cred://` URI and passes the guard where it is
/// there and has to, and its parameters compile; a `list_columns` has a table.
pub open spec fn operates(
    spec: HanaBackendSpec,
    verdicts: GuardVerdicts,
    compile_fault: Option<String>,
) -> bool {
    match spec.operation {
        HanaOperation::Query => {
            &&& !blank(spec.query@) || (spec.read_query matches Some(sql) && !blank(sql@))
            &&& !occurs(spec.query@, "cred://"@)
            &&& spec.read_only && !blank(spec.query@) ==> verdicts.query is None
            &&& compile_fault is None
        },
        HanaOperation::ListTables => true,
        HanaOperation::ListColumns => {
            ||| spec.table matches Some(table) && !blank(table@)
            ||| spec.table_arg matches Some(argument) && !blank(argument@)
        },
    }
}

/// What is asked of the statements besides: they stand where they belong, are not
/// empty, hold no bare `cred://` URI and pass the guard where they have to.
pub open spec fn serves(spec: HanaBackendSpec, verdicts: GuardVerdicts) -> bool {
    &&& spec.uri matches Some(uri) ==> spec.surface == Surface::Resource && !blank(uri@)
    &&& spec.read_query matches Some(sql) ==> {
        &&& spec.surface == Surface::Resource
        &&& !blank(sql@)
        &&& !occurs(sql@, "cred://"@)
        &&& spec.read_only ==> verdicts.read_query is None
    }
    &&& spec.list_query matches Some(cfg) ==> {
        &&& list_query_fault(cfg) is None
        &&& !occurs(cfg.sql@, "cred://"@)
        &&& spec.read_only ==> verdicts.list_query is None
    }
    &&& forall|i: int|
        0 <= i < spec.variable_completions@.len() ==> {
            &&& completion_fault(
                (#[trigger] spec.variable_completions@[i]).0@,
                spec.variable_completions@[i].1,
            ) is None
            &&& !occurs(spec.variable_completions@[i].1.sql@, "cred://"@)
            &&& spec.read_only ==> verdicts.completions@[i] is None
        }
}

/// A configuration is accepted exactly where it meets all that is asked of it.
pub proof fn law_configurations_are_accepted_exactly(
    spec: HanaBackendSpec,
    verdicts: GuardVerdicts,
    compile_fault: Option<String>,
)
    ensures
        register_fault(spec, verdicts, compile_fault) is None <==> connects_within_bounds(spec)
            && operates(spec, verdicts, compile_fault) && serves(spec, verdicts),
{
    let n = spec.variable_completions@.len() as int;
    if completions_fault(spec, verdicts, n) is None {
        assert forall|i: int| 0 <= i < n implies {
            &&& completion_fault(
                (#[trigger] spec.variable_completions@[i]).0@,
                spec.variable_completions@[i].1,
            ) is None
            &&& !occurs(spec.variable_completions@[i].1.sql@, "cred://"@)
            &&& spec.read_only ==> verdicts.completions@[i] is None
        } by {
            lemma_each_completion_passes(spec, verdicts, n, i);
        }
    }
    if serves(spec, verdicts) {
        lemma_all_completions_pass(spec, verdicts, n);
    }
}

proof fn lemma_all_completions_pass(spec: HanaBackendSpec, verdicts: GuardVerdicts, n: int)
    requires
        0 <= n <= spec.variable_completions@.len(),
        serves(spec, verdicts),
    ensures
        completions_fault(spec, verdicts, n) is None,
    decreases n,
{
    if n > 0 {
        lemma_all_completions_pass(spec, verdicts, n - 1);
        assert(completion_fault(
            spec.variable_completions@[n - 1].0@,
            spec.variable_completions@[n - 1].1,
        ) is None);
    }
}

/// A configuration that lacks something of its connection is refused for the first
/// thing it lacks, whatever else is wrong with it.
pub proof fn law_missing_connections_are_told_first(
    spec: HanaBackendSpec,
    verdicts: GuardVerdicts,
    compile_fault: Option<String>,
)
    ensures
        ({
            let fault = register_fault(spec, verdicts, compile_fault);
            let password = text_or_empty(spec.password);
            &&& blank(spec.host@) ==> fault == Some("host must not be empty"@)
            &&& !blank(spec.host@) ==> {
                &&& spec.port == 0 ==> fault == Some("port must be greater than 0"@)
                &&& spec.port > 0 ==> {
                    &&& blank(spec.user@) ==> fault == Some("user must not be empty"@)
                    &&& !blank(spec.user@) && password.len() == 0 ==> fault == Some(
                        "password must be set (resolve it from ${cred://…} at config load)"@,
                    )
                    &&& !blank(spec.user@) && password.len() > 0 && occurs(password, "cred://"@)
                        ==> fault == Some(
                        "password"@
                            + " must not contain a bare cred:// URI — use ${cred://…} (resolved at config load)"@,
                    )
                }
            }
        }),
{
}

/// A configuration whose connection is complete is refused next for what its
/// operation lacks, and then for the first bound that is zero, in this order.
pub proof fn law_missing_operations_and_bounds_are_told_next(
    spec: HanaBackendSpec,
    verdicts: GuardVerdicts,
    compile_fault: Option<String>,
)
    requires
        connection_fault(spec) is None,
    ensures
        ({
            let fault = register_fault(spec, verdicts, compile_fault);
            let unstated = spec.operation == HanaOperation::Query && blank(spec.query@) && unset(
                spec.read_query,
            );
            let untabled = spec.operation == HanaOperation::ListColumns && unset(spec.table)
                && unset(spec.table_arg);
            &&& unstated ==> fault == Some(
                "query must not be empty (or set `read_query` for a resource_template read binding)"@,
            )
            &&& untabled ==> fault == Some(
                "operation: list_columns requires a `table` filter or a `table_arg` (the table whose columns to list)"@,
            )
            &&& !unstated && !untabled ==> {
                &&& spec.timeout_ms == 0 ==> fault == Some("timeout_ms must be greater than 0"@)
                &&& spec.timeout_ms > 0 ==> {
                    &&& spec.max_rows == 0 ==> fault == Some("max_rows must be greater than 0"@)
                    &&& spec.max_rows > 0 ==> {
                        &&& spec.max_result_bytes == 0 ==> fault == Some(
                            "max_result_bytes must be greater than 0"@,
                        )
                        &&& spec.max_result_bytes > 0 && spec.pool_max_size == 0 ==> fault == Some(
                            "pool_max_size must be greater than 0"@,
                        )
                    }
                }
            }
        }),
{
}

/// A configuration whose connection, operation and bounds are complete is refused
/// next for its host, then for its statement, then for its URI, in the words of
/// each.
pub proof fn law_faults_of_host_and_statement_and_uri(
    spec: HanaBackendSpec,
    verdicts: GuardVerdicts,
    compile_fault: Option<String>,
)
    requires
        connection_fault(spec) is None,
        operation_fault(spec) is None,
        bounds_fault(spec) is None,
    ensures
        ({
            let fault = register_fault(spec, verdicts, compile_fault);
            let tail =
                " must not contain a bare cred:// URI — use ${cred://…} (resolved at config load)"@;
            let query = spec.operation == HanaOperation::Query;
            let refused = query && spec.read_only && !blank(spec.query@) && verdicts.query is Some;
            &&& occurs(spec.host@, "cred://"@) ==> fault == Some("host"@ + tail)
            &&& !occurs(spec.host@, "cred://"@) ==> {
                &&& query && occurs(spec.query@, "cred://"@) ==> fault == Some("query"@ + tail)
                &&& !(query && occurs(spec.query@, "cred://"@)) ==> {
                    &&& refused ==> fault == Some(verdicts.query->0@)
                    &&& !refused && spec.uri is Some ==> {
                        &&& spec.surface != Surface::Resource ==> fault == Some(
                            "`uri`"@
                                + " is only valid with `surface: resource` (this binding is `surface: "@
                                + surface_token(spec.surface) + "`)"@,
                        )
                        &&& spec.surface == Surface::Resource && blank(spec.uri->0@) ==> fault
                            == Some("`uri` must not be empty"@)
                    }
                }
            }
        }),
{
}

/// The single-row read is refused for the first of these: it is empty, it is not
/// on the resource surface, it holds a bare `cred://` URI, the guard refuses it.
pub proof fn law_faults_of_the_single_row_read(
    spec: HanaBackendSpec,
    verdicts: GuardVerdicts,
    sql: String,
)
    requires
        spec.read_query == Some(sql),
    ensures
        ({
            let fault = read_query_fault(spec, verdicts);
            &&& blank(sql@) ==> fault == Some("`read_query` must not be empty"@)
            &&& !blank(sql@) && spec.surface != Surface::Resource ==> fault == Some(
                "`read_query`"@
                    + " is only valid with `surface: resource` (this binding is `surface: "@
                    + surface_token(spec.surface) + "`)"@,
            )
            &&& !blank(sql@) && spec.surface == Surface::Resource ==> {
                &&& occurs(sql@, "cred://"@) ==> fault == Some(
                    "read_query"@
                        + " must not contain a bare cred:// URI — use ${cred://…} (resolved at config load)"@,
                )
                &&& !occurs(sql@, "cred://"@) && spec.read_only ==> fault == text_option(
                    verdicts.read_query,
                )
                &&& !occurs(sql@, "cred://"@) && !spec.read_only ==> fault is None
            }
        }),
{
}

/// A listing is refused for what is wrong with it by itself, then for a bare
/// `cred://` URI, then by the guard.
pub proof fn law_faults_of_the_listing(
    spec: HanaBackendSpec,
    verdicts: GuardVerdicts,
    cfg: ListQueryConfig,
)
    requires
        spec.list_query == Some(cfg),
    ensures
        ({
            let fault = listing_fault(spec, verdicts);
            &&& list_query_fault(cfg) is Some ==> fault == list_query_fault(cfg)
            &&& list_query_fault(cfg) is None ==> {
                &&& occurs(cfg.sql@, "cred://"@) ==> fault == Some(
                    "list_query.sql"@
                        + " must not contain a bare cred:// URI — use ${cred://…} (resolved at config load)"@,
                )
                &&& !occurs(cfg.sql@, "cred://"@) && spec.read_only ==> fault == text_option(
                    verdicts.list_query,
                )
                &&& !occurs(cfg.sql@, "cred://"@) && !spec.read_only ==> fault is None
            }
        }),
{
}

/// A completion is refused for what is wrong with it by itself, then for a bare
/// `cred://` URI, then by the guard.
pub proof fn law_faults_of_a_completion(
    spec: HanaBackendSpec,
    verdicts: GuardVerdicts,
    i: int,
)
    requires
        0 <= i < spec.variable_completions@.len(),
    ensures
        ({
            let name = spec.variable_completions@[i].0@;
            let cfg = spec.variable_completions@[i].1;
            let fault = one_completion_fault(spec, verdicts, i);
            &&& completion_fault(name, cfg) is Some ==> fault == completion_fault(name, cfg)
            &&& completion_fault(name, cfg) is None ==> {
                &&& occurs(cfg.sql@, "cred://"@) ==> fault == Some(
                    "variable_completions."@ + name + ".sql"@
                        + " must not contain a bare cred:// URI — use ${cred://…} (resolved at config load)"@,
                )
                &&& !occurs(cfg.sql@, "cred://"@) && spec.read_only ==> fault == text_option(
                    verdicts.completions@[i],
                )
                &&& !occurs(cfg.sql@, "cred://"@) && !spec.read_only ==> fault is None
            }
        }),
{
}

/// The statements are told of in order: the single-row read, the listing, the
/// completions from the first on, and last the parameters of a `query`.
pub proof fn law_faults_of_the_statements_are_told_in_order(
    spec: HanaBackendSpec,
    verdicts: GuardVerdicts,
    compile_fault: Option<String>,
    i: int,
)
    requires
        connection_fault(spec) is None,
        operation_fault(spec) is None,
        bounds_fault(spec) is None,
        !occurs(spec.host@, "cred://"@),
        query_fault(spec, verdicts) is None,
        uri_fault(spec) is None,
    ensures
        ({
            let fault = register_fault(spec, verdicts, compile_fault);
            let n = spec.variable_completions@.len() as int;
            &&& read_query_fault(spec, verdicts) is Some ==> fault == read_query_fault(
                spec,
                verdicts,
            )
            &&& read_query_fault(spec, verdicts) is None ==> {
                &&& listing_fault(spec, verdicts) is Some ==> fault == listing_fault(
                    spec,
                    verdicts,
                )
                &&& listing_fault(spec, verdicts) is None ==> {
                    &&& 0 <= i < n && one_completion_fault(spec, verdicts, i) is Some && (forall|
                        j: int,
                    |
                        0 <= j < i ==> #[trigger] one_completion_fault(spec, verdicts, j) is None)
                        ==> fault == one_completion_fault(spec, verdicts, i)
                    &&& (forall|j: int|
                        0 <= j < n ==> #[trigger] one_completion_fault(spec, verdicts, j) is None)
                        ==> {
                        &&& spec.operation == HanaOperation::Query ==> fault == text_option(
                            compile_fault,
                        )
                        &&& spec.operation != HanaOperation::Query ==> fault is None
                    }
                }
            }
        }),
{
    let n = spec.variable_completions@.len() as int;
    if 0 <= i < n && one_completion_fault(spec, verdicts, i) is Some && (forall|j: int|
        0 <= j < i ==> #[trigger] one_completion_fault(spec, verdicts, j) is None) {
        lemma_no_completion_fault(spec, verdicts, i);
        lemma_completions_fault_stays(spec, verdicts, i + 1);
    }
    if forall|j: int| 0 <= j < n ==> #[trigger] one_completion_fault(spec, verdicts, j) is None {
        lemma_no_completion_fault(spec, verdicts, n);
    }
}

proof fn lemma_no_completion_fault(spec: HanaBackendSpec, verdicts: GuardVerdicts, n: int)
    requires
        forall|j: int| 0 <= j < n ==> #[trigger] one_completion_fault(spec, verdicts, j) is None,
    ensures
        completions_fault(spec, verdicts, n) is None,
    decreases n,
{
    if n > 0 {
        lemma_no_completion_fault(spec, verdicts, n - 1);
        assert(one_completion_fault(spec, verdicts, n - 1) is None);
    }
}

/// A profile keeps what its configuration says, each setting in its own place, and
/// is labelled by its database or else by host and port.
pub proof fn law_profiles_keep_their_configuration(
    spec: HanaBackendSpec,
    profile: HanaProfile,
    name: String,
)
    requires
        profile_of(spec, profile),
    ensures
        spec.database == Some(name) ==> profile.database@ == name@,
        spec.database is None ==> profile.database@ == spec.host@ + ":"@ + decimal_text(
            spec.port as nat,
        ),
        profile.operation == spec.operation,
        profile.read_only == spec.read_only,
        profile.statement@ == spec.query@,
        profile.params@ == spec.params@,
        profile.max_rows == spec.max_rows,
        profile.max_result_bytes == spec.max_result_bytes,
        profile.timeout_ms == spec.timeout_ms,
        profile.surface == spec.surface,
        profile.surface_uri == spec.uri,
        profile.read_query == spec.read_query,
        profile.list_query == spec.list_query,
        profile.variable_completions@ == spec.variable_completions@,
{
}

/// The pool of a configuration connects to its host and port, as its user, with
/// its password and database and the TLS that its three knobs give, and is bounded
/// by its pool size and its time limit.
pub proof fn law_pools_connect_as_configured(
    spec: HanaBackendSpec,
    plan: PoolPlan,
    pem: String,
)
    requires
        pool_of(spec, plan),
    ensures
        ({
            let settings = manager_settings(plan.manager);
            &&& settings.host == Some(spec.host@)
            &&& settings.port == Some(spec.port)
            &&& settings.user == Some(spec.user@)
            &&& spec.password matches Some(password) ==> settings.password == Some(password@)
            &&& spec.database matches Some(database) ==> settings.database == Some(database@)
            &&& spec.database is None ==> settings.database is None
            &&& !spec.use_tls ==> settings.tls == TlsSettings::Off
            &&& spec.use_tls && !spec.tls_verify_peer ==> settings.tls == TlsSettings::Insecure
            &&& spec.use_tls && spec.tls_verify_peer ==> {
                &&& spec.tls_ca_cert is None ==> settings.tls == TlsSettings::Secure(
                    seq![TrustAnchor::Roots],
                )
                &&& spec.tls_ca_cert == Some(pem) && trimmed(pem@).len() == 0 ==> settings.tls
                    == TlsSettings::Secure(seq![TrustAnchor::Roots])
                &&& spec.tls_ca_cert == Some(pem) && trimmed(pem@).len() > 0 ==> settings.tls
                    == TlsSettings::Secure(seq![TrustAnchor::Pem(trimmed(pem@))])
            }
        }),
        plan.max_size == spec.pool_max_size,
        plan.connection_timeout_ms == spec.timeout_ms,
{
    law_tls_knobs(spec.tls_verify_peer, pem@, text_option(spec.tls_ca_cert));
}

/// A check passes exactly where there is no fault, and fails in the words of the
/// fault.
pub proof fn law_verdicts(words: String, fault: Option<Seq<char>>)
    ensures
        verdict_is(Ok(()), fault) <==> fault is None,
        verdict_is(Err(words), fault) <==> fault == Some(words@),
{
}

/// The arguments that the filters of a catalog operation are taken from are those
/// that the configuration names, and no others, in the order of schema, table,
/// table type and column.
pub proof fn law_filter_arguments(filters: CatalogFilterConfig, name: Seq<char>)
    ensures
        filters.argument_list().contains(name) <==> {
            ||| filters.schema_arg matches Some(argument) && argument@ == name
            ||| filters.table_arg matches Some(argument) && argument@ == name
            ||| filters.table_type_arg matches Some(argument) && argument@ == name
            ||| filters.column_arg matches Some(argument) && argument@ == name
        },
        filters.argument_list() == (match filters.schema_arg {
            Some(argument) => seq![argument@],
            None => Seq::empty(),
        }) + (match filters.table_arg {
            Some(argument) => seq![argument@],
            None => Seq::empty(),
        }) + (match filters.table_type_arg {
            Some(argument) => seq![argument@],
            None => Seq::empty(),
        }) + (match filters.column_arg {
            Some(argument) => seq![argument@],
            None => Seq::empty(),
        }),
{
    let all = seq![
        text_option(filters.schema_arg),
        text_option(filters.table_arg),
        text_option(filters.table_type_arg),
        text_option(filters.column_arg),
    ];
    lemma_given_contains(all, name);
    if filters.argument_list().contains(name) {
        let i = choose|i: int| 0 <= i < all.len() && #[trigger] all[i] == Some(name);
        assert(i == 0 || i == 1 || i == 2 || i == 3);
    }
    if filters.schema_arg matches Some(argument) && argument@ == name {
        assert(all[0] == Some(name));
    }
    if filters.table_arg matches Some(argument) && argument@ == name {
        assert(all[1] == Some(name));
    }
    if filters.table_type_arg matches Some(argument) && argument@ == name {
        assert(all[2] == Some(name));
    }
    if filters.column_arg matches Some(argument) && argument@ == name {
        assert(all[3] == Some(name));
    }
    reveal_with_fuel(given, 5);
    let three = all.drop_last();
    let two = three.drop_last();
    let one = two.drop_last();
    assert(all.last() == text_option(filters.column_arg));
    assert(three.last() == text_option(filters.table_type_arg));
    assert(two.last() == text_option(filters.table_arg));
    assert(one.last() == text_option(filters.schema_arg));
}

proof fn lemma_given_contains(names: Seq<Option<Seq<char>>>, name: Seq<char>)
    ensures
        given(names).contains(name) <==> exists|i: int|
            0 <= i < names.len() && #[trigger] names[i] == Some(name),
    decreases names.len(),
{
    if names.len() > 0 {
        let init = names.drop_last();
        lemma_given_contains(init, name);
        let found = given(names);
        let before = given(init);
        if before.contains(name) {
            let k = choose|k: int| 0 <= k < before.len() && before[k] == name;
            assert(found[k] == name);
            let i = choose|i: int| 0 <= i < init.len() && #[trigger] init[i] == Some(name);
            assert(names[i] == Some(name));
        }
        if names.last() == Some(name) {
            assert(found[found.len() - 1] == name);
            assert(names[names.len() - 1] == Some(name));
        }
        if found.contains(name) && names.last() != Some(name) {
            let k = choose|k: int| 0 <= k < found.len() && found[k] == name;
            assert(before[k] == name);
        }
        if exists|i: int| 0 <= i < names.len() && #[trigger] names[i] == Some(name) {
            let i = choose|i: int| 0 <= i < names.len() && #[trigger] names[i] == Some(name);
            if i < init.len() {
                assert(init[i] == Some(name));
            }
        }
    } else {
        assert(!given(names).contains(name));
    }
}

/// The value of a filter is the string argument that it is taken from, where the
/// call has it, whatever is pinned; else the pinned value; else nothing.
pub proof fn law_resolved_filters(
    static_value: Option<&str>,
    arg_name: Option<&str>,
    arguments: &Json,
    value: String,
    given: Seq<char>,
)
    requires
        call_ensures(resolve_one, (static_value, arg_name, arguments), value),
    ensures
        arg_name matches Some(name) ==> member_of(arguments@, name@) == Some(
            JsonModel::Text(given),
        ) ==> value@ == given,
        (arg_name matches Some(name) ==> !(member_of(arguments@, name@) matches Some(
            JsonModel::Text(_),
        ))) ==> value@ == (match static_value {
            Some(text) => text@,
            None => Seq::empty(),
        }),
{
}

/// The filters of a call are each resolved from their own pinned value and their
/// own argument.
pub proof fn law_resolved_calls(
    filters: &CatalogFilterConfig,
    arguments: &Json,
    resolved: CatalogFilters,
    value: Seq<char>,
)
    requires
        call_ensures(CatalogFilterConfig::resolve, (filters, arguments), resolved),
    ensures
        filters_by(filters.schema, filters.schema_arg, arguments@, value) ==> resolved.schema@
            == value,
        filters_by(filters.table, filters.table_arg, arguments@, value) ==> resolved.table@
            == value,
        filters_by(filters.table_type, filters.table_type_arg, arguments@, value)
            ==> resolved.table_type@ == value,
        filters_by(filters.column, filters.column_arg, arguments@, value) ==> resolved.column@
            == value,
{
    law_filters_come_from_their_own_settings(*filters, arguments@, value);
    assert(resolved@.schema == resolved.schema@);
}

/// A configuration is accepted exactly where it meets all that is asked of it, and
/// what is kept of it are its own bounds, its own statement and its own surface.
pub proof fn law_accepted_configurations_are_kept(
    spec: HanaBackendSpec,
    verdicts: &GuardVerdicts,
    compile_fault: &Option<String>,
    accepted: Result<(HanaProfile, PoolPlan), String>,
)
    requires
        call_ensures(accept_spec, (spec, verdicts, compile_fault), accepted),
    ensures
        accepted is Ok <==> connects_within_bounds(spec) && operates(
            spec,
            *verdicts,
            *compile_fault,
        ) && serves(spec, *verdicts),
        accepted matches Ok(kept) ==> {
            &&& kept.0.operation == spec.operation
            &&& kept.0.statement@ == spec.query@
            &&& kept.0.max_rows == spec.max_rows
            &&& kept.0.max_result_bytes == spec.max_result_bytes
            &&& kept.0.timeout_ms == spec.timeout_ms
            &&& kept.0.read_only == spec.read_only
            &&& kept.0.surface == spec.surface
            &&& kept.0.read_query == spec.read_query
            &&& manager_settings(kept.1.manager).host == Some(spec.host@)
            &&& manager_settings(kept.1.manager).port == Some(spec.port)
            &&& kept.1.max_size == spec.pool_max_size
            &&& kept.1.connection_timeout_ms == spec.timeout_ms
        },
{
    law_configurations_are_accepted_exactly(spec, *verdicts, *compile_fault);
}

} // verus!

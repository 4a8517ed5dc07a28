//! The watch strategy `hana_poll`: a read-only scalar query that is polled on a
//! cadence, whose value tells whether anything has changed. Here stand the
//! checks at the start of a watch, what each poll asks, and the cursor that its
//! answer gives.
use vstd::prelude::*;
use vstd::string::StringExecFns;

use crate::calls::StatementPlan;
use crate::connection::{
    build_pool, manager_settings, resolve_tls, tls_choice, tls_settings, ConnectSettings, PoolPlan,
};
use crate::json::{first_member_of, json_text, models, JsonModel};
use crate::marshal::QueryOutcome;
use crate::params::HanaBind;
use crate::plugin::{PluginClass, PluginManifest};
use crate::profile::{heed_guard, verdict_is};
use crate::surface::{scalar_text, scalar_text_of};
use crate::text::{blank, is_blank, text_option};

verus! {

/// The id of the plugin.
pub const PLUGIN_ID: &'static str = "dev.mcpg.backend.hana";

/// The kind of watch strategy that resources name.
pub const WATCH_KIND: &'static str = "hana_poll";

/// `interval_ms` where it is left out.
pub fn default_interval_ms() -> (millis: u64)
    ensures
        millis == 60_000,
{
    60_000
}

/// `timeout_ms` where it is left out.
pub fn default_timeout_ms() -> (millis: u64)
    ensures
        millis == 10_000,
{
    10_000
}

/// `tls_verify_peer` where it is left out.
pub fn default_tls_verify_peer() -> (verify: bool)
    ensures
        verify,
{
    true
}

/// `use_tls` where it is left out.
pub fn default_use_tls() -> (tls: bool)
    ensures
        tls,
{
    true
}

/// `pool_max_size` where it is left out: one polling connection.
pub fn default_pool_max_size() -> (size: u32)
    ensures
        size == 1,
{
    1
}

/// What an operator configures for one watch. A watch carries its own
/// connection.
#[derive(Debug)]
pub struct WatchSpec {
    pub host: String,
    pub port: u16,
    pub user: String,
    pub password: Option<String>,
    pub database: Option<String>,
    pub tls_verify_peer: bool,
    pub tls_ca_cert: Option<String>,
    pub use_tls: bool,
    pub pool_max_size: u32,
    /// The scalar query whose first column of its first row is the cursor.
    pub tracking_query: String,
    pub interval_ms: u64,
    pub timeout_ms: u64,
}

impl WatchSpec {
    /// The configuration that names a host, a port, a user and a query and leaves
    /// out everything else.
    pub fn new(host: String, port: u16, user: String, tracking_query: String) -> (spec: WatchSpec)
        ensures
            spec.host == host,
            spec.port == port,
            spec.user == user,
            spec.password is None,
            spec.database is None,
            spec.tls_verify_peer,
            spec.tls_ca_cert is None,
            spec.use_tls,
            spec.pool_max_size == 1,
            spec.tracking_query == tracking_query,
            spec.interval_ms == 60_000,
            spec.timeout_ms == 10_000,
    {
        WatchSpec {
            host,
            port,
            user,
            password: None,
            database: None,
            tls_verify_peer: default_tls_verify_peer(),
            tls_ca_cert: None,
            use_tls: default_use_tls(),
            pool_max_size: default_pool_max_size(),
            tracking_query,
            interval_ms: default_interval_ms(),
            timeout_ms: default_timeout_ms(),
        }
    }
}

/// Why a watch does not start.
#[derive(Debug, PartialEq)]
pub enum WatchError {
    /// The configuration is not acceptable.
    InvalidSpec { message: String },
    /// The watch could not be set up.
    Subscribe { message: String },
}

/// The watch strategy.
pub struct HanaWatchCdylib {
    manifest: PluginManifest,
}

impl HanaWatchCdylib {
    /// The manifest of the strategy.
    pub closed spec fn manifest_held(&self) -> PluginManifest {
        self.manifest
    }

    /// The strategy. It has no configuration of its own.
    pub fn from_host_config(_config_json: &str) -> (strategy: HanaWatchCdylib)
        ensures
            strategy.manifest_held().id@ == PLUGIN_ID@,
            strategy.manifest_held().name@ == "SAP HANA Poll Watch Strategy"@,
            strategy.manifest_held().plugin_class == PluginClass::WatchStrategy,
    {
        HanaWatchCdylib {
            manifest: PluginManifest {
                id: PLUGIN_ID.to_owned(),
                name: "SAP HANA Poll Watch Strategy".to_owned(),
                plugin_class: PluginClass::WatchStrategy,
            },
        }
    }

    /// How the strategy presents itself.
    pub fn manifest(&self) -> (manifest: &PluginManifest)
        ensures
            *manifest == self.manifest_held(),
    {
        &self.manifest
    }

    /// The kind of watch strategy that resources name.
    pub fn kind(&self) -> (kind: &'static str)
        ensures
            kind@ == WATCH_KIND@,
    {
        WATCH_KIND
    }
}

/// Why the configuration of a watch is refused, if it is. `verdict` is what the
/// read-only guard says of the query.
pub open spec fn watch_fault(spec: WatchSpec, verdict: Option<String>) -> Option<Seq<char>> {
    if blank(spec.host@) {
        Some("host must not be empty"@)
    } else if spec.port == 0 {
        Some("port must be greater than 0"@)
    } else if blank(spec.user@) {
        Some("user must not be empty"@)
    } else if blank(spec.tracking_query@) {
        Some("tracking_query must not be empty"@)
    } else {
        text_option(verdict)
    }
}

/// Checks the configuration of a watch.
pub fn check_watch(spec: &WatchSpec, verdict: &Option<String>) -> (checked: Result<(), String>)
    ensures
        verdict_is(checked, watch_fault(*spec, *verdict)),
{
    if is_blank(&spec.host) {
        return Err("host must not be empty".to_owned());
    }
    if spec.port == 0 {
        return Err("port must be greater than 0".to_owned());
    }
    if is_blank(&spec.user) {
        return Err("user must not be empty".to_owned());
    }
    if is_blank(&spec.tracking_query) {
        return Err("tracking_query must not be empty".to_owned());
    }
    heed_guard(true, verdict)
}

/// A watch that is ready to start: the pool to build, what each poll asks, and
/// how often.
pub struct WatchPlan {
    pub pool: PoolPlan,
    pub poll: StatementPlan,
    pub interval_ms: u64,
}

/// `plan` is the watch that `spec` asks for: one row of the query as it stands,
/// with nothing bound.
pub open spec fn watch_plan_of(spec: WatchSpec, plan: WatchPlan) -> bool {
    &&& manager_settings(plan.pool.manager) == (ConnectSettings {
        host: Some(spec.host@),
        port: Some(spec.port),
        user: Some(spec.user@),
        password: text_option(spec.password),
        database: text_option(spec.database),
        tls: tls_settings(
            tls_choice(spec.use_tls, spec.tls_verify_peer, text_option(spec.tls_ca_cert)),
        ),
    })
    &&& plan.pool.max_size == if spec.pool_max_size == 0 {
        1
    } else {
        spec.pool_max_size
    }
    &&& plan.pool.connection_timeout_ms == spec.timeout_ms
    &&& plan.poll.sql == spec.tracking_query
    &&& plan.poll.binds@.len() == 0
    &&& plan.poll.max_rows == 1
    &&& plan.poll.max_result_bytes == usize::MAX
    &&& plan.poll.timeout_ms == spec.timeout_ms
    &&& !plan.poll.guarded
    &&& plan.interval_ms == spec.interval_ms
}

/// Plans a watch, or says why it does not start. `verdict` is what the read-only
/// guard says of the query.
pub fn plan_watch(spec: WatchSpec, verdict: &Option<String>) -> (plan: Result<
    WatchPlan,
    WatchError,
>)
    ensures
        match plan {
            Ok(p) => {
                &&& watch_fault(spec, *verdict) is None
                &&& spec.password is Some
                &&& watch_plan_of(spec, p)
            },
            Err(WatchError::InvalidSpec { message }) => watch_fault(spec, *verdict) == Some(
                message@,
            ),
            Err(WatchError::Subscribe { message }) => {
                &&& watch_fault(spec, *verdict) is None
                &&& spec.password is None
                &&& message@
                    == "HANA connect-params build failed: Wrong usage: password is missing"@
            },
        },
{
    if let Err(message) = check_watch(&spec, verdict) {
        return Err(WatchError::InvalidSpec { message });
    }
    let tls = resolve_tls(spec.use_tls, spec.tls_verify_peer, &spec.tls_ca_cert);
    let password = match &spec.password {
        Some(text) => Some(text.as_str()),
        None => None,
    };
    let database = match &spec.database {
        Some(text) => Some(text.as_str()),
        None => None,
    };
    let built = build_pool(
        &spec.host,
        spec.port,
        &spec.user,
        password,
        database,
        tls,
        spec.pool_max_size,
        spec.timeout_ms,
    );
    let pool = match built {
        Ok(pool) => pool,
        Err(message) => return Err(WatchError::Subscribe { message }),
    };
    let binds: Vec<HanaBind> = Vec::new();
    let poll = StatementPlan {
        sql: spec.tracking_query,
        binds,
        max_rows: 1,
        max_result_bytes: usize::MAX,
        timeout_ms: spec.timeout_ms,
        guarded: false,
    };
    Ok(WatchPlan { pool, poll, interval_ms: spec.interval_ms })
}

/// The first value of the first row, where there is one.
pub open spec fn cursor_scalar(rows: Seq<JsonModel>) -> Option<JsonModel> {
    if rows.len() == 0 {
        None
    } else {
        match first_member_of(rows[0]) {
            Some(member) => Some(member.1),
            None => None,
        }
    }
}

/// The cursor that the rows of a poll give: the plain text of the first value of
/// the first row. No row, no column and NULL give none.
pub open spec fn cursor_of(rows: Seq<JsonModel>) -> Option<Seq<char>> {
    match cursor_scalar(rows) {
        Some(value) => scalar_text(value),
        None => None,
    }
}

/// The cursor that a poll gives.
pub fn cursor_from_outcome(outcome: &QueryOutcome) -> (cursor: Option<String>)
    ensures
        text_option(cursor) == cursor_of(models(outcome.rows@)),
{
    if outcome.rows.len() == 0 {
        return None;
    }
    match outcome.rows[0].first_member() {
        Some(member) => scalar_text_of(member.1),
        None => None,
    }
}

/// The words of a poll that ran out of time.
pub fn poll_timed_out() -> (message: String)
    ensures
        message@ == "hana_poll: tracking query timed out"@,
{
    "hana_poll: tracking query timed out".to_owned()
}

/// The refusal of a configuration that could not be read.
pub fn unreadable_watch(reason: &str) -> (error: WatchError)
    ensures
        error matches WatchError::InvalidSpec { message } && message@
            == "invalid hana_poll watch spec: "@ + reason@,
{
    let mut message = "invalid hana_poll watch spec: ".to_owned();
    message.append(reason);
    WatchError::InvalidSpec { message }
}

/// The failure of a watch that has no runtime to poll on.
pub fn no_runtime(reason: &str) -> (error: WatchError)
    ensures
        error matches WatchError::Subscribe { message } && message@
            == "hana_poll: tokio runtime init failed: "@ + reason@,
{
    let mut message = "hana_poll: tokio runtime init failed: ".to_owned();
    message.append(reason);
    WatchError::Subscribe { message }
}

/// A watch never starts on a query that the read-only guard refuses.
pub proof fn law_watch_is_read_only(spec: WatchSpec, verdict: Option<String>)
    requires
        verdict is Some,
    ensures
        watch_fault(spec, verdict) is Some,
{
}

/// A watch starts exactly where it has a host, a port, a user and a query that the
/// read-only guard lets pass. What is missing first is what is told.
pub proof fn law_watches_pass_exactly(spec: WatchSpec, verdict: Option<String>)
    ensures
        watch_fault(spec, verdict) is None <==> {
            &&& !blank(spec.host@)
            &&& spec.port > 0
            &&& !blank(spec.user@)
            &&& !blank(spec.tracking_query@)
            &&& verdict is None
        },
        blank(spec.host@) ==> watch_fault(spec, verdict) == Some("host must not be empty"@),
        !blank(spec.host@) && spec.port == 0 ==> watch_fault(spec, verdict) == Some(
            "port must be greater than 0"@,
        ),
        !blank(spec.host@) && spec.port > 0 && blank(spec.user@) ==> watch_fault(spec, verdict)
            == Some("user must not be empty"@),
        !blank(spec.host@) && spec.port > 0 && !blank(spec.user@) && blank(spec.tracking_query@)
            ==> watch_fault(spec, verdict) == Some("tracking_query must not be empty"@),
        !blank(spec.host@) && spec.port > 0 && !blank(spec.user@) && !blank(spec.tracking_query@)
            ==> (verdict matches Some(words) ==> watch_fault(spec, verdict) == Some(words@)),
{
}

/// A watch connects as its configuration says, polls its query as it stands for
/// one row with nothing bound, within the time and at the interval that the
/// configuration gives.
pub proof fn law_watches_poll_their_query(spec: WatchSpec, plan: WatchPlan)
    requires
        watch_plan_of(spec, plan),
    ensures
        plan.poll.sql@ == spec.tracking_query@,
        plan.poll.binds@.len() == 0,
        plan.poll.max_rows == 1,
        plan.poll.max_result_bytes == usize::MAX,
        plan.poll.timeout_ms == spec.timeout_ms,
        plan.interval_ms == spec.interval_ms,
        plan.pool.connection_timeout_ms == spec.timeout_ms,
        spec.pool_max_size > 0 ==> plan.pool.max_size == spec.pool_max_size,
        spec.pool_max_size == 0 ==> plan.pool.max_size == 1,
        manager_settings(plan.pool.manager).host == Some(spec.host@),
        manager_settings(plan.pool.manager).port == Some(spec.port),
        manager_settings(plan.pool.manager).user == Some(spec.user@),
        manager_settings(plan.pool.manager).password == text_option(spec.password),
        manager_settings(plan.pool.manager).database == text_option(spec.database),
        manager_settings(plan.pool.manager).tls is Off <==> !spec.use_tls,
        manager_settings(plan.pool.manager).tls is Insecure <==> spec.use_tls
            && !spec.tls_verify_peer,
{
}

/// The cursor of a poll is the first value of the first row: the string itself,
/// the JSON text of any other value, and none for `null`. Without a row, or with a
/// first row that has no column, there is none.
pub proof fn law_cursors_are_the_first_value(rows: Seq<JsonModel>)
    ensures
        rows.len() == 0 ==> cursor_of(rows) is None,
        rows.len() > 0 ==> (rows[0] matches JsonModel::Object(members) ==> members.len() > 0
            ==> cursor_of(rows) == match members[0].1 {
            JsonModel::Text(text) => Some(text),
            JsonModel::Null => None,
            _ => Some(json_text(members[0].1)),
        }),
        rows.len() > 0 ==> (rows[0] matches JsonModel::Object(members) ==> members.len() == 0
            ==> cursor_of(rows) is None),
        rows.len() > 0 ==> !(rows[0] is Object) ==> cursor_of(rows) is None,
{
}

/// A watch is planned exactly where its configuration passes and it has a
/// password, and polls the query of the configuration.
pub proof fn law_planned_watches(
    spec: WatchSpec,
    verdict: &Option<String>,
    plan: Result<WatchPlan, WatchError>,
)
    requires
        call_ensures(plan_watch, (spec, verdict), plan),
    ensures
        plan is Ok <==> {
            &&& !blank(spec.host@)
            &&& spec.port > 0
            &&& !blank(spec.user@)
            &&& !blank(spec.tracking_query@)
            &&& verdict is None
            &&& spec.password is Some
        },
        plan matches Ok(watch) ==> {
            &&& watch.poll.sql@ == spec.tracking_query@
            &&& watch.poll.binds@.len() == 0
            &&& watch.poll.max_rows == 1
            &&& watch.poll.timeout_ms == spec.timeout_ms
            &&& watch.interval_ms == spec.interval_ms
            &&& manager_settings(watch.pool.manager).host == Some(spec.host@)
            &&& manager_settings(watch.pool.manager).port == Some(spec.port)
            &&& manager_settings(watch.pool.manager).user == Some(spec.user@)
        },
{
    law_watches_pass_exactly(spec, *verdict);
}

/// The cursor of a poll is the plain text of the first value of its first row.
pub proof fn law_polled_cursors(
    outcome: &QueryOutcome,
    cursor: Option<String>,
    members: Seq<(Seq<char>, JsonModel)>,
)
    requires
        call_ensures(cursor_from_outcome, (outcome,), cursor),
    ensures
        outcome.rows@.len() == 0 ==> cursor is None,
        outcome.rows@.len() > 0 && outcome.rows@[0]@ == JsonModel::Object(members) && members.len()
            > 0 ==> text_option(cursor) == match members[0].1 {
            JsonModel::Text(text) => Some(text),
            JsonModel::Null => None,
            _ => Some(json_text(members[0].1)),
        },
{
    law_cursors_are_the_first_value(models(outcome.rows@));
    if outcome.rows@.len() > 0 {
        assert(models(outcome.rows@)[0] == outcome.rows@[0]@);
    }
}

/// A watch that names only whom to connect to and what to poll leaves TLS and
/// verification on, polls over one connection once a minute and waits ten seconds.
pub proof fn law_new_watches(
    host: String,
    port: u16,
    user: String,
    tracking_query: String,
    spec: WatchSpec,
)
    requires
        call_ensures(WatchSpec::new, (host, port, user, tracking_query), spec),
    ensures
        spec.host@ == host@,
        spec.port == port,
        spec.user@ == user@,
        spec.tracking_query@ == tracking_query@,
        spec.use_tls && spec.tls_verify_peer,
        spec.pool_max_size == 1,
        spec.interval_ms == 60_000,
        spec.timeout_ms == 10_000,
{
}

} // verus!

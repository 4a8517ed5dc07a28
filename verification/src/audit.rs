//! What a call leaves in the audit log.
use vstd::prelude::*;
use vstd::string::StringExecFns;

use crate::calls::{call_report, failure_report, CallContext};
use crate::json::{
    distinct_names, lemma_lookup_absent, lemma_lookup_distinct, lookup, member_models, member_of,
    members, put, Json, JsonModel, NumberModel,
};
use crate::marshal::QueryOutcome;
use crate::surface::Surface;
use crate::text::{decimal, decimal_text, same_text, text_option};

verus! {

/// The audit action of an outcome label; an outcome that is no failure of HANA
/// or of the request has none.
pub open spec fn audit_action(label: Seq<char>) -> Option<Seq<char>> {
    if label == "timeout"@ {
        Some("dev.mcpg.backend.hana.request_timeout"@)
    } else if label == "transport_error"@ {
        Some("dev.mcpg.backend.hana.request_failed"@)
    } else if label == "hana_error"@ {
        Some("dev.mcpg.backend.hana.query_rejected"@)
    } else if label == "invalid_spec"@ {
        Some("dev.mcpg.backend.hana.request_failed"@)
    } else {
        None
    }
}

/// The audit action of an outcome label.
pub fn audit_action_for_outcome(label: &str) -> (action: Option<&'static str>)
    ensures
        match action {
            Some(a) => audit_action(label@) == Some(a@),
            None => audit_action(label@) is None,
        },
{
    if same_text(label, "timeout") {
        Some("dev.mcpg.backend.hana.request_timeout")
    } else if same_text(label, "transport_error") {
        Some("dev.mcpg.backend.hana.request_failed")
    } else if same_text(label, "hana_error") {
        Some("dev.mcpg.backend.hana.query_rejected")
    } else if same_text(label, "invalid_spec") {
        Some("dev.mcpg.backend.hana.request_failed")
    } else {
        None
    }
}

/// Who made a call.
#[derive(Debug, PartialEq)]
pub struct PluginIdentity {
    pub kind: String,
    pub trust_level: String,
    pub subject_id: Option<String>,
    pub auth_provider: Option<String>,
    pub issuer: Option<String>,
    pub roles: Vec<String>,
    pub groups: Vec<String>,
    pub scopes: Vec<String>,
}

/// The identity under which the plugin itself acts.
pub open spec fn system_identity(identity: PluginIdentity) -> bool {
    &&& identity.kind@ == "system"@
    &&& identity.trust_level@ == "verified"@
    &&& text_option(identity.subject_id) == Some("dev.mcpg.backend.hana"@)
    &&& identity.auth_provider is None
    &&& identity.issuer is None
    &&& identity.roles@.len() == 0
    &&& identity.groups@.len() == 0
    &&& identity.scopes@.len() == 0
}

/// The identity under which the plugin itself acts.
pub fn synthetic_system_identity() -> (identity: PluginIdentity)
    ensures
        system_identity(identity),
{
    PluginIdentity {
        kind: "system".to_owned(),
        trust_level: "verified".to_owned(),
        subject_id: Some("dev.mcpg.backend.hana".to_owned()),
        auth_provider: None,
        issuer: None,
        roles: Vec::new(),
        groups: Vec::new(),
        scopes: Vec::new(),
    }
}

/// A finished call, as the audit log sees it.
pub struct FinishedCall<'a> {
    pub backend_name: &'a str,
    pub label: &'a str,
    pub reason: Option<&'a str>,
    pub request_id: &'a str,
    pub alias: &'a str,
    pub duration_ms: u128,
    pub duration_ns: u128,
}

/// An entry of the audit log. Every entry tells of a failure.
#[derive(Debug, PartialEq)]
pub struct AuditRecord {
    pub event_id: String,
    /// Who made the call; the plugin itself where the caller is not known.
    pub actor: PluginIdentity,
    pub action: String,
    pub resource: String,
    pub request_id: String,
    pub details: Json,
}

/// The details of an entry.
pub open spec fn audit_details(call: FinishedCall) -> JsonModel {
    let plain = seq![
        ("backend"@, JsonModel::Text(call.backend_name@)),
        (
            "duration_ms"@,
            JsonModel::Number(NumberModel::Integer(call.duration_ms as u64 as int)),
        ),
        ("outcome"@, JsonModel::Text(call.label@)),
        ("alias"@, JsonModel::Text(call.alias@)),
    ];
    JsonModel::Object(
        match call.reason {
            Some(words) => plain.push(("reason"@, JsonModel::Text(words@))),
            None => plain,
        },
    )
}

/// The entry of a finished call, where it leaves one.
pub fn audit_record(call: &FinishedCall, identity: Option<PluginIdentity>) -> (record: Option<
    AuditRecord,
>)
    ensures
        match record {
            None => audit_action(call.label@) is None,
            Some(r) => {
                &&& audit_action(call.label@) == Some(r.action@)
                &&& r.event_id@ == "hana-"@ + call.request_id@ + "-"@ + decimal_text(
                    call.duration_ns as nat,
                )
                &&& r.resource@ == "hana-binding://"@ + call.backend_name@
                &&& r.request_id@ == call.request_id@
                &&& r.details@ == audit_details(*call)
                &&& match identity {
                    Some(known) => r.actor == known,
                    None => system_identity(r.actor),
                }
            },
        },
{
    let action = match audit_action_for_outcome(call.label) {
        Some(action) => action,
        None => return None,
    };
    let actor = match identity {
        Some(known) => known,
        None => synthetic_system_identity(),
    };
    let mut details = members();
    put(&mut details, "backend", Json::text(call.backend_name));
    put(&mut details, "duration_ms", Json::count(call.duration_ms as u64));
    put(&mut details, "outcome", Json::text(call.label));
    put(&mut details, "alias", Json::text(call.alias));
    if let Some(words) = call.reason {
        put(&mut details, "reason", Json::text(words));
    }
    assert(member_models(details@) =~= audit_details(*call)->Object_0);
    let mut event_id = "hana-".to_owned();
    event_id.append(call.request_id);
    event_id.append("-");
    event_id.append(&decimal(call.duration_ns));
    let mut resource = "hana-binding://".to_owned();
    resource.append(call.backend_name);
    Some(
        AuditRecord {
            event_id,
            actor,
            action: action.to_owned(),
            resource,
            request_id: call.request_id.to_owned(),
            details: Json::object(details),
        },
    )
}

/// Whatever a call comes to, it is audited exactly where its report gives a
/// reason, and one whose parameters could not be bound always is.
pub proof fn law_failures_are_audited(
    context: CallContext,
    surface: Surface,
    surface_uri: Option<Seq<char>>,
    arguments: JsonModel,
    outcome: Result<QueryOutcome, String>,
    message: Seq<char>,
)
    ensures
        audit_action(call_report(context, surface, surface_uri, arguments, outcome).label) is Some
            <==> call_report(context, surface, surface_uri, arguments, outcome).reason is Some,
        audit_action(failure_report(context, message, "invalid_spec"@).label) is Some,
{
    reveal_strlit("ok");
    reveal_strlit("timeout");
    reveal_strlit("transport_error");
    reveal_strlit("hana_error");
    reveal_strlit("invalid_spec");
    assert("ok"@.len() == 2);
}

/// Timeouts, rejections by HANA and other failures of a request each have their
/// own action, and no other outcome has one.
pub proof fn law_audit_actions(label: Seq<char>)
    ensures
        audit_action("timeout"@) == Some("dev.mcpg.backend.hana.request_timeout"@),
        audit_action("transport_error"@) == Some("dev.mcpg.backend.hana.request_failed"@),
        audit_action("hana_error"@) == Some("dev.mcpg.backend.hana.query_rejected"@),
        audit_action("invalid_spec"@) == Some("dev.mcpg.backend.hana.request_failed"@),
        label != "timeout"@ && label != "transport_error"@ && label != "hana_error"@ && label
            != "invalid_spec"@ ==> audit_action(label) is None,
{
    reveal_strlit("timeout");
    reveal_strlit("transport_error");
    reveal_strlit("hana_error");
    reveal_strlit("invalid_spec");
    assert("timeout"@.len() == 7 && "transport_error"@.len() == 15);
    assert("hana_error"@.len() == 10 && "invalid_spec"@.len() == 12);
}

/// The details of a call without a reason, by their names.
proof fn lemma_plain_detail_names(all: Seq<(Seq<char>, JsonModel)>)
    requires
        all.len() == 4,
        all[0].0 == "backend"@,
        all[1].0 == "duration_ms"@,
        all[2].0 == "outcome"@,
        all[3].0 == "alias"@,
    ensures
        distinct_names(all),
        lookup(all, "backend"@) == Some(all[0].1),
        lookup(all, "duration_ms"@) == Some(all[1].1),
        lookup(all, "outcome"@) == Some(all[2].1),
        lookup(all, "alias"@) == Some(all[3].1),
{
    reveal_strlit("backend");
    reveal_strlit("duration_ms");
    reveal_strlit("outcome");
    reveal_strlit("alias");
    assert(all[0].0.len() == 7 && all[1].0.len() == 11 && all[2].0.len() == 7);
    assert(all[3].0.len() == 5);
    assert(all[0].0[0] != all[2].0[0]);
    assert forall|i: int, j: int| 0 <= i < j < all.len() implies (#[trigger] all[i]).0 != (
    #[trigger] all[j]).0 by {
        assert(i == 0 || i == 1 || i == 2 || i == 3);
        assert(j == 0 || j == 1 || j == 2 || j == 3);
    }
    lemma_lookup_distinct(all, 0);
    lemma_lookup_distinct(all, 1);
    lemma_lookup_distinct(all, 2);
    lemma_lookup_distinct(all, 3);
}

/// The details of a call with a reason, by their names.
proof fn lemma_detail_names(all: Seq<(Seq<char>, JsonModel)>)
    requires
        all.len() == 5,
        all[0].0 == "backend"@,
        all[1].0 == "duration_ms"@,
        all[2].0 == "outcome"@,
        all[3].0 == "alias"@,
        all[4].0 == "reason"@,
    ensures
        distinct_names(all),
        lookup(all, "backend"@) == Some(all[0].1),
        lookup(all, "duration_ms"@) == Some(all[1].1),
        lookup(all, "outcome"@) == Some(all[2].1),
        lookup(all, "alias"@) == Some(all[3].1),
        lookup(all, "reason"@) == Some(all[4].1),
{
    reveal_strlit("backend");
    reveal_strlit("duration_ms");
    reveal_strlit("outcome");
    reveal_strlit("alias");
    reveal_strlit("reason");
    assert(all[0].0.len() == 7 && all[1].0.len() == 11 && all[2].0.len() == 7);
    assert(all[3].0.len() == 5 && all[4].0.len() == 6);
    assert(all[0].0[0] != all[2].0[0]);
    assert forall|i: int, j: int| 0 <= i < j < all.len() implies (#[trigger] all[i]).0 != (
    #[trigger] all[j]).0 by {
        assert(i == 0 || i == 1 || i == 2 || i == 3 || i == 4);
        assert(j == 0 || j == 1 || j == 2 || j == 3 || j == 4);
    }
    lemma_lookup_distinct(all, 0);
    lemma_lookup_distinct(all, 1);
    lemma_lookup_distinct(all, 2);
    lemma_lookup_distinct(all, 3);
    lemma_lookup_distinct(all, 4);
}

/// The details of an entry tell the binding, the time, the outcome and the alias
/// of the call, and the reason where there is one.
pub proof fn law_audit_details(call: FinishedCall)
    ensures
        ({
            let details = audit_details(call);
            &&& member_of(details, "backend"@) == Some(JsonModel::Text(call.backend_name@))
            &&& call.duration_ms <= u64::MAX ==> member_of(details, "duration_ms"@) == Some(
                JsonModel::Number(NumberModel::Integer(call.duration_ms as int)),
            )
            &&& member_of(details, "outcome"@) == Some(JsonModel::Text(call.label@))
            &&& member_of(details, "alias"@) == Some(JsonModel::Text(call.alias@))
            &&& call.reason matches Some(words) ==> member_of(details, "reason"@) == Some(
                JsonModel::Text(words@),
            )
            &&& call.reason is None ==> member_of(details, "reason"@) is None
        }),
{
    let details = audit_details(call)->Object_0;
    if call.reason is Some {
        lemma_detail_names(details);
    } else {
        lemma_plain_detail_names(details);
        reveal_strlit("backend");
        reveal_strlit("duration_ms");
        reveal_strlit("outcome");
        reveal_strlit("alias");
        reveal_strlit("reason");
        assert("reason"@.len() == 6);
        assert forall|j: int| 0 <= j < details.len() implies (#[trigger] details[j]).0
            != "reason"@ by {
            assert(j == 0 || j == 1 || j == 2 || j == 3);
        }
        lemma_lookup_absent(details, "reason"@);
    }
}

/// The plugin acts as a verified system identity of its own, without roles,
/// groups or scopes.
pub proof fn law_system_identity(identity: PluginIdentity)
    requires
        system_identity(identity),
    ensures
        identity.kind@ == "system"@,
        identity.trust_level@ == "verified"@,
        identity.subject_id matches Some(subject) && subject@ == "dev.mcpg.backend.hana"@,
        identity.auth_provider is None,
        identity.issuer is None,
        identity.roles@.len() == 0 && identity.groups@.len() == 0 && identity.scopes@.len() == 0,
{
}

/// A call leaves an entry exactly where its label has an action. The entry tells
/// whose call it was, under which request, of which binding and how it ended.
pub proof fn law_audit_records_tell_the_call(
    call: &FinishedCall,
    identity: Option<PluginIdentity>,
    record: Option<AuditRecord>,
)
    requires
        call_ensures(audit_record, (call, identity), record),
    ensures
        record is Some <==> call.label@ == "timeout"@ || call.label@ == "transport_error"@
            || call.label@ == "hana_error"@ || call.label@ == "invalid_spec"@,
        record matches Some(r) ==> {
            &&& r.request_id@ == call.request_id@
            &&& r.resource@ == "hana-binding://"@ + call.backend_name@
            &&& r.event_id@ == "hana-"@ + call.request_id@ + "-"@ + decimal_text(
                call.duration_ns as nat,
            )
            &&& call.label@ == "timeout"@ ==> r.action@
                == "dev.mcpg.backend.hana.request_timeout"@
            &&& call.label@ == "hana_error"@ ==> r.action@
                == "dev.mcpg.backend.hana.query_rejected"@
            &&& call.label@ == "transport_error"@ || call.label@ == "invalid_spec"@ ==> r.action@
                == "dev.mcpg.backend.hana.request_failed"@
            &&& identity matches Some(known) ==> r.actor == known
            &&& identity is None ==> r.actor.kind@ == "system"@
            &&& member_of(r.details@, "backend"@) == Some(JsonModel::Text(call.backend_name@))
            &&& member_of(r.details@, "outcome"@) == Some(JsonModel::Text(call.label@))
            &&& member_of(r.details@, "alias"@) == Some(JsonModel::Text(call.alias@))
            &&& call.reason matches Some(words) ==> member_of(r.details@, "reason"@) == Some(
                JsonModel::Text(words@),
            )
        },
{
    law_audit_actions(call.label@);
    law_audit_details(*call);
}

} // verus!

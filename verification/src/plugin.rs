//! The backend plugin of kind `hana`: the bindings that are registered, and what
//! the gateway may ask of each.
use vstd::prelude::*;
use vstd::string::StringExecFns;

use crate::calls::{call_arguments, parse_arguments, tool_name, tool_of, BackendError};
use crate::connection::PoolPlan;
use crate::engine::{
    columns_sql, joined, law_list_columns_text, law_list_tables_text, tables_sql, FiltersModel,
};
use crate::envelope::{
    any_json, catalog_envelope_schema, columns_columns, envelope_schema_json,
    law_envelope_schema_types, law_open_objects_have_the_named_properties,
    law_response_schema_types, list_columns_columns, list_tables_columns, open_object_json,
    open_object_schema, property, result_envelope_schema, tables_columns,
};
use crate::json::{member_of, members, put, serde_read, Json, JsonModel};
use crate::params::{
    argument_idents, arguments_referenced_by_params, law_referenced_arguments, law_with_distinct,
    referenced_arguments, refers_to, with_distinct,
};
use crate::profile::{
    accept_spec, law_accepted_profiles_are_sound, law_filter_arguments, pool_of, profile_of,
    register_fault, sound_profile, verdicts_of, GuardVerdicts, HanaProfile,
};
use crate::text::{name_texts, same_text};
use crate::types::{HanaBackendSpec, HanaOperation};

verus! {

/// What a plugin is to the gateway.
#[derive(Debug, Clone, Copy, PartialEq, Eq, Structural)]
pub enum PluginClass {
    /// Answers calls.
    Backend,
    /// Tells of changes.
    WatchStrategy,
}

/// How a plugin presents itself.
#[derive(Debug, PartialEq)]
pub struct PluginManifest {
    pub id: String,
    pub name: String,
    pub plugin_class: PluginClass,
}

/// The profile that is registered under a name.
pub open spec fn profile_named(
    profiles: Seq<(String, HanaProfile)>,
    name: Seq<char>,
) -> Option<HanaProfile>
    decreases profiles.len(),
{
    if profiles.len() == 0 {
        None
    } else if profiles.first().0@ == name {
        Some(profiles.first().1)
    } else {
        profile_named(profiles.drop_first(), name)
    }
}

/// The plugin and the bindings that are registered with it.
pub struct HanaBackendPlugin {
    manifest: PluginManifest,
    profiles: Vec<(String, HanaProfile)>,
}

impl Default for HanaBackendPlugin {
    fn default() -> (plugin: Self)
        ensures
            forall|name: Seq<char>| #[trigger] plugin.registered(name) is None,
            plugin.manifest_held().id@ == "dev.mcpg.backend.hana"@,
            plugin.manifest_held().name@ == "SAP HANA Binding"@,
            plugin.manifest_held().plugin_class == PluginClass::Backend,
    {
        HanaBackendPlugin::new()
    }
}

/// One registration: the name, the configuration, what the read-only guard says
/// of its statements, and why a parameter expression does not compile, if one
/// does not.
pub struct Registration {
    pub name: Seq<char>,
    pub spec: HanaBackendSpec,
    pub verdicts: GuardVerdicts,
    pub compile_fault: Option<String>,
}

/// What a registration makes of the bindings: an accepted configuration is kept
/// under its name, a refused one changes nothing, and no other name is touched.
pub open spec fn registration_step(
    before: HanaBackendPlugin,
    after: HanaBackendPlugin,
    event: Registration,
) -> bool {
    &&& match register_fault(event.spec, event.verdicts, event.compile_fault) {
        None => after.registered(event.name) matches Some(profile) && profile_of(
            event.spec,
            profile,
        ),
        Some(_) => after.registered(event.name) == before.registered(event.name),
    }
    &&& forall|other: Seq<char>|
        other != event.name ==> #[trigger] after.registered(other) == before.registered(other)
}

/// Every binding of the plugin is sound.
pub open spec fn all_sound(
    plugin: HanaBackendPlugin,
    guard: spec_fn(Seq<char>) -> bool,
) -> bool {
    forall|name: Seq<char>| #[trigger]
        plugin.registered(name) matches Some(profile) ==> sound_profile(profile, guard)
}

/// Whatever is registered, in whatever order, accepted or refused: after each
/// registration every binding of the plugin is sound. `plugins` are the states
/// of a plugin that starts without bindings, `events` the registrations between
/// them, and `guard` tells which statements the read-only guard lets pass.
pub proof fn law_registered_profiles_are_sound(
    plugins: Seq<HanaBackendPlugin>,
    events: Seq<Registration>,
    guard: spec_fn(Seq<char>) -> bool,
    n: int,
)
    requires
        plugins.len() == events.len() + 1,
        forall|name: Seq<char>| #[trigger] plugins[0].registered(name) is None,
        forall|i: int|
            0 <= i < events.len() ==> registration_step(
                plugins[i],
                plugins[i + 1],
                #[trigger] events[i],
            ),
        forall|i: int|
            0 <= i < events.len() ==> verdicts_of(
                guard,
                (#[trigger] events[i]).spec,
                events[i].verdicts,
            ),
        0 <= n < plugins.len(),
    ensures
        all_sound(plugins[n], guard),
    decreases n,
{
    if n > 0 {
        law_registered_profiles_are_sound(plugins, events, guard, n - 1);
        let event = events[n - 1];
        assert(registration_step(plugins[n - 1], plugins[n], event));
        assert forall|name: Seq<char>| #[trigger]
            plugins[n].registered(name) matches Some(profile) ==> sound_profile(
                profile,
                guard,
            ) by {
            if name != event.name || register_fault(
                event.spec,
                event.verdicts,
                event.compile_fault,
            ) is Some {
                assert(plugins[n].registered(name) == plugins[n - 1].registered(name));
            } else {
                law_accepted_profiles_are_sound(
                    event.spec,
                    event.verdicts,
                    event.compile_fault,
                    plugins[n].registered(name)->0,
                    guard,
                );
            }
        }
    }
}

/// A call that has been opened.
pub struct OpenedCall<'a> {
    pub profile: &'a HanaProfile,
    pub arguments: Json,
    pub tool_name: String,
}

/// The outcome label of a call that was refused.
pub fn refusal_label(error: &BackendError) -> (label: &'static str)
    ensures
        label@ == match error {
            BackendError::ProfileNotFound { .. } => "profile_not_found"@,
            BackendError::InvalidSpec { .. } => "invalid_spec"@,
            BackendError::Transport { .. } => "transport_error"@,
        },
{
    match error {
        BackendError::ProfileNotFound { .. } => "profile_not_found",
        BackendError::InvalidSpec { .. } => "invalid_spec",
        BackendError::Transport { .. } => "transport_error",
    }
}

/// The schema of the envelopes of an operation.
pub open spec fn operation_schema(operation: HanaOperation) -> JsonModel {
    match operation {
        HanaOperation::Query => envelope_schema_json(any_json()),
        HanaOperation::ListTables => envelope_schema_json(open_object_json(tables_columns())),
        HanaOperation::ListColumns => envelope_schema_json(open_object_json(columns_columns())),
    }
}

/// The names of the arguments that a call of a binding can be given: those that
/// its parameter expressions refer to, or those that its catalog filters are
/// taken from.
pub open spec fn call_argument_names(profile: HanaProfile) -> Seq<Seq<char>> {
    if profile.operation == HanaOperation::Query {
        referenced_arguments(profile.params@, profile.params@.len() as int)
    } else {
        let listed = profile.catalog_filters.argument_list();
        with_distinct(Seq::empty(), listed, listed.len() as int)
    }
}

impl HanaBackendPlugin {
    /// The profile that is registered under a name.
    pub closed spec fn registered(&self, name: Seq<char>) -> Option<HanaProfile> {
        profile_named(self.profiles@, name)
    }

    /// The manifest of the plugin.
    pub closed spec fn manifest_held(&self) -> PluginManifest {
        self.manifest
    }

    /// A plugin with no binding.
    pub fn new() -> (plugin: HanaBackendPlugin)
        ensures
            forall|name: Seq<char>| #[trigger] plugin.registered(name) is None,
            plugin.manifest_held().id@ == "dev.mcpg.backend.hana"@,
            plugin.manifest_held().name@ == "SAP HANA Binding"@,
            plugin.manifest_held().plugin_class == PluginClass::Backend,
    {
        HanaBackendPlugin {
            manifest: PluginManifest {
                id: "dev.mcpg.backend.hana".to_owned(),
                name: "SAP HANA Binding".to_owned(),
                plugin_class: PluginClass::Backend,
            },
            profiles: Vec::new(),
        }
    }

    /// How the plugin presents itself.
    pub fn manifest(&self) -> (manifest: &PluginManifest)
        ensures
            *manifest == self.manifest_held(),
    {
        &self.manifest
    }

    /// The kind of backend that bindings name.
    pub fn kind(&self) -> (kind: &'static str)
        ensures
            kind@ == "hana"@,
    {
        "hana"
    }

    /// Where the binding with a name is held.
    fn position(&self, name: &str) -> (position: Option<usize>)
        ensures
            match position {
                Some(i) => i < self.profiles@.len() && self.profiles@[i as int].0@ == name@
                    && self.registered(name@) == Some(self.profiles@[i as int].1) && forall|j: int|
                    0 <= j < i ==> (#[trigger] self.profiles@[j]).0@ != name@,
                None => self.registered(name@) is None && forall|j: int|
                    0 <= j < self.profiles@.len() ==> (#[trigger] self.profiles@[j]).0@ != name@,
            },
    {
        assert(self.profiles@.skip(0) =~= self.profiles@);
        let mut i: usize = 0;
        while i < self.profiles.len()
            invariant
                i <= self.profiles@.len(),
                self.registered(name@) == profile_named(self.profiles@.skip(i as int), name@),
                forall|j: int| 0 <= j < i ==> (#[trigger] self.profiles@[j]).0@ != name@,
            decreases self.profiles@.len() - i,
        {
            assert(self.profiles@.skip(i as int).drop_first() =~= self.profiles@.skip(i + 1));
            if same_text(&self.profiles[i].0, name) {
                return Some(i);
            }
            i += 1;
        }
        None
    }

    /// The profile of a binding.
    pub fn profile(&self, backend_name: &str) -> (profile: Result<&HanaProfile, BackendError>)
        ensures
            match profile {
                Ok(p) => self.registered(backend_name@) == Some(*p),
                Err(error) => {
                    &&& self.registered(backend_name@) is None
                    &&& error matches BackendError::ProfileNotFound { backend_name: name }
                    &&& name@ == backend_name@
                },
            },
    {
        match self.position(backend_name) {
            Some(i) => Ok(&self.profiles[i].1),
            None => Err(BackendError::ProfileNotFound { backend_name: backend_name.to_owned() }),
        }
    }

    /// Keeps a profile under a name, in place of the one that has it.
    fn keep(&mut self, name: &str, profile: HanaProfile)
        ensures
            final(self).registered(name@) == Some(profile),
            forall|other: Seq<char>|
                other != name@ ==> #[trigger] final(self).registered(other) == old(
                    self,
                ).registered(other),
            final(self).manifest_held() == old(self).manifest_held(),
    {
        let ghost before = self.profiles@;
        match self.position(name) {
            Some(i) => {
                let kept = (name.to_owned(), profile);
                self.profiles.set(i, kept);
                proof {
                    lemma_profile_replaced(before, kept, i as int);
                }
            },
            None => {
                let kept = (name.to_owned(), profile);
                self.profiles.push(kept);
                proof {
                    lemma_profile_added(before, kept);
                }
            },
        }
    }

    /// Registers a binding under a name and says which pool to build for it, or
    /// refuses it. `verdicts` are what the read-only guard says of its
    /// statements, and `compile_fault` is why a parameter expression does not
    /// compile, if one does not. A binding that was registered under the name is
    /// replaced, and only by one that is accepted.
    pub fn register_profile(
        &mut self,
        backend_name: &str,
        spec: HanaBackendSpec,
        verdicts: &GuardVerdicts,
        compile_fault: &Option<String>,
    ) -> (registered: Result<PoolPlan, BackendError>)
        requires
            verdicts.completions@.len() == spec.variable_completions@.len(),
        ensures
            match registered {
                Ok(plan) => {
                    &&& register_fault(spec, *verdicts, *compile_fault) is None
                    &&& pool_of(spec, plan)
                },
                Err(error) => {
                    &&& error matches BackendError::InvalidSpec { message }
                    &&& register_fault(spec, *verdicts, *compile_fault) == Some(message@)
                },
            },
            registration_step(
                *old(self),
                *final(self),
                Registration {
                    name: backend_name@,
                    spec,
                    verdicts: *verdicts,
                    compile_fault: *compile_fault,
                },
            ),
            final(self).manifest_held() == old(self).manifest_held(),
    {
        match accept_spec(spec, verdicts, compile_fault) {
            Ok((profile, plan)) => {
                self.keep(backend_name, profile);
                Ok(plan)
            },
            Err(message) => Err(BackendError::InvalidSpec { message }),
        }
    }

    /// Opens a call: whose it is, with which arguments and for which tool. A name
    /// that is not registered is refused before the payload is read.
    pub fn open_call(
        &self,
        backend_name: &str,
        payload: &[u8],
        headers: &Vec<(String, String)>,
    ) -> (call: Result<OpenedCall<'_>, BackendError>)
        ensures
            match self.registered(backend_name@) {
                None => call matches Err(BackendError::ProfileNotFound { backend_name: name })
                    && name@ == backend_name@,
                Some(profile) => match call_arguments(payload@, serde_read(payload@)) {
                    Ok(arguments) => {
                        &&& call matches Ok(opened)
                        &&& *opened.profile == profile
                        &&& opened.arguments@ == arguments
                        &&& opened.tool_name@ == tool_of(headers@, backend_name@)
                    },
                    Err(words) => call matches Err(BackendError::InvalidSpec { message })
                        && message@ == words,
                },
            },
    {
        let profile = match self.profile(backend_name) {
            Ok(profile) => profile,
            Err(error) => return Err(error),
        };
        match parse_arguments(payload) {
            Ok(arguments) => Ok(
                OpenedCall { profile, arguments, tool_name: tool_name(headers, backend_name) },
            ),
            Err(error) => Err(error),
        }
    }

    /// What every audit entry of the gateway says of a binding of this kind.
    pub fn audit_metadata(&self, _backend_name: &str) -> (metadata: Json)
        ensures
            metadata@ == JsonModel::Object(seq![("hana.transport"@, JsonModel::Text("plugin"@))]),
    {
        let mut m = members();
        put(&mut m, "hana.transport", Json::text("plugin"));
        Json::object(m)
    }

    /// JSON Schema of the envelopes that a binding emits; a name that is not
    /// registered is taken for a `query`.
    pub fn output_schema(&self, backend_name: &str) -> (schema: Option<Json>)
        ensures
            schema matches Some(s) && s@ == operation_schema(
                match self.registered(backend_name@) {
                    Some(profile) => profile.operation,
                    None => HanaOperation::Query,
                },
            ),
    {
        let operation = match self.profile(backend_name) {
            Ok(profile) => profile.operation,
            Err(_) => HanaOperation::Query,
        };
        Some(
            match operation {
                HanaOperation::Query => result_envelope_schema(),
                HanaOperation::ListTables => catalog_envelope_schema(&list_tables_columns()),
                HanaOperation::ListColumns => catalog_envelope_schema(&list_columns_columns()),
            },
        )
    }

    /// JSON Schema of the arguments of a binding: the names it can be given, each
    /// optional and of any type, in an object that stays open.
    pub fn input_schema(&self, backend_name: &str) -> (schema: Option<Json>)
        ensures
            schema matches Some(s) && s@ == open_object_json(
                match self.registered(backend_name@) {
                    Some(profile) => call_argument_names(profile),
                    None => Seq::empty(),
                },
            ),
    {
        let names = match self.profile(backend_name) {
            Ok(profile) => if profile.operation.is_catalog() {
                profile.catalog_filters.argument_names()
            } else {
                arguments_referenced_by_params(&profile.params)
            },
            Err(_) => {
                let none: Vec<String> = Vec::new();
                assert(name_texts(none@) =~= Seq::<Seq<char>>::empty());
                none
            },
        };
        Some(params_input_schema(&names))
    }
}

/// The names of the arguments of a binding are distinct.
pub proof fn law_argument_names_are_distinct(profile: HanaProfile)
    ensures
        call_argument_names(profile).no_duplicates(),
{
    if profile.operation == HanaOperation::Query {
        lemma_referenced_distinct(profile.params@, profile.params@.len() as int);
    } else {
        let listed = profile.catalog_filters.argument_list();
        law_with_distinct(Seq::empty(), listed, listed.len() as int);
    }
}

proof fn lemma_referenced_distinct(sources: Seq<String>, n: int)
    ensures
        referenced_arguments(sources, n).no_duplicates(),
    decreases n,
{
    if n > 0 {
        lemma_referenced_distinct(sources, n - 1);
        let idents = argument_idents(sources[n - 1]@, 0);
        law_with_distinct(referenced_arguments(sources, n - 1), idents, idents.len() as int);
    }
}

/// JSON Schema of an open object with the named arguments.
pub fn params_input_schema(names: &Vec<String>) -> (schema: Json)
    ensures
        schema@ == open_object_json(name_texts(names@)),
{
    open_object_schema(names)
}

/// The refusal of a configuration that could not be read.
pub fn unreadable_spec(reason: &str) -> (error: BackendError)
    ensures
        error matches BackendError::InvalidSpec { message } && message@ == "HANA binding spec: "@
            + reason@,
{
    let mut message = "HANA binding spec: ".to_owned();
    message.append(reason);
    BackendError::InvalidSpec { message }
}

/// Replacing the first profile that has a name changes what is registered under
/// that name and nothing else.
proof fn lemma_profile_replaced(
    profiles: Seq<(String, HanaProfile)>,
    kept: (String, HanaProfile),
    i: int,
)
    requires
        0 <= i < profiles.len(),
        profiles[i].0@ == kept.0@,
        forall|j: int| 0 <= j < i ==> (#[trigger] profiles[j]).0@ != kept.0@,
    ensures
        profile_named(profiles.update(i, kept), kept.0@) == Some(kept.1),
        forall|other: Seq<char>|
            other != kept.0@ ==> #[trigger] profile_named(profiles.update(i, kept), other)
                == profile_named(profiles, other),
    decreases profiles.len(),
{
    let after = profiles.update(i, kept);
    if i > 0 {
        let rest = profiles.drop_first();
        assert forall|j: int| 0 <= j < i - 1 implies (#[trigger] rest[j]).0@ != kept.0@ by {
            assert(rest[j] == profiles[j + 1]);
        }
        lemma_profile_replaced(rest, kept, i - 1);
        assert(after.drop_first() =~= rest.update(i - 1, kept));
        assert(profiles[0].0@ != kept.0@);
        assert forall|other: Seq<char>| other != kept.0@ implies #[trigger] profile_named(
            after,
            other,
        ) == profile_named(profiles, other) by {
            assert(profile_named(rest.update(i - 1, kept), other) == profile_named(rest, other));
        }
    } else {
        assert(after.drop_first() =~= profiles.drop_first());
    }
}

/// Adding a profile under a new name changes what is registered under that name
/// and nothing else.
proof fn lemma_profile_added(profiles: Seq<(String, HanaProfile)>, kept: (String, HanaProfile))
    requires
        forall|j: int| 0 <= j < profiles.len() ==> (#[trigger] profiles[j]).0@ != kept.0@,
    ensures
        profile_named(profiles.push(kept), kept.0@) == Some(kept.1),
        forall|other: Seq<char>|
            other != kept.0@ ==> #[trigger] profile_named(profiles.push(kept), other)
                == profile_named(profiles, other),
    decreases profiles.len(),
{
    let after = profiles.push(kept);
    if profiles.len() > 0 {
        let rest = profiles.drop_first();
        assert forall|j: int| 0 <= j < rest.len() implies (#[trigger] rest[j]).0@ != kept.0@ by {
            assert(rest[j] == profiles[j + 1]);
        }
        lemma_profile_added(rest, kept);
        assert(after.drop_first() =~= rest.push(kept));
        assert(profiles[0].0@ != kept.0@);
        assert forall|other: Seq<char>| other != kept.0@ implies #[trigger] profile_named(
            after,
            other,
        ) == profile_named(profiles, other) by {
            assert(profile_named(rest.push(kept), other) == profile_named(rest, other));
        }
    } else {
        assert(after.drop_first() =~= profiles);
        assert forall|other: Seq<char>| other != kept.0@ implies #[trigger] profile_named(
            after,
            other,
        ) == profile_named(profiles, other) by {
            assert(after.first() == kept);
        }
    }
}

/// A name gives the profile of the first registration that has it, and nothing
/// where none has.
pub proof fn law_profiles_are_found_by_name(
    profiles: Seq<(String, HanaProfile)>,
    name: Seq<char>,
)
    ensures
        match profile_named(profiles, name) {
            Some(profile) => exists|i: int|
                {
                    &&& 0 <= i < profiles.len()
                    &&& (#[trigger] profiles[i]).0@ == name
                    &&& profiles[i].1 == profile
                    &&& forall|j: int| 0 <= j < i ==> (#[trigger] profiles[j]).0@ != name
                },
            None => forall|j: int|
                0 <= j < profiles.len() ==> (#[trigger] profiles[j]).0@ != name,
        },
    decreases profiles.len(),
{
    if profiles.len() > 0 {
        let rest = profiles.drop_first();
        law_profiles_are_found_by_name(rest, name);
        if profiles[0].0@ != name {
            match profile_named(rest, name) {
                Some(profile) => {
                    let i = choose|i: int|
                        {
                            &&& 0 <= i < rest.len()
                            &&& (#[trigger] rest[i]).0@ == name
                            &&& rest[i].1 == profile
                            &&& forall|j: int| 0 <= j < i ==> (#[trigger] rest[j]).0@ != name
                        };
                    assert(profiles[i + 1] == rest[i]);
                    assert forall|j: int| 0 <= j < i + 1 implies (#[trigger] profiles[j]).0@
                        != name by {
                        if j > 0 {
                            assert(rest[j - 1] == profiles[j]);
                        }
                    }
                },
                None => {
                    assert forall|j: int| 0 <= j < profiles.len() implies (
                    #[trigger] profiles[j]).0@ != name by {
                        if j > 0 {
                            assert(rest[j - 1] == profiles[j]);
                        }
                    }
                },
            }
        } else {
            assert(profiles[0].1 == profiles.first().1);
        }
    }
}

/// An accepted configuration is found under its name afterwards, with its own
/// operation, bounds and statement; a refused one leaves everything as it was; and
/// what is registered under another name is never touched.
pub proof fn law_registrations_are_found(
    before: HanaBackendPlugin,
    after: HanaBackendPlugin,
    event: Registration,
    name: Seq<char>,
)
    requires
        registration_step(before, after, event),
    ensures
        register_fault(event.spec, event.verdicts, event.compile_fault) is None ==> (
        after.registered(event.name) matches Some(profile) && profile.operation
            == event.spec.operation && profile.max_rows == event.spec.max_rows
            && profile.max_result_bytes == event.spec.max_result_bytes && profile.timeout_ms
            == event.spec.timeout_ms && profile.read_only == event.spec.read_only
            && profile.statement@ == event.spec.query@),
        register_fault(event.spec, event.verdicts, event.compile_fault) is Some
            ==> after.registered(name) == before.registered(name),
        name != event.name ==> after.registered(name) == before.registered(name),
{
}

/// A call of a `query` can be given exactly the arguments that some of its
/// parameter expressions refers to, and one of a catalog operation exactly those
/// that its configuration names for a filter.
pub proof fn law_calls_take_the_arguments_they_use(
    spec: HanaBackendSpec,
    profile: HanaProfile,
    name: Seq<char>,
)
    requires
        profile_of(spec, profile),
    ensures
        spec.operation == HanaOperation::Query ==> (call_argument_names(profile).contains(name)
            <==> exists|i: int|
            0 <= i < spec.params@.len() && #[trigger] refers_to(spec.params@[i], name)),
        spec.operation != HanaOperation::Query ==> (call_argument_names(profile).contains(name)
            <==> {
            ||| spec.schema_arg matches Some(argument) && argument@ == name
            ||| spec.table_arg matches Some(argument) && argument@ == name
            ||| spec.table_type_arg matches Some(argument) && argument@ == name
            ||| spec.column_arg matches Some(argument) && argument@ == name
        }),
{
    if spec.operation == HanaOperation::Query {
        law_referenced_arguments(profile.params@, profile.params@.len() as int);
    } else {
        let filters = profile.catalog_filters;
        let listed = filters.argument_list();
        let names = call_argument_names(profile);
        law_filter_arguments(filters, name);
        law_with_distinct(Seq::empty(), listed, listed.len() as int);
        assert(listed.take(listed.len() as int) =~= listed);
        if listed.contains(name) {
            let i = choose|i: int| 0 <= i < listed.len() && listed[i] == name;
            assert(names.contains(listed[i]));
        }
        if names.contains(name) {
            let k = choose|k: int| 0 <= k < names.len() && names[k] == name;
            assert(Seq::<Seq<char>>::empty().contains(names[k]) || listed.contains(names[k]));
        }
    }
}

/// What the schema of the envelopes of an operation says of a row.
pub open spec fn row_schema(operation: HanaOperation) -> Option<JsonModel> {
    match property(operation_schema(operation), "response"@) {
        Some(response) => match property(response, "rows"@) {
            Some(rows) => member_of(rows, "items"@),
            None => None,
        },
        None => None,
    }
}

/// The rows of a `query` may be anything, and those of a catalog operation have
/// exactly the columns that its statement selects.
pub proof fn law_row_schemas(name: Seq<char>)
    ensures
        row_schema(HanaOperation::Query) == Some(JsonModel::Object(Seq::empty())),
        row_schema(HanaOperation::ListTables) matches Some(row) && (property(row, name) is Some
            <==> name == "SCHEMA_NAME"@ || name == "TABLE_NAME"@ || name == "TABLE_TYPE"@),
        row_schema(HanaOperation::ListColumns) matches Some(row) && (property(row, name) is Some
            <==> name == "SCHEMA_NAME"@ || name == "TABLE_NAME"@ || name == "COLUMN_NAME"@ || name
            == "DATA_TYPE_NAME"@ || name == "LENGTH"@ || name == "IS_NULLABLE"@ || name
            == "POSITION"@),
{
    law_envelope_schema_types(any_json());
    law_response_schema_types(any_json());
    let tables = open_object_json(tables_columns());
    law_envelope_schema_types(tables);
    law_response_schema_types(tables);
    law_open_objects_have_the_named_properties(tables_columns(), name);
    let columns = open_object_json(columns_columns());
    law_envelope_schema_types(columns);
    law_response_schema_types(columns);
    law_open_objects_have_the_named_properties(columns_columns(), name);
    let t = tables_columns();
    assert(t[0] == "SCHEMA_NAME"@ && t[1] == "TABLE_NAME"@ && t[2] == "TABLE_TYPE"@);
    let c = columns_columns();
    assert(c[0] == "SCHEMA_NAME"@ && c[1] == "TABLE_NAME"@ && c[2] == "COLUMN_NAME"@);
    assert(c[3] == "DATA_TYPE_NAME"@ && c[4] == "LENGTH"@ && c[5] == "IS_NULLABLE"@);
    assert(c[6] == "POSITION"@);
}

/// The columns that a catalog operation describes are those that its statement
/// selects, in the same order.
pub proof fn law_catalog_statements_select_their_columns(f: FiltersModel)
    ensures
        exists|rest: Seq<char>|
            tables_sql(f) == #[trigger] ("SELECT "@ + joined(tables_columns(), ", "@)
                + " FROM SYS.TABLES"@ + rest),
        exists|rest: Seq<char>|
            columns_sql(f) == #[trigger] ("SELECT "@ + joined(columns_columns(), ", "@)
                + " FROM SYS.TABLE_COLUMNS"@ + rest),
{
    law_list_tables_text(f);
    law_list_columns_text(f);
    lemma_selected_tables_columns();
    lemma_selected_columns_columns();
    let tables = "SELECT SCHEMA_NAME, TABLE_NAME, TABLE_TYPE FROM SYS.TABLES"@;
    let tables_rest = tables_sql(f).skip(tables.len() as int);
    assert(tables_sql(f) =~= tables + tables_rest);
    let columns =
        "SELECT SCHEMA_NAME, TABLE_NAME, COLUMN_NAME, DATA_TYPE_NAME, LENGTH, IS_NULLABLE, POSITION FROM SYS.TABLE_COLUMNS"@;
    let columns_rest = columns_sql(f).skip(columns.len() as int);
    assert(columns_sql(f) =~= columns + columns_rest);
}

proof fn lemma_selected_tables_columns()
    ensures
        "SELECT "@ + joined(tables_columns(), ", "@) + " FROM SYS.TABLES"@
            == "SELECT SCHEMA_NAME, TABLE_NAME, TABLE_TYPE FROM SYS.TABLES"@,
{
    reveal_strlit("SELECT ");
    reveal_strlit(", ");
    reveal_strlit(" FROM SYS.TABLES");
    reveal_strlit("SCHEMA_NAME");
    reveal_strlit("TABLE_NAME");
    reveal_strlit("TABLE_TYPE");
    reveal_strlit("SELECT SCHEMA_NAME, TABLE_NAME, TABLE_TYPE FROM SYS.TABLES");
    reveal_with_fuel(joined, 3);
    let all = tables_columns();
    let two = all.drop_last();
    let one = two.drop_last();
    assert(one[0] == "SCHEMA_NAME"@ && two.last() == "TABLE_NAME"@ && all.last()
        == "TABLE_TYPE"@);
    assert(joined(all, ", "@) == "SCHEMA_NAME"@ + ", "@ + "TABLE_NAME"@ + ", "@ + "TABLE_TYPE"@);
}

#[verifier::rlimit(50)]
proof fn lemma_selected_columns_columns()
    ensures
        "SELECT "@ + joined(columns_columns(), ", "@) + " FROM SYS.TABLE_COLUMNS"@
            == "SELECT SCHEMA_NAME, TABLE_NAME, COLUMN_NAME, DATA_TYPE_NAME, LENGTH, IS_NULLABLE, POSITION FROM SYS.TABLE_COLUMNS"@,
{
    reveal_strlit("SELECT ");
    reveal_strlit(", ");
    reveal_strlit(" FROM SYS.TABLE_COLUMNS");
    reveal_strlit("SCHEMA_NAME");
    reveal_strlit("TABLE_NAME");
    reveal_strlit("COLUMN_NAME");
    reveal_strlit("DATA_TYPE_NAME");
    reveal_strlit("LENGTH");
    reveal_strlit("IS_NULLABLE");
    reveal_strlit("POSITION");
    reveal_strlit(
        "SELECT SCHEMA_NAME, TABLE_NAME, COLUMN_NAME, DATA_TYPE_NAME, LENGTH, IS_NULLABLE, POSITION FROM SYS.TABLE_COLUMNS",
    );
    reveal_with_fuel(joined, 7);
    let all = columns_columns();
    let six = all.drop_last();
    let five = six.drop_last();
    let four = five.drop_last();
    let three = four.drop_last();
    let two = three.drop_last();
    let one = two.drop_last();
    assert(one[0] == "SCHEMA_NAME"@ && two.last() == "TABLE_NAME"@ && three.last()
        == "COLUMN_NAME"@);
    assert(four.last() == "DATA_TYPE_NAME"@ && five.last() == "LENGTH"@ && six.last()
        == "IS_NULLABLE"@ && all.last() == "POSITION"@);
    assert(joined(all, ", "@) == "SCHEMA_NAME"@ + ", "@ + "TABLE_NAME"@ + ", "@ + "COLUMN_NAME"@
        + ", "@ + "DATA_TYPE_NAME"@ + ", "@ + "LENGTH"@ + ", "@ + "IS_NULLABLE"@ + ", "@
        + "POSITION"@);
}

/// A call that is opened belongs to the binding of its name and carries what its
/// payload reads as.
pub proof fn law_opened_calls(
    plugin: &HanaBackendPlugin,
    backend_name: &str,
    payload: &[u8],
    headers: &Vec<(String, String)>,
    call: Result<OpenedCall<'_>, BackendError>,
)
    requires
        call_ensures(
            HanaBackendPlugin::open_call,
            (plugin, backend_name, payload, headers),
            call,
        ),
    ensures
        plugin.registered(backend_name@) is None ==> (call matches Err(
            BackendError::ProfileNotFound { backend_name: name },
        ) && name@ == backend_name@),
        call matches Ok(opened) ==> plugin.registered(backend_name@) == Some(*opened.profile),
        plugin.registered(backend_name@) is Some && payload@.len() == 0 ==> (call matches Ok(opened)
            && opened.arguments@ == JsonModel::Object(Seq::empty())),
        plugin.registered(backend_name@) is Some && payload@.len() > 0 ==> (serde_read(
            payload@,
        ) matches Ok(value) ==> (call matches Ok(opened) && opened.arguments@ == value)),
        plugin.registered(backend_name@) is Some && payload@.len() > 0 && serde_read(payload@)
            is Err ==> (call matches Err(BackendError::InvalidSpec { .. })),
{
}

/// The schema of the arguments of a binding has a property for exactly the
/// arguments that a call of it can be given.
pub proof fn law_input_schemas_name_the_arguments(
    plugin: &HanaBackendPlugin,
    backend_name: &str,
    schema: Option<Json>,
    spec: HanaBackendSpec,
    profile: HanaProfile,
    name: Seq<char>,
)
    requires
        call_ensures(HanaBackendPlugin::input_schema, (plugin, backend_name), schema),
        plugin.registered(backend_name@) == Some(profile),
        profile_of(spec, profile),
    ensures
        schema is Some,
        spec.operation == HanaOperation::Query ==> (property(schema->0@, name) is Some
            <==> exists|i: int|
            0 <= i < spec.params@.len() && #[trigger] refers_to(spec.params@[i], name)),
        spec.operation != HanaOperation::Query ==> (property(schema->0@, name) is Some <==> {
            ||| spec.schema_arg matches Some(argument) && argument@ == name
            ||| spec.table_arg matches Some(argument) && argument@ == name
            ||| spec.table_type_arg matches Some(argument) && argument@ == name
            ||| spec.column_arg matches Some(argument) && argument@ == name
        }),
{
    law_calls_take_the_arguments_they_use(spec, profile, name);
    law_open_objects_have_the_named_properties(call_argument_names(profile), name);
}

/// A refusal is labelled by what was refused.
pub proof fn law_refusal_labels(error: &BackendError, label: &'static str)
    requires
        call_ensures(refusal_label, (error,), label),
    ensures
        *error is ProfileNotFound ==> label@ == "profile_not_found"@,
        *error is InvalidSpec ==> label@ == "invalid_spec"@,
        *error is Transport ==> label@ == "transport_error"@,
{
}

/// The schema of the envelopes of a binding describes the rows of its operation.
pub proof fn law_output_schemas_describe_the_rows(
    plugin: &HanaBackendPlugin,
    backend_name: &str,
    schema: Option<Json>,
    profile: HanaProfile,
    name: Seq<char>,
)
    requires
        call_ensures(HanaBackendPlugin::output_schema, (plugin, backend_name), schema),
        plugin.registered(backend_name@) == Some(profile),
    ensures
        schema is Some,
        ({
            let response = property(schema->0@, "response"@)->0;
            let row = member_of(property(response, "rows"@)->0, "items"@)->0;
            &&& profile.operation == HanaOperation::Query ==> row == JsonModel::Object(
                Seq::empty(),
            )
            &&& profile.operation == HanaOperation::ListTables ==> (property(row, name) is Some
                <==> name == "SCHEMA_NAME"@ || name == "TABLE_NAME"@ || name == "TABLE_TYPE"@)
            &&& profile.operation == HanaOperation::ListColumns ==> (property(row, name) is Some
                <==> name == "SCHEMA_NAME"@ || name == "TABLE_NAME"@ || name == "COLUMN_NAME"@
                || name == "DATA_TYPE_NAME"@ || name == "LENGTH"@ || name == "IS_NULLABLE"@
                || name == "POSITION"@)
        }),
{
    law_row_schemas(name);
}

} // verus!

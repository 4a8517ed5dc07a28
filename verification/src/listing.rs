//! `resources/list` and `completion/complete`: the statements that they run and
//! what becomes of the rows.
use vstd::prelude::*;
use vstd::string::StringExecFns;

use crate::calls::{profile_plan, BackendError, PlanModel, StatementPlan};
use crate::json::{json_text, models, JsonModel};
use crate::marshal::QueryOutcome;
use crate::params::{bind_models, BindModel, HanaBind};
use crate::profile::{profile_of, HanaProfile};
use crate::surface::{
    candidates, completion_values, first_column, first_column_of, holds_column,
    law_completion_values_are_the_first_candidates, law_first_columns,
    law_full_keyset_pages_have_a_cursor, listed, listed_models, next_page,
    rows_to_completion_values, rows_to_resource_page, ResourcePage,
};
use crate::text::{
    decimal_text, law_decimal_reads_back, name_texts, parse_u64, same_text, text_option, trimmed,
    u64_from_text,
};
use crate::types::{
    completion_fault, placeholders, CompletionConfig, HanaBackendSpec, ListQueryConfig,
    ListQueryMode,
};

verus! {

/// Where a page starts: the offset that the cursor gives in offset mode, and
/// zero in keyset mode or on the first page. Nothing for a cursor that is no
/// offset.
pub open spec fn page_offset(mode: ListQueryMode, cursor: Option<Seq<char>>) -> Option<u64> {
    match (mode, cursor) {
        (ListQueryMode::Offset, Some(text)) => u64_from_text(text),
        _ => Some(0),
    }
}

/// The binds of a page: cursor and page size in keyset mode, page size and
/// offset in offset mode.
pub open spec fn page_binds(cfg: ListQueryConfig, cursor: Option<Seq<char>>, offset: u64) -> Seq<
    BindModel,
> {
    match cfg.mode {
        ListQueryMode::Keyset => seq![
            match cursor {
                Some(text) => BindModel::Str(text),
                None => BindModel::Null,
            },
            BindModel::Int(cfg.page_size as i64),
        ],
        ListQueryMode::Offset => seq![
            BindModel::Int(cfg.page_size as i64),
            BindModel::Int(offset as i64),
        ],
    }
}

/// The plan of a page.
pub open spec fn page_plan(
    profile: HanaProfile,
    cfg: ListQueryConfig,
    cursor: Option<Seq<char>>,
    offset: u64,
) -> PlanModel {
    profile_plan(
        profile,
        cfg.sql@,
        page_binds(cfg, cursor, offset),
        cfg.page_size as usize,
        profile.read_only,
    )
}

/// The statement of one page of a listing.
pub struct ListingPlan {
    pub plan: StatementPlan,
    pub config: ListQueryConfig,
    pub prior_offset: u64,
}

/// Plans one page of a listing. A binding without a listing has nothing to plan.
pub fn plan_listing(profile: &HanaProfile, cursor: Option<&str>) -> (listing: Result<
    Option<ListingPlan>,
    BackendError,
>)
    ensures
        ({
            let from = match cursor {
                Some(c) => Some(c@),
                None => None,
            };
            match listing {
                Ok(None) => profile.list_query is None,
                Ok(Some(page)) => {
                    &&& profile.list_query == Some(page.config)
                    &&& page_offset(page.config.mode, from) == Some(page.prior_offset)
                    &&& page.plan@ == page_plan(*profile, page.config, from, page.prior_offset)
                },
                Err(error) => {
                    &&& profile.list_query matches Some(cfg)
                    &&& page_offset(cfg.mode, from) is None
                    &&& error matches BackendError::InvalidSpec { message }
                    &&& message@ == "offset-mode cursor '"@ + from->0
                        + "' is not a non-negative integer"@
                },
            }
        }),
{
    let config = match &profile.list_query {
        Some(config) => config.copy(),
        None => return Ok(None),
    };
    let prior_offset: u64 = match (config.mode, cursor) {
        (ListQueryMode::Offset, Some(text)) => match parse_u64(text) {
            Some(offset) => offset,
            None => {
                let mut message = "offset-mode cursor '".to_owned();
                message.append(text);
                message.append("' is not a non-negative integer");
                return Err(BackendError::InvalidSpec { message });
            },
        },
        _ => 0,
    };
    let mut binds: Vec<HanaBind> = Vec::new();
    match config.mode {
        ListQueryMode::Keyset => {
            binds.push(
                match cursor {
                    Some(text) => HanaBind::Str(text.to_owned()),
                    None => HanaBind::Null,
                },
            );
            binds.push(HanaBind::Int(config.page_size as i64));
        },
        ListQueryMode::Offset => {
            binds.push(HanaBind::Int(config.page_size as i64));
            binds.push(HanaBind::Int(prior_offset as i64));
        },
    }
    let ghost from = match cursor {
        Some(c) => Some(c@),
        None => None,
    };
    assert(bind_models(binds@) =~= page_binds(config, from, prior_offset));
    let plan = StatementPlan {
        sql: config.sql.clone(),
        binds,
        max_rows: config.page_size as usize,
        max_result_bytes: profile.max_result_bytes,
        timeout_ms: profile.timeout_ms,
        guarded: profile.read_only,
    };
    Ok(Some(ListingPlan { plan, config, prior_offset }))
}

/// Makes a page of what HANA answered.
pub fn finish_listing(
    config: &ListQueryConfig,
    prior_offset: u64,
    outcome: Result<QueryOutcome, String>,
) -> (page: Result<ResourcePage, BackendError>)
    ensures
        match (outcome, page) {
            (Ok(result), Ok(p)) => {
                &&& listed_models(p.resources@) == listed(
                    models(result.rows@),
                    result.rows@.len() as int,
                )
                &&& text_option(p.next_cursor) == next_page(
                    models(result.rows@),
                    *config,
                    prior_offset,
                )
            },
            (Err(words), Err(BackendError::Transport { message })) => message == words,
            _ => false,
        },
{
    match outcome {
        Ok(result) => Ok(rows_to_resource_page(&result.rows, config, prior_offset)),
        Err(message) => Err(BackendError::Transport { message }),
    }
}

/// In offset mode the cursor of a full page leads to the page that starts right
/// after it: its offset is the offset of this page and the number of its rows.
pub proof fn law_offset_pages_follow_on(
    profile: HanaProfile,
    cfg: ListQueryConfig,
    offset: u64,
    rows: Seq<JsonModel>,
)
    requires
        cfg.mode == ListQueryMode::Offset,
        0 < rows.len(),
        cfg.page_size <= rows.len(),
        offset + rows.len() <= u64::MAX,
    ensures
        next_page(rows, cfg, offset) matches Some(cursor) && page_offset(cfg.mode, Some(cursor))
            == Some((offset + rows.len()) as u64) && page_plan(
            profile,
            cfg,
            Some(cursor),
            (offset + rows.len()) as u64,
        ).binds == seq![
            BindModel::Int(cfg.page_size as i64),
            BindModel::Int((offset + rows.len()) as u64 as i64),
        ],
{
    law_decimal_reads_back((offset + rows.len()) as u64);
}

/// In keyset mode the cursor of a page is bound as it stands and never part of
/// the text, and the first page binds NULL.
pub proof fn law_cursor_is_data(
    profile: HanaProfile,
    cfg: ListQueryConfig,
    cursor: Option<Seq<char>>,
    other: Option<Seq<char>>,
    offset: u64,
    other_offset: u64,
)
    ensures
        page_plan(profile, cfg, cursor, offset).sql == page_plan(
            profile,
            cfg,
            other,
            other_offset,
        ).sql,
        cfg.mode == ListQueryMode::Keyset ==> page_binds(cfg, cursor, offset)[0] == match cursor {
            Some(text) => BindModel::Str(text),
            None => BindModel::Null,
        },
{
}

/// The completion query of a variable.
pub open spec fn completion_of(
    completions: Seq<(String, CompletionConfig)>,
    variable: Seq<char>,
) -> Option<CompletionConfig>
    decreases completions.len(),
{
    if completions.len() == 0 {
        None
    } else if completions.first().0@ == variable {
        Some(completions.first().1)
    } else {
        completion_of(completions.drop_first(), variable)
    }
}

/// The largest number of candidates of a completion query.
pub open spec fn completion_cap(cfg: CompletionConfig) -> usize {
    match cfg.max_results {
        Some(max) => max as usize,
        None => 100,
    }
}

/// The plan of a completion: its one `?` is bound to the prefix.
pub open spec fn completion_plan(
    profile: HanaProfile,
    cfg: CompletionConfig,
    prefix: Seq<char>,
) -> PlanModel {
    profile_plan(
        profile,
        cfg.sql@,
        seq![BindModel::Str(prefix)],
        completion_cap(cfg),
        profile.read_only,
    )
}

/// A completion query that passes its check has one `?`, and exactly one value
/// is bound to it: the prefix, as it stands. There are never more candidates
/// than the cap.
pub proof fn law_completion_binds_the_prefix(
    profile: HanaProfile,
    name: Seq<char>,
    cfg: CompletionConfig,
    prefix: Seq<char>,
    rows: Seq<JsonModel>,
    column: Option<Seq<char>>,
)
    requires
        completion_fault(name, cfg) is None,
    ensures
        placeholders(completion_plan(profile, cfg, prefix).sql) == 1,
        completion_plan(profile, cfg, prefix).binds == seq![BindModel::Str(prefix)],
        completion_values(rows, column, completion_cap(cfg) as nat).len() <= completion_cap(cfg),
{
}

/// Plans the completion of a variable. A variable without a completion query has
/// nothing to plan.
pub fn plan_completion(profile: &HanaProfile, variable_name: &str, prefix: &str) -> (plan: Option<
    StatementPlan,
>)
    ensures
        match plan {
            Some(p) => completion_of(profile.variable_completions@, variable_name@) matches Some(
                cfg,
            ) && p@ == completion_plan(*profile, cfg, prefix@),
            None => completion_of(profile.variable_completions@, variable_name@) is None,
        },
{
    let completions = &profile.variable_completions;
    assert(completions@.skip(0) =~= completions@);
    let mut i: usize = 0;
    while i < completions.len()
        invariant
            i <= completions@.len(),
            *completions == profile.variable_completions,
            completion_of(completions@, variable_name@) == completion_of(
                completions@.skip(i as int),
                variable_name@,
            ),
        decreases completions@.len() - i,
    {
        assert(completions@.skip(i as int).drop_first() =~= completions@.skip(i + 1));
        if same_text(&completions[i].0, variable_name) {
            let cfg = &completions[i].1;
            let mut binds: Vec<HanaBind> = Vec::new();
            binds.push(HanaBind::Str(prefix.to_owned()));
            assert(bind_models(binds@) =~= seq![BindModel::Str(prefix@)]);
            let max_rows: usize = match cfg.max_results {
                Some(max) => max as usize,
                None => 100,
            };
            return Some(
                StatementPlan {
                    sql: cfg.sql.clone(),
                    binds,
                    max_rows,
                    max_result_bytes: profile.max_result_bytes,
                    timeout_ms: profile.timeout_ms,
                    guarded: profile.read_only,
                },
            );
        }
        i += 1;
    }
    None
}

/// Makes candidates of what HANA answered: the first column, at most `max`.
pub fn finish_completion(max: usize, outcome: Result<QueryOutcome, String>) -> (values: Result<
    Vec<String>,
    BackendError,
>)
    ensures
        match (outcome, values) {
            (Ok(result), Ok(v)) => name_texts(v@) == completion_values(
                models(result.rows@),
                first_column(models(result.rows@)),
                max as nat,
            ),
            (Err(words), Err(BackendError::Transport { message })) => message == words,
            _ => false,
        },
{
    match outcome {
        Ok(result) => {
            let first = first_column_of(&result.rows);
            match &first {
                Some(column) => Ok(
                    rows_to_completion_values(&result.rows, Some(column.as_str()), max),
                ),
                None => Ok(rows_to_completion_values(&result.rows, None, max)),
            }
        },
        Err(message) => Err(BackendError::Transport { message }),
    }
}

/// In keyset mode the pages follow on as well: a full page whose last row has a
/// cursor column that is not `null` has a cursor, which is that string or the
/// JSON text of any other value, and the next page is asked for from offset zero
/// with that very text as its first bind.
pub proof fn law_keyset_pages_follow_on(
    profile: HanaProfile,
    cfg: ListQueryConfig,
    column: String,
    value: JsonModel,
    prior_offset: u64,
    rows: Seq<JsonModel>,
)
    requires
        cfg.mode == ListQueryMode::Keyset,
        cfg.cursor_column == Some(column),
        rows.len() > 0,
        rows.len() >= cfg.page_size,
        holds_column(rows[rows.len() - 1], trimmed(column@), value),
        !(value is Null),
    ensures
        next_page(rows, cfg, prior_offset) matches Some(cursor) && cursor == (match value {
            JsonModel::Text(text) => text,
            _ => json_text(value),
        }) && page_offset(cfg.mode, Some(cursor)) == Some(0u64) && page_plan(
            profile,
            cfg,
            Some(cursor),
            0,
        ).binds.len() == 2 && page_plan(profile, cfg, Some(cursor), 0).binds[0] == BindModel::Str(
            cursor,
        ),
{
    law_full_keyset_pages_have_a_cursor(rows, cfg, column, value, prior_offset);
}

/// A page runs the listing statement of the configuration, unchanged, for as many
/// rows as a page has, under the byte and time bounds of the configuration and
/// under the guard where it is read-only.
pub proof fn law_pages_run_the_listing_statement(
    spec: HanaBackendSpec,
    profile: HanaProfile,
    cfg: ListQueryConfig,
    cursor: Option<Seq<char>>,
    offset: u64,
)
    requires
        profile_of(spec, profile),
    ensures
        ({
            let plan = page_plan(profile, cfg, cursor, offset);
            &&& plan.sql == cfg.sql@
            &&& cfg.page_size <= usize::MAX ==> plan.max_rows == cfg.page_size
            &&& plan.max_result_bytes == spec.max_result_bytes
            &&& plan.timeout_ms == spec.timeout_ms
            &&& plan.guarded == spec.read_only
            &&& plan.binds.len() == 2
        }),
{
}

/// What a page binds: in keyset mode the cursor, NULL on the first page, and then
/// the page size; in offset mode the page size and then the offset.
pub proof fn law_page_binds(cfg: ListQueryConfig, text: Seq<char>, offset: u64)
    requires
        cfg.page_size <= i64::MAX,
        offset <= i64::MAX,
    ensures
        cfg.mode == ListQueryMode::Keyset ==> {
            &&& page_binds(cfg, Some(text), offset)[0] == BindModel::Str(text)
            &&& page_binds(cfg, None, offset)[0] == BindModel::Null
            &&& page_binds(cfg, Some(text), offset)[1] matches BindModel::Int(size)
            &&& size == cfg.page_size
            &&& page_binds(cfg, None, offset)[1] matches BindModel::Int(size)
            &&& size == cfg.page_size
        },
        cfg.mode == ListQueryMode::Offset ==> {
            &&& page_binds(cfg, Some(text), offset)[0] matches BindModel::Int(size)
            &&& size == cfg.page_size
            &&& page_binds(cfg, Some(text), offset)[1] matches BindModel::Int(from)
            &&& from == offset
            &&& page_binds(cfg, None, offset)[0] matches BindModel::Int(size)
            &&& size == cfg.page_size
            &&& page_binds(cfg, None, offset)[1] matches BindModel::Int(from)
            &&& from == offset
        },
{
}

/// Without a cursor a listing starts at zero, in keyset mode every page does, and
/// in offset mode a page starts at the number that its cursor denotes; a cursor
/// that denotes none starts no page.
pub proof fn law_page_offsets(text: Seq<char>, n: u64, mode: ListQueryMode)
    ensures
        page_offset(mode, None) == Some(0u64),
        page_offset(ListQueryMode::Keyset, Some(text)) == Some(0u64),
        page_offset(ListQueryMode::Offset, Some(decimal_text(n as nat))) == Some(n),
        u64_from_text(text) is None ==> page_offset(ListQueryMode::Offset, Some(text)) is None,
        u64_from_text(text) == Some(n) ==> page_offset(ListQueryMode::Offset, Some(text)) == Some(
            n,
        ),
{
    law_decimal_reads_back(n);
}

/// The completion query of a variable is the first one with its name; a variable
/// that none is named for has none.
pub proof fn law_completions_are_found_by_name(
    completions: Seq<(String, CompletionConfig)>,
    variable: Seq<char>,
)
    ensures
        match completion_of(completions, variable) {
            Some(cfg) => exists|i: int|
                {
                    &&& 0 <= i < completions.len()
                    &&& (#[trigger] completions[i]).0@ == variable
                    &&& completions[i].1 == cfg
                    &&& forall|j: int|
                        0 <= j < i ==> (#[trigger] completions[j]).0@ != variable
                },
            None => forall|j: int|
                0 <= j < completions.len() ==> (#[trigger] completions[j]).0@ != variable,
        },
    decreases completions.len(),
{
    if completions.len() > 0 {
        let rest = completions.drop_first();
        law_completions_are_found_by_name(rest, variable);
        if completions[0].0@ != variable {
            match completion_of(rest, variable) {
                Some(cfg) => {
                    let i = choose|i: int|
                        {
                            &&& 0 <= i < rest.len()
                            &&& (#[trigger] rest[i]).0@ == variable
                            &&& rest[i].1 == cfg
                            &&& forall|j: int|
                                0 <= j < i ==> (#[trigger] rest[j]).0@ != variable
                        };
                    assert(completions[i + 1] == rest[i]);
                    assert forall|j: int| 0 <= j < i + 1 implies (
                    #[trigger] completions[j]).0@ != variable by {
                        if j > 0 {
                            assert(rest[j - 1] == completions[j]);
                        }
                    }
                },
                None => {
                    assert forall|j: int| 0 <= j < completions.len() implies (
                    #[trigger] completions[j]).0@ != variable by {
                        if j > 0 {
                            assert(rest[j - 1] == completions[j]);
                        }
                    }
                },
            }
        } else {
            assert(completions[0].1 == completions.first().1);
        }
    }
}

/// A completion runs its own statement, unchanged, for as many rows as it has
/// candidates at most, a hundred where the configuration gives no number, under
/// the byte and time bounds of the configuration and under the guard where it is
/// read-only. What is bound is the prefix.
pub proof fn law_completions_run_their_statement(
    spec: HanaBackendSpec,
    profile: HanaProfile,
    cfg: CompletionConfig,
    prefix: Seq<char>,
)
    requires
        profile_of(spec, profile),
    ensures
        ({
            let plan = completion_plan(profile, cfg, prefix);
            &&& plan.sql == cfg.sql@
            &&& cfg.max_results matches Some(max) ==> plan.max_rows == max && completion_cap(cfg)
                == max
            &&& cfg.max_results is None ==> plan.max_rows == 100 && completion_cap(cfg) == 100
            &&& plan.max_result_bytes == spec.max_result_bytes
            &&& plan.timeout_ms == spec.timeout_ms
            &&& plan.guarded == spec.read_only
            &&& plan.binds == seq![BindModel::Str(prefix)]
        }),
{
}

/// The cursor that a finished keyset page carries asks for the page behind it: it
/// is the plain text of the cursor column of the last row, and planned with it the
/// next page has that text as its first bind.
pub proof fn law_next_keyset_page_binds_the_cursor(
    config: &ListQueryConfig,
    prior_offset: u64,
    outcome: QueryOutcome,
    page: ResourcePage,
    column: String,
    value: JsonModel,
    profile: &HanaProfile,
    cursor: &str,
    next: ListingPlan,
)
    requires
        call_ensures(
            finish_listing,
            (config, prior_offset, Ok::<QueryOutcome, String>(outcome)),
            Ok::<ResourcePage, BackendError>(page),
        ),
        config.mode == ListQueryMode::Keyset,
        config.cursor_column == Some(column),
        outcome.rows@.len() > 0,
        outcome.rows@.len() >= config.page_size,
        holds_column(outcome.rows@[outcome.rows@.len() - 1]@, trimmed(column@), value),
        !(value is Null),
        profile.list_query == Some(*config),
        text_option(page.next_cursor) == Some(cursor@),
        call_ensures(
            plan_listing,
            (profile, Some(cursor)),
            Ok::<Option<ListingPlan>, BackendError>(Some(next)),
        ),
    ensures
        page.next_cursor is Some,
        cursor@ == (match value {
            JsonModel::Text(text) => text,
            _ => json_text(value),
        }),
        next.plan.sql@ == config.sql@,
        next.plan.binds@.len() == 2,
        next.plan.binds@[0] matches HanaBind::Str(text) && text@ == cursor@,
{
    let rows = models(outcome.rows@);
    assert(rows[rows.len() - 1] == outcome.rows@[rows.len() - 1]@);
    law_full_keyset_pages_have_a_cursor(rows, *config, column, value, prior_offset);
    let bound = bind_models(next.plan.binds@);
    assert(bound == next.plan@.binds);
    assert(bound.len() == next.plan.binds@.len());
    assert(bound[0] == next.plan.binds@[0]@);
}

/// A full keyset page whose last row has a cursor column that is not `null` always
/// has a cursor.
pub proof fn law_full_keyset_page_is_not_the_last(
    config: &ListQueryConfig,
    prior_offset: u64,
    outcome: QueryOutcome,
    page: ResourcePage,
    column: String,
    value: JsonModel,
)
    requires
        call_ensures(
            finish_listing,
            (config, prior_offset, Ok::<QueryOutcome, String>(outcome)),
            Ok::<ResourcePage, BackendError>(page),
        ),
        config.mode == ListQueryMode::Keyset,
        config.cursor_column == Some(column),
        outcome.rows@.len() > 0,
        outcome.rows@.len() >= config.page_size,
        holds_column(outcome.rows@[outcome.rows@.len() - 1]@, trimmed(column@), value),
        !(value is Null),
    ensures
        page.next_cursor is Some,
{
    let rows = models(outcome.rows@);
    assert(rows[rows.len() - 1] == outcome.rows@[rows.len() - 1]@);
    law_full_keyset_pages_have_a_cursor(rows, *config, column, value, prior_offset);
}

/// A listing that HANA failed on fails in the same words, and so does a
/// completion.
pub proof fn law_failed_listings_and_completions(
    config: &ListQueryConfig,
    prior_offset: u64,
    max: usize,
    words: String,
    page: Result<ResourcePage, BackendError>,
    values: Result<Vec<String>, BackendError>,
)
    requires
        call_ensures(
            finish_listing,
            (config, prior_offset, Err::<QueryOutcome, String>(words)),
            page,
        ),
        call_ensures(finish_completion, (max, Err::<QueryOutcome, String>(words)), values),
    ensures
        page matches Err(BackendError::Transport { message }) && message@ == words@,
        values matches Err(BackendError::Transport { message }) && message@ == words@,
{
}

/// A planned page runs the listing statement of its profile under the bounds of
/// its profile, for as many rows as a page has; a binding without a listing plans
/// nothing, and in keyset mode every cursor is taken.
pub proof fn law_planned_pages(
    profile: &HanaProfile,
    cursor: Option<&str>,
    listing: Result<Option<ListingPlan>, BackendError>,
    cfg: ListQueryConfig,
)
    requires
        call_ensures(plan_listing, (profile, cursor), listing),
    ensures
        profile.list_query is None ==> listing matches Ok(None),
        profile.list_query == Some(cfg) && cfg.mode == ListQueryMode::Keyset ==> listing matches Ok(
            Some(_),
        ),
        profile.list_query == Some(cfg) && cursor is None ==> (listing matches Ok(Some(page))
            && page.prior_offset == 0),
        profile.list_query == Some(cfg) ==> (listing matches Ok(found) ==> (found matches Some(page)
            && page.plan.sql@ == cfg.sql@ && page.plan.max_result_bytes == profile.max_result_bytes
            && page.plan.timeout_ms == profile.timeout_ms && page.plan.guarded
            == profile.read_only && page.config == cfg && (cfg.page_size <= usize::MAX
            ==> page.plan.max_rows == cfg.page_size))),
{
}

/// A planned completion runs the statement of the first completion of its
/// variable, with the prefix bound, under the bounds of its profile.
pub proof fn law_planned_completions(
    profile: &HanaProfile,
    variable_name: &str,
    prefix: &str,
    plan: Option<StatementPlan>,
)
    requires
        call_ensures(plan_completion, (profile, variable_name, prefix), plan),
    ensures
        match plan {
            Some(planned) => exists|i: int|
                {
                    &&& 0 <= i < profile.variable_completions@.len()
                    &&& (#[trigger] profile.variable_completions@[i]).0@ == variable_name@
                    &&& planned.sql@ == profile.variable_completions@[i].1.sql@
                    &&& forall|j: int|
                        0 <= j < i ==> (#[trigger] profile.variable_completions@[j]).0@
                            != variable_name@
                },
            None => forall|j: int|
                0 <= j < profile.variable_completions@.len() ==> (
                #[trigger] profile.variable_completions@[j]).0@ != variable_name@,
        },
        plan matches Some(planned) ==> {
            &&& planned.binds@.len() == 1
            &&& planned.binds@[0] matches HanaBind::Str(bound)
            &&& bound@ == prefix@
            &&& planned.max_result_bytes == profile.max_result_bytes
            &&& planned.timeout_ms == profile.timeout_ms
            &&& planned.guarded == profile.read_only
        },
{
    law_completions_are_found_by_name(profile.variable_completions@, variable_name@);
    if let Some(planned) = plan {
        assert(planned@.binds == bind_models(planned.binds@));
        assert(planned@.binds.len() == planned.binds@.len());
        assert(planned@.binds[0] == planned.binds@[0]@);
    }
}

/// The candidates of a completion are the plain texts of the first column, in the
/// order of the rows and no more than the cap.
pub proof fn law_finished_completions(
    max: usize,
    outcome: QueryOutcome,
    values: Result<Vec<String>, BackendError>,
    members: Seq<(Seq<char>, JsonModel)>,
)
    requires
        call_ensures(finish_completion, (max, Ok::<QueryOutcome, String>(outcome)), values),
    ensures
        values matches Ok(found) && found@.len() <= max,
        outcome.rows@.len() == 0 ==> (values matches Ok(found) && found@.len() == 0),
        outcome.rows@.len() > 0 && outcome.rows@[0]@ == JsonModel::Object(members) && members.len()
            > 0 ==> (values matches Ok(found) && ({
            let all = candidates(
                models(outcome.rows@),
                members[0].0,
                outcome.rows@.len() as int,
            );
            &&& all.len() <= max ==> found@.len() == all.len()
            &&& all.len() > max ==> found@.len() == max
            &&& forall|i: int| 0 <= i < found@.len() ==> (#[trigger] found@[i])@ == all[i]
        })),
{
    let rows = models(outcome.rows@);
    law_first_columns(rows);
    if outcome.rows@.len() > 0 {
        assert(rows[0] == outcome.rows@[0]@);
    }
    let found = values->Ok_0;
    assert(name_texts(found@).len() == found@.len());
    assert forall|i: int| 0 <= i < found@.len() implies name_texts(found@)[i]
        == #[trigger] found@[i]@ by {}
    if let Some(column) = first_column(rows) {
        law_completion_values_are_the_first_candidates(rows, column, max as nat);
    }
}

} // verus!

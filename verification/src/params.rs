//! Scalar binds of a prepared statement.
use vstd::prelude::*;
use vstd::string::StringExecFns;

use crate::json::{models, Json, JsonModel, JsonNumber, NumberModel};
use crate::text::{
    chars_of, decimal, decimal_text, find_from, is_word, is_word_char, name_texts, occurs, occurs_at,
    same_text, string_of,
};

verus! {

/// A scalar that is bound to one `?` of a prepared statement, outside the
/// statement text.
#[derive(Debug, PartialEq)]
pub enum HanaBind {
    /// SQL NULL.
    Null,
    /// An integer.
    Int(i64),
    /// A double, by its decimal text.
    Float(String),
    /// A boolean.
    Bool(bool),
    /// A string.
    Str(String),
}

/// What a [`HanaBind`] stands for.
pub enum BindModel {
    Null,
    Int(i64),
    Float(Seq<char>),
    Bool(bool),
    Str(Seq<char>),
}

impl View for HanaBind {
    type V = BindModel;

    open spec fn view(&self) -> BindModel {
        match self {
            HanaBind::Null => BindModel::Null,
            HanaBind::Int(i) => BindModel::Int(*i),
            HanaBind::Float(text) => BindModel::Float(text@),
            HanaBind::Bool(b) => BindModel::Bool(*b),
            HanaBind::Str(text) => BindModel::Str(text@),
        }
    }
}

/// What the binds of a statement stand for, in the order of its `?`.
pub open spec fn bind_models(binds: Seq<HanaBind>) -> Seq<BindModel> {
    binds.map_values(|b: HanaBind| b@)
}

/// The bind of a JSON value, or why it has none. Only scalars can be bound: one
/// `?` carries no array and no object. An integer that no `i64` holds is bound
/// as a double.
pub open spec fn bind_from_json(value: JsonModel) -> Result<BindModel, Seq<char>> {
    match value {
        JsonModel::Null => Ok(BindModel::Null),
        JsonModel::Bool(b) => Ok(BindModel::Bool(b)),
        JsonModel::Number(NumberModel::Integer(n)) => if i64::MIN <= n <= i64::MAX {
            Ok(BindModel::Int(n as i64))
        } else {
            Ok(BindModel::Float(decimal_text(n as nat)))
        },
        JsonModel::Number(NumberModel::Float(t)) => Ok(BindModel::Float(t)),
        JsonModel::Text(t) => Ok(BindModel::Str(t)),
        JsonModel::Array(_) => Err("a JSON array cannot be bound to a single `?`"@),
        JsonModel::Object(_) => Err("a JSON object cannot be bound to a single `?`"@),
    }
}

/// Lowers a JSON value onto a scalar bind.
pub fn json_to_hana_bind(value: Json) -> (bind: Result<HanaBind, String>)
    ensures
        match bind {
            Ok(b) => bind_from_json(value@) == Ok::<BindModel, Seq<char>>(b@),
            Err(words) => bind_from_json(value@) == Err::<BindModel, Seq<char>>(words@),
        },
{
    match value {
        Json::Null => Ok(HanaBind::Null),
        Json::Bool(b) => Ok(HanaBind::Bool(b)),
        Json::Number(JsonNumber::PosInt(n)) => if n <= i64::MAX as u64 {
            Ok(HanaBind::Int(n as i64))
        } else {
            Ok(HanaBind::Float(decimal(n as u128)))
        },
        Json::Number(JsonNumber::NegInt(n)) => Ok(HanaBind::Int(n)),
        Json::Number(JsonNumber::Float(t)) => Ok(HanaBind::Float(t)),
        Json::Str(t) => Ok(HanaBind::Str(t)),
        Json::Array(_) => Err("a JSON array cannot be bound to a single `?`".to_owned()),
        Json::Object(_) => Err("a JSON object cannot be bound to a single `?`".to_owned()),
    }
}

/// The binds of the first `n` values, or what the first value without a bind
/// leads to.
pub open spec fn binds_from_json(values: Seq<JsonModel>, n: int) -> Result<
    Seq<BindModel>,
    Seq<char>,
>
    decreases n,
{
    if n <= 0 {
        Ok(Seq::empty())
    } else {
        match (binds_from_json(values, n - 1), bind_from_json(values[n - 1])) {
            (Err(words), _) => Err(words),
            (Ok(_), Err(words)) => Err("binding params: "@ + words),
            (Ok(binds), Ok(bind)) => Ok(binds.push(bind)),
        }
    }
}

/// Lowers the values of the parameter expressions onto binds, in order.
pub fn lower_params(values: Vec<Json>) -> (binds: Result<Vec<HanaBind>, String>)
    ensures
        match binds {
            Ok(b) => binds_from_json(models(values@), values@.len() as int) == Ok::<
                Seq<BindModel>,
                Seq<char>,
            >(bind_models(b@)),
            Err(words) => binds_from_json(models(values@), values@.len() as int) == Err::<
                Seq<BindModel>,
                Seq<char>,
            >(words@),
        },
{
    let ghost all = models(values@);
    let mut binds: Vec<HanaBind> = Vec::new();
    assert(bind_models(binds@) =~= Seq::<BindModel>::empty());
    let mut i: usize = 0;
    while i < values.len()
        invariant
            i <= values@.len(),
            all == models(values@),
            binds_from_json(all, i as int) == Ok::<Seq<BindModel>, Seq<char>>(bind_models(binds@)),
        decreases values@.len() - i,
    {
        match json_to_hana_bind(values[i].copy()) {
            Ok(bind) => {
                assert(bind_models(binds@.push(bind)) =~= bind_models(binds@).push(bind@));
                binds.push(bind);
            },
            Err(words) => {
                let mut message = "binding params: ".to_owned();
                message.append(&words);
                proof {
                    lemma_bind_failure_stays(all, i + 1);
                }
                return Err(message);
            },
        }
        i += 1;
    }
    Ok(binds)
}

/// A failure among the first values is the failure of all of them.
proof fn lemma_bind_failure_stays(values: Seq<JsonModel>, n: int)
    requires
        0 <= n <= values.len(),
        binds_from_json(values, n) is Err,
    ensures
        binds_from_json(values, values.len() as int) == binds_from_json(values, n),
    decreases values.len() - n,
{
    if n < values.len() {
        lemma_bind_failure_stays(values, n + 1);
    }
}

/// Values that can all be bound give one bind each, in order, and each bind is
/// made from its value alone.
pub proof fn law_binds_follow_values(values: Seq<JsonModel>, n: int)
    requires
        0 <= n <= values.len(),
        forall|i: int| 0 <= i < n ==> !(#[trigger] values[i] is Array) && !(values[i] is Object),
    ensures
        binds_from_json(values, n) matches Ok(binds) && binds.len() == n && forall|i: int|
            0 <= i < n ==> bind_from_json(values[i]) == Ok::<BindModel, Seq<char>>(
                #[trigger] binds[i],
            ),
    decreases n,
{
    if n > 0 {
        law_binds_follow_values(values, n - 1);
        assert(!(values[n - 1] is Array) && !(values[n - 1] is Object));
    }
}

/// Arrays and objects are never bound: one among the values leaves the statement
/// without binds.
pub proof fn law_arrays_and_objects_are_never_bound(values: Seq<JsonModel>, n: int, i: int)
    requires
        0 <= i < n <= values.len(),
        values[i] is Array || values[i] is Object,
    ensures
        binds_from_json(values, n) is Err,
    decreases n,
{
    if i < n - 1 {
        law_arrays_and_objects_are_never_bound(values, n - 1, i);
    }
}

/// The end of the identifier that starts at `from`: the first position at or
/// after it that holds no letter, digit or underscore.
pub open spec fn word_end(s: Seq<char>, from: int) -> int
    decreases s.len() - from,
{
    if 0 <= from < s.len() && is_word_char(s[from]) {
        word_end(s, from + 1)
    } else {
        from
    }
}

/// The first position at or after `from` at which `arguments.` stands, and the
/// length of the text where it stands nowhere.
pub open spec fn marker_position(s: Seq<char>, from: int) -> int
    decreases s.len() - from,
{
    if from >= s.len() {
        s.len() as int
    } else if occurs_at(s, "arguments."@, from) {
        from
    } else {
        marker_position(s, from + 1)
    }
}

proof fn lemma_word_end(s: Seq<char>, from: int)
    requires
        0 <= from <= s.len(),
    ensures
        from <= word_end(s, from) <= s.len(),
    decreases s.len() - from,
{
    if from < s.len() && is_word_char(s[from]) {
        lemma_word_end(s, from + 1);
    }
}

proof fn lemma_marker_position(s: Seq<char>, from: int)
    requires
        0 <= from <= s.len(),
    ensures
        from <= marker_position(s, from) <= s.len(),
        marker_position(s, from) < s.len() ==> occurs_at(
            s,
            "arguments."@,
            marker_position(s, from),
        ),
    decreases s.len() - from,
{
    if from < s.len() && !occurs_at(s, "arguments."@, from) {
        lemma_marker_position(s, from + 1);
    }
}

/// The identifiers that stand behind `arguments.` in `s` from position `from`
/// on, in order.
pub open spec fn argument_idents(s: Seq<char>, from: int) -> Seq<Seq<char>>
    decreases s.len() - from,
    via argument_idents_shrink
{
    let at = marker_position(s, from);
    if from < 0 || at >= s.len() {
        Seq::empty()
    } else {
        let start = at + "arguments."@.len();
        let end = word_end(s, start);
        if end > start {
            seq![s.subrange(start, end)] + argument_idents(s, end)
        } else {
            argument_idents(s, end)
        }
    }
}

#[via_fn]
proof fn argument_idents_shrink(s: Seq<char>, from: int) {
    reveal_strlit("arguments.");
    if 0 <= from {
        if from < s.len() {
            lemma_marker_position(s, from);
            let at = marker_position(s, from);
            if at < s.len() {
                lemma_word_end(s, at + "arguments."@.len());
            }
        }
    }
}

/// The identifiers that stand behind `arguments.` in the source of a parameter
/// expression, in order.
pub fn extract_argument_idents(source: &str) -> (idents: Vec<String>)
    ensures
        name_texts(idents@) == argument_idents(source@, 0),
{
    let chars = chars_of(source);
    let marker = chars_of("arguments.");
    proof {
        reveal_strlit("arguments.");
    }
    let mut idents: Vec<String> = Vec::new();
    let mut from: usize = 0;
    assert(name_texts(idents@) + argument_idents(source@, 0) =~= argument_idents(source@, 0));
    loop
        invariant
            from <= chars@.len(),
            chars@ == source@,
            marker@ == "arguments."@,
            "arguments."@.len() == 10,
            name_texts(idents@) + argument_idents(source@, from as int) == argument_idents(
                source@,
                0,
            ),
        decreases chars@.len() - from,
    {
        match find_from(&chars, &marker, from) {
            None => {
                proof {
                    lemma_marker_position(source@, from as int);
                    assert(!occurs_at(source@, "arguments."@, marker_position(source@, from as int)));
                    assert(argument_idents(source@, from as int) =~= Seq::<Seq<char>>::empty());
                    assert(name_texts(idents@) + Seq::<Seq<char>>::empty() =~= name_texts(idents@));
                }
                return idents;
            },
            Some(at) => {
                proof {
                    lemma_marker_position(source@, from as int);
                    lemma_marker_is_first(source@, from as int, at as int);
                }
                let total: usize = chars.len();
                assert(at + 10 <= total);
                let start: usize = at + 10;
                let end: usize = end_of_word(&chars, start);
                let ghost before = idents@;
                let ghost tail = argument_idents(source@, end as int);
                if end > start {
                    let ident = string_of(&chars, start, end);
                    idents.push(ident);
                    assert(name_texts(idents@) =~= name_texts(before).push(ident@));
                    assert(name_texts(before) + (seq![ident@] + tail) =~= name_texts(idents@)
                        + tail);
                }
                from = end;
            },
        }
    }
}

/// Every identifier that is found is a word, not empty, that stands behind
/// `arguments.` in the source.
pub proof fn law_idents_stand_behind_arguments(s: Seq<char>, from: int, k: int)
    requires
        0 <= from <= s.len(),
        0 <= k < argument_idents(s, from).len(),
    ensures
        argument_idents(s, from)[k].len() > 0,
        forall|i: int|
            0 <= i < argument_idents(s, from)[k].len() ==> is_word_char(
                #[trigger] argument_idents(s, from)[k][i],
            ),
        occurs(s, "arguments."@ + argument_idents(s, from)[k]),
    decreases s.len() - from,
{
    reveal_strlit("arguments.");
    lemma_marker_position(s, from);
    let at = marker_position(s, from);
    let start = at + "arguments."@.len();
    let end = word_end(s, start);
    lemma_word_end(s, start);
    if end > start && k == 0 {
        let ident = s.subrange(start, end);
        assert(argument_idents(s, from)[0] == ident);
        assert(s.subrange(at, at + ("arguments."@ + ident).len()) =~= "arguments."@ + ident);
        assert(occurs_at(s, "arguments."@ + ident, at));
        assert forall|i: int| 0 <= i < ident.len() implies is_word_char(#[trigger] ident[i]) by {
            lemma_word_chars(s, start, start + i);
        }
    } else if end > start {
        law_idents_stand_behind_arguments(s, end, k - 1);
        assert(argument_idents(s, from)[k] == argument_idents(s, end)[k - 1]);
    } else {
        law_idents_stand_behind_arguments(s, end, k);
    }
}

/// An identifier consists of letters, digits and underscores.
proof fn lemma_word_chars(s: Seq<char>, from: int, i: int)
    requires
        0 <= from <= i < word_end(s, from),
        from <= s.len(),
    ensures
        is_word_char(s[i]),
    decreases s.len() - from,
{
    if from < i {
        lemma_word_chars(s, from + 1, i);
    }
}

/// The first occurrence found by search is the first one there is.
proof fn lemma_marker_is_first(s: Seq<char>, from: int, at: int)
    requires
        0 <= from <= at < s.len(),
        occurs_at(s, "arguments."@, at),
        forall|i: int| from <= i < at ==> !occurs_at(s, "arguments."@, i),
    ensures
        marker_position(s, from) == at,
    decreases at - from,
{
    if from < at {
        assert(!occurs_at(s, "arguments."@, from));
        lemma_marker_is_first(s, from + 1, at);
    }
}

/// The end of the identifier that starts at `from`.
fn end_of_word(chars: &Vec<char>, from: usize) -> (end: usize)
    requires
        from <= chars@.len(),
    ensures
        end == word_end(chars@, from as int),
        from <= end <= chars@.len(),
{
    let mut end: usize = from;
    while end < chars.len() && is_word(chars[end])
        invariant
            from <= end <= chars@.len(),
            word_end(chars@, from as int) == word_end(chars@, end as int),
        ensures
            from <= end <= chars@.len(),
            word_end(chars@, from as int) == end,
        decreases chars@.len() - end,
    {
        end += 1;
    }
    end
}

/// `names` followed by those of the first `n` of `more` that are not there yet.
pub open spec fn with_distinct(names: Seq<Seq<char>>, more: Seq<Seq<char>>, n: int) -> Seq<
    Seq<char>,
>
    decreases n,
{
    if n <= 0 {
        names
    } else {
        let before = with_distinct(names, more, n - 1);
        if before.contains(more[n - 1]) {
            before
        } else {
            before.push(more[n - 1])
        }
    }
}

/// Whether `name` is among `names`.
pub fn has_name(names: &Vec<String>, name: &str) -> (found: bool)
    ensures
        found == name_texts(names@).contains(name@),
{
    let ghost all = name_texts(names@);
    let mut i: usize = 0;
    while i < names.len()
        invariant
            i <= names@.len(),
            all == name_texts(names@),
            forall|j: int| 0 <= j < i ==> #[trigger] all[j] != name@,
        decreases names@.len() - i,
    {
        if same_text(&names[i], name) {
            assert(all[i as int] == name@);
            return true;
        }
        i += 1;
    }
    false
}

/// Adds a name that is not there yet.
pub fn add_distinct(names: &mut Vec<String>, name: &str)
    ensures
        name_texts(final(names)@) == if name_texts(old(names)@).contains(name@) {
            name_texts(old(names)@)
        } else {
            name_texts(old(names)@).push(name@)
        },
{
    if !has_name(names, name) {
        let owned = name.to_owned();
        assert(name_texts(names@.push(owned)) =~= name_texts(names@).push(name@));
        names.push(owned);
    }
}

/// The distinct argument names in the first `n` sources, first seen first.
pub open spec fn referenced_arguments(sources: Seq<String>, n: int) -> Seq<Seq<char>>
    decreases n,
{
    if n <= 0 {
        Seq::empty()
    } else {
        let idents = argument_idents(sources[n - 1]@, 0);
        with_distinct(referenced_arguments(sources, n - 1), idents, idents.len() as int)
    }
}

/// The distinct argument names that the parameter expressions refer to, first
/// seen first.
pub fn arguments_referenced_by_params(sources: &Vec<String>) -> (names: Vec<String>)
    ensures
        name_texts(names@) == referenced_arguments(sources@, sources@.len() as int),
{
    let mut names: Vec<String> = Vec::new();
    assert(name_texts(names@) =~= Seq::<Seq<char>>::empty());
    let mut i: usize = 0;
    while i < sources.len()
        invariant
            i <= sources@.len(),
            name_texts(names@) == referenced_arguments(sources@, i as int),
        decreases sources@.len() - i,
    {
        let idents = extract_argument_idents(&sources[i]);
        let ghost before = name_texts(names@);
        let ghost found = name_texts(idents@);
        let mut k: usize = 0;
        while k < idents.len()
            invariant
                k <= idents@.len(),
                found == name_texts(idents@),
                name_texts(names@) == with_distinct(before, found, k as int),
            decreases idents@.len() - k,
        {
            add_distinct(&mut names, &idents[k]);
            k += 1;
        }
        i += 1;
    }
    names
}

/// Names gathered this way are distinct, and are exactly those that were there
/// or were added.
pub proof fn law_with_distinct(names: Seq<Seq<char>>, more: Seq<Seq<char>>, n: int)
    requires
        names.no_duplicates(),
        0 <= n <= more.len(),
    ensures
        with_distinct(names, more, n).no_duplicates(),
        names.is_prefix_of(with_distinct(names, more, n)),
        forall|i: int| 0 <= i < n ==> with_distinct(names, more, n).contains(#[trigger] more[i]),
        forall|k: int|
            0 <= k < with_distinct(names, more, n).len() ==> names.contains(
                #[trigger] with_distinct(names, more, n)[k],
            ) || more.take(n).contains(with_distinct(names, more, n)[k]),
    decreases n,
{
    if n > 0 {
        law_with_distinct(names, more, n - 1);
        let before = with_distinct(names, more, n - 1);
        let after = with_distinct(names, more, n);
        assert forall|i: int| 0 <= i < n implies after.contains(#[trigger] more[i]) by {
            if i < n - 1 {
                assert(before.contains(more[i]));
                let k = choose|k: int| 0 <= k < before.len() && before[k] == more[i];
                assert(after[k] == more[i]);
            } else if !before.contains(more[n - 1]) {
                assert(after[after.len() - 1] == more[i]);
            }
        }
        assert forall|k: int| 0 <= k < after.len() implies names.contains(#[trigger] after[k])
            || more.take(n).contains(after[k]) by {
            if k < before.len() {
                assert(after[k] == before[k]);
                if !names.contains(before[k]) {
                    let i = choose|i: int|
                        0 <= i < n - 1 && #[trigger] more.take(n - 1)[i] == before[k];
                    assert(more.take(n)[i] == before[k]);
                }
            } else {
                assert(more.take(n)[n - 1] == after[k]);
            }
        }
    } else {
        assert forall|k: int| 0 <= k < names.len() implies names.contains(#[trigger] names[k]) by {}
    }
}

/// A bind stands for the scalar it carries, and the binds of a statement for
/// theirs, one for one and in order.
pub proof fn law_binds_stand_for_what_they_carry(
    n: i64,
    text: String,
    flag: bool,
    binds: Seq<HanaBind>,
)
    ensures
        HanaBind::Null@ == BindModel::Null,
        HanaBind::Int(n)@ == BindModel::Int(n),
        HanaBind::Float(text)@ == BindModel::Float(text@),
        HanaBind::Bool(flag)@ == BindModel::Bool(flag),
        HanaBind::Str(text)@ == BindModel::Str(text@),
        bind_models(binds).len() == binds.len(),
        forall|i: int| 0 <= i < binds.len() ==> #[trigger] bind_models(binds)[i] == binds[i]@,
{
}

/// Every scalar is bound as what it is: a string as that string, a boolean as
/// that boolean, an integer that an `i64` holds as that integer and a larger one
/// by its decimal digits, any other number by its text, `null` as SQL NULL. An
/// array or an object is refused, each in its own words.
pub proof fn law_scalars_are_bound_as_they_are(
    text: Seq<char>,
    flag: bool,
    n: int,
    items: Seq<JsonModel>,
    members: Seq<(Seq<char>, JsonModel)>,
)
    ensures
        bind_from_json(JsonModel::Text(text)) == Ok::<BindModel, Seq<char>>(BindModel::Str(text)),
        bind_from_json(JsonModel::Bool(flag)) == Ok::<BindModel, Seq<char>>(BindModel::Bool(flag)),
        bind_from_json(JsonModel::Null) == Ok::<BindModel, Seq<char>>(BindModel::Null),
        i64::MIN <= n <= i64::MAX ==> (bind_from_json(
            JsonModel::Number(NumberModel::Integer(n)),
        ) matches Ok(BindModel::Int(m)) && m == n),
        n > i64::MAX ==> bind_from_json(JsonModel::Number(NumberModel::Integer(n))) == Ok::<
            BindModel,
            Seq<char>,
        >(BindModel::Float(decimal_text(n as nat))),
        bind_from_json(JsonModel::Number(NumberModel::Float(text))) == Ok::<BindModel, Seq<char>>(
            BindModel::Float(text),
        ),
        bind_from_json(JsonModel::Array(items)) == Err::<BindModel, Seq<char>>(
            "a JSON array cannot be bound to a single `?`"@,
        ),
        bind_from_json(JsonModel::Object(members)) == Err::<BindModel, Seq<char>>(
            "a JSON object cannot be bound to a single `?`"@,
        ),
{
}

/// The first value that cannot be bound is the one that is told of.
pub proof fn law_first_unbound_value_is_told(values: Seq<JsonModel>, n: int, i: int)
    requires
        0 <= i < n <= values.len(),
        values[i] is Array || values[i] is Object,
        forall|j: int| 0 <= j < i ==> !(#[trigger] values[j] is Array) && !(values[j] is Object),
    ensures
        values[i] is Array ==> binds_from_json(values, n) == Err::<Seq<BindModel>, Seq<char>>(
            "binding params: "@ + "a JSON array cannot be bound to a single `?`"@,
        ),
        values[i] is Object ==> binds_from_json(values, n) == Err::<Seq<BindModel>, Seq<char>>(
            "binding params: "@ + "a JSON object cannot be bound to a single `?`"@,
        ),
    decreases n,
{
    if i < n - 1 {
        law_first_unbound_value_is_told(values, n - 1, i);
    } else {
        law_binds_follow_values(values, i);
    }
}

/// A source that does not hold `arguments.` refers to no argument.
pub proof fn law_no_marker_no_argument(s: Seq<char>)
    requires
        !occurs(s, "arguments."@),
    ensures
        argument_idents(s, 0).len() == 0,
{
    lemma_marker_position(s, 0);
}

/// The first `arguments.` of a source refers to the whole word behind it, and
/// what the rest of the source refers to comes after that. Where no word stands
/// behind it, it refers to nothing.
pub proof fn law_arguments_are_read_in_order(
    before: Seq<char>,
    word: Seq<char>,
    rest: Seq<char>,
)
    requires
        forall|i: int|
            0 <= i < before.len() ==> !#[trigger] occurs_at(
                before + "arguments."@ + word + rest,
                "arguments."@,
                i,
            ),
        forall|i: int| 0 <= i < word.len() ==> is_word_char(#[trigger] word[i]),
        rest.len() > 0 ==> !is_word_char(rest[0]),
    ensures
        argument_idents(before + "arguments."@ + word + rest, 0) == if word.len() > 0 {
            seq![word] + argument_idents(rest, 0)
        } else {
            argument_idents(rest, 0)
        },
{
    reveal_strlit("arguments.");
    let s = before + "arguments."@ + word + rest;
    let at = before.len() as int;
    let start = at + "arguments."@.len();
    let end = start + word.len();
    assert(s.subrange(at, start) =~= "arguments."@);
    assert(occurs_at(s, "arguments."@, at));
    lemma_marker_is_first(s, 0, at);
    assert forall|i: int| start <= i < end implies is_word_char(#[trigger] s[i]) by {
        assert(s[i] == word[i - start]);
    }
    if rest.len() > 0 {
        assert(s[end] == rest[0]);
    }
    lemma_word_ends(s, start, end);
    assert(s.subrange(start, end) =~= word);
    assert(s.skip(end) =~= rest);
    lemma_idents_of_the_rest(s, end, 0);
}

proof fn lemma_word_ends(s: Seq<char>, from: int, end: int)
    requires
        0 <= from <= end <= s.len(),
        forall|i: int| from <= i < end ==> is_word_char(#[trigger] s[i]),
        end < s.len() ==> !is_word_char(s[end]),
    ensures
        word_end(s, from) == end,
    decreases end - from,
{
    if from < end {
        assert(is_word_char(s[from]));
        lemma_word_ends(s, from + 1, end);
    }
}

/// What the source refers to from `cut + from` on is what its rest behind `cut`
/// refers to from `from` on.
proof fn lemma_idents_of_the_rest(s: Seq<char>, cut: int, from: int)
    requires
        0 <= cut <= s.len(),
        0 <= from,
        cut + from <= s.len(),
    ensures
        argument_idents(s, cut + from) == argument_idents(s.skip(cut), from),
    decreases s.len() - cut - from,
{
    reveal_strlit("arguments.");
    let t = s.skip(cut);
    lemma_marker_of_the_rest(s, cut, from);
    lemma_marker_position(t, from);
    let at = marker_position(t, from);
    if at < t.len() {
        let start = at + "arguments."@.len();
        lemma_word_of_the_rest(s, cut, start);
        lemma_word_end(t, start);
        let end = word_end(t, start);
        lemma_idents_of_the_rest(s, cut, end);
        assert(s.subrange(cut + start, cut + end) =~= t.subrange(start, end));
    }
}

proof fn lemma_marker_of_the_rest(s: Seq<char>, cut: int, from: int)
    requires
        0 <= cut <= s.len(),
        0 <= from,
        cut + from <= s.len(),
    ensures
        marker_position(s, cut + from) == cut + marker_position(s.skip(cut), from),
    decreases s.len() - cut - from,
{
    let t = s.skip(cut);
    if cut + from < s.len() {
        let n = "arguments."@.len();
        if cut + from + n <= s.len() {
            assert(s.subrange(cut + from, cut + from + n) =~= t.subrange(from, from + n));
        }
        assert(occurs_at(s, "arguments."@, cut + from) == occurs_at(t, "arguments."@, from));
        if !occurs_at(t, "arguments."@, from) {
            lemma_marker_of_the_rest(s, cut, from + 1);
        }
    }
}

proof fn lemma_word_of_the_rest(s: Seq<char>, cut: int, from: int)
    requires
        0 <= cut <= s.len(),
        0 <= from,
        cut + from <= s.len(),
    ensures
        word_end(s, cut + from) == cut + word_end(s.skip(cut), from),
    decreases s.len() - cut - from,
{
    if cut + from < s.len() && is_word_char(s[cut + from]) {
        assert(s.skip(cut)[from] == s[cut + from]);
        lemma_word_of_the_rest(s, cut, from + 1);
    }
}

/// Whether a source refers to the argument `name`.
pub open spec fn refers_to(source: String, name: Seq<char>) -> bool {
    argument_idents(source@, 0).contains(name)
}

/// The arguments that expressions refer to are exactly those that some of them
/// refers to, each named once; those of the first expressions come first.
pub proof fn law_referenced_arguments(sources: Seq<String>, n: int)
    requires
        0 <= n <= sources.len(),
    ensures
        referenced_arguments(sources, n).no_duplicates(),
        forall|i: int, name: Seq<char>|
            0 <= i < n && #[trigger] refers_to(sources[i], name) ==> referenced_arguments(
                sources,
                n,
            ).contains(name),
        forall|name: Seq<char>| #[trigger]
            referenced_arguments(sources, n).contains(name) ==> exists|i: int|
                0 <= i < n && #[trigger] refers_to(sources[i], name),
        n > 0 ==> referenced_arguments(sources, n - 1).is_prefix_of(
            referenced_arguments(sources, n),
        ),
        n > 0 ==> forall|k: int|
            0 <= k <= argument_idents(sources[n - 1]@, 0).len() ==> (#[trigger] with_distinct(
                referenced_arguments(sources, n - 1),
                argument_idents(sources[n - 1]@, 0),
                k,
            )).is_prefix_of(referenced_arguments(sources, n)),
    decreases n,
{
    if n > 0 {
        law_referenced_arguments(sources, n - 1);
        let before = referenced_arguments(sources, n - 1);
        let after = referenced_arguments(sources, n);
        let idents = argument_idents(sources[n - 1]@, 0);
        assert forall|k: int| 0 <= k <= idents.len() implies (#[trigger] with_distinct(
            before,
            idents,
            k,
        )).is_prefix_of(after) by {
            lemma_with_distinct_grows(before, idents, k, idents.len() as int);
        }
        law_with_distinct(before, idents, idents.len() as int);
        assert(idents.take(idents.len() as int) =~= idents);
        assert forall|i: int, name: Seq<char>|
            0 <= i < n && #[trigger] refers_to(sources[i], name) implies after.contains(name) by {
            if i < n - 1 {
                assert(before.contains(name));
                let j = choose|j: int| 0 <= j < before.len() && before[j] == name;
                assert(after[j] == name);
            } else {
                let k = choose|k: int| 0 <= k < idents.len() && idents[k] == name;
                assert(after.contains(idents[k]));
            }
        }
        assert forall|name: Seq<char>| #[trigger] after.contains(name) implies exists|i: int|
            0 <= i < n && #[trigger] refers_to(sources[i], name) by {
            let k = choose|k: int| 0 <= k < after.len() && after[k] == name;
            if before.contains(after[k]) {
                let i = choose|i: int| 0 <= i < n - 1 && #[trigger] refers_to(sources[i], name);
                assert(refers_to(sources[i], name));
            } else {
                assert(refers_to(sources[n - 1], name));
            }
        }
    }
}

proof fn lemma_with_distinct_grows(
    names: Seq<Seq<char>>,
    more: Seq<Seq<char>>,
    k: int,
    n: int,
)
    requires
        0 <= k <= n <= more.len(),
    ensures
        with_distinct(names, more, k).is_prefix_of(with_distinct(names, more, n)),
    decreases n,
{
    if k < n {
        lemma_with_distinct_grows(names, more, k, n - 1);
        let before = with_distinct(names, more, n - 1);
        let after = with_distinct(names, more, n);
        assert(before.is_prefix_of(after));
        assert(with_distinct(names, more, k) =~= after.subrange(
            0,
            with_distinct(names, more, k).len() as int,
        ));
    }
}

/// Of the names that are added, those that come first stay first.
pub proof fn law_added_names_keep_their_order(
    names: Seq<Seq<char>>,
    more: Seq<Seq<char>>,
    n: int,
)
    requires
        0 <= n < more.len(),
    ensures
        with_distinct(names, more, 0) == names,
        with_distinct(names, more, n).contains(more[n]) ==> with_distinct(names, more, n + 1)
            == with_distinct(names, more, n),
        !with_distinct(names, more, n).contains(more[n]) ==> with_distinct(names, more, n + 1)
            == with_distinct(names, more, n).push(more[n]),
{
}

/// A JSON value is lowered onto the bind that carries it, and only arrays and
/// objects are refused.
pub proof fn law_json_lowers_onto_binds(value: Json, bind: Result<HanaBind, String>)
    requires
        call_ensures(json_to_hana_bind, (value,), bind),
    ensures
        bind is Err <==> value@ is Array || value@ is Object,
        value@ is Null ==> (bind matches Ok(HanaBind::Null)),
        value@ matches JsonModel::Bool(flag) ==> (bind matches Ok(HanaBind::Bool(b)) && b == flag),
        value@ matches JsonModel::Text(text) ==> (bind matches Ok(HanaBind::Str(t)) && t@ == text),
        value@ matches JsonModel::Number(NumberModel::Float(text)) ==> (bind matches Ok(
            HanaBind::Float(t),
        ) && t@ == text),
        value@ matches JsonModel::Number(NumberModel::Integer(n)) ==> i64::MIN <= n <= i64::MAX
            ==> (bind matches Ok(HanaBind::Int(m)) && m == n),
{
}

/// The values of the parameters are lowered one by one, in order, each onto the
/// bind that it would be lowered onto by itself.
pub proof fn law_parameters_lower_one_by_one(
    values: Vec<Json>,
    binds: Vec<HanaBind>,
    i: int,
    one: Result<HanaBind, String>,
)
    requires
        call_ensures(lower_params, (values,), Ok::<Vec<HanaBind>, String>(binds)),
        0 <= i < values@.len(),
        call_ensures(json_to_hana_bind, (values@[i],), one),
    ensures
        binds@.len() == values@.len(),
        one matches Ok(bind) && bind@ == binds@[i]@,
{
    let all = models(values@);
    assert forall|k: int| 0 <= k < all.len() implies !(#[trigger] all[k] is Array) && !(
    all[k] is Object) by {
        if all[k] is Array || all[k] is Object {
            law_arrays_and_objects_are_never_bound(all, all.len() as int, k);
        }
    }
    law_binds_follow_values(all, all.len() as int);
    assert(all[i] == values@[i]@);
    assert(bind_models(binds@)[i] == binds@[i]@);
}

} // verus!

//! The MCP surfaces and the bodies that the gateway expects on each: contents
//! of a resource, messages of a prompt, pages of a resource listing and
//! candidates of a completion.
use vstd::prelude::*;
use vstd::utf8::encode_utf8;

use crate::envelope::copy_all;
use crate::json::{
    distinct_names, first_member_of, folded_member_of, json_text,
    law_folded_lookup_finds_the_first, lemma_lookup_distinct, lookup, member_models, member_of,
    members, models, put, reads_back, to_text, Json, JsonModel, NumberModel,
};
use crate::text::{decimal, decimal_text, lowered, name_texts, text_option, trim, trimmed};
use crate::types::{text_or_empty, ListQueryConfig, ListQueryMode};

verus! {

/// The MCP surface that a binding serves.
#[derive(Debug, Clone, Copy, PartialEq, Eq, Structural)]
pub enum Surface {
    /// `tools/call`.
    Tool,
    /// `resources/read`.
    Resource,
    /// `prompts/get`.
    Prompt,
}

/// The wire token of a surface.
pub open spec fn surface_token(surface: Surface) -> Seq<char> {
    match surface {
        Surface::Tool => "tool"@,
        Surface::Resource => "resource"@,
        Surface::Prompt => "prompt"@,
    }
}

impl Default for Surface {
    fn default() -> (surface: Self)
        ensures
            surface == Surface::Tool,
    {
        Surface::Tool
    }
}

impl Surface {
    /// The wire token of the surface.
    pub fn as_str(self) -> (token: &'static str)
        ensures
            token@ == surface_token(self),
    {
        match self {
            Surface::Tool => "tool",
            Surface::Resource => "resource",
            Surface::Prompt => "prompt",
        }
    }
}

/// The plain text of a value whose JSON text is `rendered`: a string is bare,
/// `null` has none, and any other value is its JSON text.
pub open spec fn plain_text(value: JsonModel, rendered: Result<Seq<char>, Seq<char>>) -> Option<
    Seq<char>,
> {
    match value {
        JsonModel::Text(text) => Some(text),
        JsonModel::Null => None,
        _ => match rendered {
            Ok(text) => Some(text),
            Err(_) => None,
        },
    }
}

/// The plain text of a value.
pub open spec fn scalar_text(value: JsonModel) -> Option<Seq<char>> {
    plain_text(value, Ok(json_text(value)))
}

/// The plain text of a value whose JSON text is `rendered`.
pub fn plain_text_of(value: &Json, rendered: Result<String, String>) -> (text: Option<String>)
    ensures
        text_option(text) == plain_text(
            value@,
            match rendered {
                Ok(t) => Ok(t@),
                Err(e) => Err(e@),
            },
        ),
{
    match value {
        Json::Str(s) => Some(s.clone()),
        Json::Null => None,
        _ => match rendered {
            Ok(text) => Some(text),
            Err(_) => None,
        },
    }
}

/// The plain text of a value: a string bare, nothing for `null`, and the JSON
/// text of any other value.
pub fn scalar_text_of(value: &Json) -> (text: Option<String>)
    ensures
        text_option(text) == scalar_text(value@),
{
    plain_text_of(value, to_text(value))
}

/// The URI that the contents of a resource carry: the static one where the
/// binding has it, else the string argument `uri`.
pub open spec fn resource_uri(static_uri: Option<Seq<char>>, arguments: JsonModel) -> Option<
    Seq<char>,
> {
    match static_uri {
        Some(uri) => Some(uri),
        None => match member_of(arguments, "uri"@) {
            Some(JsonModel::Text(uri)) => Some(uri),
            _ => None,
        },
    }
}

/// The URI that the contents of a resource carry.
pub fn resolve_resource_uri<'a>(static_uri: Option<&'a str>, arguments: &'a Json) -> (uri: Option<
    &'a str,
>)
    ensures
        match uri {
            Some(u) => resource_uri(
                match static_uri {
                    Some(s) => Some(s@),
                    None => None,
                },
                arguments@,
            ) == Some(u@),
            None => resource_uri(
                match static_uri {
                    Some(s) => Some(s@),
                    None => None,
                },
                arguments@,
            ) is None,
        },
{
    match static_uri {
        Some(uri) => Some(uri),
        None => match arguments.get("uri") {
            Some(value) => value.as_str(),
            None => None,
        },
    }
}

/// The text of rows: their JSON array.
fn rows_to_text(rows: &Vec<Json>) -> (text: String)
    ensures
        text@ == json_text(JsonModel::Array(models(rows@))),
        reads_back(encode_utf8(text@), JsonModel::Array(models(rows@))),
{
    match to_text(&Json::array(copy_all(rows))) {
        Ok(text) => text,
        Err(words) => words,
    }
}

/// The `resources/read` body with one content.
pub open spec fn contents_json(uri: Seq<char>, text: Seq<char>) -> JsonModel {
    JsonModel::Object(
        seq![
            (
                "contents"@,
                JsonModel::Array(
                    seq![
                        JsonModel::Object(
                            seq![
                                ("uri"@, JsonModel::Text(uri)),
                                ("mimeType"@, JsonModel::Text("application/json"@)),
                                ("text"@, JsonModel::Text(text)),
                            ],
                        ),
                    ],
                ),
            ),
        ],
    )
}

/// The `resources/read` body with one content.
pub fn contents_body(uri: &str, text: &str) -> (body: Json)
    ensures
        body@ == contents_json(uri@, text@),
{
    let mut content = members();
    put(&mut content, "uri", Json::text(uri));
    put(&mut content, "mimeType", Json::text("application/json"));
    put(&mut content, "text", Json::text(text));
    let ghost inner = seq![
        ("uri"@, JsonModel::Text(uri@)),
        ("mimeType"@, JsonModel::Text("application/json"@)),
        ("text"@, JsonModel::Text(text@)),
    ];
    assert(member_models(content@) =~= inner);
    let mut contents: Vec<Json> = Vec::new();
    contents.push(Json::object(content));
    assert(models(contents@) =~= seq![JsonModel::Object(inner)]);
    let mut m = members();
    put(&mut m, "contents", Json::array(contents));
    assert(member_models(m@) =~= contents_json(uri@, text@)->Object_0);
    Json::object(m)
}

/// The `resources/read` body of rows: one content, the JSON array of the rows.
/// Reading its text gives the rows back.
pub fn resource_contents_body(uri: &str, rows: &Vec<Json>) -> (body: Json)
    ensures
        body@ == contents_json(uri@, json_text(JsonModel::Array(models(rows@)))),
        reads_back(
            encode_utf8(json_text(JsonModel::Array(models(rows@)))),
            JsonModel::Array(models(rows@)),
        ),
{
    contents_body(uri, &rows_to_text(rows))
}

/// The `prompts/get` body with one user message.
pub open spec fn messages_json(text: Seq<char>) -> JsonModel {
    JsonModel::Object(
        seq![
            (
                "messages"@,
                JsonModel::Array(
                    seq![
                        JsonModel::Object(
                            seq![
                                ("role"@, JsonModel::Text("user"@)),
                                (
                                    "content"@,
                                    JsonModel::Object(
                                        seq![
                                            ("type"@, JsonModel::Text("text"@)),
                                            ("text"@, JsonModel::Text(text)),
                                        ],
                                    ),
                                ),
                            ],
                        ),
                    ],
                ),
            ),
        ],
    )
}

/// The `prompts/get` body with one user message.
pub fn messages_body(text: &str) -> (body: Json)
    ensures
        body@ == messages_json(text@),
{
    let mut content = members();
    put(&mut content, "type", Json::text("text"));
    put(&mut content, "text", Json::text(text));
    let ghost inner = seq![("type"@, JsonModel::Text("text"@)), ("text"@, JsonModel::Text(text@))];
    assert(member_models(content@) =~= inner);
    let mut message = members();
    put(&mut message, "role", Json::text("user"));
    put(&mut message, "content", Json::object(content));
    let ghost outer = seq![
        ("role"@, JsonModel::Text("user"@)),
        ("content"@, JsonModel::Object(inner)),
    ];
    assert(member_models(message@) =~= outer);
    let mut messages: Vec<Json> = Vec::new();
    messages.push(Json::object(message));
    assert(models(messages@) =~= seq![JsonModel::Object(outer)]);
    let mut m = members();
    put(&mut m, "messages", Json::array(messages));
    assert(member_models(m@) =~= messages_json(text@)->Object_0);
    Json::object(m)
}

/// The `prompts/get` body of rows: one user message, the JSON array of the rows.
/// Reading its text gives the rows back.
pub fn prompt_messages_body(rows: &Vec<Json>) -> (body: Json)
    ensures
        body@ == messages_json(json_text(JsonModel::Array(models(rows@)))),
        reads_back(
            encode_utf8(json_text(JsonModel::Array(models(rows@)))),
            JsonModel::Array(models(rows@)),
        ),
{
    messages_body(&rows_to_text(rows))
}

/// One resource of a listing.
#[derive(Debug, PartialEq)]
pub struct ListedResource {
    pub uri: String,
    pub name: Option<String>,
    pub description: Option<String>,
    pub mime_type: Option<String>,
}

/// What a [`ListedResource`] stands for.
pub struct ListedModel {
    pub uri: Seq<char>,
    pub name: Option<Seq<char>>,
    pub description: Option<Seq<char>>,
    pub mime_type: Option<Seq<char>>,
}

impl View for ListedResource {
    type V = ListedModel;

    open spec fn view(&self) -> ListedModel {
        ListedModel {
            uri: self.uri@,
            name: text_option(self.name),
            description: text_option(self.description),
            mime_type: text_option(self.mime_type),
        }
    }
}

/// What the resources of a page stand for.
pub open spec fn listed_models(resources: Seq<ListedResource>) -> Seq<ListedModel> {
    resources.map_values(|r: ListedResource| r@)
}

/// A page of a listing, and where the next one starts.
#[derive(Debug, PartialEq)]
pub struct ResourcePage {
    pub resources: Vec<ListedResource>,
    pub next_cursor: Option<String>,
}

impl ResourcePage {
    /// A page with no resource and no page after it.
    pub fn empty() -> (page: ResourcePage)
        ensures
            page.resources@.len() == 0,
            page.next_cursor is None,
    {
        ResourcePage { resources: Vec::new(), next_cursor: None }
    }
}

/// The plain text of a column, whose name HANA may have put in capitals.
pub open spec fn column_text(row: JsonModel, column: Seq<char>) -> Option<Seq<char>> {
    match folded_member_of(row, column) {
        Some(value) => scalar_text(value),
        None => None,
    }
}

/// The plain text of a column.
fn column_text_of(row: &Json, column: &str) -> (text: Option<String>)
    ensures
        text_option(text) == column_text(row@, column@),
{
    match row.get_ignoring_case(column) {
        Some(value) => scalar_text_of(value),
        None => None,
    }
}

/// The resources of the first `n` rows. A row without a `uri` lists nothing.
pub open spec fn listed(rows: Seq<JsonModel>, n: int) -> Seq<ListedModel>
    decreases n,
{
    if n <= 0 {
        Seq::empty()
    } else {
        let before = listed(rows, n - 1);
        let row = rows[n - 1];
        match column_text(row, "uri"@) {
            Some(uri) => before.push(
                ListedModel {
                    uri,
                    name: column_text(row, "name"@),
                    description: column_text(row, "description"@),
                    mime_type: column_text(row, "mime_type"@),
                },
            ),
            None => before,
        }
    }
}

/// Where the page after these rows starts. There is none after a page that is
/// not full; otherwise it is the cursor column of the last row, or the number of
/// rows so far.
pub open spec fn next_page(rows: Seq<JsonModel>, cfg: ListQueryConfig, prior_offset: u64) -> Option<
    Seq<char>,
> {
    if rows.len() == 0 || rows.len() < cfg.page_size {
        None
    } else {
        match cfg.mode {
            ListQueryMode::Keyset => column_text(
                rows.last(),
                trimmed(text_or_empty(cfg.cursor_column)),
            ),
            ListQueryMode::Offset => Some(decimal_text((prior_offset + rows.len()) as nat)),
        }
    }
}

/// The page of a listing that these rows make.
pub fn rows_to_resource_page(rows: &Vec<Json>, cfg: &ListQueryConfig, prior_offset: u64) -> (page:
    ResourcePage)
    ensures
        listed_models(page.resources@) == listed(models(rows@), rows@.len() as int),
        text_option(page.next_cursor) == next_page(models(rows@), *cfg, prior_offset),
{
    let ghost all = models(rows@);
    let mut resources: Vec<ListedResource> = Vec::new();
    assert(listed_models(resources@) =~= Seq::<ListedModel>::empty());
    let mut i: usize = 0;
    while i < rows.len()
        invariant
            i <= rows@.len(),
            all == models(rows@),
            listed_models(resources@) == listed(all, i as int),
        decreases rows@.len() - i,
    {
        let row = &rows[i];
        if let Some(uri) = column_text_of(row, "uri") {
            let resource = ListedResource {
                uri,
                name: column_text_of(row, "name"),
                description: column_text_of(row, "description"),
                mime_type: column_text_of(row, "mime_type"),
            };
            assert(listed_models(resources@.push(resource)) =~= listed_models(resources@).push(
                resource@,
            ));
            resources.push(resource);
        }
        i += 1;
    }
    let next_cursor = if rows.len() == 0 || (rows.len() as u64) < cfg.page_size {
        None
    } else {
        match cfg.mode {
            ListQueryMode::Keyset => {
                let column = match &cfg.cursor_column {
                    Some(text) => trim(text),
                    None => trim(""),
                };
                proof {
                    reveal_strlit("");
                    assert(""@ =~= Seq::<char>::empty());
                }
                column_text_of(&rows[rows.len() - 1], &column)
            },
            ListQueryMode::Offset => Some(decimal(prior_offset as u128 + rows.len() as u128)),
        }
    };
    ResourcePage { resources, next_cursor }
}

/// The name of the first column of rows.
pub open spec fn first_column(rows: Seq<JsonModel>) -> Option<Seq<char>> {
    if rows.len() == 0 {
        None
    } else {
        match first_member_of(rows[0]) {
            Some(member) => Some(member.0),
            None => None,
        }
    }
}

/// The name of the first column of rows.
pub fn first_column_of(rows: &Vec<Json>) -> (column: Option<String>)
    ensures
        text_option(column) == first_column(models(rows@)),
{
    if rows.len() == 0 {
        return None;
    }
    match rows[0].first_member() {
        Some(member) => Some(member.0.to_owned()),
        None => None,
    }
}

/// The plain texts of a column in the first `n` rows, without those that have
/// none.
pub open spec fn candidates(rows: Seq<JsonModel>, column: Seq<char>, n: int) -> Seq<Seq<char>>
    decreases n,
{
    if n <= 0 {
        Seq::empty()
    } else {
        let before = candidates(rows, column, n - 1);
        match member_of(rows[n - 1], column) {
            Some(value) => match scalar_text(value) {
                Some(text) => before.push(text),
                None => before,
            },
            None => before,
        }
    }
}

/// The first `max` of a list.
pub open spec fn capped(list: Seq<Seq<char>>, max: nat) -> Seq<Seq<char>> {
    if list.len() <= max {
        list
    } else {
        list.take(max as int)
    }
}

/// The completion candidates of rows: the plain texts of one column, at most
/// `max` of them.
pub open spec fn completion_values(rows: Seq<JsonModel>, column: Option<Seq<char>>, max: nat) -> Seq<
    Seq<char>,
> {
    match column {
        Some(name) => capped(candidates(rows, name, rows.len() as int), max),
        None => Seq::empty(),
    }
}

/// The completion candidates of rows.
pub fn rows_to_completion_values(rows: &Vec<Json>, first_col: Option<&str>, max: usize) -> (values:
    Vec<String>)
    ensures
        name_texts(values@) == completion_values(
            models(rows@),
            match first_col {
                Some(c) => Some(c@),
                None => None,
            },
            max as nat,
        ),
{
    let ghost all = models(rows@);
    let mut values: Vec<String> = Vec::new();
    assert(name_texts(values@) =~= Seq::<Seq<char>>::empty());
    let column = match first_col {
        Some(column) => column,
        None => return values,
    };
    let mut i: usize = 0;
    while i < rows.len()
        invariant
            i <= rows@.len(),
            all == models(rows@),
            name_texts(values@) == capped(candidates(all, column@, i as int), max as nat),
        decreases rows@.len() - i,
    {
        let ghost before = candidates(all, column@, i as int);
        let text = match rows[i].get(column) {
            Some(value) => scalar_text_of(value),
            None => None,
        };
        if let Some(value) = text {
            if values.len() < max {
                assert(name_texts(values@.push(value)) =~= name_texts(values@).push(value@));
                values.push(value);
            } else {
                assert(before.push(value@).take(max as int) =~= capped(before, max as nat));
            }
        }
        i += 1;
    }
    values
}

/// The plain text of a string is the string, `null` has none, and any other value
/// has its JSON text; where there is no JSON text, only strings have one.
pub proof fn law_plain_texts(
    text: Seq<char>,
    flag: bool,
    number: NumberModel,
    items: Seq<JsonModel>,
    members: Seq<(Seq<char>, JsonModel)>,
    words: Seq<char>,
)
    ensures
        scalar_text(JsonModel::Text(text)) == Some(text),
        scalar_text(JsonModel::Null) is None,
        scalar_text(JsonModel::Bool(flag)) == Some(json_text(JsonModel::Bool(flag))),
        scalar_text(JsonModel::Number(number)) == Some(json_text(JsonModel::Number(number))),
        scalar_text(JsonModel::Array(items)) == Some(json_text(JsonModel::Array(items))),
        scalar_text(JsonModel::Object(members)) == Some(json_text(JsonModel::Object(members))),
        plain_text(JsonModel::Text(text), Err(words)) == Some(text),
        plain_text(JsonModel::Bool(flag), Err(words)) is None,
        plain_text(JsonModel::Number(number), Err(words)) is None,
        plain_text(JsonModel::Array(items), Err(words)) is None,
        plain_text(JsonModel::Object(members), Err(words)) is None,
{
}

/// The static URI of a binding comes before anything that the caller sends; with
/// none, the string argument `uri` counts, and nothing else.
pub proof fn law_resource_uris(uri: Seq<char>, other: Seq<char>, arguments: JsonModel)
    ensures
        resource_uri(Some(uri), arguments) == Some(uri),
        member_of(arguments, "uri"@) == Some(JsonModel::Text(other)) ==> resource_uri(
            None,
            arguments,
        ) == Some(other),
        !(member_of(arguments, "uri"@) matches Some(JsonModel::Text(_))) ==> resource_uri(
            None,
            arguments,
        ) is None,
{
}

/// The surfaces have different wire tokens.
pub proof fn law_surface_tokens_differ(a: Surface, b: Surface)
    ensures
        surface_token(a) == surface_token(b) <==> a == b,
        surface_token(Surface::Tool) == "tool"@,
        surface_token(Surface::Resource) == "resource"@,
        surface_token(Surface::Prompt) == "prompt"@,
{
    reveal_strlit("tool");
    reveal_strlit("resource");
    reveal_strlit("prompt");
    assert(surface_token(Surface::Tool).len() == 4);
    assert(surface_token(Surface::Resource).len() == 8);
    assert(surface_token(Surface::Prompt).len() == 6);
}

/// The member of a `resources/read` body, by its name.
proof fn lemma_contents_name(all: Seq<(Seq<char>, JsonModel)>)
    requires
        all.len() == 1,
        all[0].0 == "contents"@,
    ensures
        distinct_names(all),
        lookup(all, "contents"@) == Some(all[0].1),
{
    reveal_strlit("contents");
    lemma_lookup_distinct(all, 0);
}

/// The members of a content, by their names.
proof fn lemma_content_names(all: Seq<(Seq<char>, JsonModel)>)
    requires
        all.len() == 3,
        all[0].0 == "uri"@,
        all[1].0 == "mimeType"@,
        all[2].0 == "text"@,
    ensures
        distinct_names(all),
        lookup(all, "uri"@) == Some(all[0].1),
        lookup(all, "mimeType"@) == Some(all[1].1),
        lookup(all, "text"@) == Some(all[2].1),
{
    reveal_strlit("uri");
    reveal_strlit("mimeType");
    reveal_strlit("text");
    assert(all[0].0.len() == 3 && all[1].0.len() == 8 && all[2].0.len() == 4);
    assert forall|i: int, j: int| 0 <= i < j < all.len() implies (#[trigger] all[i]).0 != (
    #[trigger] all[j]).0 by {
        assert(i == 0 || i == 1 || i == 2);
        assert(j == 0 || j == 1 || j == 2);
    }
    lemma_lookup_distinct(all, 0);
    lemma_lookup_distinct(all, 1);
    lemma_lookup_distinct(all, 2);
}

/// The member of a `prompts/get` body, by its name.
proof fn lemma_messages_name(all: Seq<(Seq<char>, JsonModel)>)
    requires
        all.len() == 1,
        all[0].0 == "messages"@,
    ensures
        distinct_names(all),
        lookup(all, "messages"@) == Some(all[0].1),
{
    reveal_strlit("messages");
    lemma_lookup_distinct(all, 0);
}

/// The members of a message, by their names.
proof fn lemma_message_names(all: Seq<(Seq<char>, JsonModel)>)
    requires
        all.len() == 2,
        all[0].0 == "role"@,
        all[1].0 == "content"@,
    ensures
        distinct_names(all),
        lookup(all, "role"@) == Some(all[0].1),
        lookup(all, "content"@) == Some(all[1].1),
{
    reveal_strlit("role");
    reveal_strlit("content");
    assert(all[0].0.len() == 4 && all[1].0.len() == 7);
    assert forall|i: int, j: int| 0 <= i < j < all.len() implies (#[trigger] all[i]).0 != (
    #[trigger] all[j]).0 by {
        assert(i == 0 || i == 1);
        assert(j == 0 || j == 1);
    }
    lemma_lookup_distinct(all, 0);
    lemma_lookup_distinct(all, 1);
}

/// The members of the content of a message, by their names.
proof fn lemma_message_content_names(all: Seq<(Seq<char>, JsonModel)>)
    requires
        all.len() == 2,
        all[0].0 == "type"@,
        all[1].0 == "text"@,
    ensures
        distinct_names(all),
        lookup(all, "type"@) == Some(all[0].1),
        lookup(all, "text"@) == Some(all[1].1),
{
    reveal_strlit("type");
    reveal_strlit("text");
    assert(all[0].0.len() == 4 && all[1].0.len() == 4);
    assert(all[0].0[1] != all[1].0[1]);
    assert forall|i: int, j: int| 0 <= i < j < all.len() implies (#[trigger] all[i]).0 != (
    #[trigger] all[j]).0 by {
        assert(i == 0 || i == 1);
        assert(j == 0 || j == 1);
    }
    lemma_lookup_distinct(all, 0);
    lemma_lookup_distinct(all, 1);
}


/// A `resources/read` body has one content, which carries the URI and the text as
/// they stand and is JSON.
pub proof fn law_contents_carry_uri_and_text(uri: Seq<char>, text: Seq<char>)
    ensures
        member_of(contents_json(uri, text), "contents"@) matches Some(JsonModel::Array(contents))
            && contents.len() == 1 && member_of(contents[0], "uri"@) == Some(JsonModel::Text(uri))
            && member_of(contents[0], "mimeType"@) == Some(JsonModel::Text("application/json"@))
            && member_of(contents[0], "text"@) == Some(JsonModel::Text(text)),
{
    let body = contents_json(uri, text)->Object_0;
    lemma_contents_name(body);
    lemma_content_names(body[0].1->Array_0[0]->Object_0);
}

/// A `prompts/get` body has one message, of the user, whose content is the text
/// as it stands.
pub proof fn law_messages_carry_the_text(text: Seq<char>)
    ensures
        member_of(messages_json(text), "messages"@) matches Some(JsonModel::Array(messages))
            && messages.len() == 1 && member_of(messages[0], "role"@) == Some(
            JsonModel::Text("user"@),
        ) && (member_of(messages[0], "content"@) matches Some(content) && member_of(
            content,
            "type"@,
        ) == Some(JsonModel::Text("text"@)) && member_of(content, "text"@) == Some(
            JsonModel::Text(text),
        )),
{
    let body = messages_json(text)->Object_0;
    lemma_messages_name(body);
    let message = body[0].1->Array_0[0]->Object_0;
    lemma_message_names(message);
    lemma_message_content_names(message[1].1->Object_0);
}

/// The column `name` of a row, whatever its case, has the value `value`: it is
/// the first member that agrees with that name.
pub open spec fn holds_column(row: JsonModel, name: Seq<char>, value: JsonModel) -> bool {
    row matches JsonModel::Object(members) && exists|i: int|
        {
            &&& 0 <= i < members.len()
            &&& lowered((#[trigger] members[i]).0) == lowered(name)
            &&& members[i].1 == value
            &&& forall|j: int| 0 <= j < i ==> lowered((#[trigger] members[j]).0) != lowered(name)
        }
}

/// The text of a column is that of its value: the string itself, the JSON text of
/// any other value, and none for `null` or a row without the column.
pub proof fn law_column_texts(row: JsonModel, name: Seq<char>, value: JsonModel)
    ensures
        holds_column(row, name, value) ==> column_text(row, name) == match value {
            JsonModel::Text(text) => Some(text),
            JsonModel::Null => None,
            _ => Some(json_text(value)),
        },
        row matches JsonModel::Object(members) ==> (forall|i: int|
            0 <= i < members.len() ==> lowered((#[trigger] members[i]).0) != lowered(name))
            ==> column_text(row, name) is None,
        !(row is Object) ==> column_text(row, name) is None,
{
    if let JsonModel::Object(members) = row {
        law_folded_lookup_finds_the_first(members, name);
        if holds_column(row, name, value) {
            let i = choose|i: int|
                {
                    &&& 0 <= i < members.len()
                    &&& lowered((#[trigger] members[i]).0) == lowered(name)
                    &&& members[i].1 == value
                    &&& forall|j: int|
                        0 <= j < i ==> lowered((#[trigger] members[j]).0) != lowered(name)
                };
            assert(lowered(members[i].0) == lowered(name));
            let found = folded_member_of(row, name)->0;
            let k = choose|k: int|
                {
                    &&& 0 <= k < members.len()
                    &&& lowered((#[trigger] members[k]).0) == lowered(name)
                    &&& members[k].1 == found
                    &&& forall|j: int|
                        0 <= j < k ==> lowered((#[trigger] members[j]).0) != lowered(name)
                };
            assert(lowered(members[k].0) == lowered(name));
            assert(i == k);
        }
    }
}

/// A full page in keyset mode has a next page, which starts behind the cursor
/// column of the last row: the cursor is that string, or the JSON text of any
/// other value. Where the column is `null` there is no next page.
pub proof fn law_full_keyset_pages_have_a_cursor(
    rows: Seq<JsonModel>,
    cfg: ListQueryConfig,
    column: String,
    value: JsonModel,
    prior_offset: u64,
)
    requires
        cfg.mode == ListQueryMode::Keyset,
        cfg.cursor_column == Some(column),
        rows.len() > 0,
        rows.len() >= cfg.page_size,
        holds_column(rows[rows.len() - 1], trimmed(column@), value),
    ensures
        next_page(rows, cfg, prior_offset) == match value {
            JsonModel::Text(text) => Some(text),
            JsonModel::Null => None,
            _ => Some(json_text(value)),
        },
{
    law_column_texts(rows[rows.len() - 1], trimmed(column@), value);
}

/// A full page in offset mode has a next page, which starts behind all the rows
/// so far.
pub proof fn law_full_offset_pages_have_a_cursor(
    rows: Seq<JsonModel>,
    cfg: ListQueryConfig,
    prior_offset: u64,
)
    requires
        cfg.mode == ListQueryMode::Offset,
        rows.len() > 0,
        rows.len() >= cfg.page_size,
    ensures
        next_page(rows, cfg, prior_offset) == Some(
            decimal_text((prior_offset + rows.len()) as nat),
        ),
{
}

/// There is no page after one that is empty or not full.
pub proof fn law_short_pages_are_the_last(
    rows: Seq<JsonModel>,
    cfg: ListQueryConfig,
    prior_offset: u64,
)
    requires
        rows.len() == 0 || rows.len() < cfg.page_size,
    ensures
        next_page(rows, cfg, prior_offset) is None,
{
}

/// Every row with a `uri` lists one resource with the texts of its columns, and a
/// row without one lists nothing.
pub proof fn law_one_row_lists_one_resource(row: JsonModel)
    ensures
        column_text(row, "uri"@) matches Some(uri) ==> listed(seq![row], 1).len() == 1 && listed(
            seq![row],
            1,
        )[0] == (ListedModel {
            uri,
            name: column_text(row, "name"@),
            description: column_text(row, "description"@),
            mime_type: column_text(row, "mime_type"@),
        }),
        column_text(row, "uri"@) is None ==> listed(seq![row], 1).len() == 0,
{
    reveal_with_fuel(listed, 2);
}

/// A listing of rows is the listing of the first of them and then of the others.
pub proof fn law_listings_follow_their_rows(first: Seq<JsonModel>, others: Seq<JsonModel>)
    ensures
        listed(first + others, (first + others).len() as int) == listed(first, first.len() as int)
            + listed(others, others.len() as int),
    decreases others.len(),
{
    let all = first + others;
    if others.len() == 0 {
        assert(all =~= first);
    } else {
        let init = others.drop_last();
        law_listings_follow_their_rows(first, init);
        assert(all.drop_last() =~= first + init);
        lemma_listed_prefix(all, first + init, all.len() - 1);
        lemma_listed_prefix(others, init, others.len() - 1);
        assert(all[all.len() - 1] == others[others.len() - 1]);
        assert(listed(all, all.len() as int) =~= listed(first, first.len() as int) + listed(
            others,
            others.len() as int,
        ));
    }
}

proof fn lemma_listed_prefix(a: Seq<JsonModel>, b: Seq<JsonModel>, n: int)
    requires
        n <= a.len(),
        n <= b.len(),
        forall|i: int| 0 <= i < n ==> #[trigger] a[i] == b[i],
    ensures
        listed(a, n) == listed(b, n),
    decreases n,
{
    if n > 0 {
        lemma_listed_prefix(a, b, n - 1);
        assert(a[n - 1] == b[n - 1]);
    }
}

/// Where every row has a `uri`, there are as many resources as rows, in their
/// order.
pub proof fn law_every_row_with_a_uri_is_listed(rows: Seq<JsonModel>, n: int)
    requires
        0 <= n <= rows.len(),
        forall|i: int| 0 <= i < n ==> column_text(#[trigger] rows[i], "uri"@) is Some,
    ensures
        listed(rows, n).len() == n,
        forall|i: int|
            0 <= i < n ==> {
                &&& Some((#[trigger] listed(rows, n)[i]).uri) == column_text(rows[i], "uri"@)
                &&& listed(rows, n)[i].name == column_text(rows[i], "name"@)
                &&& listed(rows, n)[i].description == column_text(rows[i], "description"@)
                &&& listed(rows, n)[i].mime_type == column_text(rows[i], "mime_type"@)
            },
    decreases n,
{
    if n > 0 {
        law_every_row_with_a_uri_is_listed(rows, n - 1);
        assert(column_text(rows[n - 1], "uri"@) is Some);
    }
}

/// A listed resource stands for its texts, and those of a page for theirs, one
/// for one and in order.
pub proof fn law_listed_resources_stand_for_their_texts(
    resource: ListedResource,
    resources: Seq<ListedResource>,
)
    ensures
        resource@.uri == resource.uri@,
        resource@.name == text_option(resource.name),
        resource@.description == text_option(resource.description),
        resource@.mime_type == text_option(resource.mime_type),
        listed_models(resources).len() == resources.len(),
        forall|i: int|
            0 <= i < resources.len() ==> #[trigger] listed_models(resources)[i] == resources[i]@,
{
}

/// The first column of rows is the first member of the first row.
pub proof fn law_first_columns(rows: Seq<JsonModel>)
    ensures
        rows.len() == 0 ==> first_column(rows) is None,
        rows.len() > 0 ==> (rows[0] matches JsonModel::Object(members) ==> members.len() > 0
            ==> first_column(rows) == Some(members[0].0)),
        rows.len() > 0 ==> (rows[0] matches JsonModel::Object(members) ==> members.len() == 0
            ==> first_column(rows) is None),
        rows.len() > 0 ==> !(rows[0] is Object) ==> first_column(rows) is None,
{
}

/// A row gives the plain text of the column as its one candidate, and none where
/// the column is missing or `null`.
pub proof fn law_one_row_gives_one_candidate(row: JsonModel, column: Seq<char>)
    ensures
        member_of(row, column) matches Some(JsonModel::Text(text)) ==> candidates(
            seq![row],
            column,
            1,
        ) == seq![text],
        member_of(row, column) matches Some(value) ==> !(value is Null) && !(value is Text)
            ==> candidates(seq![row], column, 1) == seq![json_text(value)],
        member_of(row, column) == Some(JsonModel::Null) || member_of(row, column) is None
            ==> candidates(seq![row], column, 1).len() == 0,
{
    reveal_with_fuel(candidates, 2);
    if let Some(value) = member_of(row, column) {
        if let Some(text) = scalar_text(value) {
            assert(candidates(seq![row], column, 1) =~= seq![text]);
        }
    }
}

/// The candidates of rows are those of the first of them and then of the others.
pub proof fn law_candidates_follow_their_rows(
    first: Seq<JsonModel>,
    others: Seq<JsonModel>,
    column: Seq<char>,
)
    ensures
        candidates(first + others, column, (first + others).len() as int) == candidates(
            first,
            column,
            first.len() as int,
        ) + candidates(others, column, others.len() as int),
    decreases others.len(),
{
    let all = first + others;
    if others.len() == 0 {
        assert(all =~= first);
    } else {
        let init = others.drop_last();
        law_candidates_follow_their_rows(first, init, column);
        lemma_candidates_prefix(all, first + init, column, all.len() - 1);
        lemma_candidates_prefix(others, init, column, others.len() - 1);
        assert(all[all.len() - 1] == others[others.len() - 1]);
        assert(candidates(all, column, all.len() as int) =~= candidates(
            first,
            column,
            first.len() as int,
        ) + candidates(others, column, others.len() as int));
    }
}

proof fn lemma_candidates_prefix(
    a: Seq<JsonModel>,
    b: Seq<JsonModel>,
    column: Seq<char>,
    n: int,
)
    requires
        n <= a.len(),
        n <= b.len(),
        forall|i: int| 0 <= i < n ==> #[trigger] a[i] == b[i],
    ensures
        candidates(a, column, n) == candidates(b, column, n),
    decreases n,
{
    if n > 0 {
        lemma_candidates_prefix(a, b, column, n - 1);
        assert(a[n - 1] == b[n - 1]);
    }
}

/// The completion values are the candidates, all of them where the cap allows it
/// and else as many of the first ones as it allows; without a column there are
/// none.
pub proof fn law_completion_values_are_the_first_candidates(
    rows: Seq<JsonModel>,
    column: Seq<char>,
    max: nat,
)
    ensures
        ({
            let values = completion_values(rows, Some(column), max);
            let all = candidates(rows, column, rows.len() as int);
            &&& all.len() <= max ==> values.len() == all.len()
            &&& all.len() > max ==> values.len() == max
            &&& forall|i: int| 0 <= i < values.len() ==> #[trigger] values[i] == all[i]
        }),
        completion_values(rows, None, max).len() == 0,
{
}

/// The page that full rows in keyset mode make has a cursor, the plain text of the
/// cursor column of the last row, and lists the rows that have a `uri`.
pub proof fn law_pages_carry_the_cursor_of_their_last_row(
    rows: &Vec<Json>,
    cfg: &ListQueryConfig,
    prior_offset: u64,
    page: ResourcePage,
    column: String,
    value: JsonModel,
)
    requires
        call_ensures(rows_to_resource_page, (rows, cfg, prior_offset), page),
        cfg.mode == ListQueryMode::Keyset,
        cfg.cursor_column == Some(column),
        rows@.len() > 0,
        rows@.len() >= cfg.page_size,
        holds_column(rows@[rows@.len() - 1]@, trimmed(column@), value),
        !(value is Null),
    ensures
        page.next_cursor matches Some(cursor) && cursor@ == (match value {
            JsonModel::Text(text) => text,
            _ => json_text(value),
        }),
{
    assert(models(rows@)[rows@.len() - 1] == rows@[rows@.len() - 1]@);
    law_full_keyset_pages_have_a_cursor(models(rows@), *cfg, column, value, prior_offset);
}

/// The page of rows that all have a `uri` lists one resource for each, in order,
/// with that URI and the plain texts of the other columns.
pub proof fn law_pages_list_every_row(
    rows: &Vec<Json>,
    cfg: &ListQueryConfig,
    prior_offset: u64,
    page: ResourcePage,
    i: int,
)
    requires
        call_ensures(rows_to_resource_page, (rows, cfg, prior_offset), page),
        forall|k: int| 0 <= k < rows@.len() ==> column_text((#[trigger] rows@[k])@, "uri"@) is Some,
        0 <= i < rows@.len(),
    ensures
        page.resources@.len() == rows@.len(),
        Some(page.resources@[i].uri@) == column_text(rows@[i]@, "uri"@),
        text_option(page.resources@[i].name) == column_text(rows@[i]@, "name"@),
        text_option(page.resources@[i].description) == column_text(rows@[i]@, "description"@),
        text_option(page.resources@[i].mime_type) == column_text(rows@[i]@, "mime_type"@),
{
    let all = models(rows@);
    assert forall|k: int| 0 <= k < all.len() implies column_text(#[trigger] all[k], "uri"@)
        is Some by {
        assert(all[k] == rows@[k]@);
    }
    law_every_row_with_a_uri_is_listed(all, all.len() as int);
    assert(listed_models(page.resources@).len() == page.resources@.len());
    assert(listed_models(page.resources@)[i] == page.resources@[i]@);
    assert(listed(all, all.len() as int)[i] == page.resources@[i]@);
}

/// What the body of a resource or of a prompt holds is the text of all the rows.
pub proof fn law_bodies_hold_the_text_of_the_rows(
    uri: &str,
    rows: &Vec<Json>,
    contents: Json,
    messages: Json,
)
    requires
        call_ensures(resource_contents_body, (uri, rows), contents),
        call_ensures(prompt_messages_body, (rows,), messages),
    ensures
        ({
            let text = json_text(JsonModel::Array(models(rows@)));
            &&& member_of(contents@, "contents"@) matches Some(JsonModel::Array(held))
            &&& held.len() == 1
            &&& member_of(held[0], "uri"@) == Some(JsonModel::Text(uri@))
            &&& member_of(held[0], "text"@) == Some(JsonModel::Text(text))
            &&& member_of(messages@, "messages"@) matches Some(JsonModel::Array(sent))
            &&& sent.len() == 1
            &&& member_of(sent[0], "content"@) matches Some(content)
            &&& member_of(content, "text"@) == Some(JsonModel::Text(text))
        }),
{
    let text = json_text(JsonModel::Array(models(rows@)));
    law_contents_carry_uri_and_text(uri@, text);
    law_messages_carry_the_text(text);
}

/// The URI of a resource is the static one where there is one, and else what the
/// caller sends as the string `uri`.
pub proof fn law_resolved_uris<'a>(
    static_uri: Option<&'a str>,
    arguments: &'a Json,
    uri: Option<&'a str>,
    sent: Seq<char>,
)
    requires
        call_ensures(resolve_resource_uri, (static_uri, arguments), uri),
    ensures
        static_uri matches Some(text) ==> (uri matches Some(found) && found@ == text@),
        static_uri is None && member_of(arguments@, "uri"@) == Some(JsonModel::Text(sent)) ==> (
        uri matches Some(found) && found@ == sent),
        static_uri is None && !(member_of(arguments@, "uri"@) matches Some(JsonModel::Text(_)))
            ==> uri is None,
{
}

} // verus!

//! The router: what it does with a message from the client above, and with one from a server below.

use serde_json::Value;
use vstd::prelude::*;

use crate::json;
use crate::json::JsonView;
use crate::message;
use crate::message::JsonRpcMessage;
use crate::message::MessageView;
use crate::message::METHOD_NOT_FOUND;
use crate::message::SERVER_ERROR;
use crate::registry::Registry;
use crate::semantic::best;
use crate::semantic::tool_views;
use crate::semantic::IndexedTool;
use crate::semantic::IndexedToolView;
use crate::semantic::SemanticEngine;
use crate::text;

verus! {

/// How many tools a search answers with.
pub const SEARCH_LIMIT: usize = 5;

/// What the router knows: the connected servers, and the index of their tools.
pub struct RouterState {
    pub clients: Registry,
    pub semantic: SemanticEngine,
}

/// Why a tool call fails without a reply.
#[derive(Debug, Clone, Copy, PartialEq, Eq, Structural)]
pub enum ToolCallError {
    /// The call does not name a tool.
    MissingToolName,
    /// The call of the search tool does not carry a query.
    MissingQuery,
    /// The tools that were found could not be written out.
    Unwritable,
}

/// What comes of a tool call.
#[derive(Debug)]
pub enum ToolCall {
    /// It is answered at once.
    Reply(JsonRpcMessage),
    /// The index is to be searched, and the call to be answered with what is found.
    Search { query: String, limit: usize, upstream_id: Value },
    /// It is passed on to a server, which answers it; if that fails, the call is to be answered
    /// with an error.
    Forward { connection: usize, message: JsonRpcMessage, upstream_id: Value },
}

/// What a [`ToolCall`] holds.
pub enum ToolCallView {
    Reply(MessageView),
    Search { query: Seq<char>, limit: nat, upstream_id: JsonView },
    Forward { connection: usize, message: MessageView, upstream_id: JsonView },
}

impl View for ToolCall {
    type V = ToolCallView;

    open spec fn view(&self) -> ToolCallView {
        match self {
            ToolCall::Reply(message) => ToolCallView::Reply(message@),
            ToolCall::Search { query, limit, upstream_id } => ToolCallView::Search {
                query: query@,
                limit: *limit as nat,
                upstream_id: json::content(*upstream_id),
            },
            ToolCall::Forward { connection, message, upstream_id } => ToolCallView::Forward {
                connection: *connection,
                message: message@,
                upstream_id: json::content(*upstream_id),
            },
        }
    }
}

/// The name under which a search presents a tool of a server.
pub open spec fn namespaced_name(server_id: Seq<char>, tool_name: Seq<char>) -> Seq<char> {
    server_id + "___"@ + tool_name
}

/// The query of a call of the search tool.
pub open spec fn query_of(params: JsonView) -> Option<Seq<char>> {
    match params.member("arguments"@) {
        Some(arguments) => arguments.member_text("query"@),
        None => None,
    }
}

/// The text that reports on the router.
pub open spec fn status_text(connected: nat) -> Seq<char> {
    "Router Online. Connected servers: "@ + text::decimal_text(connected)
}

/// What comes of a call with these parameters, where these servers are connected.
pub open spec fn tool_call(
    clients: Map<Seq<char>, usize>,
    params: JsonView,
    upstream_id: JsonView,
) -> Result<ToolCallView, ToolCallError> {
    match params.member_text("name"@) {
        None => Err(ToolCallError::MissingToolName),
        Some(name) => if name == "search_tools"@ {
            match query_of(params) {
                None => Err(ToolCallError::MissingQuery),
                Some(query) => Ok(
                    ToolCallView::Search { query, limit: SEARCH_LIMIT as nat, upstream_id },
                ),
            }
        } else {
            match text::first_split(name, "___"@) {
                Some((server_id, tool_name)) => if clients.contains_key(server_id) {
                    Ok(
                        ToolCallView::Forward {
                            connection: clients[server_id],
                            message: MessageView::request(
                                Some(upstream_id),
                                "tools/call"@,
                                params.with_member("name"@, JsonView::Text(tool_name)),
                            ),
                            upstream_id,
                        },
                    )
                } else {
                    Ok(
                        ToolCallView::Reply(
                            MessageView::failure(
                                upstream_id,
                                METHOD_NOT_FOUND as int,
                                "Server offline"@,
                            ),
                        ),
                    )
                },
                None => if name == "router_status"@ {
                    Ok(
                        ToolCallView::Reply(
                            MessageView::success(
                                Some(upstream_id),
                                message::text_content(status_text(clients.len())),
                            ),
                        ),
                    )
                } else {
                    Ok(
                        ToolCallView::Reply(
                            MessageView::failure(
                                upstream_id,
                                METHOD_NOT_FOUND as int,
                                "Tool not found"@,
                            ),
                        ),
                    )
                },
            }
        },
    }
}

/// Decides what comes of a tool call.
pub fn handle_tool_call(state: &RouterState, params: Value, upstream_id: Value) -> (call: Result<
    ToolCall,
    ToolCallError,
>)
    ensures
        match call {
            Ok(decided) => tool_call(
                state.clients@,
                json::content(params),
                json::content(upstream_id),
            ) == Ok::<ToolCallView, ToolCallError>(decided@),
            Err(error) => tool_call(
                state.clients@,
                json::content(params),
                json::content(upstream_id),
            ) == Err::<ToolCallView, ToolCallError>(error),
        },
        match call {
            Ok(ToolCall::Reply(reply)) => reply.id == Some(upstream_id),
            Ok(ToolCall::Search { upstream_id: kept, .. }) => kept == upstream_id,
            Ok(ToolCall::Forward { upstream_id: kept, .. }) => kept == upstream_id,
            Err(_) => true,
        },
{
    let name: String = match json::member_str(&params, "name") {
        Some(chars) => chars.to_string(),
        None => return Err(ToolCallError::MissingToolName),
    };
    if text::same(&name, "search_tools") {
        let arguments = match json::get(&params, "arguments") {
            Some(found) => found,
            None => return Err(ToolCallError::MissingQuery),
        };
        return match json::member_str(arguments, "query") {
            Some(query) => Ok(
                ToolCall::Search { query: query.to_string(), limit: SEARCH_LIMIT, upstream_id },
            ),
            None => Err(ToolCallError::MissingQuery),
        };
    }
    if let Some((server_id, tool_name)) = text::split_once(&name, "___") {
        return match state.clients.get(&server_id) {
            Some(connection) => {
                let mut new_params = params;
                json::set_member(&mut new_params, "name", json::string(tool_name));
                let message = JsonRpcMessage::request(
                    Some(json::duplicate(&upstream_id)),
                    "tools/call",
                    new_params,
                );
                Ok(ToolCall::Forward { connection, message, upstream_id })
            },
            None => Ok(
                ToolCall::Reply(
                    JsonRpcMessage::failure(upstream_id, METHOD_NOT_FOUND, "Server offline"),
                ),
            ),
        };
    }
    if text::same(&name, "router_status") {
        let mut report = "Router Online. Connected servers: ".to_string();
        report.append(&text::decimal(state.clients.len()));
        return Ok(
            ToolCall::Reply(
                JsonRpcMessage::success(Some(upstream_id), message::text_result(report)),
            ),
        );
    }
    Ok(ToolCall::Reply(JsonRpcMessage::failure(upstream_id, METHOD_NOT_FOUND, "Tool not found")))
}

/// What the router answers once it was tried to pass a call on: nothing where the server got it,
/// because the server will answer, and an error otherwise.
pub fn forward_outcome(upstream_id: Value, delivered: bool) -> (reply: Option<JsonRpcMessage>)
    ensures
        match reply {
            Some(message) => !delivered && message@ == MessageView::failure(
                json::content(upstream_id),
                SERVER_ERROR as int,
                "Downstream connection died"@,
            ),
            None => delivered,
        },
{
    if delivered {
        None
    } else {
        Some(JsonRpcMessage::failure(upstream_id, SERVER_ERROR, "Downstream connection died"))
    }
}

/// A tool as a search presents it: its schema, under the name by which it can be called.
pub open spec fn presented(tool: IndexedToolView) -> JsonView {
    tool.full_schema.with_member(
        "name"@,
        JsonView::Text(namespaced_name(tool.server_id, tool.name)),
    )
}

/// Whether a tool can be presented: its schema has to be an object, or null.
pub open spec fn can_be_presented(tool: IndexedToolView) -> bool {
    tool.full_schema.accepts_members()
}

/// Several tools as a search presents them, in order.
pub open spec fn presented_all(tools: Seq<IndexedToolView>) -> Seq<JsonView> {
    tools.map_values(|tool: IndexedToolView| presented(tool))
}

/// The text that answers a search: how many tools were found, and their listing.
pub open spec fn found_text(count: nat, listing: Seq<char>) -> Seq<char> {
    "Found "@ + text::decimal_text(count) + " relevant tools:\n"@ + listing
}

/// The name under which a search presents a tool of a server.
pub fn namespaced(server_id: &str, tool_name: &str) -> (name: String)
    ensures
        name@ == namespaced_name(server_id@, tool_name@),
        name@ == server_id@ + "___"@ + tool_name@,
{
    let mut name = server_id.to_string();
    name.append("___");
    name.append(tool_name);
    name
}

/// Whether all of these tools can be presented.
pub fn presentable(tools: &Vec<IndexedTool>) -> (answer: bool)
    ensures
        answer == (forall|i: int| 0 <= i < tools.len() ==> can_be_presented(#[trigger] tools@[i]@)),
{
    let mut at: usize = 0;
    while at < tools.len()
        invariant
            at <= tools.len(),
            forall|i: int| 0 <= i < at ==> can_be_presented(#[trigger] tools@[i]@),
        decreases tools.len() - at,
    {
        if !json::accepts_members(&tools[at].full_schema) {
            assert(!can_be_presented(tools@[at as int]@));
            return false;
        }
        at += 1;
    }
    true
}

/// Presents the tools that a search found.
pub fn present_tools(tools: &Vec<IndexedTool>) -> (listing: Vec<Value>)
    requires
        forall|i: int| 0 <= i < tools.len() ==> can_be_presented(#[trigger] tools@[i]@),
    ensures
        json::contents(listing@) == presented_all(tool_views(tools@)),
{
    let mut listing: Vec<Value> = Vec::new();
    let mut at: usize = 0;
    while at < tools.len()
        invariant
            at <= tools.len(),
            listing.len() == at,
            forall|i: int| 0 <= i < tools.len() ==> can_be_presented(#[trigger] tools@[i]@),
            forall|i: int|
                0 <= i < at ==> json::content(#[trigger] listing@[i]) == presented(tools@[i]@),
        decreases tools.len() - at,
    {
        let tool = &tools[at];
        assert(can_be_presented(tools@[at as int]@));
        let mut schema = json::duplicate(&tool.full_schema);
        json::set_member(
            &mut schema,
            "name",
            json::string(namespaced(&tool.server_id, &tool.name)),
        );
        listing.push(schema);
        at += 1;
    }
    assert(json::contents(listing@) =~= presented_all(tool_views(tools@)));
    listing
}

/// The reply to a search, given how many tools were found and their listing as text.
pub fn found_reply(upstream_id: Value, count: usize, listing: &str) -> (reply: JsonRpcMessage)
    ensures
        reply@ == MessageView::success(
            Some(json::content(upstream_id)),
            message::text_content(found_text(count as nat, listing@)),
        ),
{
    let mut report = "Found ".to_string();
    report.append(&text::decimal(count));
    report.append(" relevant tools:\n");
    report.append(listing);
    JsonRpcMessage::success(Some(upstream_id), message::text_result(report))
}

/// The reply to a search that found these tools. There always is one: that the tools cannot be
/// written out does not happen.
pub fn search_reply(upstream_id: Value, tools: &Vec<IndexedTool>) -> (reply: Result<
    JsonRpcMessage,
    ToolCallError,
>)
    requires
        forall|i: int| 0 <= i < tools.len() ==> can_be_presented(#[trigger] tools@[i]@),
    ensures
        reply is Ok,
        reply->Ok_0@ == MessageView::success(
            Some(json::content(upstream_id)),
            message::text_content(
                found_text(
                    tools@.len(),
                    json::pretty_text(presented_all(tool_views(tools@))),
                ),
            ),
        ),
{
    let presented = present_tools(tools);
    match json::to_string_pretty(&presented) {
        Ok(listing) => Ok(found_reply(upstream_id, tools.len(), &listing)),
        Err(_) => Err(ToolCallError::Unwritable),
    }
}

/// A search that was answered: the tools that it found, and the reply that presents them.
#[derive(Debug)]
pub struct SearchAnswer {
    pub found: Vec<IndexedTool>,
    pub reply: JsonRpcMessage,
}

/// Searches the index and answers, given how similar each tool of the index is to the query. There
/// is no answer where there is not one score for each tool of the index, or where one of the tools
/// that are found cannot be presented.
pub fn answer_search(
    semantic: &SemanticEngine,
    scores: &Vec<u32>,
    limit: usize,
    upstream_id: Value,
) -> (answer: Option<SearchAnswer>)
    ensures
        match answer {
            Some(search) => {
                let found = best(semantic@, scores@, limit as nat);
                &&& scores.len() == semantic@.len()
                &&& forall|i: int| 0 <= i < found.len() ==> can_be_presented(#[trigger] found[i])
                &&& tool_views(search.found@) == found
                &&& search.reply@ == MessageView::success(
                    Some(json::content(upstream_id)),
                    message::text_content(
                        found_text(found.len(), json::pretty_text(presented_all(found))),
                    ),
                )
            },
            None => {
                let found = best(semantic@, scores@, limit as nat);
                ||| scores.len() != semantic@.len()
                ||| exists|i: int| 0 <= i < found.len() && !can_be_presented(#[trigger] found[i])
            },
        },
{
    if scores.len() != semantic.tools().len() {
        return None;
    }
    let found = semantic.search(scores, limit);
    let ghost views = best(semantic@, scores@, limit as nat);
    assert(forall|i: int| 0 <= i < found.len() ==> (#[trigger] found@[i])@ == views[i]);
    if !presentable(&found) {
        return None;
    }
    assert forall|i: int| 0 <= i < views.len() implies can_be_presented(#[trigger] views[i]) by {
        assert(can_be_presented(found@[i]@));
    }
    match search_reply(upstream_id, &found) {
        Ok(reply) => Some(SearchAnswer { found, reply }),
        Err(_) => None,
    }
}

impl ToolCallError {
    /// The error in words.
    pub open spec fn words(self) -> Seq<char> {
        match self {
            ToolCallError::MissingToolName => "Missing tool name"@,
            ToolCallError::MissingQuery => "Missing 'query' argument"@,
            ToolCallError::Unwritable => "Failed to write out the tools that were found"@,
        }
    }

    /// Puts the error in words.
    pub fn message(&self) -> (words: String)
        ensures
            words@ == self.words(),
    {
        match self {
            ToolCallError::MissingToolName => "Missing tool name".to_string(),
            ToolCallError::MissingQuery => "Missing 'query' argument".to_string(),
            ToolCallError::Unwritable => {
                "Failed to write out the tools that were found".to_string()
            },
        }
    }
}

/// How the search tool is listed.
pub open spec fn search_tool() -> JsonView {
    JsonView::Object(
        map![
            "name"@ => JsonView::Text("search_tools"@),
            "description"@ => JsonView::Text(
                "Semantic Search. Use this to find relevant tools for your task."@,
            ),
            "inputSchema"@ => JsonView::Object(
                map![
                    "type"@ => JsonView::Text("object"@),
                    "properties"@ => JsonView::Object(
                        map![
                            "query"@ => JsonView::Object(
                                map![
                                    "type"@ => JsonView::Text("string"@),
                                    "description"@ => JsonView::Text("Task description"@),
                                ],
                            ),
                        ],
                    ),
                    "required"@ => JsonView::Array(seq![JsonView::Text("query"@)]),
                ],
            ),
        ],
    )
}

/// How the status tool is listed.
pub open spec fn status_tool() -> JsonView {
    JsonView::Object(
        map![
            "name"@ => JsonView::Text("router_status"@),
            "description"@ => JsonView::Text("Checks the health of the semantic router."@),
            "inputSchema"@ => JsonView::Object(
                map![
                    "type"@ => JsonView::Text("object"@),
                    "properties"@ => message::empty_object(),
                ],
            ),
        ],
    )
}

/// The reply to a request for the tools of the router: the search tool and the status tool.
pub open spec fn tools_list_reply(upstream_id: JsonView) -> MessageView {
    MessageView::success(
        Some(upstream_id),
        JsonView::Object(
            map!["tools"@ => JsonView::Array(seq![search_tool(), status_tool()])],
        ),
    )
}

/// Makes the listing of the search tool.
fn list_search_tool() -> (listing: Value)
    ensures
        json::content(listing) == search_tool(),
{
    let query = json::with_member(
        json::with_member(json::empty_object(), "type", json::text("string")),
        "description",
        json::text("Task description"),
    );
    let properties = json::with_member(json::empty_object(), "query", query);
    let mut required: Vec<Value> = Vec::new();
    required.push(json::text("query"));
    assert(json::contents(required@) =~= seq![JsonView::Text("query"@)]);
    let input_schema = json::with_member(
        json::with_member(
            json::with_member(json::empty_object(), "type", json::text("object")),
            "properties",
            properties,
        ),
        "required",
        json::array(required),
    );
    json::with_member(
        json::with_member(
            json::with_member(json::empty_object(), "name", json::text("search_tools")),
            "description",
            json::text("Semantic Search. Use this to find relevant tools for your task."),
        ),
        "inputSchema",
        input_schema,
    )
}

/// Makes the listing of the status tool.
fn list_status_tool() -> (listing: Value)
    ensures
        json::content(listing) == status_tool(),
{
    let input_schema = json::with_member(
        json::with_member(json::empty_object(), "type", json::text("object")),
        "properties",
        json::empty_object(),
    );
    json::with_member(
        json::with_member(
            json::with_member(json::empty_object(), "name", json::text("router_status")),
            "description",
            json::text("Checks the health of the semantic router."),
        ),
        "inputSchema",
        input_schema,
    )
}

/// Answers a request for the tools of the router.
pub fn handle_tools_list(_state: &RouterState, upstream_id: Value) -> (reply: JsonRpcMessage)
    ensures
        reply@ == tools_list_reply(json::content(upstream_id)),
        reply.id == Some(upstream_id),
{
    let mut tools: Vec<Value> = Vec::new();
    tools.push(list_search_tool());
    tools.push(list_status_tool());
    assert(json::contents(tools@) =~= seq![search_tool(), status_tool()]);
    JsonRpcMessage::success(
        Some(upstream_id),
        json::with_member(json::empty_object(), "tools", json::array(tools)),
    )
}

} // verus!

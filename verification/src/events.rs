//! The event loop's decisions: what each incoming message asks the router to do.

use serde_json::Value;
use vstd::prelude::*;

use crate::json;
use crate::json::JsonView;
use crate::message;
use crate::message::JsonRpcMessage;
use crate::message::MessageView;
use crate::router;
use crate::router::RouterState;
use crate::text;

verus! {

/// What a message from the client asks for.
#[derive(Debug)]
pub enum UpstreamAction {
    /// Nothing.
    Ignore,
    /// To be answered with this reply.
    Respond(JsonRpcMessage),
    /// A tool to be called.
    CallTool { params: Value, upstream_id: Value },
}

/// What an [`UpstreamAction`] holds.
pub enum UpstreamActionView {
    Ignore,
    Respond(MessageView),
    CallTool { params: JsonView, upstream_id: JsonView },
}

impl View for UpstreamAction {
    type V = UpstreamActionView;

    open spec fn view(&self) -> UpstreamActionView {
        match self {
            UpstreamAction::Ignore => UpstreamActionView::Ignore,
            UpstreamAction::Respond(reply) => UpstreamActionView::Respond(reply@),
            UpstreamAction::CallTool { params, upstream_id } => UpstreamActionView::CallTool {
                params: json::content(*params),
                upstream_id: json::content(*upstream_id),
            },
        }
    }
}

/// What a message from a server asks for.
#[derive(Debug)]
pub enum DownstreamAction {
    /// Nothing.
    Ignore,
    /// The server is ready: send it these messages, in order. The router stops if that fails.
    Greet { connection: usize, messages: Vec<JsonRpcMessage> },
    /// The tools of the server changed: ask for them again. If that fails, nothing is done.
    Refetch { connection: usize, message: JsonRpcMessage },
    /// The tools of the server are to be indexed.
    Index { server_id: String, tools: Vec<Value> },
    /// The message is to be handed to the client.
    Deliver(JsonRpcMessage),
}

/// What a [`DownstreamAction`] holds.
pub enum DownstreamActionView {
    Ignore,
    Greet { connection: usize, messages: Seq<MessageView> },
    Refetch { connection: usize, message: MessageView },
    Index { server_id: Seq<char>, tools: Seq<JsonView> },
    Deliver(MessageView),
}

/// What several messages hold, in order.
pub open spec fn message_views(messages: Seq<JsonRpcMessage>) -> Seq<MessageView> {
    messages.map_values(|message: JsonRpcMessage| message@)
}

impl View for DownstreamAction {
    type V = DownstreamActionView;

    open spec fn view(&self) -> DownstreamActionView {
        match self {
            DownstreamAction::Ignore => DownstreamActionView::Ignore,
            DownstreamAction::Greet { connection, messages } => DownstreamActionView::Greet {
                connection: *connection,
                messages: message_views(messages@),
            },
            DownstreamAction::Refetch { connection, message } => DownstreamActionView::Refetch {
                connection: *connection,
                message: message@,
            },
            DownstreamAction::Index { server_id, tools } => DownstreamActionView::Index {
                server_id: server_id@,
                tools: json::contents(tools@),
            },
            DownstreamAction::Deliver(message) => DownstreamActionView::Deliver(message@),
        }
    }
}

/// The name and version by which the router introduces itself.
pub open spec fn introduction() -> JsonView {
    JsonView::Object(
        map![
            "name"@ => JsonView::Text("mcp-semantic-router"@),
            "version"@ => JsonView::Text("0.1.0"@),
        ],
    )
}

/// The reply to the client's `initialize`.
pub open spec fn initialize_reply(id: Option<JsonView>) -> MessageView {
    MessageView::success(
        id,
        JsonView::Object(
            map![
                "protocolVersion"@ => JsonView::Text("2024-11-05"@),
                "capabilities"@ => JsonView::Object(map!["tools"@ => message::empty_object()]),
                "serverInfo"@ => introduction(),
            ],
        ),
    )
}

/// The first message to a server.
pub open spec fn initialize_request_view() -> MessageView {
    MessageView::request(
        Some(JsonView::Text("router-init"@)),
        "initialize"@,
        JsonView::Object(
            map![
                "protocolVersion"@ => JsonView::Text("2024-11-05"@),
                "capabilities"@ => message::empty_object(),
                "clientInfo"@ => introduction(),
            ],
        ),
    )
}

/// The notice to a server that the handshake is over.
pub open spec fn initialized_notice_view() -> MessageView {
    MessageView::request(None, "notifications/initialized"@, message::empty_object())
}

/// The router's own request for the tools of a server.
pub open spec fn list_request_view() -> MessageView {
    MessageView::request(
        Some(JsonView::Text("router-list"@)),
        "tools/list"@,
        message::empty_object(),
    )
}

/// What a message from the client asks for.
pub open spec fn upstream_action(message: MessageView) -> UpstreamActionView {
    match message.method {
        None => UpstreamActionView::Ignore,
        Some(method) => if method == "initialize"@ {
            UpstreamActionView::Respond(initialize_reply(message.id))
        } else if method == "tools/list"@ {
            match message.id {
                Some(id) => UpstreamActionView::Respond(router::tools_list_reply(id)),
                None => UpstreamActionView::Ignore,
            }
        } else if method == "tools/call"@ {
            match (message.params, message.id) {
                (Some(params), Some(upstream_id)) => UpstreamActionView::CallTool {
                    params,
                    upstream_id,
                },
                _ => UpstreamActionView::Ignore,
            }
        } else {
            UpstreamActionView::Ignore
        },
    }
}

/// The tools that a result lists, where it lists any.
pub open spec fn listed_tools(result: Option<JsonView>) -> Option<Seq<JsonView>> {
    match result {
        Some(value) => match value.member("tools"@) {
            Some(tools) => tools.items(),
            None => None,
        },
        None => None,
    }
}

/// What a message from the server `server_id` asks for, where these servers are connected.
pub open spec fn downstream_action(
    clients: Map<Seq<char>, usize>,
    server_id: Seq<char>,
    message: MessageView,
) -> DownstreamActionView {
    if message.id == Some(JsonView::Text("router-init"@)) {
        if clients.contains_key(server_id) {
            DownstreamActionView::Greet {
                connection: clients[server_id],
                messages: seq![initialized_notice_view(), list_request_view()],
            }
        } else {
            DownstreamActionView::Ignore
        }
    } else if message.id == Some(JsonView::Text("router-list"@)) {
        match listed_tools(message.result) {
            Some(tools) => DownstreamActionView::Index { server_id, tools },
            None => DownstreamActionView::Ignore,
        }
    } else if message.method == Some("notifications/tools/list_changed"@) {
        if clients.contains_key(server_id) {
            DownstreamActionView::Refetch {
                connection: clients[server_id],
                message: list_request_view(),
            }
        } else {
            DownstreamActionView::Ignore
        }
    } else if message.is_reply() {
        DownstreamActionView::Deliver(message)
    } else {
        DownstreamActionView::Ignore
    }
}

/// Makes the name and version by which the router introduces itself.
fn introduce() -> (value: Value)
    ensures
        json::content(value) == introduction(),
{
    json::with_member(
        json::with_member(json::empty_object(), "name", json::text("mcp-semantic-router")),
        "version",
        json::text("0.1.0"),
    )
}

/// Makes the first message to a server.
pub fn initialize_request() -> (request: JsonRpcMessage)
    ensures
        request@ == initialize_request_view(),
{
    let params = json::with_member(
        json::with_member(
            json::with_member(json::empty_object(), "protocolVersion", json::text("2024-11-05")),
            "capabilities",
            json::empty_object(),
        ),
        "clientInfo",
        introduce(),
    );
    JsonRpcMessage::request(Some(json::text("router-init")), "initialize", params)
}

/// Makes the router's own request for the tools of a server.
fn list_request() -> (request: JsonRpcMessage)
    ensures
        request@ == list_request_view(),
{
    JsonRpcMessage::request(Some(json::text("router-list")), "tools/list", json::empty_object())
}

/// Answers the client's `initialize`.
fn answer_initialize(id: Option<Value>) -> (reply: JsonRpcMessage)
    ensures
        reply@ == initialize_reply(message::optional_content(id)),
        reply.id == id,
{
    let capabilities = json::with_member(json::empty_object(), "tools", json::empty_object());
    let result = json::with_member(
        json::with_member(
            json::with_member(json::empty_object(), "protocolVersion", json::text("2024-11-05")),
            "capabilities",
            capabilities,
        ),
        "serverInfo",
        introduce(),
    );
    JsonRpcMessage::success(id, result)
}

/// Whether an id is the given text.
fn id_is(id: &Option<Value>, expected: &str) -> (answer: bool)
    ensures
        answer == (message::optional_content(*id) == Some(JsonView::Text(expected@))),
{
    match id {
        Some(value) => match json::as_str(value) {
            Some(chars) => text::same(chars, expected),
            None => false,
        },
        None => false,
    }
}

/// Decides what a message from the client asks for.
pub fn handle_upstream(state: &RouterState, message: JsonRpcMessage) -> (action: UpstreamAction)
    ensures
        action@ == upstream_action(message@),
        match action {
            UpstreamAction::CallTool { params, upstream_id } => {
                &&& message.params == Some(params)
                &&& message.id == Some(upstream_id)
            },
            UpstreamAction::Respond(reply) => reply.id == message.id,
            UpstreamAction::Ignore => true,
        },
{
    let JsonRpcMessage { jsonrpc: _, id, method, params, result: _, error: _ } = message;
    let asked = match method {
        Some(name) => name,
        None => return UpstreamAction::Ignore,
    };
    if text::same(&asked, "initialize") {
        UpstreamAction::Respond(answer_initialize(id))
    } else if text::same(&asked, "tools/list") {
        match id {
            Some(upstream_id) => UpstreamAction::Respond(
                router::handle_tools_list(state, upstream_id),
            ),
            None => UpstreamAction::Ignore,
        }
    } else if text::same(&asked, "tools/call") {
        match (params, id) {
            (Some(params), Some(upstream_id)) => UpstreamAction::CallTool { params, upstream_id },
            _ => UpstreamAction::Ignore,
        }
    } else {
        UpstreamAction::Ignore
    }
}

/// Decides what a message from the server `server_id` asks for.
pub fn handle_downstream(
    state: &RouterState,
    server_id: String,
    message: JsonRpcMessage,
) -> (action: DownstreamAction)
    ensures
        action@ == downstream_action(state.clients@, server_id@, message@),
        match action {
            DownstreamAction::Deliver(delivered) => delivered == message,
            DownstreamAction::Index { server_id: announcer, .. } => announcer == server_id,
            _ => true,
        },
{
    if id_is(&message.id, "router-init") {
        return match state.clients.get(&server_id) {
            Some(connection) => {
                let notice = JsonRpcMessage::request(
                    None,
                    "notifications/initialized",
                    json::empty_object(),
                );
                let mut messages: Vec<JsonRpcMessage> = Vec::new();
                messages.push(notice);
                messages.push(list_request());
                assert(message_views(messages@) =~= seq![
                    initialized_notice_view(),
                    list_request_view(),
                ]);
                DownstreamAction::Greet { connection, messages }
            },
            None => DownstreamAction::Ignore,
        };
    }
    if id_is(&message.id, "router-list") {
        if let Some(result) = &message.result {
            if let Some(listed) = json::get(result, "tools") {
                if let Some(tools) = json::as_array(listed) {
                    return DownstreamAction::Index {
                        server_id,
                        tools: json::duplicate_all(tools),
                    };
                }
            }
        }
        return DownstreamAction::Ignore;
    }
    let changed = match &message.method {
        Some(method) => text::same(method, "notifications/tools/list_changed"),
        None => false,
    };
    if changed {
        return match state.clients.get(&server_id) {
            Some(connection) => DownstreamAction::Refetch { connection, message: list_request() },
            None => DownstreamAction::Ignore,
        };
    }
    if message.result.is_some() || message.error.is_some() {
        DownstreamAction::Deliver(message)
    } else {
        DownstreamAction::Ignore
    }
}

} // verus!

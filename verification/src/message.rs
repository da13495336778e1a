//! JSON-RPC messages, as exchanged with the client above and with the servers below.

use serde_json::Value;
use vstd::prelude::*;

use crate::json;
use crate::json::JsonView;

verus! {

/// The code of an error reply to a call that nothing can answer.
pub const METHOD_NOT_FOUND: i64 = -32601;

/// The code of an error reply to a call whose server went away.
pub const SERVER_ERROR: i64 = -32000;

/// A JSON-RPC 2.0 request, notification or reply.
#[derive(Debug)]
pub struct JsonRpcMessage {
    pub jsonrpc: String,
    pub id: Option<Value>,
    pub method: Option<String>,
    pub params: Option<Value>,
    pub result: Option<Value>,
    pub error: Option<Value>,
}

/// What a [`JsonRpcMessage`] holds.
pub struct MessageView {
    pub jsonrpc: Seq<char>,
    pub id: Option<JsonView>,
    pub method: Option<Seq<char>>,
    pub params: Option<JsonView>,
    pub result: Option<JsonView>,
    pub error: Option<JsonView>,
}

/// What an optional JSON value holds.
pub open spec fn optional_content(value: Option<Value>) -> Option<JsonView> {
    match value {
        Some(present) => Some(json::content(present)),
        None => None,
    }
}

impl View for JsonRpcMessage {
    type V = MessageView;

    open spec fn view(&self) -> MessageView {
        MessageView {
            jsonrpc: self.jsonrpc@,
            id: optional_content(self.id),
            method: match self.method {
                Some(method) => Some(method@),
                None => None,
            },
            params: optional_content(self.params),
            result: optional_content(self.result),
            error: optional_content(self.error),
        }
    }
}

impl MessageView {
    /// A message that asks for `method`; without an id it is a notification.
    pub open spec fn request(
        id: Option<JsonView>,
        method: Seq<char>,
        params: JsonView,
    ) -> MessageView {
        MessageView {
            jsonrpc: "2.0"@,
            id,
            method: Some(method),
            params: Some(params),
            result: None,
            error: None,
        }
    }

    /// The reply that carries a result.
    pub open spec fn success(id: Option<JsonView>, result: JsonView) -> MessageView {
        MessageView {
            jsonrpc: "2.0"@,
            id,
            method: None,
            params: None,
            result: Some(result),
            error: None,
        }
    }

    /// The reply that carries an error.
    pub open spec fn failure(id: JsonView, code: int, message: Seq<char>) -> MessageView {
        MessageView {
            jsonrpc: "2.0"@,
            id: Some(id),
            method: None,
            params: None,
            result: None,
            error: Some(
                JsonView::Object(
                    map!["code"@ => JsonView::Int(code), "message"@ => JsonView::Text(message)],
                ),
            ),
        }
    }

    /// Whether this is a reply: a message that carries a result or an error.
    pub open spec fn is_reply(self) -> bool {
        self.result is Some || self.error is Some
    }
}

/// The result of a tool call that answers with one piece of text.
pub open spec fn text_content(text: Seq<char>) -> JsonView {
    JsonView::Object(
        map![
            "content"@ => JsonView::Array(
                seq![
                    JsonView::Object(
                        map!["type"@ => JsonView::Text("text"@), "text"@ => JsonView::Text(text)],
                    ),
                ],
            ),
        ],
    )
}

/// An object without members.
pub open spec fn empty_object() -> JsonView {
    JsonView::Object(Map::empty())
}

impl JsonRpcMessage {
    /// Makes a message that asks for `method`.
    pub fn request(id: Option<Value>, method: &str, params: Value) -> (message: JsonRpcMessage)
        ensures
            message@ == MessageView::request(optional_content(id), method@, json::content(params)),
            message.jsonrpc@ == "2.0"@,
            message.id == id,
            message.method is Some && message.method->0@ == method@,
            message.params == Some(params),
            message.result is None && message.error is None,
    {
        JsonRpcMessage {
            jsonrpc: "2.0".to_string(),
            id,
            method: Some(method.to_string()),
            params: Some(params),
            result: None,
            error: None,
        }
    }

    /// Makes the reply that carries a result.
    pub fn success(id: Option<Value>, result: Value) -> (message: JsonRpcMessage)
        ensures
            message@ == MessageView::success(optional_content(id), json::content(result)),
            message.jsonrpc@ == "2.0"@,
            message.id == id,
            message.result == Some(result),
            message.method is None && message.params is None && message.error is None,
    {
        JsonRpcMessage {
            jsonrpc: "2.0".to_string(),
            id,
            method: None,
            params: None,
            result: Some(result),
            error: None,
        }
    }

    /// Makes the reply that carries an error.
    pub fn failure(id: Value, code: i64, message: &str) -> (reply: JsonRpcMessage)
        ensures
            reply@ == MessageView::failure(json::content(id), code as int, message@),
            reply.jsonrpc@ == "2.0"@,
            reply.id == Some(id),
            reply.error is Some,
            json::content(reply.error->0).member("code"@) == Some(JsonView::Int(code as int)),
            json::content(reply.error->0).member("message"@) == Some(JsonView::Text(message@)),
            reply.method is None && reply.params is None && reply.result is None,
    {
        let error = json::with_member(
            json::with_member(json::empty_object(), "code", json::integer(code)),
            "message",
            json::text(message),
        );
        proof {
            lemma_keys_differ();
        }
        JsonRpcMessage {
            jsonrpc: "2.0".to_string(),
            id: Some(id),
            method: None,
            params: None,
            result: None,
            error: Some(error),
        }
    }
}

/// Makes the result of a tool call that answers with one piece of text.
pub fn text_result(text: String) -> (result: Value)
    ensures
        json::content(result) == text_content(text@),
{
    let part = json::with_member(
        json::with_member(json::empty_object(), "type", json::text("text")),
        "text",
        json::string(text),
    );
    let mut parts: Vec<Value> = Vec::new();
    parts.push(part);
    let ghost listed = json::contents(parts@);
    assert(listed =~= seq![json::content(part)]);
    json::with_member(json::empty_object(), "content", json::array(parts))
}

/// The names of the members of an error, and those of a piece of text, are different names.
proof fn lemma_keys_differ()
    ensures
        "code"@ != "message"@,
        "type"@ != "text"@,
{
    reveal_strlit("code");
    reveal_strlit("message");
    reveal_strlit("type");
    reveal_strlit("text");
    assert("code"@.len() != "message"@.len());
    assert("type"@[1] != "text"@[1]);
}

/// A request carries its id, its method and its parameters, and neither a result nor an error.
pub proof fn law_request_carries_what_is_asked(
    id: Option<JsonView>,
    method: Seq<char>,
    params: JsonView,
)
    ensures
        MessageView::request(id, method, params).jsonrpc == "2.0"@,
        MessageView::request(id, method, params).id == id,
        MessageView::request(id, method, params).method == Some(method),
        MessageView::request(id, method, params).params == Some(params),
        MessageView::request(id, method, params).result is None,
        MessageView::request(id, method, params).error is None,
{
}

/// A reply with a result carries the id and the result, and asks for nothing.
pub proof fn law_success_carries_the_result(id: Option<JsonView>, result: JsonView)
    ensures
        MessageView::success(id, result).jsonrpc == "2.0"@,
        MessageView::success(id, result).id == id,
        MessageView::success(id, result).result == Some(result),
        MessageView::success(id, result).error is None,
        MessageView::success(id, result).method is None,
        MessageView::success(id, result).params is None,
{
}

/// A reply with an error carries the id, and an error that holds the code and the message and
/// nothing else. The codes are those that JSON-RPC reserves.
pub proof fn law_failure_carries_code_and_message(
    id: JsonView,
    code: int,
    message: Seq<char>,
    key: Seq<char>,
)
    ensures
        MessageView::failure(id, code, message).jsonrpc == "2.0"@,
        MessageView::failure(id, code, message).id == Some(id),
        MessageView::failure(id, code, message).result is None,
        MessageView::failure(id, code, message).method is None,
        MessageView::failure(id, code, message).params is None,
        MessageView::failure(id, code, message).error is Some,
        ({
            let error = MessageView::failure(id, code, message).error->0;
            &&& error.member("code"@) == Some(JsonView::Int(code))
            &&& error.member("message"@) == Some(JsonView::Text(message))
            &&& key != "code"@ && key != "message"@ ==> error.member(key) is None
        }),
        METHOD_NOT_FOUND == -32601,
        SERVER_ERROR == -32000,
{
    lemma_keys_differ();
}

/// A result with a piece of text holds one part, whose kind is text and whose text is all of it.
pub proof fn law_text_result_holds_the_text(text: Seq<char>, key: Seq<char>)
    ensures
        text_content(text).member("content"@) is Some,
        key != "content"@ ==> text_content(text).member(key) is None,
        ({
            let parts = text_content(text).member("content"@)->0.items();
            &&& parts is Some
            &&& parts->0.len() == 1
            &&& parts->0[0].member("type"@) == Some(JsonView::Text("text"@))
            &&& parts->0[0].member("text"@) == Some(JsonView::Text(text))
            &&& key != "type"@ && key != "text"@ ==> parts->0[0].member(key) is None
        }),
        empty_object() is Object,
        empty_object().member(key) is None,
{
    lemma_keys_differ();
}

/// A message is a reply where it carries a result, and where it carries an error, and nowhere else.
pub proof fn law_reply_carries_result_or_error(message: MessageView)
    ensures
        message.result is Some ==> message.is_reply(),
        message.error is Some ==> message.is_reply(),
        message.result is None && message.error is None ==> !message.is_reply(),
{
}

} // verus!

use mcp_semantic_router::events::{
    handle_downstream, handle_upstream, initialize_request, DownstreamAction, UpstreamAction,
};
use mcp_semantic_router::message::JsonRpcMessage;
use mcp_semantic_router::registry::Registry;
use mcp_semantic_router::router::RouterState;
use mcp_semantic_router::semantic::{SemanticEngine, StoredIndex};
use serde_json::Value;

fn value(text: &str) -> Value {
    serde_json::from_str(text).unwrap()
}

fn state() -> RouterState {
    let mut clients = Registry::new();
    clients.insert("git".to_string(), 4);
    RouterState { clients, semantic: SemanticEngine::new(StoredIndex::Missing) }
}

fn message(text: &str) -> JsonRpcMessage {
    let object = value(text);
    let member = |name: &str| object.get(name).cloned();
    JsonRpcMessage {
        jsonrpc: "2.0".to_string(),
        id: member("id"),
        method: member("method").map(|method| method.as_str().unwrap().to_string()),
        params: member("params"),
        result: member("result"),
        error: member("error"),
    }
}

fn assert_same(left: &JsonRpcMessage, right: &JsonRpcMessage) {
    assert_eq!(left.jsonrpc, right.jsonrpc);
    assert_eq!(left.id, right.id);
    assert_eq!(left.method, right.method);
    assert_eq!(left.params, right.params);
    assert_eq!(left.result, right.result);
    assert_eq!(left.error, right.error);
}

fn upstream(text: &str) -> UpstreamAction {
    handle_upstream(&state(), message(text))
}

fn downstream(server: &str, text: &str) -> DownstreamAction {
    handle_downstream(&state(), server.to_string(), message(text))
}

const LIST_REQUEST: &str = "{\"id\":\"router-list\",\"method\":\"tools/list\",\"params\":{}}";

#[test]
fn first_message_to_a_server() {
    assert_same(
        &initialize_request(),
        &message(
            "{\"id\":\"router-init\",\"method\":\"initialize\",\"params\":{\
             \"protocolVersion\":\"2024-11-05\",\"capabilities\":{},\
             \"clientInfo\":{\"name\":\"mcp-semantic-router\",\"version\":\"0.1.0\"}}}",
        ),
    );
}

#[test]
fn client_is_greeted() {
    let expected = "{\"id\":1,\"result\":{\"protocolVersion\":\"2024-11-05\",\
                    \"capabilities\":{\"tools\":{}},\
                    \"serverInfo\":{\"name\":\"mcp-semantic-router\",\"version\":\"0.1.0\"}}}";
    match upstream("{\"id\":1,\"method\":\"initialize\",\"params\":{}}") {
        UpstreamAction::Respond(reply) => assert_same(&reply, &message(expected)),
        other => panic!("no reply but {other:?}"),
    }
    match upstream("{\"method\":\"initialize\"}") {
        UpstreamAction::Respond(reply) => {
            assert_eq!(reply.id, None);
            assert!(reply.result.is_some());
        }
        other => panic!("no reply but {other:?}"),
    }
}

#[test]
fn client_gets_the_list_of_tools() {
    match upstream("{\"id\":\"abc\",\"method\":\"tools/list\"}") {
        UpstreamAction::Respond(reply) => {
            assert_eq!(reply.id, Some(value("\"abc\"")));
            let result = reply.result.unwrap();
            assert_eq!(result["tools"][0]["name"], value("\"search_tools\""));
            assert_eq!(result["tools"][1]["name"], value("\"router_status\""));
            assert!(result["tools"][2].is_null());
        }
        other => panic!("no reply but {other:?}"),
    }
}

#[test]
fn list_request_without_id_is_ignored() {
    assert!(matches!(upstream("{\"method\":\"tools/list\"}"), UpstreamAction::Ignore));
}

#[test]
fn client_calls_a_tool() {
    match upstream("{\"id\":3,\"method\":\"tools/call\",\"params\":{\"name\":\"x\"}}") {
        UpstreamAction::CallTool { params, upstream_id } => {
            assert_eq!(params, value("{\"name\":\"x\"}"));
            assert_eq!(upstream_id, value("3"));
        }
        other => panic!("no call but {other:?}"),
    }
}

#[test]
fn incomplete_call_is_ignored() {
    assert!(matches!(upstream("{\"id\":3,\"method\":\"tools/call\"}"), UpstreamAction::Ignore));
    assert!(matches!(
        upstream("{\"method\":\"tools/call\",\"params\":{}}"),
        UpstreamAction::Ignore
    ));
}

#[test]
fn anything_else_from_the_client_is_ignored() {
    for text in [
        "{\"id\":1,\"method\":\"ping\"}",
        "{\"method\":\"notifications/initialized\"}",
        "{\"id\":1,\"result\":{}}",
        "{}",
    ] {
        assert!(matches!(upstream(text), UpstreamAction::Ignore));
    }
}

#[test]
fn ready_server_is_asked_for_its_tools() {
    match downstream("git", "{\"id\":\"router-init\",\"result\":{}}") {
        DownstreamAction::Greet { connection, messages } => {
            assert_eq!(connection, 4);
            assert_eq!(messages.len(), 2);
            assert_same(
                &messages[0],
                &message("{\"method\":\"notifications/initialized\",\"params\":{}}"),
            );
            assert_same(&messages[1], &message(LIST_REQUEST));
        }
        other => panic!("not greeted but {other:?}"),
    }
}

#[test]
fn listed_tools_are_indexed() {
    let text = "{\"id\":\"router-list\",\"result\":{\"tools\":[{\"name\":\"a\"},5]}}";
    for server in ["git", "unknown"] {
        match downstream(server, text) {
            DownstreamAction::Index { server_id, tools } => {
                assert_eq!(server_id, server);
                assert_eq!(tools, vec![value("{\"name\":\"a\"}"), value("5")]);
            }
            other => panic!("not indexed but {other:?}"),
        }
    }
}

#[test]
fn list_without_tools_is_ignored() {
    for text in [
        "{\"id\":\"router-list\"}",
        "{\"id\":\"router-list\",\"error\":{\"code\":1}}",
        "{\"id\":\"router-list\",\"result\":{}}",
        "{\"id\":\"router-list\",\"result\":{\"tools\":{}}}",
        "{\"id\":\"router-list\",\"result\":[]}",
    ] {
        assert!(matches!(downstream("git", text), DownstreamAction::Ignore));
    }
}

#[test]
fn changed_tools_are_asked_for_again() {
    match downstream("git", "{\"method\":\"notifications/tools/list_changed\"}") {
        DownstreamAction::Refetch { connection, message: request } => {
            assert_eq!(connection, 4);
            assert_same(&request, &message(LIST_REQUEST));
        }
        other => panic!("not asked again but {other:?}"),
    }
}

#[test]
fn notice_of_change_is_not_delivered() {
    let text = "{\"id\":9,\"method\":\"notifications/tools/list_changed\",\"result\":{}}";
    assert!(matches!(downstream("git", text), DownstreamAction::Refetch { .. }));
    assert!(matches!(downstream("unknown", text), DownstreamAction::Ignore));
}

#[test]
fn unconnected_server_is_not_greeted() {
    let text = "{\"id\":\"router-init\",\"result\":{}}";
    assert!(matches!(downstream("unknown", text), DownstreamAction::Ignore));
}

#[test]
fn client_gets_replies_unchanged() {
    for text in [
        "{\"id\":1,\"result\":{\"content\":[1.5,null]}}",
        "{\"id\":\"router\",\"error\":{\"code\":-1,\"message\":\"m\"}}",
        "{\"result\":true}",
        "{\"id\":2,\"method\":\"x\",\"params\":[],\"result\":1,\"error\":2}",
        "{\"id\":[\"router-init\"],\"result\":1}",
    ] {
        match downstream("unknown", text) {
            DownstreamAction::Deliver(delivered) => assert_same(&delivered, &message(text)),
            other => panic!("not delivered but {other:?}"),
        }
    }
}

#[test]
fn anything_else_from_a_server_is_ignored() {
    for text in [
        "{\"id\":1,\"method\":\"roots/list\"}",
        "{\"method\":\"notifications/message\",\"params\":{}}",
        "{}",
    ] {
        assert!(matches!(downstream("git", text), DownstreamAction::Ignore));
    }
}

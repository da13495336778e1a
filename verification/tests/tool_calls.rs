use mcp_semantic_router::json::{accepts_members, member_str};
use mcp_semantic_router::message::{text_result, JsonRpcMessage};
use mcp_semantic_router::registry::Registry;
use mcp_semantic_router::router::{
    answer_search, forward_outcome, found_reply, handle_tool_call, handle_tools_list, namespaced,
    present_tools, presentable, search_reply, RouterState, ToolCall, ToolCallError,
};
use mcp_semantic_router::semantic::{
    prepare_ingestion, IndexedTool, SemanticEngine, StoredIndex,
};
use serde_json::Value;

fn value(text: &str) -> Value {
    serde_json::from_str(text).unwrap()
}

fn state(servers: &[&str]) -> RouterState {
    let mut clients = Registry::new();
    for (connection, server) in servers.iter().enumerate() {
        clients.insert(server.to_string(), connection + 10);
    }
    RouterState { clients, semantic: SemanticEngine::new(StoredIndex::Missing) }
}

fn tool(server: &str, name: &str, schema: &str) -> IndexedTool {
    IndexedTool {
        server_id: server.to_string(),
        name: name.to_string(),
        description: String::new(),
        full_schema: value(schema),
        embedding: Vec::new(),
    }
}

fn call(servers: &[&str], params: &str) -> Result<ToolCall, ToolCallError> {
    handle_tool_call(&state(servers), value(params), value("7"))
}

fn reply(call: Result<ToolCall, ToolCallError>) -> JsonRpcMessage {
    match call {
        Ok(ToolCall::Reply(message)) => message,
        other => panic!("no reply but {other:?}"),
    }
}

fn assert_failure(message: &JsonRpcMessage, error: &str) {
    assert_eq!(message.jsonrpc, "2.0");
    assert_eq!(message.id, Some(value("7")));
    assert_eq!(message.method, None);
    assert_eq!(message.params, None);
    assert_eq!(message.result, None);
    assert_eq!(message.error, Some(value(error)));
}

fn assert_success(message: &JsonRpcMessage, result: Value) {
    assert_eq!(message.jsonrpc, "2.0");
    assert_eq!(message.id, Some(value("7")));
    assert_eq!(message.method, None);
    assert_eq!(message.params, None);
    assert_eq!(message.result, Some(result));
    assert_eq!(message.error, None);
}

#[test]
fn tools_list_names_the_tools_of_the_router() {
    let message = handle_tools_list(&state(&[]), value("7"));
    assert_success(
        &message,
        value(
            "{\"tools\":[{\"name\":\"search_tools\",\
             \"description\":\"Semantic Search. Use this to find relevant tools for your task.\",\
             \"inputSchema\":{\"type\":\"object\",\"properties\":{\"query\":{\"type\":\"string\",\
             \"description\":\"Task description\"}},\"required\":[\"query\"]}},\
             {\"name\":\"router_status\",\
             \"description\":\"Checks the health of the semantic router.\",\
             \"inputSchema\":{\"type\":\"object\",\"properties\":{}}}]}",
        ),
    );
}

#[test]
fn call_without_a_name_fails() {
    for params in ["{}", "null", "[]", "\"name\"", "{\"name\":5}", "{\"name\":null}"] {
        assert_eq!(call(&[], params).unwrap_err(), ToolCallError::MissingToolName);
    }
    assert_eq!(ToolCallError::MissingToolName.message(), "Missing tool name");
}

#[test]
fn search_without_a_query_fails() {
    for params in [
        "{\"name\":\"search_tools\"}",
        "{\"name\":\"search_tools\",\"arguments\":{}}",
        "{\"name\":\"search_tools\",\"arguments\":\"query\"}",
        "{\"name\":\"search_tools\",\"arguments\":{\"query\":1}}",
        "{\"name\":\"search_tools\",\"query\":\"x\"}",
    ] {
        assert_eq!(call(&[], params).unwrap_err(), ToolCallError::MissingQuery);
    }
    assert_eq!(ToolCallError::MissingQuery.message(), "Missing 'query' argument");
    assert_eq!(
        ToolCallError::Unwritable.message(),
        "Failed to write out the tools that were found"
    );
}

#[test]
fn search_asks_for_five_tools() {
    let params = "{\"name\":\"search_tools\",\"arguments\":{\"query\":\"commit code\"}}";
    match call(&["git"], params) {
        Ok(ToolCall::Search { query, limit, upstream_id }) => {
            assert_eq!(query, "commit code");
            assert_eq!(limit, 5);
            assert_eq!(upstream_id, value("7"));
        }
        other => panic!("no search but {other:?}"),
    }
}

#[test]
fn call_is_forwarded_to_its_server() {
    let params = "{\"name\":\"git___commit\",\"arguments\":{\"message\":\"hi\"},\"n\":1.5}";
    match call(&["memory", "git"], params) {
        Ok(ToolCall::Forward { connection, message, upstream_id }) => {
            assert_eq!(connection, 11);
            assert_eq!(upstream_id, value("7"));
            assert_eq!(message.jsonrpc, "2.0");
            assert_eq!(message.id, Some(value("7")));
            assert_eq!(message.method, Some("tools/call".to_string()));
            assert_eq!(
                message.params,
                Some(value("{\"name\":\"commit\",\"arguments\":{\"message\":\"hi\"},\"n\":1.5}"))
            );
            assert_eq!(message.result, None);
            assert_eq!(message.error, None);
        }
        other => panic!("not forwarded but {other:?}"),
    }
}

#[test]
fn call_to_an_unconnected_server_is_refused() {
    let message = reply(call(&["memory"], "{\"name\":\"git___commit\"}"));
    assert_failure(&message, "{\"code\":-32601,\"message\":\"Server offline\"}");
}

#[test]
fn call_of_an_unknown_tool_is_refused() {
    for params in ["{\"name\":\"commit\"}", "{\"name\":\"\"}", "{\"name\":\"git__commit\"}"] {
        let message = reply(call(&["git"], params));
        assert_failure(&message, "{\"code\":-32601,\"message\":\"Tool not found\"}");
    }
}

#[test]
fn status_counts_the_connected_servers() {
    let message = reply(call(&["a", "b", "c"], "{\"name\":\"router_status\"}"));
    assert_success(
        &message,
        value(
            "{\"content\":[{\"type\":\"text\",\
             \"text\":\"Router Online. Connected servers: 3\"}]}",
        ),
    );
    let message = reply(call(&[], "{\"name\":\"router_status\"}"));
    assert_success(
        &message,
        value(
            "{\"content\":[{\"type\":\"text\",\
             \"text\":\"Router Online. Connected servers: 0\"}]}",
        ),
    );
}

#[test]
fn connecting_a_server_again_replaces_its_connection() {
    let mut clients = Registry::new();
    assert_eq!(clients.len(), 0);
    assert_eq!(clients.get("git"), None);
    clients.insert("git".to_string(), 1);
    clients.insert("memory".to_string(), 2);
    clients.insert("git".to_string(), 3);
    assert_eq!(clients.len(), 2);
    assert_eq!(clients.get("git"), Some(3));
    assert_eq!(clients.get("memory"), Some(2));
    assert_eq!(clients.get("gi"), None);
}

#[test]
fn delivered_call_is_answered_by_its_server() {
    assert!(forward_outcome(value("7"), true).is_none());
}

#[test]
fn undelivered_call_is_answered_with_an_error() {
    let message = forward_outcome(value("7"), false).unwrap();
    assert_failure(&message, "{\"code\":-32000,\"message\":\"Downstream connection died\"}");
}

#[test]
fn found_tools_are_presented_under_their_namespaced_names() {
    let tools = vec![
        tool("git", "commit", "{\"name\":\"commit\",\"description\":\"d\",\"z\":[true]}"),
        tool("memory", "", "{}"),
        tool("empty", "tool", "null"),
    ];
    assert!(presentable(&tools));
    assert_eq!(
        present_tools(&tools),
        vec![
            value("{\"name\":\"git___commit\",\"description\":\"d\",\"z\":[true]}"),
            value("{\"name\":\"memory___\"}"),
            value("{\"name\":\"empty___tool\"}"),
        ]
    );
    let unchanged = value("{\"name\":\"commit\",\"description\":\"d\",\"z\":[true]}");
    assert_eq!(tools[0].full_schema, unchanged);
}

#[test]
fn tool_that_is_no_object_cannot_be_presented() {
    for schema in ["5", "\"text\"", "[]", "true", "1.5"] {
        assert!(!accepts_members(&value(schema)));
        assert!(!presentable(&vec![tool("a", "b", "{}"), tool("a", "b", schema)]));
    }
    assert!(accepts_members(&value("{}")));
    assert!(accepts_members(&value("null")));
    assert!(presentable(&Vec::new()));
}

#[test]
fn search_is_answered_with_the_found_tools() {
    let tools = vec![tool("git", "commit", "{\"name\":\"commit\",\"a\":1}")];
    let message = search_reply(value("7"), &tools).unwrap();
    let text = "Found 1 relevant tools:\n\
                [\n  {\n    \"a\": 1,\n    \"name\": \"git___commit\"\n  }\n]";
    assert_success(&message, text_result(text.to_string()));
    let result = message.result.unwrap();
    assert_eq!(result["content"][0]["type"], value("\"text\""));
    assert_eq!(result["content"][0]["text"].as_str(), Some(text));
}

#[test]
fn search_that_finds_nothing_is_answered_too() {
    let message = search_reply(value("7"), &Vec::new()).unwrap();
    assert_success(&message, text_result("Found 0 relevant tools:\n[]".to_string()));
}

#[test]
fn search_is_answered_with_the_best_tools() {
    let engine = SemanticEngine::new(StoredIndex::Read(vec![
        tool("git", "commit", "{\"name\":\"commit\"}"),
        tool("memory", "store", "5"),
        tool("git", "push", "{}"),
    ]));
    let scores = vec![0.2f32.to_bits(), 0.1f32.to_bits(), 0.9f32.to_bits()];
    let answer = answer_search(&engine, &scores, 2, value("7")).unwrap();
    assert_eq!(answer.found.len(), 2);
    assert_eq!(answer.found[0].name, "push");
    assert_eq!(answer.found[1].name, "commit");
    let text = "Found 2 relevant tools:\n\
                [\n  {\n    \"name\": \"git___push\"\n  },\n  \
                {\n    \"name\": \"git___commit\"\n  }\n]";
    assert_success(&answer.reply, text_result(text.to_string()));
}

#[test]
fn search_is_not_answered_with_what_cannot_be_presented() {
    let engine = SemanticEngine::new(StoredIndex::Read(vec![
        tool("git", "commit", "{}"),
        tool("memory", "store", "5"),
    ]));
    let scores = vec![0.2f32.to_bits(), 0.1f32.to_bits()];
    assert!(answer_search(&engine, &scores, 2, value("7")).is_none());
    assert!(answer_search(&engine, &scores, 1, value("7")).is_some());
}

#[test]
fn search_is_not_answered_without_a_score_for_each_tool() {
    let engine = SemanticEngine::new(StoredIndex::Read(vec![tool("git", "commit", "{}")]));
    assert!(answer_search(&engine, &Vec::new(), 5, value("7")).is_none());
    assert!(answer_search(&engine, &vec![0, 0], 5, value("7")).is_none());
    assert!(answer_search(&engine, &vec![0], 5, value("7")).is_some());
}

#[test]
fn reply_to_a_search_holds_count_and_listing() {
    let message = found_reply(value("7"), 12, "listing");
    assert_success(&message, text_result("Found 12 relevant tools:\nlisting".to_string()));
}

#[test]
fn found_tool_can_be_called() {
    let tools = vec![tool("git", "commit___all", "{\"name\":\"commit___all\"}")];
    let listing = present_tools(&tools);
    let name = member_str(&listing[0], "name").unwrap().to_string();
    assert_eq!(name, namespaced("git", "commit___all"));
    let params = format!("{{\"name\":\"{name}\"}}");
    match call(&["git"], &params) {
        Ok(ToolCall::Forward { connection, message, .. }) => {
            assert_eq!(connection, 10);
            assert_eq!(message.params, Some(value("{\"name\":\"commit___all\"}")));
        }
        other => panic!("not forwarded but {other:?}"),
    }
}

#[test]
fn announced_tool_can_be_found_and_called() {
    let mut state = state(&["memory", "git"]);
    let tools = vec![
        value("{\"name\":\"commit\",\"description\":\"Record changes\"}"),
        value("{\"name\":\"push\",\"description\":\"Publish changes\"}"),
    ];
    let work = prepare_ingestion(tools).unwrap();
    state.semantic.ingest_tools("git".to_string(), work.entries, vec![vec![1], vec![2]]);
    let scores = vec![0.25f32.to_bits(), 0.75f32.to_bits()];
    let found = state.semantic.search(&scores, 2);
    let listing = present_tools(&found);
    let name = member_str(&listing[0], "name").unwrap();
    assert_eq!(name, "git___push");
    let params = value(&format!("{{\"name\":\"{name}\",\"arguments\":{{}}}}"));
    match handle_tool_call(&state, params, value("7")) {
        Ok(ToolCall::Forward { connection, message, .. }) => {
            assert_eq!(connection, 11);
            assert_eq!(message.params, Some(value("{\"name\":\"push\",\"arguments\":{}}")));
        }
        other => panic!("not forwarded but {other:?}"),
    }
}

#[test]
fn called_search_finds_five_at_most() {
    let mut state = state(&["git"]);
    let tools: Vec<Value> = (0..8).map(|i| value(&format!("{{\"name\":\"t{i}\"}}"))).collect();
    let work = prepare_ingestion(tools).unwrap();
    state.semantic.ingest_tools("git".to_string(), work.entries, vec![Vec::new(); 8]);
    let params = value("{\"name\":\"search_tools\",\"arguments\":{\"query\":\"q\"}}");
    match handle_tool_call(&state, params, value("7")) {
        Ok(ToolCall::Search { limit, .. }) => {
            let found = state.semantic.search(&vec![0; 8], limit);
            let names: Vec<&str> = found.iter().map(|tool| tool.name.as_str()).collect();
            assert_eq!(names, vec!["t0", "t1", "t2", "t3", "t4"]);
        }
        other => panic!("no search but {other:?}"),
    }
}

#[test]
fn server_name_that_ends_like_the_separator_is_cut_short() {
    let name = namespaced("git_", "commit");
    let message = reply(call(&["git_"], &format!("{{\"name\":\"{name}\"}}")));
    assert_failure(&message, "{\"code\":-32601,\"message\":\"Server offline\"}");
}

#[test]
fn member_str_reads_string_members() {
    let object = value("{\"a\":\"x\",\"b\":1}");
    assert_eq!(member_str(&object, "a"), Some("x"));
    assert_eq!(member_str(&object, "b"), None);
    assert_eq!(member_str(&object, "c"), None);
    assert_eq!(member_str(&value("\"a\""), "a"), None);
}

use mcp_semantic_router::semantic::{IndexedTool, SemanticEngine, StoredIndex};
use mcp_semantic_router::storage::{restore, store, StoredTool};
use serde_json::Value;

fn tool(name: &str, schema: &str) -> IndexedTool {
    let full_schema: Value = serde_json::from_str(schema).unwrap();
    IndexedTool {
        server_id: "git".to_string(),
        name: name.to_string(),
        description: format!("does {name}"),
        full_schema,
        embedding: vec![0x3f80_0000, 7],
    }
}

fn stored(schema: &str) -> StoredTool {
    StoredTool {
        server_id: "git".to_string(),
        name: "commit".to_string(),
        description: String::new(),
        full_schema: schema.to_string(),
        embedding: vec![1],
    }
}

fn nested(depth: usize) -> Value {
    let mut value = Value::Null;
    for _ in 0..depth {
        value = Value::Array(vec![value]);
    }
    value
}

#[test]
fn schema_is_stored_as_text() {
    let stored = store(&vec![tool("commit", "{ \"b\": [1, null], \"a\": \"x\\ny\" }")]);
    assert_eq!(stored.len(), 1);
    assert_eq!(stored[0].server_id, "git");
    assert_eq!(stored[0].name, "commit");
    assert_eq!(stored[0].description, "does commit");
    assert_eq!(stored[0].full_schema, "{\"a\":\"x\\ny\",\"b\":[1,null]}");
    assert_eq!(stored[0].embedding, vec![0x3f80_0000, 7]);
}

#[test]
fn stored_index_is_restored() {
    let tools = vec![
        tool("commit", "{\"limits\":[-9223372036854775808,18446744073709551615,0,-1]}"),
        tool("push", "null"),
        tool("log", "[\"\\u0000\\u001f\\\"\\\\é😀\",true,{\"\":{}}]"),
    ];
    match restore(store(&tools)) {
        StoredIndex::Read(restored) => {
            assert_eq!(restored.len(), 3);
            for (before, after) in tools.iter().zip(&restored) {
                assert_eq!(after.server_id, before.server_id);
                assert_eq!(after.name, before.name);
                assert_eq!(after.description, before.description);
                assert_eq!(after.full_schema, before.full_schema);
                assert_eq!(after.embedding, before.embedding);
            }
        }
        other => panic!("{other:?}"),
    }
}

#[test]
fn empty_index_is_restored() {
    assert!(matches!(restore(store(&Vec::new())), StoredIndex::Read(tools) if tools.is_empty()));
}

#[test]
fn one_bad_schema_makes_the_index_unreadable() {
    for bad in ["", "{", "[1,]", "{\"a\":1} x", "nul"] {
        let index = restore(vec![stored("{}"), stored(bad), stored("{}")]);
        assert!(matches!(index, StoredIndex::Unreadable));
        assert!(SemanticEngine::new(index).tools().is_empty());
    }
}

#[test]
fn schema_is_restored_from_its_text() {
    match restore(vec![stored(" {\"name\" : \"x\"} ")]) {
        StoredIndex::Read(tools) => {
            assert_eq!(tools[0].full_schema["name"].as_str(), Some("x"));
            assert_eq!(tools[0].embedding, vec![1]);
        }
        other => panic!("{other:?}"),
    }
}

#[test]
fn nesting_is_restored_as_deeply_as_the_reader_goes() {
    let mut deepest = tool("deep", "null");
    deepest.full_schema = nested(127);
    match restore(store(&vec![deepest])) {
        StoredIndex::Read(tools) => assert_eq!(tools[0].full_schema, nested(127)),
        other => panic!("{other:?}"),
    }
    let mut deeper = tool("deep", "null");
    deeper.full_schema = nested(128);
    assert!(matches!(restore(store(&vec![deeper])), StoredIndex::Unreadable));
}

#[test]
fn floats_are_restored_bit_for_bit() {
    let floats = [
        31.245270191439438,
        0.5,
        0.1,
        1.0,
        -0.0,
        1e16,
        1e300,
        f64::MAX,
        f64::MIN_POSITIVE,
        5e-324,
        2.2250738585072011e-308,
        -9007199254740993.0,
        123456.78901234567,
        0.000012345678901234567,
    ];
    let mut tools = vec![tool("commit", "{}")];
    tools[0].full_schema = Value::Array(floats.iter().map(|float| Value::from(*float)).collect());
    match restore(store(&tools)) {
        StoredIndex::Read(restored) => {
            for (at, float) in floats.iter().enumerate() {
                let read = &restored[0].full_schema[at];
                assert!(read.is_f64());
                assert_eq!(read.as_f64().map(f64::to_bits), Some(float.to_bits()));
            }
        }
        other => panic!("{other:?}"),
    }
}

#[test]
fn many_floats_are_restored_bit_for_bit() {
    let mut bits: u64 = 0x9e37_79b9_7f4a_7c15;
    let mut numbers = Vec::new();
    while numbers.len() < 20_000 {
        bits = bits.wrapping_mul(6364136223846793005).wrapping_add(1442695040888963407);
        let float = f64::from_bits(bits ^ (bits >> 29));
        if float.is_finite() {
            numbers.push(Value::from(float));
        }
    }
    let mut tools = vec![tool("commit", "{}")];
    tools[0].full_schema = Value::Array(numbers);
    match restore(store(&tools)) {
        StoredIndex::Read(restored) => {
            assert_eq!(restored[0].full_schema, tools[0].full_schema);
        }
        other => panic!("{other:?}"),
    }
}

#[test]
fn index_survives_a_restart() {
    let tools = vec![
        tool("commit", "{\"name\":\"commit\",\"weight\":31.245270191439438}"),
        tool("push", "{\"name\":\"push\"}"),
    ];
    let before = SemanticEngine::new(StoredIndex::Read(tools));
    let after = SemanticEngine::new(restore(store(before.tools())));
    assert_eq!(format!("{:?}", after.tools()), format!("{:?}", before.tools()));
}

#[test]
fn tool_that_can_be_read_is_read_beside_one_that_cannot() {
    let mut tools = vec![tool("commit", "{\"a\":0.1}"), tool("deep", "null")];
    tools[1].full_schema = nested(128);
    let mut stored = store(&tools);
    stored.pop();
    match restore(stored) {
        StoredIndex::Read(restored) => {
            assert_eq!(restored.len(), 1);
            assert_eq!(restored[0].full_schema, tools[0].full_schema);
        }
        other => panic!("{other:?}"),
    }
}

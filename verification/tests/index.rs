use mcp_semantic_router::semantic::{
    describe_tools, prepare_ingestion, IndexedTool, SemanticEngine, StoredIndex, ToolEntry,
};
use serde_json::Value;

fn value(text: &str) -> Value {
    serde_json::from_str(text).unwrap()
}

fn announced(names: &[&str]) -> Vec<ToolEntry> {
    let tools: Vec<Value> = names
        .iter()
        .map(|name| value(&format!("{{\"name\":\"{name}\",\"description\":\"does {name}\"}}")))
        .collect();
    describe_tools(tools)
}

fn vectors(count: u32) -> Vec<Vec<u32>> {
    (0..count).map(|i| vec![i, i + 1]).collect()
}

fn names(tools: &[IndexedTool]) -> Vec<String> {
    tools.iter().map(|tool| format!("{}/{}", tool.server_id, tool.name)).collect()
}

fn engine() -> SemanticEngine {
    let mut engine = SemanticEngine::new(StoredIndex::Missing);
    engine.ingest_tools("git".to_string(), announced(&["commit", "push"]), vectors(2));
    engine.ingest_tools("memory".to_string(), announced(&["store", "recall"]), vectors(2));
    engine
}

fn bits(scores: &[f32]) -> Vec<u32> {
    scores.iter().map(|score| score.to_bits()).collect()
}

#[test]
fn tool_is_described_by_its_name_and_description() {
    let tool = value("{\"name\":\"commit\",\"description\":\"Record changes\",\"x\":[1,2.5]}");
    let entries = describe_tools(vec![tool.clone()]);
    assert_eq!(entries.len(), 1);
    assert_eq!(entries[0].name, "commit");
    assert_eq!(entries[0].description, "Record changes");
    assert_eq!(entries[0].schema, tool);
    assert_eq!(entries[0].embedding_text(), "Name: commit Description: Record changes");
}

#[test]
fn missing_name_or_description_is_empty() {
    let tools = vec![
        value("{}"),
        value("{\"name\":7,\"description\":null}"),
        value("5"),
        value("[\"name\"]"),
        value("null"),
    ];
    for entry in describe_tools(tools) {
        assert_eq!(entry.name, "");
        assert_eq!(entry.description, "");
        assert_eq!(entry.embedding_text(), "Name:  Description: ");
    }
}

#[test]
fn ingestion_carries_the_texts_to_embed() {
    let work = prepare_ingestion(vec![
        value("{\"name\":\"a\",\"description\":\"first\"}"),
        value("{\"name\":\"b\"}"),
    ])
    .unwrap();
    assert_eq!(work.texts, vec!["Name: a Description: first", "Name: b Description: "]);
    assert_eq!(work.entries.len(), 2);
    assert_eq!(work.entries[1].name, "b");
}

#[test]
fn nothing_to_ingest() {
    assert!(prepare_ingestion(Vec::new()).is_none());
}

#[test]
fn stored_index_is_taken_over() {
    let stored = engine().tools().clone();
    let restored = SemanticEngine::new(StoredIndex::Read(stored));
    assert_eq!(
        names(restored.tools()),
        vec!["git/commit", "git/push", "memory/store", "memory/recall"]
    );
    assert_eq!(restored.tools()[1].embedding, vec![1, 2]);
}

#[test]
fn missing_or_unreadable_index_is_empty() {
    assert!(SemanticEngine::new(StoredIndex::Missing).tools().is_empty());
    assert!(SemanticEngine::new(StoredIndex::Unreadable).tools().is_empty());
}

#[test]
fn ingested_tool_holds_everything() {
    let engine = engine();
    let tool = &engine.tools()[3];
    assert_eq!(tool.server_id, "memory");
    assert_eq!(tool.name, "recall");
    assert_eq!(tool.description, "does recall");
    assert_eq!(
        tool.full_schema,
        value("{\"name\":\"recall\",\"description\":\"does recall\"}")
    );
    assert_eq!(tool.embedding, vec![1, 2]);
}

#[test]
fn announced_tools_replace_earlier_ones() {
    let mut engine = engine();
    engine.ingest_tools("git".to_string(), announced(&["log"]), vectors(1));
    assert_eq!(names(engine.tools()), vec!["memory/store", "memory/recall", "git/log"]);
}

#[test]
fn announcing_again_changes_nothing() {
    let mut engine = engine();
    engine.ingest_tools("git".to_string(), announced(&["log", "diff"]), vectors(2));
    let once = names(engine.tools());
    engine.ingest_tools("git".to_string(), announced(&["log", "diff"]), vectors(2));
    assert_eq!(names(engine.tools()), once);
}

#[test]
fn announcing_nothing_changes_nothing() {
    let mut engine = engine();
    let before = names(engine.tools());
    engine.ingest_tools("git".to_string(), Vec::new(), vectors(3));
    assert_eq!(names(engine.tools()), before);
}

#[test]
fn index_holds_the_last_announcements() {
    let mut engine = SemanticEngine::new(StoredIndex::Missing);
    engine.ingest_tools("git".to_string(), announced(&["commit", "push"]), vectors(2));
    engine.ingest_tools("memory".to_string(), announced(&["store"]), vectors(1));
    engine.ingest_tools("git".to_string(), announced(&["log", "diff"]), vectors(2));
    engine.ingest_tools("files".to_string(), Vec::new(), Vec::new());
    engine.ingest_tools("memory".to_string(), announced(&["recall"]), vectors(1));
    engine.ingest_tools("git".to_string(), Vec::new(), Vec::new());
    assert_eq!(names(engine.tools()), vec!["git/log", "git/diff", "memory/recall"]);
    assert_eq!(
        engine.tools()[1].full_schema,
        value("{\"name\":\"diff\",\"description\":\"does diff\"}")
    );
}

#[test]
fn tool_without_embedding_is_left_out() {
    let mut engine = engine();
    engine.ingest_tools("git".to_string(), announced(&["log", "diff", "tag"]), vectors(2));
    assert_eq!(
        names(engine.tools()),
        vec!["memory/store", "memory/recall", "git/log", "git/diff"]
    );
    engine.ingest_tools("git".to_string(), announced(&["log"]), vectors(3));
    assert_eq!(names(engine.tools()), vec!["memory/store", "memory/recall", "git/log"]);
    engine.ingest_tools("git".to_string(), announced(&["log"]), Vec::new());
    assert_eq!(names(engine.tools()), vec!["memory/store", "memory/recall"]);
}

#[test]
fn search_finds_the_best() {
    let engine = engine();
    let found = engine.search(&bits(&[0.2, 0.9, 0.2, 0.5]), 3);
    assert_eq!(names(&found), vec!["git/push", "memory/recall", "git/commit"]);
}

#[test]
fn wide_search_finds_everything() {
    let engine = engine();
    let found = engine.search(&bits(&[0.4, 0.4, 0.4, 0.4]), 10);
    assert_eq!(names(&found), names(engine.tools()));
    assert_eq!(found[2].full_schema, engine.tools()[2].full_schema);
    assert_eq!(found[2].embedding, engine.tools()[2].embedding);
}

#[test]
fn wide_search_finds_equal_tools_as_often_as_they_are_there() {
    let mut engine = engine();
    engine.ingest_tools("twice".to_string(), announced(&["same", "same"]), vectors(2));
    let found = engine.search(&bits(&[0.1, 0.2, 0.3, 0.4, 0.5, 0.6]), 6);
    assert_eq!(
        names(&found),
        vec![
            "twice/same",
            "twice/same",
            "memory/recall",
            "memory/store",
            "git/push",
            "git/commit"
        ]
    );
}

#[test]
fn search_that_may_find_nothing() {
    let engine = engine();
    assert!(engine.search(&bits(&[1.0, 1.0, 1.0, 1.0]), 0).is_empty());
    assert!(SemanticEngine::new(StoredIndex::Missing).search(&Vec::new(), 5).is_empty());
}

//! The semantic index: the tools of all servers, each with the embedding of its description.
//!
//! An embedding is a vector of IEEE 754 binary32 numbers, held as their bit patterns.

use serde_json::Value;
use vstd::prelude::*;

use crate::json;
use crate::json::JsonView;
use crate::ranking;
use crate::text;

verus! {

/// A tool in the index.
#[derive(Debug)]
pub struct IndexedTool {
    pub server_id: String,
    pub name: String,
    pub description: String,
    pub full_schema: Value,
    pub embedding: Vec<u32>,
}

/// What an [`IndexedTool`] holds.
pub struct IndexedToolView {
    pub server_id: Seq<char>,
    pub name: Seq<char>,
    pub description: Seq<char>,
    pub full_schema: JsonView,
    pub embedding: Seq<u32>,
}

impl View for IndexedTool {
    type V = IndexedToolView;

    open spec fn view(&self) -> IndexedToolView {
        IndexedToolView {
            server_id: self.server_id@,
            name: self.name@,
            description: self.description@,
            full_schema: json::content(self.full_schema),
            embedding: self.embedding@,
        }
    }
}

impl Clone for IndexedTool {
    fn clone(&self) -> (copy: IndexedTool)
        ensures
            copy@ == self@,
    {
        IndexedTool {
            server_id: self.server_id.clone(),
            name: self.name.clone(),
            description: self.description.clone(),
            full_schema: json::duplicate(&self.full_schema),
            embedding: self.embedding.clone(),
        }
    }
}

/// A tool as its server announced it, with what the index needs of it picked out.
#[derive(Debug)]
pub struct ToolEntry {
    pub name: String,
    pub description: String,
    pub schema: Value,
}

/// What a [`ToolEntry`] holds.
pub struct ToolEntryView {
    pub name: Seq<char>,
    pub description: Seq<char>,
    pub schema: JsonView,
}

impl View for ToolEntry {
    type V = ToolEntryView;

    open spec fn view(&self) -> ToolEntryView {
        ToolEntryView {
            name: self.name@,
            description: self.description@,
            schema: json::content(self.schema),
        }
    }
}

/// What several tools hold, in order.
pub open spec fn tool_views(tools: Seq<IndexedTool>) -> Seq<IndexedToolView> {
    tools.map_values(|tool: IndexedTool| tool@)
}

/// What several entries hold, in order.
pub open spec fn entry_views(entries: Seq<ToolEntry>) -> Seq<ToolEntryView> {
    entries.map_values(|entry: ToolEntry| entry@)
}

/// The contents of several embeddings, in order.
pub open spec fn embedding_views(embeddings: Seq<Vec<u32>>) -> Seq<Seq<u32>> {
    embeddings.map_values(|embedding: Vec<u32>| embedding@)
}

/// The text of a string member, or no text where there is no such member.
pub open spec fn member_text_or_empty(tool: JsonView, key: Seq<char>) -> Seq<char> {
    match tool.member_text(key) {
        Some(chars) => chars,
        None => Seq::empty(),
    }
}

impl ToolEntryView {
    /// The entry for a tool as its server announced it.
    pub open spec fn of(tool: JsonView) -> ToolEntryView {
        ToolEntryView {
            name: member_text_or_empty(tool, "name"@),
            description: member_text_or_empty(tool, "description"@),
            schema: tool,
        }
    }

    /// The text whose embedding places the tool in the index.
    pub open spec fn embedding_text(self) -> Seq<char> {
        "Name: "@ + self.name + " Description: "@ + self.description
    }

    /// The tool to be indexed for a server, once its embedding is known.
    pub open spec fn indexed(self, server_id: Seq<char>, embedding: Seq<u32>) -> IndexedToolView {
        IndexedToolView {
            server_id,
            name: self.name,
            description: self.description,
            full_schema: self.schema,
            embedding,
        }
    }
}

/// The tools of all servers but one, in order.
pub open spec fn without_server(index: Seq<IndexedToolView>, server_id: Seq<char>) -> Seq<
    IndexedToolView,
> {
    index.filter(|tool: IndexedToolView| tool.server_id != server_id)
}

/// The tools that pairing entries with embeddings gives: as many as the shorter list has.
pub open spec fn paired(
    server_id: Seq<char>,
    entries: Seq<ToolEntryView>,
    embeddings: Seq<Seq<u32>>,
) -> Seq<IndexedToolView> {
    let count = if entries.len() <= embeddings.len() {
        entries.len()
    } else {
        embeddings.len()
    };
    Seq::new(count, |i: int| entries[i].indexed(server_id, embeddings[i]))
}

/// The index after a server announced its tools: they take the place of those that it had before,
/// at the end. Announcing no tools changes nothing.
pub open spec fn ingested(
    index: Seq<IndexedToolView>,
    server_id: Seq<char>,
    entries: Seq<ToolEntryView>,
    embeddings: Seq<Seq<u32>>,
) -> Seq<IndexedToolView> {
    if entries.len() == 0 {
        index
    } else {
        without_server(index, server_id) + paired(server_id, entries, embeddings)
    }
}

/// The tools that rank first by their scores, at most `limit` of them.
pub open spec fn best(index: Seq<IndexedToolView>, scores: Seq<u32>, limit: nat) -> Seq<
    IndexedToolView,
> {
    let ranked = ranking::ranking(scores);
    let count = if limit <= ranked.len() {
        limit
    } else {
        ranked.len()
    };
    Seq::new(count, |i: int| index[ranked[i] as int])
}

/// What was found where the index of an earlier run would be stored.
#[derive(Debug)]
pub enum StoredIndex {
    /// Nothing is stored.
    Missing,
    /// Something is stored that cannot be read.
    Unreadable,
    /// These tools are stored.
    Read(Vec<IndexedTool>),
}

impl StoredIndex {
    /// The tools to start with.
    pub open spec fn tools(self) -> Seq<IndexedToolView> {
        match self {
            StoredIndex::Read(tools) => tool_views(tools@),
            _ => Seq::empty(),
        }
    }
}

/// The entries for the tools that a server announced.
pub open spec fn entries_of(tools: Seq<JsonView>) -> Seq<ToolEntryView> {
    tools.map_values(|tool: JsonView| ToolEntryView::of(tool))
}

/// The texts to be embedded for several entries, in order.
pub open spec fn embedding_texts(entries: Seq<ToolEntryView>) -> Seq<Seq<char>> {
    entries.map_values(|entry: ToolEntryView| entry.embedding_text())
}

/// What it takes to index the tools that a server announced: the entries, and for each one the
/// text to be embedded.
#[derive(Debug)]
pub struct Ingestion {
    pub entries: Vec<ToolEntry>,
    pub texts: Vec<String>,
}

/// Picks the name and the description out of the tools that a server announced.
pub fn describe_tools(tools: Vec<Value>) -> (entries: Vec<ToolEntry>)
    ensures
        entry_views(entries@) == entries_of(json::contents(tools@)),
        entries.len() == tools.len(),
        forall|i: int|
            0 <= i < tools.len() ==> {
                let tool = json::content(tools@[i]);
                &&& (#[trigger] entries@[i]).name@ == match tool.member("name"@) {
                    Some(JsonView::Text(name)) => name,
                    _ => Seq::empty(),
                }
                &&& entries@[i].description@ == match tool.member("description"@) {
                    Some(JsonView::Text(description)) => description,
                    _ => Seq::empty(),
                }
                &&& json::content(entries@[i].schema) == tool
            },
{
    let mut entries: Vec<ToolEntry> = Vec::new();
    for tool in iter: tools
        invariant
            iter.seq() == tools@,
            entries.len() == iter.index(),
            forall|i: int|
                0 <= i < entries.len() ==> (#[trigger] entries@[i])@ == ToolEntryView::of(
                    json::content(tools@[i]),
                ),
    {
        let name = match json::member_str(&tool, "name") {
            Some(chars) => chars.to_string(),
            None => String::new(),
        };
        let description = match json::member_str(&tool, "description") {
            Some(chars) => chars.to_string(),
            None => String::new(),
        };
        entries.push(ToolEntry { name, description, schema: tool });
    }
    assert(entry_views(entries@) =~= entries_of(json::contents(tools@)));
    entries
}

impl ToolEntry {
    /// The text whose embedding places the tool in the index.
    pub fn embedding_text(&self) -> (chars: String)
        ensures
            chars@ == self@.embedding_text(),
            chars@ == "Name: "@ + self.name@ + " Description: "@ + self.description@,
    {
        let mut chars = "Name: ".to_string();
        chars.append(&self.name);
        chars.append(" Description: ");
        chars.append(&self.description);
        chars
    }
}

/// Prepares the tools that a server announced for indexing. There is nothing to do where it
/// announced none.
pub fn prepare_ingestion(tools: Vec<Value>) -> (ingestion: Option<Ingestion>)
    ensures
        match ingestion {
            Some(work) => {
                &&& tools.len() > 0
                &&& entry_views(work.entries@) == entries_of(json::contents(tools@))
                &&& text::string_views(work.texts@) == embedding_texts(
                    entries_of(json::contents(tools@)),
                )
                &&& work.entries.len() == tools.len()
                &&& work.texts.len() == tools.len()
                &&& forall|i: int|
                    0 <= i < tools.len() ==> (#[trigger] work.texts@[i])@ == "Name: "@ + (
                    match json::content(tools@[i]).member("name"@) {
                        Some(JsonView::Text(name)) => name,
                        _ => Seq::empty(),
                    }) + " Description: "@ + (match json::content(tools@[i]).member(
                        "description"@,
                    ) {
                        Some(JsonView::Text(description)) => description,
                        _ => Seq::empty(),
                    })
                &&& forall|i: int|
                    0 <= i < tools.len() ==> json::content((#[trigger] work.entries@[i]).schema)
                        == json::content(tools@[i])
            },
            None => tools.len() == 0,
        },
{
    let ghost announced = json::contents(tools@);
    let ghost values = tools@;
    let entries = describe_tools(tools);
    assert(entry_views(entries@).len() == entries_of(announced).len());
    if entries.len() == 0 {
        return None;
    }
    let mut texts: Vec<String> = Vec::new();
    let mut at: usize = 0;
    while at < entries.len()
        invariant
            at <= entries.len(),
            texts.len() == at,
            forall|i: int|
                0 <= i < at ==> (#[trigger] texts@[i])@ == entries@[i]@.embedding_text(),
            forall|i: int|
                0 <= i < at ==> (#[trigger] texts@[i])@ == "Name: "@ + entries@[i].name@
                    + " Description: "@ + entries@[i].description@,
        decreases entries.len() - at,
    {
        texts.push(entries[at].embedding_text());
        at += 1;
    }
    assert(text::string_views(texts@) =~= embedding_texts(entry_views(entries@)));
    assert forall|i: int| 0 <= i < values.len() implies (#[trigger] texts@[i])@ == "Name: "@ + (
    match json::content(values[i]).member("name"@) {
        Some(JsonView::Text(name)) => name,
        _ => Seq::empty(),
    }) + " Description: "@ + (match json::content(values[i]).member("description"@) {
        Some(JsonView::Text(description)) => description,
        _ => Seq::empty(),
    }) by {
        assert(entries@[i].name@ == match json::content(values[i]).member("name"@) {
            Some(JsonView::Text(name)) => name,
            _ => Seq::empty(),
        });
    }
    Some(Ingestion { entries, texts })
}

/// The semantic index.
pub struct SemanticEngine {
    index: Vec<IndexedTool>,
}

impl View for SemanticEngine {
    type V = Seq<IndexedToolView>;

    closed spec fn view(&self) -> Seq<IndexedToolView> {
        tool_views(self.index@)
    }
}

impl SemanticEngine {
    /// Starts with the index of an earlier run where one can be read, and with none otherwise.
    pub fn new(stored: StoredIndex) -> (engine: SemanticEngine)
        ensures
            engine@ == stored.tools(),
    {
        let index = match stored {
            StoredIndex::Read(tools) => tools,
            StoredIndex::Missing => Vec::new(),
            StoredIndex::Unreadable => Vec::new(),
        };
        let engine = SemanticEngine { index };
        assert(engine@ =~= stored.tools());
        engine
    }

    /// The tools of the index, in order.
    pub fn tools(&self) -> (tools: &Vec<IndexedTool>)
        ensures
            tool_views(tools@) == self@,
    {
        &self.index
    }

    /// Replaces the tools of a server by those that it announced, each with its embedding.
    pub fn ingest_tools(
        &mut self,
        server_id: String,
        tools: Vec<ToolEntry>,
        embeddings: Vec<Vec<u32>>,
    )
        ensures
            final(self)@ == ingested(
                old(self)@,
                server_id@,
                entry_views(tools@),
                embedding_views(embeddings@),
            ),
    {
        let ghost before = self@;
        let ghost entries = entry_views(tools@);
        let ghost vectors = embedding_views(embeddings@);
        if tools.len() == 0 {
            return;
        }
        let mut previous: Vec<IndexedTool> = Vec::new();
        std::mem::swap(&mut previous, &mut self.index);
        let ghost keep = |tool: IndexedToolView| tool.server_id != server_id@;
        let mut index: Vec<IndexedTool> = Vec::new();
        assert(tool_views(index@) =~= before.take(0).filter(keep));
        for tool in iter: previous
            invariant
                iter.seq() == previous@,
                before == tool_views(previous@),
                keep == (|tool: IndexedToolView| tool.server_id != server_id@),
                tool_views(index@) == before.take(iter.index()).filter(keep),
        {
            let ghost at = iter.index();
            proof {
                assert(before[at] == tool@);
                assert(before.take(at + 1) =~= before.take(at).push(tool@));
                before.take(at).lemma_filter_push(tool@, keep);
            }
            if tool.server_id != server_id {
                let ghost kept = index@;
                index.push(tool);
                assert(tool_views(index@) =~= tool_views(kept).push(tool@));
            }
        }
        assert(before.take(before.len() as int) =~= before);
        let ghost others = tool_views(index@);
        let total: usize = tools.len();
        let mut at: usize = 0;
        for entry in iter: tools
            invariant
                iter.seq() == tools@,
                total == tools@.len(),
                iter.index() == at,
                entries == entry_views(tools@),
                vectors == embedding_views(embeddings@),
                others == without_server(before, server_id@),
                tool_views(index@) == others + paired(
                    server_id@,
                    entries.take(iter.index()),
                    vectors,
                ),
        {
            let ghost pushed = paired(server_id@, entries.take(at as int), vectors);
            assert(entries[at as int] == entry@);
            if at < embeddings.len() {
                let ghost earlier = index@;
                index.push(
                    IndexedTool {
                        server_id: server_id.clone(),
                        name: entry.name,
                        description: entry.description,
                        full_schema: entry.schema,
                        embedding: embeddings[at].clone(),
                    },
                );
                assert(tool_views(index@) =~= tool_views(earlier).push(index@.last()@));
                assert(paired(server_id@, entries.take(at + 1), vectors) =~= pushed.push(
                    index@.last()@,
                ));
            } else {
                assert(paired(server_id@, entries.take(at + 1), vectors) =~= pushed);
            }
            at += 1;
        }
        assert(entries.take(entries.len() as int) =~= entries);
        self.index = index;
    }

    /// The tools that rank first by their scores, at most `limit` of them. There is one score for
    /// each tool of the index, in order: how similar its embedding is to that of the query.
    pub fn search(&self, scores: &Vec<u32>, limit: usize) -> (found: Vec<IndexedTool>)
        requires
            scores.len() == self@.len(),
        ensures
            tool_views(found@) == best(self@, scores@, limit as nat),
    {
        let ranked = ranking::rank(scores);
        proof {
            ranking::lemma_ranking(scores@);
            assert forall|i: int| 0 <= i < ranked.len() implies #[trigger] ranked@[i]
                < scores.len() by {
                assert(ranking::ranking(scores@).contains(ranked@[i]));
            }
        }
        let count: usize = if limit <= ranked.len() {
            limit
        } else {
            ranked.len()
        };
        let mut found: Vec<IndexedTool> = Vec::new();
        while found.len() < count
            invariant
                count <= ranked.len(),
                found.len() <= count,
                ranked@ == ranking::ranking(scores@),
                scores.len() == self@.len(),
                forall|i: int| 0 <= i < ranked.len() ==> #[trigger] ranked@[i] < scores.len(),
                forall|i: int|
                    0 <= i < found.len() ==> (#[trigger] found@[i])@ == self@[ranked@[i] as int],
            decreases count - found.len(),
        {
            let position: usize = ranked[found.len()];
            found.push(self.index[position].clone());
        }
        assert(tool_views(found@) =~= best(self@, scores@, limit as nat));
        found
    }
}

} // verus!

//! The index in the form in which it is stored for a later run.
//!
//! A schema is stored as JSON text: a binary format that does not say of what kind a value is
//! cannot be read back into a JSON value.

use serde_json::Value;
use vstd::prelude::*;

use crate::json;
use crate::semantic::tool_views;
use crate::semantic::IndexedTool;
use crate::semantic::IndexedToolView;
use crate::semantic::StoredIndex;

verus! {

/// A tool of the index as it is stored.
#[derive(Debug)]
pub struct StoredTool {
    pub server_id: String,
    pub name: String,
    pub description: String,
    pub full_schema: String,
    pub embedding: Vec<u32>,
}

/// What a [`StoredTool`] holds.
pub struct StoredToolView {
    pub server_id: Seq<char>,
    pub name: Seq<char>,
    pub description: Seq<char>,
    pub full_schema: Seq<char>,
    pub embedding: Seq<u32>,
}

impl View for StoredTool {
    type V = StoredToolView;

    open spec fn view(&self) -> StoredToolView {
        StoredToolView {
            server_id: self.server_id@,
            name: self.name@,
            description: self.description@,
            full_schema: self.full_schema@,
            embedding: self.embedding@,
        }
    }
}

impl StoredToolView {
    /// The form in which a tool is stored: its schema becomes text.
    pub open spec fn of(tool: IndexedToolView) -> StoredToolView {
        StoredToolView {
            server_id: tool.server_id,
            name: tool.name,
            description: tool.description,
            full_schema: json::compact_text(tool.full_schema),
            embedding: tool.embedding,
        }
    }

    /// Whether the text of the schema can be read.
    pub open spec fn is_readable(self) -> bool {
        json::parsed(self.full_schema) is Some
    }

    /// The tool that a readable one stands for.
    pub open spec fn restored(self) -> IndexedToolView
        recommends
            self.is_readable(),
    {
        IndexedToolView {
            server_id: self.server_id,
            name: self.name,
            description: self.description,
            full_schema: json::parsed(self.full_schema)->0,
            embedding: self.embedding,
        }
    }
}

/// What several stored tools hold, in order.
pub open spec fn stored_views(stored: Seq<StoredTool>) -> Seq<StoredToolView> {
    stored.map_values(|tool: StoredTool| tool@)
}

/// The form in which an index is stored.
pub open spec fn stored_all(index: Seq<IndexedToolView>) -> Seq<StoredToolView> {
    index.map_values(|tool: IndexedToolView| StoredToolView::of(tool))
}

/// Whether all of these tools can be read.
pub open spec fn all_readable(stored: Seq<StoredToolView>) -> bool {
    forall|i: int| 0 <= i < stored.len() ==> (#[trigger] stored[i]).is_readable()
}

/// The index that readable tools stand for.
pub open spec fn restored_all(stored: Seq<StoredToolView>) -> Seq<IndexedToolView> {
    stored.map_values(|tool: StoredToolView| tool.restored())
}

/// The index that a later run starts with where these tools are stored: what they stand for where
/// all of them can be read, and none otherwise.
pub open spec fn opened(stored: Seq<StoredToolView>) -> Seq<IndexedToolView> {
    if all_readable(stored) {
        restored_all(stored)
    } else {
        Seq::empty()
    }
}

/// Whether no schema of an index is nested more deeply than can be read. That is so of every tool
/// that came in a message, because messages are read to the same depth.
pub open spec fn all_within_depth(index: Seq<IndexedToolView>) -> bool {
    forall|i: int|
        0 <= i < index.len() ==> (#[trigger] index[i]).full_schema.nests_within(
            json::READ_DEPTH as nat,
        )
}

/// Puts an index in the form in which it is stored. Each tool whose schema is not nested too deeply
/// is read as the same tool again. Where that holds of every tool, [`restore`] reads the whole, and
/// a later run starts with the same index.
pub fn store(tools: &Vec<IndexedTool>) -> (stored: Vec<StoredTool>)
    ensures
        stored_views(stored@) == stored_all(tool_views(tools@)),
        stored.len() == tools.len(),
        forall|i: int|
            0 <= i < tools.len() ==> {
                &&& (#[trigger] stored@[i]).server_id@ == tools@[i].server_id@
                &&& stored@[i].name@ == tools@[i].name@
                &&& stored@[i].description@ == tools@[i].description@
                &&& stored@[i].full_schema@ == json::compact_text(
                    json::content(tools@[i].full_schema),
                )
                &&& stored@[i].embedding@ == tools@[i].embedding@
            },
        forall|i: int|
            0 <= i < tools.len() && json::content(tools@[i].full_schema).nests_within(127)
                ==> json::parsed((#[trigger] stored@[i]).full_schema@) == Some(
                json::content(tools@[i].full_schema),
            ),
        forall|i: int|
            0 <= i < tools.len() && tools@[i]@.full_schema.nests_within(json::READ_DEPTH as nat)
                ==> (#[trigger] stored@[i])@.is_readable() && stored@[i]@.restored() == tools@[i]@,
        all_within_depth(tool_views(tools@)) ==> {
            &&& all_readable(stored_views(stored@))
            &&& opened(stored_views(stored@)) == tool_views(tools@)
        },
{
    let mut stored: Vec<StoredTool> = Vec::new();
    let mut at: usize = 0;
    while at < tools.len()
        invariant
            at <= tools.len(),
            stored.len() == at,
            forall|i: int|
                0 <= i < at ==> (#[trigger] stored@[i])@ == StoredToolView::of(tools@[i]@),
            forall|i: int|
                0 <= i < at && tools@[i]@.full_schema.nests_within(json::READ_DEPTH as nat)
                    ==> (#[trigger] stored@[i])@.is_readable() && stored@[i]@.restored()
                    == tools@[i]@,
        decreases tools.len() - at,
    {
        let tool = &tools[at];
        stored.push(
            StoredTool {
                server_id: tool.server_id.clone(),
                name: tool.name.clone(),
                description: tool.description.clone(),
                full_schema: json::to_compact(&tool.full_schema),
                embedding: tool.embedding.clone(),
            },
        );
        at += 1;
    }
    assert(stored_views(stored@) =~= stored_all(tool_views(tools@)));
    proof {
        let (index, views) = (tool_views(tools@), stored_views(stored@));
        if all_within_depth(index) {
            assert forall|i: int| 0 <= i < views.len() implies {
                &&& (#[trigger] views[i]).is_readable()
                &&& views[i].restored() == index[i]
            } by {
                assert(index[i].full_schema.nests_within(json::READ_DEPTH as nat));
                assert(views[i] == stored@[i]@);
            }
            assert(restored_all(views) =~= index);
        }
    }
    stored
}

/// Reads an index from the form in which it is stored. One tool that cannot be read makes all of it
/// unreadable.
pub fn restore(stored: Vec<StoredTool>) -> (index: StoredIndex)
    ensures
        match index {
            StoredIndex::Read(tools) => {
                &&& all_readable(stored_views(stored@))
                &&& tool_views(tools@) == restored_all(stored_views(stored@))
            },
            StoredIndex::Unreadable => !all_readable(stored_views(stored@)),
            StoredIndex::Missing => false,
        },
        index.tools() == opened(stored_views(stored@)),
        index is Unreadable <==> exists|i: int|
            0 <= i < stored.len() && json::parsed((#[trigger] stored@[i]).full_schema@) is None,
        match index {
            StoredIndex::Read(tools) => tools.len() == stored.len() && forall|i: int|
                0 <= i < stored.len() ==> {
                    &&& (#[trigger] tools@[i]).server_id@ == stored@[i].server_id@
                    &&& tools@[i].name@ == stored@[i].name@
                    &&& tools@[i].description@ == stored@[i].description@
                    &&& json::parsed(stored@[i].full_schema@) == Some(
                        json::content(tools@[i].full_schema),
                    )
                    &&& tools@[i].embedding@ == stored@[i].embedding@
                },
            _ => true,
        },
{
    let ghost views = stored_views(stored@);
    let mut tools: Vec<IndexedTool> = Vec::new();
    for tool in iter: stored
        invariant
            iter.seq() == stored@,
            views == stored_views(stored@),
            tools.len() == iter.index(),
            forall|i: int| 0 <= i < tools.len() ==> (#[trigger] views[i]).is_readable(),
            forall|i: int|
                0 <= i < tools.len() ==> (#[trigger] tools@[i])@ == views[i].restored(),
    {
        assert(views[iter.index()] == tool@);
        let full_schema: Value = match json::parse(&tool.full_schema) {
            Ok(value) => value,
            Err(_) => return StoredIndex::Unreadable,
        };
        tools.push(
            IndexedTool {
                server_id: tool.server_id,
                name: tool.name,
                description: tool.description,
                full_schema,
                embedding: tool.embedding,
            },
        );
    }
    assert(tool_views(tools@) =~= restored_all(views));
    assert forall|i: int| 0 <= i < stored@.len() implies json::parsed(
        (#[trigger] stored@[i]).full_schema@,
    ) is Some by {
        assert(views[i].is_readable());
    }
    StoredIndex::Read(tools)
}

/// The model of a stored tool holds what each of its fields holds, and those of several are one for
/// one.
pub proof fn law_stored_tool_model_is_faithful(tool: StoredTool, tools: Seq<StoredTool>)
    ensures
        tool@.server_id == tool.server_id@,
        tool@.name == tool.name@,
        tool@.description == tool.description@,
        tool@.full_schema == tool.full_schema@,
        tool@.embedding == tool.embedding@,
        stored_views(tools).len() == tools.len(),
        forall|i: int| 0 <= i < tools.len() ==> #[trigger] stored_views(tools)[i] == tools[i]@,
{
}

/// A run starts with a tool for each stored one, in order, and with what was stored of it, its
/// schema as it is read from the text. Where a single text cannot be read, it starts with nothing.
pub proof fn law_start_is_with_all_that_is_stored_or_nothing(
    stored: Seq<StoredToolView>,
    bad: int,
)
    ensures
        0 <= bad < stored.len() && json::parsed(stored[bad].full_schema) is None ==> opened(
            stored,
        ).len() == 0,
        (forall|i: int|
            0 <= i < stored.len() ==> json::parsed((#[trigger] stored[i]).full_schema) is Some)
            ==> {
            &&& opened(stored).len() == stored.len()
            &&& forall|i: int|
                0 <= i < stored.len() ==> {
                    &&& (#[trigger] opened(stored)[i]).server_id == stored[i].server_id
                    &&& opened(stored)[i].name == stored[i].name
                    &&& opened(stored)[i].description == stored[i].description
                    &&& json::parsed(stored[i].full_schema) == Some(opened(stored)[i].full_schema)
                    &&& opened(stored)[i].embedding == stored[i].embedding
                }
        },
{
    if 0 <= bad < stored.len() && json::parsed(stored[bad].full_schema) is None {
        assert(!stored[bad].is_readable());
    }
    if forall|i: int|
        0 <= i < stored.len() ==> json::parsed((#[trigger] stored[i]).full_schema) is Some {
        assert(all_readable(stored));
    }
}

/// The index survives a restart, exactly where the text of each schema is read as the schema that
/// was written.
pub proof fn law_index_survives_a_restart(index: Seq<IndexedToolView>)
    ensures
        opened(stored_all(index)) == index <==> forall|i: int|
            0 <= i < index.len() ==> json::parsed(
                json::compact_text((#[trigger] index[i]).full_schema),
            ) == Some(index[i].full_schema),
{
    let stored = stored_all(index);
    if opened(stored) == index {
        assert forall|i: int| 0 <= i < index.len() implies json::parsed(
            json::compact_text((#[trigger] index[i]).full_schema),
        ) == Some(index[i].full_schema) by {
            assert(stored[i].is_readable());
            assert(restored_all(stored)[i] == index[i]);
        }
    }
    if forall|i: int|
        0 <= i < index.len() ==> json::parsed(
            json::compact_text((#[trigger] index[i]).full_schema),
        ) == Some(index[i].full_schema) {
        assert forall|i: int| 0 <= i < stored.len() implies (
        #[trigger] stored[i]).is_readable() by {
            assert(stored[i] == StoredToolView::of(index[i]));
        }
        assert(restored_all(stored) =~= index);
    }
}

} // verus!

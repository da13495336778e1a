//! What each operation gives for what it takes, stated of the values themselves.

use serde_json::Value;
use vstd::prelude::*;

use crate::events;
use crate::events::DownstreamAction;
use crate::events::DownstreamActionView;
use crate::events::UpstreamAction;
use crate::events::UpstreamActionView;
use crate::json;
use crate::json::JsonView;
use crate::message;
use crate::message::JsonRpcMessage;
use crate::message::MessageView;
use crate::ranking;
use crate::router;
use crate::router::ToolCall;
use crate::router::ToolCallError;
use crate::router::ToolCallView;
use crate::semantic;
use crate::semantic::IndexedTool;
use crate::semantic::IndexedToolView;
use crate::semantic::StoredIndex;
use crate::semantic::ToolEntry;
use crate::semantic::ToolEntryView;
use crate::text;

verus! {

/// The model of a message holds what each of its fields holds, a missing one as missing.
pub proof fn law_message_model_is_faithful(message: JsonRpcMessage, value: Value)
    ensures
        message@.jsonrpc == message.jsonrpc@,
        message::optional_content(None) is None,
        message::optional_content(Some(value)) == Some(json::content(value)),
        message@.id == message::optional_content(message.id),
        message.method is None ==> message@.method is None,
        message.method is Some ==> message@.method == Some(message.method->0@),
        message@.params == message::optional_content(message.params),
        message@.result == message::optional_content(message.result),
        message@.error == message::optional_content(message.error),
{
}

/// The model of a tool, and that of an entry for one, holds what each of its fields holds.
pub proof fn law_tool_models_are_faithful(tool: IndexedTool, entry: ToolEntry)
    ensures
        tool@.server_id == tool.server_id@,
        tool@.name == tool.name@,
        tool@.description == tool.description@,
        tool@.full_schema == json::content(tool.full_schema),
        tool@.embedding == tool.embedding@,
        entry@.name == entry.name@,
        entry@.description == entry.description@,
        entry@.schema == json::content(entry.schema),
{
}

/// The models of several things are as many, and each is that of the thing at its place.
pub proof fn law_models_are_one_for_one(
    tools: Seq<IndexedTool>,
    entries: Seq<ToolEntry>,
    embeddings: Seq<Vec<u32>>,
)
    ensures
        semantic::tool_views(tools).len() == tools.len(),
        forall|i: int|
            0 <= i < tools.len() ==> #[trigger] semantic::tool_views(tools)[i] == tools[i]@,
        semantic::entry_views(entries).len() == entries.len(),
        forall|i: int|
            0 <= i < entries.len() ==> #[trigger] semantic::entry_views(entries)[i] == entries[i]@,
        semantic::embedding_views(embeddings).len() == embeddings.len(),
        forall|i: int|
            0 <= i < embeddings.len() ==> #[trigger] semantic::embedding_views(embeddings)[i]
                == embeddings[i]@,
{
}

/// Of an announced tool its name, its description and all of it are kept. A name or a description
/// that is missing, or is not a string, is empty.
pub proof fn law_entry_holds_the_announced_tool(
    tool: JsonView,
    name: Seq<char>,
    description: Seq<char>,
)
    ensures
        ToolEntryView::of(tool).schema == tool,
        tool.member("name"@) == Some(JsonView::Text(name)) ==> ToolEntryView::of(tool).name == name,
        tool.member("description"@) == Some(JsonView::Text(description)) ==> ToolEntryView::of(
            tool,
        ).description == description,
        !(tool.member("name"@) is Some && tool.member("name"@)->0 is Text) ==> ToolEntryView::of(
            tool,
        ).name.len() == 0,
        !(tool.member("description"@) is Some && tool.member("description"@)->0 is Text)
            ==> ToolEntryView::of(tool).description.len() == 0,
{
}

/// The text to embed for a tool holds its whole name and its whole description, each behind its
/// label, and nothing else.
pub proof fn law_text_to_embed_holds_name_and_description(entry: ToolEntryView)
    ensures
        entry.embedding_text().len() == 6 + entry.name.len() + 14 + entry.description.len(),
        entry.embedding_text().take(6) == "Name: "@,
        entry.embedding_text().subrange(6, 6int + entry.name.len()) == entry.name,
        entry.embedding_text().subrange(6int + entry.name.len(), 20int + entry.name.len())
            == " Description: "@,
        entry.embedding_text().skip(20int + entry.name.len()) == entry.description,
{
    reveal_strlit("Name: ");
    reveal_strlit(" Description: ");
    let all = entry.embedding_text();
    let n = entry.name.len() as int;
    assert(all.take(6) =~= "Name: "@);
    assert(all.subrange(6, 6 + n) =~= entry.name);
    assert(all.subrange(6 + n, 20 + n) =~= " Description: "@);
    assert(all.skip(20 + n) =~= entry.description);
}

/// Tools of the same name get the same text to embed only where their descriptions are the same.
pub proof fn law_descriptions_are_told_apart(a: ToolEntryView, b: ToolEntryView)
    requires
        a.name == b.name,
    ensures
        a.embedding_text() == b.embedding_text() <==> a.description == b.description,
{
    law_text_to_embed_holds_name_and_description(a);
    law_text_to_embed_holds_name_and_description(b);
}

/// The entries for announced tools, and the texts to embed for entries, are as many, and each is
/// that of the one at its place.
pub proof fn law_entries_and_texts_are_one_for_one(
    tools: Seq<JsonView>,
    entries: Seq<ToolEntryView>,
)
    ensures
        semantic::entries_of(tools).len() == tools.len(),
        forall|i: int|
            0 <= i < tools.len() ==> #[trigger] semantic::entries_of(tools)[i]
                == ToolEntryView::of(tools[i]),
        semantic::embedding_texts(entries).len() == entries.len(),
        forall|i: int|
            0 <= i < entries.len() ==> #[trigger] semantic::embedding_texts(entries)[i]
                == entries[i].embedding_text(),
{
}

/// Indexing keeps the tools of all other servers, in order and first. Behind them come the
/// announced tools, in order, as many as have an embedding: each under the name of the server, with
/// its own name, description, schema and embedding. Announcing no tools changes nothing.
pub proof fn law_indexing_keeps_the_others_and_adds_the_announced(
    index: Seq<IndexedToolView>,
    server_id: Seq<char>,
    entries: Seq<ToolEntryView>,
    embeddings: Seq<Seq<u32>>,
)
    ensures
        entries.len() == 0 ==> semantic::ingested(index, server_id, entries, embeddings) == index,
        entries.len() > 0 ==> {
            let after = semantic::ingested(index, server_id, entries, embeddings);
            let others = index.filter(|tool: IndexedToolView| tool.server_id != server_id);
            &&& after.len() == others.len() + (if entries.len() <= embeddings.len() {
                entries.len()
            } else {
                embeddings.len()
            })
            &&& after.take(others.len() as int) == others
            &&& forall|i: int|
                0 <= i < entries.len() && i < embeddings.len() ==> {
                    &&& (#[trigger] after[others.len() + i]).server_id == server_id
                    &&& after[others.len() + i].name == entries[i].name
                    &&& after[others.len() + i].description == entries[i].description
                    &&& after[others.len() + i].full_schema == entries[i].schema
                    &&& after[others.len() + i].embedding == embeddings[i]
                }
        },
{
    if entries.len() > 0 {
        let after = semantic::ingested(index, server_id, entries, embeddings);
        let others = index.filter(|tool: IndexedToolView| tool.server_id != server_id);
        assert(after.take(others.len() as int) =~= others);
    }
}

/// A run starts with exactly the tools that were read, and with none where none could be.
pub proof fn law_start_is_with_what_was_read(tools: Vec<IndexedTool>)
    ensures
        StoredIndex::Read(tools).tools().len() == tools@.len(),
        forall|i: int|
            0 <= i < tools@.len() ==> #[trigger] StoredIndex::Read(tools).tools()[i] == tools@[i]@,
        StoredIndex::Missing.tools().len() == 0,
        StoredIndex::Unreadable.tools().len() == 0,
{
}

/// A search picks as many different tools as it may and as there are. It gives them by falling
/// similarity, equally similar ones in the order of the index, and leaves out none that is more
/// similar than one that it picks. What is not a number counts as more similar than every number.
pub proof fn law_search_picks_the_most_similar(
    index: Seq<IndexedToolView>,
    scores: Seq<u32>,
    limit: nat,
)
    requires
        scores.len() == index.len(),
        index.len() <= usize::MAX,
    ensures
        semantic::best(index, scores, limit).len() == (if limit <= index.len() {
            limit
        } else {
            index.len()
        }),
        exists|picked: Seq<int>| #[trigger]
            picked.no_duplicates() && picked.len() == semantic::best(index, scores, limit).len()
                && (forall|i: int|
                0 <= i < picked.len() ==> 0 <= #[trigger] picked[i] < index.len()
                    && semantic::best(index, scores, limit)[i] == index[picked[i]]) && (forall|
                i: int,
                j: int,
            |
                0 <= i < j < picked.len() ==> at_least_as_similar(
                    scores,
                    #[trigger] picked[i],
                    #[trigger] picked[j],
                )) && (forall|i: int, left: int|
                0 <= i < picked.len() && 0 <= left < index.len() && !picked.contains(left)
                    ==> #[trigger] at_least_as_similar(scores, picked[i], left)),
{
    let found = semantic::best(index, scores, limit);
    let ranked = ranking::ranking(scores);
    ranking::lemma_ranking(scores);
    ranking::law_ranking_is_by_number(scores);
    let picked = Seq::new(found.len(), |i: int| ranked[i] as int);
    assert forall|i: int| 0 <= i < picked.len() implies 0 <= #[trigger] picked[i] < index.len()
        && found[i] == index[picked[i]] by {
        assert(ranked.contains(ranked[i]));
    }
    assert(picked.no_duplicates());
    assert forall|i: int, j: int| 0 <= i < j < picked.len() implies at_least_as_similar(
        scores,
        #[trigger] picked[i],
        #[trigger] picked[j],
    ) by {
        assert(ranked[i] == picked[i] && ranked[j] == picked[j]);
    }
    assert forall|i: int, left: int|
        0 <= i < picked.len() && 0 <= left < index.len() && !picked.contains(
            left,
        ) implies #[trigger] at_least_as_similar(scores, picked[i], left) by {
        assert(ranked.contains(left as usize));
        let place = choose|place: int| 0 <= place < ranked.len() && ranked[place] == left as usize;
        if place < found.len() {
            assert(picked[place] == left);
        }
        assert(ranked[i] == picked[i]);
    }
}

/// Whether the tool at position `i` is more similar than the one at position `j`, or as similar
/// and earlier in the index.
pub open spec fn at_least_as_similar(scores: Seq<u32>, i: int, j: int) -> bool {
    if ranking::is_number(scores[i]) && ranking::is_number(scores[j]) {
        ||| ranking::encoded_number(scores[i]) > ranking::encoded_number(scores[j])
        ||| ranking::encoded_number(scores[i]) == ranking::encoded_number(scores[j]) && i < j
    } else if ranking::is_number(scores[j]) {
        true
    } else {
        !ranking::is_number(scores[i]) && i < j
    }
}

/// Presenting a tool changes nothing of its schema but the name, which becomes that of the server
/// and that of the tool with three underscores between them. Tools whose schema is an object can be
/// presented, and those whose schema is null, and no others.
pub proof fn law_presenting_changes_only_the_name(tool: IndexedToolView, key: Seq<char>)
    ensures
        router::can_be_presented(tool) <==> tool.full_schema is Object || tool.full_schema is Null,
        router::can_be_presented(tool) ==> {
            &&& router::presented(tool) is Object
            &&& router::presented(tool).member("name"@) == Some(
                JsonView::Text(tool.server_id + "___"@ + tool.name),
            )
            &&& key != "name"@ ==> router::presented(tool).member(key) == tool.full_schema.member(
                key,
            )
        },
{
}

/// Tools are presented one for one and in order.
pub proof fn law_tools_are_presented_one_for_one(tools: Seq<IndexedToolView>)
    ensures
        router::presented_all(tools).len() == tools.len(),
        forall|i: int|
            0 <= i < tools.len() ==> #[trigger] router::presented_all(tools)[i]
                == router::presented(tools[i]),
{
}

/// The answer to a search says how many tools were found, and ends with the whole listing.
pub proof fn law_answer_holds_count_and_listing(count: nat, listing: Seq<char>)
    ensures
        ({
            let answer = router::found_text(count, listing);
            let digits = answer.len() - listing.len() - 23;
            &&& digits > 0
            &&& answer.take(6) == "Found "@
            &&& text::number_read(answer.subrange(6, 6 + digits)) == count
            &&& forall|i: int| 6 <= i < 6 + digits ==> '0' <= #[trigger] answer[i] <= '9'
            &&& digits > 1 ==> answer[6] != '0'
            &&& answer.subrange(6 + digits, 23 + digits) == " relevant tools:\n"@
            &&& answer.skip(23 + digits) == listing
        }),
{
    reveal_strlit("Found ");
    reveal_strlit(" relevant tools:\n");
    text::law_decimal_text_reads_as_the_number(count);
    let answer = router::found_text(count, listing);
    let number = text::decimal_text(count);
    let digits = number.len() as int;
    assert(answer.len() - listing.len() - 23 == digits);
    assert(answer.take(6) =~= "Found "@);
    assert(answer.subrange(6, 6 + digits) =~= number);
    assert forall|i: int| 6 <= i < 6 + digits implies '0' <= #[trigger] answer[i] <= '9' by {
        assert(answer[i] == number[i - 6]);
    }
    assert(answer[6] == number[0]);
    assert(answer.subrange(6 + digits, 23 + digits) =~= " relevant tools:\n"@);
    assert(answer.skip(23 + digits) =~= listing);
}

/// The report on the router ends with how many servers are connected.
pub proof fn law_report_holds_the_count(connected: nat)
    ensures
        router::status_text(connected).len() > 34,
        router::status_text(connected).take(34) == "Router Online. Connected servers: "@,
        text::number_read(router::status_text(connected).skip(34)) == connected,
        forall|i: int|
            34 <= i < router::status_text(connected).len() ==> '0'
                <= #[trigger] router::status_text(connected)[i] <= '9',
        router::status_text(connected).len() > 35 ==> router::status_text(connected)[34] != '0',
{
    reveal_strlit("Router Online. Connected servers: ");
    text::law_decimal_text_reads_as_the_number(connected);
    let report = router::status_text(connected);
    let number = text::decimal_text(connected);
    assert(report.take(34) =~= "Router Online. Connected servers: "@);
    assert(report.skip(34) =~= number);
    assert forall|i: int| 34 <= i < report.len() implies '0' <= #[trigger] report[i] <= '9' by {
        assert(report[i] == number[i - 34]);
    }
    assert(report[34] == number[0]);
}

/// A call that names no tool by a string fails, and one that does fails only for want of a query.
pub proof fn law_call_needs_a_name(
    clients: Map<Seq<char>, usize>,
    params: JsonView,
    upstream_id: JsonView,
    name: Seq<char>,
)
    ensures
        !(params.member("name"@) is Some && params.member("name"@)->0 is Text)
            ==> router::tool_call(clients, params, upstream_id) == Err::<
            ToolCallView,
            ToolCallError,
        >(ToolCallError::MissingToolName),
        params.member("name"@) == Some(JsonView::Text(name)) ==> router::tool_call(
            clients,
            params,
            upstream_id,
        ) != Err::<ToolCallView, ToolCallError>(ToolCallError::MissingToolName),
        params.member("name"@) == Some(JsonView::Text(name)) && name != "search_tools"@
            ==> router::tool_call(clients, params, upstream_id) is Ok,
{
}

/// A call of the search tool searches for five tools by the whole query, where its arguments hold
/// one, and fails otherwise.
pub proof fn law_search_is_for_the_whole_query(
    clients: Map<Seq<char>, usize>,
    params: JsonView,
    upstream_id: JsonView,
    arguments: JsonView,
    query: Seq<char>,
)
    requires
        params.member("name"@) == Some(JsonView::Text("search_tools"@)),
    ensures
        params.member("arguments"@) == Some(arguments) && arguments.member("query"@) == Some(
            JsonView::Text(query),
        ) ==> router::tool_call(clients, params, upstream_id) == Ok::<ToolCallView, ToolCallError>(
            ToolCallView::Search { query, limit: 5, upstream_id },
        ),
        params.member("arguments"@) is None ==> router::tool_call(clients, params, upstream_id)
            == Err::<ToolCallView, ToolCallError>(ToolCallError::MissingQuery),
        params.member("arguments"@) == Some(arguments) && !(arguments.member("query"@) is Some
            && arguments.member("query"@)->0 is Text) ==> router::tool_call(
            clients,
            params,
            upstream_id,
        ) == Err::<ToolCallView, ToolCallError>(ToolCallError::MissingQuery),
{
}

/// A call under a name that is cut, at the first three underscores, into a server and a tool goes
/// to that server where it is connected: under the id of the call, with the name of the tool alone
/// and every other parameter as it was. Where the server is not connected the call is refused.
pub proof fn law_namespaced_call_goes_to_its_server(
    clients: Map<Seq<char>, usize>,
    params: JsonView,
    upstream_id: JsonView,
    server_id: Seq<char>,
    tool_name: Seq<char>,
    key: Seq<char>,
)
    requires
        params.member("name"@) == Some(JsonView::Text(server_id + "___"@ + tool_name)),
        forall|before: Seq<char>, after: Seq<char>|
            server_id + "___"@ + tool_name == #[trigger] (before + "___"@ + after)
                ==> server_id.len() <= before.len(),
    ensures
        clients.contains_key(server_id) ==> {
            let call = router::tool_call(clients, params, upstream_id);
            &&& call is Ok
            &&& call->Ok_0 is Forward
            &&& call->Ok_0->connection == clients[server_id]
            &&& call->Ok_0->Forward_upstream_id == upstream_id
            &&& call->Ok_0->message.jsonrpc == "2.0"@
            &&& call->Ok_0->message.id == Some(upstream_id)
            &&& call->Ok_0->message.method == Some("tools/call"@)
            &&& call->Ok_0->message.result is None
            &&& call->Ok_0->message.error is None
            &&& call->Ok_0->message.params is Some
            &&& call->Ok_0->message.params->0 is Object
            &&& call->Ok_0->message.params->0.member("name"@) == Some(JsonView::Text(tool_name))
            &&& key != "name"@ ==> call->Ok_0->message.params->0.member(key) == params.member(key)
        },
        !clients.contains_key(server_id) ==> refuses(
            router::tool_call(clients, params, upstream_id),
            upstream_id,
            "Server offline"@,
        ),
{
    let name = server_id + "___"@ + tool_name;
    text::law_split_is_the_first_cut(name, "___"@, server_id, tool_name);
    let (before, after) = text::first_split(name, "___"@)->0;
    assert(name == before + "___"@ + after);
    crate::laws::lemma_namespaced_name_is_not_the_search_tool(server_id, tool_name);
    message::law_failure_carries_code_and_message(upstream_id, -32601, "Server offline"@, key);
}

/// Whether a call is answered at once with the error that nothing can answer it, in these words.
pub open spec fn refuses(
    call: Result<ToolCallView, ToolCallError>,
    upstream_id: JsonView,
    words: Seq<char>,
) -> bool {
    &&& call is Ok
    &&& call->Ok_0 is Reply
    &&& call->Ok_0->Reply_0.jsonrpc == "2.0"@
    &&& call->Ok_0->Reply_0.id == Some(upstream_id)
    &&& call->Ok_0->Reply_0.result is None
    &&& call->Ok_0->Reply_0.error is Some
    &&& call->Ok_0->Reply_0.error->0.member("code"@) == Some(JsonView::Int(-32601))
    &&& call->Ok_0->Reply_0.error->0.member("message"@) == Some(JsonView::Text(words))
}

/// A call under a name without three underscores in a row is the router's own to answer: the status
/// tool reports on the router, and every other name but that of the search tool is refused.
pub proof fn law_other_names_are_answered_by_the_router(
    clients: Map<Seq<char>, usize>,
    params: JsonView,
    upstream_id: JsonView,
    name: Seq<char>,
)
    requires
        params.member("name"@) == Some(JsonView::Text(name)),
        name != "search_tools"@,
        forall|before: Seq<char>, after: Seq<char>| name != #[trigger] (before + "___"@ + after),
    ensures
        name != "router_status"@ ==> refuses(
            router::tool_call(clients, params, upstream_id),
            upstream_id,
            "Tool not found"@,
        ),
        name == "router_status"@ ==> {
            let call = router::tool_call(clients, params, upstream_id);
            let part = call->Ok_0->Reply_0.result->0.member("content"@)->0->Array_0[0];
            &&& call is Ok
            &&& call->Ok_0 is Reply
            &&& call->Ok_0->Reply_0.jsonrpc == "2.0"@
            &&& call->Ok_0->Reply_0.id == Some(upstream_id)
            &&& call->Ok_0->Reply_0.error is None
            &&& call->Ok_0->Reply_0.result is Some
            &&& part.member("type"@) == Some(JsonView::Text("text"@))
            &&& part.member("text"@) == Some(
                JsonView::Text(router::status_text(clients.len())),
            )
        },
{
    text::law_split_is_the_first_cut(name, "___"@, name, name);
    message::law_failure_carries_code_and_message(upstream_id, -32601, "Tool not found"@, name);
    message::law_text_result_holds_the_text(router::status_text(clients.len()), name);
    if text::first_split(name, "___"@) is Some {
        let (before, after) = text::first_split(name, "___"@)->0;
        assert(name == before + "___"@ + after);
    }
}

/// The names that the router gives the members of its own messages are all different, and so are
/// the methods and ids that it tells apart.
proof fn lemma_names_differ()
    ensures
        "name"@ != "version"@,
        "name"@ != "description"@,
        "name"@ != "inputSchema"@,
        "description"@ != "inputSchema"@,
        "type"@ != "properties"@,
        "type"@ != "required"@,
        "properties"@ != "required"@,
        "type"@ != "description"@,
        "protocolVersion"@ != "capabilities"@,
        "protocolVersion"@ != "serverInfo"@,
        "capabilities"@ != "serverInfo"@,
        "protocolVersion"@ != "clientInfo"@,
        "capabilities"@ != "clientInfo"@,
        "initialize"@ != "tools/list"@,
        "initialize"@ != "tools/call"@,
        "tools/list"@ != "tools/call"@,
        "router-init"@ != "router-list"@,
{
    reveal_strlit("name");
    reveal_strlit("version");
    reveal_strlit("description");
    reveal_strlit("inputSchema");
    reveal_strlit("type");
    reveal_strlit("properties");
    reveal_strlit("required");
    reveal_strlit("protocolVersion");
    reveal_strlit("capabilities");
    reveal_strlit("serverInfo");
    reveal_strlit("clientInfo");
    reveal_strlit("initialize");
    reveal_strlit("tools/list");
    reveal_strlit("tools/call");
    reveal_strlit("router-init");
    reveal_strlit("router-list");
    assert("name"@.len() == 4 && "version"@.len() == 7 && "description"@.len() == 11);
    assert("description"@[0] != "inputSchema"@[0]);
    assert("type"@.len() == 4 && "properties"@.len() == 10 && "required"@.len() == 8);
    assert("protocolVersion"@.len() == 15 && "capabilities"@.len() == 12);
    assert("serverInfo"@.len() == 10 && "clientInfo"@.len() == 10);
    assert("initialize"@[0] != "tools/list"@[0]);
    assert("initialize"@[0] != "tools/call"@[0]);
    assert("tools/list"@[6] != "tools/call"@[6]);
    assert("router-init"@[7] != "router-list"@[7]);
}

/// The router lists two tools: one that is named for searching and takes a query, which it asks
/// for, and one that is named for the status and takes nothing.
pub proof fn law_two_tools_are_listed(upstream_id: JsonView, key: Seq<char>)
    ensures
        router::tools_list_reply(upstream_id).jsonrpc == "2.0"@,
        router::tools_list_reply(upstream_id).id == Some(upstream_id),
        router::tools_list_reply(upstream_id).error is None,
        router::tools_list_reply(upstream_id).method is None,
        router::tools_list_reply(upstream_id).params is None,
        router::tools_list_reply(upstream_id).result is Some,
        router::tools_list_reply(upstream_id).result->0.member("tools"@) is Some,
        key != "tools"@ ==> router::tools_list_reply(upstream_id).result->0.member(key) is None,
        router::tools_list_reply(upstream_id).result->0.member("tools"@)->0.items() is Some,
        ({
            let tools = router::tools_list_reply(upstream_id).result->0.member(
                "tools"@,
            )->0.items()->0;
            let search = tools[0].member("inputSchema"@)->0;
            let query = search.member("properties"@)->0.member("query"@)->0;
            let status = tools[1].member("inputSchema"@)->0;
            &&& tools.len() == 2
            &&& tools[0].member("name"@) == Some(JsonView::Text("search_tools"@))
            &&& tools[0].member("description"@) == Some(
                JsonView::Text(
                    "Semantic Search. Use this to find relevant tools for your task."@,
                ),
            )
            &&& search.member("type"@) == Some(JsonView::Text("object"@))
            &&& query.member("type"@) == Some(JsonView::Text("string"@))
            &&& query.member("description"@) == Some(JsonView::Text("Task description"@))
            &&& search.member("required"@) == Some(
                JsonView::Array(seq![JsonView::Text("query"@)]),
            )
            &&& key != "query"@ ==> search.member("properties"@)->0.member(key) is None
            &&& key != "type"@ && key != "description"@ ==> query.member(key) is None
            &&& key != "type"@ && key != "properties"@ && key != "required"@ ==> search.member(
                key,
            ) is None
            &&& key != "name"@ && key != "description"@ && key != "inputSchema"@ ==> {
                &&& tools[0].member(key) is None
                &&& tools[1].member(key) is None
            }
            &&& key != "type"@ && key != "properties"@ ==> status.member(key) is None
            &&& tools[1].member("name"@) == Some(JsonView::Text("router_status"@))
            &&& tools[1].member("description"@) == Some(
                JsonView::Text("Checks the health of the semantic router."@),
            )
            &&& status.member("type"@) == Some(JsonView::Text("object"@))
            &&& status.member("properties"@)->0 is Object
            &&& status.member("properties"@)->0.member(key) is None
        }),
{
    lemma_names_differ();
}

/// The client's `initialize` is always answered, under its id, with the version of the protocol,
/// the capability to offer tools, the name and version of the router, and nothing else.
pub proof fn law_initialize_is_always_answered(message: MessageView, key: Seq<char>)
    requires
        message.method == Some("initialize"@),
    ensures
        events::upstream_action(message) is Respond,
        ({
            let reply = events::upstream_action(message)->Respond_0;
            let result = reply.result->0;
            &&& reply.jsonrpc == "2.0"@
            &&& reply.id == message.id
            &&& reply.method is None
            &&& reply.params is None
            &&& reply.error is None
            &&& reply.result is Some
            &&& result.member("protocolVersion"@) == Some(JsonView::Text("2024-11-05"@))
            &&& result.member("capabilities"@) is Some
            &&& result.member("capabilities"@)->0.member("tools"@) is Some
            &&& result.member("capabilities"@)->0.member("tools"@)->0 is Object
            &&& result.member("capabilities"@)->0.member("tools"@)->0.member(key) is None
            &&& key != "tools"@ ==> result.member("capabilities"@)->0.member(key) is None
            &&& key != "name"@ && key != "version"@ ==> result.member("serverInfo"@)->0.member(
                key,
            ) is None
            &&& key != "protocolVersion"@ && key != "capabilities"@ && key != "serverInfo"@
                ==> result.member(key) is None
            &&& result.member("serverInfo"@) is Some
            &&& result.member("serverInfo"@)->0.member("name"@) == Some(
                JsonView::Text("mcp-semantic-router"@),
            )
            &&& result.member("serverInfo"@)->0.member("version"@) == Some(
                JsonView::Text("0.1.0"@),
            )
        }),
{
    lemma_names_differ();
}

/// The client's request for the tools is answered whenever it has an id, whatever else it holds:
/// under that id, with the search tool and the status tool.
pub proof fn law_request_for_tools_is_always_answered(message: MessageView, id: JsonView)
    requires
        message.method == Some("tools/list"@),
        message.id == Some(id),
    ensures
        events::upstream_action(message) is Respond,
        ({
            let reply = events::upstream_action(message)->Respond_0;
            let tools = reply.result->0.member("tools"@)->0.items()->0;
            &&& reply.jsonrpc == "2.0"@
            &&& reply.id == Some(id)
            &&& reply.method is None
            &&& reply.params is None
            &&& reply.error is None
            &&& reply.result is Some
            &&& reply.result->0.member("tools"@) is Some
            &&& reply.result->0.member("tools"@)->0.items() is Some
            &&& tools.len() == 2
            &&& tools[0].member("name"@) == Some(JsonView::Text("search_tools"@))
            &&& tools[1].member("name"@) == Some(JsonView::Text("router_status"@))
        }),
{
    lemma_names_differ();
    law_two_tools_are_listed(id, "name"@);
}

/// The client's call of a tool is made whenever it has parameters and an id, with just these.
pub proof fn law_tool_calls_are_always_made(message: MessageView, params: JsonView, id: JsonView)
    requires
        message.method == Some("tools/call"@),
        message.params == Some(params),
        message.id == Some(id),
    ensures
        events::upstream_action(message) == (UpstreamActionView::CallTool {
            params,
            upstream_id: id,
        }),
{
    lemma_names_differ();
}

/// Of what the client sends nothing else is acted on: messages without a method or with another
/// one, requests for the tools without an id, and calls without parameters or without an id.
pub proof fn law_other_client_messages_are_ignored(message: MessageView)
    requires
        message.method != Some("initialize"@),
        message.method == Some("tools/list"@) ==> message.id is None,
        message.method == Some("tools/call"@) ==> message.params is None || message.id is None,
    ensures
        events::upstream_action(message) is Ignore,
{
}

/// Whether a message is the router's own request for the tools of a server.
pub open spec fn asks_for_tools(message: MessageView) -> bool {
    &&& message.jsonrpc == "2.0"@
    &&& message.id == Some(JsonView::Text("router-list"@))
    &&& message.method == Some("tools/list"@)
    &&& message.params is Some
    &&& message.params->0 is Object
    &&& message.params->0->Object_0 == Map::<Seq<char>, JsonView>::empty()
    &&& message.result is None
    &&& message.error is None
}

/// The first message to a server is a request to initialize, which the router can tell the answer
/// to by its id, with the version of the protocol, the name and version of the router, and nothing
/// else.
pub proof fn law_first_request_introduces_the_router(key: Seq<char>)
    ensures
        ({
            let request = events::initialize_request_view();
            let params = request.params->0;
            &&& request.jsonrpc == "2.0"@
            &&& request.id == Some(JsonView::Text("router-init"@))
            &&& request.method == Some("initialize"@)
            &&& request.result is None
            &&& request.error is None
            &&& request.params is Some
            &&& params.member("protocolVersion"@) == Some(JsonView::Text("2024-11-05"@))
            &&& params.member("capabilities"@) == Some(JsonView::Object(Map::empty()))
            &&& params.member("clientInfo"@) is Some
            &&& key != "name"@ && key != "version"@ ==> params.member("clientInfo"@)->0.member(
                key,
            ) is None
            &&& key != "protocolVersion"@ && key != "capabilities"@ && key != "clientInfo"@
                ==> params.member(key) is None
            &&& params.member("clientInfo"@)->0.member("name"@) == Some(
                JsonView::Text("mcp-semantic-router"@),
            )
            &&& params.member("clientInfo"@)->0.member("version"@) == Some(
                JsonView::Text("0.1.0"@),
            )
        }),
{
    lemma_names_differ();
}

/// A server that answers the first request is sent, over its connection, the notice that the
/// handshake is over and then the request for its tools.
pub proof fn law_initialized_server_is_asked_for_its_tools(
    clients: Map<Seq<char>, usize>,
    server_id: Seq<char>,
    message: MessageView,
)
    requires
        message.id == Some(JsonView::Text("router-init"@)),
    ensures
        !clients.contains_key(server_id) ==> events::downstream_action(
            clients,
            server_id,
            message,
        ) is Ignore,
        clients.contains_key(server_id) ==> {
            let action = events::downstream_action(clients, server_id, message);
            let notice = action->messages[0];
            &&& action is Greet
            &&& action->Greet_connection == clients[server_id]
            &&& action->messages.len() == 2
            &&& notice.jsonrpc == "2.0"@
            &&& notice.id is None
            &&& notice.method == Some("notifications/initialized"@)
            &&& notice.params == Some(JsonView::Object(Map::empty()))
            &&& notice.result is None
            &&& notice.error is None
            &&& asks_for_tools(action->messages[1])
        },
{
}

/// The tools that a server lists in its answer are indexed under its name, all of them and in
/// order. An answer that lists none is ignored.
pub proof fn law_all_listed_tools_are_indexed(
    clients: Map<Seq<char>, usize>,
    server_id: Seq<char>,
    message: MessageView,
    tools: Seq<JsonView>,
)
    requires
        message.id == Some(JsonView::Text("router-list"@)),
    ensures
        message.result is Some && message.result->0.member("tools"@) == Some(
            JsonView::Array(tools),
        ) ==> events::downstream_action(clients, server_id, message) == (
        DownstreamActionView::Index { server_id, tools }),
        message.result is None ==> events::downstream_action(
            clients,
            server_id,
            message,
        ) is Ignore,
        message.result is Some && !(message.result->0.member("tools"@) is Some
            && message.result->0.member("tools"@)->0 is Array) ==> events::downstream_action(
            clients,
            server_id,
            message,
        ) is Ignore,
{
    lemma_names_differ();
}

/// A server that says that its tools changed is asked for them again over its connection, and the
/// client does not hear of it.
pub proof fn law_changed_tools_are_asked_for_again(
    clients: Map<Seq<char>, usize>,
    server_id: Seq<char>,
    message: MessageView,
)
    requires
        message.id != Some(JsonView::Text("router-init"@)),
        message.id != Some(JsonView::Text("router-list"@)),
        message.method == Some("notifications/tools/list_changed"@),
    ensures
        !clients.contains_key(server_id) ==> events::downstream_action(
            clients,
            server_id,
            message,
        ) is Ignore,
        clients.contains_key(server_id) ==> {
            let action = events::downstream_action(clients, server_id, message);
            &&& action is Refetch
            &&& action->Refetch_connection == clients[server_id]
            &&& asks_for_tools(action->message)
        },
{
}

/// Every other message of a server that carries a result or an error is handed to the client as it
/// is, and one that carries neither is ignored.
pub proof fn law_replies_are_handed_to_the_client(
    clients: Map<Seq<char>, usize>,
    server_id: Seq<char>,
    message: MessageView,
)
    requires
        message.id != Some(JsonView::Text("router-init"@)),
        message.id != Some(JsonView::Text("router-list"@)),
        message.method != Some("notifications/tools/list_changed"@),
    ensures
        message.result is Some || message.error is Some ==> events::downstream_action(
            clients,
            server_id,
            message,
        ) == DownstreamActionView::Deliver(message),
        message.result is None && message.error is None ==> events::downstream_action(
            clients,
            server_id,
            message,
        ) is Ignore,
{
}

/// The model of an action, and that of what comes of a tool call, holds what the action itself
/// holds.
pub proof fn law_action_models_are_faithful(
    message: JsonRpcMessage,
    messages: Vec<JsonRpcMessage>,
    value: Value,
    id: Value,
    values: Vec<Value>,
    chars: String,
    number: usize,
)
    ensures
        UpstreamAction::Ignore@ is Ignore,
        UpstreamAction::Respond(message)@ == UpstreamActionView::Respond(message@),
        (UpstreamAction::CallTool { params: value, upstream_id: id })@ == (
        UpstreamActionView::CallTool {
            params: json::content(value),
            upstream_id: json::content(id),
        }),
        DownstreamAction::Ignore@ is Ignore,
        (DownstreamAction::Refetch { connection: number, message })@ == (
        DownstreamActionView::Refetch { connection: number, message: message@ }),
        DownstreamAction::Deliver(message)@ == DownstreamActionView::Deliver(message@),
        (DownstreamAction::Index { server_id: chars, tools: values })@ is Index,
        (DownstreamAction::Index { server_id: chars, tools: values })@->server_id == chars@,
        (DownstreamAction::Index { server_id: chars, tools: values })@->tools.len()
            == values@.len(),
        forall|i: int|
            0 <= i < values@.len() ==> (#[trigger] (DownstreamAction::Index {
                server_id: chars,
                tools: values,
            })@->tools[i]) == json::content(values@[i]),
        (DownstreamAction::Greet { connection: number, messages })@ is Greet,
        (DownstreamAction::Greet { connection: number, messages })@->Greet_connection == number,
        (DownstreamAction::Greet { connection: number, messages })@->messages.len()
            == messages@.len(),
        forall|i: int|
            0 <= i < messages@.len() ==> (#[trigger] (DownstreamAction::Greet {
                connection: number,
                messages,
            })@->messages[i]) == messages@[i]@,
        ToolCall::Reply(message)@ == ToolCallView::Reply(message@),
        (ToolCall::Search { query: chars, limit: number, upstream_id: value })@ == (
        ToolCallView::Search {
            query: chars@,
            limit: number as nat,
            upstream_id: json::content(value),
        }),
        (ToolCall::Forward { connection: number, message, upstream_id: value })@ == (
        ToolCallView::Forward {
            connection: number,
            message: message@,
            upstream_id: json::content(value),
        }),
{
}

/// Each way in which a tool call fails is put in words of its own.
pub proof fn law_failures_are_told_apart(a: ToolCallError, b: ToolCallError)
    ensures
        a.words() == b.words() ==> a == b,
        ToolCallError::MissingToolName.words() == "Missing tool name"@,
        ToolCallError::MissingQuery.words() == "Missing 'query' argument"@,
{
    reveal_strlit("Missing tool name");
    reveal_strlit("Missing 'query' argument");
    reveal_strlit("Failed to write out the tools that were found");
    assert("Missing tool name"@.len() == 17);
    assert("Missing 'query' argument"@.len() == 24);
    assert("Failed to write out the tools that were found"@.len() == 45);
}

} // verus!

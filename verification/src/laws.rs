//! What holds of the router as a whole.

use vstd::prelude::*;

use crate::events;
use crate::events::DownstreamActionView;
use crate::events::UpstreamActionView;
use crate::json::JsonView;
use crate::message::MessageView;
use crate::message::METHOD_NOT_FOUND;
use crate::ranking;
use crate::router;
use crate::router::ToolCallError;
use crate::router::ToolCallView;
use crate::semantic;
use crate::semantic::IndexedToolView;
use crate::semantic::ToolEntryView;
use crate::text;

verus! {

/// Whether a server's name can be told apart from a tool's name that follows it behind the
/// separator: it does not hold the separator, and does not end with the character that the
/// separator is made of.
pub open spec fn separable(server_id: Seq<char>) -> bool {
    &&& forall|at: int| !text::occurs_at(server_id, "___"@, at)
    &&& server_id.len() > 0 ==> server_id.last() != '_'
}

/// A namespaced name splits back into the server and the tool that it was made of, exactly where
/// the server's name is separable.
pub proof fn law_namespaced_name_splits_back(server_id: Seq<char>, tool_name: Seq<char>)
    ensures
        (text::first_split(router::namespaced_name(server_id, tool_name), "___"@) == Some(
            (server_id, tool_name),
        )) <==> separable(server_id),
{
    reveal_strlit("___");
    let separator = "___"@;
    let name = router::namespaced_name(server_id, tool_name);
    let at = server_id.len() as int;
    assert(name.subrange(at, at + 3) =~= separator);
    assert(text::occurs_at(name, separator, at));
    assert(name.take(at) =~= server_id);
    assert(name.skip(at + 3) =~= tool_name);
    if separable(server_id) {
        assert forall|before: int| 0 <= before < at implies !text::occurs_at(
            name,
            separator,
            before,
        ) by {
            if text::occurs_at(name, separator, before) {
                let here = name.subrange(before, before + 3);
                assert(here[0] == '_' && here[1] == '_' && here[2] == '_');
                if before + 3 <= at {
                    assert(server_id.subrange(before, before + 3) =~= here);
                    assert(text::occurs_at(server_id, separator, before));
                } else {
                    assert(name[at - 1] == here[at - 1 - before]);
                    assert(server_id.last() == '_');
                }
            }
        }
        text::lemma_first_split_at(name, separator, at);
    } else {
        let earlier = if exists|place: int| text::occurs_at(server_id, separator, place) {
            let place = choose|place: int| text::occurs_at(server_id, separator, place);
            assert(name.subrange(place, place + 3) =~= server_id.subrange(place, place + 3));
            place
        } else {
            assert(name.subrange(at - 1, at + 2) =~= separator);
            at - 1
        };
        assert(text::occurs_at(name, separator, earlier));
        text::lemma_split_is_before(name, separator, earlier);
    }
}

/// No namespaced name is that of the search tool.
pub proof fn lemma_namespaced_name_is_not_the_search_tool(
    server_id: Seq<char>,
    tool_name: Seq<char>,
)
    ensures
        router::namespaced_name(server_id, tool_name) != "search_tools"@,
{
    reveal_strlit("___");
    reveal_strlit("search_tools");
    let name = router::namespaced_name(server_id, tool_name);
    let at = server_id.len() as int;
    assert(name[at] == '_' && name[at + 1] == '_');
    let own = "search_tools"@;
    assert(own.len() == 12);
    assert(forall|i: int| 0 <= i < 12 && #[trigger] own[i] == '_' ==> i == 6);
    if name == own {
        assert(at + 3 <= name.len());
        assert(own[at] == '_' && own[at + 1] == '_');
    }
}

/// A tool that a search presents can be called under the name that it is presented with: the call
/// reaches the server that the tool belongs to, and asks it for the tool by the tool's own name.
pub proof fn law_found_tool_can_be_called(
    clients: Map<Seq<char>, usize>,
    tool: IndexedToolView,
    params: JsonView,
    upstream_id: JsonView,
)
    requires
        separable(tool.server_id),
        clients.contains_key(tool.server_id),
        params.member("name"@) == router::presented(tool).member("name"@),
    ensures
        router::tool_call(clients, params, upstream_id) == Ok::<ToolCallView, ToolCallError>(
            ToolCallView::Forward {
                connection: clients[tool.server_id],
                message: MessageView::request(
                    Some(upstream_id),
                    "tools/call"@,
                    params.with_member("name"@, JsonView::Text(tool.name)),
                ),
                upstream_id,
            },
        ),
{
    law_namespaced_name_splits_back(tool.server_id, tool.name);
    lemma_namespaced_name_is_not_the_search_tool(tool.server_id, tool.name);
}

/// A call under a name that splits into a server and a tool, where that server is not connected,
/// is answered with an error that says so.
pub proof fn law_call_to_unconnected_server_is_refused(
    clients: Map<Seq<char>, usize>,
    server_id: Seq<char>,
    tool_name: Seq<char>,
    params: JsonView,
    upstream_id: JsonView,
)
    requires
        params.member_text("name"@) is Some,
        text::first_split(params.member_text("name"@)->0, "___"@) == Some((server_id, tool_name)),
        !clients.contains_key(server_id),
    ensures
        router::tool_call(clients, params, upstream_id) == Ok::<ToolCallView, ToolCallError>(
            ToolCallView::Reply(
                MessageView::failure(upstream_id, METHOD_NOT_FOUND as int, "Server offline"@),
            ),
        ),
{
    let name = params.member_text("name"@)->0;
    text::law_split_parts_rejoin(name, "___"@);
    lemma_namespaced_name_is_not_the_search_tool(server_id, tool_name);
}

/// Passing a call on keeps its id and every parameter but the name, and passes it to a connected
/// server.
pub proof fn law_forwarding_changes_only_the_name(
    clients: Map<Seq<char>, usize>,
    params: JsonView,
    upstream_id: JsonView,
)
    ensures
        match router::tool_call(clients, params, upstream_id) {
            Ok(ToolCallView::Forward { connection, message, upstream_id: kept }) => {
                &&& kept == upstream_id
                &&& message.id == Some(upstream_id)
                &&& message.method == Some("tools/call"@)
                &&& message.params is Some
                &&& forall|key: Seq<char>|
                    key != "name"@ ==> (#[trigger] message.params->0.member(key)) == params.member(
                        key,
                    )
                &&& exists|server_id: Seq<char>| #[trigger]
                    clients.contains_key(server_id) && clients[server_id] == connection
            },
            _ => true,
        },
{
    if let Ok(ToolCallView::Forward { connection, message, upstream_id: kept }) = router::tool_call(
        clients,
        params,
        upstream_id,
    ) {
        let name = params.member_text("name"@)->0;
        let (server_id, tool_name) = text::first_split(name, "___"@)->0;
        assert(clients.contains_key(server_id));
    }
}

/// Whether `message` is a JSON-RPC reply to the request with this id: it carries the id, and
/// either a result or an error, but not both, and asks for nothing.
pub open spec fn answers(message: MessageView, id: Option<JsonView>) -> bool {
    &&& message.jsonrpc == "2.0"@
    &&& message.id == id
    &&& message.method is None
    &&& message.params is None
    &&& message.result is Some <==> message.error is None
}

/// A tool call that the router answers at once is answered under its own id; one that takes a
/// search, or is passed on, keeps its id for the answer.
pub proof fn law_tool_call_is_answered_under_its_id(
    clients: Map<Seq<char>, usize>,
    params: JsonView,
    upstream_id: JsonView,
)
    ensures
        match router::tool_call(clients, params, upstream_id) {
            Ok(ToolCallView::Reply(reply)) => answers(reply, Some(upstream_id)),
            Ok(ToolCallView::Search { upstream_id: kept, .. }) => kept == upstream_id,
            Ok(ToolCallView::Forward { upstream_id: kept, .. }) => kept == upstream_id,
            Err(_) => true,
        },
{
}

/// A tool call fails without a reply only where it names no tool, or names the search tool and
/// carries no query.
pub proof fn law_named_tool_call_does_not_fail(
    clients: Map<Seq<char>, usize>,
    params: JsonView,
    upstream_id: JsonView,
)
    ensures
        router::tool_call(clients, params, upstream_id) is Err <==> {
            ||| params.member_text("name"@) is None
            ||| params.member_text("name"@) == Some("search_tools"@) && router::query_of(
                params,
            ) is None
        },
{
}

/// A reply that the client gets at once carries the id of its request; a tool call that is still
/// to be decided keeps the parameters and the id of its request.
pub proof fn law_client_is_answered_under_its_id(message: MessageView)
    ensures
        match events::upstream_action(message) {
            UpstreamActionView::Respond(reply) => answers(reply, message.id),
            UpstreamActionView::CallTool { params, upstream_id } => {
                &&& message.params == Some(params)
                &&& message.id == Some(upstream_id)
            },
            UpstreamActionView::Ignore => true,
        },
{
}

/// The tools that the router lists are the ones that it answers for itself: the search tool, given
/// a query, searches, and the status tool reports how many servers are connected.
pub proof fn law_listed_tools_can_be_called(
    clients: Map<Seq<char>, usize>,
    params: JsonView,
    upstream_id: JsonView,
)
    ensures
        params.member("name"@) == router::search_tool().member("name"@) && router::query_of(
            params,
        ) is Some ==> router::tool_call(clients, params, upstream_id) == Ok::<
            ToolCallView,
            ToolCallError,
        >(
            ToolCallView::Search {
                query: router::query_of(params)->0,
                limit: router::SEARCH_LIMIT as nat,
                upstream_id,
            },
        ),
        params.member("name"@) == router::status_tool().member("name"@) ==> router::tool_call(
            clients,
            params,
            upstream_id,
        ) == Ok::<ToolCallView, ToolCallError>(
            ToolCallView::Reply(
                MessageView::success(
                    Some(upstream_id),
                    crate::message::text_content(router::status_text(clients.len())),
                ),
            ),
        ),
{
    reveal_strlit("name");
    reveal_strlit("description");
    reveal_strlit("inputSchema");
    reveal_strlit("search_tools");
    reveal_strlit("router_status");
    reveal_strlit("___");
    assert("name"@ != "description"@) by {
        assert("name"@.len() != "description"@.len());
    }
    assert("name"@ != "inputSchema"@) by {
        assert("name"@.len() != "inputSchema"@.len());
    }
    assert(router::search_tool().member("name"@) == Some(JsonView::Text("search_tools"@)));
    assert(router::status_tool().member("name"@) == Some(JsonView::Text("router_status"@)));
    assert("router_status"@ != "search_tools"@) by {
        assert("router_status"@[0] != "search_tools"@[0]);
    }
    assert forall|at: int| !text::occurs_at("router_status"@, "___"@, at) by {
        if text::occurs_at("router_status"@, "___"@, at) {
            let here = "router_status"@.subrange(at, at + 3);
            assert(here[0] == '_' && here[1] == '_');
            assert("router_status"@[at] == '_' && "router_status"@[at + 1] == '_');
        }
    }
}

/// The tools of one server, in order.
pub open spec fn of_server(index: Seq<IndexedToolView>, server_id: Seq<char>) -> Seq<
    IndexedToolView,
> {
    index.filter(|tool: IndexedToolView| tool.server_id == server_id)
}

/// Filtering keeps everything where the predicate holds throughout.
proof fn lemma_filter_keeps_all<A>(s: Seq<A>, keep: spec_fn(A) -> bool)
    requires
        forall|i: int| 0 <= i < s.len() ==> keep(#[trigger] s[i]),
    ensures
        s.filter(keep) == s,
    decreases s.len(),
{
    reveal(Seq::filter);
    if s.len() > 0 {
        lemma_filter_keeps_all(s.drop_last(), keep);
        assert(s.drop_last().push(s.last()) =~= s);
    }
}

/// Filtering keeps nothing where the predicate holds nowhere.
proof fn lemma_filter_keeps_none<A>(s: Seq<A>, keep: spec_fn(A) -> bool)
    requires
        forall|i: int| 0 <= i < s.len() ==> !keep(#[trigger] s[i]),
    ensures
        s.filter(keep) == Seq::<A>::empty(),
    decreases s.len(),
{
    reveal(Seq::filter);
    if s.len() > 0 {
        lemma_filter_keeps_none(s.drop_last(), keep);
    }
}

/// Filtering by a weaker predicate first makes no difference.
proof fn lemma_filter_twice<A>(s: Seq<A>, weak: spec_fn(A) -> bool, strong: spec_fn(A) -> bool)
    requires
        forall|a: A| #[trigger] strong(a) ==> weak(a),
    ensures
        s.filter(weak).filter(strong) == s.filter(strong),
    decreases s.len(),
{
    reveal(Seq::filter);
    if s.len() > 0 {
        lemma_filter_twice(s.drop_last(), weak, strong);
        if weak(s.last()) {
            s.drop_last().filter(weak).lemma_filter_push(s.last(), strong);
        }
    }
}

/// After a server announced its tools, the index holds exactly those of it; an embedding that is
/// missing leaves its tool out.
pub proof fn law_announced_tools_replace_earlier_ones(
    index: Seq<IndexedToolView>,
    server_id: Seq<char>,
    entries: Seq<ToolEntryView>,
    embeddings: Seq<Seq<u32>>,
)
    requires
        entries.len() > 0,
    ensures
        of_server(semantic::ingested(index, server_id, entries, embeddings), server_id)
            == semantic::paired(server_id, entries, embeddings),
{
    let own = |tool: IndexedToolView| tool.server_id == server_id;
    let other = |tool: IndexedToolView| tool.server_id != server_id;
    let kept = semantic::without_server(index, server_id);
    let added = semantic::paired(server_id, entries, embeddings);
    assert forall|i: int| 0 <= i < kept.len() implies !own(#[trigger] kept[i]) by {
        index.lemma_filter_pred(other, i);
    }
    lemma_filter_keeps_none(kept, own);
    lemma_filter_keeps_all(added, own);
    Seq::filter_distributes_over_add(kept, added, own);
    assert(Seq::<IndexedToolView>::empty() + added =~= added);
}

/// What a server announces leaves the tools of every other server as they are.
pub proof fn law_announced_tools_leave_other_servers_alone(
    index: Seq<IndexedToolView>,
    server_id: Seq<char>,
    entries: Seq<ToolEntryView>,
    embeddings: Seq<Seq<u32>>,
    other_id: Seq<char>,
)
    requires
        other_id != server_id,
    ensures
        of_server(semantic::ingested(index, server_id, entries, embeddings), other_id)
            == of_server(index, other_id),
        semantic::without_server(
            semantic::ingested(index, server_id, entries, embeddings),
            server_id,
        ) == semantic::without_server(index, server_id),
{
    let others = |tool: IndexedToolView| tool.server_id != server_id;
    let theirs = |tool: IndexedToolView| tool.server_id == other_id;
    let kept = semantic::without_server(index, server_id);
    let added = semantic::paired(server_id, entries, embeddings);
    if entries.len() > 0 {
        lemma_filter_twice(index, others, theirs);
        lemma_filter_twice(index, others, others);
        lemma_filter_keeps_none(added, theirs);
        lemma_filter_keeps_none(added, others);
        Seq::filter_distributes_over_add(kept, added, theirs);
        Seq::filter_distributes_over_add(kept, added, others);
        assert(kept.filter(theirs) + Seq::<IndexedToolView>::empty() =~= kept.filter(theirs));
        assert(kept.filter(others) + Seq::<IndexedToolView>::empty() =~= kept.filter(others));
    }
}

/// Announcing the same tools again changes nothing.
pub proof fn law_announcing_again_changes_nothing(
    index: Seq<IndexedToolView>,
    server_id: Seq<char>,
    entries: Seq<ToolEntryView>,
    embeddings: Seq<Seq<u32>>,
)
    ensures
        semantic::ingested(
            semantic::ingested(index, server_id, entries, embeddings),
            server_id,
            entries,
            embeddings,
        ) == semantic::ingested(index, server_id, entries, embeddings),
{
    let other_id = server_id.push('_');
    assert(other_id.len() != server_id.len());
    law_announced_tools_leave_other_servers_alone(index, server_id, entries, embeddings, other_id);
}

/// Announcing no tools changes nothing: the server keeps the tools that it had.
pub proof fn law_announcing_nothing_changes_nothing(
    index: Seq<IndexedToolView>,
    server_id: Seq<char>,
    embeddings: Seq<Seq<u32>>,
)
    ensures
        semantic::ingested(index, server_id, Seq::empty(), embeddings) == index,
{
}

/// What one server announced at one time: its tools, and what their embeddings came to.
pub struct Announcement {
    pub server_id: Seq<char>,
    pub tools: Seq<JsonView>,
    pub embeddings: Seq<Seq<u32>>,
}

impl Announcement {
    /// The tools to be indexed: as many as there are embeddings for.
    pub open spec fn indexed(self) -> Seq<IndexedToolView> {
        semantic::paired(self.server_id, semantic::entries_of(self.tools), self.embeddings)
    }
}

/// The index after several announcements, one after the other.
pub open spec fn ingested_all(
    index: Seq<IndexedToolView>,
    announcements: Seq<Announcement>,
) -> Seq<IndexedToolView>
    decreases announcements.len(),
{
    if announcements.len() == 0 {
        index
    } else {
        let last = announcements.last();
        semantic::ingested(
            ingested_all(index, announcements.drop_last()),
            last.server_id,
            semantic::entries_of(last.tools),
            last.embeddings,
        )
    }
}

/// Whether the announcement at this place is one of any tools by this server.
pub open spec fn announces(
    announcements: Seq<Announcement>,
    server_id: Seq<char>,
    at: int,
) -> bool {
    &&& 0 <= at < announcements.len()
    &&& announcements[at].server_id == server_id
    &&& announcements[at].tools.len() > 0
}

/// Whether the announcement at this place is the last one of any tools by this server.
pub open spec fn announces_last(
    announcements: Seq<Announcement>,
    server_id: Seq<char>,
    at: int,
) -> bool {
    &&& announces(announcements, server_id, at)
    &&& forall|later: int| at < later ==> !announces(announcements, server_id, later)
}

/// Whatever was announced before and by others, the index holds of a server exactly the tools of
/// the last announcement in which it named any, in the order of that announcement. Where every
/// tool got its embedding, none of them is missing.
pub proof fn law_index_holds_the_last_announcement(
    index: Seq<IndexedToolView>,
    announcements: Seq<Announcement>,
    server_id: Seq<char>,
    last: int,
)
    requires
        announces_last(announcements, server_id, last),
    ensures
        of_server(ingested_all(index, announcements), server_id) == announcements[last].indexed(),
        announcements[last].embeddings.len() == announcements[last].tools.len() ==> of_server(
            ingested_all(index, announcements),
            server_id,
        ).map_values(|tool: IndexedToolView| tool.full_schema) == announcements[last].tools,
    decreases announcements.len(),
{
    let earlier = announcements.drop_last();
    let newest = announcements.last();
    let before = ingested_all(index, earlier);
    let entries = semantic::entries_of(newest.tools);
    if last == announcements.len() - 1 {
        law_announced_tools_replace_earlier_ones(before, server_id, entries, newest.embeddings);
    } else {
        assert forall|later: int| last < later implies !announces(earlier, server_id, later) by {
            assert(!announces(announcements, server_id, later));
        }
        law_index_holds_the_last_announcement(index, earlier, server_id, last);
        assert(!announces(announcements, server_id, announcements.len() - 1));
        if newest.server_id != server_id {
            law_announced_tools_leave_other_servers_alone(
                before,
                newest.server_id,
                entries,
                newest.embeddings,
                server_id,
            );
        }
    }
    let announced = announcements[last];
    if announced.embeddings.len() == announced.tools.len() {
        assert(announced.indexed().map_values(|tool: IndexedToolView| tool.full_schema)
            =~= announced.tools);
    }
}

/// Of a server that announced no tools the index holds what it held before.
pub proof fn law_silent_server_keeps_its_tools(
    index: Seq<IndexedToolView>,
    announcements: Seq<Announcement>,
    server_id: Seq<char>,
)
    requires
        forall|at: int| !announces(announcements, server_id, at),
    ensures
        of_server(ingested_all(index, announcements), server_id) == of_server(index, server_id),
    decreases announcements.len(),
{
    if announcements.len() > 0 {
        let earlier = announcements.drop_last();
        let newest = announcements.last();
        assert forall|at: int| !announces(earlier, server_id, at) by {
            assert(!announces(announcements, server_id, at));
        }
        law_silent_server_keeps_its_tools(index, earlier, server_id);
        assert(!announces(announcements, server_id, announcements.len() - 1));
        if newest.server_id != server_id {
            law_announced_tools_leave_other_servers_alone(
                ingested_all(index, earlier),
                newest.server_id,
                semantic::entries_of(newest.tools),
                newest.embeddings,
                server_id,
            );
        }
    }
}

/// A server that announced tools did so a last time.
proof fn lemma_last_announcement(
    announcements: Seq<Announcement>,
    server_id: Seq<char>,
    at: int,
) -> (last: int)
    requires
        announces(announcements, server_id, at),
    ensures
        announces_last(announcements, server_id, last),
    decreases announcements.len() - at,
{
    if announces_last(announcements, server_id, at) {
        at
    } else {
        let later = choose|later: int|
            at < later && announces(announcements, server_id, later);
        lemma_last_announcement(announcements, server_id, later)
    }
}

/// An index that was empty at first holds nothing but tools of the last announcements: each of its
/// tools stands in the last announcement of the server that it belongs to.
pub proof fn law_index_holds_only_last_announcements(
    announcements: Seq<Announcement>,
    tool: IndexedToolView,
)
    requires
        ingested_all(Seq::empty(), announcements).contains(tool),
    ensures
        exists|last: int| #[trigger]
            announces_last(announcements, tool.server_id, last)
                && announcements[last].indexed().contains(tool),
{
    let index = ingested_all(Seq::empty(), announcements);
    let own = |other: IndexedToolView| other.server_id == tool.server_id;
    let place = choose|place: int| 0 <= place < index.len() && index[place] == tool;
    index.lemma_filter_contains(own, place);
    if exists|at: int| announces(announcements, tool.server_id, at) {
        let at = choose|at: int| announces(announcements, tool.server_id, at);
        let last = lemma_last_announcement(announcements, tool.server_id, at);
        law_index_holds_the_last_announcement(
            Seq::empty(),
            announcements,
            tool.server_id,
            last,
        );
    } else {
        law_silent_server_keeps_its_tools(Seq::empty(), announcements, tool.server_id);
        lemma_filter_keeps_none(Seq::<IndexedToolView>::empty(), own);
    }
}

/// A search finds as many tools as it may and as there are, each one from the index, the most
/// similar first, and of equally similar ones the one that stands earlier in the index. No tool
/// that it leaves out is more similar than one that it finds.
pub proof fn law_search_finds_the_best(
    index: Seq<IndexedToolView>,
    scores: Seq<u32>,
    limit: nat,
)
    requires
        scores.len() == index.len(),
        index.len() <= usize::MAX,
    ensures
        semantic::best(index, scores, limit).len() == (if limit <= index.len() {
            limit
        } else {
            index.len()
        }),
        forall|i: int|
            0 <= i < semantic::best(index, scores, limit).len() ==> #[trigger] ranking::ranking(
                scores,
            )[i] < index.len(),
        forall|i: int|
            0 <= i < semantic::best(index, scores, limit).len() ==> (#[trigger] semantic::best(
                index,
                scores,
                limit,
            )[i]) == index[ranking::ranking(scores)[i] as int],
        forall|i: int, j: int|
            0 <= i < j < semantic::best(index, scores, limit).len() ==> {
                let a = #[trigger] ranking::ranking(scores)[i];
                let b = #[trigger] ranking::ranking(scores)[j];
                let (first, second) = (
                    ranking::score_order(scores[a as int]),
                    ranking::score_order(scores[b as int]),
                );
                first > second || (first == second && a < b)
            },
        forall|i: int, left: int|
            0 <= i < semantic::best(index, scores, limit).len() && 0 <= left < index.len()
                && !ranking::ranking(scores).take(
                semantic::best(index, scores, limit).len() as int,
            ).contains(left as usize) ==> ranking::score_order(
                scores[#[trigger] ranking::ranking(scores)[i] as int],
            ) >= ranking::score_order(#[trigger] scores[left]),
{
    ranking::lemma_ranking(scores);
    let found = semantic::best(index, scores, limit);
    let ranked = ranking::ranking(scores);
    assert forall|i: int| 0 <= i < found.len() implies #[trigger] ranked[i] < index.len() by {
        assert(ranked.contains(ranked[i]));
    }
    assert forall|i: int, left: int|
        0 <= i < found.len() && 0 <= left < index.len() && !ranked.take(
            found.len() as int,
        ).contains(left as usize) implies ranking::score_order(scores[#[trigger] ranked[i] as int])
        >= ranking::score_order(#[trigger] scores[left]) by {
        assert(ranked.contains(left as usize));
        let place = choose|place: int| 0 <= place < ranked.len() && ranked[place] == left as usize;
        if place < found.len() {
            assert(ranked.take(found.len() as int)[place] == left as usize);
        }
    }
}

/// Mapping takes two sequences with the same elements, each as often, to two such sequences.
proof fn lemma_map_keeps_multiset<A, B>(s: Seq<A>, t: Seq<A>, f: spec_fn(A) -> B)
    requires
        s.to_multiset() == t.to_multiset(),
    ensures
        s.map_values(f).to_multiset() == t.map_values(f).to_multiset(),
    decreases s.len(),
{
    broadcast use vstd::seq_lib::group_to_multiset_ensures;

    vstd::seq_lib::to_multiset_len(s);
    vstd::seq_lib::to_multiset_len(t);
    if s.len() > 0 {
        let a = s.last();
        assert(s.contains(a));
        assert(t.to_multiset().count(a) > 0);
        let place = choose|place: int| 0 <= place < t.len() && t[place] == a;
        let (fewer, rest) = (s.drop_last(), t.remove(place));
        assert(fewer =~= s.remove(s.len() - 1));
        lemma_map_keeps_multiset(fewer, rest, f);
        assert(s.map_values(f) =~= fewer.map_values(f).push(f(a)));
        assert(t.map_values(f).remove(place) =~= rest.map_values(f));
        assert(t.map_values(f).contains(t.map_values(f)[place]));
        assert(t.map_values(f).to_multiset() =~= rest.map_values(f).to_multiset().insert(f(a)));
    } else {
        assert(s.map_values(f) =~= t.map_values(f));
    }
}

/// A search that may find as many tools as the index holds finds every one of them, as often as
/// the index holds it, and nothing else.
pub proof fn law_wide_search_finds_everything(
    index: Seq<IndexedToolView>,
    scores: Seq<u32>,
    limit: nat,
)
    requires
        scores.len() == index.len(),
        index.len() <= usize::MAX,
        limit >= index.len(),
    ensures
        semantic::best(index, scores, limit).to_multiset() == index.to_multiset(),
{
    let all = ranking::positions(0, scores.len() as usize);
    let ranked = ranking::ranking(scores);
    let at = |position: usize| index[position as int];
    ranking::lemma_ranking(scores);
    ranking::lemma_rank_order_is_total(scores);
    all.lemma_sort_by_ensures(ranking::rank_order(scores));
    lemma_map_keeps_multiset(ranked, all, at);
    assert(ranked.map_values(at) =~= semantic::best(index, scores, limit));
    assert(all.map_values(at) =~= index);
}

/// A search that a tool call asks for finds five tools at most, and every tool where there are
/// no more than five.
pub proof fn law_called_search_finds_five_at_most(
    clients: Map<Seq<char>, usize>,
    params: JsonView,
    upstream_id: JsonView,
    index: Seq<IndexedToolView>,
    scores: Seq<u32>,
)
    requires
        scores.len() == index.len(),
        index.len() <= usize::MAX,
    ensures
        match router::tool_call(clients, params, upstream_id) {
            Ok(ToolCallView::Search { limit, .. }) => semantic::best(index, scores, limit).len()
                == (if index.len() < 5 {
                index.len()
            } else {
                5
            }),
            _ => true,
        },
{
    ranking::lemma_ranking(scores);
}

/// A tool that a server announces can be found and called: once it is indexed, a search that may
/// find everything finds it, and a call under the name that it is presented with reaches the
/// server that announced it, and asks for it by the name that was announced.
pub proof fn law_announced_tool_can_be_found_and_called(
    index: Seq<IndexedToolView>,
    server_id: Seq<char>,
    tools: Seq<JsonView>,
    embeddings: Seq<Seq<u32>>,
    announced: int,
    scores: Seq<u32>,
    limit: nat,
    clients: Map<Seq<char>, usize>,
    params: JsonView,
    upstream_id: JsonView,
)
    requires
        0 <= announced < tools.len(),
        announced < embeddings.len(),
        scores.len() == semantic::ingested(
            index,
            server_id,
            semantic::entries_of(tools),
            embeddings,
        ).len(),
        scores.len() <= usize::MAX,
        limit >= scores.len(),
        separable(server_id),
        clients.contains_key(server_id),
        params.member("name"@) == router::presented(
            ToolEntryView::of(tools[announced]).indexed(server_id, embeddings[announced]),
        ).member("name"@),
    ensures
        semantic::best(
            semantic::ingested(index, server_id, semantic::entries_of(tools), embeddings),
            scores,
            limit,
        ).contains(
            ToolEntryView::of(tools[announced]).indexed(server_id, embeddings[announced]),
        ),
        router::tool_call(clients, params, upstream_id) == Ok::<ToolCallView, ToolCallError>(
            ToolCallView::Forward {
                connection: clients[server_id],
                message: MessageView::request(
                    Some(upstream_id),
                    "tools/call"@,
                    params.with_member(
                        "name"@,
                        JsonView::Text(semantic::member_text_or_empty(tools[announced], "name"@)),
                    ),
                ),
                upstream_id,
            },
        ),
{
    let entries = semantic::entries_of(tools);
    let tool = ToolEntryView::of(tools[announced]).indexed(server_id, embeddings[announced]);
    let updated = semantic::ingested(index, server_id, entries, embeddings);
    let kept = semantic::without_server(index, server_id);
    assert(entries[announced] == ToolEntryView::of(tools[announced]));
    assert(semantic::paired(server_id, entries, embeddings)[announced] == tool);
    assert(updated[kept.len() + announced] == tool);
    law_wide_search_finds_everything(updated, scores, limit);
    vstd::seq_lib::to_multiset_contains(updated, tool);
    vstd::seq_lib::to_multiset_contains(semantic::best(updated, scores, limit), tool);
    law_found_tool_can_be_called(clients, tool, params, upstream_id);
}

/// The messages that the router exchanges with a server for itself: the answers to its own
/// requests, and the notice that the tools of the server changed.
pub open spec fn is_internal(message: MessageView) -> bool {
    ||| message.id == events::initialize_request_view().id
    ||| message.id == events::list_request_view().id
    ||| message.method == Some("notifications/tools/list_changed"@)
}

/// Of what a server sends, exactly the replies that are not meant for the router itself reach the
/// client, and they reach it unchanged.
pub proof fn law_client_gets_replies_unchanged(
    clients: Map<Seq<char>, usize>,
    server_id: Seq<char>,
    message: MessageView,
)
    ensures
        events::downstream_action(clients, server_id, message) is Deliver <==> message.is_reply()
            && !is_internal(message),
        match events::downstream_action(clients, server_id, message) {
            DownstreamActionView::Deliver(delivered) => delivered == message,
            _ => true,
        },
{
}

/// The handshake with a connected server runs to the indexing of its tools: the answer to the
/// first request brings the notice and the request for the tools, and the answer to that brings
/// the indexing of the tools that it lists. A notice that the tools changed brings the request for
/// the tools again.
pub proof fn law_handshake_leads_to_indexing(
    clients: Map<Seq<char>, usize>,
    server_id: Seq<char>,
    message: MessageView,
    tools: Seq<JsonView>,
)
    requires
        clients.contains_key(server_id),
    ensures
        message.id == events::initialize_request_view().id ==> events::downstream_action(
            clients,
            server_id,
            message,
        ) == (DownstreamActionView::Greet {
            connection: clients[server_id],
            messages: seq![events::initialized_notice_view(), events::list_request_view()],
        }),
        message.id == events::list_request_view().id && events::listed_tools(message.result)
            == Some(tools) ==> events::downstream_action(clients, server_id, message) == (
        DownstreamActionView::Index { server_id, tools }),
        message.method == Some("notifications/tools/list_changed"@) && message.id is None
            ==> events::downstream_action(clients, server_id, message) == (
        DownstreamActionView::Refetch {
            connection: clients[server_id],
            message: events::list_request_view(),
        }),
{
    reveal_strlit("router-init");
    reveal_strlit("router-list");
    assert("router-init"@[7] != "router-list"@[7]);
}

/// A server that connects can be called, and every other one as before; the count of connected
/// servers grows by one where it was not connected already.
pub proof fn law_connecting_a_server(
    clients: Map<Seq<char>, usize>,
    server_id: Seq<char>,
    connection: usize,
)
    requires
        clients.dom().finite(),
    ensures
        clients.insert(server_id, connection).contains_key(server_id),
        clients.insert(server_id, connection)[server_id] == connection,
        clients.insert(server_id, connection).len() == clients.len() + if clients.contains_key(
            server_id,
        ) {
            0nat
        } else {
            1nat
        },
        forall|other: Seq<char>|
            other != server_id ==> {
                &&& #[trigger] clients.insert(server_id, connection).contains_key(other)
                    == clients.contains_key(other)
                &&& clients.insert(server_id, connection)[other] == clients[other]
            },
{
}

} // verus!

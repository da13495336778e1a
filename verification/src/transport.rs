//! The two sides of a connection, with one message per line: what becomes of a line that a server
//! wrote, and the writing of messages, as decisions between the writes.

use vstd::prelude::*;

use crate::message::JsonRpcMessage;
use crate::message::MessageView;

verus! {

/// What becomes of a line that a server wrote.
#[derive(Debug)]
pub enum LineAction {
    /// It holds a message, which is handed on under the name of the server.
    Deliver { server_id: String, message: JsonRpcMessage },
    /// It does not, and is skipped.
    Skip,
}

/// What a [`LineAction`] holds.
pub enum LineActionView {
    Deliver { server_id: Seq<char>, message: MessageView },
    Skip,
}

impl View for LineAction {
    type V = LineActionView;

    open spec fn view(&self) -> LineActionView {
        match self {
            LineAction::Deliver { server_id, message } => LineActionView::Deliver {
                server_id: server_id@,
                message: message@,
            },
            LineAction::Skip => LineActionView::Skip,
        }
    }
}

/// What becomes of a line that a server wrote, where this is the message that it holds.
pub open spec fn line_action(server_id: Seq<char>, line: Option<MessageView>) -> LineActionView {
    match line {
        Some(message) => LineActionView::Deliver { server_id, message },
        None => LineActionView::Skip,
    }
}

/// Decides what becomes of a line that a server wrote, where this is the message that it holds.
pub fn read_line(server_id: &str, line: Option<JsonRpcMessage>) -> (action: LineAction)
    ensures
        action@ == line_action(
            server_id@,
            match line {
                Some(message) => Some(message@),
                None => None,
            },
        ),
        match (line, action) {
            (Some(read), LineAction::Deliver { server_id: from, message }) => {
                &&& from@ == server_id@
                &&& message == read
            },
            (None, LineAction::Skip) => true,
            _ => false,
        },
{
    match line {
        Some(message) => LineAction::Deliver { server_id: server_id.to_string(), message },
        None => LineAction::Skip,
    }
}

/// What is handed on of several lines that a server wrote, in order.
pub open spec fn delivered(server_id: Seq<char>, lines: Seq<Option<MessageView>>) -> Seq<
    (Seq<char>, MessageView),
>
    decreases lines.len(),
{
    if lines.len() == 0 {
        Seq::empty()
    } else {
        let earlier = delivered(server_id, lines.drop_last());
        match line_action(server_id, lines.last()) {
            LineActionView::Deliver { server_id: from, message } => earlier.push((from, message)),
            LineActionView::Skip => earlier,
        }
    }
}

/// Of the lines that a server wrote, exactly those that hold a message are handed on, in order, and
/// each under the name of that server.
pub proof fn law_lines_with_messages_are_delivered(
    server_id: Seq<char>,
    lines: Seq<Option<MessageView>>,
)
    ensures
        delivered(server_id, lines) == lines.filter(
            |line: Option<MessageView>| line is Some,
        ).map_values(|line: Option<MessageView>| (server_id, line->0)),
    decreases lines.len(),
{
    let parses = |line: Option<MessageView>| line is Some;
    let under = |line: Option<MessageView>| (server_id, line->0);
    if lines.len() > 0 {
        let earlier = lines.drop_last();
        law_lines_with_messages_are_delivered(server_id, earlier);
        assert(earlier.push(lines.last()) =~= lines);
        earlier.lemma_filter_push(lines.last(), parses);
        assert(delivered(server_id, lines) =~= lines.filter(parses).map_values(under));
    } else {
        reveal(Seq::filter);
        assert(delivered(server_id, lines) =~= lines.filter(parses).map_values(under));
    }
}

/// What to do when a write fails.
#[derive(Debug, Clone, Copy, PartialEq, Eq, Structural)]
pub enum FailurePolicy {
    /// Stop writing: the other side is gone. This is how a server is written to.
    Stop,
    /// Go on as if it had not failed. This is how the client is written to.
    GoOn,
}

/// Where the writer stands.
#[derive(Debug, Clone, Copy, PartialEq, Eq, Structural)]
pub enum WriterStep {
    /// It waits for a message.
    Receive,
    /// It writes the text of the message.
    WriteText,
    /// It writes the end of the line.
    WriteNewline,
    /// It pushes everything out.
    Flush,
    /// It does nothing more.
    Stop,
}

/// What waiting for a message came to.
#[derive(Debug)]
pub enum Received {
    /// There is a message, and this is its text.
    Text(String),
    /// There is a message that cannot be put in text.
    Unwritable,
    /// There will be no more messages.
    Closed,
}

/// What a [`Received`] holds.
pub enum ReceivedView {
    Text(Seq<char>),
    Unwritable,
    Closed,
}

impl View for Received {
    type V = ReceivedView;

    open spec fn view(&self) -> ReceivedView {
        match self {
            Received::Text(text) => ReceivedView::Text(text@),
            Received::Unwritable => ReceivedView::Unwritable,
            Received::Closed => ReceivedView::Closed,
        }
    }
}

/// What the writer wants done next.
#[derive(Debug, PartialEq, Eq)]
pub enum WriterAction<'a> {
    /// Wait for a message.
    Receive,
    /// Write these characters.
    Write(&'a str),
    /// Push everything out.
    Flush,
    /// Take no more messages, so that whoever sends one learns that it is not delivered.
    Close,
}

/// What a [`WriterAction`] holds.
pub enum WriterActionView {
    Receive,
    Write(Seq<char>),
    Flush,
    Close,
}

impl<'a> View for WriterAction<'a> {
    type V = WriterActionView;

    open spec fn view(&self) -> WriterActionView {
        match self {
            WriterAction::Receive => WriterActionView::Receive,
            WriterAction::Write(chars) => WriterActionView::Write(chars@),
            WriterAction::Flush => WriterActionView::Flush,
            WriterAction::Close => WriterActionView::Close,
        }
    }
}

impl WriterStep {
    /// Whether this step writes.
    pub open spec fn writes(self) -> bool {
        self == WriterStep::WriteText || self == WriterStep::WriteNewline || self
            == WriterStep::Flush
    }

    /// The step after this one, when all goes well.
    pub open spec fn successor(self) -> WriterStep {
        match self {
            WriterStep::WriteText => WriterStep::WriteNewline,
            WriterStep::WriteNewline => WriterStep::Flush,
            WriterStep::Flush => WriterStep::Receive,
            WriterStep::Receive => WriterStep::Receive,
            WriterStep::Stop => WriterStep::Stop,
        }
    }
}

/// What happens to a writer: the outcome of what it wanted done.
pub enum WriterEvent {
    /// It waited for a message.
    Received(ReceivedView),
    /// It wrote or pushed out, and that succeeded or failed.
    Wrote(bool),
}

/// What a [`Writer`] holds.
pub struct WriterView {
    pub policy: FailurePolicy,
    pub step: WriterStep,
    pub text: Seq<char>,
}

impl WriterView {
    /// A writer that waits for its first message.
    pub open spec fn waiting(policy: FailurePolicy) -> WriterView {
        WriterView { policy, step: WriterStep::Receive, text: Seq::empty() }
    }

    /// What the writer wants done next.
    pub open spec fn action(self) -> WriterActionView {
        match self.step {
            WriterStep::Receive => WriterActionView::Receive,
            WriterStep::WriteText => WriterActionView::Write(self.text),
            WriterStep::WriteNewline => WriterActionView::Write("\n"@),
            WriterStep::Flush => WriterActionView::Flush,
            WriterStep::Stop => WriterActionView::Close,
        }
    }

    /// The writer after it waited for a message. A message that has no text is passed over.
    pub open spec fn after_receive(self, received: ReceivedView) -> WriterView {
        if self.step == WriterStep::Receive {
            match received {
                ReceivedView::Text(text) => WriterView {
                    policy: self.policy,
                    step: WriterStep::WriteText,
                    text,
                },
                ReceivedView::Unwritable => self,
                ReceivedView::Closed => WriterView {
                    policy: self.policy,
                    step: WriterStep::Stop,
                    text: self.text,
                },
            }
        } else {
            self
        }
    }

    /// The writer after a write that succeeded or failed.
    pub open spec fn after_write(self, succeeded: bool) -> WriterView {
        WriterView {
            policy: self.policy,
            step: if self.step.writes() && !succeeded && self.policy == FailurePolicy::Stop {
                WriterStep::Stop
            } else {
                self.step.successor()
            },
            text: self.text,
        }
    }

    /// The writer after an event.
    pub open spec fn after(self, event: WriterEvent) -> WriterView {
        match event {
            WriterEvent::Received(received) => self.after_receive(received),
            WriterEvent::Wrote(succeeded) => self.after_write(succeeded),
        }
    }

    /// Whether an event is the outcome of what the writer wants done.
    pub open spec fn expects(self, event: WriterEvent) -> bool {
        match event {
            WriterEvent::Received(_) => self.step == WriterStep::Receive,
            WriterEvent::Wrote(_) => self.step.writes(),
        }
    }

    /// The writer after several events.
    pub open spec fn run(self, events: Seq<WriterEvent>) -> WriterView
        decreases events.len(),
    {
        if events.len() == 0 {
            self
        } else {
            self.run(events.drop_last()).after(events.last())
        }
    }

    /// Whether each of several events is the outcome of what the writer wants done when it comes.
    pub open spec fn expects_all(self, events: Seq<WriterEvent>) -> bool
        decreases events.len(),
    {
        events.len() == 0 || (self.expects_all(events.drop_last()) && self.run(
            events.drop_last(),
        ).expects(events.last()))
    }

    /// The writes and flushes that several events are the outcome of, in order.
    pub open spec fn attempts(self, events: Seq<WriterEvent>) -> Seq<WriterActionView>
        decreases events.len(),
    {
        if events.len() == 0 {
            Seq::empty()
        } else {
            let before = self.run(events.drop_last());
            let earlier = self.attempts(events.drop_last());
            if events.last() is Wrote && before.step.writes() {
                earlier.push(before.action())
            } else {
                earlier
            }
        }
    }

    /// The writes and flushes that are left to do for the message at hand.
    pub open spec fn left_to_do(self) -> Seq<WriterActionView> {
        match self.step {
            WriterStep::WriteText => line(self.text),
            WriterStep::WriteNewline => seq![
                WriterActionView::Write("\n"@),
                WriterActionView::Flush,
            ],
            WriterStep::Flush => seq![WriterActionView::Flush],
            WriterStep::Receive => Seq::empty(),
            WriterStep::Stop => Seq::empty(),
        }
    }
}

/// What it takes to write one message: its text, the end of the line, and pushing both out.
pub open spec fn line(text: Seq<char>) -> Seq<WriterActionView> {
    seq![
        WriterActionView::Write(text),
        WriterActionView::Write("\n"@),
        WriterActionView::Flush,
    ]
}

/// What it takes to write several messages, one after the other.
pub open spec fn lines(texts: Seq<Seq<char>>) -> Seq<WriterActionView>
    decreases texts.len(),
{
    if texts.len() == 0 {
        Seq::empty()
    } else {
        lines(texts.drop_last()) + line(texts.last())
    }
}

/// The characters that several actions write, in order.
pub open spec fn characters_written(actions: Seq<WriterActionView>) -> Seq<char>
    decreases actions.len(),
{
    if actions.len() == 0 {
        Seq::empty()
    } else {
        match actions.last() {
            WriterActionView::Write(chars) => characters_written(actions.drop_last()) + chars,
            _ => characters_written(actions.drop_last()),
        }
    }
}

/// Several texts, each with the end of its line.
pub open spec fn lines_of(texts: Seq<Seq<char>>) -> Seq<char>
    decreases texts.len(),
{
    if texts.len() == 0 {
        Seq::empty()
    } else {
        lines_of(texts.drop_last()) + texts.last() + "\n"@
    }
}

/// The texts of the messages among several events, in order.
pub open spec fn texts_received(events: Seq<WriterEvent>) -> Seq<Seq<char>>
    decreases events.len(),
{
    if events.len() == 0 {
        Seq::empty()
    } else {
        match events.last() {
            WriterEvent::Received(ReceivedView::Text(text)) => texts_received(
                events.drop_last(),
            ).push(text),
            _ => texts_received(events.drop_last()),
        }
    }
}

/// Whether no write failed among several events.
pub open spec fn none_failed(events: Seq<WriterEvent>) -> bool {
    forall|i: int| 0 <= i < events.len() ==> #[trigger] events[i] != WriterEvent::Wrote(false)
}

/// The events when several messages come and every write succeeds.
pub open spec fn successful_run(texts: Seq<Seq<char>>) -> Seq<WriterEvent>
    decreases texts.len(),
{
    if texts.len() == 0 {
        Seq::empty()
    } else {
        successful_run(texts.drop_last()) + seq![
            WriterEvent::Received(ReceivedView::Text(texts.last())),
            WriterEvent::Wrote(true),
            WriterEvent::Wrote(true),
            WriterEvent::Wrote(true),
        ]
    }
}

/// Takes the messages of one connection to its output.
pub struct Writer {
    policy: FailurePolicy,
    step: WriterStep,
    text: String,
}

impl View for Writer {
    type V = WriterView;

    closed spec fn view(&self) -> WriterView {
        WriterView { policy: self.policy, step: self.step, text: self.text@ }
    }
}

impl Writer {
    /// A writer that waits for its first message.
    pub fn new(policy: FailurePolicy) -> (writer: Writer)
        ensures
            writer@ == WriterView::waiting(policy),
    {
        Writer { policy, step: WriterStep::Receive, text: String::new() }
    }

    /// What the writer wants done next.
    pub fn action(&self) -> (action: WriterAction<'_>)
        ensures
            action@ == self@.action(),
    {
        match self.step {
            WriterStep::Receive => WriterAction::Receive,
            WriterStep::WriteText => WriterAction::Write(&self.text),
            WriterStep::WriteNewline => WriterAction::Write("\n"),
            WriterStep::Flush => WriterAction::Flush,
            WriterStep::Stop => WriterAction::Close,
        }
    }

    /// Tells the writer what waiting for a message came to.
    pub fn received(&mut self, received: Received)
        ensures
            final(self)@ == old(self)@.after_receive(received@),
    {
        match self.step {
            WriterStep::Receive => match received {
                Received::Text(text) => {
                    self.text = text;
                    self.step = WriterStep::WriteText;
                },
                Received::Unwritable => {},
                Received::Closed => {
                    self.step = WriterStep::Stop;
                },
            },
            _ => {},
        }
    }

    /// Tells the writer whether what it wanted written or pushed out was.
    pub fn wrote(&mut self, succeeded: bool)
        ensures
            final(self)@ == old(self)@.after_write(succeeded),
    {
        let stops = match self.policy {
            FailurePolicy::Stop => !succeeded,
            FailurePolicy::GoOn => false,
        };
        let next = match self.step {
            WriterStep::WriteText => WriterStep::WriteNewline,
            WriterStep::WriteNewline => WriterStep::Flush,
            WriterStep::Flush => WriterStep::Receive,
            WriterStep::Receive => return,
            WriterStep::Stop => return,
        };
        self.step = if stops {
            WriterStep::Stop
        } else {
            next
        };
    }
}

/// However the messages come, what is written are their lines, each message once and in the order
/// of coming: what was written so far and what is left to do for the message at hand are the lines
/// of all messages that came. To the client that holds whatever the writes come to, to a server as
/// long as none fails.
pub proof fn law_messages_are_written_in_order(policy: FailurePolicy, events: Seq<WriterEvent>)
    requires
        WriterView::waiting(policy).expects_all(events),
        policy == FailurePolicy::GoOn || none_failed(events),
    ensures
        ({
            let start = WriterView::waiting(policy);
            start.attempts(events) + start.run(events).left_to_do() == lines(
                texts_received(events),
            )
        }),
    decreases events.len(),
{
    let start = WriterView::waiting(policy);
    if events.len() > 0 {
        let earlier = events.drop_last();
        assert(none_failed(events) ==> none_failed(earlier));
        law_messages_are_written_in_order(policy, earlier);
        lemma_run_keeps_policy(start, earlier);
        let before = start.run(earlier);
        let written = start.attempts(earlier);
        assert(events.last() == events[events.len() - 1]);
        match events.last() {
            WriterEvent::Received(ReceivedView::Text(text)) => {
                let texts = texts_received(earlier);
                assert(texts.push(text).drop_last() =~= texts);
                assert(written + before.left_to_do() =~= written);
            },
            WriterEvent::Received(_) => {},
            WriterEvent::Wrote(_) => {
                assert(before.left_to_do() =~= seq![before.action()] + before.after(
                    events.last(),
                ).left_to_do());
                assert(written.push(before.action()) + before.after(events.last()).left_to_do()
                    =~= written + before.left_to_do());
            },
        }
        assert(start.attempts(events) + start.run(events).left_to_do() =~= lines(
            texts_received(events),
        ));
    } else {
        assert(start.attempts(events) + start.run(events).left_to_do() =~= lines(
            texts_received(events),
        ));
    }
}

/// Events do not change the policy.
proof fn lemma_run_keeps_policy(start: WriterView, events: Seq<WriterEvent>)
    ensures
        start.run(events).policy == start.policy,
    decreases events.len(),
{
    if events.len() > 0 {
        lemma_run_keeps_policy(start, events.drop_last());
    }
}

/// Messages that come one after the other, while every write succeeds, are all written: the steps
/// are text, end of line and flush for each of them, the characters are their texts with a line
/// each, and the writer waits for the next message.
pub proof fn law_successful_run_writes_every_message(
    policy: FailurePolicy,
    texts: Seq<Seq<char>>,
)
    ensures
        ({
            let start = WriterView::waiting(policy);
            let events = successful_run(texts);
            &&& start.expects_all(events)
            &&& texts_received(events) == texts
            &&& start.run(events).step == WriterStep::Receive
            &&& start.attempts(events) == lines(texts)
            &&& characters_written(start.attempts(events)) == lines_of(texts)
        }),
    decreases texts.len(),
{
    let start = WriterView::waiting(policy);
    if texts.len() > 0 {
        law_successful_run_writes_every_message(policy, texts.drop_last());
        let earlier = successful_run(texts.drop_last());
        let text = texts.last();
        let received = earlier.push(WriterEvent::Received(ReceivedView::Text(text)));
        let first = received.push(WriterEvent::Wrote(true));
        let second = first.push(WriterEvent::Wrote(true));
        let third = second.push(WriterEvent::Wrote(true));
        assert(successful_run(texts) =~= third);
        assert(received.drop_last() =~= earlier);
        assert(first.drop_last() =~= received);
        assert(second.drop_last() =~= first);
        assert(third.drop_last() =~= second);
        assert(texts.drop_last().push(text) =~= texts);
        let written = start.attempts(earlier);
        assert(start.run(received).action() == WriterActionView::Write(text));
        assert(start.attempts(received) == written);
        assert(start.run(first).action() == WriterActionView::Write("\n"@));
        assert(start.attempts(first) == written.push(WriterActionView::Write(text)));
        assert(start.run(second).action() == WriterActionView::Flush);
        assert(start.attempts(second) == start.attempts(first).push(
            WriterActionView::Write("\n"@),
        ));
        assert(start.run(third).action() == WriterActionView::Receive);
        assert(start.attempts(third) =~= lines(texts.drop_last()) + line(text));
        assert(texts_received(received) == texts);
        assert(texts_received(first) == texts);
        assert(texts_received(second) == texts);
        assert(start.expects_all(received));
        assert(start.expects_all(first));
        assert(start.expects_all(second));
        lemma_line_characters(lines(texts.drop_last()), text);
    } else {
        assert(texts_received(successful_run(texts)) =~= texts);
    }
}

/// A line adds its text and the end of the line to what is written.
proof fn lemma_line_characters(actions: Seq<WriterActionView>, text: Seq<char>)
    ensures
        characters_written(actions + line(text)) == characters_written(actions) + text + "\n"@,
{
    reveal_with_fuel(characters_written, 4);
    let all = actions + line(text);
    assert(all.drop_last().drop_last().drop_last() =~= actions);
    assert(all.drop_last().last() == WriterActionView::Write("\n"@));
    assert(all.drop_last().drop_last().last() == WriterActionView::Write(text));
}

/// Once a write to a server failed, nothing more is written to it, whatever happens then, and the
/// writer wants no more messages.
pub proof fn law_failed_write_is_the_last(
    start: WriterView,
    events: Seq<WriterEvent>,
    failed: int,
)
    requires
        start.policy == FailurePolicy::Stop,
        0 <= failed < events.len(),
        start.run(events.take(failed)).step.writes(),
        events[failed] == WriterEvent::Wrote(false),
    ensures
        start.attempts(events) == start.attempts(events.take(failed + 1)),
        start.run(events).action() == WriterActionView::Close,
    decreases events.len(),
{
    lemma_run_keeps_policy(start, events.take(failed));
    if failed + 1 == events.len() {
        assert(events.take(failed + 1) =~= events);
        assert(events.drop_last() =~= events.take(failed));
    } else {
        let earlier = events.drop_last();
        assert(earlier.take(failed) =~= events.take(failed));
        assert(earlier.take(failed + 1) =~= events.take(failed + 1));
        law_failed_write_is_the_last(start, earlier, failed);
    }
}

/// When the first write to fail is one to a server, what was tried is the beginning of the lines of
/// the messages that had come until then: no later message is written, whatever happens then.
pub proof fn law_failed_write_cuts_the_lines_off(events: Seq<WriterEvent>, failed: int)
    requires
        0 <= failed < events.len(),
        WriterView::waiting(FailurePolicy::Stop).expects_all(events.take(failed + 1)),
        none_failed(events.take(failed)),
        events[failed] == WriterEvent::Wrote(false),
    ensures
        WriterView::waiting(FailurePolicy::Stop).attempts(events).is_prefix_of(
            lines(texts_received(events.take(failed))),
        ),
        WriterView::waiting(FailurePolicy::Stop).run(events).action() == WriterActionView::Close,
{
    let start = WriterView::waiting(FailurePolicy::Stop);
    let until = events.take(failed + 1);
    let before = events.take(failed);
    assert(until.drop_last() =~= before);
    assert(until.last() == events[failed]);
    law_messages_are_written_in_order(FailurePolicy::Stop, before);
    law_failed_write_is_the_last(start, events, failed);
    let here = start.run(before);
    assert(here.left_to_do()[0] == here.action());
    assert(start.attempts(until) =~= (start.attempts(before) + here.left_to_do()).take(
        (start.attempts(before).len() + 1) as int,
    ));
}

/// Once there are no more messages nothing more is written, whatever happens then.
pub proof fn law_closed_writer_stays_closed(start: WriterView, events: Seq<WriterEvent>)
    requires
        start.action() == WriterActionView::Close,
    ensures
        start.run(events).action() == WriterActionView::Close,
        start.attempts(events) == Seq::<WriterActionView>::empty(),
    decreases events.len(),
{
    if events.len() > 0 {
        law_closed_writer_stays_closed(start, events.drop_last());
    }
}

/// The models of what the writer is told, and of what it wants done, hold the very characters.
pub proof fn law_writer_models_are_faithful(text: String, chars: &str)
    ensures
        Received::Text(text)@ == ReceivedView::Text(text@),
        Received::Unwritable@ is Unwritable,
        Received::Closed@ is Closed,
        WriterAction::Write(chars)@ == WriterActionView::Write(chars@),
        WriterAction::Receive@ is Receive,
        WriterAction::Flush@ is Flush,
        WriterAction::Close@ is Close,
{
}

/// A writer that waits takes the whole text of the message that comes, writes it, ends the line
/// with a line feed, pushes both out, and waits again. That is so whatever the text is, and to the
/// client also where writes fail.
pub proof fn law_message_is_written_whole(
    writer: WriterView,
    text: Seq<char>,
    first: bool,
    second: bool,
    third: bool,
)
    requires
        writer.action() is Receive,
        writer.policy == FailurePolicy::GoOn || (first && second && third),
    ensures
        ({
            let taken = writer.after_receive(ReceivedView::Text(text));
            let written = taken.after_write(first);
            let ended = written.after_write(second);
            let flushed = ended.after_write(third);
            &&& taken.action() == WriterActionView::Write(text)
            &&& written.action() == WriterActionView::Write(seq!['\n'])
            &&& ended.action() is Flush
            &&& flushed.action() is Receive
            &&& flushed.policy == writer.policy
        }),
        writer.after_receive(ReceivedView::Unwritable) == writer,
        writer.after_receive(ReceivedView::Closed).action() is Close,
        WriterView::waiting(writer.policy).action() is Receive,
        WriterView::waiting(writer.policy).policy == writer.policy,
{
    reveal_strlit("\n");
    assert("\n"@ =~= seq!['\n']);
}

/// A write to a server that fails is the end, whichever write it is. Once a writer closes it stays
/// so, and no message is taken but by a writer that waits.
pub proof fn law_failure_closes_the_writer(
    writer: WriterView,
    received: ReceivedView,
    succeeded: bool,
)
    ensures
        writer.policy == FailurePolicy::Stop && (writer.action() is Write || writer.action() is
            Flush) ==> writer.after_write(false).action() is Close,
        writer.action() is Close ==> {
            &&& writer.after_write(succeeded).action() is Close
            &&& writer.after_receive(received).action() is Close
        },
        !(writer.action() is Receive) ==> writer.after_receive(received) == writer,
        writer.action() is Receive ==> writer.after_write(succeeded).action() is Receive,
{
}

/// Where each line of several stands among what it takes to write them.
proof fn lemma_lines_stand_in_threes(texts: Seq<Seq<char>>)
    ensures
        lines(texts).len() == 3 * texts.len(),
        forall|k: int|
            #![trigger texts[k]]
            0 <= k < texts.len() ==> {
                &&& lines(texts)[3 * k] == WriterActionView::Write(texts[k])
                &&& lines(texts)[3 * k + 1] == WriterActionView::Write("\n"@)
                &&& lines(texts)[3 * k + 2] == WriterActionView::Flush
            },
    decreases texts.len(),
{
    if texts.len() > 0 {
        let fewer = texts.drop_last();
        lemma_lines_stand_in_threes(fewer);
        assert forall|k: int| #![trigger texts[k]] 0 <= k < texts.len() implies {
            &&& lines(texts)[3 * k] == WriterActionView::Write(texts[k])
            &&& lines(texts)[3 * k + 1] == WriterActionView::Write("\n"@)
            &&& lines(texts)[3 * k + 2] == WriterActionView::Flush
        } by {
            if k < fewer.len() {
                assert(fewer[k] == texts[k]);
            }
        }
    }
}

/// The texts among several events are those of the messages that came, in order.
proof fn lemma_texts_received(events: Seq<WriterEvent>)
    ensures
        texts_received(events) == events.filter_map(
            |event: WriterEvent|
                match event {
                    WriterEvent::Received(ReceivedView::Text(text)) => Some(text),
                    _ => None,
                },
        ),
    decreases events.len(),
{
    if events.len() > 0 {
        lemma_texts_received(events.drop_last());
    }
}

/// When a writer waits again, after whatever events, three things were done for each message that
/// came, in the order of coming: its whole text was written, then a line feed, and both were pushed
/// out. Nothing else was done. To the client that holds whatever the writes came to, to a server as
/// long as none failed.
pub proof fn law_each_message_takes_its_three_writes(
    policy: FailurePolicy,
    events: Seq<WriterEvent>,
)
    requires
        WriterView::waiting(policy).expects_all(events),
        WriterView::waiting(policy).run(events).action() is Receive,
        policy == FailurePolicy::GoOn || forall|i: int|
            0 <= i < events.len() ==> #[trigger] events[i] != WriterEvent::Wrote(false),
    ensures
        ({
            let texts = events.filter_map(
                |event: WriterEvent|
                    match event {
                        WriterEvent::Received(ReceivedView::Text(text)) => Some(text),
                        _ => None,
                    },
            );
            let done = WriterView::waiting(policy).attempts(events);
            &&& done.len() == 3 * texts.len()
            &&& forall|k: int|
                #![trigger texts[k]]
                0 <= k < texts.len() ==> {
                    &&& done[3 * k] == WriterActionView::Write(texts[k])
                    &&& done[3 * k + 1] == WriterActionView::Write(seq!['\n'])
                    &&& done[3 * k + 2] is Flush
                }
        }),
{
    reveal_strlit("\n");
    assert("\n"@ =~= seq!['\n']);
    assert(policy == FailurePolicy::GoOn || none_failed(events));
    law_messages_are_written_in_order(policy, events);
    lemma_texts_received(events);
    lemma_lines_stand_in_threes(texts_received(events));
    let start = WriterView::waiting(policy);
    assert(start.attempts(events) + start.run(events).left_to_do() =~= start.attempts(events));
}

} // verus!

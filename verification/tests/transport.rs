use mcp_semantic_router::message::JsonRpcMessage;
use mcp_semantic_router::transport::{
    read_line, FailurePolicy, LineAction, Received, Writer, WriterAction,
};
use serde_json::Value;

fn text(chars: &str) -> Received {
    Received::Text(chars.to_string())
}

/// Runs a writer on these messages until it waits in vain or closes. `fails` says of each write,
/// counted from zero, whether it fails. Returns what was tried to be written, with `^` for a flush.
fn run(policy: FailurePolicy, messages: Vec<Received>, fails: fn(usize) -> bool) -> String {
    let mut writer = Writer::new(policy);
    let mut messages = messages.into_iter();
    let mut written = String::new();
    let mut writes = 0;
    loop {
        match writer.action() {
            WriterAction::Receive => match messages.next() {
                Some(message) => writer.received(message),
                None => return written,
            },
            WriterAction::Write(chars) => {
                written.push_str(chars);
                writer.wrote(!fails(writes));
                writes += 1;
            }
            WriterAction::Flush => {
                written.push('^');
                writer.wrote(!fails(writes));
                writes += 1;
            }
            WriterAction::Close => {
                written.push('.');
                return written;
            }
        }
    }
}

#[test]
fn message_is_text_then_newline_then_flush() {
    for policy in [FailurePolicy::Stop, FailurePolicy::GoOn] {
        let mut writer = Writer::new(policy);
        assert_eq!(writer.action(), WriterAction::Receive);
        writer.received(text("{}"));
        assert_eq!(writer.action(), WriterAction::Write("{}"));
        writer.wrote(true);
        assert_eq!(writer.action(), WriterAction::Write("\n"));
        writer.wrote(true);
        assert_eq!(writer.action(), WriterAction::Flush);
        writer.wrote(true);
        assert_eq!(writer.action(), WriterAction::Receive);
    }
}

#[test]
fn messages_are_written_in_order() {
    for policy in [FailurePolicy::Stop, FailurePolicy::GoOn] {
        let messages = vec![text("one"), text("two"), text(""), text("three")];
        assert_eq!(run(policy, messages, |_| false), "one\n^two\n^\n^three\n^");
    }
}

#[test]
fn failed_write_to_a_server_is_the_last() {
    let messages = || vec![text("one"), text("two"), text("three")];
    assert_eq!(run(FailurePolicy::Stop, messages(), |at| at == 3), "one\n^two.");
    assert_eq!(run(FailurePolicy::Stop, messages(), |at| at == 4), "one\n^two\n.");
    assert_eq!(run(FailurePolicy::Stop, messages(), |at| at == 5), "one\n^two\n^.");
}

#[test]
fn closed_writer_stays_closed() {
    let mut writer = Writer::new(FailurePolicy::Stop);
    writer.received(text("one"));
    writer.wrote(false);
    assert_eq!(writer.action(), WriterAction::Close);
    writer.wrote(true);
    writer.received(text("two"));
    writer.wrote(false);
    assert_eq!(writer.action(), WriterAction::Close);
}

#[test]
fn failed_write_to_the_client_is_passed_over() {
    let messages = vec![text("one"), text("two")];
    assert_eq!(run(FailurePolicy::GoOn, messages, |_| true), "one\n^two\n^");
}

#[test]
fn message_without_text_is_passed_over() {
    let messages = vec![text("one"), Received::Unwritable, text("two")];
    assert_eq!(run(FailurePolicy::Stop, messages, |_| false), "one\n^two\n^");
}

#[test]
fn writer_stops_when_there_are_no_more_messages() {
    let messages = vec![text("one"), Received::Closed, text("two")];
    assert_eq!(run(FailurePolicy::GoOn, messages, |_| false), "one\n^.");
}

#[test]
fn message_waits_until_the_one_before_is_written() {
    let mut writer = Writer::new(FailurePolicy::Stop);
    writer.received(text("one"));
    writer.received(text("two"));
    assert_eq!(writer.action(), WriterAction::Write("one"));
}

#[test]
fn waiting_is_no_write() {
    let mut writer = Writer::new(FailurePolicy::Stop);
    writer.wrote(false);
    assert_eq!(writer.action(), WriterAction::Receive);
}

#[test]
fn lines_with_messages_are_delivered() {
    let lines = [Some("one"), None, Some("two"), None, None, Some("three")];
    let mut delivered = Vec::new();
    for line in lines {
        let message = line.map(|name| JsonRpcMessage::request(None, name, Value::Null));
        match read_line("git", message) {
            LineAction::Deliver { server_id, message } => {
                delivered.push(format!("{server_id}:{}", message.method.unwrap()));
            }
            LineAction::Skip => assert!(line.is_none()),
        }
    }
    assert_eq!(delivered, vec!["git:one", "git:two", "git:three"]);
}

#[test]
fn delivered_message_is_the_one_that_was_read() {
    let message = JsonRpcMessage::success(Some(Value::from(7)), Value::Bool(true));
    match read_line("memory", Some(message)) {
        LineAction::Deliver { server_id, message } => {
            assert_eq!(server_id, "memory");
            assert_eq!(message.jsonrpc, "2.0");
            assert_eq!(message.id, Some(Value::from(7)));
            assert_eq!(message.result, Some(Value::Bool(true)));
            assert!(message.method.is_none() && message.params.is_none());
            assert!(message.error.is_none());
        }
        LineAction::Skip => panic!("skipped"),
    }
}

use solyn::chat::{ChatEvent, ChatMessage, ChatResponse};
use solyn::chat_history::{new_session_title, outgoing_messages, stored_thinking, ChatMessageData};
use solyn::chat_stream::{LineOutcome, StreamDecoder};
use solyn::download_state::{download_progress, terminal_line, DownloadStatus};

fn reply(content: &str, done: bool) -> ChatResponse {
    ChatResponse {
        message: ChatMessage { role: "assistant".to_string(), content: content.to_string(), thinking: None },
        done,
        total_duration: if done { Some(5) } else { None },
        load_duration: None,
        prompt_eval_count: None,
        prompt_eval_duration: None,
        eval_count: None,
        eval_duration: None,
    }
}

#[test]
fn stream_lines_split_across_chunks() {
    let mut d = StreamDecoder::new();
    let first = d.take_chunk(b"{\"a\":1}\n{\"b\"");
    assert_eq!(first, vec!["{\"a\":1}".to_string()]);
    let second = d.take_chunk(b":2}\n");
    assert_eq!(second, vec!["{\"b\":2}".to_string()]);
    assert!(d.take_chunk(&[0xff, 0xfe]).is_empty());
}

#[test]
fn a_line_split_across_chunks_is_handed_out_once() {
    let mut d = StreamDecoder::new();
    assert!(d.take_chunk(b"ab").is_empty());
    assert_eq!(d.take_chunk(b"\n"), vec!["ab".to_string()]);
    assert!(d.take_chunk(b"\r\n").is_empty());
    assert!(d.take_chunk(b"cd").is_empty());
    assert_eq!(d.take_rest(), vec!["cd".to_string()]);
    assert!(d.take_rest().is_empty());
}

#[test]
fn stream_accumulates_content_and_finishes() {
    let mut d = StreamDecoder::new();
    match d.on_line(LineOutcome::Response(reply("Hel", false))) {
        Some(ChatEvent::MessageChunk(c)) => assert_eq!(c, "Hel"),
        _ => panic!("expected a chunk"),
    }
    match d.on_line(LineOutcome::Response(reply("lo", false))) {
        Some(ChatEvent::MessageChunk(c)) => assert_eq!(c, "Hello"),
        _ => panic!("expected a chunk"),
    }
    assert!(d.on_line(LineOutcome::Response(reply("", true))).is_none());
    assert!(d.on_line(LineOutcome::Unrecognized).is_none());
    match d.finish() {
        ChatEvent::Done(r) => {
            assert_eq!(r.message.content, "Hello");
            assert_eq!(r.total_duration, Some(5));
            assert!(r.done);
        }
        _ => panic!("expected done"),
    }
}

#[test]
fn server_error_stops_the_stream() {
    let mut d = StreamDecoder::new();
    match d.on_line(LineOutcome::ServerError("model not found".to_string())) {
        Some(ChatEvent::Error(e)) => assert_eq!(e, "model not found"),
        _ => panic!("expected an error"),
    }
    assert!(d.is_stopped());
    assert!(d.on_line(LineOutcome::Response(reply("x", false))).is_none());
    match d.finish() {
        ChatEvent::Done(r) => {
            assert_eq!(r.message.content, "");
            assert_eq!(r.message.role, "assistant");
        }
        _ => panic!("expected done"),
    }
}

#[test]
fn session_helpers() {
    assert_eq!(new_session_title(None), "New Chat");
    assert_eq!(new_session_title(Some("Chat")), "Chat");
    assert_eq!(stored_thinking(""), None);
    assert_eq!(stored_thinking("why").as_deref(), Some("why"));
    let sent = outgoing_messages(&vec![ChatMessageData { role: "user".to_string(), content: "hi".to_string() }]);
    assert_eq!(sent.len(), 1);
    assert_eq!(sent[0].role, "user");
    assert!(sent[0].thinking.is_none());
}

#[test]
fn progress_messages_are_never_empty() {
    let p = download_progress(DownloadStatus::Downloading, 10, String::new(), Some("log"));
    assert_eq!(p.message, "Processing...");
    assert_eq!(p.log.as_deref(), Some("log"));
    let p = download_progress(DownloadStatus::Complete, 100, "Done".to_string(), None);
    assert_eq!(p.message, "Done");
    assert_eq!(p.status, DownloadStatus::Complete);
    let l = terminal_line("x", "info");
    assert!(!l.is_progress);
}

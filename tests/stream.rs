use ollama::{ChatMessage, ChatResponseDelta, DeltaStream, OllamaError, StreamState};

fn delta(content: &str, done: bool) -> ChatResponseDelta {
    ChatResponseDelta {
        model: "llama3.2".to_string(),
        created_at: "2023-08-04T08:52:19.385406455-07:00".to_string(),
        message: ChatMessage::Assistant {
            content: content.to_string(),
            tool_calls: None,
            images: None,
            thinking: None,
        },
        done_reason: None,
        done,
        prompt_eval_count: None,
        eval_count: None,
    }
}

fn content(d: &ChatResponseDelta) -> String {
    match &d.message {
        ChatMessage::Assistant { content, .. } => content.clone(),
        _ => panic!("not an assistant message"),
    }
}

/// Stands in for serde: a line decodes when it is `{"c":"<text>","done":<bool>}`.
fn decode(line: &[u8]) -> Option<ChatResponseDelta> {
    let s = std::str::from_utf8(line).ok()?;
    let rest = s.strip_prefix("{\"c\":\"")?;
    let (text, tail) = rest.split_once('"')?;
    match tail {
        ",\"done\":false}" => Some(delta(text, false)),
        ",\"done\":true}" => Some(delta(text, true)),
        _ => None,
    }
}

fn drive(stream: &mut DeltaStream, bytes: &[u8], out: &mut Vec<ChatResponseDelta>) {
    for line in stream.feed(bytes) {
        if let Some(d) = stream.accept(decode(&line)) {
            out.push(d);
        }
    }
}

#[test]
fn malformed_line_between_two_good_ones_is_skipped() {
    let mut stream = DeltaStream::new();
    let mut out = Vec::new();
    drive(
        &mut stream,
        b"{\"c\":\"Hel\",\"done\":false}\n{not json at all\n{\"c\":\"lo\",\"done\":false}\n",
        &mut out,
    );
    assert_eq!(out.len(), 2);
    assert_eq!(content(&out[0]), "Hel");
    assert_eq!(content(&out[1]), "lo");
    assert_eq!(stream.state(), StreamState::Streaming);
    assert!(stream.wants_more());
}

#[test]
fn done_record_ends_stream() {
    let mut stream = DeltaStream::new();
    let mut out = Vec::new();
    drive(
        &mut stream,
        b"{\"c\":\"a\",\"done\":false}\n{\"c\":\"\",\"done\":true}\n{\"c\":\"late\",\"done\":false}\n",
        &mut out,
    );
    assert_eq!(out.len(), 2);
    assert!(out[1].done);
    assert_eq!(stream.state(), StreamState::Finished);
    assert!(!stream.wants_more());
    assert!(stream.feed(b"{\"c\":\"more\",\"done\":false}\n").is_empty());
    assert!(stream.accept(Some(delta("x", false))).is_none());
}

#[test]
fn end_of_body_finishes_stream() {
    let mut stream = DeltaStream::new();
    stream.end_of_body();
    assert_eq!(stream.state(), StreamState::Finished);
    assert!(!stream.cancel());
}

#[test]
fn transport_failure_is_surfaced_once() {
    let mut stream = DeltaStream::new();
    let first = stream.fail(OllamaError::Connection("reset".to_string()));
    assert!(matches!(first, Some(OllamaError::Connection(_))));
    assert_eq!(stream.state(), StreamState::Failed);
    assert!(stream.fail(OllamaError::Connection("again".to_string())).is_none());
}

struct FakeTransport {
    chunks: Vec<&'static [u8]>,
    reads: usize,
    torn_down: bool,
}

impl FakeTransport {
    fn read(&mut self) -> &'static [u8] {
        let c = self.chunks.get(self.reads).copied().unwrap_or(b"");
        self.reads += 1;
        c
    }

    fn teardown(&mut self) {
        self.torn_down = true;
    }
}

#[test]
fn cancel_mid_stream_tears_down_transport() {
    let mut transport = FakeTransport {
        chunks: vec![
            b"{\"c\":\"one\",\"done\":false}\n{\"c\":\"two\",",
            b"\"done\":false}\n",
            b"{\"c\":\"three\",\"done\":false}\n",
        ],
        reads: 0,
        torn_down: false,
    };
    let mut stream = DeltaStream::new();
    let mut out = Vec::new();
    while stream.wants_more() {
        let bytes = transport.read();
        if bytes.is_empty() {
            stream.end_of_body();
            break;
        }
        drive(&mut stream, bytes, &mut out);
        if out.len() == 1 && stream.cancel() {
            transport.teardown();
        }
    }
    assert!(transport.torn_down);
    assert_eq!(transport.reads, 1);
    assert_eq!(out.len(), 1);
    assert_eq!(content(&out[0]), "one");
    assert_eq!(stream.state(), StreamState::Cancelled);
    assert!(stream.accept(Some(delta("two", false))).is_none());
    assert!(stream.feed(b"{\"c\":\"x\",\"done\":false}\n").is_empty());
}

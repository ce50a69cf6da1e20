use cohere_rust::chat::{ChatResponse, StreamEvent};
use cohere_rust::decode::DecodeError;
use cohere_rust::stream::{ChatStream, Pull, StreamError, StreamState};

/// A byte source for tests: hands out its chunks in turn, then ends or fails, and counts reads.
struct ScriptedSource {
    chunks: Vec<Vec<u8>>,
    fail_at_end: bool,
    reads: usize,
}

enum Read {
    Chunk(Vec<u8>),
    End,
    Failed,
}

impl ScriptedSource {
    fn new(chunks: Vec<&[u8]>, fail_at_end: bool) -> ScriptedSource {
        ScriptedSource { chunks: chunks.into_iter().map(|c| c.to_vec()).collect(), fail_at_end, reads: 0 }
    }

    fn read(&mut self) -> Read {
        self.reads += 1;
        if self.chunks.is_empty() {
            if self.fail_at_end { Read::Failed } else { Read::End }
        } else {
            Read::Chunk(self.chunks.remove(0))
        }
    }
}

/// Pulls one item, reading from the source as often as the stream asks.
fn pull(stream: &mut ChatStream, source: &mut ScriptedSource) -> Option<Result<StreamEvent, StreamError>> {
    loop {
        match stream.next() {
            Pull::Item(item) => return Some(item),
            Pull::Ended => return None,
            Pull::NeedChunk => match source.read() {
                Read::Chunk(c) => stream.receive(&c),
                Read::End => stream.end_of_input(),
                Read::Failed => stream.transport_failed(),
            },
        }
    }
}

fn five_records() -> Vec<u8> {
    let records = [
        "{\"event_type\":\"stream-start\",\"generation_id\":\"g1\",\"is_finished\":false}",
        "{\"event_type\":\"text-generation\",\"is_finished\":false,\"text\":\" Hi\"}",
        "{\"event_type\":\"text-generation\",\"is_finished\":false,\"text\":\"!\"}",
        "{\"event_type\":\"stream-end\",\"is_finished\":true,\"finish_reason\":\"COMPLETE\",\"response\":{\"generation_id\":\"g1\",\"response_id\":\"r1\",\"text\":\"Hi!\"}}",
    ];
    let mut bytes = Vec::new();
    for r in records.iter() {
        bytes.extend_from_slice(r.as_bytes());
        bytes.push(b'\n');
    }
    bytes
}

#[test]
fn end_to_end_two_chunks() {
    let bytes = five_records();
    for split in [1usize, 17, 70, 100, bytes.len() - 1] {
        let mut source = ScriptedSource::new(vec![&bytes[..split], &bytes[split..]], false);
        let mut stream = ChatStream::new();
        let mut got = Vec::new();
        while let Some(item) = pull(&mut stream, &mut source) {
            got.push(item);
        }
        assert_eq!(got.len(), 4);
        assert_eq!(
            got[0],
            Ok(StreamEvent::Start { generation_id: "g1".to_string(), is_finished: false })
        );
        assert_eq!(got[1], Ok(StreamEvent::TextGeneration { is_finished: false, text: " Hi".to_string() }));
        assert_eq!(got[2], Ok(StreamEvent::TextGeneration { is_finished: false, text: "!".to_string() }));
        match &got[3] {
            Ok(StreamEvent::End { response, finish_reason, is_finished }) => {
                assert_eq!(response.text, "Hi!");
                assert_eq!(finish_reason, "COMPLETE");
                assert!(*is_finished);
            }
            other => panic!("unexpected last item {:?}", other),
        }
        assert_eq!(pull(&mut stream, &mut source), None);
        assert_eq!(stream.next(), Pull::Ended);
        assert_eq!(stream.state(), StreamState::Closed);
    }
}

#[test]
fn closing_the_handle_stops_reads() {
    let bytes = five_records();
    let mut source = ScriptedSource::new(vec![&bytes[..80], &bytes[80..120], &bytes[120..]], false);
    let mut stream = ChatStream::new();
    assert!(pull(&mut stream, &mut source).is_some());
    let reads_before = source.reads;
    stream.close();
    assert!(!stream.wants_chunk());
    assert_eq!(pull(&mut stream, &mut source), None);
    assert_eq!(stream.next(), Pull::Ended);
    assert_eq!(source.reads, reads_before);
    stream.receive(&bytes[120..]);
    assert_eq!(stream.next(), Pull::Ended);
}

#[test]
fn slow_consumer_holds_reads_back() {
    let bytes = five_records();
    let mut source = ScriptedSource::new(vec![&bytes[..], b""], false);
    let mut stream = ChatStream::new();
    assert!(stream.wants_chunk());
    assert!(pull(&mut stream, &mut source).is_some());
    assert_eq!(source.reads, 1);
    assert!(!stream.wants_chunk());
    assert!(pull(&mut stream, &mut source).is_some());
    assert!(pull(&mut stream, &mut source).is_some());
    assert!(pull(&mut stream, &mut source).is_some());
    assert_eq!(source.reads, 1);
    assert!(stream.wants_chunk());
}

#[test]
fn transport_error_after_two_records() {
    let bytes = five_records();
    let first_two = bytes.iter().enumerate().filter(|(_, b)| **b == b'\n').nth(1).unwrap().0 + 1;
    let mut source = ScriptedSource::new(vec![&bytes[..first_two], &bytes[first_two..first_two + 5]], true);
    let mut stream = ChatStream::new();
    let mut got = Vec::new();
    while let Some(item) = pull(&mut stream, &mut source) {
        got.push(item);
    }
    assert_eq!(got.len(), 3);
    assert!(matches!(got[0], Ok(StreamEvent::Start { .. })));
    assert!(matches!(got[1], Ok(StreamEvent::TextGeneration { .. })));
    assert_eq!(got[2], Err(StreamError::Transport));
    assert_eq!(stream.state(), StreamState::Closed);
}

#[test]
fn bad_records_do_not_stop_the_stream() {
    let input = b"{\"event_type\":\"mystery\"}\nnot json\n\n{\"event_type\":\"text-generation\",\"is_finished\":false,\"text\":\"ok\"}\n";
    let mut source = ScriptedSource::new(vec![&input[..]], false);
    let mut stream = ChatStream::new();
    let mut got = Vec::new();
    while let Some(item) = pull(&mut stream, &mut source) {
        got.push(item);
    }
    assert_eq!(
        got,
        vec![
            Err(StreamError::Decode(DecodeError::UnknownEventType)),
            Err(StreamError::Decode(DecodeError::Malformed)),
            Err(StreamError::Decode(DecodeError::Malformed)),
            Ok(StreamEvent::TextGeneration { is_finished: false, text: "ok".to_string() }),
        ]
    );
}

#[test]
fn last_record_without_newline_is_delivered_at_end() {
    let input = b"{\"event_type\":\"text-generation\",\"is_finished\":false,\"text\":\"a\"}\n{\"event_type\":\"text-generation\",\"is_finished\":true,\"text\":\"b\"}";
    let mut source = ScriptedSource::new(vec![&input[..30], &input[30..]], false);
    let mut stream = ChatStream::new();
    let mut got = Vec::new();
    while let Some(item) = pull(&mut stream, &mut source) {
        got.push(item);
    }
    assert_eq!(
        got,
        vec![
            Ok(StreamEvent::TextGeneration { is_finished: false, text: "a".to_string() }),
            Ok(StreamEvent::TextGeneration { is_finished: true, text: "b".to_string() }),
        ]
    );
}

#[test]
fn chat_stream_events_in_order() {
    let records = [
        "{\"is_finished\":false,\"event_type\":\"stream-start\",\"generation_id\":\"0c9cb118-f841-4588-b835-f9a4fe2c572e\"}",
        "{\"is_finished\":false,\"event_type\":\"text-generation\",\"text\":\" Thomas\"}",
        "{\"is_finished\":false,\"event_type\":\"text-generation\",\"text\":\" P\"}",
        "{\"is_finished\":false,\"event_type\":\"text-generation\",\"text\":\".\"}",
        "{\"is_finished\":false,\"event_type\":\"text-generation\",\"text\":\" Frank\"}",
        "{\"is_finished\":false,\"event_type\":\"text-generation\",\"text\":\".\"}",
        "{\"is_finished\":true,\"event_type\":\"stream-end\",\"response\":{\"response_id\":\"feab94ed-789b-42f2-8f4f-c49d56d28734\",\"text\":\"Thomas P. Frank.\",\"generation_id\":\"0c9cb118-f841-4588-b835-f9a4fe2c572e\",\"token_count\":{\"prompt_tokens\":71,\"response_tokens\":17,\"total_tokens\":88,\"billed_tokens\":77}},\"finish_reason\":\"COMPLETE\"}",
    ];
    let chunks: Vec<Vec<u8>> = records.iter().map(|r| format!("{}\n", r).into_bytes()).collect();
    let mut source = ScriptedSource::new(chunks.iter().map(|c| c.as_slice()).collect(), false);
    let mut stream = ChatStream::new();
    let expected_messages = [
        StreamEvent::Start {
            generation_id: "0c9cb118-f841-4588-b835-f9a4fe2c572e".to_string(),
            is_finished: false,
        },
        StreamEvent::TextGeneration { is_finished: false, text: " Thomas".to_string() },
        StreamEvent::TextGeneration { is_finished: false, text: " P".to_string() },
        StreamEvent::TextGeneration { is_finished: false, text: ".".to_string() },
        StreamEvent::TextGeneration { is_finished: false, text: " Frank".to_string() },
        StreamEvent::TextGeneration { is_finished: false, text: ".".to_string() },
        StreamEvent::End {
            finish_reason: "COMPLETE".to_string(),
            is_finished: true,
            response: ChatResponse {
                generation_id: "0c9cb118-f841-4588-b835-f9a4fe2c572e".to_string(),
                response_id: "feab94ed-789b-42f2-8f4f-c49d56d28734".to_string(),
                text: "Thomas P. Frank.".to_string(),
            },
        },
    ];
    let mut count: usize = 0;
    while let Some(message) = pull(&mut stream, &mut source) {
        assert!(message.is_ok());
        assert_eq!(expected_messages[count], message.unwrap());
        count += 1;
    }
    assert_eq!(expected_messages.len(), count);
}

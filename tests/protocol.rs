use backend::protocol::{frame_line, respond, LineDecoder, Request, RequestBody, ResponseBody};

#[test]
fn decoder_splits_chunks_into_lines() {
    let mut d = LineDecoder::new();
    let lines = d.push(b"{\"a\":1}\n{\"b");
    assert_eq!(lines, vec![b"{\"a\":1}".to_vec()]);
    let lines = d.push(b"\":2}\n\nrest");
    assert_eq!(lines, vec![b"{\"b\":2}".to_vec(), Vec::new()]);
    assert_eq!(d.finish(), Some(b"rest".to_vec()));
}

#[test]
fn decoder_without_trailing_bytes() {
    let mut d = LineDecoder::new();
    assert!(d.push(b"").is_empty());
    assert_eq!(d.push(b"x\n"), vec![b"x".to_vec()]);
    assert_eq!(d.finish(), None);
}

#[test]
fn framed_lines_are_not_interleaved() {
    let messages: Vec<Vec<u8>> = vec![b"one".to_vec(), b"two two".to_vec(), b"3".to_vec()];
    let mut stream = Vec::new();
    for m in &messages {
        let mut line = m.clone();
        frame_line(&mut line);
        assert_eq!(line.last(), Some(&b'\n'));
        stream.extend(line);
    }
    let mut d = LineDecoder::new();
    let mut got = Vec::new();
    for chunk in stream.chunks(2) {
        got.extend(d.push(chunk));
    }
    assert_eq!(got, messages);
    assert_eq!(d.finish(), None);
}

#[test]
fn responses_correlate_with_requests() {
    let requests: Vec<Request> = (1..=5)
        .map(|id| Request { request_id: id * 10, body: RequestBody::Ping })
        .collect();
    // answered out of order
    let responses: Vec<_> = requests
        .iter()
        .rev()
        .map(|r| respond(r, ResponseBody::Pong))
        .collect();
    assert_eq!(responses.len(), requests.len());
    for resp in &responses {
        let matching = requests.iter().filter(|r| r.request_id == resp.request_id).count();
        assert_eq!(matching, 1);
        assert_eq!(resp.body, ResponseBody::Pong);
    }
}

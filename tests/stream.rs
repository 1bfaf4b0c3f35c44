use tunnel_core::stream::{StreamError, TransportEvent, WsStream};

#[test]
fn short_read_buffers_remainder() {
    let mut s = WsStream::new(2048, None);
    assert!(s.poll_read(4).is_none());
    let first = s.on_event(TransportEvent::Message(b"hello world".to_vec()), 4).unwrap();
    assert_eq!(first, b"hell".to_vec());
    // The remainder is served without consulting the transport.
    assert_eq!(s.poll_read(4), Some(b"o wo".to_vec()));
    assert_eq!(s.poll_read(100), Some(b"rld".to_vec()));
    assert!(s.poll_read(100).is_none());
}

#[test]
fn early_data_is_read_first() {
    let mut s = WsStream::new(16, Some(vec![1, 2, 3]));
    assert_eq!(s.buf_size(), 16);
    assert_eq!(s.poll_read(2), Some(vec![1, 2]));
    assert_eq!(s.poll_read(2), Some(vec![3]));
    assert!(s.poll_read(2).is_none());
}

#[test]
fn close_is_end_of_stream() {
    let mut s = WsStream::new(16, None);
    assert_eq!(s.on_event(TransportEvent::Closed, 8), Ok(vec![]));
    assert_eq!(s.poll_read(8), Some(vec![]));
    assert_eq!(s.poll_read(8), Some(vec![]));
}

#[test]
fn transport_error_is_passed_on() {
    let mut s = WsStream::new(16, None);
    assert_eq!(s.on_event(TransportEvent::Error, 8), Err(StreamError::TransportError));
    assert!(s.poll_read(8).is_none());
}

#[test]
fn writes_wait_for_flush() {
    let mut s = WsStream::new(16, None);
    assert_eq!(s.begin_flush(), Ok(None));
    assert_eq!(s.finish_flush(true), Ok(()));
    assert_eq!(s.write(b"ab"), Ok(2));
    assert_eq!(s.write(b""), Ok(0));
    assert_eq!(s.write(b"cde"), Ok(3));
    assert_eq!(s.begin_flush(), Ok(Some(b"abcde".to_vec())));
    assert_eq!(s.finish_flush(true), Ok(()));
    assert_eq!(s.begin_flush(), Ok(None));
}

#[test]
fn failed_send_keeps_queue() {
    let mut s = WsStream::new(16, None);
    s.write(b"xyz").unwrap();
    assert_eq!(s.finish_flush(false), Err(StreamError::TransportError));
    assert_eq!(s.begin_flush(), Ok(Some(b"xyz".to_vec())));
}

#[test]
fn shutdown_once() {
    let mut s = WsStream::new(16, Some(vec![9]));
    assert!(s.shutdown());
    assert!(!s.shutdown());
    assert_eq!(s.write(b"a"), Err(StreamError::StreamClosed));
    assert_eq!(s.begin_flush(), Err(StreamError::StreamClosed));
    assert_eq!(s.poll_read(4), Some(vec![9]));
    assert_eq!(s.poll_read(4), Some(vec![]));
}

#[test]
fn echo_round_trip() {
    let messages: Vec<Vec<u8>> = vec![b"first message".to_vec(), vec![0, 255, 7], b"z".to_vec()];
    let mut s = WsStream::new(5, None);
    let mut sent: Vec<u8> = Vec::new();
    let mut pending = messages.clone().into_iter();
    loop {
        let chunk = match s.poll_read(5) {
            Some(c) => c,
            None => match pending.next() {
                Some(m) => s.on_event(TransportEvent::Message(m), 5).unwrap(),
                None => s.on_event(TransportEvent::Closed, 5).unwrap(),
            },
        };
        if chunk.is_empty() {
            break;
        }
        s.write(&chunk).unwrap();
        if let Some(m) = s.begin_flush().unwrap() {
            sent.extend_from_slice(&m);
            s.finish_flush(true).unwrap();
        }
    }
    assert_eq!(sent, messages.concat());
}

use spdrw::reader::{Action, Event, Reader, POLL_DELAY_MS};

#[test]
fn empty_read_waits_with_delay() {
    let mut r = Reader::new(4096, 20);
    let a = r.step(Event::Empty);
    assert_eq!(a, Action::Poll { delay_ms: POLL_DELAY_MS });
    let buf = r.into_buffer();
    assert!(buf.is_empty());
}

#[test]
fn data_without_delimiter_polls_again_at_once() {
    let mut r = Reader::new(4096, 20);
    let a = r.step(Event::Data(b"ok".to_vec()));
    assert_eq!(a, Action::Poll { delay_ms: 0 });
}

#[test]
fn completes_on_newline_across_fragments() {
    let mut r = Reader::new(4096, 20);
    assert_eq!(r.step(Event::Data(b"he".to_vec())), Action::Poll { delay_ms: 0 });
    assert_eq!(r.step(Event::Empty), Action::Poll { delay_ms: POLL_DELAY_MS });
    assert_eq!(r.step(Event::Data(b"llo\n".to_vec())), Action::Complete);
    assert_eq!(r.into_buffer(), b"hello\n".to_vec());
}

#[test]
fn deadline_with_nothing_is_no_response() {
    let mut r = Reader::new(4096, 2);
    assert_eq!(r.step(Event::Empty), Action::Poll { delay_ms: POLL_DELAY_MS });
    assert_eq!(r.step(Event::Empty), Action::NoResponse);
    assert!(r.into_buffer().is_empty());
}

#[test]
fn deadline_with_partial_data_completes() {
    let mut r = Reader::new(4096, 2);
    assert_eq!(r.step(Event::Data(b"par".to_vec())), Action::Poll { delay_ms: 0 });
    assert_eq!(r.step(Event::Empty), Action::Complete);
    assert_eq!(r.into_buffer(), b"par".to_vec());
}

#[test]
fn oversized_chunk_fails_loudly() {
    let mut r = Reader::new(4, 20);
    assert_eq!(r.step(Event::Data(b"12345".to_vec())), Action::Overflow);
    assert!(r.into_buffer().is_empty());
}

#[test]
fn buffer_never_exceeds_capacity() {
    let mut r = Reader::new(4, 20);
    assert_eq!(r.step(Event::Data(b"1234".to_vec())), Action::Poll { delay_ms: 0 });
    assert_eq!(r.step(Event::Data(b"5".to_vec())), Action::Overflow);
    let buf = r.into_buffer();
    assert_eq!(buf, b"1234".to_vec());
    assert!(buf.len() <= 4);
}

#[test]
fn delimiter_already_buffered_completes_on_empty_read() {
    let mut r = Reader::new(4096, 20);
    assert_eq!(r.step(Event::Data(b"done\nx".to_vec())), Action::Complete);
}

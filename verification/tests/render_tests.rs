use spdrw::render::{is_memory_dump_len, render_dump_rows, render_reply, Reply, ReplyError};

fn expect_text(buf: Vec<u8>) -> String {
    match render_reply(&buf) {
        Ok(Reply::Text { text }) => text,
        Ok(Reply::Dump { .. }) => panic!("classified as dump"),
        Err(_) => panic!("classified as no response"),
    }
}

fn expect_dump(buf: Vec<u8>) -> Vec<Vec<u8>> {
    match render_reply(&buf) {
        Ok(Reply::Dump { rows }) => rows,
        Ok(Reply::Text { .. }) => panic!("classified as text"),
        Err(_) => panic!("classified as no response"),
    }
}

#[test]
fn scenario_c_empty_reply_is_no_response() {
    match render_reply(&Vec::new()) {
        Err(e) => assert_eq!(e, ReplyError::NoResponse),
        Ok(_) => panic!("an empty reply must not render"),
    }
}

#[test]
fn scenario_d_short_text_reply() {
    assert_eq!(expect_text(b"ok\n".to_vec()), "ok");
}

#[test]
fn scenario_b_all_zero_ddr4_dump() {
    let buf = vec![b'0'; 1026];
    let rows = expect_dump(buf);
    assert_eq!(rows.len(), 32);
    let mut expected_row0 = b"0x0000: ".to_vec();
    for j in 0..16 {
        if j > 0 {
            expected_row0.push(b' ');
        }
        expected_row0.extend_from_slice(b"00");
    }
    assert_eq!(rows[0], expected_row0);
    for (i, row) in rows.iter().enumerate() {
        let label = format!("0x{:04X}: ", i * 16);
        assert!(row.starts_with(label.as_bytes()));
    }
    let last = String::from_utf8(rows[31].clone()).unwrap();
    assert!(last.starts_with("0x01F0: "));
}

#[test]
fn ddr5_dump_has_64_rows() {
    let rows = expect_dump(vec![b'a'; 2050]);
    assert_eq!(rows.len(), 64);
    assert!(rows[63].starts_with(b"0x03F0: "));
}

#[test]
fn labels_increase_by_sixteen_from_zero() {
    let rows = expect_dump(vec![b'f'; 1026]);
    for (i, row) in rows.iter().enumerate() {
        let label = format!("0x{:04X}: ", 16 * i);
        assert_eq!(&row[..8], label.as_bytes());
    }
}

#[test]
fn dump_rows_hold_the_payload_pairs() {
    let mut buf = Vec::new();
    for i in 0..1026 {
        buf.push(b"0123456789abcdef"[i % 16]);
    }
    let rows = expect_dump(buf);
    assert_eq!(
        rows[0],
        b"0x0000: 01 23 45 67 89 ab cd ef 01 23 45 67 89 ab cd ef".to_vec()
    );
}

#[test]
fn boundary_lengths_classify_exactly() {
    assert!(!is_memory_dump_len(0));
    assert!(!is_memory_dump_len(5));
    assert!(!is_memory_dump_len(1025));
    assert!(is_memory_dump_len(1026));
    assert!(!is_memory_dump_len(1027));
    assert!(!is_memory_dump_len(2049));
    assert!(is_memory_dump_len(2050));
    assert!(!is_memory_dump_len(2051));
    for n in [5usize, 1025, 1027, 2049, 2051] {
        let text = expect_text(vec![b'x'; n]);
        assert_eq!(text.len(), n);
    }
}

#[test]
fn invalid_utf8_gets_replacement_marker() {
    let text = expect_text(vec![0xff, b'o', b'k']);
    assert_eq!(text, "\u{fffd}ok");
}

#[test]
fn only_one_trailing_newline_is_stripped() {
    assert_eq!(expect_text(b"a\n\n".to_vec()), "a\n");
    assert_eq!(expect_text(b"plain".to_vec()), "plain");
}

#[test]
fn short_final_chunk_renders_fewer_columns() {
    let rows = render_dump_rows(&vec![b'7'; 34]);
    assert_eq!(rows.len(), 2);
    assert_eq!(rows[1], b"0x0010: 77".to_vec());
    let rows_odd = render_dump_rows(&vec![b'7'; 35]);
    assert_eq!(rows_odd.len(), 2);
    assert_eq!(rows_odd[1], b"0x0010: 77".to_vec());
    let tiny = render_dump_rows(&vec![b'7'; 1]);
    assert_eq!(tiny.len(), 1);
    assert_eq!(tiny[0], b"0x0000: ".to_vec());
}

use loqui::upgrade::{contains_upgrade_marker, upgrade_response, UPGRADE_CHUNK_SIZE};

#[test]
fn upgrade_request_is_recognised() {
    assert!(contains_upgrade_marker(b"GET /ws HTTP/1.1\r\nUpgrade: loqui\r\n\r\n"));
}

#[test]
fn marker_is_found_in_any_case() {
    assert!(contains_upgrade_marker(b"upgrade"));
    assert!(contains_upgrade_marker(b"Upgrade"));
    assert!(contains_upgrade_marker(b"UPGRADE"));
    assert!(contains_upgrade_marker(b"uPgRaDe"));
    assert!(contains_upgrade_marker(b"Connection: UpGrAdE\r\n"));
}

#[test]
fn marker_is_found_at_either_end() {
    assert!(contains_upgrade_marker(b"upgrade and more"));
    assert!(contains_upgrade_marker(b"please UPGRADE"));
    assert!(contains_upgrade_marker(b"xupgradex"));
}

#[test]
fn chunk_without_marker_is_not_an_upgrade() {
    assert!(!contains_upgrade_marker(b"GET / HTTP/1.1\r\nHost: example\r\n\r\n"));
    assert!(!contains_upgrade_marker(b""));
    assert!(!contains_upgrade_marker(b"upgrad"));
    assert!(!contains_upgrade_marker(b"pgrade"));
    assert!(!contains_upgrade_marker(b"up grade"));
    assert!(!contains_upgrade_marker(b"upgrad\0e"));
    assert!(!contains_upgrade_marker(b"edargpu"));
}

#[test]
fn only_letters_are_lowered() {
    // Each byte is 0x20 below a letter of the marker without being a capital.
    assert!(!contains_upgrade_marker(&[0x15, 0x10, 0x07, 0x12, 0x01, 0x04, 0x05]));
    // '@' and '[' stand next to the capitals and are left as they are.
    assert!(!contains_upgrade_marker(b"upgr@de"));
    assert!(!contains_upgrade_marker(b"upgr[de"));
    assert!(!contains_upgrade_marker(b"upgr`de"));
}

#[test]
fn marker_is_found_among_bytes_that_are_no_text() {
    let mut chunk = vec![0xff, 0xfe, 0x00, 0x80];
    chunk.extend_from_slice(b"Upgrade");
    chunk.extend_from_slice(&[0xc3, 0x28]);
    assert!(contains_upgrade_marker(&chunk));
}

#[test]
fn marker_split_over_two_chunks_is_not_seen() {
    assert!(!contains_upgrade_marker(b"GET /ws HTTP/1.1\r\nUpgr"));
    assert!(!contains_upgrade_marker(b"ade: loqui\r\n\r\n"));
}

#[test]
fn marker_is_found_in_a_full_chunk() {
    assert_eq!(UPGRADE_CHUNK_SIZE, 1024);
    let mut chunk = vec![b'x'; UPGRADE_CHUNK_SIZE];
    assert!(!contains_upgrade_marker(&chunk));
    chunk[UPGRADE_CHUNK_SIZE - 7..].copy_from_slice(b"UPGRADE");
    assert!(contains_upgrade_marker(&chunk));
    chunk[UPGRADE_CHUNK_SIZE - 1] = b'x';
    assert!(!contains_upgrade_marker(&chunk));
}

#[test]
fn response_is_the_fixed_switching_protocols_text() {
    assert_eq!(
        upgrade_response(),
        b"HTTP/1.1 101 Switching Protocols\r\nUpgrade: loqui\r\nConnection: Upgrade\r\n\r\n"
            .to_vec()
    );
    assert_eq!(upgrade_response().len(), 73);
}

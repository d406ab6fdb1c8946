use metro_m4_ext::rx_buffer::ReceiveState;

#[test]
fn fresh_state_has_nothing_pending() {
    let mut rx = ReceiveState::new(128);
    assert_eq!(rx.buffer_capacity(), 128);
    assert_eq!(rx.committed_len(), 0);
    assert_eq!(rx.cursor_pos(), 0);
    assert_eq!(rx.take_message(), None);
}

#[test]
fn sentinel_chunk_commits_payload_without_sentinel() {
    // A chunk of 6 bytes ending in 0x00 commits a 5-byte message.
    let mut rx = ReceiveState::new(128);
    rx.accept_chunk(&[b'h', b'e', b'l', b'l', b'o', 0x00]);
    assert_eq!(rx.committed_len(), 5);
    assert_eq!(rx.cursor_pos(), 0);
    assert_eq!(rx.take_message(), Some(b"hello".to_vec()));
    assert_eq!(rx.committed_len(), 0);
}

#[test]
fn continuation_chunks_assemble_one_message() {
    let mut rx = ReceiveState::new(128);
    rx.accept_chunk(b"for");
    assert_eq!(rx.committed_len(), 0);
    assert_eq!(rx.cursor_pos(), 3);
    rx.accept_chunk(b"ward");
    assert_eq!(rx.cursor_pos(), 7);
    rx.accept_chunk(&[b'!', 0x00]);
    assert_eq!(rx.committed_len(), 8);
    assert_eq!(rx.take_message(), Some(b"forward!".to_vec()));
}

#[test]
fn overfeeding_without_sentinel_commits_full_capacity() {
    // More bytes than capacity, never a sentinel: the protocol truncates and
    // commits exactly the capacity, and the cursor resets.
    let mut rx = ReceiveState::new(16);
    rx.accept_chunk(&[b'a'; 8]);
    assert_eq!(rx.cursor_pos(), 8);
    assert_eq!(rx.committed_len(), 0);
    rx.accept_chunk(&[b'b'; 8]);
    assert_eq!(rx.committed_len(), 16);
    assert_eq!(rx.cursor_pos(), 0);
    let msg = rx.take_message().unwrap();
    assert_eq!(msg.len(), 16);
}

#[test]
fn chunk_filling_exactly_to_capacity_truncates() {
    // The overflow test runs before the sentinel test, so a chunk that
    // reaches capacity commits the capacity even if it ends in the sentinel.
    let mut rx = ReceiveState::new(8);
    rx.accept_chunk(&[1, 2, 3, 4, 5, 6, 7, 0x00]);
    assert_eq!(rx.committed_len(), 8);
}

#[test]
fn pending_message_rejects_new_chunks() {
    let mut rx = ReceiveState::new(64);
    rx.accept_chunk(&[b'k', b'e', b'p', b't', 0x00]);
    assert_eq!(rx.committed_len(), 4);
    assert_eq!(rx.dropped_chunks(), 0);
    // Until the consumer drains, further chunks are dropped whole.
    rx.accept_chunk(&[b'l', b'o', b's', b't', 0x00]);
    assert_eq!(rx.dropped_chunks(), 1);
    assert_eq!(rx.committed_len(), 4);
    assert_eq!(rx.take_message(), Some(b"kept".to_vec()));
    // Drained: the next chunk is accepted again.
    rx.accept_chunk(&[b'n', b'e', b'w', 0x00]);
    assert_eq!(rx.take_message(), Some(b"new".to_vec()));
    assert_eq!(rx.dropped_chunks(), 1);
}

#[test]
fn lone_sentinel_commits_nothing() {
    let mut rx = ReceiveState::new(32);
    rx.accept_chunk(&[0x00]);
    assert_eq!(rx.committed_len(), 0);
    assert_eq!(rx.cursor_pos(), 0);
    assert_eq!(rx.take_message(), None);
}

#[test]
fn capacity_one_state_truncates_every_chunk() {
    // With capacity 1 the cursor can never advance: any chunk overflows and
    // commits the single-byte capacity.
    let mut rx = ReceiveState::new(1);
    rx.accept_chunk(&[b'x']);
    assert_eq!(rx.committed_len(), 1);
    assert_eq!(rx.cursor_pos(), 0);
}

#[test]
fn sentinel_after_continuation_commits_assembled_prefix() {
    let mut rx = ReceiveState::new(32);
    rx.accept_chunk(b"ab");
    rx.accept_chunk(&[0x00]);
    assert_eq!(rx.committed_len(), 2);
    assert_eq!(rx.take_message(), Some(b"ab".to_vec()));
}

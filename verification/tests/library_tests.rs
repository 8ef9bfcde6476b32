use peer_wire::checker::{
    contains_state, is_sorted_disjoint, piece_is_complete, PieceCheckerState, PieceState,
};
use peer_wire::config::HandshakerConfig;
use peer_wire::message::{parse_message_length, HaveMessage, MessageType, PieceMessage};

#[test]
fn config_defaults() {
    let cfg = HandshakerConfig::default();
    assert_eq!(cfg.sink_buffer_size(), 1000);
    assert_eq!(cfg.wait_buffer_size(), 10);
    assert_eq!(cfg.done_buffer_size(), 10);
    assert_eq!(cfg.handshake_timeout(), 1000);
}

#[test]
fn config_setters() {
    let mut cfg = HandshakerConfig::default();
    cfg.set_sink_buffer_size(5);
    cfg.set_wait_buffer_size(6);
    cfg.set_done_buffer_size(7);
    cfg.set_handshake_timeout(2500);
    assert_eq!(cfg.sink_buffer_size(), 5);
    assert_eq!(cfg.wait_buffer_size(), 6);
    assert_eq!(cfg.done_buffer_size(), 7);
    assert_eq!(cfg.handshake_timeout(), 2500);
}

#[test]
fn length_prefix_big_endian() {
    let bytes = vec![0x00, 0x00, 0x40, 0x09, 0xff];
    assert_eq!(parse_message_length(&bytes), 0x4009);
}

#[test]
fn serialize_keep_alive_and_choke() {
    let mut out = Vec::new();
    MessageType::KeepAlive.write_bytes(&mut out);
    assert_eq!(out, vec![0, 0, 0, 0]);
    let mut out2 = Vec::new();
    MessageType::Choke.write_bytes(&mut out2);
    assert_eq!(out2, vec![0, 0, 0, 1, 0]);
}

#[test]
fn serialize_have_and_piece_header() {
    let mut out = Vec::new();
    MessageType::Have(HaveMessage { piece_index: 0x0102_0304 }).write_bytes(&mut out);
    assert_eq!(out, vec![0, 0, 0, 5, 4, 1, 2, 3, 4]);
    let mut out2 = Vec::new();
    MessageType::Piece(PieceMessage::new(0, 0, 16384)).write_bytes(&mut out2);
    // 13-byte header: length 9 + 16384 = 16393, id 7, index 0, offset 0
    assert_eq!(out2.len(), 13);
    assert_eq!(&out2[..5], &[0x00, 0x00, 0x40, 0x09, 7]);
}

#[test]
fn piece_message_accessors() {
    let m = PieceMessage::new(3, 8, 16);
    assert_eq!(m.piece_index(), 3);
    assert_eq!(m.block_offset(), 8);
    assert_eq!(m.block_length(), 16);
}

#[test]
fn checker_state_diff_drains_and_remembers() {
    let mut state = PieceCheckerState::new(3, 0);
    state.new_states.push(PieceState::Good(0));
    state.new_states.push(PieceState::Bad(1));
    let diff = state.run_with_diff();
    assert_eq!(diff, vec![PieceState::Good(0), PieceState::Bad(1)]);
    assert!(state.new_states.is_empty());
    assert!(contains_state(&state.old_states, PieceState::Good(0)));
    assert!(contains_state(&state.old_states, PieceState::Bad(1)));
    let diff2 = state.run_with_diff();
    assert!(diff2.is_empty());
}

#[test]
fn pending_blocks_filed_per_piece() {
    let mut state = PieceCheckerState::new(2, 8);
    state.add_pending_block(PieceMessage::new(1, 0, 8));
    assert_eq!(state.pending_blocks[0].len(), 0);
    assert_eq!(state.pending_blocks[1].len(), 1);
    assert_eq!(state.pending_blocks[1][0].block_length(), 8);
}

#[test]
fn complete_piece_detection() {
    let full = vec![PieceMessage::new(0, 0, 16)];
    assert!(piece_is_complete(3, 8, 16, &full));
    let last = vec![PieceMessage::new(2, 0, 8)];
    assert!(piece_is_complete(3, 8, 16, &last));
    let short = vec![PieceMessage::new(1, 0, 8)];
    assert!(!piece_is_complete(3, 8, 16, &short));
    let split = vec![PieceMessage::new(0, 0, 8), PieceMessage::new(0, 8, 8)];
    assert!(!piece_is_complete(3, 8, 16, &split));
}

#[test]
fn sorted_disjoint_detection() {
    let merged = vec![PieceMessage::new(0, 0, 4), PieceMessage::new(0, 5, 4)];
    assert!(is_sorted_disjoint(&merged));
    let adjacent = vec![PieceMessage::new(0, 0, 4), PieceMessage::new(0, 4, 4)];
    assert!(!is_sorted_disjoint(&adjacent));
    let overlapping = vec![PieceMessage::new(0, 0, 6), PieceMessage::new(0, 4, 4)];
    assert!(!is_sorted_disjoint(&overlapping));
}

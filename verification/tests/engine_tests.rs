use peer_wire::accessor::{file_regions, total_file_size};
use peer_wire::checker::{is_sorted_disjoint, merge_piece_messages, PieceCheckerState, PieceState};
use peer_wire::message::{MessageType, PieceMessage};
use peer_wire::scan::{check_file_size, check_piece, fill_checker_state, last_piece_size, SizeCheck};
use peer_wire::sender::{PieceSelector, SplitSender};
use peer_wire::wire::{
    DiskStep, IDiskMessage, InfoHash, OSelectorMessage, OSelectorMessageKind, PeerIdentifier,
    ReadStep, WireProtocol, WireState,
};

fn sha1_abc() -> Vec<u8> {
    vec![
        0xa9, 0x99, 0x3e, 0x36, 0x47, 0x06, 0x81, 0x6a, 0xba, 0x3e, 0x25, 0x71, 0x78, 0x50, 0xc2,
        0x6c, 0x9c, 0xd0, 0xd8, 0x9d,
    ]
}

#[test]
fn decode_round_trip() {
    let mut bytes = Vec::new();
    MessageType::Request(peer_wire::RequestMessage {
        piece_index: 1,
        block_offset: 2,
        block_length: 3,
    })
    .write_bytes(&mut bytes);
    match MessageType::from_bytes(&bytes) {
        Some(MessageType::Request(r)) => {
            assert_eq!(r.piece_index, 1);
            assert_eq!(r.block_offset, 2);
            assert_eq!(r.block_length, 3);
        }
        other => panic!("decoded {:?}", other),
    }
}

#[test]
fn decode_rejects_extension_and_truncation() {
    // id 20 (extension) with an empty payload: unknown, hence invalid.
    let ext = vec![0, 0, 0, 1, 20];
    assert!(MessageType::from_bytes(&ext).is_none());
    // declared length 5 but only 4 payload bytes present
    let short = vec![0, 0, 0, 5, 4, 0, 0, 0];
    assert!(MessageType::from_bytes(&short).is_none());
    // keep-alive
    let ka = vec![0, 0, 0, 0];
    assert!(matches!(MessageType::from_bytes(&ka), Some(MessageType::KeepAlive)));
}

#[test]
fn merge_coalesces_adjacent_blocks() {
    let mut state = PieceCheckerState::new(1, 0);
    state.add_pending_block(PieceMessage::new(0, 8, 8));
    state.add_pending_block(PieceMessage::new(0, 0, 8));
    state.merge_pieces();
    assert_eq!(state.pending_blocks[0].len(), 1);
    assert_eq!(state.pending_blocks[0][0].block_offset(), 0);
    assert_eq!(state.pending_blocks[0][0].block_length(), 16);
    assert!(is_sorted_disjoint(&state.pending_blocks[0]));
    // merging again changes nothing
    let snapshot: Vec<(u32, usize)> = state.pending_blocks[0]
        .iter()
        .map(|m| (m.block_offset(), m.block_length()))
        .collect();
    state.merge_pieces();
    let again: Vec<(u32, usize)> = state.pending_blocks[0]
        .iter()
        .map(|m| (m.block_offset(), m.block_length()))
        .collect();
    assert_eq!(snapshot, again);
}

#[test]
fn merge_keeps_gap_separated_blocks_apart() {
    let mut state = PieceCheckerState::new(1, 0);
    state.add_pending_block(PieceMessage::new(0, 10, 4));
    state.add_pending_block(PieceMessage::new(0, 0, 4));
    state.merge_pieces();
    assert_eq!(state.pending_blocks[0].len(), 2);
    assert_eq!(state.pending_blocks[0][0].block_offset(), 0);
    assert_eq!(state.pending_blocks[0][1].block_offset(), 10);
}

#[test]
fn merge_piece_messages_windows() {
    let merged = merge_piece_messages(&PieceMessage::new(0, 0, 8), &PieceMessage::new(0, 8, 4));
    let m = merged.expect("touching windows merge");
    assert_eq!(m.block_offset(), 0);
    assert_eq!(m.block_length(), 12);
    assert!(merge_piece_messages(&PieceMessage::new(0, 0, 8), &PieceMessage::new(0, 9, 4)).is_none());
}

#[test]
fn whole_piece_reported_once() {
    let mut state = PieceCheckerState::new(2, 0);
    state.add_pending_block(PieceMessage::new(0, 0, 8));
    state.add_pending_block(PieceMessage::new(0, 8, 8));
    let ready = state.take_ready_pieces(16);
    assert_eq!(ready.len(), 1);
    assert_eq!(ready[0].piece_index(), 0);
    assert_eq!(ready[0].block_length(), 16);
    // without a new pending block, a second pass hands out nothing
    let ready2 = state.take_ready_pieces(16);
    assert!(ready2.is_empty());
}

#[test]
fn good_piece_not_rechecked() {
    let mut state = PieceCheckerState::new(1, 0);
    state.record_piece_result(0, true);
    let diff = state.run_with_diff();
    assert_eq!(diff, vec![PieceState::Good(0)]);
    state.add_pending_block(PieceMessage::new(0, 0, 16));
    let ready = state.take_ready_pieces(16);
    assert!(ready.is_empty());
}

#[test]
fn sha1_classification() {
    let abc = vec![b'a', b'b', b'c'];
    assert!(check_piece(&abc, &sha1_abc()));
    let mut wrong = sha1_abc();
    wrong[0] ^= 1;
    assert!(!check_piece(&abc, &wrong));
}

#[test]
fn file_size_decisions() {
    assert_eq!(check_file_size(48, 48), SizeCheck::Accept);
    assert_eq!(check_file_size(48, 0), SizeCheck::Allocate { offset: 47 });
    assert_eq!(check_file_size(48, 32), SizeCheck::Reject { expected: 48, actual: 32 });
}

#[test]
fn fill_registers_whole_pieces() {
    let mut state = PieceCheckerState::new(3, 0);
    fill_checker_state(&mut state, 16, 48);
    for i in 0..3 {
        assert_eq!(state.pending_blocks[i].len(), 1);
        assert_eq!(state.pending_blocks[i][0].block_length(), 16);
    }
    assert_eq!(last_piece_size(16, 48), 0);
    let mut partial = PieceCheckerState::new(4, 2);
    fill_checker_state(&mut partial, 16, 50);
    assert_eq!(partial.pending_blocks[3][0].block_length(), 2);
    assert_eq!(last_piece_size(16, 50), 2);
}

#[test]
fn regions_span_file_boundaries() {
    let sizes = vec![10u64, 5, 20];
    assert_eq!(total_file_size(&sizes), 35);
    let regions = file_regions(&sizes, 8, &PieceMessage::new(1, 2, 10));
    // absolute bytes [10, 20): five bytes of the second file, five of the third
    assert_eq!(regions.len(), 2);
    assert_eq!(regions[0].file_index, 1);
    assert_eq!(regions[0].offset, 0);
    assert_eq!((regions[0].begin, regions[0].end), (0, 5));
    assert_eq!(regions[1].file_index, 2);
    assert_eq!(regions[1].offset, 0);
    assert_eq!((regions[1].begin, regions[1].end), (5, 10));
}

#[test]
fn regions_skip_empty_files() {
    let with_empty = file_regions(&vec![10u64, 0, 5, 20], 8, &PieceMessage::new(1, 2, 10));
    let without = file_regions(&vec![10u64, 5, 20], 8, &PieceMessage::new(1, 2, 10));
    assert_eq!(with_empty.len(), without.len());
    for (a, b) in with_empty.iter().zip(without.iter()) {
        assert_eq!(a.offset, b.offset);
        assert_eq!((a.begin, a.end), (b.begin, b.end));
    }
}

#[test]
fn inbound_block_reception() {
    let id = PeerIdentifier { address: 1, peer_id: 2 };
    let hash = InfoHash { bytes: [7u8; 20] };
    let (mut engine, announce) = WireProtocol::new(id, hash, 0);
    assert!(matches!(announce.kind, peer_wire::OProtocolMessageKind::PeerConnect(_)));
    // length prefix 16393 announces a piece header plus a 16384-byte block
    let prefix = vec![0x00u8, 0x00, 0x40, 0x09];
    match engine.advance_read(&prefix, 5) {
        ReadStep::Advance { consumed: 0, .. } => {}
        other => panic!("unexpected step {:?}", other),
    }
    assert_eq!(engine.state, WireState::ReadPayload(16397));
    let mut frame = vec![0x00u8, 0x00, 0x40, 0x09, 7, 0, 0, 0, 0, 0, 0, 0, 0];
    frame.extend(std::iter::repeat(0xabu8).take(16384));
    match engine.advance_read(&frame, 5) {
        ReadStep::Advance { consumed, to_selector, to_disk } => {
            assert_eq!(consumed, 13);
            assert!(matches!(to_disk, Some(IDiskMessage::ReserveBlock(5, _, _))));
            assert!(to_selector.is_some());
        }
        other => panic!("unexpected step {:?}", other),
    }
    assert_eq!(engine.state, WireState::DiskReserve(5, 16384));
    let (step, to_disk) = engine.process_disk(5);
    assert_eq!(step, DiskStep::Reserved(16384));
    assert!(matches!(to_disk, Some(IDiskMessage::ProcessBlock(5))));
    assert_eq!(engine.state, WireState::ReadLength);
}

#[test]
fn outbound_block_transmission() {
    let id = PeerIdentifier { address: 1, peer_id: 2 };
    let hash = InfoHash { bytes: [7u8; 20] };
    let (mut engine, _) = WireProtocol::new(id, hash, 0);
    let mut send = SplitSender::new(8);
    let piece = PieceMessage::new(0, 0, 16384);
    let msg = OSelectorMessage::new(id, OSelectorMessageKind::PeerPiece(piece));
    let (disconnect, to_disk) = engine.process_message(10, msg, 42);
    assert!(!disconnect);
    assert!(matches!(to_disk, Some(IDiskMessage::LoadBlock(42, _, _))));
    assert_eq!(engine.block_queue.len(), 1);
    assert_eq!(engine.last_sent, 10);
    let (step, _) = engine.process_disk(42);
    assert_eq!(step, DiskStep::Loaded);
    assert_eq!(engine.write_queue.len(), 1);
    let mut out = Vec::new();
    let (wrote, reclaim) = engine.advance_write(&mut out, false, &mut send);
    assert_eq!(wrote, peer_wire::wire::WriteStep::Wrote(Some(42)));
    assert!(matches!(reclaim, Some(IDiskMessage::ReclaimBlock(42))));
    assert_eq!(out.len(), 13);
    assert_eq!(&out[..5], &[0x00, 0x00, 0x40, 0x09, 7]);
    assert_eq!(engine.state, WireState::WritePayload);
    // try_send one message so a flush has a credit to return
    let queued = engine.offer_keep_alive(&mut send);
    assert!(queued);
    let (idle, _) = engine.advance_write(&mut out, true, &mut send);
    assert_eq!(idle, peer_wire::wire::WriteStep::Idle);
    assert_eq!(engine.state, WireState::ReadLength);
}

#[test]
fn peer_timeout_fires() {
    let id = PeerIdentifier { address: 1, peer_id: 2 };
    let hash = InfoHash { bytes: [0u8; 20] };
    let (engine, _) = WireProtocol::new(id, hash, 0);
    assert!(!engine.peer_timeout(120_000));
    assert!(engine.peer_timeout(120_001));
    let (notice, error) = engine.advance_disconnect(peer_wire::ProtocolErrorKind::RemoteTimeout);
    assert!(matches!(notice.kind, peer_wire::OProtocolMessageKind::PeerDisconnect));
    assert_eq!(error.kind, peer_wire::ProtocolErrorKind::RemoteTimeout);
}

#[test]
fn split_sender_credit_bound() {
    let mut send = SplitSender::new(8);
    let id = PeerIdentifier { address: 1, peer_id: 2 };
    for _ in 0..8 {
        let msg = OSelectorMessage::new(id, OSelectorMessageKind::PeerChoke);
        assert!(send.try_send(msg).is_none());
    }
    let msg = OSelectorMessage::new(id, OSelectorMessageKind::PeerChoke);
    assert!(send.try_send(msg).is_some());
    assert_eq!(send.in_flight, 8);
    assert!(send.take_next().is_some());
    send.ack();
    assert_eq!(send.in_flight, 7);
    let msg = OSelectorMessage::new(id, OSelectorMessageKind::PeerChoke);
    assert!(send.try_send(msg).is_none());
}

#[test]
fn selector_sender_tags_messages() {
    let mut selector = PieceSelector;
    let mut send = selector.register(9);
    let id = PeerIdentifier { address: 1, peer_id: 2 };
    send.try_send(peer_wire::OProtocolMessage {
        id,
        kind: peer_wire::OProtocolMessageKind::PeerChoke,
    });
    assert_eq!(send.wakeups, 1);
    assert_eq!(send.queue.len(), 1);
    match &send.queue[0] {
        peer_wire::ISelectorMessage::Protocol(token, _) => assert_eq!(*token, 9),
        _ => panic!("wrong tag"),
    }
}

use vstd::prelude::*;

use crate::checker::PieceCheckerState;
use crate::message::PieceMessage;

verus! {

/// The SHA-1 digest of a byte string.
pub uninterp spec fn sha1_of(b: Seq<u8>) -> Seq<u8>;

/// Relies on bip_util's ShaHash::from_bytes: the 20-byte SHA-1 digest
/// of the given bytes, a function of the bytes alone.
#[verifier::external_body]
fn sha1_digest(bytes: &Vec<u8>) -> (r: Vec<u8>)
    ensures
        r@ == sha1_of(bytes@),
        r@.len() == 20,
{
    let h = bip_util::sha::ShaHash::from_bytes(bytes.as_slice());
    let a: [u8; 20] = h.into();
    a.to_vec()
}

/// Byte-for-byte equality of two buffers.
pub fn bytes_equal(a: &Vec<u8>, b: &Vec<u8>) -> (r: bool)
    ensures
        r == (a@ == b@),
{
    if a.len() != b.len() {
        return false;
    }
    let mut i: usize = 0;
    while i < a.len()
        invariant
            0 <= i <= a@.len(),
            a@.len() == b@.len(),
            forall|j: int| 0 <= j < i ==> a@[j] == b@[j],
        decreases a.len() - i,
    {
        if a[i] != b[i] {
            return false;
        }
        i = i + 1;
    }
    assert(a@ =~= b@);
    true
}

/// Whether the piece buffer hashes to the expected 20-byte digest. The
/// digest comparison is exact byte equality; nothing is normalized.
pub fn check_piece(buffer: &Vec<u8>, expected_hash: &Vec<u8>) -> (r: bool)
    ensures
        r == (sha1_of(buffer@) == expected_hash@),
{
    let digest = sha1_digest(buffer);
    bytes_equal(&digest, expected_hash)
}

/// Hashes one whole-piece buffer against its expected digest and records
/// the piece as good or bad accordingly.
pub fn classify_piece(
    state: &mut PieceCheckerState,
    piece_index: u32,
    buffer: &Vec<u8>,
    expected_hash: &Vec<u8>,
)
    requires
        old(state).wf(),
    ensures
        final(state).wf(),
        final(state).new_states@ == old(state).new_states@.push(
            if sha1_of(buffer@) == expected_hash@ {
                crate::checker::PieceState::Good(piece_index)
            } else {
                crate::checker::PieceState::Bad(piece_index)
            },
        ),
        final(state).old_states == old(state).old_states,
        final(state).pending_blocks == old(state).pending_blocks,
        final(state).total_blocks == old(state).total_blocks,
        final(state).last_block_size == old(state).last_block_size,
{
    let good = check_piece(buffer, expected_hash);
    state.record_piece_result(piece_index, good);
}

/// The decision made for one on-disk file at startup: its size either
/// matches the torrent, or the file is empty and is allocated sparsely
/// by one zero byte at the final offset, or it clashes and the torrent
/// is refused rather than overwriting the file.
#[derive(Copy, Clone, PartialEq, Eq, Structural, Debug)]
pub enum SizeCheck {
    Accept,
    Allocate { offset: u64 },
    Reject { expected: u64, actual: u64 },
}

/// Decides what to do with one existing file of size `actual` when the
/// torrent declares `expected` bytes for it.
pub fn check_file_size(expected: u64, actual: u64) -> (r: SizeCheck)
    ensures
        (r is Accept) <==> actual == expected,
        (r is Allocate) <==> (actual == 0 && expected != 0),
        r matches SizeCheck::Allocate { offset } ==> offset == expected - 1,
        (r is Reject) <==> (actual != 0 && actual != expected),
        r matches SizeCheck::Reject { expected: e, actual: a } ==> e == expected && a == actual,
{
    if actual == expected {
        SizeCheck::Accept
    } else if actual == 0 {
        SizeCheck::Allocate { offset: expected - 1 }
    } else {
        SizeCheck::Reject { expected, actual }
    }
}

/// The size of the final, possibly short, piece: zero when the torrent
/// divides evenly into whole pieces.
pub fn last_piece_size(piece_length: u64, total_bytes: u64) -> (r: u64)
    requires
        piece_length >= 1,
    ensures
        r == total_bytes % piece_length,
{
    total_bytes % piece_length
}

/// Registers one full-piece pending window per whole piece, plus one
/// window of the final piece's size when the torrent does not divide
/// evenly, so that the initial scan hashes every piece once.
pub fn fill_checker_state(state: &mut PieceCheckerState, piece_length: u64, total_bytes: u64)
    requires
        old(state).wf(),
        1 <= piece_length <= 0xFFFF_FFFF,
        total_bytes / piece_length < 0x1_0000_0000,
        total_bytes / piece_length + (if total_bytes % piece_length != 0 {
            1int
        } else {
            0int
        }) <= old(state).total_blocks,
    ensures
        final(state).wf(),
        final(state).new_states == old(state).new_states,
        final(state).old_states == old(state).old_states,
        final(state).total_blocks == old(state).total_blocks,
        final(state).last_block_size == old(state).last_block_size,
        forall|i: int|
            0 <= i < total_bytes / piece_length ==> (#[trigger] final(state).pending_blocks@[i])@
                == old(state).pending_blocks@[i]@.push(
                PieceMessage {
                    piece_index: i as u32,
                    block_offset: 0,
                    block_length: piece_length as usize,
                },
            ),
        total_bytes % piece_length != 0 ==> final(state).pending_blocks@[total_bytes as int
            / piece_length as int]@ == old(state).pending_blocks@[total_bytes as int
            / piece_length as int]@.push(
            PieceMessage {
                piece_index: (total_bytes / piece_length) as u32,
                block_offset: 0,
                block_length: (total_bytes % piece_length) as usize,
            },
        ),
        forall|i: int|
            total_bytes / piece_length + (if total_bytes % piece_length != 0 {
                1int
            } else {
                0int
            }) <= i < final(state).pending_blocks@.len() ==> (
            #[trigger] final(state).pending_blocks@[i])@ == old(state).pending_blocks@[i]@,
{
    let full_pieces = total_bytes / piece_length;
    let last_size = total_bytes % piece_length;
    let mut i: u64 = 0;
    while i < full_pieces
        invariant
            0 <= i <= full_pieces,
            full_pieces == total_bytes / piece_length,
            full_pieces < 0x1_0000_0000,
            1 <= piece_length <= 0xFFFF_FFFF,
            state.wf(),
            full_pieces + (if total_bytes % piece_length != 0 {
                1int
            } else {
                0int
            }) <= state.total_blocks,
            state.new_states == old(state).new_states,
            state.old_states == old(state).old_states,
            state.total_blocks == old(state).total_blocks,
            state.last_block_size == old(state).last_block_size,
            state.pending_blocks@.len() == old(state).pending_blocks@.len(),
            forall|j: int|
                0 <= j < i ==> (#[trigger] state.pending_blocks@[j])@ == old(
                    state,
                ).pending_blocks@[j]@.push(
                    PieceMessage {
                        piece_index: j as u32,
                        block_offset: 0,
                        block_length: piece_length as usize,
                    },
                ),
            forall|j: int|
                i <= j < state.pending_blocks@.len() ==> #[trigger] state.pending_blocks@[j]
                    == old(state).pending_blocks@[j],
        decreases full_pieces - i,
    {
        state.add_pending_block(
            PieceMessage::new(i as u32, 0, piece_length as usize),
        );
        i = i + 1;
    }
    if last_size != 0 {
        state.add_pending_block(
            PieceMessage::new(full_pieces as u32, 0, last_size as usize),
        );
    }
}

} // verus!

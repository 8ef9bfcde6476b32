use vstd::prelude::*;

use crate::message::{
    frame_decodes, parse_message_length, spec_be32, spec_serializable, valid_frame,
    BitFieldMessage, CancelMessage, HaveMessage, MessageType, PieceMessage, RequestMessage,
    MAX_DECLARED_MESSAGE_LEN,
};

verus! {

/// A peer stops hearing from us after this long without any message,
/// so the engine disconnects a peer silent for this long.
pub const MAX_PEER_TIMEOUT_MILLIS: u64 = 120_000;

/// After this long without anything to write, a keep-alive is enqueued.
pub const MAX_SELF_TIMEOUT_MILLIS: u64 = 90_000;

/// Unique key of one connection: socket address and remote peer id,
/// both as opaque fixed identifiers.
#[derive(PartialEq, Eq, Structural, Copy, Clone, Debug, Hash)]
pub struct PeerIdentifier {
    pub address: u64,
    pub peer_id: u64,
}

/// A 20-byte torrent info-hash; equality is byte equality.
#[derive(Copy, Clone, Debug)]
pub struct InfoHash {
    pub bytes: [u8; 20],
}

/// State of one connection in terms of messages being sent or received.
#[derive(PartialEq, Eq, Structural, Copy, Clone, Debug, Hash)]
pub enum WireState {
    /// Read the message length; default state.
    ReadLength,
    /// Read the message length plus the message itself.
    ReadPayload(usize),
    /// Wait for the disk to reserve memory for an inbound block; the
    /// token correlates the reservation, the count is the block bytes
    /// still sitting at the head of the input buffer.
    DiskReserve(u64, usize),
    /// Write (flush) a single message to the peer.
    WritePayload,
}

/// Message from the selection layer to one wire connection.
#[derive(Debug)]
pub enum OSelectorMessageKind {
    PeerKeepAlive,
    PeerDisconnect,
    PeerChoke,
    PeerUnChoke,
    PeerInterested,
    PeerNotInterested,
    PeerHave(HaveMessage),
    PeerBitField(BitFieldMessage),
    PeerRequest(RequestMessage),
    PeerPiece(PieceMessage),
    PeerCancel(CancelMessage),
}

/// Outgoing piece message to the protocol layer.
#[derive(Debug)]
pub struct OSelectorMessage {
    pub kind: OSelectorMessageKind,
    pub id: PeerIdentifier,
}

impl OSelectorMessage {
    pub fn new(id: PeerIdentifier, kind: OSelectorMessageKind) -> (r: OSelectorMessage)
        ensures
            r.id == id,
            r.kind == kind,
    {
        OSelectorMessage { kind, id }
    }

    pub fn id(&self) -> (r: PeerIdentifier)
        ensures
            r == self.id,
    {
        self.id
    }

    pub fn kind(&self) -> (k: &OSelectorMessageKind)
        ensures
            k == &self.kind,
    {
        &self.kind
    }
}

/// Message from one wire connection up to the selection layer.
#[derive(Debug)]
pub enum OProtocolMessageKind {
    PeerConnect(InfoHash),
    PeerDisconnect,
    PeerChoke,
    PeerUnChoke,
    PeerInterested,
    PeerUnInterested,
    PeerHave(HaveMessage),
    PeerBitField(BitFieldMessage),
    PeerRequest(RequestMessage),
    PeerPiece(u64, PieceMessage),
    PeerCancel(CancelMessage),
}

/// Message from one wire connection up to the selection layer, tagged
/// with the connection it came from.
#[derive(Debug)]
pub struct OProtocolMessage {
    pub id: PeerIdentifier,
    pub kind: OProtocolMessageKind,
}

/// Message into the disk layer.
#[derive(Debug)]
pub enum IDiskMessage {
    /// Request the bytes for an outbound block.
    LoadBlock(u64, InfoHash, PieceMessage),
    /// Request a destination buffer for an inbound block.
    ReserveBlock(u64, InfoHash, PieceMessage),
    /// Commit a written-in block for hashing and persistence.
    ProcessBlock(u64),
    /// Release a loaded outbound block after it was copied out.
    ReclaimBlock(u64),
}

/// Message out of the disk layer: a namespace and the request token.
#[derive(PartialEq, Eq, Structural, Copy, Clone, Debug)]
pub enum ODiskMessage {
    BlockLoaded(u64, u64),
    BlockReserved(u64, u64),
}

/// Why a connection was torn down.
#[derive(PartialEq, Eq, Structural, Copy, Clone, Debug)]
pub enum ProtocolErrorKind {
    RemoteTimeout,
    RemoteDisconnect,
    RemoteError,
    InvalidMessage,
}

/// A connection teardown, attributed to its peer.
#[derive(PartialEq, Eq, Structural, Copy, Clone, Debug)]
pub struct ProtocolError {
    pub id: PeerIdentifier,
    pub kind: ProtocolErrorKind,
}

/// The reactor intent a connection asks for after a step.
#[derive(PartialEq, Eq, Structural, Copy, Clone, Debug)]
pub enum WireIntent {
    ExpectBytes(usize),
    Sleep,
    ExpectFlush,
}

/// Whether some entry of the block queue carries the token.
pub open spec fn bq_has(q: Seq<(u64, MessageType)>, token: u64) -> bool {
    exists|k: int| 0 <= k < q.len() && (#[trigger] q[k]).0 == token
}

/// What an inbound peer message becomes on its way to the selector: a
/// keep-alive is dropped, a piece picks up the reservation token.
pub open spec fn map_kind_spec(msg_type: MessageType, request_token: u64) -> Option<
    OProtocolMessageKind,
> {
    match msg_type {
        MessageType::KeepAlive => None,
        MessageType::Choke => Some(OProtocolMessageKind::PeerChoke),
        MessageType::UnChoke => Some(OProtocolMessageKind::PeerUnChoke),
        MessageType::Interested => Some(OProtocolMessageKind::PeerInterested),
        MessageType::UnInterested => Some(OProtocolMessageKind::PeerUnInterested),
        MessageType::Have(m) => Some(OProtocolMessageKind::PeerHave(m)),
        MessageType::BitField(m) => Some(OProtocolMessageKind::PeerBitField(m)),
        MessageType::Request(m) => Some(OProtocolMessageKind::PeerRequest(m)),
        MessageType::Piece(m) => Some(OProtocolMessageKind::PeerPiece(request_token, m)),
        MessageType::Cancel(m) => Some(OProtocolMessageKind::PeerCancel(m)),
    }
}

/// Maps a decoded message type to its selector-facing kind.
pub fn map_message_type(msg_type: MessageType, request_token: u64) -> (r: Option<
    OProtocolMessageKind,
>)
    ensures
        r == map_kind_spec(msg_type, request_token),
{
    match msg_type {
        MessageType::KeepAlive => None,
        MessageType::Choke => Some(OProtocolMessageKind::PeerChoke),
        MessageType::UnChoke => Some(OProtocolMessageKind::PeerUnChoke),
        MessageType::Interested => Some(OProtocolMessageKind::PeerInterested),
        MessageType::UnInterested => Some(OProtocolMessageKind::PeerUnInterested),
        MessageType::Have(m) => Some(OProtocolMessageKind::PeerHave(m)),
        MessageType::BitField(m) => Some(OProtocolMessageKind::PeerBitField(m)),
        MessageType::Request(m) => Some(OProtocolMessageKind::PeerRequest(m)),
        MessageType::Piece(m) => Some(OProtocolMessageKind::PeerPiece(request_token, m)),
        MessageType::Cancel(m) => Some(OProtocolMessageKind::PeerCancel(m)),
    }
}

/// Attempts to parse one framed peer message as a selector-facing kind.
/// An unparseable buffer is the peer's fault: the error carries its id.
pub fn parse_kind_message(id: PeerIdentifier, bytes: &Vec<u8>, request_token: u64) -> (r: Result<
    Option<OProtocolMessageKind>,
    ProtocolError,
>)
    ensures
        (r is Ok) <==> valid_frame(bytes@),
        r matches Ok(opt) ==> exists|m: MessageType|
            #[trigger] frame_decodes(bytes@, m) && opt == map_kind_spec(m, request_token),
        r matches Err(e) ==> e == (ProtocolError { id, kind: ProtocolErrorKind::InvalidMessage }),
{
    match MessageType::from_bytes(bytes) {
        Some(mt) => {
            let ghost m = mt;
            let opt = map_message_type(mt, request_token);
            proof {
                assert(frame_decodes(bytes@, m) && opt == map_kind_spec(m, request_token));
            }
            Ok(opt)
        },
        None => Err(ProtocolError { id, kind: ProtocolErrorKind::InvalidMessage }),
    }
}

/// Whether the peer has been silent past the tolerated window.
pub fn peer_timed_out(last_recvd_millis: u64, now_millis: u64) -> (r: bool)
    requires
        last_recvd_millis + MAX_PEER_TIMEOUT_MILLIS <= u64::MAX,
    ensures
        r == (now_millis > last_recvd_millis + MAX_PEER_TIMEOUT_MILLIS),
{
    now_millis > last_recvd_millis + MAX_PEER_TIMEOUT_MILLIS
}

/// Whether a selector message can be put on the wire at all.
pub open spec fn kind_serializable(kind: OSelectorMessageKind) -> bool {
    match kind {
        OSelectorMessageKind::PeerBitField(b) => 1 + b.bytes@.len() <= MAX_DECLARED_MESSAGE_LEN,
        OSelectorMessageKind::PeerRequest(m) => m.block_length < 0x1_0000_0000,
        OSelectorMessageKind::PeerCancel(m) => m.block_length < 0x1_0000_0000,
        OSelectorMessageKind::PeerPiece(m) => 9 + m.block_length <= MAX_DECLARED_MESSAGE_LEN,
        _ => true,
    }
}

/// The step an inbound read produced.
#[derive(Debug)]
pub enum ReadStep {
    /// Consume this many head bytes of the input buffer and deliver the
    /// attached messages; the caller then aggressively tries a write.
    Advance {
        consumed: usize,
        to_selector: Option<OProtocolMessage>,
        to_disk: Option<IDiskMessage>,
    },
    /// The peer sent an invalid message: disconnect it.
    Invalid,
}

/// The step a disk event produced.
#[derive(PartialEq, Eq, Structural, Copy, Clone, Debug)]
pub enum DiskStep {
    /// An outbound block is loaded: its message moved to the write
    /// queue.
    Loaded,
    /// An inbound reservation is ready: the caller copies this many
    /// head bytes of the input buffer into the reserved block and
    /// consumes them.
    Reserved(usize),
}

/// The step a write attempt produced.
#[derive(PartialEq, Eq, Structural, Copy, Clone, Debug)]
pub enum WriteStep {
    /// The front message's framed header went to the output buffer; a
    /// carried token names the loaded block whose bytes follow it.
    Wrote(Option<u64>),
    /// Nothing could be written.
    Idle,
}

/// What a completed inbound frame does to the connection.
pub open spec fn read_outcome(
    pre: WireProtocol,
    post: WireProtocol,
    len: usize,
    m: MessageType,
    token: u64,
    r: ReadStep,
) -> bool {
    match m {
        MessageType::KeepAlive => post.state is ReadLength && r == (ReadStep::Advance {
            consumed: len,
            to_selector: None,
            to_disk: None,
        }),
        MessageType::Piece(p) => {
            &&& post.state == WireState::DiskReserve(token, p.block_length)
            &&& r == (ReadStep::Advance {
                consumed: (len - p.block_length) as usize,
                to_selector: Some(
                    OProtocolMessage {
                        id: pre.id,
                        kind: OProtocolMessageKind::PeerPiece(token, p),
                    },
                ),
                to_disk: Some(IDiskMessage::ReserveBlock(token, pre.hash, p)),
            })
        },
        _ => {
            &&& post.state is ReadLength
            &&& match map_kind_spec(m, token) {
                Some(k) => r == (ReadStep::Advance {
                    consumed: len,
                    to_selector: Some(OProtocolMessage { id: pre.id, kind: k }),
                    to_disk: None,
                }),
                None => false,
            }
        },
    }
}

/// Copies the first `len` bytes of the buffer.
fn copy_prefix(bytes: &Vec<u8>, len: usize) -> (r: Vec<u8>)
    requires
        len <= bytes.len(),
    ensures
        r@ == bytes@.take(len as int),
{
    let mut out: Vec<u8> = Vec::new();
    let mut i: usize = 0;
    while i < len
        invariant
            0 <= i <= len <= bytes@.len(),
            out@ =~= bytes@.take(i as int),
        decreases len - i,
    {
        out.push(bytes[i]);
        i = i + 1;
    }
    assert(out@ =~= bytes@.take(len as int));
    out
}

/// The per-connection engine of the peer wire protocol: it frames,
/// parses and emits peer messages, coordinates block transfers with the
/// disk layer, and tracks the liveness clocks. It never blocks: each
/// method is one reactor step from plain inputs to plain outputs, and
/// the surrounding reactor performs the sends and the byte I/O.
pub struct WireProtocol {
    pub id: PeerIdentifier,
    pub hash: InfoHash,
    pub state: WireState,
    /// Writes that can be issued as soon as the stream is free, front
    /// first; a carried token names a disk-loaded block to append.
    pub write_queue: Vec<(MessageType, Option<u64>)>,
    /// Outbound piece messages parked until the disk loads their block,
    /// keyed by request token.
    pub block_queue: Vec<(u64, MessageType)>,
    pub last_sent: u64,
    pub last_recvd: u64,
}

impl WireProtocol {
    /// Tokens in the block queue are unique and never the one a
    /// reservation is waiting on; parked messages are pieces; and
    /// everything queued fits the wire format.
    pub open spec fn wf(self) -> bool {
        &&& forall|a: int, b: int|
            0 <= a < b < self.block_queue@.len() ==> (#[trigger] self.block_queue@[a]).0 != (
            #[trigger] self.block_queue@[b]).0
        &&& forall|k: int|
            0 <= k < self.block_queue@.len() ==> (#[trigger] self.block_queue@[k]).1 is Piece
                && spec_serializable(self.block_queue@[k].1)
        &&& forall|k: int|
            0 <= k < self.write_queue@.len() ==> ((#[trigger] self.write_queue@[k]).1 is Some
                ==> self.write_queue@[k].0 is Piece) && spec_serializable(self.write_queue@[k].0)
        &&& (self.state matches WireState::DiskReserve(t, _) ==> !bq_has(self.block_queue@, t))
    }

    /// Creates the engine for a fresh connection and the connect
    /// announcement it sends to the selector.
    pub fn new(id: PeerIdentifier, hash: InfoHash, now: u64) -> (r: (
        WireProtocol,
        OProtocolMessage,
    ))
        ensures
            r.0.wf(),
            r.0.id == id,
            r.0.hash == hash,
            r.0.state is ReadLength,
            r.0.write_queue@.len() == 0,
            r.0.block_queue@.len() == 0,
            r.0.last_sent == now,
            r.0.last_recvd == now,
            r.1.id == id,
            r.1.kind matches OProtocolMessageKind::PeerConnect(h) && h.bytes == hash.bytes,
    {
        let connection = WireProtocol {
            id,
            hash,
            state: WireState::ReadLength,
            write_queue: Vec::new(),
            block_queue: Vec::new(),
            last_sent: now,
            last_recvd: now,
        };
        let announce = OProtocolMessage { id, kind: OProtocolMessageKind::PeerConnect(hash) };
        (connection, announce)
    }

    /// Whether this peer has exceeded its timeout.
    pub fn peer_timeout(&self, now: u64) -> (r: bool)
        requires
            self.last_recvd + MAX_PEER_TIMEOUT_MILLIS <= u64::MAX,
        ensures
            r == (now > self.last_recvd + MAX_PEER_TIMEOUT_MILLIS),
    {
        peer_timed_out(self.last_recvd, now)
    }

    /// The deadline at which, with nothing else to do, a keep-alive is
    /// due.
    pub fn self_timeout(&self, now: u64) -> (r: u64)
        requires
            now + MAX_SELF_TIMEOUT_MILLIS <= u64::MAX,
        ensures
            r == now + MAX_SELF_TIMEOUT_MILLIS,
    {
        now + MAX_SELF_TIMEOUT_MILLIS
    }

    /// The teardown pair: the disconnect notice for the selector and
    /// the error that ends the connection.
    pub fn advance_disconnect(&self, kind: ProtocolErrorKind) -> (r: (
        OProtocolMessage,
        ProtocolError,
    ))
        ensures
            r.0.id == self.id,
            r.0.kind is PeerDisconnect,
            r.1 == (ProtocolError { id: self.id, kind }),
    {
        (
            OProtocolMessage { id: self.id, kind: OProtocolMessageKind::PeerDisconnect },
            ProtocolError { id: self.id, kind },
        )
    }

    /// Queues one message for writing, with no block token attached.
    fn push_write(&mut self, m: MessageType)
        requires
            old(self).wf(),
            spec_serializable(m),
        ensures
            final(self).wf(),
            final(self).write_queue@ == old(self).write_queue@.push((m, None)),
            final(self).id == old(self).id,
            final(self).hash == old(self).hash,
            final(self).state == old(self).state,
            final(self).block_queue == old(self).block_queue,
            final(self).last_sent == old(self).last_sent,
            final(self).last_recvd == old(self).last_recvd,
    {
        self.write_queue.push((m, None));
        proof {
            assert forall|k: int|
                0 <= k < self.write_queue@.len() implies ((#[trigger] self.write_queue@[k]).1
                is Some ==> self.write_queue@[k].0 is Piece) && spec_serializable(
                self.write_queue@[k].0,
            ) by {
                if k < old(self).write_queue@.len() {
                    assert(self.write_queue@[k] == old(self).write_queue@[k]);
                }
            }
        }
    }

    /// Processes one message from the selection layer: most are queued
    /// for writing, an outbound piece first asks the disk for its
    /// block, and a disconnect is reported back to the caller.
    pub fn process_message(&mut self, now: u64, msg: OSelectorMessage, fresh_token: u64) -> (r: (
        bool,
        Option<IDiskMessage>,
    ))
        requires
            old(self).wf(),
            msg.id == old(self).id,
            kind_serializable(msg.kind),
            !bq_has(old(self).block_queue@, fresh_token),
            old(self).state matches WireState::DiskReserve(t, _) ==> t != fresh_token,
        ensures
            final(self).wf(),
            final(self).id == old(self).id,
            final(self).hash == old(self).hash,
            final(self).state == old(self).state,
            final(self).last_recvd == old(self).last_recvd,
            final(self).last_sent == now,
            r.0 == (msg.kind is PeerDisconnect),
            match msg.kind {
                OSelectorMessageKind::PeerDisconnect => final(self).write_queue == old(
                    self,
                ).write_queue && final(self).block_queue == old(self).block_queue && r.1 is None,
                OSelectorMessageKind::PeerPiece(m) => final(self).write_queue == old(
                    self,
                ).write_queue && final(self).block_queue@ == old(self).block_queue@.push(
                    (fresh_token, MessageType::Piece(m)),
                ) && r.1 == Some(IDiskMessage::LoadBlock(fresh_token, old(self).hash, m)),
                _ => {
                    &&& final(self).block_queue == old(self).block_queue
                    &&& r.1 is None
                    &&& final(self).write_queue@ == old(self).write_queue@.push(
                        (
                            match msg.kind {
                                OSelectorMessageKind::PeerKeepAlive => MessageType::KeepAlive,
                                OSelectorMessageKind::PeerChoke => MessageType::Choke,
                                OSelectorMessageKind::PeerUnChoke => MessageType::UnChoke,
                                OSelectorMessageKind::PeerInterested => MessageType::Interested,
                                OSelectorMessageKind::PeerNotInterested => MessageType::UnInterested,
                                OSelectorMessageKind::PeerHave(m) => MessageType::Have(m),
                                OSelectorMessageKind::PeerBitField(m) => MessageType::BitField(m),
                                OSelectorMessageKind::PeerRequest(m) => MessageType::Request(m),
                                OSelectorMessageKind::PeerCancel(m) => MessageType::Cancel(m),
                                _ => MessageType::KeepAlive,
                            },
                            None,
                        ),
                    )
                },
            },
    {
        self.last_sent = now;
        match msg.kind {
            OSelectorMessageKind::PeerKeepAlive => {
                self.push_write(MessageType::KeepAlive);
                (false, None)
            },
            OSelectorMessageKind::PeerDisconnect => (true, None),
            OSelectorMessageKind::PeerChoke => {
                self.push_write(MessageType::Choke);
                (false, None)
            },
            OSelectorMessageKind::PeerUnChoke => {
                self.push_write(MessageType::UnChoke);
                (false, None)
            },
            OSelectorMessageKind::PeerInterested => {
                self.push_write(MessageType::Interested);
                (false, None)
            },
            OSelectorMessageKind::PeerNotInterested => {
                self.push_write(MessageType::UnInterested);
                (false, None)
            },
            OSelectorMessageKind::PeerHave(m) => {
                self.push_write(MessageType::Have(m));
                (false, None)
            },
            OSelectorMessageKind::PeerBitField(m) => {
                self.push_write(MessageType::BitField(m));
                (false, None)
            },
            OSelectorMessageKind::PeerRequest(m) => {
                self.push_write(MessageType::Request(m));
                (false, None)
            },
            OSelectorMessageKind::PeerPiece(m) => {
                let hash = self.hash;
                self.block_queue.push((fresh_token, MessageType::Piece(m)));
                proof {
                    assert forall|a: int, b: int|
                        0 <= a < b < self.block_queue@.len() implies (
                    #[trigger] self.block_queue@[a]).0 != (#[trigger] self.block_queue@[b]).0 by {
                        if b < old(self).block_queue@.len() {
                            assert(self.block_queue@[a] == old(self).block_queue@[a]);
                            assert(self.block_queue@[b] == old(self).block_queue@[b]);
                        } else {
                            assert(self.block_queue@[a] == old(self).block_queue@[a]);
                            assert(self.block_queue@[b].0 == fresh_token);
                        }
                    }
                    assert forall|k: int|
                        0 <= k < self.block_queue@.len() implies (
                    #[trigger] self.block_queue@[k]).1 is Piece && spec_serializable(
                        self.block_queue@[k].1,
                    ) by {
                        if k < old(self).block_queue@.len() {
                            assert(self.block_queue@[k] == old(self).block_queue@[k]);
                        }
                    }
                    match self.state {
                        WireState::DiskReserve(t, _) => {
                            assert forall|k: int|
                                0 <= k < self.block_queue@.len() implies (
                            #[trigger] self.block_queue@[k]).0 != t by {
                                if k < old(self).block_queue@.len() {
                                    assert(self.block_queue@[k] == old(self).block_queue@[k]);
                                }
                            }
                            assert(!bq_has(self.block_queue@, t));
                        },
                        _ => {},
                    }
                }
                (false, Some(IDiskMessage::LoadBlock(fresh_token, hash, m)))
            },
            OSelectorMessageKind::PeerCancel(m) => {
                self.push_write(MessageType::Cancel(m));
                (false, None)
            },
        }
    }

    /// Processes one disk event for the given token: a loaded outbound
    /// block moves its parked message to the write queue; a completed
    /// reservation tells the caller to commit the inbound block bytes
    /// and issues the processing request.
    pub fn process_disk(&mut self, token: u64) -> (r: (DiskStep, Option<IDiskMessage>))
        requires
            old(self).wf(),
            bq_has(old(self).block_queue@, token) || (old(self).state matches WireState::DiskReserve(
                t,
                _,
            ) && t == token),
        ensures
            final(self).wf(),
            final(self).id == old(self).id,
            final(self).hash == old(self).hash,
            final(self).last_sent == old(self).last_sent,
            final(self).last_recvd == old(self).last_recvd,
            bq_has(old(self).block_queue@, token) ==> exists|k: int|
                {
                    &&& 0 <= k < old(self).block_queue@.len()
                    &&& (#[trigger] old(self).block_queue@[k]).0 == token
                    &&& final(self).block_queue@ == old(self).block_queue@.remove(k)
                    &&& final(self).write_queue@ == old(self).write_queue@.push(
                        (old(self).block_queue@[k].1, Some(token)),
                    )
                    &&& final(self).state == old(self).state
                    &&& r == (DiskStep::Loaded, None::<IDiskMessage>)
                },
            !bq_has(old(self).block_queue@, token) ==> {
                &&& old(self).state matches WireState::DiskReserve(t, n) && t == token && r == (
                DiskStep::Reserved(n),
                Some(IDiskMessage::ProcessBlock(token)),
                )
                &&& final(self).state is ReadLength
                &&& final(self).block_queue == old(self).block_queue
                &&& final(self).write_queue == old(self).write_queue
            },
    {
        let mut k: usize = 0;
        let n = self.block_queue.len();
        while k < n
            invariant
                0 <= k <= n,
                n == self.block_queue@.len(),
                *self == *old(self),
                old(self).wf(),
                bq_has(old(self).block_queue@, token) || (old(self).state
                    matches WireState::DiskReserve(t, _) && t == token),
                forall|j: int| 0 <= j < k ==> (#[trigger] self.block_queue@[j]).0 != token,
            decreases n - k,
        {
            if self.block_queue[k].0 == token {
                let entry = self.block_queue.remove(k);
                self.write_queue.push((entry.1, Some(token)));
                proof {
                    let pre = old(self).block_queue@;
                    let kk = k as int;
                    assert(pre[kk].0 == token);
                    assert(self.block_queue@ =~= pre.subrange(0, k as int) + pre.subrange(
                        k as int + 1,
                        pre.len() as int,
                    ));
                    assert forall|j: int| 0 <= j < self.block_queue@.len() implies (
                    #[trigger] self.block_queue@[j]) == (if j < kk {
                        pre[j]
                    } else {
                        pre[j + 1]
                    }) by {}
                    assert forall|a: int, b: int|
                        0 <= a < b < self.block_queue@.len() implies (
                    #[trigger] self.block_queue@[a]).0 != (#[trigger] self.block_queue@[b]).0 by {
                        assert(self.block_queue@[a] == (if a < kk {
                            pre[a]
                        } else {
                            pre[a + 1]
                        }));
                        assert(self.block_queue@[b] == (if b < kk {
                            pre[b]
                        } else {
                            pre[b + 1]
                        }));
                        if a < kk {
                            assert(pre[a].0 != pre[b + 1].0 || b < kk);
                        }
                    }
                    assert forall|j: int|
                        0 <= j < self.write_queue@.len() implies ((
                    #[trigger] self.write_queue@[j]).1 is Some ==> self.write_queue@[j].0
                        is Piece) && spec_serializable(self.write_queue@[j].0) by {
                        if j < old(self).write_queue@.len() {
                            assert(self.write_queue@[j] == old(self).write_queue@[j]);
                        } else {
                            assert(self.write_queue@[j] == (entry.1, Some(token)));
                            assert(entry.1 == pre[k as int].1);
                        }
                    }
                    match self.state {
                        WireState::DiskReserve(t, _) => {
                            assert(!bq_has(pre, t));
                            assert forall|j: int|
                                0 <= j < self.block_queue@.len() implies (
                            #[trigger] self.block_queue@[j]).0 != t by {}
                            assert(!bq_has(self.block_queue@, t));
                        },
                        _ => {},
                    }
                    assert(0 <= kk < pre.len() && pre[kk].0 == token && final(self).block_queue@
                        == pre.remove(kk) && final(self).write_queue@ == old(
                        self,
                    ).write_queue@.push((pre[kk].1, Some(token))));
                }
                return (DiskStep::Loaded, None);
            }
            k = k + 1;
        }
        assert(!bq_has(old(self).block_queue@, token));
        match self.state {
            WireState::DiskReserve(_tok, len) => {
                self.state = WireState::ReadLength;
                (DiskStep::Reserved(len), Some(IDiskMessage::ProcessBlock(token)))
            },
            _ => {
                proof {
                    assert(false);
                }
                (DiskStep::Loaded, None)
            },
        }
    }

    /// Advances the inbound state machine one step: in the length state
    /// the four-byte prefix fixes the frame to wait for; in the payload
    /// state the completed frame is decoded, forwarded to the selector,
    /// and an inbound block starts its disk reservation. A frame that
    /// does not decode is the peer's invalid message.
    pub fn advance_read(&mut self, input: &Vec<u8>, fresh_token: u64) -> (r: ReadStep)
        requires
            old(self).wf(),
            old(self).state is ReadLength || old(self).state is ReadPayload,
            old(self).state is ReadLength ==> input@.len() >= 4,
            old(self).state matches WireState::ReadPayload(len) ==> input@.len() >= len && len >= 4,
            !bq_has(old(self).block_queue@, fresh_token),
        ensures
            final(self).wf(),
            final(self).id == old(self).id,
            final(self).hash == old(self).hash,
            final(self).write_queue == old(self).write_queue,
            final(self).block_queue == old(self).block_queue,
            final(self).last_sent == old(self).last_sent,
            final(self).last_recvd == old(self).last_recvd,
            old(self).state is ReadLength ==> {
                let l = spec_be32(input@.take(4));
                if l <= MAX_DECLARED_MESSAGE_LEN {
                    final(self).state == WireState::ReadPayload((l + 4) as usize) && r == (
                    ReadStep::Advance { consumed: 0, to_selector: None, to_disk: None })
                } else {
                    (r is Invalid) && final(self).state == old(self).state
                }
            },
            old(self).state matches WireState::ReadPayload(len) ==> {
                let sub = input@.take(len as int);
                if valid_frame(sub) {
                    exists|m: MessageType|
                        #[trigger] frame_decodes(sub, m) && read_outcome(
                            *old(self),
                            *final(self),
                            len,
                            m,
                            fresh_token,
                            r,
                        )
                } else {
                    (r is Invalid) && final(self).state == old(self).state
                }
            },
    {
        match self.state {
            WireState::ReadLength => {
                let l = parse_message_length(input);
                if l > MAX_DECLARED_MESSAGE_LEN {
                    ReadStep::Invalid
                } else {
                    self.state = WireState::ReadPayload((l as usize) + 4);
                    ReadStep::Advance { consumed: 0, to_selector: None, to_disk: None }
                }
            },
            WireState::ReadPayload(len) => {
                let sub = copy_prefix(input, len);
                match MessageType::from_bytes(&sub) {
                    None => ReadStep::Invalid,
                    Some(mt) => {
                        let ghost m = mt;
                        match mt {
                            MessageType::KeepAlive => {
                                self.state = WireState::ReadLength;
                                let r = ReadStep::Advance {
                                    consumed: len,
                                    to_selector: None,
                                    to_disk: None,
                                };
                                proof {
                                    assert(frame_decodes(sub@, m) && read_outcome(
                                        *old(self),
                                        *self,
                                        len,
                                        m,
                                        fresh_token,
                                        r,
                                    ));
                                }
                                r
                            },
                            MessageType::Piece(p) => {
                                proof {
                                    reveal(valid_frame);
                                    reveal(frame_decodes);
                                    assert(sub@.len() == len);
                                    assert(p.block_length + 13 == len);
                                }
                                self.state = WireState::DiskReserve(fresh_token, p.block_length);
                                let id = self.id;
                                let hash = self.hash;
                                let r = ReadStep::Advance {
                                    consumed: len - p.block_length,
                                    to_selector: Some(
                                        OProtocolMessage {
                                            id,
                                            kind: OProtocolMessageKind::PeerPiece(fresh_token, p),
                                        },
                                    ),
                                    to_disk: Some(
                                        IDiskMessage::ReserveBlock(fresh_token, hash, p),
                                    ),
                                };
                                proof {
                                    assert(frame_decodes(sub@, m) && read_outcome(
                                        *old(self),
                                        *self,
                                        len,
                                        m,
                                        fresh_token,
                                        r,
                                    ));
                                }
                                r
                            },
                            other => {
                                self.state = WireState::ReadLength;
                                let id = self.id;
                                let kind_opt = map_message_type(other, fresh_token);
                                match kind_opt {
                                    Some(kind) => {
                                        let r = ReadStep::Advance {
                                            consumed: len,
                                            to_selector: Some(OProtocolMessage { id, kind }),
                                            to_disk: None,
                                        };
                                        proof {
                                            assert(frame_decodes(sub@, m) && read_outcome(
                                                *old(self),
                                                *self,
                                                len,
                                                m,
                                                fresh_token,
                                                r,
                                            ));
                                        }
                                        r
                                    },
                                    None => {
                                        proof {
                                            assert(false);
                                        }
                                        ReadStep::Invalid
                                    },
                                }
                            },
                        }
                    },
                }
            },
            _ => {
                proof {
                    assert(false);
                }
                ReadStep::Invalid
            },
        }
    }

    /// Attempts to advance to or from a write: after a flush the stream
    /// is free again and one send credit returns; whenever the stream is
    /// free and a write is queued, its framed header goes to the output
    /// buffer, a disk-loaded block is reclaimed after its bytes follow,
    /// and the connection turns to flushing.
    pub fn advance_write(
        &mut self,
        out: &mut Vec<u8>,
        bytes_flushed: bool,
        send: &mut crate::sender::SplitSender,
    ) -> (r: (WriteStep, Option<IDiskMessage>))
        requires
            old(self).wf(),
            bytes_flushed ==> old(self).state is WritePayload,
            bytes_flushed ==> old(send).wf() && old(send).in_flight >= 1 && old(send).queue@.len()
                < old(send).in_flight,
            !bytes_flushed ==> old(send).wf(),
        ensures
            final(self).wf(),
            final(send).wf(),
            final(self).id == old(self).id,
            final(self).hash == old(self).hash,
            final(self).block_queue == old(self).block_queue,
            final(self).last_sent == old(self).last_sent,
            final(self).last_recvd == old(self).last_recvd,
            final(send).capacity == old(send).capacity,
            final(send).queue == old(send).queue,
            final(send).in_flight == (if bytes_flushed {
                old(send).in_flight - 1
            } else {
                old(send).in_flight as int
            }),
            ({
                let mid_state = if bytes_flushed {
                    WireState::ReadLength
                } else {
                    old(self).state
                };
                if mid_state is ReadLength && old(self).write_queue@.len() > 0 {
                    &&& final(self).write_queue@ == old(self).write_queue@.subrange(
                        1,
                        old(self).write_queue@.len() as int,
                    )
                    &&& final(out)@ == old(out)@ + crate::message::spec_header(
                        old(self).write_queue@[0].0,
                    )
                    &&& final(self).state is WritePayload
                    &&& r.0 == WriteStep::Wrote(old(self).write_queue@[0].1)
                    &&& r.1 == (match old(self).write_queue@[0].1 {
                        Some(t) => Some(IDiskMessage::ReclaimBlock(t)),
                        None => None,
                    })
                } else {
                    &&& final(self).write_queue == old(self).write_queue
                    &&& final(out)@ == old(out)@
                    &&& final(self).state == mid_state
                    &&& r == (WriteStep::Idle, None::<IDiskMessage>)
                }
            }),
    {
        if bytes_flushed {
            self.state = WireState::ReadLength;
            send.ack();
        }
        if self.write_queue.len() > 0 && self.state == WireState::ReadLength {
            let front = self.write_queue.remove(0);
            front.0.write_bytes(out);
            self.state = WireState::WritePayload;
            match front.1 {
                Some(t) => (WriteStep::Wrote(Some(t)), Some(IDiskMessage::ReclaimBlock(t))),
                None => (WriteStep::Wrote(None), None),
            }
        } else {
            (WriteStep::Idle, None)
        }
    }

    /// The reactor intent matching the current state, each paired with
    /// the keep-alive deadline.
    pub fn next_intent(&self, now: u64) -> (r: (WireIntent, u64))
        requires
            now + MAX_SELF_TIMEOUT_MILLIS <= u64::MAX,
        ensures
            r.1 == now + MAX_SELF_TIMEOUT_MILLIS,
            r.0 == (match self.state {
                WireState::ReadLength => WireIntent::ExpectBytes(4),
                WireState::ReadPayload(len) => WireIntent::ExpectBytes(len),
                WireState::DiskReserve(_, _) => WireIntent::Sleep,
                WireState::WritePayload => WireIntent::ExpectFlush,
            }),
    {
        let deadline = self.self_timeout(now);
        let intent = match self.state {
            WireState::ReadLength => WireIntent::ExpectBytes(4),
            WireState::ReadPayload(len) => WireIntent::ExpectBytes(len),
            WireState::DiskReserve(_, _) => WireIntent::Sleep,
            WireState::WritePayload => WireIntent::ExpectFlush,
        };
        (intent, deadline)
    }

    /// On the keep-alive deadline, offers a keep-alive through the
    /// connection's own bounded channel. When every send credit is in
    /// use, writes are already pending and no keep-alive is needed.
    pub fn offer_keep_alive(&self, send: &mut crate::sender::SplitSender) -> (queued: bool)
        requires
            old(send).wf(),
        ensures
            final(send).wf(),
            final(send).capacity == old(send).capacity,
            queued == (old(send).in_flight < old(send).capacity),
            queued ==> final(send).queue@.len() == old(send).queue@.len() + 1 && final(send).queue@[final(send).queue@.len() - 1] == (OSelectorMessage {
                id: self.id,
                kind: OSelectorMessageKind::PeerKeepAlive,
            }) && final(send).in_flight == old(send).in_flight + 1,
            !queued ==> *final(send) == *old(send),
    {
        let msg = OSelectorMessage {
            id: self.id,
            kind: OSelectorMessageKind::PeerKeepAlive,
        };
        let back = send.try_send(msg);
        match back {
            None => true,
            Some(_) => false,
        }
    }
}

} // verus!

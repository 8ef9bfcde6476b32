use vstd::prelude::*;

verus! {

/// Number of bytes in the big-endian length prefix that frames every
/// peer message.
pub const MESSAGE_LENGTH_LEN_BYTES: usize = 4;

/// Ceiling on the declared length of a single framed message. A remote
/// declaring more than this is treated as sending an invalid message;
/// the largest legitimate message is a piece or bitfield payload, which
/// stays far below 32 MiB in practice.
pub const MAX_DECLARED_MESSAGE_LEN: u32 = 0x0200_0000;

pub const CHOKE_ID: u8 = 0;

pub const UNCHOKE_ID: u8 = 1;

pub const INTERESTED_ID: u8 = 2;

pub const UNINTERESTED_ID: u8 = 3;

pub const HAVE_ID: u8 = 4;

pub const BITFIELD_ID: u8 = 5;

pub const REQUEST_ID: u8 = 6;

pub const PIECE_ID: u8 = 7;

pub const CANCEL_ID: u8 = 8;

/// A half-open byte window `[block_offset, block_offset + block_length)`
/// inside piece `piece_index`.
#[derive(Clone, Copy, Debug)]
pub struct PieceMessage {
    pub piece_index: u32,
    pub block_offset: u32,
    pub block_length: usize,
}

impl PieceMessage {
    pub fn new(piece_index: u32, block_offset: u32, block_length: usize) -> (msg: PieceMessage)
        ensures
            msg == (PieceMessage { piece_index, block_offset, block_length }),
    {
        PieceMessage { piece_index, block_offset, block_length }
    }

    pub fn piece_index(&self) -> (r: u32)
        ensures
            r == self.piece_index,
    {
        self.piece_index
    }

    pub fn block_offset(&self) -> (r: u32)
        ensures
            r == self.block_offset,
    {
        self.block_offset
    }

    pub fn block_length(&self) -> (r: usize)
        ensures
            r == self.block_length,
    {
        self.block_length
    }
}

/// Advertises possession of one piece.
#[derive(Clone, Copy, Debug)]
pub struct HaveMessage {
    pub piece_index: u32,
}

/// Opaque bitmap of the pieces the sender has.
#[derive(Clone, Debug)]
pub struct BitFieldMessage {
    pub bytes: Vec<u8>,
}

/// Asks the remote peer for a block.
#[derive(Clone, Copy, Debug)]
pub struct RequestMessage {
    pub piece_index: u32,
    pub block_offset: u32,
    pub block_length: usize,
}

/// Withdraws an earlier request for a block.
#[derive(Clone, Copy, Debug)]
pub struct CancelMessage {
    pub piece_index: u32,
    pub block_offset: u32,
    pub block_length: usize,
}

/// The peer wire message set. A `Piece` value carries only the block
/// coordinates; the block bytes themselves travel separately through the
/// connection buffers and the disk layer.
#[derive(Clone, Debug)]
pub enum MessageType {
    KeepAlive,
    Choke,
    UnChoke,
    Interested,
    UnInterested,
    Have(HaveMessage),
    BitField(BitFieldMessage),
    Request(RequestMessage),
    Piece(PieceMessage),
    Cancel(CancelMessage),
}

/// The integer held in four big-endian bytes.
pub open spec fn spec_be32(s: Seq<u8>) -> int
    recommends
        s.len() == 4,
{
    s[0] * 0x100_0000 + s[1] * 0x1_0000 + s[2] * 0x100 + s[3]
}

/// The four big-endian bytes of a 32-bit value.
pub open spec fn spec_be32_bytes(v: int) -> Seq<u8>
    recommends
        0 <= v < 0x1_0000_0000,
{
    seq![
        (v / 0x100_0000 % 0x100) as u8,
        (v / 0x1_0000 % 0x100) as u8,
        (v / 0x100 % 0x100) as u8,
        (v % 0x100) as u8,
    ]
}

pub proof fn lemma_be32_roundtrip(v: int)
    requires
        0 <= v < 0x1_0000_0000,
    ensures
        spec_be32(spec_be32_bytes(v)) == v,
{
    assert(spec_be32(spec_be32_bytes(v)) == v) by (nonlinear_arith)
        requires
            0 <= v < 0x1_0000_0000,
    ;
}

pub proof fn lemma_be32_bytes_inverse(s: Seq<u8>)
    requires
        s.len() == 4,
    ensures
        spec_be32_bytes(spec_be32(s)) =~= s,
        0 <= spec_be32(s) < 0x1_0000_0000,
{
    let v = spec_be32(s);
    assert(v == s[0] * 0x100_0000 + s[1] * 0x1_0000 + s[2] * 0x100 + s[3]);
    assert(0 <= v < 0x1_0000_0000 && v / 0x100_0000 % 0x100 == s[0] && v / 0x1_0000 % 0x100 == s[1]
        && v / 0x100 % 0x100 == s[2] && v % 0x100 == s[3]) by (nonlinear_arith)
        requires
            v == s[0] * 0x100_0000 + s[1] * 0x1_0000 + s[2] * 0x100 + s[3],
            0 <= s[0] < 0x100,
            0 <= s[1] < 0x100,
            0 <= s[2] < 0x100,
            0 <= s[3] < 0x100,
    ;
}

/// The length a message declares in its prefix: the byte count after the
/// four prefix bytes.
pub open spec fn spec_declared_len(m: MessageType) -> int {
    match m {
        MessageType::KeepAlive => 0,
        MessageType::Choke => 1,
        MessageType::UnChoke => 1,
        MessageType::Interested => 1,
        MessageType::UnInterested => 1,
        MessageType::Have(_) => 5,
        MessageType::BitField(b) => 1 + b.bytes.len(),
        MessageType::Request(_) => 13,
        MessageType::Piece(p) => 9 + p.block_length,
        MessageType::Cancel(_) => 13,
    }
}

/// Whether the message fits the wire format: the declared length stays
/// under the ceiling and every fixed field fits its four-byte slot.
pub open spec fn spec_serializable(m: MessageType) -> bool {
    spec_declared_len(m) <= MAX_DECLARED_MESSAGE_LEN && match m {
        MessageType::Request(r) => r.block_length < 0x1_0000_0000,
        MessageType::Cancel(c) => c.block_length < 0x1_0000_0000,
        _ => true,
    }
}

/// The framed bytes a message puts on the wire: length prefix, id and the
/// fixed fields. For `Piece` this is the 13-byte header alone; the block
/// bytes follow it on the wire but come from the disk layer.
pub open spec fn spec_header(m: MessageType) -> Seq<u8> {
    match m {
        MessageType::KeepAlive => spec_be32_bytes(0),
        MessageType::Choke => spec_be32_bytes(1) + seq![CHOKE_ID],
        MessageType::UnChoke => spec_be32_bytes(1) + seq![UNCHOKE_ID],
        MessageType::Interested => spec_be32_bytes(1) + seq![INTERESTED_ID],
        MessageType::UnInterested => spec_be32_bytes(1) + seq![UNINTERESTED_ID],
        MessageType::Have(h) => spec_be32_bytes(5) + seq![HAVE_ID] + spec_be32_bytes(
            h.piece_index as int,
        ),
        MessageType::BitField(b) => spec_be32_bytes(1 + b.bytes.len()) + seq![BITFIELD_ID]
            + b.bytes@,
        MessageType::Request(r) => spec_be32_bytes(13) + seq![REQUEST_ID] + spec_be32_bytes(
            r.piece_index as int,
        ) + spec_be32_bytes(r.block_offset as int) + spec_be32_bytes(r.block_length as int),
        MessageType::Piece(p) => spec_be32_bytes(9 + p.block_length) + seq![PIECE_ID]
            + spec_be32_bytes(p.piece_index as int) + spec_be32_bytes(p.block_offset as int),
        MessageType::Cancel(c) => spec_be32_bytes(13) + seq![CANCEL_ID] + spec_be32_bytes(
            c.piece_index as int,
        ) + spec_be32_bytes(c.block_offset as int) + spec_be32_bytes(c.block_length as int),
    }
}

/// Whether the bytes form one complete, well-formed framed message,
/// including any piece payload.
#[verifier::opaque]
pub open spec fn valid_frame(b: Seq<u8>) -> bool {
    &&& b.len() >= 4
    &&& {
        let l = spec_be32(b.take(4));
        &&& l <= MAX_DECLARED_MESSAGE_LEN
        &&& b.len() == 4 + l
        &&& (l == 0 || valid_frame_body(l, b))
    }
}

/// Whether the message id and the declared length agree, for a non-empty
/// declared length.
pub open spec fn valid_frame_body(l: int, b: Seq<u8>) -> bool
    recommends
        l >= 1,
        b.len() == 4 + l,
{
    let id = b[4];
    ||| (id == CHOKE_ID || id == UNCHOKE_ID || id == INTERESTED_ID || id == UNINTERESTED_ID) && l
        == 1
    ||| id == HAVE_ID && l == 5
    ||| id == BITFIELD_ID
    ||| id == REQUEST_ID && l == 13
    ||| id == PIECE_ID && l >= 9
    ||| id == CANCEL_ID && l == 13
}

/// Whether `m` is the message a valid frame `b` encodes.
#[verifier::opaque]
pub open spec fn frame_decodes(b: Seq<u8>, m: MessageType) -> bool
    recommends
        valid_frame(b),
{
    let l = spec_be32(b.take(4));
    if l == 0 {
        m is KeepAlive
    } else {
        let id = b[4];
        if id == CHOKE_ID {
            m is Choke
        } else if id == UNCHOKE_ID {
            m is UnChoke
        } else if id == INTERESTED_ID {
            m is Interested
        } else if id == UNINTERESTED_ID {
            m is UnInterested
        } else if id == HAVE_ID {
            m matches MessageType::Have(h) && h.piece_index == spec_be32(b.subrange(5, 9))
        } else if id == BITFIELD_ID {
            m matches MessageType::BitField(bf) && bf.bytes@ == b.subrange(5, b.len() as int)
        } else if id == REQUEST_ID {
            m matches MessageType::Request(r) && r.piece_index == spec_be32(b.subrange(5, 9))
                && r.block_offset == spec_be32(b.subrange(9, 13)) && r.block_length == spec_be32(
                b.subrange(13, 17),
            )
        } else if id == PIECE_ID {
            m matches MessageType::Piece(p) && p.piece_index == spec_be32(b.subrange(5, 9))
                && p.block_offset == spec_be32(b.subrange(9, 13)) && p.block_length == l - 9
        } else if id == CANCEL_ID {
            m matches MessageType::Cancel(c) && c.piece_index == spec_be32(b.subrange(5, 9))
                && c.block_offset == spec_be32(b.subrange(9, 13)) && c.block_length == spec_be32(
                b.subrange(13, 17),
            )
        } else {
            false
        }
    }
}

/// Reads the four-byte big-endian value at `off`.
pub fn read_u32_be(bytes: &Vec<u8>, off: usize) -> (r: u32)
    requires
        off + 4 <= bytes.len(),
    ensures
        r == spec_be32(bytes@.subrange(off as int, off as int + 4)),
{
    let b0 = bytes[off] as u32;
    let b1 = bytes[off + 1] as u32;
    let b2 = bytes[off + 2] as u32;
    let b3 = bytes[off + 3] as u32;
    let s = Ghost(bytes@.subrange(off as int, off as int + 4));
    assert(s@[0] == bytes@[off as int] && s@[1] == bytes@[off as int + 1] && s@[2] == bytes@[off
        as int + 2] && s@[3] == bytes@[off as int + 3]);
    b0 * 0x100_0000 + b1 * 0x1_0000 + b2 * 0x100 + b3
}

/// Appends the four big-endian bytes of `v`.
pub fn write_u32_be(out: &mut Vec<u8>, v: u32)
    ensures
        final(out)@ =~= old(out)@ + spec_be32_bytes(v as int),
{
    let b0 = (v / 0x100_0000 % 0x100) as u8;
    let b1 = (v / 0x1_0000 % 0x100) as u8;
    let b2 = (v / 0x100 % 0x100) as u8;
    let b3 = (v % 0x100) as u8;
    out.push(b0);
    out.push(b1);
    out.push(b2);
    out.push(b3);
}

/// Reads the length prefix at the head of the buffer. The four prefix
/// bytes themselves are not part of the returned count.
pub fn parse_message_length(bytes: &Vec<u8>) -> (len: u32)
    requires
        bytes.len() >= 4,
    ensures
        len == spec_be32(bytes@.take(4)),
{
    let r = read_u32_be(bytes, 0);
    assert(bytes@.subrange(0, 4) =~= bytes@.take(4));
    r
}

/// Decides whether the buffer holds one well-formed framed message.
#[verifier::rlimit(20)]
fn frame_check(bytes: &Vec<u8>) -> (r: bool)
    ensures
        r == valid_frame(bytes@),
{
    proof {
        reveal(valid_frame);
    }
    let n = bytes.len();
    if n < 4 {
        return false;
    }
    let l = parse_message_length(bytes);
    if l > MAX_DECLARED_MESSAGE_LEN {
        return false;
    }
    if n != 4 + (l as usize) {
        return false;
    }
    if l == 0 {
        return true;
    }
    let id = bytes[4];
    ((id == CHOKE_ID || id == UNCHOKE_ID || id == INTERESTED_ID || id == UNINTERESTED_ID) && l == 1)
        || (id == HAVE_ID && l == 5) || id == BITFIELD_ID || (id == REQUEST_ID && l == 13) || (id
        == PIECE_ID && l >= 9) || (id == CANCEL_ID && l == 13)
}

/// Copies the bytes from `from` to the end of the buffer.
fn copy_tail(bytes: &Vec<u8>, from: usize) -> (r: Vec<u8>)
    requires
        from <= bytes.len(),
    ensures
        r@ == bytes@.subrange(from as int, bytes.len() as int),
{
    let mut out: Vec<u8> = Vec::new();
    let mut i: usize = from;
    while i < bytes.len()
        invariant
            from <= i <= bytes.len(),
            out@ =~= bytes@.subrange(from as int, i as int),
        decreases bytes.len() - i,
    {
        out.push(bytes[i]);
        i = i + 1;
    }
    assert(out@ =~= bytes@.subrange(from as int, bytes.len() as int));
    out
}

/// Decodes a frame whose id byte is the have id.
fn decode_have(bytes: &Vec<u8>) -> (m: MessageType)
    requires
        valid_frame(bytes@),
        spec_be32(bytes@.take(4)) == 5,
        bytes@.len() == 9,
        bytes@[4] == HAVE_ID,
    ensures
        frame_decodes(bytes@, m),
{
    proof {
        reveal(valid_frame);
        reveal(frame_decodes);
    }
    MessageType::Have(HaveMessage { piece_index: read_u32_be(bytes, 5) })
}

/// Decodes a frame whose id byte is the bitfield id.
fn decode_bitfield(bytes: &Vec<u8>) -> (m: MessageType)
    requires
        valid_frame(bytes@),
        bytes@.len() >= 5,
        bytes@[4] == BITFIELD_ID,
    ensures
        frame_decodes(bytes@, m),
{
    proof {
        reveal(valid_frame);
        reveal(frame_decodes);
    }
    MessageType::BitField(BitFieldMessage { bytes: copy_tail(bytes, 5) })
}

/// Decodes a frame whose id byte is the request id.
fn decode_request(bytes: &Vec<u8>) -> (m: MessageType)
    requires
        valid_frame(bytes@),
        spec_be32(bytes@.take(4)) == 13,
        bytes@.len() == 17,
        bytes@[4] == REQUEST_ID,
    ensures
        frame_decodes(bytes@, m),
{
    proof {
        reveal(valid_frame);
        reveal(frame_decodes);
    }
    MessageType::Request(
        RequestMessage {
            piece_index: read_u32_be(bytes, 5),
            block_offset: read_u32_be(bytes, 9),
            block_length: read_u32_be(bytes, 13) as usize,
        },
    )
}

/// Decodes a frame whose id byte is the piece id; the block bytes stay
/// behind in the buffer.
fn decode_piece(bytes: &Vec<u8>, l: u32) -> (m: MessageType)
    requires
        valid_frame(bytes@),
        l == spec_be32(bytes@.take(4)),
        l >= 9,
        bytes@.len() == 4 + l,
        bytes@[4] == PIECE_ID,
    ensures
        frame_decodes(bytes@, m),
{
    proof {
        reveal(valid_frame);
        reveal(frame_decodes);
    }
    MessageType::Piece(
        PieceMessage {
            piece_index: read_u32_be(bytes, 5),
            block_offset: read_u32_be(bytes, 9),
            block_length: (l as usize) - 9,
        },
    )
}

/// Decodes a frame whose id byte is the cancel id.
fn decode_cancel(bytes: &Vec<u8>) -> (m: MessageType)
    requires
        valid_frame(bytes@),
        spec_be32(bytes@.take(4)) == 13,
        bytes@.len() == 17,
        bytes@[4] == CANCEL_ID,
    ensures
        frame_decodes(bytes@, m),
{
    proof {
        reveal(valid_frame);
        reveal(frame_decodes);
    }
    MessageType::Cancel(
        CancelMessage {
            piece_index: read_u32_be(bytes, 5),
            block_offset: read_u32_be(bytes, 9),
            block_length: read_u32_be(bytes, 13) as usize,
        },
    )
}

impl MessageType {
    /// Decodes a buffer already known to hold one well-formed frame.
    fn decode_frame(bytes: &Vec<u8>) -> (m: MessageType)
        requires
            valid_frame(bytes@),
        ensures
            frame_decodes(bytes@, m),
    {
        proof {
            reveal(valid_frame);
            reveal(frame_decodes);
        }
        let l = parse_message_length(bytes);
        if l == 0 {
            return MessageType::KeepAlive;
        }
        let id = bytes[4];
        if id == CHOKE_ID {
            MessageType::Choke
        } else if id == UNCHOKE_ID {
            MessageType::UnChoke
        } else if id == INTERESTED_ID {
            MessageType::Interested
        } else if id == UNINTERESTED_ID {
            MessageType::UnInterested
        } else if id == HAVE_ID {
            decode_have(bytes)
        } else if id == BITFIELD_ID {
            decode_bitfield(bytes)
        } else if id == REQUEST_ID {
            decode_request(bytes)
        } else if id == PIECE_ID {
            decode_piece(bytes, l)
        } else {
            decode_cancel(bytes)
        }
    }

    /// Decodes one complete framed message. Returns `None` exactly when
    /// the bytes are not a well-formed frame: a bad length prefix, an
    /// unknown id (the extension id 20 included), or a payload length
    /// that contradicts the id.
    pub fn from_bytes(bytes: &Vec<u8>) -> (r: Option<MessageType>)
        ensures
            (r is Some) <==> valid_frame(bytes@),
            r matches Some(m) ==> frame_decodes(bytes@, m),
    {
        if frame_check(bytes) {
            Some(MessageType::decode_frame(bytes))
        } else {
            None
        }
    }

    /// Appends this message's framed header bytes to the output buffer.
    #[verifier::rlimit(20)]
    pub fn write_bytes(&self, out: &mut Vec<u8>)
        requires
            spec_serializable(*self),
        ensures
            final(out)@ =~= old(out)@ + spec_header(*self),
    {
        match self {
            MessageType::KeepAlive => {
                write_u32_be(out, 0);
            },
            MessageType::Choke => {
                write_u32_be(out, 1);
                out.push(CHOKE_ID);
            },
            MessageType::UnChoke => {
                write_u32_be(out, 1);
                out.push(UNCHOKE_ID);
            },
            MessageType::Interested => {
                write_u32_be(out, 1);
                out.push(INTERESTED_ID);
            },
            MessageType::UnInterested => {
                write_u32_be(out, 1);
                out.push(UNINTERESTED_ID);
            },
            MessageType::Have(h) => {
                write_u32_be(out, 5);
                out.push(HAVE_ID);
                write_u32_be(out, h.piece_index);
            },
            MessageType::BitField(b) => {
                write_u32_be(out, 1 + b.bytes.len() as u32);
                out.push(BITFIELD_ID);
                let mut i: usize = 0;
                let ghost prefix = out@;
                while i < b.bytes.len()
                    invariant
                        0 <= i <= b.bytes.len(),
                        out@ =~= prefix + b.bytes@.take(i as int),
                    decreases b.bytes.len() - i,
                {
                    out.push(b.bytes[i]);
                    i = i + 1;
                }
                assert(b.bytes@.take(b.bytes.len() as int) =~= b.bytes@);
            },
            MessageType::Request(r) => {
                write_u32_be(out, 13);
                out.push(REQUEST_ID);
                write_u32_be(out, r.piece_index);
                write_u32_be(out, r.block_offset);
                write_u32_be(out, r.block_length as u32);
            },
            MessageType::Piece(p) => {
                write_u32_be(out, 9 + p.block_length as u32);
                out.push(PIECE_ID);
                write_u32_be(out, p.piece_index);
                write_u32_be(out, p.block_offset);
            },
            MessageType::Cancel(c) => {
                write_u32_be(out, 13);
                out.push(CANCEL_ID);
                write_u32_be(out, c.piece_index);
                write_u32_be(out, c.block_offset);
                write_u32_be(out, c.block_length as u32);
            },
        }
    }
}

} // verus!

//! The wire format of the remote-desktop protocol.
//!
//! Every message is a five-byte header followed by its payload: the payload's
//! length as a big-endian 32-bit number, then one byte that names the kind of
//! message ([`MsgType`]). A payload of length zero is not written at all.

use vstd::prelude::*;

verus! {

/// Length of a message header on the wire.
pub const HEADER_LEN: usize = 5;

/// The kinds of message that peers exchange.
#[derive(Debug, Clone, Copy, PartialEq, Eq, Structural)]
pub enum MsgType {
    Auth,
    AuthOk,
    AuthFail,
    Frame,
    MouseEvent,
    KeyEvent,
    Clipboard,
    Audio,
    Disconnect,
}

impl MsgType {
    /// The byte that stands for this kind of message on the wire.
    pub open spec fn wire_code(self) -> u8 {
        match self {
            MsgType::Auth => 0x01,
            MsgType::AuthOk => 0x02,
            MsgType::AuthFail => 0x03,
            MsgType::Frame => 0x10,
            MsgType::MouseEvent => 0x20,
            MsgType::KeyEvent => 0x21,
            MsgType::Clipboard => 0x30,
            MsgType::Audio => 0x40,
            MsgType::Disconnect => 0xFF,
        }
    }

    /// The kind of message that the byte `b` stands for, if any.
    pub open spec fn from_wire_code(b: u8) -> Option<MsgType> {
        if b == 0x01 {
            Some(MsgType::Auth)
        } else if b == 0x02 {
            Some(MsgType::AuthOk)
        } else if b == 0x03 {
            Some(MsgType::AuthFail)
        } else if b == 0x10 {
            Some(MsgType::Frame)
        } else if b == 0x20 {
            Some(MsgType::MouseEvent)
        } else if b == 0x21 {
            Some(MsgType::KeyEvent)
        } else if b == 0x30 {
            Some(MsgType::Clipboard)
        } else if b == 0x40 {
            Some(MsgType::Audio)
        } else if b == 0xFF {
            Some(MsgType::Disconnect)
        } else {
            None
        }
    }

    /// The byte that stands for this kind of message (`msg_type as u8`).
    pub fn to_byte(self) -> (b: u8)
        ensures
            b == self.wire_code(),
    {
        match self {
            MsgType::Auth => 0x01,
            MsgType::AuthOk => 0x02,
            MsgType::AuthFail => 0x03,
            MsgType::Frame => 0x10,
            MsgType::MouseEvent => 0x20,
            MsgType::KeyEvent => 0x21,
            MsgType::Clipboard => 0x30,
            MsgType::Audio => 0x40,
            MsgType::Disconnect => 0xFF,
        }
    }

    /// The kind of message that `value` stands for; `Err(())` for a byte
    /// that stands for none.
    pub fn try_from(value: u8) -> (r: Result<MsgType, ()>)
        ensures
            match MsgType::from_wire_code(value) {
                Some(t) => r == Ok::<MsgType, ()>(t),
                None => r == Err::<MsgType, ()>(()),
            },
    {
        if value == 0x01 {
            Ok(MsgType::Auth)
        } else if value == 0x02 {
            Ok(MsgType::AuthOk)
        } else if value == 0x03 {
            Ok(MsgType::AuthFail)
        } else if value == 0x10 {
            Ok(MsgType::Frame)
        } else if value == 0x20 {
            Ok(MsgType::MouseEvent)
        } else if value == 0x21 {
            Ok(MsgType::KeyEvent)
        } else if value == 0x30 {
            Ok(MsgType::Clipboard)
        } else if value == 0x40 {
            Ok(MsgType::Audio)
        } else if value == 0xFF {
            Ok(MsgType::Disconnect)
        } else {
            Err(())
        }
    }
}

/// Law: every kind of message is read back from its own byte.
pub proof fn lemma_wire_code_roundtrip(t: MsgType)
    ensures
        MsgType::from_wire_code(t.wire_code()) == Some(t),
{
}

/// Law: a byte that stands for a kind of message is that kind's byte, so
/// distinct kinds have distinct bytes.
pub proof fn lemma_wire_code_unique(b: u8)
    ensures
        MsgType::from_wire_code(b) matches Some(t) ==> t.wire_code() == b,
{
}

/// Why a header was refused.
#[derive(Debug, Clone, Copy, PartialEq, Eq, Structural)]
pub enum FrameError {
    /// The header's last byte stands for no kind of message.
    InvalidMessageType(u8),
}

impl FrameError {
    /// The text with which the connection reports this error.
    pub fn description(&self) -> (s: &'static str)
        ensures
            s@ == "Invalid message type"@,
    {
        match self {
            FrameError::InvalidMessageType(_) => "Invalid message type",
        }
    }
}

/// The four bytes of `n`, most significant first (`n.to_be_bytes()`).
pub open spec fn be_u32_bytes(n: u32) -> Seq<u8> {
    seq![
        (n / 0x100_0000) as u8,
        ((n / 0x1_0000) % 0x100) as u8,
        ((n / 0x100) % 0x100) as u8,
        (n % 0x100) as u8,
    ]
}

/// The number that four big-endian bytes stand for (`u32::from_be_bytes`).
pub open spec fn be_u32_value(b: Seq<u8>) -> nat {
    (b[0] as nat) * 0x100_0000 + (b[1] as nat) * 0x1_0000 + (b[2] as nat) * 0x100 + (b[3] as nat)
}

/// The length written for a payload of `len` bytes (`len as u32`: only its
/// low 32 bits).
pub open spec fn wire_length(len: nat) -> u32 {
    (len % 0x1_0000_0000) as u32
}

/// The header of a message of kind `t` whose payload has `len` bytes.
pub open spec fn header_bytes(t: MsgType, len: nat) -> Seq<u8> {
    be_u32_bytes(wire_length(len)).push(t.wire_code())
}

/// Everything written for a message of kind `t` with `payload`: the header,
/// then the payload unless the written length is zero.
pub open spec fn wire_message(t: MsgType, payload: Seq<u8>) -> Seq<u8> {
    if wire_length(payload.len()) > 0 {
        header_bytes(t, payload.len()) + payload
    } else {
        header_bytes(t, payload.len())
    }
}

proof fn lemma_be_u32_roundtrip(n: u32)
    ensures
        be_u32_value(be_u32_bytes(n)) == n,
{
    assert((n / 0x100_0000) * 0x100_0000 + ((n / 0x1_0000) % 0x100) * 0x1_0000 + ((n / 0x100)
        % 0x100) * 0x100 + n % 0x100 == n) by (bit_vector);
    assert(n / 0x100_0000 < 0x100) by (bit_vector);
    assert(((n / 0x100_0000) as u8) as nat == n / 0x100_0000);
    assert((((n / 0x1_0000) % 0x100) as u8) as nat == (n / 0x1_0000) % 0x100);
    assert((((n / 0x100) % 0x100) as u8) as nat == (n / 0x100) % 0x100);
    assert(((n % 0x100) as u8) as nat == n % 0x100);
}

/// The header of a message of kind `msg_type` whose payload has
/// `payload_len` bytes.
pub fn encode_header(msg_type: MsgType, payload_len: usize) -> (h: [u8; 5])
    ensures
        h@ == header_bytes(msg_type, payload_len as nat),
{
    let n: u32 = (payload_len as u64 % 0x1_0000_0000) as u32;
    assert(n == wire_length(payload_len as nat));
    let h: [u8; 5] = [
        (n / 0x100_0000) as u8,
        ((n / 0x1_0000) % 0x100) as u8,
        ((n / 0x100) % 0x100) as u8,
        (n % 0x100) as u8,
        msg_type.to_byte(),
    ];
    assert(h@ =~= header_bytes(msg_type, payload_len as nat));
    h
}

/// Reads a header: the kind of message and the payload's length, or the
/// error for a kind byte that stands for no kind.
pub fn decode_header(header: &[u8; 5]) -> (r: Result<(MsgType, u32), FrameError>)
    ensures
        match MsgType::from_wire_code(header@[4]) {
            Some(t) => r == Ok::<(MsgType, u32), FrameError>(
                (t, be_u32_value(header@.subrange(0, 4)) as u32),
            ),
            None => r == Err::<(MsgType, u32), FrameError>(
                FrameError::InvalidMessageType(header@[4]),
            ),
        },
        r is Ok ==> be_u32_value(header@.subrange(0, 4)) <= u32::MAX,
{
    let b0 = header[0] as u32;
    let b1 = header[1] as u32;
    let b2 = header[2] as u32;
    let b3 = header[3] as u32;
    let length: u32 = b0 * 0x100_0000 + b1 * 0x1_0000 + b2 * 0x100 + b3;
    assert(length == be_u32_value(header@.subrange(0, 4)));
    match MsgType::try_from(header[4]) {
        Ok(t) => Ok((t, length)),
        Err(()) => Err(FrameError::InvalidMessageType(header[4])),
    }
}

/// Law: a header is read back as the kind of message and the length that it
/// was written with (the length modulo 2^32, as it is sent in 32 bits).
pub proof fn lemma_header_roundtrip(t: MsgType, len: nat)
    ensures
        MsgType::from_wire_code(header_bytes(t, len)[4]) == Some(t),
        be_u32_value(header_bytes(t, len).subrange(0, 4)) == wire_length(len),
        header_bytes(t, len).len() == HEADER_LEN,
{
    let h = header_bytes(t, len);
    assert(h.subrange(0, 4) =~= be_u32_bytes(wire_length(len)));
    lemma_be_u32_roundtrip(wire_length(len));
}

/// Everything written for a message of kind `msg_type` with `payload`: the
/// header, then the payload unless its written length is zero.
pub fn encode_message(msg_type: MsgType, payload: &[u8]) -> (w: Vec<u8>)
    ensures
        w@ == wire_message(msg_type, payload@),
{
    let h = encode_header(msg_type, payload.len());
    let mut w: Vec<u8> = Vec::new();
    let mut i: usize = 0;
    while i < 5
        invariant
            i <= 5,
            h@.len() == 5,
            w@ == h@.subrange(0, i as int),
        decreases 5 - i,
    {
        w.push(h[i]);
        i = i + 1;
        assert(w@ =~= h@.subrange(0, i as int));
    }
    assert(w@ =~= header_bytes(msg_type, payload@.len()));
    let written = payload.len() as u64 % 0x1_0000_0000;
    if written > 0 {
        let ghost head = w@;
        let mut j: usize = 0;
        while j < payload.len()
            invariant
                j <= payload@.len(),
                w@ == head + payload@.subrange(0, j as int),
            decreases payload@.len() - j,
        {
            w.push(payload[j]);
            j = j + 1;
            assert(w@ =~= head + payload@.subrange(0, j as int));
        }
        assert(payload@.subrange(0, payload@.len() as int) =~= payload@);
    }
    w
}

/// What reading one message from a stream whose remaining bytes are exactly
/// `buf` gives.
#[derive(Debug)]
pub enum Receipt {
    /// The stream ended before a whole header: the peer has gone.
    Closed,
    /// The header's kind byte stands for no kind of message.
    Rejected(FrameError),
    /// The stream ended inside the payload.
    Truncated,
    /// A whole message: its kind and its payload.
    Message(MsgType, Vec<u8>),
}

/// `r` is what reading one message from a stream whose remaining bytes are
/// exactly `buf` gives.
pub open spec fn receipt_of(buf: Seq<u8>, r: Receipt) -> bool {
    if buf.len() < HEADER_LEN {
        r is Closed
    } else {
        match MsgType::from_wire_code(buf[4]) {
            None => r == Receipt::Rejected(FrameError::InvalidMessageType(buf[4])),
            Some(t) => {
                let len = be_u32_value(buf.subrange(0, 4));
                if buf.len() < HEADER_LEN + len {
                    r is Truncated
                } else {
                    r matches Receipt::Message(u, p) && u == t && p@ == buf.subrange(
                        HEADER_LEN as int,
                        HEADER_LEN + len,
                    )
                }
            },
        }
    }
}

/// Reads one message from the front of `buf`, taken as all that remains of
/// the stream.
pub fn decode_message(buf: &[u8]) -> (r: Receipt)
    ensures
        receipt_of(buf@, r),
{
    if buf.len() < HEADER_LEN {
        return Receipt::Closed;
    }
    let header: [u8; 5] = [buf[0], buf[1], buf[2], buf[3], buf[4]];
    assert(header@.subrange(0, 4) =~= buf@.subrange(0, 4));
    match decode_header(&header) {
        Err(e) => Receipt::Rejected(e),
        Ok((t, length)) => {
            let length = length as usize;
            if buf.len() - HEADER_LEN < length {
                Receipt::Truncated
            } else {
                let end = HEADER_LEN + length;
                let mut p: Vec<u8> = Vec::new();
                let mut i: usize = HEADER_LEN;
                while i < end
                    invariant
                        HEADER_LEN <= i <= end,
                        end <= buf@.len(),
                        p@ == buf@.subrange(HEADER_LEN as int, i as int),
                    decreases end - i,
                {
                    p.push(buf[i]);
                    i = i + 1;
                    assert(p@ =~= buf@.subrange(HEADER_LEN as int, i as int));
                }
                Receipt::Message(t, p)
            }
        },
    }
}

/// Law: reading from a stream that holds a written message, whatever follows
/// it, gives back that message's kind and payload; for payloads shorter than
/// 2^32 bytes, whose length fits the header.
pub proof fn lemma_message_roundtrip(t: MsgType, payload: Seq<u8>, rest: Seq<u8>, r: Receipt)
    requires
        payload.len() < 0x1_0000_0000,
        receipt_of(wire_message(t, payload) + rest, r),
    ensures
        r matches Receipt::Message(u, p) && u == t && p@ == payload,
{
    let buf = wire_message(t, payload) + rest;
    let h = header_bytes(t, payload.len());
    lemma_header_roundtrip(t, payload.len());
    assert(wire_length(payload.len()) == payload.len());
    assert(buf.subrange(0, 5) =~= h);
    assert(buf[4] == h[4]);
    assert(buf.subrange(0, 4) =~= h.subrange(0, 4));
    assert(buf.subrange(5, 5 + payload.len() as int) =~= payload);
}

} // verus!

verus! {

/// Law: the byte of each kind of message, as the protocol fixes it, and no
/// other byte stands for a kind.
pub proof fn lemma_protocol_codes(b: u8)
    ensures
        MsgType::Auth.wire_code() == 0x01,
        MsgType::AuthOk.wire_code() == 0x02,
        MsgType::AuthFail.wire_code() == 0x03,
        MsgType::Frame.wire_code() == 0x10,
        MsgType::MouseEvent.wire_code() == 0x20,
        MsgType::KeyEvent.wire_code() == 0x21,
        MsgType::Clipboard.wire_code() == 0x30,
        MsgType::Audio.wire_code() == 0x40,
        MsgType::Disconnect.wire_code() == 0xFF,
        MsgType::from_wire_code(b) is None <==> !(b == 0x01 || b == 0x02 || b == 0x03 || b == 0x10
            || b == 0x20 || b == 0x21 || b == 0x30 || b == 0x40 || b == 0xFF),
{
}

/// Law: a header is the payload's length (its low 32 bits) in four bytes,
/// most significant first, then the kind's byte.
pub proof fn lemma_header_layout(t: MsgType, len: nat)
    ensures
        ({
            let h = header_bytes(t, len);
            let n = len % 0x1_0000_0000;
            &&& h.len() == 5
            &&& h[0] as nat == n / 0x100_0000
            &&& h[1] as nat == (n / 0x1_0000) % 0x100
            &&& h[2] as nat == (n / 0x100) % 0x100
            &&& h[3] as nat == n % 0x100
            &&& h[4] == t.wire_code()
        }),
{
    let w = wire_length(len);
    assert(w as nat == len % 0x1_0000_0000);
    assert(w / 0x100_0000 < 0x100) by (bit_vector);
}

/// Law: a message whose payload is shorter than 2^32 bytes takes five bytes
/// more than its payload on the wire, or exactly five when the payload is
/// empty, and its payload follows the header unchanged.
pub proof fn lemma_message_layout(t: MsgType, payload: Seq<u8>)
    requires
        payload.len() < 0x1_0000_0000,
    ensures
        wire_message(t, payload).len() == HEADER_LEN + payload.len(),
        wire_message(t, payload).subrange(HEADER_LEN as int, HEADER_LEN + payload.len())
            == payload,
{
    let w = wire_message(t, payload);
    assert(w.subrange(5, 5 + payload.len() as int) =~= payload);
}

} // verus!

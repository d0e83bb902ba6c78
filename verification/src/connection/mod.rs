//! The brain's serial protocol: request framing, response decoding and the
//! negative acknowledgements a brain can answer with.
use vstd::prelude::*;
use vstd::string::StringSliceAdditionalSpecFns;
use crate::buffer::ReceivingBuffer;
use crate::bytes::{be16, le16, le_bytes, encode_le, lemma_le_bytes_len};
use crate::checksum::{crc16, crc16_xmodem};

pub mod bluetooth;
pub mod daemon;
pub mod serial;

verus! {

/// The four bytes that open every request.
pub open spec fn packet_header() -> Seq<u8> {
    seq![0xC9u8, 0x36u8, 0xB8u8, 0x47u8]
}

/// The two bytes that open every response.
pub open spec fn response_header() -> Seq<u8> {
    seq![0xAAu8, 0x55u8]
}

/// The command byte of an extended request or response.
pub const EXT_PACKET_ID: u8 = 0x56;

/// The first byte of a response header.
pub const RESPONSE_HEADER_FIRST: u8 = 0xAA;

/// The second byte of a response header.
pub const RESPONSE_HEADER_SECOND: u8 = 0x55;

/// The negative acknowledgements a brain can answer a request with.
#[derive(Copy, Clone, Debug, PartialEq, Eq, Structural)]
pub enum Nack {
    General,
    InvalidCrc,
    PayloadTooSmall,
    TransferSizeTooLarge,
    CrcError,
    ProgramFileError,
    UninitializedTransfer,
    InvalidInitialization,
    NonPaddedData,
    UnexpectedPacketAddress,
    LengthMismatch,
    NonExistentDirectory,
    FileIndexFull,
    FileExists,
}

/// The acknowledgement that a code stands for, if it stands for one.
pub open spec fn nack_from_code(code: u8) -> Option<Nack> {
    if code == 0xFF {
        Some(Nack::General)
    } else if code == 0xCE {
        Some(Nack::InvalidCrc)
    } else if code == 0xD0 {
        Some(Nack::PayloadTooSmall)
    } else if code == 0xD1 {
        Some(Nack::TransferSizeTooLarge)
    } else if code == 0xD2 {
        Some(Nack::CrcError)
    } else if code == 0xD3 {
        Some(Nack::ProgramFileError)
    } else if code == 0xD4 {
        Some(Nack::UninitializedTransfer)
    } else if code == 0xD5 {
        Some(Nack::InvalidInitialization)
    } else if code == 0xD6 {
        Some(Nack::NonPaddedData)
    } else if code == 0xD7 {
        Some(Nack::UnexpectedPacketAddress)
    } else if code == 0xD8 {
        Some(Nack::LengthMismatch)
    } else if code == 0xD9 {
        Some(Nack::NonExistentDirectory)
    } else if code == 0xDA {
        Some(Nack::FileIndexFull)
    } else if code == 0xDB {
        Some(Nack::FileExists)
    } else {
        None
    }
}

impl Nack {
    /// The byte that stands for this acknowledgement on the wire.
    pub open spec fn spec_code(self) -> u8 {
        match self {
            Nack::General => 0xFF,
            Nack::InvalidCrc => 0xCE,
            Nack::PayloadTooSmall => 0xD0,
            Nack::TransferSizeTooLarge => 0xD1,
            Nack::CrcError => 0xD2,
            Nack::ProgramFileError => 0xD3,
            Nack::UninitializedTransfer => 0xD4,
            Nack::InvalidInitialization => 0xD5,
            Nack::NonPaddedData => 0xD6,
            Nack::UnexpectedPacketAddress => 0xD7,
            Nack::LengthMismatch => 0xD8,
            Nack::NonExistentDirectory => 0xD9,
            Nack::FileIndexFull => 0xDA,
            Nack::FileExists => 0xDB,
        }
    }

    pub fn code(&self) -> (c: u8)
        ensures
            c == self.spec_code(),
    {
        match self {
            Nack::General => 0xFF,
            Nack::InvalidCrc => 0xCE,
            Nack::PayloadTooSmall => 0xD0,
            Nack::TransferSizeTooLarge => 0xD1,
            Nack::CrcError => 0xD2,
            Nack::ProgramFileError => 0xD3,
            Nack::UninitializedTransfer => 0xD4,
            Nack::InvalidInitialization => 0xD5,
            Nack::NonPaddedData => 0xD6,
            Nack::UnexpectedPacketAddress => 0xD7,
            Nack::LengthMismatch => 0xD8,
            Nack::NonExistentDirectory => 0xD9,
            Nack::FileIndexFull => 0xDA,
            Nack::FileExists => 0xDB,
        }
    }

    /// The acknowledgement a code stands for, if any.
    pub fn maybe_find(id: u8) -> (n: Option<Nack>)
        ensures
            n == nack_from_code(id),
    {
        if id == 0xFF {
            Some(Nack::General)
        } else if id == 0xCE {
            Some(Nack::InvalidCrc)
        } else if id == 0xD0 {
            Some(Nack::PayloadTooSmall)
        } else if id == 0xD1 {
            Some(Nack::TransferSizeTooLarge)
        } else if id == 0xD2 {
            Some(Nack::CrcError)
        } else if id == 0xD3 {
            Some(Nack::ProgramFileError)
        } else if id == 0xD4 {
            Some(Nack::UninitializedTransfer)
        } else if id == 0xD5 {
            Some(Nack::InvalidInitialization)
        } else if id == 0xD6 {
            Some(Nack::NonPaddedData)
        } else if id == 0xD7 {
            Some(Nack::UnexpectedPacketAddress)
        } else if id == 0xD8 {
            Some(Nack::LengthMismatch)
        } else if id == 0xD9 {
            Some(Nack::NonExistentDirectory)
        } else if id == 0xDA {
            Some(Nack::FileIndexFull)
        } else if id == 0xDB {
            Some(Nack::FileExists)
        } else {
            None
        }
    }
}

impl TryFrom<u8> for Nack {
    type Error = ();

    fn try_from(value: u8) -> (r: Result<Nack, ()>) {
        match Nack::maybe_find(value) {
            Some(n) => Ok(n),
            None => Err(()),
        }
    }
}

impl vstd::std_specs::convert::TryFromSpecImpl<u8> for Nack {
    open spec fn obeys_try_from_spec() -> bool {
        true
    }

    open spec fn try_from_spec(v: u8) -> Result<Nack, ()> {
        match nack_from_code(v) {
            Some(n) => Ok(n),
            None => Err(()),
        }
    }
}

/// A code read back from an acknowledgement's byte names that acknowledgement, and
/// every code that names an acknowledgement is that acknowledgement's byte.
pub proof fn lemma_nack_code_roundtrip(n: Nack, code: u8)
    ensures
        nack_from_code(n.spec_code()) == Some(n),
        nack_from_code(code) matches Some(m) ==> m.spec_code() == code,
{
}

/// How to reach a brain.
#[allow(inconsistent_fields)]
pub enum RobotConnectionOptions {
    Serial { port: Option<String> },
    Bluetooth { mac_address: Option<String>, pin: Option<String> },
    Daemon { port: u16 },
}

impl RobotConnectionOptions {
    /// Chooses the connection from the command line's flags: Bluetooth when asked for,
    /// else the daemon when asked for, else a serial port (named or found).
    pub fn from_flags(
        bluetooth: bool,
        daemon: bool,
        mac_address: Option<String>,
        pin: Option<String>,
        daemon_port: u16,
        port: Option<String>,
    ) -> (o: RobotConnectionOptions)
        ensures
            bluetooth ==> o == (RobotConnectionOptions::Bluetooth { mac_address, pin }),
            !bluetooth && daemon ==> o == (RobotConnectionOptions::Daemon { port: daemon_port }),
            !bluetooth && !daemon ==> o == (RobotConnectionOptions::Serial { port }),
    {
        if bluetooth {
            RobotConnectionOptions::Bluetooth { mac_address, pin }
        } else if daemon {
            RobotConnectionOptions::Daemon { port: daemon_port }
        } else {
            RobotConnectionOptions::Serial { port }
        }
    }
}

/// The length field of an extended request: one byte below 0x80, else two bytes, the
/// high one first and marked with bit 7.
pub open spec fn length_field(content_len: nat) -> Seq<u8> {
    if content_len < 0x80 {
        seq![content_len as u8]
    } else {
        seq![(content_len / 256 + 0x80) as u8, (content_len % 256) as u8]
    }
}

/// The bytes before the content of an extended request.
pub open spec fn request_prefix(packet_id: u8, content_len: nat) -> Seq<u8> {
    packet_header() + seq![EXT_PACKET_ID, packet_id] + length_field(content_len)
}

/// `bytes` placed over `s` from position `at`.
pub open spec fn splice(s: Seq<u8>, at: int, bytes: Seq<u8>) -> Seq<u8> {
    s.take(at) + bytes + s.skip(at + bytes.len())
}

/// `n` zero bytes.
pub open spec fn zeros(n: nat) -> Seq<u8> {
    Seq::new(n, |i: int| 0u8)
}

/// A text field of `n` bytes: the bytes of the text, then zeros.
pub open spec fn str_field(bytes: Seq<u8>, n: nat) -> Seq<u8> {
    bytes + zeros((n - bytes.len()) as nat)
}

/// The whole frame of an extended request: prefix, content, CRC-16 (big-endian).
pub open spec fn sealed(body: Seq<u8>) -> Seq<u8> {
    body + be16(crc16_xmodem(body))
}

/// An extended request being filled in: a buffer sized for its content and CRC, and
/// the position of the next write.
pub struct Packet {
    packet_id: u8,
    buffer: Vec<u8>,
    pos: usize,
}

impl Packet {
    pub closed spec fn spec_id(&self) -> u8 {
        self.packet_id
    }

    /// The bytes of the request, including the space still to be filled.
    pub closed spec fn spec_bytes(&self) -> Seq<u8> {
        self.buffer@
    }

    /// The position of the next write.
    pub closed spec fn spec_pos(&self) -> nat {
        self.pos as nat
    }

    /// `next` has `bytes` written at the old position and the position moved by `step`.
    pub open spec fn wrote(&self, next: Self, bytes: Seq<u8>, step: nat) -> bool {
        &&& next.spec_id() == self.spec_id()
        &&& next.spec_bytes() == splice(self.spec_bytes(), self.spec_pos() as int, bytes)
        &&& next.spec_pos() == self.spec_pos() + step
    }

    /// There is room for `n` more bytes.
    pub open spec fn has_room(&self, n: nat) -> bool {
        self.spec_pos() + n <= self.spec_bytes().len()
    }

    /// The bytes before the position.
    pub open spec fn written(&self) -> Seq<u8> {
        self.spec_bytes().take(self.spec_pos() as int)
    }

    /// The position is within the buffer and every byte from it on is still zero.
    pub open spec fn blank_after(&self) -> bool {
        &&& self.spec_pos() <= self.spec_bytes().len()
        &&& forall|j: int|
            self.spec_pos() <= j < self.spec_bytes().len() ==> #[trigger] self.spec_bytes()[j] == 0
    }

    /// Written in order into a blank rest, `bytes` extend what was written.
    pub open spec fn appended(&self, next: Self, bytes: Seq<u8>) -> bool {
        self.blank_after() ==> next.blank_after() && next.written() == self.written() + bytes
    }

    /// Starts a request with the given command and content length: header, extended
    /// command byte, command, length field; the content and CRC are zero until written.
    pub fn new(packet_id: u8, content_len: usize) -> (p: Packet)
        requires
            content_len < 0x8000,
        ensures
            p.spec_id() == packet_id,
            p.spec_bytes() == request_prefix(packet_id, content_len as nat) + zeros(
                content_len as nat + 2,
            ),
            p.spec_pos() == request_prefix(packet_id, content_len as nat).len(),
            p.written() == request_prefix(packet_id, content_len as nat),
            p.blank_after(),
    {
        let meta_len: usize = if content_len < 0x80 { 7 } else { 8 };
        let size = meta_len + content_len + 2;
        let mut buffer: Vec<u8> = vec![0u8; size];
        buffer.set(0, 0xC9);
        buffer.set(1, 0x36);
        buffer.set(2, 0xB8);
        buffer.set(3, 0x47);
        buffer.set(4, EXT_PACKET_ID);
        buffer.set(5, packet_id);
        if content_len < 0x80 {
            buffer.set(6, content_len as u8);
        } else {
            buffer.set(6, (content_len / 256 + 0x80) as u8);
            buffer.set(7, (content_len % 256) as u8);
        }
        let p = Packet { packet_id, buffer, pos: meta_len };
        proof {
            assert(p.spec_bytes() =~= request_prefix(packet_id, content_len as nat) + zeros(
                content_len as nat + 2,
            ));
            assert(p.written() =~= request_prefix(packet_id, content_len as nat));
        }
        p
    }

    /// Writes `slice` at the position and moves past it.
    pub fn write_raw(&mut self, slice: &[u8])
        requires
            old(self).has_room(slice@.len()),
        ensures
            old(self).wrote(*final(self), slice@, slice@.len()),
            old(self).appended(*final(self), slice@),
    {
        let n = slice.len();
        let _len = self.buffer.len();
        let mut i: usize = 0;
        while i < n
            invariant
                n == slice@.len(),
                i <= n,
                self.pos + n <= self.buffer@.len(),
                _len == self.buffer@.len() == old(self).buffer@.len(),
                self.pos == old(self).pos,
                self.packet_id == old(self).packet_id,
                forall|j: int|
                    0 <= j < self.buffer@.len() ==> #[trigger] self.buffer@[j] == if self.pos <= j
                        < self.pos + i {
                        slice@[j - self.pos]
                    } else {
                        old(self).buffer@[j]
                    },
            decreases n - i,
        {
            let b = slice[i];
            let at = self.pos + i;
            self.buffer.set(at, b);
            i = i + 1;
        }
        proof {
            assert(self.buffer@ =~= splice(old(self).buffer@, old(self).pos as int, slice@));
        }
        self.pos = self.pos + n;
        proof {
            if old(self).blank_after() {
                assert(self.written() =~= old(self).written() + slice@);
            }
        }
    }

    /// Writes the `n` little-endian bytes of `value`.
    fn write_le(&mut self, value: u128, n: usize)
        requires
            n <= 16,
            old(self).has_room(n as nat),
        ensures
            old(self).wrote(*final(self), le_bytes(value as nat, n as nat), n as nat),
            old(self).appended(*final(self), le_bytes(value as nat, n as nat)),
    {
        let bytes = encode_le(value, n);
        self.write_raw(bytes.as_slice());
    }

    pub fn write_u8(&mut self, value: u8)
        requires
            old(self).has_room(1),
        ensures
            old(self).wrote(*final(self), seq![value], 1),
            old(self).appended(*final(self), seq![value]),
    {
        self.write_le(value as u128, 1);
        proof {
            reveal_with_fuel(le_bytes, 2);
            assert(le_bytes(value as nat, 1) =~= seq![value]);
        }
    }

    pub fn write_i8(&mut self, value: i8)
        requires
            old(self).has_room(1),
        ensures
            old(self).wrote(*final(self), le_bytes((value as u8) as nat, 1), 1),
            old(self).appended(*final(self), le_bytes((value as u8) as nat, 1)),
    {
        self.write_le((value as u8) as u128, 1);
    }

    pub fn write_u16(&mut self, value: u16)
        requires
            old(self).has_room(2),
        ensures
            old(self).wrote(*final(self), le_bytes(value as nat, 2), 2),
            old(self).appended(*final(self), le_bytes(value as nat, 2)),
    {
        self.write_le(value as u128, 2);
    }

    pub fn write_i16(&mut self, value: i16)
        requires
            old(self).has_room(2),
        ensures
            old(self).wrote(*final(self), le_bytes((value as u16) as nat, 2), 2),
            old(self).appended(*final(self), le_bytes((value as u16) as nat, 2)),
    {
        self.write_le((value as u16) as u128, 2);
    }

    pub fn write_u32(&mut self, value: u32)
        requires
            old(self).has_room(4),
        ensures
            old(self).wrote(*final(self), le_bytes(value as nat, 4), 4),
            old(self).appended(*final(self), le_bytes(value as nat, 4)),
    {
        self.write_le(value as u128, 4);
    }

    pub fn write_i32(&mut self, value: i32)
        requires
            old(self).has_room(4),
        ensures
            old(self).wrote(*final(self), le_bytes((value as u32) as nat, 4), 4),
            old(self).appended(*final(self), le_bytes((value as u32) as nat, 4)),
    {
        self.write_le((value as u32) as u128, 4);
    }

    pub fn write_u64(&mut self, value: u64)
        requires
            old(self).has_room(8),
        ensures
            old(self).wrote(*final(self), le_bytes(value as nat, 8), 8),
            old(self).appended(*final(self), le_bytes(value as nat, 8)),
    {
        self.write_le(value as u128, 8);
    }

    pub fn write_i64(&mut self, value: i64)
        requires
            old(self).has_room(8),
        ensures
            old(self).wrote(*final(self), le_bytes((value as u64) as nat, 8), 8),
            old(self).appended(*final(self), le_bytes((value as u64) as nat, 8)),
    {
        self.write_le((value as u64) as u128, 8);
    }

    pub fn write_u128(&mut self, value: u128)
        requires
            old(self).has_room(16),
        ensures
            old(self).wrote(*final(self), le_bytes(value as nat, 16), 16),
            old(self).appended(*final(self), le_bytes(value as nat, 16)),
    {
        self.write_le(value, 16);
    }

    pub fn write_i128(&mut self, value: i128)
        requires
            old(self).has_room(16),
        ensures
            old(self).wrote(*final(self), le_bytes((value as u128) as nat, 16), 16),
            old(self).appended(*final(self), le_bytes((value as u128) as nat, 16)),
    {
        self.write_le(value as u128, 16);
    }

    /// Writes the bytes of `string` and moves to the end of a field of `target_len`
    /// bytes; the rest of the field keeps its zeros, so the string ends in a terminator.
    pub fn write_str(&mut self, string: &str, target_len: usize)
        requires
            string.spec_bytes().len() < target_len,
            old(self).has_room(string.spec_bytes().len()),
            old(self).spec_pos() + target_len <= usize::MAX,
        ensures
            old(self).wrote(*final(self), string.spec_bytes(), target_len as nat),
            old(self).has_room(target_len as nat) ==> old(self).appended(
                *final(self),
                string.spec_bytes() + zeros((target_len - string.spec_bytes().len()) as nat),
            ),
    {
        let bytes = string.as_bytes();
        let n = bytes.len();
        self.write_raw(bytes);
        self.pos = self.pos - n + target_len;
        proof {
            if old(self).blank_after() && old(self).has_room(target_len as nat) {
                assert forall|j: int|
                    self.spec_pos() <= j < self.spec_bytes().len() implies #[trigger] self.spec_bytes()[j]
                        == 0 by {
                    assert(old(self).spec_bytes()[j] == 0);
                }
                let w = old(self).written() + (string.spec_bytes() + zeros(
                    (target_len - string.spec_bytes().len()) as nat,
                ));
                assert forall|j: int| 0 <= j < w.len() implies #[trigger] self.written()[j] == w[j] by {
                    if j >= old(self).spec_pos() + n {
                        assert(old(self).spec_bytes()[j] == 0);
                    }
                }
                assert(self.written() =~= w);
            }
        }
    }

    /// Moves past `amount` bytes, leaving them as they are (zero unless written).
    pub fn pad(&mut self, amount: usize)
        requires
            old(self).has_room(amount as nat),
        ensures
            old(self).wrote(*final(self), Seq::empty(), amount as nat),
            old(self).appended(*final(self), zeros(amount as nat)),
    {
        let _len = self.buffer.len();
        self.pos = self.pos + amount;
        proof {
            assert(splice(old(self).buffer@, old(self).pos as int, Seq::empty()) =~= old(self).buffer@);
            if old(self).blank_after() {
                assert(self.written() =~= old(self).written() + zeros(amount as nat));
            }
        }
    }

    /// Closes the request: writes the CRC-16/XMODEM of everything before it, high byte
    /// first, into the last two bytes and hands back the frame to send.
    pub fn finish(self) -> (frame: Vec<u8>)
        requires
            self.spec_bytes().len() >= 2,
            self.spec_pos() == self.spec_bytes().len() - 2,
        ensures
            frame@ == sealed(self.spec_bytes().take(self.spec_pos() as int)),
            crc16_xmodem(frame@) == 0,
    {
        let mut this = self;
        let body = crate::buffer::slice_copy(this.buffer.as_slice(), 0, this.pos);
        let crc = crc16(body.as_slice());
        let at = this.pos;
        let _len = this.buffer.len();
        this.buffer.set(at, (crc / 256) as u8);
        this.buffer.set(at + 1, (crc % 256) as u8);
        proof {
            assert(this.buffer@ =~= sealed(self.spec_bytes().take(self.spec_pos() as int)));
        }
        this.buffer
    }
}

/// The frame of a simple request: header, command, then the CRC-16/XMODEM of those
/// five bytes with its low byte first.
pub open spec fn simple_frame(id: u8) -> Seq<u8> {
    let body = packet_header() + seq![id];
    body + le16(crc16_xmodem(body))
}

/// The frame of a simple (unextended) request for command `id`.
pub fn simple_request(id: u8) -> (frame: Vec<u8>)
    ensures
        frame@ == simple_frame(id),
{
    let mut body: Vec<u8> = Vec::new();
    body.push(0xC9);
    body.push(0x36);
    body.push(0xB8);
    body.push(0x47);
    body.push(id);
    let crc = crc16(body.as_slice());
    let ghost b = body@;
    body.push((crc % 256) as u8);
    body.push((crc / 256) as u8);
    proof {
        assert(b =~= packet_header() + seq![id]);
        assert(body@ =~= simple_frame(id));
    }
    body
}

/// How many bytes of a response header have been seen: the state of a header search
/// after one more byte. State 2 means the whole header has just been seen.
pub open spec fn header_step(matched: nat, byte: u8) -> nat {
    if matched == 1 && byte == RESPONSE_HEADER_SECOND {
        2
    } else if byte == RESPONSE_HEADER_FIRST {
        1
    } else {
        0
    }
}

/// The state of a header search that has read `bytes` from its start (it stops once it
/// has seen the header).
pub open spec fn scan(bytes: Seq<u8>) -> nat
    decreases bytes.len(),
{
    if bytes.len() == 0 {
        0
    } else {
        let before = scan(bytes.drop_last());
        if before == 2 {
            2
        } else {
            header_step(before, bytes.last())
        }
    }
}

/// The response header occurs somewhere in `bytes`.
pub open spec fn contains_header(bytes: Seq<u8>) -> bool {
    exists|i: int|
        0 <= i < bytes.len() - 1 && #[trigger] bytes[i] == RESPONSE_HEADER_FIRST && bytes[i + 1]
            == RESPONSE_HEADER_SECOND
}

/// A header search finds the header exactly when the bytes read hold it; before that it
/// is half way exactly when the last byte read is the header's first byte.
pub proof fn lemma_scan_finds_header(bytes: Seq<u8>)
    ensures
        scan(bytes) == 2 <==> contains_header(bytes),
        scan(bytes) == 1 <==> (!contains_header(bytes) && bytes.len() > 0 && bytes.last()
            == RESPONSE_HEADER_FIRST),
        scan(bytes) <= 2,
    decreases bytes.len(),
{
    if bytes.len() > 0 {
        let front = bytes.drop_last();
        lemma_scan_finds_header(front);
        if contains_header(front) {
            let i = choose|i: int|
                0 <= i < front.len() - 1 && #[trigger] front[i] == RESPONSE_HEADER_FIRST
                    && front[i + 1] == RESPONSE_HEADER_SECOND;
            assert(bytes[i] == RESPONSE_HEADER_FIRST && bytes[i + 1] == RESPONSE_HEADER_SECOND);
        }
        if contains_header(bytes) && !contains_header(front) {
            let i = choose|i: int|
                0 <= i < bytes.len() - 1 && #[trigger] bytes[i] == RESPONSE_HEADER_FIRST
                    && bytes[i + 1] == RESPONSE_HEADER_SECOND;
            if i < bytes.len() - 2 {
                assert(front[i] == RESPONSE_HEADER_FIRST && front[i + 1] == RESPONSE_HEADER_SECOND);
            }
            assert(i == bytes.len() - 2);
        }
        if !contains_header(front) && front.len() > 0 && front.last() == RESPONSE_HEADER_FIRST
            && bytes.last() == RESPONSE_HEADER_SECOND {
            assert(bytes[bytes.len() - 2] == RESPONSE_HEADER_FIRST);
        }
    }
}

/// A search for the two-byte response header in a stream read one byte at a time.
pub struct HeaderMatcher {
    matched: u8,
}

impl HeaderMatcher {
    pub closed spec fn state(&self) -> nat {
        self.matched as nat
    }

    pub fn new() -> (m: HeaderMatcher)
        ensures
            m.state() == 0,
    {
        HeaderMatcher { matched: 0 }
    }

    /// Forgets a half-seen header (what a read that times out does).
    pub fn reset(&mut self)
        ensures
            final(self).state() == 0,
    {
        self.matched = 0;
    }

    /// Takes the next byte of the stream; true once the whole header has been seen.
    pub fn step(&mut self, byte: u8) -> (found: bool)
        requires
            old(self).state() < 2,
        ensures
            final(self).state() == header_step(old(self).state(), byte),
            found == (final(self).state() == 2),
    {
        if self.matched == 1 && byte == RESPONSE_HEADER_SECOND {
            self.matched = 2;
        } else if byte == RESPONSE_HEADER_FIRST {
            self.matched = 1;
        } else {
            self.matched = 0;
        }
        self.matched == 2
    }
}

/// The largest packet a serial connection carries.
pub const SERIAL_MAX_PACKET_SIZE: u16 = 0x7FFF;

/// The largest packet a Bluetooth connection carries.
pub const BLUETOOTH_MAX_PACKET_SIZE: u16 = 244;

/// How long a request waits for the start of its answer before it is sent again, in
/// milliseconds: two seconds for the end of a file transfer (0x12), which the brain
/// takes long to answer, 300 ms for any other command.
pub fn resend_timeout_millis(id: u8) -> (ms: u64)
    ensures
        ms == if id == 0x12 {
            2000u64
        } else {
            300u64
        },
{
    if id == 0x12 {
        2000
    } else {
        300
    }
}

/// The length of a response's content: one byte, or, when that byte has bit 7 set,
/// two bytes read high byte first: the low seven bits of the first as the high byte and
/// the second as the low byte.
pub open spec fn extended_length_be(first: u8, second: u8) -> nat {
    (first % 128) as nat * 256 + second as nat
}

/// The same two length bytes as the serial and Bluetooth connections read them:
/// `u16::from_le_bytes([first & 0x7f, second])`.
pub open spec fn extended_length_le(first: u8, second: u8) -> nat {
    (first % 128) as nat + second as nat * 256
}

/// The first length byte of a response announces a second one.
pub fn has_extended_length(first: u8) -> (ext: bool)
    ensures
        ext == (first >= 0x80),
{
    first >= 0x80
}

/// The content length of a response whose first length byte has bit 7 set, with the
/// high byte first.
pub fn response_length_be(first: u8, second: u8) -> (len: u16)
    ensures
        len == extended_length_be(first, second),
{
    ((first % 128) as u16) * 256 + second as u16
}

/// The content length of a response whose first length byte has bit 7 set, read as
/// `u16::from_le_bytes([first & 0x7f, second])`.
pub fn response_length_le(first: u8, second: u8) -> (len: u16)
    ensures
        len == extended_length_le(first, second),
{
    (first % 128) as u16 + (second as u16) * 256
}

/// A request's two-byte length field reads back, high byte first, as the content length.
pub proof fn lemma_length_field_roundtrip(content_len: nat)
    requires
        0x80 <= content_len < 0x8000,
    ensures
        length_field(content_len).len() == 2,
        length_field(content_len)[0] >= 0x80,
        extended_length_be(length_field(content_len)[0], length_field(content_len)[1])
            == content_len,
{
}

/// A response that carries no negative acknowledgement is taken when it answers the
/// expected command and its CRC (over the whole payload) checks.
pub open spec fn response_accepted(expected_command: u8, payload: Seq<u8>) -> bool {
    payload[2] == expected_command && crc16_xmodem(payload) == 0
}

/// A serial or Bluetooth connection can hand a response on: it is a negative
/// acknowledgement, or it is accepted. Any other response stops the connection.
pub open spec fn response_answers(expected_command: u8, payload: Seq<u8>, start: int) -> bool {
    nack_from_code(payload[start + 1]) is Some || response_accepted(expected_command, payload)
}

/// Whether a response can be handed on by `decode_response`.
pub fn answers_request(expected_command: u8, payload: &[u8], start: usize) -> (ok: bool)
    requires
        3 <= start + 2 <= payload@.len(),
    ensures
        ok == response_answers(expected_command, payload@, start as int),
{
    let _len = payload.len();
    if Nack::maybe_find(payload[start + 1]).is_some() {
        return true;
    }
    payload[2] == expected_command && crc16(payload) == 0
}

/// Decodes a complete response `payload` (header, command, length, content) whose
/// content starts at `start`: a negative acknowledgement in the content's second byte is
/// returned as such; otherwise the content is handed on past its first two bytes.
pub fn decode_response(expected_command: u8, payload: Vec<u8>, start: usize) -> (r: Result<
    ReceivingBuffer,
    Nack,
>)
    requires
        3 <= start + 2 <= payload@.len(),
        response_answers(expected_command, payload@, start as int),
    ensures
        nack_from_code(payload@[start + 1]) matches Some(n) ==> r == Err::<ReceivingBuffer, Nack>(n),
        nack_from_code(payload@[start + 1]) is None ==> (r matches Ok(b) && b.spec_data() == payload@
            && b.spec_pos() == start + 2),
{
    let _len = payload.len();
    if let Some(nack) = Nack::maybe_find(payload[start + 1]) {
        return Err(nack);
    }
    Ok(ReceivingBuffer::new(payload, start + 2))
}

/// An extended response answers the request `id`: its command is the extended one, its
/// content starts with `id`, and the CRC of the whole payload checks.
pub open spec fn extended_response_accepted(id: u8, payload: Seq<u8>, start: int) -> bool {
    payload[2] == EXT_PACKET_ID && payload[start] == id && crc16_xmodem(payload) == 0
}

/// Whether an extended response answers the request `id`.
pub fn extended_answers_request(id: u8, payload: &[u8], start: usize) -> (ok: bool)
    requires
        3 <= payload@.len(),
        start < payload@.len(),
    ensures
        ok == extended_response_accepted(id, payload@, start as int),
{
    payload[2] == EXT_PACKET_ID && payload[start] == id && crc16(payload) == 0
}

/// Decodes the response to the extended request `id`, whose content starts at `start`:
/// a negative acknowledgement in the content's second byte is returned as such;
/// otherwise the whole payload is handed on, read from past the echoed id and the
/// acknowledgement.
pub fn decode_raw_response(id: u8, payload: Vec<u8>, start: usize) -> (r: Result<ReceivingBuffer, Nack>)
    requires
        3 <= start + 2 <= payload@.len(),
        extended_response_accepted(id, payload@, start as int),
    ensures
        nack_from_code(payload@[start + 1]) matches Some(n) ==> r == Err::<ReceivingBuffer, Nack>(n),
        nack_from_code(payload@[start + 1]) is None ==> (r matches Ok(b) && b.spec_data() == payload@
            && b.spec_pos() == start + 2),
{
    let _len = payload.len();
    if let Some(nack) = Nack::maybe_find(payload[start + 1]) {
        return Err(nack);
    }
    Ok(ReceivingBuffer::new(payload, start + 2))
}

/// A response answers a request framed by the packet trait: for a simple request its
/// command is the request's id; for an extended one it is accepted as above.
pub open spec fn packet_response_accepted(simple: bool, id: u8, payload: Seq<u8>, start: int) -> bool {
    if simple {
        payload[2] == id
    } else {
        extended_response_accepted(id, payload, start)
    }
}

/// Whether a response answers a request framed by the packet trait.
pub fn packet_answers_request(simple: bool, id: u8, payload: &[u8], start: usize) -> (ok: bool)
    requires
        3 <= payload@.len(),
        start < payload@.len(),
    ensures
        ok == packet_response_accepted(simple, id, payload@, start as int),
{
    if simple {
        payload[2] == id
    } else {
        extended_answers_request(id, payload, start)
    }
}

/// Decodes a response to a request framed by the packet trait (see `encode_request`):
/// for a simple request the content follows the command echo; for an extended one a
/// negative acknowledgement is returned as such, and otherwise the content between the
/// acknowledgement byte and the CRC is handed on.
pub fn decode_packet_response(simple: bool, id: u8, payload: Vec<u8>, start: usize) -> (r: Result<
    ReceivingBuffer,
    Nack,
>)
    requires
        3 <= payload@.len(),
        simple ==> start + 1 <= payload@.len(),
        !simple ==> start + 4 <= payload@.len(),
        packet_response_accepted(simple, id, payload@, start as int),
    ensures
        simple ==> (r matches Ok(b) && b.spec_data() == payload@.subrange(
            start + 1,
            payload@.len() as int,
        ) && b.spec_pos() == 0),
        !simple ==> match nack_from_code(payload@[start + 1]) {
            Some(n) => r == Err::<ReceivingBuffer, Nack>(n),
            None => r matches Ok(b) && b.spec_data() == payload@.subrange(
                start + 2,
                payload@.len() - 2,
            ) && b.spec_pos() == 0,
        },
{
    let len = payload.len();
    if simple {
        let body = crate::buffer::slice_copy(payload.as_slice(), start + 1, len);
        return Ok(ReceivingBuffer::new(body, 0));
    }
    if let Some(nack) = Nack::maybe_find(payload[start + 1]) {
        return Err(nack);
    }
    let body = crate::buffer::slice_copy(payload.as_slice(), start + 2, len - 2);
    Ok(ReceivingBuffer::new(body, 0))
}

} // verus!

//! Requests and responses of the direct serial protocol: a request is built in a buffer
//! of fixed size and closed with its length and CRC; a response is checked and its data
//! located.
use vstd::prelude::*;
use vstd::slice::slice_subrange;
use vstd::string::StringSliceAdditionalSpecFns;
use crate::bytes::{encode_le, le_bytes};
use crate::checksum::{crc16, crc16_xmodem};
use crate::connection::{
    length_field, nack_from_code, packet_header, request_prefix, sealed, splice, zeros, Nack,
    EXT_PACKET_ID, RESPONSE_HEADER_FIRST, RESPONSE_HEADER_SECOND,
};

verus! {

/// The commands of the direct serial protocol.
#[derive(Copy, Clone, Debug, PartialEq, Eq, Structural)]
pub enum PacketId {
    GetSystemVersion,
    FileTransferChannel,
    FileTransferInitialize,
    FileTransferComplete,
    FileTransferWrite,
    FileTransferRead,
    SetFileTransferLink,
    GetDirectoryCount,
    GetFileMetadataByIndex,
    ExecuteProgram,
    GetFileMetadataByName,
    GetProduct,
    GetSystemStatus,
    SetProgramFileMetadata,
    DeleteFile,
    GetFileSlot,
    CopyScreenData,
    GetKernelVariable,
    SetKernelVariable,
    ManageCompetition,
}

impl PacketId {
    pub open spec fn spec_id(self) -> u8 {
        match self {
            PacketId::GetSystemVersion => 0xA4,
            PacketId::FileTransferChannel => 0x10,
            PacketId::FileTransferInitialize => 0x11,
            PacketId::FileTransferComplete => 0x12,
            PacketId::FileTransferWrite => 0x13,
            PacketId::FileTransferRead => 0x14,
            PacketId::SetFileTransferLink => 0x15,
            PacketId::GetDirectoryCount => 0x16,
            PacketId::GetFileMetadataByIndex => 0x17,
            PacketId::ExecuteProgram => 0x18,
            PacketId::GetFileMetadataByName => 0x19,
            PacketId::GetProduct => 0x21,
            PacketId::GetSystemStatus => 0x22,
            PacketId::SetProgramFileMetadata => 0x1A,
            PacketId::DeleteFile => 0x1B,
            PacketId::GetFileSlot => 0x1C,
            PacketId::CopyScreenData => 0x28,
            PacketId::GetKernelVariable => 0x2E,
            PacketId::SetKernelVariable => 0x2F,
            PacketId::ManageCompetition => 0xC1,
        }
    }

    /// The command byte.
    pub fn id(self) -> (i: u8)
        ensures
            i == self.spec_id(),
    {
        match self {
            PacketId::GetSystemVersion => 0xA4,
            PacketId::FileTransferChannel => 0x10,
            PacketId::FileTransferInitialize => 0x11,
            PacketId::FileTransferComplete => 0x12,
            PacketId::FileTransferWrite => 0x13,
            PacketId::FileTransferRead => 0x14,
            PacketId::SetFileTransferLink => 0x15,
            PacketId::GetDirectoryCount => 0x16,
            PacketId::GetFileMetadataByIndex => 0x17,
            PacketId::ExecuteProgram => 0x18,
            PacketId::GetFileMetadataByName => 0x19,
            PacketId::GetProduct => 0x21,
            PacketId::GetSystemStatus => 0x22,
            PacketId::SetProgramFileMetadata => 0x1A,
            PacketId::DeleteFile => 0x1B,
            PacketId::GetFileSlot => 0x1C,
            PacketId::CopyScreenData => 0x28,
            PacketId::GetKernelVariable => 0x2E,
            PacketId::SetKernelVariable => 0x2F,
            PacketId::ManageCompetition => 0xC1,
        }
    }
}

/// A response: its command, the whole payload as received (header included) and the
/// bounds of its data.
pub struct PacketResponse {
    command: u8,
    payload: Vec<u8>,
    data_start: usize,
    data_end: usize,
}

impl PacketResponse {
    pub closed spec fn spec_command(&self) -> u8 {
        self.command
    }

    pub closed spec fn spec_payload(&self) -> Seq<u8> {
        self.payload@
    }

    pub closed spec fn spec_data_start(&self) -> int {
        self.data_start as int
    }

    pub closed spec fn spec_data_end(&self) -> int {
        self.data_end as int
    }

    /// The data lies within the payload.
    pub open spec fn data_in_bounds(&self) -> bool {
        0 <= self.spec_data_start() <= self.spec_data_end() <= self.spec_payload().len()
    }

    pub fn get_command(&self) -> (c: u8)
        ensures
            c == self.spec_command(),
    {
        self.command
    }

    pub fn get_full_payload(&self) -> (p: &[u8])
        ensures
            p@ == self.spec_payload(),
    {
        self.payload.as_slice()
    }

    /// The data of the response: the payload between its start and end.
    pub fn get_data(&self) -> (d: &[u8])
        requires
            self.data_in_bounds(),
        ensures
            d@ == self.spec_payload().subrange(self.spec_data_start(), self.spec_data_end()),
    {
        slice_subrange(self.payload.as_slice(), self.data_start, self.data_end)
    }

    /// The data of the response where it lies within the payload; else `None`.
    pub fn try_get_data(&self) -> (d: Option<&[u8]>)
        ensures
            self.data_in_bounds() ==> (d matches Some(d) && d@ == self.spec_payload().subrange(
                self.spec_data_start(),
                self.spec_data_end(),
            )),
            !self.data_in_bounds() ==> d is None,
    {
        if self.data_start <= self.data_end && self.data_end <= self.payload.len() {
            Some(self.get_data())
        } else {
            None
        }
    }
}

/// The direct serial protocol's search for a response header, one byte at a time: after
/// the first header byte, the next byte either completes the header or is dropped, and
/// the search starts over with the byte after it.
pub open spec fn direct_header_step(state: nat, byte: u8) -> nat {
    if state == 0 {
        if byte == RESPONSE_HEADER_FIRST { 1 } else { 0 }
    } else if byte == RESPONSE_HEADER_SECOND {
        2
    } else {
        0
    }
}

/// A search for the response header of the direct serial protocol.
pub struct DirectHeaderSearch {
    state: u8,
}

impl DirectHeaderSearch {
    /// How far the search has come: 0 at the start, 1 after a first header byte, 2 once
    /// the header has been seen.
    pub closed spec fn spec_state(&self) -> nat {
        self.state as nat
    }

    pub fn new() -> (s: DirectHeaderSearch)
        ensures
            s.spec_state() == 0,
    {
        DirectHeaderSearch { state: 0 }
    }

    /// Takes the next byte read; true once the header has been seen.
    pub fn step(&mut self, byte: u8) -> (found: bool)
        requires
            old(self).spec_state() < 2,
        ensures
            final(self).spec_state() == direct_header_step(old(self).spec_state(), byte),
            found == (final(self).spec_state() == 2),
    {
        if self.state == 0 {
            self.state = if byte == RESPONSE_HEADER_FIRST { 1 } else { 0 };
        } else if byte == RESPONSE_HEADER_SECOND {
            self.state = 2;
        } else {
            self.state = 0;
        }
        self.state == 2
    }
}

/// Where the content of a response starts: after a second length byte when the command
/// is the extended one and the first length byte has bit 7 set.
pub open spec fn response_content_start(payload: Seq<u8>) -> int {
    if payload[2] == EXT_PACKET_ID && payload[3] >= 0x80 {
        5
    } else {
        4
    }
}

/// A complete response (0xAA 0x55, command, length, content) answers the request
/// `sent_command`: the command is the extended one, the content starts with
/// `sent_command`, and the CRC of the whole payload is zero.
pub open spec fn direct_response_accepted(sent_command: u8, payload: Seq<u8>) -> bool {
    &&& payload[2] == EXT_PACKET_ID
    &&& payload[response_content_start(payload)] == sent_command
    &&& crc16_xmodem(payload) == 0
}

/// Whether a complete response answers the request `sent_command`.
pub fn direct_answers_request(sent_command: u8, payload: &[u8]) -> (ok: bool)
    requires
        payload@.len() >= 4,
        payload@.len() >= response_content_start(payload@) + 2,
    ensures
        ok == direct_response_accepted(sent_command, payload@),
{
    let start: usize = if payload[2] == EXT_PACKET_ID && payload[3] >= 0x80 {
        5
    } else {
        4
    };
    payload[2] == EXT_PACKET_ID && payload[start] == sent_command && crc16(payload) == 0
}

/// Decodes a complete response to the request `sent_command`. A negative acknowledgement
/// in the content's second byte is returned as such; otherwise the data runs from after
/// that byte to before the CRC.
pub fn decode_response(sent_command: u8, payload: Vec<u8>) -> (r: Result<PacketResponse, Nack>)
    requires
        payload@.len() >= 4,
        payload@.len() >= response_content_start(payload@) + 2,
        direct_response_accepted(sent_command, payload@),
    ensures
        match nack_from_code(payload@[response_content_start(payload@) + 1]) {
            Some(n) => r == Err::<PacketResponse, Nack>(n),
            None => r matches Ok(p) && p.spec_command() == EXT_PACKET_ID && p.spec_payload()
                == payload@ && p.spec_data_start() == response_content_start(payload@) + 2
                && p.spec_data_end() == payload@.len() - 2,
        },
{
    let len = payload.len();
    let start: usize = if payload[2] == EXT_PACKET_ID && payload[3] >= 0x80 {
        5
    } else {
        4
    };
    let command = payload[2];
    if let Some(nack) = Nack::maybe_find(payload[start + 1]) {
        return Err(nack);
    }
    Ok(PacketResponse { command, payload, data_start: start + 2, data_end: len - 2 })
}

/// The layout of a fresh request: header, extended command byte, command, a length
/// field of one byte (two for more than 0x80 bytes of content), then zeroed content and
/// CRC.
pub open spec fn request_layout(id: u8, data_len: nat) -> Seq<u8> {
    packet_header() + seq![EXT_PACKET_ID, id] + zeros(
        if data_len > 0x80 {
            2
        } else {
            1
        },
    ) + zeros(data_len + 2)
}

/// The request bytes with the length field filled in: one byte below 0x80, else the
/// high byte with bit 7 set and the low byte. A content of exactly 0x80 bytes has room
/// for one length byte only, so its second length byte lands on the first content byte.
pub open spec fn with_length(data: Seq<u8>, data_len: u16) -> Seq<u8> {
    if data_len < 0x80 {
        data.update(6, data_len as u8)
    } else {
        data.update(6, ((data_len >> 8u16) | 0x80u16) as u8).update(7, (data_len & 0xffu16) as u8)
    }
}

/// A request being filled in, in a buffer sized for its announced content.
pub struct Packet {
    data_len: u16,
    pos: usize,
    data: Vec<u8>,
}

impl Packet {
    pub closed spec fn spec_data(&self) -> Seq<u8> {
        self.data@
    }

    pub closed spec fn spec_pos(&self) -> nat {
        self.pos as nat
    }

    pub closed spec fn spec_data_len(&self) -> u16 {
        self.data_len
    }

    /// `next` has `bytes` written at the old position and the position moved past them.
    pub open spec fn wrote(&self, next: Self, bytes: Seq<u8>) -> bool {
        &&& next.spec_data() == splice(self.spec_data(), self.spec_pos() as int, bytes)
        &&& next.spec_pos() == self.spec_pos() + bytes.len()
        &&& next.spec_data_len() == self.spec_data_len()
    }

    /// There is room for `n` more bytes.
    pub open spec fn has_room(&self, n: nat) -> bool {
        self.spec_pos() + n <= self.spec_data().len()
    }

    /// Starts a request for command `id` with `data_len` bytes of content.
    pub fn create(id: PacketId, data_len: usize) -> (p: Packet)
        requires
            data_len < u16::MAX,
        ensures
            p.spec_data() == request_layout(id.spec_id(), data_len as nat),
            p.spec_pos() == if data_len > 0x80 {
                8nat
            } else {
                7nat
            },
            p.spec_data_len() == data_len,
    {
        let field: usize = if data_len > 0x80 { 2 } else { 1 };
        let mut data: Vec<u8> = vec![0u8; 4 + 1 + 1 + field + data_len + 2];
        data.set(0, 0xC9);
        data.set(1, 0x36);
        data.set(2, 0xB8);
        data.set(3, 0x47);
        data.set(4, EXT_PACKET_ID);
        data.set(5, id.id());
        let p = Packet { data_len: data_len as u16, pos: 6 + field, data };
        proof {
            assert(p.spec_data() =~= request_layout(id.spec_id(), data_len as nat));
        }
        p
    }

    /// Writes `slice` at the position and moves past it.
    pub fn write(&mut self, slice: &[u8])
        requires
            old(self).has_room(slice@.len()),
        ensures
            old(self).wrote(*final(self), slice@),
    {
        let n = slice.len();
        let _len = self.data.len();
        let mut i: usize = 0;
        while i < n
            invariant
                n == slice@.len(),
                i <= n,
                self.pos + n <= self.data@.len(),
                _len == self.data@.len() == old(self).data@.len(),
                self.pos == old(self).pos,
                self.data_len == old(self).data_len,
                forall|j: int|
                    0 <= j < self.data@.len() ==> #[trigger] self.data@[j] == if self.pos <= j
                        < self.pos + i {
                        slice@[j - self.pos]
                    } else {
                        old(self).data@[j]
                    },
            decreases n - i,
        {
            let b = slice[i];
            let at = self.pos + i;
            self.data.set(at, b);
            i = i + 1;
        }
        proof {
            assert(self.data@ =~= splice(old(self).data@, old(self).pos as int, slice@));
        }
        self.pos = self.pos + n;
    }

    fn write_le(&mut self, value: u128, n: usize)
        requires
            n <= 16,
            old(self).has_room(n as nat),
        ensures
            old(self).wrote(*final(self), le_bytes(value as nat, n as nat)),
    {
        let bytes = encode_le(value, n);
        self.write(bytes.as_slice());
    }

    pub fn write_u8(&mut self, value: u8)
        requires
            old(self).has_room(1),
        ensures
            old(self).wrote(*final(self), seq![value]),
    {
        self.write_le(value as u128, 1);
        proof {
            reveal_with_fuel(le_bytes, 2);
            assert(le_bytes(value as nat, 1) =~= seq![value]);
        }
    }

    pub fn write_i8(&mut self, value: i8)
        requires
            old(self).has_room(1),
        ensures
            old(self).wrote(*final(self), le_bytes((value as u8) as nat, 1)),
    {
        self.write_le((value as u8) as u128, 1);
    }

    pub fn write_u16(&mut self, value: u16)
        requires
            old(self).has_room(2),
        ensures
            old(self).wrote(*final(self), le_bytes(value as nat, 2)),
    {
        self.write_le(value as u128, 2);
    }

    pub fn write_i16(&mut self, value: i16)
        requires
            old(self).has_room(2),
        ensures
            old(self).wrote(*final(self), le_bytes((value as u16) as nat, 2)),
    {
        self.write_le((value as u16) as u128, 2);
    }

    pub fn write_u32(&mut self, value: u32)
        requires
            old(self).has_room(4),
        ensures
            old(self).wrote(*final(self), le_bytes(value as nat, 4)),
    {
        self.write_le(value as u128, 4);
    }

    pub fn write_i32(&mut self, value: i32)
        requires
            old(self).has_room(4),
        ensures
            old(self).wrote(*final(self), le_bytes((value as u32) as nat, 4)),
    {
        self.write_le((value as u32) as u128, 4);
    }

    pub fn write_u64(&mut self, value: u64)
        requires
            old(self).has_room(8),
        ensures
            old(self).wrote(*final(self), le_bytes(value as nat, 8)),
    {
        self.write_le(value as u128, 8);
    }

    pub fn write_i64(&mut self, value: i64)
        requires
            old(self).has_room(8),
        ensures
            old(self).wrote(*final(self), le_bytes((value as u64) as nat, 8)),
    {
        self.write_le((value as u64) as u128, 8);
    }

    pub fn write_u128(&mut self, value: u128)
        requires
            old(self).has_room(16),
        ensures
            old(self).wrote(*final(self), le_bytes(value as nat, 16)),
    {
        self.write_le(value, 16);
    }

    pub fn write_i128(&mut self, value: i128)
        requires
            old(self).has_room(16),
        ensures
            old(self).wrote(*final(self), le_bytes((value as u128) as nat, 16)),
    {
        self.write_le(value as u128, 16);
    }

    /// Writes an ASCII text without NUL bytes, shorter than `target_len`, and a NUL after
    /// it.
    pub fn write_str(&mut self, string: &str, target_len: u16)
        requires
            vstd::string::is_ascii(string),
            !string@.contains('\0'),
            string@.len() < target_len,
            old(self).has_room(string@.len() + 1),
        ensures
            old(self).wrote(*final(self), string.spec_bytes().push(0u8)),
    {
        proof {
            vstd::string::is_ascii_spec_bytes(string);
        }
        let bytes = string.as_bytes();
        let ghost before = *self;
        self.write(bytes);
        self.write_u8(0);
        proof {
            let s = string.spec_bytes();
            assert(splice(splice(before.spec_data(), before.spec_pos() as int, s), (before.spec_pos() + s.len()) as int, seq![0u8])
                =~= splice(before.spec_data(), before.spec_pos() as int, s.push(0u8)));
        }
    }

    /// Writes a text as `write_str` does, then zeros to the end of a field of
    /// `target_len` bytes.
    pub fn write_padded_str(&mut self, string: &str, target_len: u16)
        requires
            vstd::string::is_ascii(string),
            !string@.contains('\0'),
            string@.len() < target_len,
            old(self).has_room(target_len as nat),
        ensures
            old(self).wrote(
                *final(self),
                string.spec_bytes().push(0u8) + zeros((target_len - 1 - string@.len()) as nat),
            ),
    {
        proof {
            vstd::string::is_ascii_spec_bytes(string);
        }
        let ghost before = *self;
        self.write_str(string, target_len);
        let n = string.unicode_len();
        let ghost mid = *self;
        self.pad(target_len - 1 - n as u16);
        proof {
            let s = string.spec_bytes().push(0u8);
            let z = zeros((target_len - 1 - string@.len()) as nat);
            assert(splice(splice(before.spec_data(), before.spec_pos() as int, s), (before.spec_pos() + s.len()) as int, z)
                =~= splice(before.spec_data(), before.spec_pos() as int, s + z));
        }
    }

    /// Writes `amount` zero bytes.
    pub fn pad(&mut self, amount: u16)
        requires
            old(self).has_room(amount as nat),
        ensures
            old(self).wrote(*final(self), zeros(amount as nat)),
    {
        let _len = self.data.len();
        let mut x: u16 = 0;
        while x < amount
            invariant
                x <= amount,
                self.pos + amount <= self.data@.len(),
                _len == self.data@.len() == old(self).data@.len(),
                self.pos == old(self).pos,
                self.data_len == old(self).data_len,
                forall|j: int|
                    0 <= j < self.data@.len() ==> #[trigger] self.data@[j] == if self.pos <= j
                        < self.pos + x {
                        0u8
                    } else {
                        old(self).data@[j]
                    },
            decreases amount - x,
        {
            let at = self.pos + x as usize;
            self.data.set(at, 0);
            x = x + 1;
        }
        proof {
            assert(self.data@ =~= splice(old(self).data@, old(self).pos as int, zeros(amount as nat)));
        }
        self.pos = self.pos + amount as usize;
    }

    /// Closes the request once its content is written: fills in the length field, then
    /// writes the CRC-16/XMODEM of everything before the position, high byte first, and
    /// hands back the frame to send.
    pub fn finish(self) -> (frame: Vec<u8>)
        requires
            self.spec_data().len() >= 8,
            self.spec_pos() + 2 == self.spec_data().len(),
        ensures
            frame@ == sealed(
                with_length(self.spec_data(), self.spec_data_len()).take(self.spec_pos() as int),
            ),
            crc16_xmodem(frame@) == 0,
    {
        let mut this = self;
        let _len = this.data.len();
        let data_len = this.data_len;
        if data_len < 0x80 {
            this.data.set(6, data_len as u8);
        } else {
            this.data.set(6, ((data_len >> 8) | 0x80) as u8);
            this.data.set(7, (data_len & 0xff) as u8);
        }
        let ghost filled = this.data@;
        assert(filled == with_length(self.spec_data(), self.spec_data_len()));
        let body = crate::buffer::slice_copy(this.data.as_slice(), 0, this.pos);
        let crc = crc16(body.as_slice());
        let at = this.pos;
        this.data.set(at, (crc / 256) as u8);
        this.data.set(at + 1, (crc % 256) as u8);
        proof {
            assert(this.data@ =~= sealed(filled.take(self.spec_pos() as int)));
        }
        this.data
    }
}

/// Where the content of a request with `n` bytes of content starts.
pub open spec fn content_start(n: nat) -> nat {
    if n > 0x80 {
        8
    } else {
        7
    }
}

/// The frame of a request for command `id` with `content`, as `create`, the writes of
/// the content and `finish` make it.
pub open spec fn request_frame(id: u8, content: Seq<u8>) -> Seq<u8> {
    let n = content.len();
    let filled = splice(request_layout(id, n), content_start(n) as int, content);
    sealed(with_length(filled, n as u16).take((content_start(n) + n) as int))
}

/// The frame of a request for command `id` with `content`.
pub fn frame_of(id: PacketId, content: &[u8]) -> (frame: Vec<u8>)
    requires
        content@.len() < u16::MAX,
    ensures
        frame@ == request_frame(id.spec_id(), content@),
        crc16_xmodem(frame@) == 0,
{
    let mut packet = Packet::create(id, content.len());
    packet.write(content);
    packet.finish()
}

/// Apart from a content of exactly 0x80 bytes, a request frames as the extended requests
/// of the connection layer do: header, extended command, command, a length field of one
/// byte below 0x80 and two (high byte first, bit 7 set) from there on, the content and
/// the CRC.
pub proof fn lemma_request_frame_agrees(id: u8, content: Seq<u8>)
    requires
        content.len() < 0x8000,
        content.len() != 0x80,
    ensures
        request_frame(id, content) == sealed(request_prefix(id, content.len()) + content),
{
    let n = content.len();
    let filled = splice(request_layout(id, n), content_start(n) as int, content);
    let body = with_length(filled, n as u16).take((content_start(n) + n) as int);
    if n > 0x80 {
        let d = n as u16;
        assert(((d >> 8u16) | 0x80u16) as u8 == (d / 256 + 0x80) as u8 && (d & 0xffu16) as u8 == (d
            % 256) as u8) by (bit_vector)
            requires
                0x80 < d < 0x8000,
        ;
    }
    assert(body =~= request_prefix(id, n) + content);
}

/// A length that needs two bytes reads back from the two bytes `finish` writes, the
/// first taken without its bit 7 as the high byte.
pub proof fn lemma_length_bytes_roundtrip(data_len: u16)
    requires
        0x80 <= data_len < 0x8000,
    ensures
        ((((data_len >> 8u16) | 0x80u16) as u8) as nat % 128) * 256 + ((data_len & 0xffu16) as u8) as nat
            == data_len as nat,
{
    assert(((((data_len >> 8u16) | 0x80u16) as u8) as nat % 128) * 256 + ((data_len & 0xffu16) as u8) as nat
        == data_len as nat) by (bit_vector)
        requires
            0x80 <= data_len < 0x8000,
    ;
}

} // verus!

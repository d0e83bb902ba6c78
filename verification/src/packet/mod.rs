//! Commands as values: each knows its id, its content and how to read its answer, and
//! `encode_request` frames any of them.
use vstd::prelude::*;
use vstd::string::StringSliceAdditionalSpecFns;
use crate::bytes::{be16, encode_le, le_bytes};
use crate::checksum::{crc16, crc16_xmodem};
use crate::connection::{packet_header, request_prefix, sealed, zeros, EXT_PACKET_ID};

pub mod competition;
pub mod filesystem;
pub mod system;

verus! {

/// Appends a byte.
pub fn append_u8(buffer: &mut Vec<u8>, value: u8)
    ensures
        final(buffer)@ == old(buffer)@ + seq![value],
{
    buffer.push(value);
    proof {
        assert(final(buffer)@ =~= old(buffer)@ + seq![value]);
    }
}

/// Appends the `n` little-endian bytes of `value`.
pub fn append_le(buffer: &mut Vec<u8>, value: u128, n: usize)
    requires
        n <= 16,
    ensures
        final(buffer)@ == old(buffer)@ + le_bytes(value as nat, n as nat),
{
    let bytes = encode_le(value, n);
    append_raw(buffer, bytes.as_slice());
}

/// Appends a slice.
pub fn append_raw(buffer: &mut Vec<u8>, slice: &[u8])
    ensures
        final(buffer)@ == old(buffer)@ + slice@,
{
    let n = slice.len();
    let mut i: usize = 0;
    while i < n
        invariant
            i <= n == slice@.len(),
            buffer@ == old(buffer)@ + slice@.subrange(0, i as int),
        decreases n - i,
    {
        buffer.push(slice[i]);
        i = i + 1;
        assert(buffer@ =~= old(buffer)@ + slice@.subrange(0, i as int));
    }
    assert(slice@.subrange(0, n as int) =~= slice@);
}

/// Appends `n` zero bytes.
pub fn append_zeros(buffer: &mut Vec<u8>, n: usize)
    ensures
        final(buffer)@ == old(buffer)@ + zeros(n as nat),
{
    let mut i: usize = 0;
    while i < n
        invariant
            i <= n,
            buffer@ == old(buffer)@ + zeros(i as nat),
        decreases n - i,
    {
        buffer.push(0);
        i = i + 1;
        assert(buffer@ =~= old(buffer)@ + zeros(i as nat));
    }
}

/// Appends a string in a field of `target_len` bytes: its bytes, then zeros.
pub fn append_str(buffer: &mut Vec<u8>, string: &str, target_len: usize)
    requires
        string.spec_bytes().len() < target_len,
    ensures
        final(buffer)@ == old(buffer)@ + crate::connection::str_field(
            string.spec_bytes(),
            target_len as nat,
        ),
{
    let bytes = string.as_bytes();
    append_raw(buffer, bytes);
    append_zeros(buffer, target_len - bytes.len());
    proof {
        assert(final(buffer)@ =~= old(buffer)@ + crate::connection::str_field(
            string.spec_bytes(),
            target_len as nat,
        ));
    }
}

/// The commands a value of the `Packet` trait stands for: a plain numbered one, or one
/// given by id with the size of its content.
#[derive(Copy, Clone, Debug, PartialEq, Eq, Structural)]
pub enum PacketType {
    One,
    Custom { id: u8, size: u16 },
}

impl PacketType {
    pub open spec fn spec_id(self) -> u8 {
        match self {
            PacketType::One => 1,
            PacketType::Custom { id, .. } => id,
        }
    }

    pub fn get_id(&self) -> (id: u8)
        ensures
            id == self.spec_id(),
    {
        match self {
            PacketType::One => 1,
            PacketType::Custom { id, .. } => *id,
        }
    }
}

impl From<PacketType> for u8 {
    fn from(val: PacketType) -> (id: u8) {
        val.get_id()
    }
}

impl vstd::std_specs::convert::FromSpecImpl<PacketType> for u8 {
    open spec fn obeys_from_spec() -> bool {
        true
    }

    open spec fn from_spec(v: PacketType) -> u8 {
        v.spec_id()
    }
}

/// A command: its id, whether it is simple (sent as header and id alone), the content
/// length it announces and the content it writes.
pub trait Packet {
    spec fn spec_id(&self) -> u8;

    spec fn spec_is_simple(&self) -> bool;

    spec fn spec_send_len(&self) -> nat;

    spec fn payload(&self) -> Seq<u8>;

    /// The command can be written: its strings fit their fields.
    spec fn writable(&self) -> bool;

    fn id(&self) -> (id: u8)
        ensures
            id == self.spec_id(),
    ;

    fn is_simple(&self) -> (simple: bool)
        ensures
            simple == self.spec_is_simple(),
    ;

    fn send_len(&self) -> (n: usize)
        ensures
            n == self.spec_send_len(),
    ;

    fn write_buffer(&self, buffer: &mut Vec<u8>)
        requires
            self.writable(),
        ensures
            final(buffer)@ == old(buffer)@ + self.payload(),
    ;
}

/// The length field as the packet trait's framing writes it: one byte below 0x80, else
/// `(len >> 8 | 0x80)` and `len & 0xff`, each cut to a byte.
pub open spec fn trait_length_field(len: nat) -> Seq<u8> {
    if len < 0x80 {
        seq![len as u8]
    } else {
        seq![((len / 256) % 256) as u8 | 0x80u8, (len % 256) as u8]
    }
}

/// The bytes the packet trait's framing sends for a command.
pub open spec fn framed<P: Packet>(packet: P) -> Seq<u8> {
    if packet.spec_is_simple() {
        packet_header() + seq![packet.spec_id()]
    } else {
        let body = packet_header() + seq![EXT_PACKET_ID, packet.spec_id()] + trait_length_field(
            packet.spec_send_len(),
        ) + packet.payload();
        body + be16(crc16_xmodem(body))
    }
}

/// Frames a command: a simple one as header and id; an extended one as header,
/// extended id, id, length field, content and the CRC-16/XMODEM of all that, high byte
/// first.
pub fn encode_request<P: Packet>(packet: &P) -> (frame: Vec<u8>)
    requires
        packet.writable(),
    ensures
        frame@ == framed(*packet),
        !packet.spec_is_simple() ==> crc16_xmodem(frame@) == 0,
{
    let mut buffer: Vec<u8> = Vec::new();
    append_u8(&mut buffer, 0xC9);
    append_u8(&mut buffer, 0x36);
    append_u8(&mut buffer, 0xB8);
    append_u8(&mut buffer, 0x47);
    let id = packet.id();
    if packet.is_simple() {
        append_u8(&mut buffer, id);
        proof {
            assert(buffer@ =~= framed(*packet));
        }
        return buffer;
    }
    append_u8(&mut buffer, EXT_PACKET_ID);
    append_u8(&mut buffer, id);
    let len = packet.send_len();
    if len < 0x80 {
        append_u8(&mut buffer, len as u8);
    } else {
        append_u8(&mut buffer, ((len / 256) % 256) as u8 | 0x80);
        append_u8(&mut buffer, (len % 256) as u8);
    }
    packet.write_buffer(&mut buffer);
    let crc = crc16(buffer.as_slice());
    let ghost body = buffer@;
    append_u8(&mut buffer, (crc / 256) as u8);
    append_u8(&mut buffer, (crc % 256) as u8);
    proof {
        assert(body =~= packet_header() + seq![EXT_PACKET_ID, packet.spec_id()]
            + trait_length_field(packet.spec_send_len()) + packet.payload());
        assert(buffer@ =~= framed(*packet));
        assert(buffer@ =~= body + be16(crc));
    }
    buffer
}

/// For a content length below 0x8000 the trait's length field is the request length
/// field, so the brain reads the announced length back.
pub proof fn lemma_trait_length_field(len: nat)
    requires
        len < 0x8000,
    ensures
        trait_length_field(len) == crate::connection::length_field(len),
{
    if len >= 0x80 {
        let hi = ((len / 256) % 256) as u8;
        assert(hi < 0x80);
        assert(hi | 0x80u8 == (hi + 0x80) as u8) by (bit_vector)
            requires
                hi < 0x80u8,
        ;
    }
}

/// An extended command value frames as the request that the connection layer builds for
/// its id, its announced length and its content: the two ways of sending a command
/// put the same bytes on the wire.
pub proof fn lemma_framed_is_sealed_request<P: Packet>(packet: P)
    requires
        !packet.spec_is_simple(),
        packet.spec_send_len() < 0x8000,
    ensures
        framed(packet) == sealed(
            request_prefix(packet.spec_id(), packet.spec_send_len()) + packet.payload(),
        ),
{
    lemma_trait_length_field(packet.spec_send_len());
    let body = packet_header() + seq![EXT_PACKET_ID, packet.spec_id()] + trait_length_field(
        packet.spec_send_len(),
    ) + packet.payload();
    assert(body =~= request_prefix(packet.spec_id(), packet.spec_send_len()) + packet.payload());
}

} // verus!

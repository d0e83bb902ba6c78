//! File system commands as values.
use vstd::prelude::*;
use vstd::string::StringSliceAdditionalSpecFns;
use crate::buffer::ReceivingBuffer;
use crate::bytes::{le_bytes, le_value};
use crate::connection::{str_field, zeros};
use crate::packet::{append_le, append_raw, append_str, append_u8, append_zeros, Packet};

pub use crate::brain::filesystem::{
    padding, parse_metadata, parse_upload_parameters, vid_of, FileMetadata, FileType,
    TransferDirection, TransferTarget, UploadAction, UploadParameters, Vid,
};
pub use crate::brain::system::{Channel, JAN_01_2000};

verus! {

/// Selects the channel of a transfer (0x10): 1, then the channel.
#[derive(Debug)]
pub struct FileTransferChannel {
    channel: Channel,
}

impl FileTransferChannel {
    pub closed spec fn spec_channel(&self) -> Channel {
        self.channel
    }

    pub fn new(channel: Channel) -> (p: FileTransferChannel)
        ensures
            p.spec_channel() == channel,
    {
        FileTransferChannel { channel }
    }

    /// The answer carries nothing.
    pub fn read_response(&self, _buffer: &mut ReceivingBuffer, _len: usize) {
    }
}

impl Packet for FileTransferChannel {
    open spec fn spec_id(&self) -> u8 {
        0x10
    }

    open spec fn spec_is_simple(&self) -> bool {
        false
    }

    open spec fn spec_send_len(&self) -> nat {
        2
    }

    open spec fn payload(&self) -> Seq<u8> {
        seq![1u8, self.spec_channel().spec_id()]
    }

    open spec fn writable(&self) -> bool {
        true
    }

    fn id(&self) -> u8 {
        0x10
    }

    fn is_simple(&self) -> bool {
        false
    }

    fn send_len(&self) -> (n: usize)
        ensures
            self.writable() ==> n == self.payload().len(),
    {
        2
    }

    fn write_buffer(&self, buffer: &mut Vec<u8>) {
        append_u8(buffer, 1);
        append_u8(buffer, u8::from(self.channel));
        assert(buffer@ =~= old(buffer)@ + self.payload());
    }
}

/// Starts a file transfer (0x11). The timestamp is in seconds since the UNIX epoch and
/// goes out as a brain timestamp.
#[derive(Debug)]
pub struct FileTransferInitialize<'a> {
    direction: TransferDirection,
    target: TransferTarget,
    vid: Vid,
    overwrite: bool,
    length: u32,
    address: u32,
    crc: u32,
    version: u32,
    file_type: FileType,
    name: &'a str,
    timestamp: u64,
}

/// The settings of a transfer request, as plain values.
pub ghost struct TransferSettings {
    pub direction: TransferDirection,
    pub target: TransferTarget,
    pub vid: Vid,
    pub overwrite: bool,
    pub length: u32,
    pub address: u32,
    pub crc: u32,
    pub version: u32,
    pub file_type: FileType,
    pub name: Seq<u8>,
    pub timestamp: u64,
}

impl<'a> FileTransferInitialize<'a> {
    pub closed spec fn spec_settings(&self) -> TransferSettings {
        TransferSettings {
            direction: self.direction,
            target: self.target,
            vid: self.vid,
            overwrite: self.overwrite,
            length: self.length,
            address: self.address,
            crc: self.crc,
            version: self.version,
            file_type: self.file_type,
            name: self.name.spec_bytes(),
            timestamp: self.timestamp,
        }
    }

    pub fn new(
        direction: TransferDirection,
        target: TransferTarget,
        vid: Vid,
        overwrite: bool,
        length: u32,
        address: u32,
        crc: u32,
        version: u32,
        file_type: FileType,
        name: &'a str,
        timestamp: u64,
    ) -> (p: FileTransferInitialize<'a>)
        ensures
            p.spec_settings() == (TransferSettings {
                direction,
                target,
                vid,
                overwrite,
                length,
                address,
                crc,
                version,
                file_type,
                name: name.spec_bytes(),
                timestamp,
            }),
    {
        FileTransferInitialize {
            direction,
            target,
            vid,
            overwrite,
            length,
            address,
            crc,
            version,
            file_type,
            name,
            timestamp,
        }
    }

    /// Reads what the brain says about the transfer (see `parse_upload_parameters`).
    pub fn read_response(&self, buffer: &mut ReceivingBuffer, _len: usize) -> (u: UploadParameters)
        requires
            old(buffer).can_read(10),
        ensures
            u.max_packet_size == le_value(old(buffer).window(10).subrange(0, 2)),
            u.file_size == le_value(old(buffer).window(10).subrange(2, 6)),
            u.crc == le_value(old(buffer).window(10).subrange(6, 10)),
    {
        parse_upload_parameters(buffer)
    }
}

impl<'a> Packet for FileTransferInitialize<'a> {
    open spec fn spec_id(&self) -> u8 {
        0x11
    }

    open spec fn spec_is_simple(&self) -> bool {
        false
    }

    open spec fn spec_send_len(&self) -> nat {
        52
    }

    open spec fn payload(&self) -> Seq<u8> {
        seq![
            self.spec_settings().direction.spec_id(),
            self.spec_settings().target.spec_id(),
            self.spec_settings().vid.spec_id(),
            if self.spec_settings().overwrite { 1u8 } else { 0u8 },
        ] + le_bytes(self.spec_settings().length as nat, 4) + le_bytes(
            self.spec_settings().address as nat,
            4,
        ) + le_bytes(self.spec_settings().crc as nat, 4) + str_field(
            self.spec_settings().file_type.spec_name_bytes(),
            4,
        ) + le_bytes((self.spec_settings().timestamp - JAN_01_2000) as nat, 4) + le_bytes(
            self.spec_settings().version as nat,
            4,
        ) + str_field(self.spec_settings().name, 24)
    }

    open spec fn writable(&self) -> bool {
        self.spec_settings().name.len() < 24 && JAN_01_2000 <= self.spec_settings().timestamp
            <= JAN_01_2000 + u32::MAX
    }

    fn id(&self) -> u8 {
        0x11
    }

    fn is_simple(&self) -> bool {
        false
    }

    fn send_len(&self) -> (n: usize)
        ensures
            self.writable() ==> n == self.payload().len(),
    {
        proof {
            crate::bytes::lemma_le_bytes_len(self.spec_settings().length as nat, 4);
            crate::bytes::lemma_le_bytes_len(self.spec_settings().address as nat, 4);
            crate::bytes::lemma_le_bytes_len(self.spec_settings().crc as nat, 4);
            crate::bytes::lemma_le_bytes_len((self.spec_settings().timestamp - JAN_01_2000) as nat, 4);
            crate::bytes::lemma_le_bytes_len(self.spec_settings().version as nat, 4);
        }
        52
    }

    fn write_buffer(&self, buffer: &mut Vec<u8>) {
        append_u8(buffer, u8::from(self.direction));
        append_u8(buffer, u8::from(self.target));
        append_u8(buffer, self.vid.id());
        append_u8(buffer, if self.overwrite { 1 } else { 0 });
        append_le(buffer, self.length as u128, 4);
        append_le(buffer, self.address as u128, 4);
        append_le(buffer, self.crc as u128, 4);
        append_str(buffer, self.file_type.get_name(), 4);
        let t = crate::brain::system::convert_to_vex_timestamp(self.timestamp);
        append_le(buffer, t as u128, 4);
        append_le(buffer, self.version as u128, 4);
        append_str(buffer, self.name, 24);
        assert(buffer@ =~= old(buffer)@ + self.payload());
    }
}

/// Completes a transfer (0x12) and says what the brain does next.
#[derive(Debug)]
pub struct FileTransferComplete {
    upload_action: UploadAction,
}

impl FileTransferComplete {
    pub closed spec fn spec_action(&self) -> UploadAction {
        self.upload_action
    }

    pub fn new(upload_action: UploadAction) -> (p: FileTransferComplete)
        ensures
            p.spec_action() == upload_action,
    {
        FileTransferComplete { upload_action }
    }

    /// The answer carries nothing.
    pub fn read_response(&self, _buffer: &mut ReceivingBuffer, _len: usize) {
    }
}

impl Packet for FileTransferComplete {
    open spec fn spec_id(&self) -> u8 {
        0x12
    }

    open spec fn spec_is_simple(&self) -> bool {
        false
    }

    open spec fn spec_send_len(&self) -> nat {
        1
    }

    open spec fn payload(&self) -> Seq<u8> {
        seq![self.spec_action().spec_id()]
    }

    open spec fn writable(&self) -> bool {
        true
    }

    fn id(&self) -> u8 {
        0x12
    }

    fn is_simple(&self) -> bool {
        false
    }

    fn send_len(&self) -> (n: usize)
        ensures
            self.writable() ==> n == self.payload().len(),
    {
        1
    }

    fn write_buffer(&self, buffer: &mut Vec<u8>) {
        append_u8(buffer, u8::from(self.upload_action));
        assert(buffer@ =~= old(buffer)@ + self.payload());
    }
}

/// Writes a chunk of the file at an address (0x13): the address, the chunk, then zeros
/// to a multiple of four bytes.
pub struct FileTransferWrite<'a> {
    slice: &'a [u8],
    address: u32,
}

impl<'a> FileTransferWrite<'a> {
    /// The request's content length fits a `usize`.
    #[verifier::type_invariant]
    spec fn fits(&self) -> bool {
        self.slice@.len() + 8 <= usize::MAX
    }

    pub closed spec fn spec_fields(&self) -> (Seq<u8>, u32) {
        (self.slice@, self.address)
    }

    pub fn new(slice: &'a [u8], address: u32) -> (p: FileTransferWrite<'a>)
        requires
            slice@.len() + 8 <= usize::MAX,
        ensures
            p.spec_fields() == (slice@, address),
    {
        FileTransferWrite { slice, address }
    }

    /// The answer carries nothing.
    pub fn read_response(&self, _buffer: &mut ReceivingBuffer, _len: usize) {
    }
}

impl<'a> Packet for FileTransferWrite<'a> {
    open spec fn spec_id(&self) -> u8 {
        0x13
    }

    open spec fn spec_is_simple(&self) -> bool {
        false
    }

    open spec fn spec_send_len(&self) -> nat {
        4 + self.spec_fields().0.len() + padding(self.spec_fields().0.len())
    }

    open spec fn payload(&self) -> Seq<u8> {
        le_bytes(self.spec_fields().1 as nat, 4) + self.spec_fields().0 + zeros(padding(self.spec_fields().0.len()))
    }

    open spec fn writable(&self) -> bool {
        true
    }

    fn id(&self) -> u8 {
        0x13
    }

    fn is_simple(&self) -> bool {
        false
    }

    fn send_len(&self) -> (n: usize)
        ensures
            n == self.payload().len(),
    {
        proof {
            use_type_invariant(self);
            crate::bytes::lemma_le_bytes_len(self.spec_fields().1 as nat, 4);
        }
        4 + self.slice.len() + if self.slice.len() % 4 != 0 {
            4 - (self.slice.len() % 4)
        } else {
            0
        }
    }

    fn write_buffer(&self, buffer: &mut Vec<u8>) {
        append_le(buffer, self.address as u128, 4);
        append_raw(buffer, self.slice);
        if self.slice.len() % 4 != 0 {
            append_zeros(buffer, 4 - self.slice.len() % 4);
        } else {
            assert(zeros(0) =~= Seq::<u8>::empty());
        }
        assert(buffer@ =~= old(buffer)@ + self.payload());
    }
}

/// Reads `len` bytes of the file from an address (0x14).
#[derive(Debug)]
pub struct FileTransferRead {
    len: u16,
    address: u32,
}

impl FileTransferRead {
    pub closed spec fn spec_fields(&self) -> (u16, u32) {
        (self.len, self.address)
    }

    pub fn new(len: u16, address: u32) -> (p: FileTransferRead)
        ensures
            p.spec_fields() == (len, address),
    {
        FileTransferRead { len, address }
    }

    /// The answer: the next `len` bytes.
    pub fn read_response(&self, buffer: &mut ReceivingBuffer, _len: usize) -> (data: Vec<u8>)
        requires
            old(buffer).can_read(self.spec_fields().0 as nat),
        ensures
            data@ == old(buffer).window(self.spec_fields().0 as nat),
    {
        crate::brain::filesystem::parse_read(buffer, self.len)
    }
}

impl Packet for FileTransferRead {
    open spec fn spec_id(&self) -> u8 {
        0x14
    }

    open spec fn spec_is_simple(&self) -> bool {
        false
    }

    open spec fn spec_send_len(&self) -> nat {
        6
    }

    open spec fn payload(&self) -> Seq<u8> {
        le_bytes(self.spec_fields().1 as nat, 4) + le_bytes(self.spec_fields().0 as nat, 2)
    }

    open spec fn writable(&self) -> bool {
        true
    }

    fn id(&self) -> u8 {
        0x14
    }

    fn is_simple(&self) -> bool {
        false
    }

    fn send_len(&self) -> (n: usize)
        ensures
            self.writable() ==> n == self.payload().len(),
    {
        proof {
            crate::bytes::lemma_le_bytes_len(self.spec_fields().1 as nat, 4);
            crate::bytes::lemma_le_bytes_len(self.spec_fields().0 as nat, 2);
        }
        6
    }

    fn write_buffer(&self, buffer: &mut Vec<u8>) {
        append_le(buffer, self.address as u128, 4);
        append_le(buffer, self.len as u128, 2);
        assert(buffer@ =~= old(buffer)@ + self.payload());
    }
}

/// Links the file being transferred to another file (0x15): vendor, a zero, and the
/// name in a 24-byte field.
#[derive(Debug)]
pub struct SetFileTransferLink<'a> {
    name: &'a str,
    vid: Vid,
}

impl<'a> SetFileTransferLink<'a> {
    pub closed spec fn spec_fields(&self) -> (Seq<u8>, Vid) {
        (self.name.spec_bytes(), self.vid)
    }

    pub fn new(name: &'a str, vid: Vid) -> (p: SetFileTransferLink<'a>)
        ensures
            p.spec_fields() == (name.spec_bytes(), vid),
    {
        SetFileTransferLink { name, vid }
    }

    /// The answer carries nothing.
    pub fn read_response(&self, _buffer: &mut ReceivingBuffer, _len: usize) {
    }
}

impl<'a> Packet for SetFileTransferLink<'a> {
    open spec fn spec_id(&self) -> u8 {
        0x15
    }

    open spec fn spec_is_simple(&self) -> bool {
        false
    }

    open spec fn spec_send_len(&self) -> nat {
        26
    }

    open spec fn payload(&self) -> Seq<u8> {
        seq![self.spec_fields().1.spec_id(), 0u8] + str_field(self.spec_fields().0, 24)
    }

    open spec fn writable(&self) -> bool {
        self.spec_fields().0.len() < 24
    }

    fn id(&self) -> u8 {
        0x15
    }

    fn is_simple(&self) -> bool {
        false
    }

    fn send_len(&self) -> (n: usize)
        ensures
            self.writable() ==> n == self.payload().len(),
    {
        26
    }

    fn write_buffer(&self, buffer: &mut Vec<u8>) {
        append_u8(buffer, self.vid.id());
        append_u8(buffer, 0);
        append_str(buffer, self.name, 24);
        assert(buffer@ =~= old(buffer)@ + self.payload());
    }
}

/// Asks for the number of files of a vendor (0x16).
#[derive(Debug)]
pub struct GetDirectoryCount {
    vid: Vid,
    option: u8,
}

impl GetDirectoryCount {
    pub closed spec fn spec_fields(&self) -> (Vid, u8) {
        (self.vid, self.option)
    }

    pub fn new(vid: Vid, option: u8) -> (p: GetDirectoryCount)
        ensures
            p.spec_fields() == (vid, option),
    {
        GetDirectoryCount { vid, option }
    }

    /// The answer: a 16-bit little-endian count.
    pub fn read_response(&self, buffer: &mut ReceivingBuffer, _len: usize) -> (count: u16)
        requires
            old(buffer).can_read(2),
        ensures
            count == le_value(old(buffer).window(2)),
    {
        buffer.read_u16()
    }
}

impl Packet for GetDirectoryCount {
    open spec fn spec_id(&self) -> u8 {
        0x16
    }

    open spec fn spec_is_simple(&self) -> bool {
        false
    }

    open spec fn spec_send_len(&self) -> nat {
        2
    }

    open spec fn payload(&self) -> Seq<u8> {
        seq![self.spec_fields().0.spec_id(), self.spec_fields().1]
    }

    open spec fn writable(&self) -> bool {
        true
    }

    fn id(&self) -> u8 {
        0x16
    }

    fn is_simple(&self) -> bool {
        false
    }

    fn send_len(&self) -> (n: usize)
        ensures
            self.writable() ==> n == self.payload().len(),
    {
        2
    }

    fn write_buffer(&self, buffer: &mut Vec<u8>) {
        append_u8(buffer, self.vid.id());
        append_u8(buffer, self.option);
        assert(buffer@ =~= old(buffer)@ + self.payload());
    }
}

/// Asks for the metadata of the file at an index of the directory (0x17).
#[derive(Debug)]
pub struct GetFileMetadataByIndex {
    index: u8,
    option: u8,
}

impl GetFileMetadataByIndex {
    pub closed spec fn spec_fields(&self) -> (u8, u8) {
        (self.index, self.option)
    }

    pub fn new(index: u8, option: u8) -> (p: GetFileMetadataByIndex)
        ensures
            p.spec_fields() == (index, option),
    {
        GetFileMetadataByIndex { index, option }
    }

    /// The answer: a file's metadata (see `parse_metadata`).
    pub fn read_response(&self, buffer: &mut ReceivingBuffer, _len: usize) -> (m: FileMetadata)
        requires
            crate::brain::filesystem::metadata_readable(
                old(buffer).spec_data(),
                old(buffer).spec_pos() as int,
            ),
        ensures
            ({
                let d = old(buffer).spec_data();
                let p = old(buffer).spec_pos() as int;
                &&& m.vid == vid_of(d[p])
                &&& m.size == le_value(d.subrange(p + 1, p + 5))
                &&& m.addr == le_value(d.subrange(p + 5, p + 9))
                &&& m.crc == le_value(d.subrange(p + 9, p + 13))
            }),
    {
        parse_metadata(buffer)
    }
}

impl Packet for GetFileMetadataByIndex {
    open spec fn spec_id(&self) -> u8 {
        0x17
    }

    open spec fn spec_is_simple(&self) -> bool {
        false
    }

    open spec fn spec_send_len(&self) -> nat {
        2
    }

    open spec fn payload(&self) -> Seq<u8> {
        seq![self.spec_fields().0, self.spec_fields().1]
    }

    open spec fn writable(&self) -> bool {
        true
    }

    fn id(&self) -> u8 {
        0x17
    }

    fn is_simple(&self) -> bool {
        false
    }

    fn send_len(&self) -> (n: usize)
        ensures
            self.writable() ==> n == self.payload().len(),
    {
        2
    }

    fn write_buffer(&self, buffer: &mut Vec<u8>) {
        append_u8(buffer, self.index);
        append_u8(buffer, self.option);
        assert(buffer@ =~= old(buffer)@ + self.payload());
    }
}

/// Asks for the metadata of a file by name (0x19): vendor, option and the name in a
/// 24-byte field.
#[derive(Debug)]
pub struct GetFileMetadataByName<'a> {
    vid: Vid,
    option: u8,
    file_name: &'a str,
}

impl<'a> GetFileMetadataByName<'a> {
    pub closed spec fn spec_fields(&self) -> (Vid, u8, Seq<u8>) {
        (self.vid, self.option, self.file_name.spec_bytes())
    }

    pub fn new(vid: Vid, option: u8, filename: &'a str) -> (p: GetFileMetadataByName<'a>)
        ensures
            p.spec_fields() == (vid, option, filename.spec_bytes()),
    {
        GetFileMetadataByName { vid, option, file_name: filename }
    }

    /// The answer: a file's metadata (see `parse_metadata`).
    pub fn read_response(&self, buffer: &mut ReceivingBuffer, _len: usize) -> (m: FileMetadata)
        requires
            crate::brain::filesystem::metadata_readable(
                old(buffer).spec_data(),
                old(buffer).spec_pos() as int,
            ),
        ensures
            ({
                let d = old(buffer).spec_data();
                let p = old(buffer).spec_pos() as int;
                &&& m.vid == vid_of(d[p])
                &&& m.size == le_value(d.subrange(p + 1, p + 5))
                &&& m.addr == le_value(d.subrange(p + 5, p + 9))
                &&& m.crc == le_value(d.subrange(p + 9, p + 13))
            }),
    {
        parse_metadata(buffer)
    }
}

impl<'a> Packet for GetFileMetadataByName<'a> {
    open spec fn spec_id(&self) -> u8 {
        0x19
    }

    open spec fn spec_is_simple(&self) -> bool {
        false
    }

    open spec fn spec_send_len(&self) -> nat {
        26
    }

    open spec fn payload(&self) -> Seq<u8> {
        seq![self.spec_fields().0.spec_id(), self.spec_fields().1] + str_field(self.spec_fields().2, 24)
    }

    open spec fn writable(&self) -> bool {
        self.spec_fields().2.len() < 24
    }

    fn id(&self) -> u8 {
        0x19
    }

    fn is_simple(&self) -> bool {
        false
    }

    fn send_len(&self) -> (n: usize)
        ensures
            self.writable() ==> n == self.payload().len(),
    {
        26
    }

    fn write_buffer(&self, buffer: &mut Vec<u8>) {
        append_u8(buffer, self.vid.id());
        append_u8(buffer, self.option);
        append_str(buffer, self.file_name, 24);
        assert(buffer@ =~= old(buffer)@ + self.payload());
    }
}

/// Sets a program file's metadata (0x1A): vendor, options, load address, type (4-byte
/// field), brain timestamp, version and name (24-byte field). Its length field announces
/// no content, whatever the content holds.
#[derive(Debug)]
pub struct SetProgramFileMetadata<'a> {
    vid: Vid,
    options: u8,
    address: u32,
    file_type: &'a str,
    timestamp: u32,
    version: u32,
    filename: &'a str,
}

impl<'a> SetProgramFileMetadata<'a> {
    pub closed spec fn spec_fields(&self) -> (Vid, u8, u32, Seq<u8>, u32, u32, Seq<u8>) {
        (
            self.vid,
            self.options,
            self.address,
            self.file_type.spec_bytes(),
            self.timestamp,
            self.version,
            self.filename.spec_bytes(),
        )
    }

    pub fn new(
        vid: Vid,
        options: u8,
        address: u32,
        file_type: &'a str,
        timestamp: u32,
        version: u32,
        filename: &'a str,
    ) -> (p: SetProgramFileMetadata<'a>)
        ensures
            p.spec_fields() == (
                vid,
                options,
                address,
                file_type.spec_bytes(),
                timestamp,
                version,
                filename.spec_bytes(),
            ),
    {
        SetProgramFileMetadata { vid, options, address, file_type, timestamp, version, filename }
    }

    /// The answer carries nothing.
    pub fn read_response(&self, _buffer: &mut ReceivingBuffer, _len: usize) {
    }
}

impl<'a> Packet for SetProgramFileMetadata<'a> {
    open spec fn spec_id(&self) -> u8 {
        0x1A
    }

    open spec fn spec_is_simple(&self) -> bool {
        false
    }

    open spec fn spec_send_len(&self) -> nat {
        0
    }

    open spec fn payload(&self) -> Seq<u8> {
        seq![self.spec_fields().0.spec_id(), self.spec_fields().1] + le_bytes(
            self.spec_fields().2 as nat,
            4,
        ) + str_field(self.spec_fields().3, 4) + le_bytes(self.spec_fields().4 as nat, 4)
            + le_bytes(self.spec_fields().5 as nat, 4) + str_field(self.spec_fields().6, 24)
    }

    open spec fn writable(&self) -> bool {
        self.spec_fields().3.len() < 4 && self.spec_fields().6.len() < 24
    }

    fn id(&self) -> u8 {
        0x1A
    }

    fn is_simple(&self) -> bool {
        false
    }

    fn send_len(&self) -> (n: usize) {
        0
    }

    fn write_buffer(&self, buffer: &mut Vec<u8>) {
        append_u8(buffer, self.vid.id());
        append_u8(buffer, self.options);
        append_le(buffer, self.address as u128, 4);
        append_str(buffer, self.file_type, 4);
        append_le(buffer, self.timestamp as u128, 4);
        append_le(buffer, self.version as u128, 4);
        append_str(buffer, self.filename, 24);
        assert(buffer@ =~= old(buffer)@ + self.payload());
    }
}

/// Deletes a file (0x1B): vendor, 0x80 to erase every file of the vendor or 0, and the
/// name in a 24-byte field.
#[derive(Debug)]
pub struct DeleteFile<'a> {
    vid: Vid,
    erase_all: bool,
    file_name: &'a str,
}

impl<'a> DeleteFile<'a> {
    pub closed spec fn spec_fields(&self) -> (Vid, bool, Seq<u8>) {
        (self.vid, self.erase_all, self.file_name.spec_bytes())
    }

    pub fn new(vid: Vid, erase_all: bool, file_name: &'a str) -> (p: DeleteFile<'a>)
        ensures
            p.spec_fields() == (vid, erase_all, file_name.spec_bytes()),
    {
        DeleteFile { vid, erase_all, file_name }
    }

    /// The answer carries nothing.
    pub fn read_response(&self, _buffer: &mut ReceivingBuffer, _len: usize) {
    }
}

impl<'a> Packet for DeleteFile<'a> {
    open spec fn spec_id(&self) -> u8 {
        0x1B
    }

    open spec fn spec_is_simple(&self) -> bool {
        false
    }

    open spec fn spec_send_len(&self) -> nat {
        26
    }

    open spec fn payload(&self) -> Seq<u8> {
        seq![
            self.spec_fields().0.spec_id(),
            if self.spec_fields().1 { 0x80u8 } else { 0u8 },
        ] + str_field(self.spec_fields().2, 24)
    }

    open spec fn writable(&self) -> bool {
        self.spec_fields().2.len() < 24
    }

    fn id(&self) -> u8 {
        0x1B
    }

    fn is_simple(&self) -> bool {
        false
    }

    fn send_len(&self) -> (n: usize)
        ensures
            self.writable() ==> n == self.payload().len(),
    {
        26
    }

    fn write_buffer(&self, buffer: &mut Vec<u8>) {
        append_u8(buffer, self.vid.id());
        append_u8(buffer, if self.erase_all { 0x80 } else { 0 });
        append_str(buffer, self.file_name, 24);
        assert(buffer@ =~= old(buffer)@ + self.payload());
    }
}

/// Asks for the program slot of a file (0x1C): vendor, options and the name in a 24-byte
/// field. Its length field announces no content, whatever the content holds.
#[derive(Debug)]
pub struct GetProgramFileSlot<'a> {
    vid: Vid,
    options: u8,
    file_name: &'a str,
}

impl<'a> GetProgramFileSlot<'a> {
    pub closed spec fn spec_fields(&self) -> (Vid, u8, Seq<u8>) {
        (self.vid, self.options, self.file_name.spec_bytes())
    }

    pub fn new(vid: Vid, options: u8, file_name: &'a str) -> (p: GetProgramFileSlot<'a>)
        ensures
            p.spec_fields() == (vid, options, file_name.spec_bytes()),
    {
        GetProgramFileSlot { vid, options, file_name }
    }

    /// The answer: one byte.
    pub fn read_response(&self, buffer: &mut ReceivingBuffer, _len: usize) -> (slot: u8)
        requires
            old(buffer).can_read(1),
        ensures
            slot == old(buffer).window(1)[0],
    {
        buffer.read_u8()
    }
}

impl<'a> Packet for GetProgramFileSlot<'a> {
    open spec fn spec_id(&self) -> u8 {
        0x1C
    }

    open spec fn spec_is_simple(&self) -> bool {
        false
    }

    open spec fn spec_send_len(&self) -> nat {
        0
    }

    open spec fn payload(&self) -> Seq<u8> {
        seq![self.spec_fields().0.spec_id(), self.spec_fields().1] + str_field(self.spec_fields().2, 24)
    }

    open spec fn writable(&self) -> bool {
        self.spec_fields().2.len() < 24
    }

    fn id(&self) -> u8 {
        0x1C
    }

    fn is_simple(&self) -> bool {
        false
    }

    fn send_len(&self) -> (n: usize) {
        0
    }

    fn write_buffer(&self, buffer: &mut Vec<u8>) {
        append_u8(buffer, self.vid.id());
        append_u8(buffer, self.options);
        append_str(buffer, self.file_name, 24);
        assert(buffer@ =~= old(buffer)@ + self.payload());
    }
}

} // verus!

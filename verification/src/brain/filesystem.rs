//! File system commands: directories, metadata, deletion and file transfers.
use vstd::prelude::*;
use vstd::string::StringSliceAdditionalSpecFns;
use vstd::utf8::{decode_utf8, valid_utf8};
use crate::buffer::{first_nul, lemma_first_nul_bounds, min_int, ReceivingBuffer};
use crate::bytes::{le_bytes, le_value};
use crate::connection::{request_prefix, str_field, zeros, Packet};
use crate::error::ParseError;
use crate::brain::system::{convert_from_vex_timestamp, convert_to_vex_timestamp, Channel, JAN_01_2000};
use crate::text::{lowercase, str_eq, to_lowercase};

verus! {

/// What the brain says about a file transfer it has accepted.
#[derive(Copy, Clone, Debug, PartialEq, Eq, Structural)]
pub struct UploadParameters {
    pub max_packet_size: u16,
    pub file_size: u32,
    pub crc: u32,
}

/// What the brain stores about a file; the timestamp is in seconds since the UNIX epoch.
pub struct FileMetadata {
    pub vid: Vid,
    pub size: u32,
    pub addr: u32,
    pub crc: u32,
    pub file_type: String,
    pub timestamp: u64,
    pub version: u32,
    pub name: String,
}

/// What the brain does once an upload completes.
#[derive(Copy, Clone, Debug, PartialEq, Eq, Structural)]
pub enum UploadAction {
    Nothing,
    Run,
    RunScreen,
}

impl UploadAction {
    pub open spec fn spec_id(self) -> u8 {
        match self {
            UploadAction::Nothing => 0,
            UploadAction::Run => 1,
            UploadAction::RunScreen => 3,
        }
    }

    /// The action a command-line name stands for, in any case: "nothing", "run" or
    /// "screen".
    pub fn try_from_name(value: &str) -> (r: Result<UploadAction, ParseError>)
        ensures
            lowercase(value@) == "nothing"@ ==> r == Ok::<UploadAction, ParseError>(
                UploadAction::Nothing,
            ),
            lowercase(value@) == "run"@ ==> r == Ok::<UploadAction, ParseError>(UploadAction::Run),
            lowercase(value@) == "screen"@ ==> r == Ok::<UploadAction, ParseError>(
                UploadAction::RunScreen,
            ),
            lowercase(value@) != "nothing"@ && lowercase(value@) != "run"@ && lowercase(value@)
                != "screen"@ ==> (r matches Err(ParseError::InvalidName(name)) && name@ == value@),
    {
        proof {
            reveal_strlit("nothing");
            reveal_strlit("run");
            reveal_strlit("screen");
            assert("nothing"@.len() == 7 && "run"@.len() == 3 && "screen"@.len() == 6);
        }
        let lower = to_lowercase(value);
        if str_eq(lower.as_str(), "nothing") {
            Ok(UploadAction::Nothing)
        } else if str_eq(lower.as_str(), "run") {
            Ok(UploadAction::Run)
        } else if str_eq(lower.as_str(), "screen") {
            Ok(UploadAction::RunScreen)
        } else {
            Err(ParseError::InvalidName(value.to_string()))
        }
    }
}

impl From<UploadAction> for u8 {
    fn from(val: UploadAction) -> (id: u8) {
        match val {
            UploadAction::Nothing => 0,
            UploadAction::Run => 1,
            UploadAction::RunScreen => 3,
        }
    }
}

impl vstd::std_specs::convert::FromSpecImpl<UploadAction> for u8 {
    open spec fn obeys_from_spec() -> bool {
        true
    }

    open spec fn from_spec(v: UploadAction) -> u8 {
        v.spec_id()
    }
}

impl Default for UploadAction {
    fn default() -> (a: UploadAction)
        ensures
            a == UploadAction::Nothing,
    {
        UploadAction::Nothing
    }
}

/// Which way a file transfer goes.
#[derive(Copy, Clone, Debug, PartialEq, Eq, Structural)]
pub enum TransferDirection {
    Upload,
    Download,
}

impl TransferDirection {
    pub open spec fn spec_id(self) -> u8 {
        match self {
            TransferDirection::Upload => 1,
            TransferDirection::Download => 2,
        }
    }
}

impl From<TransferDirection> for u8 {
    fn from(val: TransferDirection) -> (id: u8) {
        match val {
            TransferDirection::Upload => 1,
            TransferDirection::Download => 2,
        }
    }
}

impl vstd::std_specs::convert::FromSpecImpl<TransferDirection> for u8 {
    open spec fn obeys_from_spec() -> bool {
        true
    }

    open spec fn from_spec(v: TransferDirection) -> u8 {
        v.spec_id()
    }
}

/// Where a file transfer puts the file.
#[derive(Copy, Clone, Debug, PartialEq, Eq, Structural)]
pub enum TransferTarget {
    DDR,
    Flash,
    Screen,
}

impl TransferTarget {
    pub open spec fn spec_id(self) -> u8 {
        match self {
            TransferTarget::DDR => 0,
            TransferTarget::Flash => 1,
            TransferTarget::Screen => 2,
        }
    }
}

impl From<TransferTarget> for u8 {
    fn from(val: TransferTarget) -> (id: u8) {
        match val {
            TransferTarget::DDR => 0,
            TransferTarget::Flash => 1,
            TransferTarget::Screen => 2,
        }
    }
}

impl vstd::std_specs::convert::FromSpecImpl<TransferTarget> for u8 {
    open spec fn obeys_from_spec() -> bool {
        true
    }

    open spec fn from_spec(v: TransferTarget) -> u8 {
        v.spec_id()
    }
}

/// Vendor ids: the owners of files on the brain.
#[derive(Copy, Clone, Debug, PartialEq, Eq, Structural)]
pub enum Vid {
    User,
    System,
    Rms,
    Pros,
    Mw,
    Custom(u8),
}

/// The vendor an id byte stands for.
pub open spec fn vid_of(id: u8) -> Vid {
    if id == 1 {
        Vid::User
    } else if id == 15 {
        Vid::System
    } else if id == 16 {
        Vid::Rms
    } else if id == 24 {
        Vid::Pros
    } else if id == 32 {
        Vid::Mw
    } else {
        Vid::Custom(id)
    }
}

impl Vid {
    pub open spec fn spec_id(self) -> u8 {
        match self {
            Vid::User => 1,
            Vid::System => 15,
            Vid::Rms => 16,
            Vid::Pros => 24,
            Vid::Mw => 32,
            Vid::Custom(c) => c,
        }
    }

    pub fn id(&self) -> (i: u8)
        ensures
            i == self.spec_id(),
    {
        match self {
            Vid::User => 1,
            Vid::System => 15,
            Vid::Rms => 16,
            Vid::Pros => 24,
            Vid::Mw => 32,
            Vid::Custom(c) => *c,
        }
    }

    /// How the vendor is shown: its name, then its id in brackets.
    pub fn to_display_string(&self) -> (s: String)
        ensures
            s@ == self.display_name_spec() + " ("@ + crate::text::ascii_chars(
                crate::text::decimal(self.spec_id() as nat),
            ) + ")"@,
    {
        let name = match self {
            Vid::User => "user",
            Vid::System => "system",
            Vid::Rms => "rms",
            Vid::Pros => "pros",
            Vid::Mw => "mw",
            Vid::Custom(_) => "custom",
        };
        let mut s = name.to_string();
        vstd::string::StringExecFns::append(&mut s, " (");
        let digits = crate::text::decimal_string(self.id() as u64);
        vstd::string::StringExecFns::append(&mut s, digits.as_str());
        vstd::string::StringExecFns::append(&mut s, ")");
        s
    }

    pub open spec fn display_name_spec(self) -> Seq<char> {
        match self {
            Vid::User => "user"@,
            Vid::System => "system"@,
            Vid::Rms => "rms"@,
            Vid::Pros => "pros"@,
            Vid::Mw => "mw"@,
            Vid::Custom(_) => "custom"@,
        }
    }
}

impl From<Vid> for u8 {
    fn from(value: Vid) -> (id: u8) {
        value.id()
    }
}

impl vstd::std_specs::convert::FromSpecImpl<Vid> for u8 {
    open spec fn obeys_from_spec() -> bool {
        true
    }

    open spec fn from_spec(v: Vid) -> u8 {
        v.spec_id()
    }
}

impl From<u8> for Vid {
    fn from(id: u8) -> (v: Vid) {
        if id == 1 {
            Vid::User
        } else if id == 15 {
            Vid::System
        } else if id == 16 {
            Vid::Rms
        } else if id == 24 {
            Vid::Pros
        } else if id == 32 {
            Vid::Mw
        } else {
            Vid::Custom(id)
        }
    }
}

impl vstd::std_specs::convert::FromSpecImpl<u8> for Vid {
    open spec fn obeys_from_spec() -> bool {
        true
    }

    open spec fn from_spec(v: u8) -> Vid {
        vid_of(v)
    }
}

/// An id byte read as a vendor and written back is the same byte; a vendor written as
/// its byte and read back is the same vendor, unless it is a custom vendor whose byte
/// belongs to a named one.
pub proof fn lemma_vid_roundtrip(id: u8, vid: Vid)
    ensures
        vid_of(id).spec_id() == id,
        !(vid matches Vid::Custom(c) && (c == 1 || c == 15 || c == 16 || c == 24 || c == 32))
            ==> vid_of(vid.spec_id()) == vid,
{
}

/// The kinds of file a transfer can carry.
#[derive(Copy, Clone, Debug, PartialEq, Eq, Structural)]
pub enum FileType {
    Bin,
    Ini,
}

impl FileType {
    pub open spec fn spec_name_bytes(self) -> Seq<u8> {
        match self {
            FileType::Bin => seq![0x62u8, 0x69u8, 0x6Eu8],
            FileType::Ini => seq![0x69u8, 0x6Eu8, 0x69u8],
        }
    }

    /// The type's name on the brain: "bin" or "ini".
    pub fn get_name(&self) -> (name: &'static str)
        ensures
            name.spec_bytes() == self.spec_name_bytes(),
    {
        match self {
            FileType::Bin => {
                let s = "bin";
                proof {
                    reveal_strlit("bin");
                    vstd::string::is_ascii_spec_bytes(s);
                    assert(s.spec_bytes() =~= self.spec_name_bytes());
                }
                s
            },
            FileType::Ini => {
                let s = "ini";
                proof {
                    reveal_strlit("ini");
                    vstd::string::is_ascii_spec_bytes(s);
                    assert(s.spec_bytes() =~= self.spec_name_bytes());
                }
                s
            },
        }
    }

    /// The type a name stands for, in any case: "bin" or "ini".
    pub fn try_from_name(value: &str) -> (r: Result<FileType, ParseError>)
        ensures
            lowercase(value@) == "bin"@ ==> r == Ok::<FileType, ParseError>(FileType::Bin),
            lowercase(value@) == "ini"@ ==> r == Ok::<FileType, ParseError>(FileType::Ini),
            lowercase(value@) != "bin"@ && lowercase(value@) != "ini"@ ==> (r matches Err(
                ParseError::InvalidName(name),
            ) && name@ == value@),
    {
        proof {
            reveal_strlit("bin");
            reveal_strlit("ini");
            assert("bin"@[0] != "ini"@[0]);
        }
        let lower = to_lowercase(value);
        if str_eq(lower.as_str(), "bin") {
            Ok(FileType::Bin)
        } else if str_eq(lower.as_str(), "ini") {
            Ok(FileType::Ini)
        } else {
            Err(ParseError::InvalidName(value.to_string()))
        }
    }
}

/// Option bits of file requests, all passed on as given.
#[derive(Copy, Clone, Debug, PartialEq, Eq, Structural)]
pub struct FileFlags {
    bits: u8,
}

impl FileFlags {
    pub closed spec fn spec_bits(self) -> u8 {
        self.bits
    }

    pub fn empty() -> (f: FileFlags)
        ensures
            f.spec_bits() == 0,
    {
        FileFlags { bits: 0 }
    }

    pub fn from_bits_retain(bits: u8) -> (f: FileFlags)
        ensures
            f.spec_bits() == bits,
    {
        FileFlags { bits }
    }

    pub fn bits(&self) -> (b: u8)
        ensures
            b == self.spec_bits(),
    {
        self.bits
    }
}

/// Option bits of a delete request; bit 7 erases every file of the vendor.
#[derive(Copy, Clone, Debug, PartialEq, Eq, Structural)]
pub struct DeleteFlags {
    bits: u8,
}

impl DeleteFlags {
    pub closed spec fn spec_bits(self) -> u8 {
        self.bits
    }

    pub fn empty() -> (f: DeleteFlags)
        ensures
            f.spec_bits() == 0,
    {
        DeleteFlags { bits: 0 }
    }

    /// The flag that erases every file of the vendor.
    pub fn erase_all() -> (f: DeleteFlags)
        ensures
            f.spec_bits() == 0x80,
    {
        DeleteFlags { bits: 0x80 }
    }

    pub fn from_bits_retain(bits: u8) -> (f: DeleteFlags)
        ensures
            f.spec_bits() == bits,
    {
        DeleteFlags { bits }
    }

    pub fn bits(&self) -> (b: u8)
        ensures
            b == self.spec_bits(),
    {
        self.bits
    }
}

/// The request for the number of files of a vendor.
pub fn get_directory_count_request(vid: Vid, option: FileFlags) -> (p: Packet)
    ensures
        p.written() == request_prefix(0x16, 2) + seq![vid.spec_id(), option.spec_bits()],
        p.blank_after(),
        p.spec_bytes().len() == p.written().len() + 2,
{
    let mut p = Packet::new(0x16, 2);
    p.write_u8(vid.id());
    p.write_u8(option.bits());
    proof {
        assert(p.written() =~= request_prefix(0x16, 2) + seq![vid.spec_id(), option.spec_bits()]);
    }
    p
}

/// Reads the number of files: a 16-bit little-endian count.
pub fn parse_directory_count(response: &mut ReceivingBuffer) -> (count: u16)
    requires
        old(response).can_read(2),
    ensures
        count == le_value(old(response).window(2)),
        old(response).advanced(*final(response), 2),
{
    response.read_u16()
}

/// The request for the metadata of the file at an index of the directory.
pub fn get_file_metadata_by_index_request(index: u8, flags: FileFlags) -> (p: Packet)
    ensures
        p.written() == request_prefix(0x17, 2) + seq![index, flags.spec_bits()],
        p.blank_after(),
        p.spec_bytes().len() == p.written().len() + 2,
{
    let mut p = Packet::new(0x17, 2);
    p.write_u8(index);
    p.write_u8(flags.bits());
    proof {
        assert(p.written() =~= request_prefix(0x17, 2) + seq![index, flags.spec_bits()]);
    }
    p
}

/// A request of a vendor, an option byte and a file name in a 24-byte field.
fn named_file_request(id: u8, vid: Vid, option: u8, filename: &str) -> (p: Packet)
    requires
        filename.spec_bytes().len() < 24,
    ensures
        p.written() == request_prefix(id, 26) + seq![vid.spec_id(), option] + str_field(
            filename.spec_bytes(),
            24,
        ),
        p.blank_after(),
        p.spec_bytes().len() == p.written().len() + 2,
{
    let mut p = Packet::new(id, 26);
    p.write_u8(vid.id());
    p.write_u8(option);
    p.write_str(filename, 24);
    proof {
        assert(p.written() =~= request_prefix(id, 26) + seq![vid.spec_id(), option] + str_field(
            filename.spec_bytes(),
            24,
        ));
    }
    p
}

/// The request for the metadata of a file by name.
pub fn get_file_metadata_by_name_request(vid: Vid, flags: FileFlags, filename: &str) -> (p: Packet)
    requires
        filename.spec_bytes().len() < 24,
    ensures
        p.written() == request_prefix(0x19, 26) + seq![vid.spec_id(), flags.spec_bits()]
            + str_field(filename.spec_bytes(), 24),
        p.blank_after(),
        p.spec_bytes().len() == p.written().len() + 2,
{
    named_file_request(0x19, vid, flags.bits(), filename)
}

/// The request that deletes a file.
pub fn delete_file_request(vid: Vid, flags: DeleteFlags, filename: &str) -> (p: Packet)
    requires
        filename.spec_bytes().len() < 24,
    ensures
        p.written() == request_prefix(0x1B, 26) + seq![vid.spec_id(), flags.spec_bits()]
            + str_field(filename.spec_bytes(), 24),
        p.blank_after(),
        p.spec_bytes().len() == p.written().len() + 2,
{
    named_file_request(0x1B, vid, flags.bits(), filename)
}

/// The request for the program slot of a file.
pub fn get_program_file_slot_request(vid: Vid, flags: FileFlags, filename: &str) -> (p: Packet)
    requires
        filename.spec_bytes().len() < 24,
    ensures
        p.written() == request_prefix(0x1C, 26) + seq![vid.spec_id(), flags.spec_bits()]
            + str_field(filename.spec_bytes(), 24),
        p.blank_after(),
        p.spec_bytes().len() == p.written().len() + 2,
{
    named_file_request(0x1C, vid, flags.bits(), filename)
}

/// Reads a program slot: one byte.
pub fn parse_program_file_slot(response: &mut ReceivingBuffer) -> (slot: u8)
    requires
        old(response).can_read(1),
    ensures
        slot == old(response).window(1)[0],
        old(response).advanced(*final(response), 1),
{
    response.read_u8()
}

/// The request that sets a file's metadata: vendor, flags, load address, type (4-byte
/// field), brain timestamp, version and name (24-byte field).
pub fn set_file_metadata_request(
    vid: Vid,
    filename: &str,
    flags: FileFlags,
    address: u32,
    file_type: &str,
    timestamp: u32,
    version: u32,
) -> (p: Packet)
    requires
        filename.spec_bytes().len() < 24,
        file_type.spec_bytes().len() < 4,
    ensures
        p.written() == request_prefix(0x1A, 42) + seq![vid.spec_id(), flags.spec_bits()]
            + le_bytes(address as nat, 4) + str_field(file_type.spec_bytes(), 4) + le_bytes(
            timestamp as nat,
            4,
        ) + le_bytes(version as nat, 4) + str_field(filename.spec_bytes(), 24),
        p.blank_after(),
        p.spec_bytes().len() == p.written().len() + 2,
{
    let mut p = Packet::new(0x1A, 42);
    p.write_u8(vid.id());
    p.write_u8(flags.bits());
    p.write_u32(address);
    p.write_str(file_type, 4);
    p.write_u32(timestamp);
    p.write_u32(version);
    p.write_str(filename, 24);
    proof {
        assert(p.written() =~= request_prefix(0x1A, 42) + seq![vid.spec_id(), flags.spec_bits()]
            + le_bytes(address as nat, 4) + str_field(file_type.spec_bytes(), 4) + le_bytes(
            timestamp as nat,
            4,
        ) + le_bytes(version as nat, 4) + str_field(filename.spec_bytes(), 24));
    }
    p
}

/// The request that starts a file transfer. The timestamp is in seconds since the UNIX
/// epoch and goes out as a brain timestamp.
pub fn file_transfer_initialize_request(
    direction: TransferDirection,
    target: TransferTarget,
    vid: Vid,
    overwrite: bool,
    length: u32,
    address: u32,
    crc: u32,
    version: u32,
    file_type: FileType,
    name: &str,
    timestamp: u64,
) -> (p: Packet)
    requires
        name.spec_bytes().len() < 24,
        JAN_01_2000 <= timestamp <= JAN_01_2000 + u32::MAX,
    ensures
        p.written() == request_prefix(0x11, 52) + seq![
            direction.spec_id(),
            target.spec_id(),
            vid.spec_id(),
            if overwrite { 1u8 } else { 0u8 },
        ] + le_bytes(length as nat, 4) + le_bytes(address as nat, 4) + le_bytes(crc as nat, 4)
            + str_field(file_type.spec_name_bytes(), 4) + le_bytes(
            (timestamp - JAN_01_2000) as nat,
            4,
        ) + le_bytes(version as nat, 4) + str_field(name.spec_bytes(), 24),
        p.blank_after(),
        p.spec_bytes().len() == p.written().len() + 2,
{
    let mut p = Packet::new(0x11, 52);
    let ghost head = request_prefix(0x11, 52);
    p.write_u8(u8::from(direction));
    p.write_u8(u8::from(target));
    p.write_u8(vid.id());
    p.write_u8(if overwrite { 1 } else { 0 });
    let ghost flags = seq![
        direction.spec_id(),
        target.spec_id(),
        vid.spec_id(),
        if overwrite { 1u8 } else { 0u8 },
    ];
    assert(p.written() =~= head + flags);
    p.write_u32(length);
    p.write_u32(address);
    p.write_u32(crc);
    p.write_str(file_type.get_name(), 4);
    p.write_u32(convert_to_vex_timestamp(timestamp));
    p.write_u32(version);
    p.write_str(name, 24);
    p
}

/// Reads what the brain says about an accepted transfer: the largest packet (16 bits),
/// the file size and the CRC (32 bits each), little-endian.
pub fn parse_upload_parameters(response: &mut ReceivingBuffer) -> (u: UploadParameters)
    requires
        old(response).can_read(10),
    ensures
        u.max_packet_size == le_value(old(response).window(10).subrange(0, 2)),
        u.file_size == le_value(old(response).window(10).subrange(2, 6)),
        u.crc == le_value(old(response).window(10).subrange(6, 10)),
        old(response).advanced(*final(response), 10),
{
    let max_packet_size = response.read_u16();
    let file_size = response.read_u32();
    let crc = response.read_u32();
    proof {
        let w = old(response).window(10);
        let d = old(response).spec_data();
        let p = old(response).spec_pos() as int;
        assert(d.subrange(p, p + 2) =~= w.subrange(0, 2));
        assert(d.subrange(p + 2, p + 6) =~= w.subrange(2, 6));
        assert(d.subrange(p + 6, p + 10) =~= w.subrange(6, 10));
    }
    UploadParameters { max_packet_size, file_size, crc }
}

/// The request that selects the channel of a transfer. Its length field announces 5
/// bytes of content, of which it writes two (1 and the channel).
pub fn set_channel_request(channel: Channel) -> (p: Packet)
    ensures
        p.written() == request_prefix(0x10, 5) + seq![1u8, channel.spec_id()],
        p.blank_after(),
        p.spec_bytes().len() == p.written().len() + 5,
{
    let mut p = Packet::new(0x10, 5);
    p.write_u8(1);
    p.write_u8(u8::from(channel));
    proof {
        assert(p.written() =~= request_prefix(0x10, 5) + seq![1u8, channel.spec_id()]);
    }
    p
}

/// The request that links the file being transferred to another file.
pub fn set_link_request(name: &str, vid: Vid) -> (p: Packet)
    requires
        name.spec_bytes().len() < 24,
    ensures
        p.written() == request_prefix(0x15, 26) + seq![vid.spec_id(), 0u8] + str_field(
            name.spec_bytes(),
            24,
        ),
        p.blank_after(),
        p.spec_bytes().len() == p.written().len() + 2,
{
    named_file_request(0x15, vid, 0, name)
}

/// How many zero bytes pad `len` bytes to a multiple of four.
pub open spec fn padding(len: nat) -> nat {
    if len % 4 != 0 {
        (4 - len % 4) as nat
    } else {
        0
    }
}

/// The request that writes a chunk of the file at an address: the address, the chunk,
/// then zeros to a multiple of four bytes.
pub fn write_request(slice: &[u8], address: u32) -> (p: Packet)
    requires
        4 + slice@.len() + padding(slice@.len()) < 0x8000,
    ensures
        p.written() == request_prefix(0x13, 4 + slice@.len() + padding(slice@.len())) + le_bytes(
            address as nat,
            4,
        ) + slice@ + zeros(padding(slice@.len())),
        p.blank_after(),
        p.spec_bytes().len() == p.written().len() + 2,
{
    let n = slice.len();
    let pad = if n % 4 != 0 { 4 - n % 4 } else { 0 };
    let mut p = Packet::new(0x13, 4 + n + pad);
    p.write_u32(address);
    p.write_raw(slice);
    if n % 4 != 0 {
        p.pad(4 - n % 4);
    }
    proof {
        if n % 4 == 0 {
            assert(zeros(0) =~= Seq::<u8>::empty());
        }
        assert(p.written() =~= request_prefix(0x13, 4 + slice@.len() + padding(slice@.len()))
            + le_bytes(address as nat, 4) + slice@ + zeros(padding(slice@.len())));
    }
    p
}

/// The request that reads `len` bytes of the file from an address.
pub fn read_request(len: u16, address: u32) -> (p: Packet)
    ensures
        p.written() == request_prefix(0x14, 6) + le_bytes(address as nat, 4) + le_bytes(
            len as nat,
            2,
        ),
        p.blank_after(),
        p.spec_bytes().len() == p.written().len() + 2,
{
    let mut p = Packet::new(0x14, 6);
    p.write_u32(address);
    p.write_u16(len);
    proof {
        assert(p.written() =~= request_prefix(0x14, 6) + le_bytes(address as nat, 4) + le_bytes(
            len as nat,
            2,
        ));
    }
    p
}

/// Reads the `len` bytes of a read's answer.
pub fn parse_read(response: &mut ReceivingBuffer, len: u16) -> (data: Vec<u8>)
    requires
        old(response).can_read(len as nat),
    ensures
        data@ == old(response).window(len as nat),
        old(response).advanced(*final(response), len as nat),
{
    let mut val: Vec<u8> = vec![0u8; len as usize];
    response.read_raw(val.as_mut_slice());
    val
}

/// The request that completes a transfer and says what to do next.
pub fn complete_request(upload_action: UploadAction) -> (p: Packet)
    ensures
        p.written() == request_prefix(0x12, 1) + seq![upload_action.spec_id()],
        p.blank_after(),
        p.spec_bytes().len() == p.written().len() + 2,
{
    let mut p = Packet::new(0x12, 1);
    p.write_u8(u8::from(upload_action));
    proof {
        assert(p.written() =~= request_prefix(0x12, 1) + seq![upload_action.spec_id()]);
    }
    p
}

/// A metadata answer can be read: the fixed fields fit, the type and the name are
/// zero-terminated UTF-8 within their fields, and the fields after the type fit.
pub open spec fn metadata_readable(data: Seq<u8>, pos: int) -> bool {
    &&& pos + 17 <= data.len()
    &&& first_nul(data, pos + 13, pos + 17) matches Some(e1) && valid_utf8(
        data.subrange(pos + 13, e1),
    ) && ({
        let p1 = e1 + 1;
        &&& p1 + 8 <= data.len()
        &&& p1 + 8 + 24 <= usize::MAX
        &&& first_nul(data, p1 + 8, min_int(p1 + 8 + 24, data.len() as int)) matches Some(e2)
            && valid_utf8(data.subrange(p1 + 8, e2))
    })
}

/// Whether a metadata answer can be read from the read position of `response`.
pub fn metadata_ready(response: &ReceivingBuffer) -> (ok: bool)
    ensures
        ok == metadata_readable(response.spec_data(), response.spec_pos() as int),
{
    let data = response.data();
    let pos = response.position();
    let len = data.len();
    if pos > len || len - pos < 17 {
        return false;
    }
    let e1 = match crate::buffer::find_nul(data, pos + 13, pos + 17) {
        Some(e) => e,
        None => return false,
    };
    proof { lemma_first_nul_bounds(data@, pos + 13, pos + 17); }
    if !crate::buffer::utf8_between(data, pos + 13, e1) {
        return false;
    }
    let p1 = e1 + 1;
    if len < 8 || p1 > len - 8 {
        return false;
    }
    if p1 + 8 > usize::MAX - 24 {
        return false;
    }
    let limit = if p1 + 8 + 24 < len { p1 + 8 + 24 } else { len };
    match crate::buffer::find_nul(data, p1 + 8, limit) {
        Some(e2) => {
            proof { lemma_first_nul_bounds(data@, p1 + 8, limit as int); }
            crate::buffer::utf8_between(data, p1 + 8, e2)
        },
        None => false,
    }
}

/// Reads a file's metadata: vendor, size, address and CRC, the type (zero-terminated,
/// at most 4 bytes), brain timestamp, version and name (zero-terminated, at most 24
/// bytes). Each string read moves just past its terminator.
pub fn parse_metadata(response: &mut ReceivingBuffer) -> (m: FileMetadata)
    requires
        metadata_readable(old(response).spec_data(), old(response).spec_pos() as int),
    ensures
        ({
            let d = old(response).spec_data();
            let p = old(response).spec_pos() as int;
            let e1 = first_nul(d, p + 13, p + 17)->0;
            let p1 = e1 + 1;
            let e2 = first_nul(d, p1 + 8, min_int(p1 + 8 + 24, d.len() as int))->0;
            &&& m.vid == vid_of(d[p])
            &&& m.size == le_value(d.subrange(p + 1, p + 5))
            &&& m.addr == le_value(d.subrange(p + 5, p + 9))
            &&& m.crc == le_value(d.subrange(p + 9, p + 13))
            &&& m.file_type@ == decode_utf8(d.subrange(p + 13, e1))
            &&& m.timestamp == JAN_01_2000 + le_value(d.subrange(p1, p1 + 4))
            &&& m.version == le_value(d.subrange(p1 + 4, p1 + 8))
            &&& m.name@ == decode_utf8(d.subrange(p1 + 8, e2))
        }),
{
    proof { old(response).lemma_len_fits(); }
    let vid = Vid::from(response.read_u8());
    let size = response.read_u32();
    let addr = response.read_u32();
    let crc = response.read_u32();
    let file_type = response.read_str(4);
    proof {
        let d = old(response).spec_data();
        let p = old(response).spec_pos() as int;
        assert(min_int(p + 13 + 4, d.len() as int) == p + 17);
        crate::buffer::lemma_first_nul_bounds(d, p + 13, p + 17);
        assert(response.spec_data() == d);
        assert(response.spec_pos() == first_nul(d, p + 13, p + 17)->0 + 1);
        assert(response.spec_pos() + 8 <= d.len());
    }
    let timestamp = convert_from_vex_timestamp(response.read_u32());
    let version = response.read_u32();
    let name = response.read_str(24);
    proof {
        let d = old(response).spec_data();
        let p = old(response).spec_pos() as int;
        let e1 = first_nul(d, p + 13, p + 17)->0;
        crate::buffer::lemma_first_nul_bounds(d, e1 + 9, min_int(e1 + 9 + 24, d.len() as int));
    }
    FileMetadata { vid, size, addr, crc, file_type, timestamp, version, name }
}

} // verus!

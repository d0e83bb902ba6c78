//! The brain's system and file commands over the direct serial protocol: the values they
//! carry, the requests that ask for them and the reading of the answers.
use vstd::prelude::*;
use vstd::string::{StringExecFns, StringSliceAdditionalSpecFns};
use vstd::slice::slice_subrange;
use vstd::utf8::{decode_utf8, valid_utf8};
use crate::buffer::utf8_to_string;
use crate::bytes::{byte_range, decode_le, le_bytes, le_value, lemma_byte_range_values, lemma_le_value_bound};
use crate::connection::{str_field, zeros};
use crate::error::ParseError;
use crate::packet::{append_le, append_raw, append_str, append_u8, append_zeros};
use crate::upload::{format_rfc3339_utc, rfc3339_utc, YEAR_10000_NANOS};
use packet::{frame_of, request_frame, PacketId};
use crate::text::{
    all_ascii, ascii_chars, ascii_to_string, decimal, lemma_decimal_ascii, lowercase, push_decimal,
    str_eq, to_lowercase, trim_end_char, trim_end_matches_char,
};

pub mod packet;

verus! {

/// Milliseconds from the UNIX epoch to 2000-01-01, where brain time starts.
pub const EPOCH_MS_TO_JAN_1_2000: u64 = 946684800000;

/// The kinds of program files.
#[derive(Copy, Clone, Debug, PartialEq, Eq, Structural)]
pub enum FileType {
    Bin,
    Ini,
}

impl FileType {
    pub open spec fn spec_name(self) -> Seq<char> {
        match self {
            FileType::Bin => "bin"@,
            FileType::Ini => "ini"@,
        }
    }

    /// The extension of the kind: "bin" or "ini".
    pub fn get_name(&self) -> (name: &'static str)
        ensures
            name@ == self.spec_name(),
    {
        match self {
            FileType::Bin => "bin",
            FileType::Ini => "ini",
        }
    }

    /// The kind named "bin", the only name this accepts.
    pub fn from_name(name: &str) -> (t: FileType)
        requires
            name@ == "bin"@,
        ensures
            t == FileType::Bin,
    {
        FileType::Bin
    }

    /// The kind a name stands for, in any case: "bin" or "ini".
    pub fn try_from_name(value: &str) -> (r: Result<FileType, ParseError>)
        ensures
            lowercase(value@) == "bin"@ ==> r == Ok::<FileType, ParseError>(FileType::Bin),
            lowercase(value@) == "ini"@ ==> r == Ok::<FileType, ParseError>(FileType::Ini),
            lowercase(value@) != "bin"@ && lowercase(value@) != "ini"@ ==> (r matches Err(
                ParseError::InvalidName(name),
            ) && name@ == value@),
    {
        proof {
            reveal_strlit("bin");
            reveal_strlit("ini");
            assert("bin"@[0] != "ini"@[0]);
        }
        let lower = to_lowercase(value);
        if str_eq(lower.as_str(), "bin") {
            Ok(FileType::Bin)
        } else if str_eq(lower.as_str(), "ini") {
            Ok(FileType::Ini)
        } else {
            Err(ParseError::InvalidName(value.to_string()))
        }
    }
}

/// The states of a competition a brain can be put in.
#[derive(Copy, Clone, Debug, PartialEq, Eq, Structural)]
pub enum CompetitionStatus {
    Disabled,
    Autonomous,
    OpControl,
}

impl CompetitionStatus {
    pub open spec fn spec_id(self) -> u8 {
        match self {
            CompetitionStatus::Disabled => 11,
            CompetitionStatus::Autonomous => 10,
            CompetitionStatus::OpControl => 8,
        }
    }

    /// The byte that stands for the state.
    pub fn id(self) -> (i: u8)
        ensures
            i == self.spec_id(),
    {
        match self {
            CompetitionStatus::Disabled => 11,
            CompetitionStatus::Autonomous => 10,
            CompetitionStatus::OpControl => 8,
        }
    }
}

/// The state a byte stands for: 11 disabled, 10 autonomous, 8 driver control.
pub open spec fn competition_status_of(value: u8) -> Result<CompetitionStatus, ParseError> {
    if value == 11 {
        Ok(CompetitionStatus::Disabled)
    } else if value == 10 {
        Ok(CompetitionStatus::Autonomous)
    } else if value == 8 {
        Ok(CompetitionStatus::OpControl)
    } else {
        Err(ParseError::InvalidId(value as u32))
    }
}

impl TryFrom<u8> for CompetitionStatus {
    type Error = ParseError;

    fn try_from(value: u8) -> (r: Result<CompetitionStatus, ParseError>) {
        if value == 11 {
            Ok(CompetitionStatus::Disabled)
        } else if value == 10 {
            Ok(CompetitionStatus::Autonomous)
        } else if value == 8 {
            Ok(CompetitionStatus::OpControl)
        } else {
            Err(ParseError::InvalidId(value as u32))
        }
    }
}

impl vstd::std_specs::convert::TryFromSpecImpl<u8> for CompetitionStatus {
    open spec fn obeys_try_from_spec() -> bool {
        true
    }

    open spec fn try_from_spec(v: u8) -> Result<CompetitionStatus, ParseError> {
        competition_status_of(v)
    }
}

/// The state's byte reads back as the state.
pub proof fn lemma_competition_status_roundtrip(status: CompetitionStatus)
    ensures
        competition_status_of(status.spec_id()) == Ok::<CompetitionStatus, ParseError>(status),
{
}

/// What answered a version request: a brain, or a controller, connected to a brain or
/// not.
#[derive(Copy, Clone, Debug, PartialEq, Eq, Structural)]
pub enum Product {
    Brain,
    Controller { connected: bool },
}

/// The product an id and flag byte stand for: 0x10 a brain, 0x11 a controller,
/// connected when bit 1 of the flag is set.
pub open spec fn product_of(id: u8, flag: u8) -> Result<Product, ParseError> {
    if id == 0x10 {
        Ok(Product::Brain)
    } else if id == 0x11 {
        Ok(Product::Controller { connected: (flag / 2) % 2 == 1 })
    } else {
        Err(ParseError::InvalidId(id as u32))
    }
}

impl Product {
    pub open spec fn spec_id(self) -> u8 {
        match self {
            Product::Brain => 0x10,
            Product::Controller { .. } => 0x11,
        }
    }

    pub open spec fn spec_name(self) -> Seq<char> {
        match self {
            Product::Brain => "Brain"@,
            Product::Controller { connected: true } => "Controller (Connected)"@,
            Product::Controller { connected: false } => "Controller (Disconnected)"@,
        }
    }

    pub fn parse(id: u8, flag: u8) -> (r: Result<Product, ParseError>)
        ensures
            r == product_of(id, flag),
    {
        if id == 0x10 {
            Ok(Product::Brain)
        } else if id == 0x11 {
            Ok(Product::Controller { connected: (flag / 2) % 2 == 1 })
        } else {
            Err(ParseError::InvalidId(id as u32))
        }
    }

    pub fn get_id(&self) -> (i: u8)
        ensures
            i == self.spec_id(),
    {
        match self {
            Product::Brain => 0x10,
            Product::Controller { .. } => 0x11,
        }
    }

    /// "Brain", "Controller (Connected)" or "Controller (Disconnected)".
    pub fn get_name(&self) -> (name: &'static str)
        ensures
            name@ == self.spec_name(),
    {
        match self {
            Product::Brain => "Brain",
            Product::Controller { connected: true } => "Controller (Connected)",
            Product::Controller { connected: false } => "Controller (Disconnected)",
        }
    }
}

/// A product's id reads back as the same kind of product.
pub proof fn lemma_product_id_roundtrip(product: Product)
    ensures
        product_of(product.spec_id(), 0) matches Ok(p) && p.spec_id() == product.spec_id(),
{
}

/// What the brain does after an upload.
#[derive(Copy, Clone, Debug, PartialEq, Eq, Structural)]
pub enum UploadAction {
    Nothing,
    Run,
    RunScreen,
}

impl UploadAction {
    pub open spec fn spec_id(self) -> u8 {
        match self {
            UploadAction::Nothing => 0,
            UploadAction::Run => 1,
            UploadAction::RunScreen => 3,
        }
    }

    /// The action's byte.
    pub fn id(self) -> (i: u8)
        ensures
            i == self.spec_id(),
    {
        match self {
            UploadAction::Nothing => 0,
            UploadAction::Run => 1,
            UploadAction::RunScreen => 3,
        }
    }

    /// Computes the action's byte and hands nothing back.
    pub fn get_id(&self) {
        let _ = self.id();
    }

    /// The action a command-line name stands for, in any case: "nothing", "run" or
    /// "screen".
    pub fn try_from_name(value: &str) -> (r: Result<UploadAction, ParseError>)
        ensures
            lowercase(value@) == "nothing"@ ==> r == Ok::<UploadAction, ParseError>(
                UploadAction::Nothing,
            ),
            lowercase(value@) == "run"@ ==> r == Ok::<UploadAction, ParseError>(UploadAction::Run),
            lowercase(value@) == "screen"@ ==> r == Ok::<UploadAction, ParseError>(
                UploadAction::RunScreen,
            ),
            lowercase(value@) != "nothing"@ && lowercase(value@) != "run"@ && lowercase(value@)
                != "screen"@ ==> (r matches Err(ParseError::InvalidName(name)) && name@ == value@),
    {
        proof {
            reveal_strlit("nothing");
            reveal_strlit("run");
            reveal_strlit("screen");
            assert("nothing"@.len() != "run"@.len());
            assert("nothing"@.len() != "screen"@.len());
            assert("run"@.len() != "screen"@.len());
        }
        let lower = to_lowercase(value);
        if str_eq(lower.as_str(), "nothing") {
            Ok(UploadAction::Nothing)
        } else if str_eq(lower.as_str(), "run") {
            Ok(UploadAction::Run)
        } else if str_eq(lower.as_str(), "screen") {
            Ok(UploadAction::RunScreen)
        } else {
            Err(ParseError::InvalidName(value.to_string()))
        }
    }
}

impl Default for UploadAction {
    fn default() -> (a: UploadAction)
        ensures
            a == UploadAction::Nothing,
    {
        UploadAction::Nothing
    }
}

/// Which way a transfer goes.
#[derive(Copy, Clone, Debug, PartialEq, Eq, Structural)]
pub enum TransferDirection {
    Upload,
    Download,
}

impl TransferDirection {
    pub open spec fn spec_id(self) -> u8 {
        match self {
            TransferDirection::Upload => 1,
            TransferDirection::Download => 2,
        }
    }

    pub fn get_id(&self) -> (i: u8)
        ensures
            i == self.spec_id(),
    {
        match self {
            TransferDirection::Upload => 1,
            TransferDirection::Download => 2,
        }
    }
}

/// Where a transfer's file lives.
#[derive(Copy, Clone, Debug, PartialEq, Eq, Structural)]
pub enum TransferTarget {
    DDR,
    Flash,
    Screen,
}

impl TransferTarget {
    pub open spec fn spec_id(self) -> u8 {
        match self {
            TransferTarget::DDR => 0,
            TransferTarget::Flash => 1,
            TransferTarget::Screen => 2,
        }
    }

    pub fn get_id(&self) -> (i: u8)
        ensures
            i == self.spec_id(),
    {
        match self {
            TransferTarget::DDR => 0,
            TransferTarget::Flash => 1,
            TransferTarget::Screen => 2,
        }
    }
}

/// Vendor ids: the owners of files on the brain.
#[derive(Copy, Clone, Debug, PartialEq, Eq, Structural)]
pub enum Vid {
    User,
    System,
    Rms,
    Pros,
    V5Cli,
    Mw,
    Custom(u8),
}

/// The vendor an id byte stands for.
pub open spec fn vid_of(id: u8) -> Vid {
    if id == 1 {
        Vid::User
    } else if id == 15 {
        Vid::System
    } else if id == 16 {
        Vid::Rms
    } else if id == 24 {
        Vid::Pros
    } else if id == 27 {
        Vid::V5Cli
    } else if id == 32 {
        Vid::Mw
    } else {
        Vid::Custom(id)
    }
}

impl Vid {
    pub open spec fn spec_id(self) -> u8 {
        match self {
            Vid::User => 1,
            Vid::System => 15,
            Vid::Rms => 16,
            Vid::Pros => 24,
            Vid::V5Cli => 27,
            Vid::Mw => 32,
            Vid::Custom(c) => c,
        }
    }

    pub open spec fn spec_name(self) -> Seq<char> {
        match self {
            Vid::User => "user"@,
            Vid::System => "system"@,
            Vid::Rms => "rms"@,
            Vid::Pros => "pros"@,
            Vid::V5Cli => "v5_cli"@,
            Vid::Mw => "mw"@,
            Vid::Custom(_) => "custom"@,
        }
    }

    pub fn get_id(&self) -> (i: u8)
        ensures
            i == self.spec_id(),
    {
        match self {
            Vid::User => 1,
            Vid::System => 15,
            Vid::Rms => 16,
            Vid::Pros => 24,
            Vid::V5Cli => 27,
            Vid::Mw => 32,
            Vid::Custom(c) => *c,
        }
    }

    /// The named vendor an id stands for; only the ids of user, system, RMS, PROS and
    /// MW are accepted.
    pub fn from_id(id: u8) -> (v: Vid)
        requires
            id == 1 || id == 15 || id == 16 || id == 24 || id == 32,
        ensures
            v == vid_of(id),
    {
        if id == 1 {
            Vid::User
        } else if id == 15 {
            Vid::System
        } else if id == 16 {
            Vid::Rms
        } else if id == 24 {
            Vid::Pros
        } else {
            Vid::Mw
        }
    }

    /// How the vendor is shown: its name, then its id in brackets.
    pub fn to_display_string(&self) -> (s: String)
        ensures
            s@ == self.spec_name() + " ("@ + ascii_chars(decimal(self.spec_id() as nat)) + ")"@,
    {
        let name = match self {
            Vid::User => "user",
            Vid::System => "system",
            Vid::Rms => "rms",
            Vid::Pros => "pros",
            Vid::V5Cli => "v5_cli",
            Vid::Mw => "mw",
            Vid::Custom(_) => "custom",
        };
        let mut s = String::from_str(name);
        s.append(" (");
        let digits = crate::text::decimal_string(self.get_id() as u64);
        s.append(digits.as_str());
        s.append(")");
        s
    }
}

impl From<u8> for Vid {
    fn from(id: u8) -> (v: Vid) {
        if id == 1 {
            Vid::User
        } else if id == 15 {
            Vid::System
        } else if id == 16 {
            Vid::Rms
        } else if id == 24 {
            Vid::Pros
        } else if id == 27 {
            Vid::V5Cli
        } else if id == 32 {
            Vid::Mw
        } else {
            Vid::Custom(id)
        }
    }
}

impl vstd::std_specs::convert::FromSpecImpl<u8> for Vid {
    open spec fn obeys_from_spec() -> bool {
        true
    }

    open spec fn from_spec(v: u8) -> Vid {
        vid_of(v)
    }
}

/// A vendor's id reads back as the vendor, and every id as a vendor with that id.
pub proof fn lemma_vid_roundtrip(vid: Vid, id: u8)
    ensures
        vid !is Custom || !(vid->0 == 1 || vid->0 == 15 || vid->0 == 16 || vid->0 == 24 || vid->0
            == 27 || vid->0 == 32) ==> vid_of(vid.spec_id()) == vid,
        vid_of(id).spec_id() == id,
{
}

/// Kernel variables a brain stores.
#[derive(Copy, Clone, Debug, PartialEq, Eq, Structural)]
pub enum KernelVariable {
    TeamNumber,
    RobotName,
}

impl KernelVariable {
    pub open spec fn spec_id(self) -> u8 {
        match self {
            KernelVariable::TeamNumber => 7,
            KernelVariable::RobotName => 16,
        }
    }

    /// The longest value (with its terminator) the variable takes.
    pub open spec fn spec_max_len(self) -> u8 {
        match self {
            KernelVariable::TeamNumber => 7,
            KernelVariable::RobotName => 16,
        }
    }

    pub fn get_max_len(&self) -> (n: u8)
        ensures
            n == self.spec_max_len(),
    {
        match self {
            KernelVariable::TeamNumber => 7,
            KernelVariable::RobotName => 16,
        }
    }

    pub fn get_id(&self) -> (i: u8)
        ensures
            i == self.spec_id(),
    {
        match self {
            KernelVariable::TeamNumber => 7,
            KernelVariable::RobotName => 16,
        }
    }

    /// The variable a command-line name stands for, in any case: "team_number" or
    /// "robot_name". An unknown name comes back in lower case.
    pub fn try_from_name(id: &str) -> (r: Result<KernelVariable, ParseError>)
        ensures
            lowercase(id@) == "team_number"@ ==> r == Ok::<KernelVariable, ParseError>(
                KernelVariable::TeamNumber,
            ),
            lowercase(id@) == "robot_name"@ ==> r == Ok::<KernelVariable, ParseError>(
                KernelVariable::RobotName,
            ),
            lowercase(id@) != "team_number"@ && lowercase(id@) != "robot_name"@ ==> (r matches Err(
                ParseError::InvalidName(name),
            ) && name@ == lowercase(id@)),
    {
        proof {
            reveal_strlit("team_number");
            reveal_strlit("robot_name");
            assert("team_number"@.len() != "robot_name"@.len());
        }
        let lower = to_lowercase(id);
        if str_eq(lower.as_str(), "team_number") {
            Ok(KernelVariable::TeamNumber)
        } else if str_eq(lower.as_str(), "robot_name") {
            Ok(KernelVariable::RobotName)
        } else {
            Err(ParseError::InvalidName(lower))
        }
    }

    /// As `try_from_name`, for an owned name; an unknown name comes back as given.
    pub fn try_from_string(id: String) -> (r: Result<KernelVariable, ParseError>)
        ensures
            lowercase(id@) == "team_number"@ ==> r == Ok::<KernelVariable, ParseError>(
                KernelVariable::TeamNumber,
            ),
            lowercase(id@) == "robot_name"@ ==> r == Ok::<KernelVariable, ParseError>(
                KernelVariable::RobotName,
            ),
            lowercase(id@) != "team_number"@ && lowercase(id@) != "robot_name"@ ==> (r matches Err(
                ParseError::InvalidName(name),
            ) && name@ == id@),
    {
        proof {
            reveal_strlit("team_number");
            reveal_strlit("robot_name");
            assert("team_number"@.len() != "robot_name"@.len());
        }
        let lower = to_lowercase(id.as_str());
        if str_eq(lower.as_str(), "team_number") {
            Ok(KernelVariable::TeamNumber)
        } else if str_eq(lower.as_str(), "robot_name") {
            Ok(KernelVariable::RobotName)
        } else {
            Err(ParseError::InvalidName(id))
        }
    }
}

/// The variable an id stands for: 7 the team number, 16 the robot name.
pub open spec fn kernel_variable_of(id: u8) -> Result<KernelVariable, ParseError> {
    if id == 7 {
        Ok(KernelVariable::TeamNumber)
    } else if id == 16 {
        Ok(KernelVariable::RobotName)
    } else {
        Err(ParseError::InvalidId(id as u32))
    }
}

impl TryFrom<u8> for KernelVariable {
    type Error = ParseError;

    fn try_from(id: u8) -> (r: Result<KernelVariable, ParseError>) {
        if id == 7 {
            Ok(KernelVariable::TeamNumber)
        } else if id == 16 {
            Ok(KernelVariable::RobotName)
        } else {
            Err(ParseError::InvalidId(id as u32))
        }
    }
}

impl vstd::std_specs::convert::TryFromSpecImpl<u8> for KernelVariable {
    open spec fn obeys_try_from_spec() -> bool {
        true
    }

    open spec fn try_from_spec(v: u8) -> Result<KernelVariable, ParseError> {
        kernel_variable_of(v)
    }
}

/// A variable's id reads back as the variable.
pub proof fn lemma_kernel_variable_roundtrip(variable: KernelVariable)
    ensures
        kernel_variable_of(variable.spec_id()) == Ok::<KernelVariable, ParseError>(variable),
{
}

/// The channel of the user port.
#[derive(Copy, Clone, Debug, PartialEq, Eq, Structural)]
pub enum Channel {
    Pit,
    Download,
}

impl TryFrom<u8> for Channel {
    type Error = ParseError;

    fn try_from(id: u8) -> (r: Result<Channel, ParseError>) {
        if id == 0 {
            Ok(Channel::Pit)
        } else if id == 1 {
            Ok(Channel::Download)
        } else {
            Err(ParseError::InvalidId(id as u32))
        }
    }
}

impl vstd::std_specs::convert::TryFromSpecImpl<u8> for Channel {
    open spec fn obeys_try_from_spec() -> bool {
        true
    }

    open spec fn try_from_spec(v: u8) -> Result<Channel, ParseError> {
        if v == 0 {
            Ok(Channel::Pit)
        } else if v == 1 {
            Ok(Channel::Download)
        } else {
            Err(ParseError::InvalidId(v as u32))
        }
    }
}

/// Seconds from the UNIX epoch to 2000-01-01.
pub open spec fn jan_1_2000_secs() -> nat {
    946684800
}

/// The 32-bit little-endian number at `at`.
fn u32_at(p: &[u8], at: usize) -> (v: u32)
    requires
        at + 4 <= p@.len(),
    ensures
        v as nat == le_value(p@.subrange(at as int, at + 4)),
{
    proof {
        lemma_le_value_bound(p@.subrange(at as int, at + 4));
        lemma_byte_range_values();
    }
    decode_le(p, at, 4) as u32
}

/// The 16-bit little-endian number at `at`.
fn u16_at(p: &[u8], at: usize) -> (v: u16)
    requires
        at + 2 <= p@.len(),
    ensures
        v as nat == le_value(p@.subrange(at as int, at + 2)),
{
    proof {
        lemma_le_value_bound(p@.subrange(at as int, at + 2));
        lemma_byte_range_values();
    }
    decode_le(p, at, 2) as u16
}

/// A text field: its bytes as UTF-8 without trailing NULs; `None` where they are not
/// UTF-8.
pub open spec fn text_field_spec(bytes: Seq<u8>) -> Option<Seq<char>> {
    if valid_utf8(bytes) {
        Some(trim_end_char(decode_utf8(bytes), '\0'))
    } else {
        None
    }
}

/// Reads a text field.
pub fn text_field(bytes: &[u8]) -> (t: Option<String>)
    ensures
        t is Some <==> text_field_spec(bytes@) is Some,
        t matches Some(s) ==> s@ == text_field_spec(bytes@)->0,
{
    match utf8_to_string(bytes) {
        Some(s) => Some(trim_end_matches_char(s.as_str(), '\0')),
        None => None,
    }
}

/// What the brain stores about a file, as a request by name returns it; the timestamp
/// is in seconds since the UNIX epoch.
pub struct FileMetadata {
    pub vid: Vid,
    pub size: u32,
    pub addr: u32,
    pub crc: u32,
    pub file_type: String,
    pub timestamp: u64,
    pub name: String,
}

/// What the brain stores about a file, as a request by index returns it.
pub struct FileMetadata2 {
    pub index: u8,
    pub size: u32,
    pub addr: u32,
    pub crc: u32,
    pub file_type: String,
    pub timestamp: u64,
    pub version: String,
    pub name: String,
}

impl FileMetadata2 {
    /// How the metadata is shown: one "Label: value" line each for the name, version,
    /// size, address, CRC and file type, and the timestamp in RFC 3339 form.
    pub fn to_display_string(&self) -> (s: String)
        requires
            self.timestamp * 1_000_000_000 < YEAR_10000_NANOS,
        ensures
            s@ == "Name: "@ + self.name@ + "\nVersion: "@ + self.version@ + "\nSize: "@ + ascii_chars(
                decimal(self.size as nat),
            ) + "\nAddress: "@ + ascii_chars(decimal(self.addr as nat)) + "\nCRC: "@ + ascii_chars(
                decimal(self.crc as nat),
            ) + "\nFile Type: "@ + self.file_type@ + "\nTimestamp: "@ + rfc3339_utc(
                self.timestamp * 1_000_000_000,
            ),
    {
        let mut s = String::from_str("Name: ");
        s.append(self.name.as_str());
        s.append("\nVersion: ");
        s.append(self.version.as_str());
        s.append("\nSize: ");
        s.append(crate::text::decimal_string(self.size as u64).as_str());
        s.append("\nAddress: ");
        s.append(crate::text::decimal_string(self.addr as u64).as_str());
        s.append("\nCRC: ");
        s.append(crate::text::decimal_string(self.crc as u64).as_str());
        s.append("\nFile Type: ");
        s.append(self.file_type.as_str());
        s.append("\nTimestamp: ");
        let nanos = self.timestamp as i128 * 1_000_000_000;
        match format_rfc3339_utc(nanos) {
            Some(t) => s.append(t.as_str()),
            None => {
                assert(false);
            },
        }
        s
    }
}

/// What the brain says about an accepted transfer.
#[derive(Copy, Clone, Debug, PartialEq, Eq, Structural)]
pub struct UploadMeta {
    pub max_packet_size: u16,
    pub file_size: u32,
    pub crc: u32,
}

/// The version a brain or controller reports, and what it is.
#[derive(Copy, Clone, Debug, PartialEq, Eq, Structural)]
pub struct SystemVersion {
    major: u8,
    minor: u8,
    patch: u8,
    a: u8,
    b: u8,
    product: Product,
}

impl SystemVersion {
    /// The major, minor and patch numbers, the two build numbers and the product.
    pub closed spec fn spec_parts(self) -> (u8, u8, u8, u8, u8, Product) {
        (self.major, self.minor, self.patch, self.a, self.b, self.product)
    }

    /// The version as "major.minor.patch-a.b".
    pub fn get_version(&self) -> (s: String)
        ensures
            s@ == ascii_chars(
                decimal(self.spec_parts().0 as nat) + seq![0x2Eu8] + decimal(self.spec_parts().1 as nat)
                    + seq![0x2Eu8] + decimal(self.spec_parts().2 as nat) + seq![0x2Du8] + decimal(
                    self.spec_parts().3 as nat,
                ) + seq![0x2Eu8] + decimal(self.spec_parts().4 as nat),
            ),
    {
        let mut out: Vec<u8> = Vec::new();
        push_decimal(&mut out, self.major as u64);
        out.push(0x2E);
        push_decimal(&mut out, self.minor as u64);
        out.push(0x2E);
        push_decimal(&mut out, self.patch as u64);
        out.push(0x2D);
        push_decimal(&mut out, self.a as u64);
        out.push(0x2E);
        push_decimal(&mut out, self.b as u64);
        proof {
            lemma_decimal_ascii(self.major as nat);
            lemma_decimal_ascii(self.minor as nat);
            lemma_decimal_ascii(self.patch as nat);
            lemma_decimal_ascii(self.a as nat);
            lemma_decimal_ascii(self.b as nat);
            assert(all_ascii(out@));
        }
        ascii_to_string(out.as_slice())
    }

    pub fn get_product(&self) -> (p: &Product)
        ensures
            *p == self.spec_parts().5,
    {
        &self.product
    }

    /// A brain can be reached: it answered itself, or through a controller connected to
    /// it.
    pub fn is_brain_available(&self) -> (available: bool)
        ensures
            available == match self.spec_parts().5 {
                Product::Brain => true,
                Product::Controller { connected } => connected,
            },
    {
        match self.product {
            Product::Brain => true,
            Product::Controller { connected } => connected,
        }
    }
}

/// The request for the system version: the header and 0xA4, without length or CRC.
pub fn get_system_version_request() -> (frame: Vec<u8>)
    ensures
        frame@ == seq![0xC9u8, 0x36u8, 0xB8u8, 0x47u8, 0xA4u8],
{
    let frame: Vec<u8> = vec![0xC9u8, 0x36u8, 0xB8u8, 0x47u8, PacketId::GetSystemVersion.id()];
    assert(frame@ =~= seq![0xC9u8, 0x36u8, 0xB8u8, 0x47u8, 0xA4u8]);
    frame
}

/// Reads the twelve-byte answer to the version request: after four bytes, the major,
/// minor and patch numbers, the two build numbers, then the product id and flag.
pub fn parse_system_version(response: &[u8]) -> (r: Result<SystemVersion, ParseError>)
    requires
        response@.len() >= 12,
    ensures
        product_of(response@[9], response@[10]) matches Err(e) ==> r == Err::<SystemVersion, ParseError>(e),
        product_of(response@[9], response@[10]) matches Ok(p) ==> r matches Ok(v) && v.spec_parts() == (
            response@[4],
            response@[5],
            response@[6],
            response@[7],
            response@[8],
            p,
        ),
{
    match Product::parse(response[9], response[10]) {
        Ok(product) => Ok(
            SystemVersion {
                major: response[4],
                minor: response[5],
                patch: response[6],
                a: response[7],
                b: response[8],
                product,
            },
        ),
        Err(e) => Err(e),
    }
}

/// A four-part firmware version.
#[derive(Copy, Clone, Debug, PartialEq, Eq, Structural)]
pub struct Version {
    major: u8,
    minor: u8,
    patch: u8,
    extra: u8,
}

impl Version {
    pub closed spec fn spec_parts(self) -> (u8, u8, u8, u8) {
        (self.major, self.minor, self.patch, self.extra)
    }

    pub fn new(major: u8, minor: u8, patch: u8, extra: u8) -> (v: Version)
        ensures
            v.spec_parts() == (major, minor, patch, extra),
    {
        Version { major, minor, patch, extra }
    }

    pub fn new_from_array(value: [u8; 4]) -> (v: Version)
        ensures
            v.spec_parts() == (value@[0], value@[1], value@[2], value@[3]),
    {
        Self::new(value[0], value[1], value[2], value[3])
    }

    /// The version as "major.minor.patch-extra".
    pub fn to_display_string(&self) -> (s: String)
        ensures
            s@ == ascii_chars(
                decimal(self.spec_parts().0 as nat) + seq![0x2Eu8] + decimal(self.spec_parts().1 as nat)
                    + seq![0x2Eu8] + decimal(self.spec_parts().2 as nat) + seq![0x2Du8] + decimal(
                    self.spec_parts().3 as nat,
                ),
            ),
    {
        let mut out: Vec<u8> = Vec::new();
        push_decimal(&mut out, self.major as u64);
        out.push(0x2E);
        push_decimal(&mut out, self.minor as u64);
        out.push(0x2E);
        push_decimal(&mut out, self.patch as u64);
        out.push(0x2D);
        push_decimal(&mut out, self.extra as u64);
        proof {
            lemma_decimal_ascii(self.major as nat);
            lemma_decimal_ascii(self.minor as nat);
            lemma_decimal_ascii(self.patch as nat);
            lemma_decimal_ascii(self.extra as nat);
            assert(all_ascii(out@));
        }
        ascii_to_string(out.as_slice())
    }
}

/// The firmware versions of a brain's parts, its touch screen version and system id.
#[derive(Copy, Clone, Debug, PartialEq, Eq, Structural)]
pub struct SystemStatus {
    system: Version,
    cpu0: Version,
    cpu1: Version,
    touch: u8,
    system_id: u8,
}

impl SystemStatus {
    pub closed spec fn spec_parts(self) -> (Version, Version, Version, u8, u8) {
        (self.system, self.cpu0, self.cpu1, self.touch, self.system_id)
    }

    pub fn new(system: Version, cpu0: Version, cpu1: Version, touch: u8, system_id: u8) -> (s:
        SystemStatus)
        ensures
            s.spec_parts() == (system, cpu0, cpu1, touch, system_id),
    {
        SystemStatus { system, cpu0, cpu1, touch, system_id }
    }

    pub fn get_system_version(&self) -> (v: &Version)
        ensures
            *v == self.spec_parts().0,
    {
        &self.system
    }

    pub fn get_cpu0_version(&self) -> (v: &Version)
        ensures
            *v == self.spec_parts().1,
    {
        &self.cpu0
    }

    pub fn get_cpu1_version(&self) -> (v: &Version)
        ensures
            *v == self.spec_parts().2,
    {
        &self.cpu1
    }

    pub fn get_touch_version(&self) -> (t: u8)
        ensures
            t == self.spec_parts().3,
    {
        self.touch
    }

    pub fn get_system_id(&self) -> (i: u8)
        ensures
            i == self.spec_parts().4,
    {
        self.system_id
    }
}

/// The version in four bytes from `at`.
fn version_at(data: &[u8], at: usize) -> (v: Version)
    requires
        at + 4 <= data@.len(),
    ensures
        v.spec_parts() == (data@[at as int], data@[at + 1], data@[at + 2], data@[at + 3]),
{
    Version::new(data[at], data[at + 1], data[at + 2], data[at + 3])
}

/// Reads the data of a status answer: three four-byte versions (system, CPU 0, CPU 1),
/// the touch version and the system id.
pub fn parse_system_status(data: &[u8]) -> (s: SystemStatus)
    requires
        data@.len() >= 14,
    ensures
        s.spec_parts().0.spec_parts() == (data@[0], data@[1], data@[2], data@[3]),
        s.spec_parts().1.spec_parts() == (data@[4], data@[5], data@[6], data@[7]),
        s.spec_parts().2.spec_parts() == (data@[8], data@[9], data@[10], data@[11]),
        s.spec_parts().3 == data@[12],
        s.spec_parts().4 == data@[13],
{
    SystemStatus::new(version_at(data, 0), version_at(data, 4), version_at(data, 8), data[12], data[13])
}

/// Reads the data of a directory count answer: a 16-bit little-endian count.
pub fn parse_directory_count(data: &[u8]) -> (count: u16)
    requires
        data@.len() >= 2,
    ensures
        count as nat == le_value(data@.subrange(0, 2)),
{
    u16_at(data, 0)
}

/// Reads the data of an answer to a transfer's start: the largest packet (16 bits), the
/// file size and the CRC (32 bits each), little-endian.
pub fn parse_upload_meta(data: &[u8]) -> (m: UploadMeta)
    requires
        data@.len() >= 10,
    ensures
        m.max_packet_size as nat == le_value(data@.subrange(0, 2)),
        m.file_size as nat == le_value(data@.subrange(2, 6)),
        m.crc as nat == le_value(data@.subrange(6, 10)),
{
    UploadMeta { max_packet_size: u16_at(data, 0), file_size: u32_at(data, 2), crc: u32_at(data, 6) }
}

/// Reads the value of a kernel variable from an answer's data: UTF-8 without trailing
/// NULs; `None` where it is not UTF-8.
pub fn parse_kernel_variable_value(data: &[u8]) -> (value: Option<String>)
    ensures
        value is Some <==> text_field_spec(data@) is Some,
        value matches Some(s) ==> s@ == text_field_spec(data@)->0,
{
    text_field(data)
}

/// Reads the data of a metadata answer to a request by name: the vendor, the size,
/// address and CRC (32 bits each), two bytes passed over, the file type (four bytes),
/// the timestamp in brain time (32 bits), four bytes passed over and the name in the
/// rest. `None` where a text is not UTF-8.
pub fn parse_file_metadata(p: &[u8]) -> (m: Option<FileMetadata>)
    requires
        p@.len() >= 27,
    ensures
        m is Some <==> (text_field_spec(p@.subrange(15, 19)) is Some && text_field_spec(
            p@.subrange(27, p@.len() as int),
        ) is Some),
        m matches Some(m) ==> {
            &&& m.vid == vid_of(p@[0])
            &&& m.size as nat == le_value(p@.subrange(1, 5))
            &&& m.addr as nat == le_value(p@.subrange(5, 9))
            &&& m.crc as nat == le_value(p@.subrange(9, 13))
            &&& m.file_type@ == text_field_spec(p@.subrange(15, 19))->0
            &&& m.timestamp == jan_1_2000_secs() + le_value(p@.subrange(19, 23))
            &&& m.name@ == text_field_spec(p@.subrange(27, p@.len() as int))->0
        },
{
    let len = p.len();
    let file_type = match text_field(slice_subrange(p, 15, 19)) {
        Some(t) => t,
        None => {
            return None;
        },
    };
    let name = match text_field(slice_subrange(p, 27, len)) {
        Some(t) => t,
        None => {
            return None;
        },
    };
    let stamp = u32_at(p, 19);
    Some(
        FileMetadata {
            vid: Vid::from(p[0]),
            size: u32_at(p, 1),
            addr: u32_at(p, 5),
            crc: u32_at(p, 9),
            file_type,
            timestamp: 946684800 + stamp as u64,
            name,
        },
    )
}

/// Reads the data of a metadata answer to a request by index: the index, the size,
/// address and CRC (32 bits each), the file type (four bytes), the timestamp in brain
/// time and the version (32 bits each), then the name (24 bytes). `None` where a text
/// is not UTF-8.
pub fn parse_file_metadata_by_index(p: &[u8]) -> (m: Option<FileMetadata2>)
    requires
        p@.len() >= 49,
    ensures
        m is Some <==> (text_field_spec(p@.subrange(13, 17)) is Some && text_field_spec(
            p@.subrange(25, 49),
        ) is Some),
        m matches Some(m) ==> {
            &&& m.index == p@[0]
            &&& m.size as nat == le_value(p@.subrange(1, 5))
            &&& m.addr as nat == le_value(p@.subrange(5, 9))
            &&& m.crc as nat == le_value(p@.subrange(9, 13))
            &&& m.file_type@ == text_field_spec(p@.subrange(13, 17))->0
            &&& m.timestamp == jan_1_2000_secs() + le_value(p@.subrange(17, 21))
            &&& m.version@ == ascii_chars(decimal(le_value(p@.subrange(21, 25))))
            &&& m.name@ == text_field_spec(p@.subrange(25, 49))->0
        },
{
    let file_type = match text_field(slice_subrange(p, 13, 17)) {
        Some(t) => t,
        None => {
            return None;
        },
    };
    let name = match text_field(slice_subrange(p, 25, 49)) {
        Some(t) => t,
        None => {
            return None;
        },
    };
    let stamp = u32_at(p, 17);
    let version = crate::text::decimal_string(u32_at(p, 21) as u64);
    Some(
        FileMetadata2 {
            index: p[0],
            size: u32_at(p, 1),
            addr: u32_at(p, 5),
            crc: u32_at(p, 9),
            file_type,
            timestamp: 946684800 + stamp as u64,
            version,
            name,
        },
    )
}

/// A text that `write_str` takes: ASCII, without NUL, shorter than `limit`.
pub open spec fn writable_text(s: &str, limit: nat) -> bool {
    vstd::string::is_ascii(s) && !s@.contains('\0') && s@.len() < limit
}

/// The request for a file's metadata by name: the vendor, 0, then the name and a NUL.
pub fn read_file_metadata_request(name: &str, vid: Vid) -> (frame: Vec<u8>)
    requires
        writable_text(name, 24),
        name@.len() > 0,
    ensures
        frame@ == request_frame(0x19, seq![vid.spec_id(), 0u8] + name.spec_bytes() + seq![0u8]),
{
    let mut c: Vec<u8> = Vec::new();
    append_u8(&mut c, vid.get_id());
    append_u8(&mut c, 0);
    append_raw(&mut c, name.as_bytes());
    append_u8(&mut c, 0);
    proof {
        vstd::string::is_ascii_spec_bytes(name);
    }
    assert(c@ =~= seq![vid.spec_id(), 0u8] + name.spec_bytes() + seq![0u8]);
    frame_of(PacketId::GetFileMetadataByName, c.as_slice())
}

/// The request that starts a file transfer: direction, target, vendor, overwrite flag,
/// length, address and CRC, the file type and a NUL, the timestamp in brain time (the
/// whole seconds since 2000, taken modulo 2^32), the version and the name in a field of
/// 24 bytes.
pub fn initialize_file_transfer_request(
    direction: TransferDirection,
    target: TransferTarget,
    vid: Vid,
    overwrite: bool,
    length: u32,
    address: u32,
    crc: u32,
    version: u32,
    file_type: FileType,
    name: &str,
    unix_secs: u64,
) -> (frame: Vec<u8>)
    requires
        writable_text(name, 24),
        name@.len() > 0,
        unix_secs >= jan_1_2000_secs(),
    ensures
        frame@ == request_frame(
            0x11,
            seq![
                direction.spec_id(),
                target.spec_id(),
                vid.spec_id(),
                if overwrite { 1u8 } else { 0u8 },
            ] + le_bytes(length as nat, 4) + le_bytes(address as nat, 4) + le_bytes(crc as nat, 4)
                + str_field(file_type.spec_name().map_values(|ch: char| ch as u8), 4) + le_bytes(
                ((unix_secs - jan_1_2000_secs()) as u32) as nat,
                4,
            ) + le_bytes(version as nat, 4) + str_field(name.spec_bytes(), 24),
        ),
{
    let mut c: Vec<u8> = Vec::new();
    append_u8(&mut c, direction.get_id());
    append_u8(&mut c, target.get_id());
    append_u8(&mut c, vid.get_id());
    append_u8(&mut c, if overwrite { 1 } else { 0 });
    append_le(&mut c, length as u128, 4);
    append_le(&mut c, address as u128, 4);
    append_le(&mut c, crc as u128, 4);
    let kind_name = file_type.get_name();
    proof {
        reveal_strlit("bin");
        reveal_strlit("ini");
        vstd::string::is_ascii_spec_bytes(kind_name);
        assert(kind_name.spec_bytes() =~= file_type.spec_name().map_values(|ch: char| ch as u8));
    }
    append_str(&mut c, kind_name, 4);
    let stamp: u32 = #[verifier::truncate] ((unix_secs - 946684800) as u32);
    append_le(&mut c, stamp as u128, 4);
    append_le(&mut c, version as u128, 4);
    proof {
        vstd::string::is_ascii_spec_bytes(name);
    }
    append_str(&mut c, name, 24);
    proof {
        crate::bytes::lemma_le_bytes_len(length as nat, 4);
        crate::bytes::lemma_le_bytes_len(address as nat, 4);
        crate::bytes::lemma_le_bytes_len(crc as nat, 4);
        crate::bytes::lemma_le_bytes_len(version as nat, 4);
        crate::bytes::lemma_le_bytes_len(stamp as nat, 4);
    }
    assert(c@ =~= seq![
        direction.spec_id(),
        target.spec_id(),
        vid.spec_id(),
        if overwrite { 1u8 } else { 0u8 },
    ] + le_bytes(length as nat, 4) + le_bytes(address as nat, 4) + le_bytes(crc as nat, 4)
        + str_field(file_type.spec_name().map_values(|ch: char| ch as u8), 4) + le_bytes(
        ((unix_secs - jan_1_2000_secs()) as u32) as nat,
        4,
    ) + le_bytes(version as nat, 4) + str_field(name.spec_bytes(), 24));
    assert(c@.len() == 52);
    frame_of(PacketId::FileTransferInitialize, c.as_slice())
}

/// The request that ends a transfer with what the brain does next.
pub fn complete_file_transfer_request(after: UploadAction) -> (frame: Vec<u8>)
    ensures
        frame@ == request_frame(0x12, seq![after.spec_id()]),
{
    let mut c: Vec<u8> = Vec::new();
    append_u8(&mut c, after.id());
    frame_of(PacketId::FileTransferComplete, c.as_slice())
}

/// The request for a kernel variable: its id.
pub fn get_kernel_variable_request(variable: KernelVariable) -> (frame: Vec<u8>)
    ensures
        frame@ == request_frame(0x2E, seq![variable.spec_id()]),
{
    let mut c: Vec<u8> = Vec::new();
    append_u8(&mut c, variable.get_id());
    frame_of(PacketId::GetKernelVariable, c.as_slice())
}

/// The request that sets a kernel variable: its id, the value and a NUL.
pub fn set_kernel_variable_request(variable: KernelVariable, value: &str) -> (frame: Vec<u8>)
    requires
        writable_text(value, variable.spec_max_len() as nat),
    ensures
        frame@ == request_frame(0x2F, seq![variable.spec_id()] + value.spec_bytes() + seq![0u8]),
{
    let mut c: Vec<u8> = Vec::new();
    append_u8(&mut c, variable.get_id());
    append_raw(&mut c, value.as_bytes());
    append_u8(&mut c, 0);
    proof {
        vstd::string::is_ascii_spec_bytes(value);
    }
    frame_of(PacketId::SetKernelVariable, c.as_slice())
}

/// The request for the system status, with no content.
pub fn get_system_status_request() -> (frame: Vec<u8>)
    ensures
        frame@ == request_frame(0x22, Seq::<u8>::empty()),
{
    let c: Vec<u8> = Vec::new();
    frame_of(PacketId::GetSystemStatus, c.as_slice())
}

/// The request for the number of files of a vendor: the vendor and an option byte.
pub fn get_directory_count_request(vid: Vid, option: u8) -> (frame: Vec<u8>)
    ensures
        frame@ == request_frame(0x16, seq![vid.spec_id(), option]),
{
    let mut c: Vec<u8> = Vec::new();
    append_u8(&mut c, vid.get_id());
    append_u8(&mut c, option);
    assert(c@ =~= seq![vid.spec_id(), option]);
    frame_of(PacketId::GetDirectoryCount, c.as_slice())
}

/// The request for a file's metadata by index: the index and an option byte, sent under
/// the directory count command (0x16) as this protocol does.
pub fn get_file_metadata_by_index_request(index: u8, option: u8) -> (frame: Vec<u8>)
    ensures
        frame@ == request_frame(0x16, seq![index, option]),
{
    let mut c: Vec<u8> = Vec::new();
    append_u8(&mut c, index);
    append_u8(&mut c, option);
    assert(c@ =~= seq![index, option]);
    frame_of(PacketId::GetDirectoryCount, c.as_slice())
}

/// A request naming a file of a vendor: the vendor, an option byte and the name in a
/// field of 24 bytes.
fn named_file_request(id: PacketId, vid: Vid, options: u8, file: &str) -> (frame: Vec<u8>)
    requires
        writable_text(file, 24),
    ensures
        frame@ == request_frame(
            id.spec_id(),
            seq![vid.spec_id(), options] + str_field(file.spec_bytes(), 24),
        ),
{
    let mut c: Vec<u8> = Vec::new();
    append_u8(&mut c, vid.get_id());
    append_u8(&mut c, options);
    proof {
        vstd::string::is_ascii_spec_bytes(file);
    }
    append_str(&mut c, file, 24);
    assert(c@ =~= seq![vid.spec_id(), options] + str_field(file.spec_bytes(), 24));
    frame_of(id, c.as_slice())
}

/// The request that runs a program.
pub fn execute_program_request(vid: Vid, options: u8, file: &str) -> (frame: Vec<u8>)
    requires
        writable_text(file, 24),
    ensures
        frame@ == request_frame(0x18, seq![vid.spec_id(), options] + str_field(file.spec_bytes(), 24)),
{
    named_file_request(PacketId::ExecuteProgram, vid, options, file)
}

/// The request that deletes a file; the protocol follows it with the request that ends
/// a transfer with nothing to do.
pub fn delete_file_request(vid: Vid, options: u8, file: &str) -> (frame: Vec<u8>)
    requires
        writable_text(file, 24),
    ensures
        frame@ == request_frame(0x1B, seq![vid.spec_id(), options] + str_field(file.spec_bytes(), 24)),
{
    named_file_request(PacketId::DeleteFile, vid, options, file)
}

/// The request that puts the brain in a competition state: the state and four zeros.
pub fn manage_competition_request(mode: CompetitionStatus) -> (frame: Vec<u8>)
    ensures
        frame@ == request_frame(0xC1, seq![mode.spec_id()] + zeros(4)),
{
    let mut c: Vec<u8> = Vec::new();
    append_u8(&mut c, mode.id());
    append_zeros(&mut c, 4);
    frame_of(PacketId::ManageCompetition, c.as_slice())
}

} // verus!

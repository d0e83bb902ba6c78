//! System commands: versions, status, programs, user channel and kernel variables.
use vstd::prelude::*;
use vstd::string::StringSliceAdditionalSpecFns;
use crate::buffer::{first_nul, min_int, ReceivingBuffer};
use crate::bytes::{le_bytes, le_value};
use crate::connection::{request_prefix, str_field, Packet};
use crate::error::ParseError;
use crate::brain::filesystem::Vid;
use crate::text::{lowercase, str_eq, to_lowercase};

verus! {

/// Seconds from the UNIX epoch to 2000-01-01T00:00:00Z, where the brain's clock starts.
pub const JAN_01_2000: u64 = 946684800;

/// The brain's timestamp (seconds since 2000) of a time given in seconds since the
/// UNIX epoch.
pub fn convert_to_vex_timestamp(unix_secs: u64) -> (t: u32)
    requires
        JAN_01_2000 <= unix_secs <= JAN_01_2000 + u32::MAX,
    ensures
        t == unix_secs - JAN_01_2000,
{
    (unix_secs - JAN_01_2000) as u32
}

/// The time, in seconds since the UNIX epoch, of a brain timestamp.
pub fn convert_from_vex_timestamp(timestamp: u32) -> (unix_secs: u64)
    ensures
        unix_secs == JAN_01_2000 + timestamp,
{
    JAN_01_2000 + timestamp as u64
}

/// Converting a brain timestamp to UNIX time and back gives it back, and so does the
/// other way round for every time the brain's clock can hold.
pub proof fn lemma_vex_timestamp_roundtrip(timestamp: u32, unix_secs: u64)
    ensures
        (JAN_01_2000 + timestamp) - JAN_01_2000 == timestamp,
        JAN_01_2000 <= unix_secs <= JAN_01_2000 + u32::MAX ==> JAN_01_2000 + (unix_secs
            - JAN_01_2000) == unix_secs,
{
}

/// Kernel variables a brain stores.
#[derive(Copy, Clone, Debug, PartialEq, Eq, Structural)]
pub enum KernelVariable {
    TeamNumber,
    RobotName,
}

impl KernelVariable {
    /// The longest value (with its terminator) the variable takes.
    pub open spec fn spec_max_len(self) -> nat {
        match self {
            KernelVariable::TeamNumber => 7,
            KernelVariable::RobotName => 16,
        }
    }

    /// The name the brain knows the variable by.
    pub open spec fn spec_name_bytes(self) -> Seq<u8> {
        match self {
            KernelVariable::TeamNumber => seq![
                0x74u8, 0x65u8, 0x61u8, 0x6Du8, 0x6Eu8, 0x75u8, 0x6Du8, 0x62u8, 0x65u8, 0x72u8,
            ],
            KernelVariable::RobotName => seq![
                0x72u8, 0x6Fu8, 0x62u8, 0x6Fu8, 0x74u8, 0x6Eu8, 0x61u8, 0x6Du8, 0x65u8,
            ],
        }
    }

    pub fn get_max_len(&self) -> (n: usize)
        ensures
            n == self.spec_max_len(),
    {
        match self {
            KernelVariable::TeamNumber => 7,
            KernelVariable::RobotName => 16,
        }
    }

    /// The name the brain knows the variable by ("teamnumber" or "robotname").
    pub fn get_name(&self) -> (name: &'static str)
        ensures
            name.spec_bytes() == self.spec_name_bytes(),
    {
        match self {
            KernelVariable::TeamNumber => {
                let s = "teamnumber";
                proof {
                    reveal_strlit("teamnumber");
                    vstd::string::is_ascii_spec_bytes(s);
                    assert(s.spec_bytes() =~= self.spec_name_bytes());
                }
                s
            },
            KernelVariable::RobotName => {
                let s = "robotname";
                proof {
                    reveal_strlit("robotname");
                    vstd::string::is_ascii_spec_bytes(s);
                    assert(s.spec_bytes() =~= self.spec_name_bytes());
                }
                s
            },
        }
    }

    /// The variable a command-line name stands for, in any case: "team_number" or
    /// "robot_name".
    pub fn try_from_name(id: &str) -> (r: Result<KernelVariable, ParseError>)
        ensures
            lowercase(id@) == "team_number"@ ==> r == Ok::<KernelVariable, ParseError>(
                KernelVariable::TeamNumber,
            ),
            lowercase(id@) == "robot_name"@ ==> r == Ok::<KernelVariable, ParseError>(
                KernelVariable::RobotName,
            ),
            lowercase(id@) != "team_number"@ && lowercase(id@) != "robot_name"@ ==> (r matches Err(
                ParseError::InvalidName(name),
            ) && name@ == id@),
    {
        proof {
            reveal_strlit("team_number");
            reveal_strlit("robot_name");
            assert("team_number"@.len() == 11);
            assert("robot_name"@.len() == 10);
            assert("team_number"@ != "robot_name"@);
        }
        let lower = to_lowercase(id);
        if str_eq(lower.as_str(), "team_number") {
            Ok(KernelVariable::TeamNumber)
        } else if str_eq(lower.as_str(), "robot_name") {
            Ok(KernelVariable::RobotName)
        } else {
            Err(ParseError::InvalidName(id.to_string()))
        }
    }
}

/// What answered a version request: a brain, or a controller with or without a brain
/// connected to it.
#[derive(Copy, Clone, Debug, PartialEq, Eq, Structural)]
pub enum Product {
    Brain,
    Controller { has_robot: bool },
}

/// The product a product id and flag byte stand for: 0x10 a brain, 0x11 a controller,
/// connected to a brain when bit 1 of the flag is set.
pub open spec fn product_of(id: u8, flag: u8) -> Option<Product> {
    if id == 0x10 {
        Some(Product::Brain)
    } else if id == 0x11 {
        Some(Product::Controller { has_robot: (flag / 2) % 2 == 1 })
    } else {
        None
    }
}

impl Product {
    pub fn parse(id: u8, flag: u8) -> (r: Result<Product, ParseError>)
        ensures
            product_of(id, flag) matches Some(p) ==> r == Ok::<Product, ParseError>(p),
            product_of(id, flag) is None ==> (r matches Err(ParseError::InvalidId(i)) && i == id),
    {
        if id == 0x10 {
            Ok(Product::Brain)
        } else if id == 0x11 {
            Ok(Product::Controller { has_robot: (flag / 2) % 2 == 1 })
        } else {
            Err(ParseError::InvalidId(id as u32))
        }
    }

    /// How the product is shown: "brain", "controller (connected)" or
    /// "controller (disconnected)".
    pub fn display_name(&self) -> (s: &'static str)
        ensures
            s@ == match *self {
                Product::Brain => "brain"@,
                Product::Controller { has_robot: true } => "controller (connected)"@,
                Product::Controller { has_robot: false } => "controller (disconnected)"@,
            },
    {
        match self {
            Product::Brain => "brain",
            Product::Controller { has_robot: true } => "controller (connected)",
            Product::Controller { has_robot: false } => "controller (disconnected)",
        }
    }
}

/// A four-part firmware version.
#[derive(Copy, Clone, Debug, PartialEq, Eq, Structural)]
pub struct Version {
    pub major: u8,
    pub minor: u8,
    pub patch: u8,
    pub extra: u8,
}

impl Version {
    /// How the version is shown: "major.minor.patch-extra".
    pub fn to_display_string(&self) -> (s: String)
        ensures
            s@ == crate::text::ascii_chars(
                crate::text::decimal(self.major as nat) + seq![0x2Eu8] + crate::text::decimal(
                    self.minor as nat,
                ) + seq![0x2Eu8] + crate::text::decimal(self.patch as nat) + seq![0x2Du8]
                    + crate::text::decimal(self.extra as nat),
            ),
    {
        let mut out: Vec<u8> = Vec::new();
        crate::text::push_decimal(&mut out, self.major as u64);
        out.push(0x2E);
        crate::text::push_decimal(&mut out, self.minor as u64);
        out.push(0x2E);
        crate::text::push_decimal(&mut out, self.patch as u64);
        out.push(0x2D);
        crate::text::push_decimal(&mut out, self.extra as u64);
        proof {
            crate::text::lemma_decimal_ascii(self.major as nat);
            crate::text::lemma_decimal_ascii(self.minor as nat);
            crate::text::lemma_decimal_ascii(self.patch as nat);
            crate::text::lemma_decimal_ascii(self.extra as nat);
            assert(crate::text::all_ascii(out@));
        }
        crate::text::ascii_to_string(out.as_slice())
    }
}

/// The versions and identity the brain reports.
#[derive(Copy, Clone, Debug, PartialEq, Eq, Structural)]
pub struct SystemStatus {
    pub system: Version,
    pub cpu0: Version,
    pub cpu1: Version,
    pub touch: u8,
    pub system_id: u32,
}

impl SystemStatus {
    pub fn new(system: Version, cpu0: Version, cpu1: Version, touch: u8, system_id: u32) -> (s:
        SystemStatus)
        ensures
            s == (SystemStatus { system, cpu0, cpu1, touch, system_id }),
    {
        SystemStatus { system, cpu0, cpu1, touch, system_id }
    }
}

/// The channel of the user port that file transfers and user data go over.
#[derive(Copy, Clone, Debug, PartialEq, Eq, Structural)]
pub enum Channel {
    Pit,
    Download,
}

impl Channel {
    pub open spec fn spec_id(self) -> u8 {
        match self {
            Channel::Pit => 0,
            Channel::Download => 1,
        }
    }
}

impl From<Channel> for u8 {
    fn from(val: Channel) -> (id: u8) {
        match val {
            Channel::Pit => 0,
            Channel::Download => 1,
        }
    }
}

impl vstd::std_specs::convert::FromSpecImpl<Channel> for u8 {
    open spec fn obeys_from_spec() -> bool {
        true
    }

    open spec fn from_spec(v: Channel) -> u8 {
        v.spec_id()
    }
}

impl TryFrom<u8> for Channel {
    type Error = ParseError;

    fn try_from(id: u8) -> (r: Result<Channel, ParseError>) {
        if id == 0 {
            Ok(Channel::Pit)
        } else if id == 1 {
            Ok(Channel::Download)
        } else {
            Err(ParseError::InvalidId(id as u32))
        }
    }
}

impl vstd::std_specs::convert::TryFromSpecImpl<u8> for Channel {
    open spec fn obeys_try_from_spec() -> bool {
        true
    }

    open spec fn try_from_spec(v: u8) -> Result<Channel, ParseError> {
        if v == 0 {
            Ok(Channel::Pit)
        } else if v == 1 {
            Ok(Channel::Download)
        } else {
            Err(ParseError::InvalidId(v as u32))
        }
    }
}

/// The version a brain or controller reports, and what it is.
#[derive(Copy, Clone, Debug, PartialEq, Eq, Structural)]
pub struct SystemVersion {
    major: u8,
    minor: u8,
    patch: u8,
    a: u8,
    b: u8,
    product: Product,
}

impl SystemVersion {
    /// The major, minor and patch numbers, the two build numbers and the product.
    pub closed spec fn spec_parts(self) -> (u8, u8, u8, u8, u8, Product) {
        (self.major, self.minor, self.patch, self.a, self.b, self.product)
    }

    /// How the version is shown: "major.minor.patch-a.b product".
    pub fn to_display_string(&self) -> (s: String)
        ensures
            s@ == crate::text::ascii_chars(
                crate::text::decimal(self.spec_parts().0 as nat) + seq![0x2Eu8] + crate::text::decimal(self.spec_parts().1 as nat) + seq![0x2Eu8] + crate::text::decimal(self.spec_parts().2 as nat) + seq![0x2Du8]
                    + crate::text::decimal(self.spec_parts().3 as nat) + seq![0x2Eu8] + crate::text::decimal(self.spec_parts().4 as nat) + seq![0x20u8],
            ) + self.spec_parts().5.display_name_spec(),
    {
        let mut out: Vec<u8> = Vec::new();
        crate::text::push_decimal(&mut out, self.major as u64);
        out.push(0x2E);
        crate::text::push_decimal(&mut out, self.minor as u64);
        out.push(0x2E);
        crate::text::push_decimal(&mut out, self.patch as u64);
        out.push(0x2D);
        crate::text::push_decimal(&mut out, self.a as u64);
        out.push(0x2E);
        crate::text::push_decimal(&mut out, self.b as u64);
        out.push(0x20);
        proof {
            crate::text::lemma_decimal_ascii(self.major as nat);
            crate::text::lemma_decimal_ascii(self.minor as nat);
            crate::text::lemma_decimal_ascii(self.patch as nat);
            crate::text::lemma_decimal_ascii(self.a as nat);
            crate::text::lemma_decimal_ascii(self.b as nat);
            assert(crate::text::all_ascii(out@));
        }
        let mut s = crate::text::ascii_to_string(out.as_slice());
        vstd::string::StringExecFns::append(&mut s, self.product.display_name());
        s
    }
}

impl Product {
    pub open spec fn display_name_spec(self) -> Seq<char> {
        match self {
            Product::Brain => "brain"@,
            Product::Controller { has_robot: true } => "controller (connected)"@,
            Product::Controller { has_robot: false } => "controller (disconnected)"@,
        }
    }
}

/// Reads the answer to a version request: five version bytes, then the product id and
/// flag.
pub fn parse_system_version(response: &mut ReceivingBuffer) -> (r: Result<SystemVersion, ParseError>)
    requires
        old(response).can_read(7),
    ensures
        ({
            let w = old(response).window(7);
            &&& product_of(w[5], w[6]) matches Some(p) ==> (r matches Ok(v) && v.spec_parts() == (
                w[0],
                w[1],
                w[2],
                w[3],
                w[4],
                p,
            ))
            &&& product_of(w[5], w[6]) is None ==> (r matches Err(ParseError::InvalidId(i)) && i
                == w[5])
        }),
        old(response).advanced(*final(response), 7),
{
    let major = response.read_u8();
    let minor = response.read_u8();
    let patch = response.read_u8();
    let a = response.read_u8();
    let b = response.read_u8();
    let id = response.read_u8();
    let flag = response.read_u8();
    let product = Product::parse(id, flag)?;
    Ok(SystemVersion { major, minor, patch, a, b, product })
}

/// Reads four version bytes.
fn read_version(response: &mut ReceivingBuffer) -> (v: Version)
    requires
        old(response).can_read(4),
    ensures
        v == (Version {
            major: old(response).window(4)[0],
            minor: old(response).window(4)[1],
            patch: old(response).window(4)[2],
            extra: old(response).window(4)[3],
        }),
        old(response).advanced(*final(response), 4),
{
    let major = response.read_u8();
    let minor = response.read_u8();
    let patch = response.read_u8();
    let extra = response.read_u8();
    Version { major, minor, patch, extra }
}

/// Reads the answer to a status request: a skipped byte, the system, CPU 0 and CPU 1
/// versions, three skipped bytes, the touch version and the 32-bit system id.
pub fn parse_system_status(response: &mut ReceivingBuffer) -> (s: SystemStatus)
    requires
        old(response).can_read(21),
    ensures
        ({
            let w = old(response).window(21);
            s == (SystemStatus {
                system: Version { major: w[1], minor: w[2], patch: w[3], extra: w[4] },
                cpu0: Version { major: w[5], minor: w[6], patch: w[7], extra: w[8] },
                cpu1: Version { major: w[9], minor: w[10], patch: w[11], extra: w[12] },
                touch: w[16],
                system_id: le_value(w.subrange(17, 21)) as u32,
            })
        }),
        old(response).advanced(*final(response), 21),
{
    proof { old(response).lemma_len_fits(); }
    response.skip(1);
    let system = read_version(response);
    let cpu0 = read_version(response);
    let cpu1 = read_version(response);
    response.skip(3);
    let touch = response.read_u8();
    let id = response.read_u32();
    proof {
        let w = old(response).window(21);
        assert(old(response).spec_data().subrange(
            old(response).spec_pos() + 17 as int,
            old(response).spec_pos() + 21 as int,
        ) =~= w.subrange(17, 21));
    }
    SystemStatus::new(system, cpu0, cpu1, touch, id)
}

/// Flags of a program execution request; bit 7 stops the running program.
#[derive(Copy, Clone, Debug, PartialEq, Eq, Structural)]
pub struct ExecutionFlags {
    bits: u8,
}

impl ExecutionFlags {
    pub closed spec fn spec_bits(self) -> u8 {
        self.bits
    }

    pub fn empty() -> (f: ExecutionFlags)
        ensures
            f.spec_bits() == 0,
    {
        ExecutionFlags { bits: 0 }
    }

    /// The flag that stops the running program.
    pub fn stop() -> (f: ExecutionFlags)
        ensures
            f.spec_bits() == 0x80,
    {
        ExecutionFlags { bits: 0x80 }
    }

    pub fn from_bits_retain(bits: u8) -> (f: ExecutionFlags)
        ensures
            f.spec_bits() == bits,
    {
        ExecutionFlags { bits }
    }

    pub fn bits(&self) -> (b: u8)
        ensures
            b == self.spec_bits(),
    {
        self.bits
    }
}

/// The request that runs (or, with the stop flag, stops) a program: the program's
/// vendor id, the flags and the file name in a 24-byte field.
pub fn execute_program_request(vid: Vid, flags: ExecutionFlags, filename: &str) -> (p: Packet)
    requires
        filename.spec_bytes().len() < 24,
    ensures
        p.written() == request_prefix(0x18, 26) + seq![vid.spec_id(), flags.spec_bits()]
            + str_field(filename.spec_bytes(), 24),
        p.blank_after(),
        p.spec_bytes().len() == p.written().len() + 2,
{
    let mut p = Packet::new(0x18, 26);
    p.write_u8(vid.id());
    p.write_u8(flags.bits());
    p.write_str(filename, 24);
    proof {
        assert(p.written() =~= request_prefix(0x18, 26) + seq![vid.spec_id(), flags.spec_bits()]
            + str_field(filename.spec_bytes(), 24));
    }
    p
}

/// The request that sends `payload` to the user program on a channel.
pub fn send_user_communications_request(channel: Channel, payload: &[u8]) -> (p: Packet)
    requires
        payload@.len() + 2 < 0x8000,
    ensures
        p.written() == request_prefix(0x27, payload@.len() + 2) + seq![channel.spec_id(), 0u8]
            + payload@,
        p.blank_after(),
        p.spec_bytes().len() == p.written().len() + 2,
{
    let mut p = Packet::new(0x27, payload.len() + 2);
    p.write_u8(u8::from(channel));
    p.write_u8(0);
    p.write_raw(payload);
    proof {
        assert(p.written() =~= request_prefix(0x27, payload@.len() + 2) + seq![
            channel.spec_id(),
            0u8,
        ] + payload@);
    }
    p
}

/// The request that reads up to `len` bytes the user program sent on a channel.
pub fn read_user_communications_request(channel: Channel, len: u8) -> (p: Packet)
    requires
        len > 0,
    ensures
        p.written() == request_prefix(0x27, 2) + seq![channel.spec_id(), len],
        p.blank_after(),
        p.spec_bytes().len() == p.written().len() + 2,
{
    let mut p = Packet::new(0x27, 2);
    p.write_u8(u8::from(channel));
    p.write_u8(len);
    proof {
        assert(p.written() =~= request_prefix(0x27, 2) + seq![channel.spec_id(), len]);
    }
    p
}

/// The request that asks for a kernel variable by its zero-terminated name.
pub fn get_kernel_variable_request(variable: KernelVariable) -> (p: Packet)
    ensures
        p.written() == request_prefix(0x2E, variable.spec_name_bytes().len() + 1)
            + variable.spec_name_bytes() + seq![0u8],
        p.blank_after(),
        p.spec_bytes().len() == p.written().len() + 2,
{
    let name = variable.get_name();
    let n = name.len();
    let mut p = Packet::new(0x2E, n + 1);
    p.write_str(name, n + 1);
    proof {
        assert(crate::connection::zeros(1) =~= seq![0u8]);
        assert(p.written() =~= request_prefix(0x2E, variable.spec_name_bytes().len() + 1)
            + variable.spec_name_bytes() + seq![0u8]);
    }
    p
}

/// The request that sets a kernel variable: its name and the value, each zero-terminated.
pub fn set_kernel_variable_request(variable: KernelVariable, value: &str) -> (p: Packet)
    requires
        value.spec_bytes().len() < variable.spec_max_len(),
    ensures
        p.written() == request_prefix(
            0x2F,
            variable.spec_name_bytes().len() + 1 + value.spec_bytes().len() + 1,
        ) + variable.spec_name_bytes() + seq![0u8] + value.spec_bytes() + seq![0u8],
        p.blank_after(),
        p.spec_bytes().len() == p.written().len() + 2,
{
    let name = variable.get_name();
    let n = name.len();
    let v = value.len();
    let mut p = Packet::new(0x2F, n + 1 + v + 1);
    p.write_str(name, n + 1);
    p.write_str(value, v + 1);
    proof {
        assert(crate::connection::zeros(1) =~= seq![0u8]);
        assert(p.written() =~= request_prefix(
            0x2F,
            variable.spec_name_bytes().len() + 1 + value.spec_bytes().len() + 1,
        ) + variable.spec_name_bytes() + seq![0u8] + value.spec_bytes() + seq![0u8]);
    }
    p
}

/// Reads a kernel variable's value: a zero-terminated string within the variable's
/// longest length.
pub fn parse_kernel_variable(response: &mut ReceivingBuffer, variable: KernelVariable) -> (s: String)
    requires
        old(response).spec_pos() <= old(response).spec_data().len(),
        old(response).spec_pos() + variable.spec_max_len() <= usize::MAX,
        first_nul(
            old(response).spec_data(),
            old(response).spec_pos() as int,
            min_int(
                (old(response).spec_pos() + variable.spec_max_len()) as int,
                old(response).spec_data().len() as int,
            ),
        ) matches Some(end) && vstd::utf8::valid_utf8(
            old(response).spec_data().subrange(old(response).spec_pos() as int, end),
        ),
    ensures
        ({
            let end = first_nul(
                old(response).spec_data(),
                old(response).spec_pos() as int,
                min_int(
                    (old(response).spec_pos() + variable.spec_max_len()) as int,
                    old(response).spec_data().len() as int,
                ),
            )->0;
            s@ == vstd::utf8::decode_utf8(
                old(response).spec_data().subrange(old(response).spec_pos() as int, end),
            )
        }),
{
    response.read_str(variable.get_max_len())
}

} // verus!

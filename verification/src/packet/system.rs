//! System commands as values.
use vstd::prelude::*;
use vstd::string::StringSliceAdditionalSpecFns;
use crate::buffer::{first_nul, min_int, ReceivingBuffer};
use crate::connection::str_field;
use crate::error::ParseError;
use crate::packet::{append_raw, append_str, append_u8, Packet};

pub use crate::brain::filesystem::Vid;
pub use crate::brain::system::{
    convert_from_vex_timestamp, convert_to_vex_timestamp, parse_system_status,
    parse_system_version, Channel, KernelVariable, Product, SystemStatus, SystemVersion, Version,
};

verus! {

/// Asks for the brain's version (a simple command, 0xA4).
#[derive(Debug)]
pub struct GetSystemVersion {}

impl GetSystemVersion {
    pub fn new() -> GetSystemVersion {
        GetSystemVersion {}
    }

    /// Reads the version (see `parse_system_version`).
    pub fn read_response(&self, buffer: &mut ReceivingBuffer, _len: usize) -> (r: Result<
        SystemVersion,
        ParseError,
    >)
        requires
            old(buffer).can_read(7),
        ensures
            ({
                let w = old(buffer).window(7);
                &&& crate::brain::system::product_of(w[5], w[6]) matches Some(p) ==> (r matches Ok(v)
                    && v.spec_parts() == (w[0], w[1], w[2], w[3], w[4], p))
                &&& crate::brain::system::product_of(w[5], w[6]) is None ==> (r matches Err(
                    ParseError::InvalidId(i),
                ) && i == w[5])
            }),
    {
        parse_system_version(buffer)
    }
}

impl Packet for GetSystemVersion {
    open spec fn spec_id(&self) -> u8 {
        0xA4
    }

    open spec fn spec_is_simple(&self) -> bool {
        true
    }

    open spec fn spec_send_len(&self) -> nat {
        0
    }

    open spec fn payload(&self) -> Seq<u8> {
        Seq::empty()
    }

    open spec fn writable(&self) -> bool {
        true
    }

    fn id(&self) -> u8 {
        0xA4
    }

    fn is_simple(&self) -> bool {
        true
    }

    fn send_len(&self) -> usize {
        0
    }

    fn write_buffer(&self, buffer: &mut Vec<u8>) {
        assert(buffer@ =~= old(buffer)@ + Seq::<u8>::empty());
    }
}

/// Runs or stops a program (0x18): vendor, options (0 to run, 0x80 to stop) and the file
/// name in a 24-byte field.
#[derive(Debug)]
pub struct ExecuteProgram<'a> {
    vid: Vid,
    options: u8,
    filename: &'a str,
}

impl<'a> ExecuteProgram<'a> {
    pub closed spec fn spec_fields(&self) -> (Vid, u8, Seq<u8>) {
        (self.vid, self.options, self.filename.spec_bytes())
    }

    pub fn new(vid: Vid, options: u8, filename: &'a str) -> (p: ExecuteProgram<'a>)
        ensures
            p.spec_fields() == (vid, options, filename.spec_bytes()),
    {
        ExecuteProgram { vid, options, filename }
    }

    /// The answer carries nothing.
    pub fn read_response(&self, _buffer: &mut ReceivingBuffer, _len: usize) {
    }
}

impl<'a> Packet for ExecuteProgram<'a> {
    open spec fn spec_id(&self) -> u8 {
        0x18
    }

    open spec fn spec_is_simple(&self) -> bool {
        false
    }

    open spec fn spec_send_len(&self) -> nat {
        26
    }

    open spec fn payload(&self) -> Seq<u8> {
        seq![self.spec_fields().0.spec_id(), self.spec_fields().1] + str_field(
            self.spec_fields().2,
            24,
        )
    }

    open spec fn writable(&self) -> bool {
        self.spec_fields().2.len() < 24
    }

    fn id(&self) -> u8 {
        0x18
    }

    fn is_simple(&self) -> bool {
        false
    }

    fn send_len(&self) -> (n: usize)
        ensures
            self.writable() ==> n == self.payload().len(),
    {
        26
    }

    fn write_buffer(&self, buffer: &mut Vec<u8>) {
        append_u8(buffer, self.vid.id());
        append_u8(buffer, self.options);
        append_str(buffer, self.filename, 24);
        assert(buffer@ =~= old(buffer)@ + self.payload());
    }
}

/// Asks what product answers (a simple command, 0x21).
#[derive(Debug)]
pub struct GetProduct {}

impl GetProduct {
    pub fn new() -> GetProduct {
        GetProduct {}
    }

    /// The answer: every byte from the read position on.
    pub fn read_response(&self, buffer: &mut ReceivingBuffer, _len: usize) -> (r: Vec<u8>)
        requires
            old(buffer).spec_pos() <= old(buffer).spec_data().len(),
        ensures
            r@ == old(buffer).spec_data().subrange(
                old(buffer).spec_pos() as int,
                old(buffer).spec_data().len() as int,
            ),
    {
        buffer.get_all()
    }
}

impl Packet for GetProduct {
    open spec fn spec_id(&self) -> u8 {
        0x21
    }

    open spec fn spec_is_simple(&self) -> bool {
        true
    }

    open spec fn spec_send_len(&self) -> nat {
        0
    }

    open spec fn payload(&self) -> Seq<u8> {
        Seq::empty()
    }

    open spec fn writable(&self) -> bool {
        true
    }

    fn id(&self) -> u8 {
        0x21
    }

    fn is_simple(&self) -> bool {
        true
    }

    fn send_len(&self) -> usize {
        0
    }

    fn write_buffer(&self, buffer: &mut Vec<u8>) {
        assert(buffer@ =~= old(buffer)@ + Seq::<u8>::empty());
    }
}

/// Asks for the brain's status (0x22, no content).
#[derive(Debug)]
pub struct GetSystemStatus {}

impl GetSystemStatus {
    pub fn new() -> GetSystemStatus {
        GetSystemStatus {}
    }

    /// Reads the status (see `parse_system_status`).
    pub fn read_response(&self, buffer: &mut ReceivingBuffer, _len: usize) -> (s: SystemStatus)
        requires
            old(buffer).can_read(21),
        ensures
            ({
                let w = old(buffer).window(21);
                s == (SystemStatus {
                    system: Version { major: w[1], minor: w[2], patch: w[3], extra: w[4] },
                    cpu0: Version { major: w[5], minor: w[6], patch: w[7], extra: w[8] },
                    cpu1: Version { major: w[9], minor: w[10], patch: w[11], extra: w[12] },
                    touch: w[16],
                    system_id: crate::bytes::le_value(w.subrange(17, 21)) as u32,
                })
            }),
    {
        parse_system_status(buffer)
    }
}

impl Packet for GetSystemStatus {
    open spec fn spec_id(&self) -> u8 {
        0x22
    }

    open spec fn spec_is_simple(&self) -> bool {
        false
    }

    open spec fn spec_send_len(&self) -> nat {
        0
    }

    open spec fn payload(&self) -> Seq<u8> {
        Seq::empty()
    }

    open spec fn writable(&self) -> bool {
        true
    }

    fn id(&self) -> u8 {
        0x22
    }

    fn is_simple(&self) -> bool {
        false
    }

    fn send_len(&self) -> (n: usize)
        ensures
            n == self.payload().len(),
    {
        0
    }

    fn write_buffer(&self, buffer: &mut Vec<u8>) {
        assert(buffer@ =~= old(buffer)@ + Seq::<u8>::empty());
    }
}

/// Sends bytes to the user program on a channel (0x27): the channel, a zero, then at
/// most 224 bytes.
#[derive(Debug)]
pub struct SendUserCommunications<'a> {
    channel: Channel,
    payload: &'a [u8],
}

impl<'a> SendUserCommunications<'a> {
    /// At most 224 bytes go in one request.
    #[verifier::type_invariant]
    spec fn fits(&self) -> bool {
        self.payload@.len() <= 224
    }

    pub closed spec fn spec_fields(&self) -> (Channel, Seq<u8>) {
        (self.channel, self.payload@)
    }

    pub fn new(channel: Channel, payload: &'a [u8]) -> (p: SendUserCommunications<'a>)
        requires
            payload@.len() <= 224,
        ensures
            p.spec_fields() == (channel, payload@),
    {
        SendUserCommunications { channel, payload }
    }

    /// The answer carries nothing.
    pub fn read_response(&self, _buffer: &mut ReceivingBuffer, _len: usize) {
    }
}

impl<'a> Packet for SendUserCommunications<'a> {
    open spec fn spec_id(&self) -> u8 {
        0x27
    }

    open spec fn spec_is_simple(&self) -> bool {
        false
    }

    open spec fn spec_send_len(&self) -> nat {
        2 + self.spec_fields().1.len()
    }

    open spec fn payload(&self) -> Seq<u8> {
        seq![self.spec_fields().0.spec_id(), 0u8] + self.spec_fields().1
    }

    open spec fn writable(&self) -> bool {
        true
    }

    fn id(&self) -> u8 {
        0x27
    }

    fn is_simple(&self) -> bool {
        false
    }

    fn send_len(&self) -> (n: usize)
        ensures
            n == self.payload().len(),
    {
        proof {
            use_type_invariant(self);
        }
        2 + self.payload.len()
    }

    fn write_buffer(&self, buffer: &mut Vec<u8>) {
        append_u8(buffer, u8::from(self.channel));
        append_u8(buffer, 0);
        append_raw(buffer, self.payload);
        assert(buffer@ =~= old(buffer)@ + self.payload());
    }
}

/// Reads up to `len` bytes the user program sent on a channel (0x27).
#[derive(Debug)]
pub struct ReadUserCommunications {
    channel: Channel,
    len: u8,
}

impl ReadUserCommunications {
    pub closed spec fn spec_fields(&self) -> (Channel, u8) {
        (self.channel, self.len)
    }

    pub fn new(channel: Channel, len: u8) -> (p: ReadUserCommunications)
        ensures
            p.spec_fields() == (channel, len),
    {
        ReadUserCommunications { channel, len }
    }

    /// The answer: every byte from the read position on.
    pub fn read_response(&self, buffer: &mut ReceivingBuffer, _len: usize) -> (r: Vec<u8>)
        requires
            old(buffer).spec_pos() <= old(buffer).spec_data().len(),
        ensures
            r@ == old(buffer).spec_data().subrange(
                old(buffer).spec_pos() as int,
                old(buffer).spec_data().len() as int,
            ),
    {
        buffer.get_all()
    }
}

impl Packet for ReadUserCommunications {
    open spec fn spec_id(&self) -> u8 {
        0x27
    }

    open spec fn spec_is_simple(&self) -> bool {
        false
    }

    open spec fn spec_send_len(&self) -> nat {
        2
    }

    open spec fn payload(&self) -> Seq<u8> {
        seq![self.spec_fields().0.spec_id(), self.spec_fields().1]
    }

    open spec fn writable(&self) -> bool {
        true
    }

    fn id(&self) -> u8 {
        0x27
    }

    fn is_simple(&self) -> bool {
        false
    }

    fn send_len(&self) -> (n: usize)
        ensures
            n == self.payload().len(),
    {
        2
    }

    fn write_buffer(&self, buffer: &mut Vec<u8>) {
        append_u8(buffer, u8::from(self.channel));
        append_u8(buffer, self.len);
        assert(buffer@ =~= old(buffer)@ + self.payload());
    }
}

/// Asks for a kernel variable (0x2E) by its zero-terminated name.
#[derive(Debug)]
pub struct GetKernelVariable {
    variable: KernelVariable,
}

impl GetKernelVariable {
    pub closed spec fn spec_variable(&self) -> KernelVariable {
        self.variable
    }

    pub fn new(variable: KernelVariable) -> (p: GetKernelVariable)
        ensures
            p.spec_variable() == variable,
    {
        GetKernelVariable { variable }
    }

    /// Reads the value: a zero-terminated string within the next `len` bytes.
    pub fn read_response(&self, buffer: &mut ReceivingBuffer, len: usize) -> (s: String)
        requires
            old(buffer).spec_pos() <= old(buffer).spec_data().len(),
            old(buffer).spec_pos() + len <= usize::MAX,
            first_nul(
                old(buffer).spec_data(),
                old(buffer).spec_pos() as int,
                min_int((old(buffer).spec_pos() + len) as int, old(buffer).spec_data().len() as int),
            ) matches Some(end) && vstd::utf8::valid_utf8(
                old(buffer).spec_data().subrange(old(buffer).spec_pos() as int, end),
            ),
        ensures
            ({
                let end = first_nul(
                    old(buffer).spec_data(),
                    old(buffer).spec_pos() as int,
                    min_int((old(buffer).spec_pos() + len) as int, old(buffer).spec_data().len() as int),
                )->0;
                s@ == vstd::utf8::decode_utf8(
                    old(buffer).spec_data().subrange(old(buffer).spec_pos() as int, end),
                )
            }),
    {
        buffer.read_str(len)
    }
}

impl Packet for GetKernelVariable {
    open spec fn spec_id(&self) -> u8 {
        0x2E
    }

    open spec fn spec_is_simple(&self) -> bool {
        false
    }

    open spec fn spec_send_len(&self) -> nat {
        self.spec_variable().spec_name_bytes().len() + 1
    }

    open spec fn payload(&self) -> Seq<u8> {
        self.spec_variable().spec_name_bytes() + seq![0u8]
    }

    open spec fn writable(&self) -> bool {
        true
    }

    fn id(&self) -> u8 {
        0x2E
    }

    fn is_simple(&self) -> bool {
        false
    }

    fn send_len(&self) -> (n: usize)
        ensures
            n == self.payload().len(),
    {
        self.variable.get_name().len() + 1
    }

    fn write_buffer(&self, buffer: &mut Vec<u8>) {
        let name = self.variable.get_name();
        append_str(buffer, name, name.len() + 1);
        assert(crate::connection::zeros(1) =~= seq![0u8]);
        assert(buffer@ =~= old(buffer)@ + self.payload());
    }
}

/// Sets a kernel variable (0x2F): its name and the value, each zero-terminated; the
/// value is shorter than the variable's longest length.
#[derive(Debug)]
pub struct SetKernelVariable<'a> {
    variable: KernelVariable,
    payload: &'a str,
}

impl<'a> SetKernelVariable<'a> {
    /// The value is shorter than the variable's longest length.
    #[verifier::type_invariant]
    spec fn fits(&self) -> bool {
        self.payload.spec_bytes().len() < self.variable.spec_max_len()
    }

    pub closed spec fn spec_fields(&self) -> (KernelVariable, Seq<u8>) {
        (self.variable, self.payload.spec_bytes())
    }

    pub fn new(variable: KernelVariable, payload: &'a str) -> (p: SetKernelVariable<'a>)
        requires
            payload.spec_bytes().len() < variable.spec_max_len(),
        ensures
            p.spec_fields() == (variable, payload.spec_bytes()),
    {
        SetKernelVariable { variable, payload }
    }

    /// The answer carries nothing.
    pub fn read_response(&self, _buffer: &mut ReceivingBuffer, _len: usize) {
    }
}

impl<'a> Packet for SetKernelVariable<'a> {
    open spec fn spec_id(&self) -> u8 {
        0x2F
    }

    open spec fn spec_is_simple(&self) -> bool {
        false
    }

    open spec fn spec_send_len(&self) -> nat {
        self.spec_fields().0.spec_name_bytes().len() + 1 + self.spec_fields().1.len() + 1
    }

    open spec fn payload(&self) -> Seq<u8> {
        self.spec_fields().0.spec_name_bytes() + seq![0u8] + self.spec_fields().1 + seq![0u8]
    }

    open spec fn writable(&self) -> bool {
        true
    }

    fn id(&self) -> u8 {
        0x2F
    }

    fn is_simple(&self) -> bool {
        false
    }

    fn send_len(&self) -> (n: usize)
        ensures
            n == self.payload().len(),
    {
        proof {
            use_type_invariant(self);
        }
        self.variable.get_name().len() + 1 + self.payload.len() + 1
    }

    fn write_buffer(&self, buffer: &mut Vec<u8>) {
        proof {
            use_type_invariant(self);
        }
        let name = self.variable.get_name();
        append_str(buffer, name, name.len() + 1);
        append_str(buffer, self.payload, self.payload.len() + 1);
        assert(crate::connection::zeros(1) =~= seq![0u8]);
        assert(buffer@ =~= old(buffer)@ + self.payload());
    }
}

} // verus!

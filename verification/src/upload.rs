//! Uploading a program: how a file is cut into chunks for a transfer, what the files on
//! the brain are called, and what the program's configuration holds.
use vstd::prelude::*;
use vstd::string::{StrSliceExecFns, StringExecFns};
use ini::Ini;
use time::format_description::well_known::Rfc3339;
use time::OffsetDateTime;
use crate::brain::filesystem::{FileMetadata, FileType, TransferTarget, UploadAction, Vid};
use crate::text::{ascii_chars, decimal, decimal_string, trim_end_char, trim_end_matches_char};

verus! {

/// The chunk size the command-line uploader sends for a packet limit: half the limit
/// down to a multiple of 244, less 14, then down to a multiple of four.
pub open spec fn cli_chunk_size_spec(max_packet_size: u16) -> int {
    let c = (max_packet_size / 2) / 244 * 244 - 14;
    c - c % 4
}

/// The chunk size the command-line uploader sends for a packet limit.
pub fn cli_chunk_size(max_packet_size: u16) -> (size: u16)
    requires
        max_packet_size / 2 >= 244,
    ensures
        size == cli_chunk_size_spec(max_packet_size),
        size > 0,
{
    let half = max_packet_size / 2;
    let c = (half / 244) * 244 - 14;
    c - c % 4
}

/// The chunk size the upload plugin sends for a packet limit: half the limit, down to a
/// multiple of four.
pub open spec fn plugin_chunk_size_spec(max_packet_size: u16) -> int {
    let half = max_packet_size / 2;
    half - half % 4
}

/// The chunk size the upload plugin sends for a packet limit.
pub fn plugin_chunk_size(max_packet_size: u16) -> (size: u16)
    ensures
        size == plugin_chunk_size_spec(max_packet_size),
{
    let half = max_packet_size / 2;
    half - half % 4
}

/// One piece of a transfer: bytes `start..end` of the file, written at `address`.
#[derive(Copy, Clone, Debug, PartialEq, Eq, Structural)]
pub struct Chunk {
    pub start: usize,
    pub end: usize,
    pub address: u32,
}

/// Chunk `k` starts where the one before it ended (the first at 0), holds at most
/// `size` bytes and at least one, and goes to the base address plus its start.
pub open spec fn chunk_follows(chunks: Seq<Chunk>, k: int, len: int, size: int, address: int) -> bool {
    let c = chunks[k];
    &&& c.start == (if k == 0 {
        0
    } else {
        chunks[k - 1].end as int
    })
    &&& c.start < len
    &&& c.end == (if len - c.start > size {
        c.start + size
    } else {
        len
    })
    &&& c.address == address + c.start
}

/// The chunks follow one another and cover the file up to `upto`.
pub open spec fn chunks_reach(chunks: Seq<Chunk>, len: int, size: int, address: int, upto: int) -> bool {
    &&& size > 0
    &&& forall|k: int| 0 <= k < chunks.len() ==> chunk_follows(chunks, k, len, size, address)
    &&& upto == (if chunks.len() == 0 {
        0
    } else {
        chunks.last().end as int
    })
}

/// The chunks in which a file of `len` bytes is sent, `size` bytes at a time from
/// `address` on.
pub open spec fn is_chunk_plan(chunks: Seq<Chunk>, len: int, size: int, address: int) -> bool {
    chunks_reach(chunks, len, size, address, len)
}

/// The start of the last chunk of a file of `len` bytes (`len` > 0).
pub open spec fn last_chunk_start(len: int, size: int) -> int {
    (len - 1) / size * size
}

proof fn lemma_start_below_last(q: int, size: int, len: int)
    requires
        q >= 0,
        size > 0,
        q * size < len,
    ensures
        q * size <= last_chunk_start(len, size),
{
    assert(q <= (len - 1) / size) by (nonlinear_arith)
        requires
            q >= 0,
            size > 0,
            q * size <= len - 1,
    {
        vstd::arithmetic::div_mod::lemma_div_is_ordered(q * size, len - 1, size);
        vstd::arithmetic::div_mod::lemma_div_multiples_vanish(q, size);
    }
    assert(q * size <= (len - 1) / size * size) by (nonlinear_arith)
        requires
            q <= (len - 1) / size,
            size > 0,
    ;
}

/// The chunks of a transfer of `len` bytes, `size` bytes at a time, each written at
/// `address` plus its start.
/// Whether every chunk of a file of `len` bytes cut into pieces of `size` bytes can be
/// addressed from `address` on: the address of the last piece fits in 32 bits.
pub fn chunks_fit(len: usize, size: usize, address: u32) -> (fit: bool)
    requires
        size > 0,
    ensures
        fit == (len > 0 ==> address + last_chunk_start(len as int, size as int) <= u32::MAX),
{
    if len == 0 {
        return true;
    }
    proof {
        let l = len as int - 1;
        let z = size as int;
        assert(l / z * z <= l) by (nonlinear_arith)
            requires
                z > 0,
                l >= 0,
        ;
    }
    let last = (len - 1) / size * size;
    last <= (u32::MAX - address) as usize
}

pub fn transfer_chunks(len: usize, size: usize, address: u32) -> (chunks: Vec<Chunk>)
    requires
        size > 0,
        len > 0 ==> address + last_chunk_start(len as int, size as int) <= u32::MAX,
    ensures
        is_chunk_plan(chunks@, len as int, size as int, address as int),
{
    let mut chunks: Vec<Chunk> = Vec::new();
    let mut start: usize = 0;
    let ghost mut q: int = 0;
    while start < len
        invariant
            start <= len,
            size > 0,
            q >= 0,
            start == len || start == q * size,
            len > 0 ==> address + last_chunk_start(len as int, size as int) <= u32::MAX,
            chunks_reach(chunks@, len as int, size as int, address as int, start as int),
        decreases len - start,
    {
        proof {
            lemma_start_below_last(q, size as int, len as int);
        }
        let end = if len - start > size {
            start + size
        } else {
            len
        };
        let ghost before = chunks@;
        chunks.push(Chunk { start, end, address: address + start as u32 });
        proof {
            assert forall|k: int| 0 <= k < chunks@.len() implies chunk_follows(
                chunks@,
                k,
                len as int,
                size as int,
                address as int,
            ) by {
                if k < before.len() {
                    assert(chunk_follows(before, k, len as int, size as int, address as int));
                    assert(chunks@[k] == before[k]);
                    if k > 0 {
                        assert(chunks@[k - 1] == before[k - 1]);
                    }
                } else if k > 0 {
                    assert(chunks@[k - 1] == before.last());
                }
            }
            q = q + 1;
            assert(q * size == (q - 1) * size + size) by (nonlinear_arith);
        }
        start = end;
    }
    chunks
}

/// The bytes of the file that the chunks carry, in order.
pub open spec fn chunk_bytes(file: Seq<u8>, chunks: Seq<Chunk>) -> Seq<u8>
    decreases chunks.len(),
{
    if chunks.len() == 0 {
        Seq::empty()
    } else {
        chunk_bytes(file, chunks.drop_last()) + file.subrange(
            chunks.last().start as int,
            chunks.last().end as int,
        )
    }
}

proof fn lemma_chunk_prefix(file: Seq<u8>, chunks: Seq<Chunk>, size: int, address: int, upto: int)
    requires
        chunks_reach(chunks, file.len() as int, size, address, upto),
    ensures
        0 <= upto <= file.len(),
        chunk_bytes(file, chunks) == file.subrange(0, upto),
    decreases chunks.len(),
{
    if chunks.len() == 0 {
        assert(file.subrange(0, 0) =~= Seq::<u8>::empty());
    } else {
        let front = chunks.drop_last();
        let n = chunks.len() - 1;
        let last = chunks[n];
        assert(chunk_follows(chunks, n, file.len() as int, size, address));
        assert forall|k: int| 0 <= k < front.len() implies chunk_follows(
            front,
            k,
            file.len() as int,
            size,
            address,
        ) by {
            assert(chunk_follows(chunks, k, file.len() as int, size, address));
            assert(front[k] == chunks[k]);
            if k > 0 {
                assert(front[k - 1] == chunks[k - 1]);
            }
        }
        let mid = last.start as int;
        if n > 0 {
            assert(front.last() == chunks[n - 1]);
        }
        lemma_chunk_prefix(file, front, size, address, mid);
        assert(file.subrange(0, mid) + file.subrange(mid, last.end as int) =~= file.subrange(
            0,
            last.end as int,
        ));
    }
}

/// The chunks of a transfer, sent in order, carry the whole file and nothing else; no
/// chunk is longer than the chunk size, and each goes to the base address plus the
/// offset of its first byte.
pub proof fn lemma_chunks_reassemble_file(file: Seq<u8>, chunks: Seq<Chunk>, size: int, address: int)
    requires
        is_chunk_plan(chunks, file.len() as int, size, address),
    ensures
        chunk_bytes(file, chunks) == file,
        forall|k: int|
            0 <= k < chunks.len() ==> {
                &&& chunks[k].start < chunks[k].end <= chunks[k].start + size
                &&& chunks[k].address == address + chunks[k].start
            },
{
    lemma_chunk_prefix(file, chunks, size, address, file.len() as int);
    assert(file.subrange(0, file.len() as int) =~= file);
    assert forall|k: int| 0 <= k < chunks.len() implies {
        &&& chunks[k].start < chunks[k].end <= chunks[k].start + size
        &&& chunks[k].address == address + chunks[k].start
    } by {
        assert(chunk_follows(chunks, k, file.len() as int, size, address));
    }
}

/// The name of a program's file in a slot: "slot_", the slot index in decimal, a dot and
/// the extension.
pub open spec fn slot_file_name_spec(index: u8, extension: Seq<char>) -> Seq<char> {
    "slot_"@ + ascii_chars(decimal(index as nat)) + "."@ + extension
}

/// The name of a program's file in a slot, such as "slot_0.bin".
pub fn slot_file_name(index: u8, extension: &str) -> (name: String)
    ensures
        name@ == slot_file_name_spec(index, extension@),
{
    let mut name = String::from_str("slot_");
    let digits = decimal_string(index as u64);
    name.append(digits.as_str());
    name.append(".");
    name.append(extension);
    name
}

/// The cold package need not be sent again when the brain already holds a file under
/// its name with the same size (taken modulo 2^32) and CRC.
pub open spec fn skip_cold_spec(available: Option<FileMetadata>, cold_len: usize, crc: u32) -> bool {
    match available {
        Some(m) => m.size == cold_len as u32 && m.crc == crc,
        None => false,
    }
}

/// Whether the cold package on the brain can be kept, given what the brain answered when
/// asked for the file under the package's name (`None` when it did not answer with
/// metadata).
pub fn skip_cold_upload(available: &Option<FileMetadata>, cold_len: usize, crc: u32) -> (skip: bool)
    ensures
        skip == skip_cold_spec(*available, cold_len, crc),
{
    match available {
        Some(m) => m.size == cold_len as u32 && m.crc == crc,
        None => false,
    }
}

/// Which file an upload step sends.
#[derive(Copy, Clone, Debug, PartialEq, Eq, Structural)]
pub enum PackagePart {
    Cold,
    Hot,
    Config,
}

/// One file transfer of a program upload.
pub struct UploadStep {
    pub part: PackagePart,
    pub target: TransferTarget,
    pub file_type: FileType,
    pub vid: Vid,
    pub remote_name: String,
    pub address: u32,
    pub linked_file: Option<(String, Vid)>,
    pub action: UploadAction,
}

/// An upload step as plain values.
pub open spec fn step_view(s: UploadStep) -> (
    PackagePart,
    TransferTarget,
    FileType,
    Vid,
    Seq<char>,
    u32,
    Option<(Seq<char>, Vid)>,
    UploadAction,
) {
    (
        s.part,
        s.target,
        s.file_type,
        s.vid,
        s.remote_name@,
        s.address,
        match s.linked_file {
            Some(l) => Some((l.0@, l.1)),
            None => None,
        },
        s.action,
    )
}

/// The transfers of a program upload into slot `index`, in order: the cold package under
/// its own name for the PROS vendor unless it is kept; the hot package as the slot's
/// binary for the user vendor, linked to the cold package; the configuration as the
/// slot's ini file, after which the brain does `action`. All go to flash.
pub open spec fn upload_steps_spec(
    index: u8,
    cold_name: Seq<char>,
    skip_cold: bool,
    cold_address: u32,
    hot_address: u32,
    action: UploadAction,
) -> Seq<
    (
        PackagePart,
        TransferTarget,
        FileType,
        Vid,
        Seq<char>,
        u32,
        Option<(Seq<char>, Vid)>,
        UploadAction,
    ),
> {
    let cold = (
        PackagePart::Cold,
        TransferTarget::Flash,
        FileType::Bin,
        Vid::Pros,
        cold_name,
        cold_address,
        None::<(Seq<char>, Vid)>,
        UploadAction::Nothing,
    );
    let hot = (
        PackagePart::Hot,
        TransferTarget::Flash,
        FileType::Bin,
        Vid::User,
        slot_file_name_spec(index, "bin"@),
        hot_address,
        Some((cold_name, Vid::Pros)),
        UploadAction::Nothing,
    );
    let config = (
        PackagePart::Config,
        TransferTarget::Flash,
        FileType::Ini,
        Vid::User,
        slot_file_name_spec(index, "ini"@),
        0u32,
        None::<(Seq<char>, Vid)>,
        action,
    );
    if skip_cold {
        seq![hot, config]
    } else {
        seq![cold, hot, config]
    }
}

/// Each package of an upload goes to its own address: the hot package to `hot_address`
/// and the cold one to `cold_address`, whatever the slot, names and action. The upload
/// sends the cold package exactly when it is not skipped, one hot package, and ends with
/// the configuration, after which the brain does `action`.
pub proof fn lemma_packages_go_to_their_addresses(
    index: u8,
    cold_name: Seq<char>,
    skip_cold: bool,
    cold_address: u32,
    hot_address: u32,
    action: UploadAction,
)
    ensures
        ({
            let steps = upload_steps_spec(index, cold_name, skip_cold, cold_address, hot_address, action);
            &&& forall|i: int| 0 <= i < steps.len() ==> (#[trigger] steps[i]).0 == PackagePart::Hot
                ==> steps[i].5 == hot_address
            &&& forall|i: int| 0 <= i < steps.len() ==> (#[trigger] steps[i]).0 == PackagePart::Cold
                ==> steps[i].5 == cold_address
            &&& (exists|i: int| 0 <= i < steps.len() && (#[trigger] steps[i]).0 == PackagePart::Cold)
                <==> !skip_cold
            &&& steps.len() >= 2
            &&& steps[steps.len() - 2].0 == PackagePart::Hot
            &&& forall|i: int| 0 <= i < steps.len() && (#[trigger] steps[i]).0 == PackagePart::Hot
                ==> i == steps.len() - 2
            &&& steps.last().0 == PackagePart::Config
            &&& steps.last().7 == action
        }),
{
    let steps = upload_steps_spec(index, cold_name, skip_cold, cold_address, hot_address, action);
    if skip_cold {
        assert(steps.len() == 2);
        assert forall|i: int| 0 <= i < steps.len() implies (#[trigger] steps[i]).0 != PackagePart::Cold by {
            if i == 0 {} else {}
        }
    } else {
        assert(steps.len() == 3);
        assert(steps[0].0 == PackagePart::Cold);
    }
}

/// The transfers of a program upload, in order.
pub fn upload_steps(
    index: u8,
    cold_name: &str,
    skip_cold: bool,
    cold_address: u32,
    hot_address: u32,
    action: UploadAction,
) -> (steps: Vec<UploadStep>)
    ensures
        steps@.map_values(|s: UploadStep| step_view(s)) == upload_steps_spec(
            index,
            cold_name@,
            skip_cold,
            cold_address,
            hot_address,
            action,
        ),
        forall|i: int| 0 <= i < steps@.len() ==> (#[trigger] steps@[i]).part == PackagePart::Hot
            ==> steps@[i].address == hot_address,
        forall|i: int| 0 <= i < steps@.len() ==> (#[trigger] steps@[i]).part == PackagePart::Cold
            ==> steps@[i].address == cold_address,
{
    let mut steps: Vec<UploadStep> = Vec::new();
    if !skip_cold {
        steps.push(
            UploadStep {
                part: PackagePart::Cold,
                target: TransferTarget::Flash,
                file_type: FileType::Bin,
                vid: Vid::Pros,
                remote_name: String::from_str(cold_name),
                address: cold_address,
                linked_file: None,
                action: UploadAction::Nothing,
            },
        );
    }
    steps.push(
        UploadStep {
            part: PackagePart::Hot,
            target: TransferTarget::Flash,
            file_type: FileType::Bin,
            vid: Vid::User,
            remote_name: slot_file_name(index, "bin"),
            address: hot_address,
            linked_file: Some((String::from_str(cold_name), Vid::Pros)),
            action: UploadAction::Nothing,
        },
    );
    steps.push(
        UploadStep {
            part: PackagePart::Config,
            target: TransferTarget::Flash,
            file_type: FileType::Ini,
            vid: Vid::User,
            remote_name: slot_file_name(index, "ini"),
            address: 0,
            linked_file: None,
            action,
        },
    );
    assert(steps@.map_values(|s: UploadStep| step_view(s)) =~= upload_steps_spec(
        index,
        cold_name@,
        skip_cold,
        cold_address,
        hot_address,
        action,
    ));
    proof {
        lemma_packages_go_to_their_addresses(index, cold_name@, skip_cold, cold_address, hot_address, action);
        let spec = upload_steps_spec(index, cold_name@, skip_cold, cold_address, hot_address, action);
        assert forall|i: int| 0 <= i < steps@.len() implies step_view(#[trigger] steps@[i]) == spec[i] by {
            assert(steps@.map_values(|s: UploadStep| step_view(s))[i] == spec[i]);
        }
    }
    steps
}

/// The text `time` gives for an instant in UTC in the RFC 3339 format, the instant
/// taken in nanoseconds since the UNIX epoch.
pub uninterp spec fn rfc3339_utc(unix_nanos: int) -> Seq<char>;

/// Nanoseconds since the UNIX epoch at 0000-01-01T00:00:00Z.
pub const YEAR_0_NANOS: i128 = -62167219200_000_000_000i128;

/// Nanoseconds since the UNIX epoch at 10000-01-01T00:00:00Z.
pub const YEAR_10000_NANOS: i128 = 253402300800_000_000_000i128;

/// Calls `time::OffsetDateTime::from_unix_timestamp_nanos` and formats the instant with
/// `OffsetDateTime::format` as `Rfc3339`. The contract claims that the text is a function
/// of the instant alone, named `rfc3339_utc`, and that both calls succeed for instants in
/// the years 0 to 9999, which the format's year check and the timestamp range admit.
#[verifier::external_body]
pub(crate) fn format_rfc3339_utc(unix_nanos: i128) -> (text: Option<String>)
    ensures
        text matches Some(t) ==> t@ == rfc3339_utc(unix_nanos as int),
        YEAR_0_NANOS <= unix_nanos < YEAR_10000_NANOS ==> text is Some,
{
    match OffsetDateTime::from_unix_timestamp_nanos(unix_nanos) {
        Ok(t) => t.format(&Rfc3339).ok(),
        Err(_) => None,
    }
}

/// The RFC 3339 text of an instant in UTC given in whole seconds since the UNIX epoch:
/// always there up to the end of the year 9999.
pub fn rfc3339_seconds(unix_secs: u64) -> (text: Option<String>)
    ensures
        text matches Some(t) ==> t@ == rfc3339_utc(unix_secs * 1_000_000_000),
        unix_secs * 1_000_000_000 < YEAR_10000_NANOS ==> text is Some,
{
    let nanos: i128 = (unix_secs as i128) * 1_000_000_000i128;
    format_rfc3339_utc(nanos)
}

/// The date of a program's configuration: its RFC 3339 text in UTC without the trailing
/// "Z".
pub open spec fn ini_date_spec(unix_nanos: int) -> Seq<char> {
    trim_end_char(rfc3339_utc(unix_nanos), 'Z')
}

/// The date written into a program's configuration.
pub fn ini_date(unix_nanos: i128) -> (date: String)
    requires
        YEAR_0_NANOS <= unix_nanos < YEAR_10000_NANOS,
    ensures
        date@ == ini_date_spec(unix_nanos as int),
{
    match format_rfc3339_utc(unix_nanos) {
        Some(t) => trim_end_matches_char(t.as_str(), 'Z'),
        None => {
            assert(false);
            String::new()
        },
    }
}

#[verifier::external_type_specification]
#[verifier::external_body]
pub struct ExIni(Ini);

/// What an `Ini` holds: (section, key, value) in the order they were set.
pub uninterp spec fn ini_entries(ini: Ini) -> Seq<(Seq<char>, Seq<char>, Seq<char>)>;

/// `key` is set in `section`.
pub open spec fn ini_has(entries: Seq<(Seq<char>, Seq<char>, Seq<char>)>, section: Seq<char>, key: Seq<char>) -> bool {
    exists|i: int| 0 <= i < entries.len() && entries[i].0 == section && entries[i].1 == key
}

/// Calls `ini::Ini::new`, which holds no entries.
#[verifier::external_body]
fn ini_new() -> (ini: Ini)
    ensures
        ini_entries(ini) == Seq::<(Seq<char>, Seq<char>, Seq<char>)>::empty(),
{
    Ini::new()
}

/// Calls `ini::Ini::with_section` with a named section and `SectionSetter::set`. For a
/// key not yet set in the section, the contract claims that the entry is added after
/// the others.
#[verifier::external_body]
fn ini_set(ini: &mut Ini, section: &str, key: &str, value: &str)
    requires
        !ini_has(ini_entries(*old(ini)), section@, key@),
    ensures
        ini_entries(*final(ini)) == ini_entries(*old(ini)).push((section@, key@, value@)),
{
    ini.with_section(Some(section)).set(key, value);
}

/// The text that the ini library writes for entries set one by one into a new `Ini`,
/// with the escapes of its basic policy, `=` between key and value, and `line_separator`
/// after each line.
pub uninterp spec fn ini_text(entries: Seq<(Seq<char>, Seq<char>, Seq<char>)>, line_separator: Seq<char>) -> Seq<u8>;

/// Calls `ini::Ini::write_to` on a byte vector, which cannot fail. The contract claims
/// that the bytes are `ini_text` of the entries, with the platform's line separator:
/// `"\r\n"` on Windows and `"\n"` elsewhere, as the crate's source fixes it.
#[verifier::external_body]
fn ini_write(ini: &Ini) -> (text: Vec<u8>)
    ensures
        text@ == ini_text(ini_entries(*ini), "\n"@) || text@ == ini_text(
            ini_entries(*ini),
            "\r\n"@,
        ),
{
    let mut conf = Vec::<u8>::new();
    ini.write_to(&mut conf).unwrap();
    conf
}

/// The entries of a program's configuration.
pub open spec fn program_ini_spec(
    project_version: Seq<char>,
    ide: Seq<char>,
    name: Seq<char>,
    slot: u8,
    icon: Seq<char>,
    description: Seq<char>,
    date: Seq<char>,
) -> Seq<(Seq<char>, Seq<char>, Seq<char>)> {
    seq![
        ("project"@, "version"@, project_version),
        ("project"@, "ide"@, ide),
        ("program"@, "version"@, "16777216"@),
        ("program"@, "name"@, name),
        ("program"@, "slot"@, ascii_chars(decimal(slot as nat))),
        ("program"@, "icon"@, icon),
        ("program"@, "description"@, description),
        ("program"@, "date"@, date),
    ]
}

/// Where a (section, key) pair stands among the entries of a program's configuration.
spec fn program_ini_key_rank(section: Seq<char>, key: Seq<char>) -> int {
    if section == "project"@ {
        if key == "version"@ { 0 } else { 1 }
    } else if key == "version"@ {
        2
    } else if key == "name"@ {
        3
    } else if key == "slot"@ {
        4
    } else if key == "icon"@ {
        5
    } else if key == "description"@ {
        6
    } else {
        7
    }
}

proof fn lemma_program_ini_keys_distinct(
    pv: Seq<char>,
    ide: Seq<char>,
    name: Seq<char>,
    slot: u8,
    icon: Seq<char>,
    description: Seq<char>,
    date: Seq<char>,
)
    ensures
        ({
            let spec = program_ini_spec(pv, ide, name, slot, icon, description, date);
            &&& spec.len() == 8
            &&& forall|a: int, b: int|
                0 <= a < b < spec.len() ==> !(spec[a].0 == spec[b].0 && spec[a].1 == spec[b].1)
        }),
{
    let spec = program_ini_spec(pv, ide, name, slot, icon, description, date);
    reveal_strlit("project");
    reveal_strlit("program");
    reveal_strlit("version");
    reveal_strlit("ide");
    reveal_strlit("name");
    reveal_strlit("slot");
    reveal_strlit("icon");
    reveal_strlit("description");
    reveal_strlit("date");
    assert("project"@[3] != "program"@[3]);
    assert("version"@[0] != "ide"@[0]);
    assert("version"@[0] != "name"@[0] && "version"@[0] != "slot"@[0]);
    assert("version"@[0] != "icon"@[0] && "version"@[0] != "date"@[0]);
    assert("name"@[0] != "slot"@[0] && "name"@[0] != "icon"@[0] && "name"@[0] != "date"@[0]);
    assert("slot"@[0] != "icon"@[0] && "slot"@[0] != "date"@[0] && "icon"@[0] != "date"@[0]);
    assert("description"@[0] != "version"@[0] && "description"@[0] != "name"@[0]);
    assert("description"@[0] != "slot"@[0] && "description"@[0] != "icon"@[0]);
    assert("description"@[1] != "date"@[1]);
    assert forall|i: int| 0 <= i < 8 implies program_ini_key_rank(
        #[trigger] spec[i].0,
        spec[i].1,
    ) == i by {
        if i == 0 {
        } else if i == 1 {
        } else if i == 2 {
        } else if i == 3 {
        } else if i == 4 {
        } else if i == 5 {
        } else if i == 6 {
        } else {
        }
    }
    assert forall|a: int, b: int| 0 <= a < b < spec.len() implies !(spec[a].0 == spec[b].0
        && spec[a].1 == spec[b].1) by {
        assert(program_ini_key_rank(spec[a].0, spec[a].1) == a);
        assert(program_ini_key_rank(spec[b].0, spec[b].1) == b);
    }
}

/// Builds a program's configuration.
pub fn build_program_ini(
    project_version: &str,
    ide: &str,
    name: &str,
    slot: u8,
    icon: &str,
    description: &str,
    date: &str,
) -> (ini: Ini)
    ensures
        ini_entries(ini) == program_ini_spec(
            project_version@,
            ide@,
            name@,
            slot,
            icon@,
            description@,
            date@,
        ),
{
    let slot_text = decimal_string(slot as u64);
    let ghost spec = program_ini_spec(
        project_version@,
        ide@,
        name@,
        slot,
        icon@,
        description@,
        date@,
    );
    let entries: Vec<(&str, &str, &str)> = vec![
        ("project", "version", project_version),
        ("project", "ide", ide),
        ("program", "version", "16777216"),
        ("program", "name", name),
        ("program", "slot", slot_text.as_str()),
        ("program", "icon", icon),
        ("program", "description", description),
        ("program", "date", date),
    ];
    assert(entries@.map_values(|e: (&str, &str, &str)| (e.0@, e.1@, e.2@)) =~= spec);
    proof {
        lemma_program_ini_keys_distinct(
            project_version@,
            ide@,
            name@,
            slot,
            icon@,
            description@,
            date@,
        );
    }
    let mut ini = ini_new();
    let mut i: usize = 0;
    while i < entries.len()
        invariant
            i <= entries@.len() == spec.len(),
            entries@.map_values(|e: (&str, &str, &str)| (e.0@, e.1@, e.2@)) == spec,
            ini_entries(ini) == spec.take(i as int),
            forall|a: int, b: int|
                0 <= a < b < spec.len() ==> !(spec[a].0 == spec[b].0 && spec[a].1 == spec[b].1),
        decreases entries@.len() - i,
    {
        let e = entries[i];
        assert(spec[i as int] == (e.0@, e.1@, e.2@));
        assert(!ini_has(spec.take(i as int), e.0@, e.1@)) by {
            assert forall|a: int| 0 <= a < i implies !(spec.take(i as int)[a].0 == e.0@
                && spec.take(i as int)[a].1 == e.1@) by {
                assert(spec.take(i as int)[a] == spec[a]);
            }
        }
        ini_set(&mut ini, e.0, e.1, e.2);
        assert(spec.take(i as int).push(spec[i as int]) =~= spec.take(i + 1));
        i = i + 1;
    }
    assert(spec.take(spec.len() as int) =~= spec);
    ini
}

/// A program's configuration as the text the ini library writes: the entries of
/// `build_program_ini`, dated at an instant given in nanoseconds since the UNIX epoch.
/// The program version is not written.
pub fn generate_program_ini(
    project_version: &str,
    ide: &str,
    name: &str,
    _program_version: &str,
    slot: u8,
    icon: &str,
    description: &str,
    unix_nanos: i128,
) -> (text: Vec<u8>)
    requires
        YEAR_0_NANOS <= unix_nanos < YEAR_10000_NANOS,
    ensures
        ({
            let entries = program_ini_spec(
                project_version@,
                ide@,
                name@,
                slot,
                icon@,
                description@,
                ini_date_spec(unix_nanos as int),
            );
            text@ == ini_text(entries, "\n"@) || text@ == ini_text(entries, "\r\n"@)
        }),
{
    let date = ini_date(unix_nanos);
    let ini = build_program_ini(project_version, ide, name, slot, icon, description, date.as_str());
    ini_write(&ini)
}

/// The plugin that uploads programs.
pub struct UploadPlugin {}

impl UploadPlugin {
    /// The name of the command the plugin adds.
    pub fn get_name(&self) -> (name: &'static str)
        ensures
            name@ == "upload"@,
    {
        "upload"
    }
}

} // verus!

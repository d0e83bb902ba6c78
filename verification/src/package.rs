//! Program packages: their compression, the digests that name and cache them, and the
//! files kept beside them.
use vstd::prelude::*;
use vstd::string::{StrSliceExecFns, StringExecFns};
use libdeflater::{CompressionError, CompressionLvl, Compressor};
use base64::Engine;

verus! {

/// The MD5 digest of some bytes.
pub uninterp spec fn md5_digest(input: Seq<u8>) -> Seq<u8>;

/// The SHA-256 digest of some bytes.
pub uninterp spec fn sha256_digest(input: Seq<u8>) -> Seq<u8>;

/// The standard base64 text (with padding) of some bytes.
pub uninterp spec fn base64_standard(input: Seq<u8>) -> Seq<char>;

/// Calls `extendhash::md5::compute_hash`. The contract claims that the digest is a
/// function of the input alone, named `md5_digest`.
#[verifier::external_body]
fn md5(input: &[u8]) -> (digest: [u8; 16])
    ensures
        digest@ == md5_digest(input@),
{
    extendhash::md5::compute_hash(input)
}

/// Calls `extendhash::sha256::compute_hash`. The contract claims that the digest is a
/// function of the input alone, named `sha256_digest`.
#[verifier::external_body]
fn sha256(input: &[u8]) -> (digest: [u8; 32])
    ensures
        digest@ == sha256_digest(input@),
{
    extendhash::sha256::compute_hash(input)
}

/// Calls `Engine::encode` on `base64::engine::general_purpose::STANDARD`. The contract
/// claims that the text is a function of the input alone, named `base64_standard`; that
/// it has four characters for every three bytes begun, as `base64::encoded_len` with
/// padding computes; and that it is ASCII, as the alphabet is.
#[verifier::external_body]
fn base64_encode(input: &[u8]) -> (text: String)
    requires
        input@.len() < usize::MAX / 2,
    ensures
        text@ == base64_standard(input@),
        text@.len() == 4 * ((input@.len() + 2) / 3),
        vstd::utf8::is_ascii_chars(text@),
{
    base64::engine::general_purpose::STANDARD.encode(input)
}

/// The name under which a cold package is kept on the brain: the first 22 characters of
/// the base64 text of the MD5 digest of its compressed bytes.
pub open spec fn cold_package_name_spec(compressed: Seq<u8>) -> Seq<char> {
    base64_standard(md5_digest(compressed)).subrange(0, 22)
}

/// The name under which a cold package is kept on the brain.
pub fn cold_package_name(compressed: &[u8]) -> (name: String)
    ensures
        name@ == cold_package_name_spec(compressed@),
        name@.len() == 22,
{
    let digest = md5(compressed);
    let text = base64_encode(&digest);
    assert(digest@.len() == 16);
    let s = text.as_str();
    let head = s.substring_ascii(0, 22);
    head.to_owned()
}

/// Why a package could not be compressed.
#[derive(Copy, Clone, Debug, PartialEq, Eq, Structural)]
pub enum PackageError {
    InsufficientSpace,
}

#[verifier::external_type_specification]
#[verifier::external_body]
pub struct ExCompressor(Compressor);

#[verifier::external_type_specification]
#[verifier::external_body]
pub struct ExCompressionError(CompressionError);

/// A libdeflate compressor made at the best compression level; `best_compressor` alone
/// makes one.
struct BestCompressor {
    compressor: Compressor,
}

/// The gzip stream that libdeflate writes for `input` at its best compression level: a
/// 10-byte header with no time stamp, the DEFLATE data, then the CRC-32 and the length.
pub uninterp spec fn gzip_best(input: Seq<u8>) -> Seq<u8>;

/// Calls `libdeflater::Compressor::new` with the best compression level.
#[verifier::external_body]
fn best_compressor() -> (c: BestCompressor) {
    BestCompressor { compressor: Compressor::new(CompressionLvl::best()) }
}

/// The most bytes that gzip compression of `n` bytes can take: the 18 bytes of gzip
/// header and footer, then the input stored in blocks of at least 5000 bytes (at least
/// one block), each with 5 bytes of its own.
pub open spec fn gzip_bound_spec(n: nat) -> nat {
    let blocks = (n + 4999) / 5000;
    18 + 5 * (if blocks < 1 { 1 } else { blocks }) + n
}

/// Calls `libdeflater::Compressor::gzip_compress_bound`. The contract claims the value
/// that libdeflate's source computes, `gzip_bound_spec`, for counts on which that
/// computation does not wrap; the compressor does not enter into it.
#[verifier::external_body]
fn gzip_compress_bound(compressor: &mut BestCompressor, n_bytes: usize) -> (bound: usize)
    requires
        n_bytes + 4999 <= usize::MAX,
        gzip_bound_spec(n_bytes as nat) <= usize::MAX,
    ensures
        bound == gzip_bound_spec(n_bytes as nat),
{
    compressor.compressor.gzip_compress_bound(n_bytes)
}

/// Calls `libdeflater::Compressor::gzip_compress`. The contract claims that the call
/// leaves the output's length alone; that a successful call wrote `gzip_best` of the
/// input, which fits in the output, at its start (libdeflate's output depends only on the
/// input and the level, and its gzip header holds no time stamp); and that it succeeds
/// when the output holds the bound that `gzip_compress_bound` gives for the input's
/// length, as libdeflate documents that bound.
#[verifier::external_body]
fn gzip_compress(compressor: &mut BestCompressor, input: &[u8], output: &mut Vec<u8>) -> (written:
    Result<usize, CompressionError>)
    ensures
        final(output)@.len() == old(output)@.len(),
        written matches Ok(n) ==> n <= old(output)@.len() && final(output)@.take(n as int)
            == gzip_best(input@),
        old(output)@.len() >= gzip_bound_spec(input@.len()) ==> written is Ok,
{
    compressor.compressor.gzip_compress(input, output.as_mut_slice())
}

/// A compressed package and the record that lets a later run reuse it: the SHA-256 of
/// the uncompressed bytes, then that of the compressed ones.
pub struct CompressedPackage {
    pub data: Vec<u8>,
    pub record: Vec<u8>,
}

/// The cache record for a package: the digests of its uncompressed and compressed bytes.
pub open spec fn cache_record_spec(input: Seq<u8>, compressed: Seq<u8>) -> Seq<u8> {
    sha256_digest(input) + sha256_digest(compressed)
}

/// Compresses a package as gzip at the best level and makes its cache record. The buffer
/// is as large as libdeflate's bound for the input, so compression always succeeds.
pub fn compress_package(input: &[u8]) -> (r: Result<CompressedPackage, PackageError>)
    requires
        input@.len() <= isize::MAX,
    ensures
        r is Ok,
        r matches Ok(p) ==> p.data@ == gzip_best(input@) && p.record@ == cache_record_spec(
            input@,
            p.data@,
        ) && p.record@.len() == 64 && p.data@.len() <= gzip_bound_spec(input@.len()),
{
    let mut compressor = best_compressor();
    assert(input@.len() + 4999 <= usize::MAX);
    assert(gzip_bound_spec(input@.len()) <= usize::MAX);
    let bound = gzip_compress_bound(&mut compressor, input.len());
    let mut data: Vec<u8> = vec![0u8; bound];
    match gzip_compress(&mut compressor, input, &mut data) {
        Ok(size) => {
            data.truncate(size);
            let input_hash = sha256(input);
            let data_hash = sha256(data.as_slice());
            let mut record: Vec<u8> = Vec::new();
            let mut i: usize = 0;
            while i < 32
                invariant
                    i <= 32,
                    record@ == input_hash@.subrange(0, i as int),
                decreases 32 - i,
            {
                record.push(input_hash[i]);
                i = i + 1;
                assert(record@ =~= input_hash@.subrange(0, i as int));
            }
            let mut j: usize = 0;
            while j < 32
                invariant
                    j <= 32,
                    record@ == input_hash@ + data_hash@.subrange(0, j as int),
                decreases 32 - j,
            {
                record.push(data_hash[j]);
                j = j + 1;
                assert(record@ =~= input_hash@ + data_hash@.subrange(0, j as int));
            }
            assert(input_hash@.subrange(0, 32) =~= input_hash@);
            assert(data_hash@.subrange(0, 32) =~= data_hash@);
            Ok(CompressedPackage { data, record })
        },
        Err(_) => Err(PackageError::InsufficientSpace),
    }
}

/// A cache record is trusted only when it is exactly 32 bytes long and holds the digest
/// of the uncompressed package.
pub open spec fn cache_record_usable(record: Seq<u8>, input: Seq<u8>) -> bool {
    record.len() == 32 && record == sha256_digest(input)
}

/// Whether a cache record says that the cached compressed package belongs to `input`.
pub fn cache_hit(record: &[u8], input: &[u8]) -> (hit: bool)
    ensures
        hit == cache_record_usable(record@, input@),
{
    if record.len() != 32 {
        return false;
    }
    let digest = sha256(input);
    let mut i: usize = 0;
    while i < 32
        invariant
            i <= 32,
            record@.len() == 32,
            digest@.len() == 32,
            digest@ == sha256_digest(input@),
            forall|k: int| 0 <= k < i ==> record@[k] == digest@[k],
        decreases 32 - i,
    {
        if record[i] != digest[i] {
            assert(record@[i as int] != digest@[i as int]);
            return false;
        }
        i = i + 1;
    }
    assert(record@ =~= digest@);
    true
}

/// The extension that `std::path::Path::extension` finds in a path, read by the path
/// syntax of a platform: std splits paths by the rules of the platform it runs on, and
/// `platform` stands for those rules.
pub uninterp spec fn std_path_extension(path: Seq<char>, platform: int) -> Option<Seq<char>>;

/// The path that `std::path::Path::with_extension` makes of a path and an extension, read
/// by the path syntax of a platform, as above.
pub uninterp spec fn std_path_with_extension(path: Seq<char>, extension: Seq<char>, platform: int) -> Seq<char>;

/// An optional string by its view.
pub open spec fn opt_string_view(s: Option<String>) -> Option<Seq<char>> {
    match s {
        Some(e) => Some(e@),
        None => None,
    }
}

/// Calls `std::path::Path::extension` on a path given as text. The contract claims that
/// the extension is `std_path_extension` of the path under some platform's path syntax;
/// which platform is left unsaid, as it is the machine's.
#[verifier::external_body]
fn path_extension(path: &str) -> (ext: Option<String>)
    ensures
        exists|platform: int| opt_string_view(ext) == std_path_extension(path@, platform),
{
    match std::path::Path::new(path).extension() {
        Some(e) => Some(e.to_string_lossy().into_owned()),
        None => None,
    }
}

/// No character of `s` separates path components on any platform: neither `/` nor `\`.
pub open spec fn separator_free(s: Seq<char>) -> bool {
    forall|i: int| 0 <= i < s.len() ==> s[i] != '/' && s[i] != '\\'
}

/// Whether no character of `s` is `/` or `\`.
pub fn is_separator_free(s: &str) -> (free: bool)
    ensures
        free == separator_free(s@),
{
    let n = s.unicode_len();
    let mut i: usize = 0;
    while i < n
        invariant
            i <= n == s@.len(),
            forall|k: int| 0 <= k < i ==> s@[k] != '/' && s@[k] != '\\',
        decreases n - i,
    {
        let c = s.get_char(i);
        if c == '/' || c == '\\' {
            return false;
        }
        i = i + 1;
    }
    true
}

/// Calls `std::path::Path::with_extension` on a path given as text. The contract claims
/// that the path is `std_path_with_extension` of the arguments under some platform's path
/// syntax, for the reason above. `PathBuf::set_extension`, which it calls, panics on an
/// extension that holds a separator of the platform (`/` everywhere, `\` on Windows
/// too), so no such extension is admitted.
#[verifier::external_body]
fn path_with_extension(path: &str, ext: &str) -> (p: String)
    requires
        separator_free(ext@),
    ensures
        exists|platform: int| p@ == std_path_with_extension(path@, ext@, platform),
{
    std::path::Path::new(path).with_extension(ext).to_string_lossy().into_owned()
}

/// The extension of a file kept beside one with extension `current`: `current`, a dot and
/// `extension` where `current` is a non-empty extension, else `extension` alone.
pub open spec fn adjacent_extension_spec(current: Option<Seq<char>>, extension: Seq<char>) -> Seq<char> {
    match current {
        Some(e) => if e.len() > 0 {
            e + "."@ + extension
        } else {
            extension
        },
        None => extension,
    }
}

/// The extension of a file kept beside one with extension `current`.
pub fn adjacent_extension(current: &Option<String>, extension: &str) -> (ext: String)
    ensures
        ext@ == adjacent_extension_spec(
            match current {
                Some(e) => Some(e@),
                None => None,
            },
            extension@,
        ),
{
    match current {
        Some(e) => {
            if e.as_str().unicode_len() > 0 {
                let dot = ".";
                proof {
                    reveal_strlit(".");
                }
                let mut s = e.clone();
                s.append(dot);
                s.append(extension);
                s
            } else {
                String::from_str(extension)
            }
        },
        None => String::from_str(extension),
    }
}

/// The path of a file kept beside `path`: `path` with its extension followed by a dot and
/// `extension`, or with `extension` alone where it has none. An extension with a `/`
/// would leave the directory, and is not taken. Where the extension so formed holds a
/// `\` (which names no directory where a file name can hold it), the file is `path`
/// followed by a dot and `extension`.
pub fn adjacent_file(path: &str, extension: &str) -> (file: String)
    requires
        forall|i: int| 0 <= i < extension@.len() ==> extension@[i] != '/',
    ensures
        exists|p1: int|
            #![trigger std_path_extension(path@, p1)]
            {
                let ext = adjacent_extension_spec(std_path_extension(path@, p1), extension@);
                &&& separator_free(ext) ==> exists|p2: int|
                    file@ == std_path_with_extension(path@, ext, p2)
                &&& !separator_free(ext) ==> file@ == path@ + "."@ + extension@
            },
{
    let current = path_extension(path);
    let ext = adjacent_extension(&current, extension);
    if is_separator_free(ext.as_str()) {
        path_with_extension(path, ext.as_str())
    } else {
        let dot = ".";
        proof {
            reveal_strlit(".");
        }
        let mut file = String::from_str(path);
        file.append(dot);
        file.append(extension);
        file
    }
}

} // verus!

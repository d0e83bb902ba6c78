use v5_core::brain::filesystem::{FileMetadata, FileType, TransferTarget, UploadAction, Vid};
use v5_core::checksum::upload_crc32;
use v5_core::package::{adjacent_extension, adjacent_file, cache_hit, cold_package_name, compress_package};
use v5_core::upload::{
    chunks_fit, rfc3339_seconds,
    build_program_ini, cli_chunk_size, generate_program_ini, ini_date, plugin_chunk_size,
    skip_cold_upload, slot_file_name, transfer_chunks, upload_steps, PackagePart, UploadPlugin,
};

#[test]
fn cli_chunk_size_rounds_to_244_then_four() {
    assert_eq!(cli_chunk_size(1000), 472);
    assert_eq!(cli_chunk_size(0xFFFF), 32680);
    assert_eq!(cli_chunk_size(488), 228);
}

#[test]
fn plugin_chunk_size_is_half_aligned() {
    assert_eq!(plugin_chunk_size(1000), 500);
    assert_eq!(plugin_chunk_size(1030), 512);
    assert_eq!(plugin_chunk_size(7), 0);
}

#[test]
fn chunks_cover_the_file_in_order() {
    let chunks = transfer_chunks(10, 4, 100);
    let got: Vec<(usize, usize, u32)> = chunks.iter().map(|c| (c.start, c.end, c.address)).collect();
    assert_eq!(got, vec![(0, 4, 100), (4, 8, 104), (8, 10, 108)]);
    assert!(transfer_chunks(0, 4, 100).is_empty());
    let exact = transfer_chunks(8, 4, 0);
    assert_eq!(exact.len(), 2);
    assert_eq!(exact[1].end, 8);
}

#[test]
fn chunks_reassemble_the_file() {
    let file: Vec<u8> = (0..1000u32).map(|i| (i * 7 % 251) as u8).collect();
    let chunks = transfer_chunks(file.len(), 96, 0x0780_0000);
    let mut joined = Vec::new();
    for c in &chunks {
        assert!(c.end - c.start <= 96);
        assert_eq!(c.address, 0x0780_0000 + c.start as u32);
        joined.extend_from_slice(&file[c.start..c.end]);
    }
    assert_eq!(joined, file);
}

#[test]
fn slot_names() {
    assert_eq!(slot_file_name(0, "bin"), "slot_0.bin");
    assert_eq!(slot_file_name(7, "ini"), "slot_7.ini");
    assert_eq!(slot_file_name(12, "bin"), "slot_12.bin");
}

fn metadata(size: u32, crc: u32) -> FileMetadata {
    FileMetadata {
        vid: Vid::Pros,
        size,
        addr: 0,
        crc,
        file_type: "bin".to_string(),
        timestamp: 0,
        version: 0,
        name: "x".to_string(),
    }
}

#[test]
fn cold_package_is_kept_only_when_size_and_crc_match() {
    assert!(skip_cold_upload(&Some(metadata(10, 5)), 10, 5));
    assert!(!skip_cold_upload(&Some(metadata(10, 5)), 11, 5));
    assert!(!skip_cold_upload(&Some(metadata(10, 5)), 10, 6));
    assert!(!skip_cold_upload(&None, 10, 5));
    assert!(skip_cold_upload(&Some(metadata(3, 5)), (1usize << 32) + 3, 5));
}

#[test]
fn upload_steps_send_cold_hot_then_config() {
    let steps = upload_steps(2, "abc", false, 0x0380_0000, 0x0780_0000, UploadAction::RunScreen);
    assert_eq!(steps.len(), 3);
    assert_eq!(steps[0].part, PackagePart::Cold);
    assert_eq!(steps[0].vid, Vid::Pros);
    assert_eq!(steps[0].remote_name, "abc");
    assert_eq!(steps[0].address, 0x0380_0000);
    assert_eq!(steps[0].action, UploadAction::Nothing);
    assert_eq!(steps[1].part, PackagePart::Hot);
    assert_eq!(steps[1].vid, Vid::User);
    assert_eq!(steps[1].remote_name, "slot_2.bin");
    assert_eq!(steps[1].linked_file, Some(("abc".to_string(), Vid::Pros)));
    assert_eq!(steps[2].part, PackagePart::Config);
    assert_eq!(steps[2].file_type, FileType::Ini);
    assert_eq!(steps[2].remote_name, "slot_2.ini");
    assert_eq!(steps[2].address, 0);
    assert_eq!(steps[2].action, UploadAction::RunScreen);
    assert!(steps.iter().all(|s| s.target == TransferTarget::Flash));
    let kept = upload_steps(0, "abc", true, 1, 2, UploadAction::Run);
    assert_eq!(kept.len(), 2);
    assert_eq!(kept[0].part, PackagePart::Hot);
}

#[test]
fn cold_package_name_is_base64_md5_prefix() {
    let data = b"some package bytes";
    let digest = extendhash::md5::compute_hash(data);
    let text = base64::Engine::encode(&base64::engine::general_purpose::STANDARD, digest);
    assert_eq!(cold_package_name(data), text[..22]);
    assert_eq!(cold_package_name(b""), "1B2M2Y8AsgTpgAmY7PhCfg");
}

fn bitwise_crc32(data: &[u8]) -> u32 {
    let mut crc: u32 = 0;
    for &byte in data {
        crc ^= (byte as u32) << 24;
        for _ in 0..8 {
            crc = if crc & 0x8000_0000 != 0 { (crc << 1) ^ 0x04C1_1DB7 } else { crc << 1 };
        }
    }
    crc
}

#[test]
fn upload_crc_has_no_final_inversion() {
    let data = b"123456789";
    assert_eq!(upload_crc32(data), 0x89A1897F);
    let other: Vec<u8> = (0..300u32).map(|i| (i * 31 % 256) as u8).collect();
    assert_eq!(upload_crc32(&other), bitwise_crc32(&other));
    assert_eq!(upload_crc32(b""), 0);
}

#[test]
fn compressed_package_carries_both_digests() {
    let input = b"hello hello hello hello".to_vec();
    let package = compress_package(&input).unwrap_or_else(|_| panic!("compression failed"));
    assert_eq!(&package.data[..2], &[0x1F, 0x8B]);
    assert_eq!(package.record.len(), 64);
    assert_eq!(&package.record[..32], &extendhash::sha256::compute_hash(&input));
    assert_eq!(&package.record[32..], &extendhash::sha256::compute_hash(&package.data));
}

#[test]
fn compression_fits_the_gzip_bound() {
    let empty = compress_package(&[]).unwrap_or_else(|_| panic!("compression failed"));
    assert!(empty.data.len() <= 23);
    assert_eq!(&empty.data[..2], &[0x1F, 0x8B]);
    let noise: Vec<u8> = (0..12_000u32).map(|i| (i.wrapping_mul(2_654_435_761) >> 13) as u8).collect();
    let package = compress_package(&noise).unwrap_or_else(|_| panic!("compression failed"));
    assert!(package.data.len() <= 18 + 5 * 3 + 12_000);
    let again = compress_package(&noise).unwrap_or_else(|_| panic!("compression failed"));
    assert_eq!(again.data, package.data);
    assert_eq!(&package.data[4..8], &[0, 0, 0, 0]);
}

#[test]
fn cache_record_is_used_only_when_it_is_the_input_digest() {
    let input = b"abc";
    let digest = extendhash::sha256::compute_hash(input);
    assert!(cache_hit(&digest, input));
    assert!(!cache_hit(&digest, b"abd"));
    let mut long = digest.to_vec();
    long.extend_from_slice(&digest);
    assert!(!cache_hit(&long, input));
}

#[test]
fn adjacent_files_keep_the_old_extension() {
    assert_eq!(adjacent_file("bin/cold.package.bin", "gz"), "bin/cold.package.bin.gz");
    assert_eq!(adjacent_file("bin/cold", "cache"), "bin/cold.cache");
    assert_eq!(adjacent_file("bin/cold.a\\b", "gz"), "bin/cold.a\\b.gz");
    assert_eq!(adjacent_extension(&Some(String::new()), "gz"), "gz");
    assert_eq!(adjacent_extension(&Some("bin".to_string()), "gz"), "bin.gz");
    assert_eq!(adjacent_extension(&None, "gz"), "gz");
}

#[test]
fn ini_date_drops_the_zone_letter() {
    assert_eq!(ini_date(0), "1970-01-01T00:00:00");
    assert_eq!(ini_date(1_546_300_800_000_000_000), "2019-01-01T00:00:00");
    assert_eq!(ini_date(1_500_000_000_000), "1970-01-01T00:25:00");
}

#[test]
fn program_ini_lists_project_then_program() {
    let text = generate_program_ini("0.1.0", "PROS", "Program", "0.1.0", 0, "USER902x.bmp", "???", 0);
    let text = String::from_utf8(text).unwrap();
    let expected = "[project]\nversion=0.1.0\nide=PROS\n\n[program]\nversion=16777216\nname=Program\nslot=0\nicon=USER902x.bmp\ndescription=???\ndate=1970-01-01T00:00:00\n";
    assert_eq!(text.replace("\r\n", "\n"), expected);
    let ini = build_program_ini("1", "ide", "n", 3, "i", "d", "when");
    assert_eq!(ini.section(Some("program")).and_then(|p| p.get("slot")), Some("3"));
    assert_eq!(ini.section(Some("project")).and_then(|p| p.get("ide")), Some("ide"));
}

#[test]
fn upload_plugin_name() {
    assert_eq!(UploadPlugin {}.get_name(), "upload");
}

#[test]
fn chunks_fit_when_the_last_address_does() {
    assert!(chunks_fit(10, 4, u32::MAX - 8));
    assert!(!chunks_fit(10, 4, u32::MAX - 7));
    assert!(chunks_fit(0, 4, u32::MAX));
}

#[test]
fn seconds_format_as_rfc3339() {
    assert_eq!(rfc3339_seconds(0), Some("1970-01-01T00:00:00Z".to_string()));
    assert_eq!(rfc3339_seconds(946_684_800), Some("2000-01-01T00:00:00Z".to_string()));
}

use diskripper_core::filesystem::detect_filesystem;
use diskripper_core::filesystem::iso9660::Iso9660Reader;
use diskripper_core::filesystem::recovery::{calculate_checksum, verify_checksum};
use diskripper_core::filesystem::verify::VerificationResult;
use diskripper_core::filesystem::FilesystemType;

#[test]
fn test_detect_iso9660() {
    let mut data = vec![0u8; 0x8100];
    data[0x8001..0x8006].copy_from_slice(b"CD001");
    assert_eq!(detect_filesystem(&data), FilesystemType::Iso9660);
}

#[test]
fn test_detect_joliet() {
    let mut data = vec![0u8; 0x9000];
    data[0x8001..0x8006].copy_from_slice(b"CD001");
    data[0x8801..0x8806].copy_from_slice(b"CD001");
    data[0x8858..0x885B].copy_from_slice(&[0x25, 0x2F, 0x40]);
    assert_eq!(detect_filesystem(&data), FilesystemType::Joliet);
}

#[test]
fn test_both_endian_u16() {
    let data = [0x00, 0x08, 0x08, 0x00];
    assert_eq!(Iso9660Reader::read_both_endian_u16(&data, 0), 2048);
}

#[test]
fn test_both_endian_u32() {
    let data = [0x10, 0x00, 0x00, 0x00, 0x00, 0x00, 0x00, 0x10];
    assert_eq!(Iso9660Reader::read_both_endian_u32(&data, 0), 16);
}

#[test]
fn test_decode_ucs2_be() {
    let mut data = vec![0u8; 0x8100];
    data[0x8001..0x8006].copy_from_slice(b"CD001");
    let reader = Iso9660Reader::new(data).unwrap();
    let bytes = [0x00, 0x41, 0x00, 0x42];
    assert_eq!(reader.decode_ucs2_be(&bytes), "AB");
}

#[test]
fn test_decode_ucs2_be_with_null() {
    let mut data = vec![0u8; 0x8100];
    data[0x8001..0x8006].copy_from_slice(b"CD001");
    let reader = Iso9660Reader::new(data).unwrap();
    let bytes = [0x00, 0x41, 0x00, 0x00];
    assert_eq!(reader.decode_ucs2_be(&bytes), "A");
}

#[test]
fn test_multi_extent_detection() {
    assert!(true);
}

#[test]
fn test_calculate_checksum() {
    let data = b"hello world";
    let checksum = calculate_checksum(data);
    assert_eq!(checksum.len(), 64);
}

#[test]
fn test_verify_checksum_valid() {
    let data = b"hello world";
    let checksum = calculate_checksum(data);
    assert!(verify_checksum(data, &checksum));
}

#[test]
fn test_verify_checksum_invalid() {
    let data = b"hello world";
    assert!(!verify_checksum(data, "invalid"));
}

#[test]
fn sha256_of_hello_world() {
    assert_eq!(
        calculate_checksum(b"hello world"),
        "b94d27b9934d3e08a52e52d7da7dabfac484efe37a5380ee9088f7ace2efcde9"
    );
}

#[test]
fn test_verification_result_valid() {
    let result = VerificationResult {
        file_path: "test.iso".to_string(),
        source_checksum: "abc123".to_string(),
        dest_checksum: "abc123".to_string(),
        valid: true,
        bytes_verified: 1024,
    };
    assert!(result.valid);
}

#[test]
fn test_verification_result_invalid() {
    let result = VerificationResult {
        file_path: "test.iso".to_string(),
        source_checksum: "abc123".to_string(),
        dest_checksum: "def456".to_string(),
        valid: false,
        bytes_verified: 1024,
    };
    assert!(!result.valid);
}

#[test]
fn detect_unknown_on_small_data() {
    let data = vec![0u8; 100];
    assert_eq!(detect_filesystem(&data), FilesystemType::Unknown);
}

#[test]
fn iso_reader_refuses_small_data() {
    assert!(Iso9660Reader::new(vec![0u8; 100]).is_err());
}

#[test]
fn iso_reader_refuses_missing_signature() {
    assert!(Iso9660Reader::new(vec![0u8; 0x8100]).is_err());
}

/// A small ISO 9660 image: the root directory at block 18 holds `.` and
/// one file `A.TXT` at block 19 holding "hello".
fn tiny_iso() -> Vec<u8> {
    let mut d = vec![0u8; 0xA000];
    d[0x8000] = 1;
    d[0x8001..0x8006].copy_from_slice(b"CD001");
    d[0x8080] = 0x00;
    d[0x8081] = 0x08;
    let root = 0x809C;
    d[root] = 34;
    d[root + 2..root + 6].copy_from_slice(&18u32.to_le_bytes());
    d[root + 10..root + 14].copy_from_slice(&2048u32.to_le_bytes());
    d[root + 25] = 0x02;
    d[root + 32] = 1;
    let dir = 0x9000;
    d[dir] = 34;
    d[dir + 2..dir + 6].copy_from_slice(&18u32.to_le_bytes());
    d[dir + 10..dir + 14].copy_from_slice(&2048u32.to_le_bytes());
    d[dir + 25] = 0x02;
    d[dir + 32] = 1;
    let f = dir + 34;
    d[f] = 40;
    d[f + 2..f + 6].copy_from_slice(&19u32.to_le_bytes());
    d[f + 10..f + 14].copy_from_slice(&5u32.to_le_bytes());
    d[f + 32] = 7;
    d[f + 33..f + 40].copy_from_slice(b"A.TXT;1");
    d[0x9800..0x9805].copy_from_slice(b"hello");
    d
}

#[test]
fn iso_walk_checks_pass_on_whole_records() {
    let data = tiny_iso();
    assert!(Iso9660Reader::can_open(&data));
    let mut r = Iso9660Reader::new(data).unwrap();
    assert!(r.records_whole(18, 2048));
    assert!(r.directory_readable("/"));
    assert!(r.file_findable("A.TXT"));
    assert!(r.listable_within(4));
    let files = r.list_files().unwrap();
    assert_eq!(files.len(), 1);
    assert_eq!(files[0].path, "A.TXT");
    assert!(r.file_bytes_readable(&files[0]));
    assert_eq!(r.read_file_bytes(&files[0]).unwrap(), b"hello".to_vec());
}

#[test]
fn iso_walk_checks_refuse_a_cut_record() {
    let mut data = tiny_iso();
    data[0x9000 + 34] = 20;
    let r = Iso9660Reader::new(data).unwrap();
    assert!(!r.records_whole(18, 2048));
    assert!(!r.directory_readable("/"));
    assert!(!r.file_findable("A.TXT"));
    assert!(!r.listable_within(4));
}

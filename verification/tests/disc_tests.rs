use diskripper_core::disc::{DiscType, PlatformDiscAnalyzer};
use diskripper_core::drive_control::{ParanoidConfig, ParanoidRipper};

#[test]
fn test_disc_type_display() {
    assert_eq!(DiscType::CdRom.to_string(), "CD-ROM");
    assert_eq!(DiscType::BdRom.to_string(), "BD-ROM");
    assert_eq!(DiscType::Unknown.to_string(), "Unknown");
}

#[test]
fn test_disc_type_capacity() {
    assert_eq!(DiscType::CdRom.capacity_bytes(), 700 * 1024 * 1024);
    assert_eq!(DiscType::DvdRom.capacity_bytes(), 4_700_000_000);
    assert_eq!(DiscType::BdRom.capacity_bytes(), 25_000_000_000);
}

#[test]
fn test_disc_type_writable() {
    assert!(DiscType::CdR.is_writable());
    assert!(DiscType::BdR.is_writable());
    assert!(!DiscType::CdRom.is_writable());
    assert!(!DiscType::BdRom.is_writable());
}

#[test]
fn test_parse_windows_media_type() {
    assert_eq!(
        PlatformDiscAnalyzer::parse_windows_media_type("CD-ROM"),
        DiscType::CdRom
    );
    assert_eq!(
        PlatformDiscAnalyzer::parse_windows_media_type("BD-ROM"),
        DiscType::BdRom
    );
    assert_eq!(
        PlatformDiscAnalyzer::parse_windows_media_type("DVD-RAM"),
        DiscType::DvdRam
    );
}

#[test]
fn test_paranoid_config_default() {
    let config = ParanoidConfig::default();
    assert_eq!(config.read_count, 3);
    assert!(config.majority_vote);
    assert!(!config.abort_on_mismatch);
}

#[test]
fn test_majority_vote() {
    let reads = vec![
        vec![1, 2, 3, 4],
        vec![1, 2, 3, 4],
        vec![1, 2, 99, 4],
    ];

    let result = ParanoidRipper::majority_vote(&reads).unwrap();
    assert_eq!(result, vec![1, 2, 3, 4]);
}

#[test]
fn majority_vote_of_no_reads_is_an_error() {
    let reads: Vec<Vec<u8>> = Vec::new();
    assert!(ParanoidRipper::majority_vote(&reads).is_err());
}

#[test]
fn majority_vote_of_one_read_is_that_read() {
    let reads = vec![vec![7u8, 8, 9]];
    assert_eq!(ParanoidRipper::majority_vote(&reads).unwrap(), vec![7, 8, 9]);
}

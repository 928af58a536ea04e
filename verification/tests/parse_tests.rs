use diskripper_core::audio::AudioCdReader;
use diskripper_core::drive::{drives_from_records, DriveRecord, DriveType};
use diskripper_core::extract::{extraction_kind, is_drive_letter, ExtractKind};
use diskripper_core::error::DiskRipperError;
use diskripper_core::filesystem::FilesystemType;
use diskripper_core::filesystem::verify::{verification_batches, verify_batch};
use diskripper_core::gpu::parse_nvidia_output;
use diskripper_core::logging::{app_dir_in, get_cache_dir, get_config_dir, get_log_dir, log_dir_in};
use diskripper_core::parallel::{gpu_info, parse_meminfo, GpuDevice, MemoryAwareReader, SystemInfo};
use diskripper_core::numtext::{parse_unsigned, split_whitespace};

fn chars(s: &str) -> Vec<char> {
    s.chars().collect()
}

#[test]
fn unsigned_numbers_read_as_str_parse_does() {
    assert_eq!(parse_unsigned(&chars("12345"), u64::MAX), Some(12345));
    assert_eq!(parse_unsigned(&chars("+7"), 255), Some(7));
    assert_eq!(parse_unsigned(&chars("256"), 255), None);
    assert_eq!(parse_unsigned(&chars(""), 255), None);
    assert_eq!(parse_unsigned(&chars("+"), 255), None);
    assert_eq!(parse_unsigned(&chars("-1"), 255), None);
    assert_eq!(parse_unsigned(&chars("1 2"), 255), None);
    assert_eq!(parse_unsigned(&chars("18446744073709551615"), u64::MAX), Some(u64::MAX));
    assert_eq!(parse_unsigned(&chars("18446744073709551616"), u64::MAX), None);
}

#[test]
fn words_of_a_line() {
    let w = split_whitespace(&chars("  Track 1:\t0 ->  12345 "));
    let w: Vec<String> = w.into_iter().map(|v| v.into_iter().collect()).collect();
    assert_eq!(w, vec!["Track", "1:", "0", "->", "12345"]);
}

#[test]
fn macos_track_table() {
    let reader = AudioCdReader::new("/dev/disk2".to_string(), 1000);
    let info = "Name: Audio CD\nTracks:\n  Track 1: 0 -> 100\n  Track 2: 101 -> 250\n\nTrack 3: 1 -> 2\n";
    let toc = reader.parse_macos_toc(info);
    assert_eq!(toc.len(), 2);
    assert_eq!((toc[0].track_number, toc[0].start_sector, toc[0].end_sector), (1, 0, 100));
    assert_eq!((toc[1].track_number, toc[1].start_sector, toc[1].end_sector), (2, 101, 250));
    assert_eq!(toc[1].duration_sectors, 149);
}

#[test]
fn macos_track_table_falls_back() {
    let reader = AudioCdReader::new("/dev/disk2".to_string(), 1000);
    let toc = reader.parse_macos_toc("nothing here");
    assert_eq!(toc.len(), 1);
    assert_eq!(toc[0].end_sector, 999);
}

#[test]
fn nvidia_smi_lines() {
    let out = "NVIDIA GeForce RTX 3080, 10240 MiB, 68\nbad line\nTesla T4, 15360 MiB\n";
    let d = parse_nvidia_output(out);
    assert_eq!(d.len(), 2);
    assert_eq!(d[0].name, "NVIDIA GeForce RTX 3080");
    assert_eq!(d[0].memory_mb, 10240);
    assert_eq!(d[0].compute_units, 68);
    assert_eq!(d[1].name, "Tesla T4");
    assert_eq!(d[1].memory_mb, 15360);
    assert_eq!(d[1].compute_units, 0);
    assert!(d.iter().all(|g| g.available));
}

#[test]
fn windows_drive_records() {
    let records = vec![
        DriveRecord { device_id: "C:".to_string(), drive_type: 3, volume_name: Some("System".to_string()) },
        DriveRecord { device_id: "D:".to_string(), drive_type: 5, volume_name: Some("MOVIE_BD".to_string()) },
        DriveRecord { device_id: "E:".to_string(), drive_type: 5, volume_name: Some("DVD_VIDEO".to_string()) },
        DriveRecord { device_id: "F:".to_string(), drive_type: 5, volume_name: None },
    ];
    let drives = drives_from_records(&records);
    assert_eq!(drives.len(), 3);
    assert_eq!(drives[0].path, "D:\\");
    assert_eq!(drives[0].drive_type, DriveType::BluRay);
    assert_eq!(drives[1].drive_type, DriveType::Dvd);
    assert_eq!(drives[2].drive_type, DriveType::Cd);
    assert_eq!(drives[2].label, None);
}

#[test]
fn extraction_readers() {
    assert_eq!(extraction_kind(FilesystemType::Joliet).unwrap(), ExtractKind::Iso9660);
    assert_eq!(extraction_kind(FilesystemType::Udf).unwrap(), ExtractKind::Udf);
    match extraction_kind(FilesystemType::Hybrid) {
        Err(DiskRipperError::UnsupportedDisc(m)) => assert_eq!(m, "HFS/Hybrid extraction not yet supported"),
        _ => panic!("expected an error"),
    }
    match extraction_kind(FilesystemType::Unknown) {
        Err(DiskRipperError::UnsupportedDisc(m)) => assert_eq!(m, "Unknown filesystem on disc image"),
        _ => panic!("expected an error"),
    }
    assert!(is_drive_letter("D:"));
    assert!(is_drive_letter("D:\\"));
    assert!(is_drive_letter("D"));
    assert!(!is_drive_letter("D:\\movie.iso"));
}

#[test]
fn image_verification_batches() {
    let b = verification_batches(2048 * 250 + 100);
    assert_eq!(b, vec![(0, 100), (100, 100), (200, 50)]);
    let image = vec![7u8; 2048 * 3];
    let src = vec![7u8; 2048 * 2];
    let r = verify_batch(1, 2, Some(&src), &image);
    assert_eq!(r.file_path, "Sectors 1-2");
    assert!(r.valid);
    assert_eq!(r.bytes_verified, 4096);
    let bad = verify_batch(0, 1, Some(&[1u8; 2048]), &image);
    assert!(!bad.valid);
    let failed = verify_batch(5, 3, None, &image);
    assert_eq!(failed.file_path, "Sectors 5-7");
    assert!(!failed.valid);
    assert_eq!(failed.bytes_verified, 0);
    assert_eq!(failed.source_checksum, "");
}

#[test]
fn meminfo_totals() {
    let text = "MemTotal:       16384 kB\nMemFree:  100 kB\nMemAvailable:    8192 kB\n";
    assert_eq!(parse_meminfo(text), (16384 * 1024, 8192 * 1024));
    assert_eq!(parse_meminfo("MemAvailable: 5 kB\n"), (0, 0));
    assert_eq!(parse_meminfo("MemTotal: x kB\n"), (0, 0));
}

#[test]
fn best_gpu_and_description() {
    let dev = |n: &str, mb: u64| GpuDevice {
        name: n.to_string(),
        vendor: "V".to_string(),
        memory_bytes: mb * 1024 * 1024,
        platform: "CUDA".to_string(),
    };
    let info = SystemInfo {
        num_cpus: 4,
        num_physical_cpus: 2,
        total_memory_bytes: 0,
        available_memory_bytes: 0,
        gpu_devices: vec![dev("a", 100), dev("b", 300), dev("c", 300), dev("d", 200)],
    };
    assert!(info.has_gpu());
    assert_eq!(info.best_gpu().unwrap().name, "c");
    assert_eq!(gpu_info(&info.gpu_devices[..2]), "a (CUDA, 100 MB), b (CUDA, 300 MB)");
    assert_eq!(gpu_info(&[]), "No GPU detected");
    assert_eq!(MemoryAwareReader::new(1).concurrent_reads, 1);
    assert_eq!(MemoryAwareReader::new(40 * 1024 * 1024).concurrent_reads, 5);
    assert_eq!(MemoryAwareReader::new(1 << 40).concurrent_reads, 16);
}

#[test]
fn log_and_app_directories() {
    assert_eq!(log_dir_in(&Some("/home/u/.local/share".to_string())), "/home/u/.local/share/DiskRipper/logs");
    assert_eq!(log_dir_in(&None), "./logs");
    assert_eq!(app_dir_in(&Some("/home/u/.config/".to_string()), "./config"), "/home/u/.config/DiskRipper");
    assert_eq!(app_dir_in(&None, "./cache"), "./cache");
    assert!(get_log_dir().ends_with("logs"));
    assert!(get_config_dir().ends_with("DiskRipper") || get_config_dir() == "./config");
    assert!(get_cache_dir().ends_with("DiskRipper") || get_cache_dir() == "./cache");
}

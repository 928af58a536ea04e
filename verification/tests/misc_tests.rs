use diskripper_core::error::DiskRipperError;
use diskripper_core::filesystem::recovery::{plan_batches, RangeRead, ReadConfig, ReadResult};
use diskripper_core::filesystem::linux_sg::{parse_capacity, read_capacity_cdb, read_cd_cdb, test_unit_ready_cdb};
use diskripper_core::gpu::{apple_silicon_gpu, other_gpus, GpuType};
use diskripper_core::parallel::nvidia_gpu;
use diskripper_core::audio::CheckedSectorRead;
use diskripper_core::audio::AudioCdReader;
use diskripper_core::drive::find_mount_path;
use diskripper_core::filesystem::native_win::raw_device_path;
use diskripper_core::icons::{icns_bytes, icns_types};
use diskripper_core::job::{JobEventType, JobStatus, JobTable};
use diskripper_core::ml::organizer::{Identification, SmartOrganizer};
use diskripper_core::ml::ContentType;
use diskripper_core::types::JobId;

#[test]
fn windows_toc_json_gives_tracks_from_the_track_list() {
    let r = AudioCdReader::new("D:\\".to_string(), 9000);
    let json = "{\"NumberOfTracks\": 2, \"Tracks\": 150, 2000, 5000]}";
    let t = r.parse_windows_toc_json(json);
    assert_eq!(t.len(), 3);
    assert_eq!((t[0].track_number, t[0].start_sector, t[0].end_sector), (1, 0, 150));
    assert_eq!(t[0].duration_sectors, 151);
    assert_eq!((t[1].track_number, t[1].start_sector, t[1].end_sector), (2, 151, 2000));
    assert_eq!(t[1].duration_sectors, 1850);
    assert_eq!((t[2].track_number, t[2].start_sector, t[2].end_sector), (3, 2001, 5000));
    assert!(t.iter().all(|x| x.is_audio));
}

#[test]
fn windows_toc_json_skips_pieces_that_are_not_numbers() {
    let r = AudioCdReader::new("D:\\".to_string(), 9000);
    let t = r.parse_windows_toc_json("{\"Tracks\": [150, 2000]}");
    assert_eq!(t.len(), 1);
    assert_eq!((t[0].track_number, t[0].start_sector, t[0].end_sector), (2, 0, 2000));
}

#[test]
fn windows_toc_json_without_tracks_falls_back_to_the_whole_disc() {
    let r = AudioCdReader::new("D:\\".to_string(), 9000);
    for json in ["{}", "{\"Tracks\": []}", "{\"Tracks\" 1, 2]}", "{\"Tracks\": [1, 2"] {
        let t = r.parse_windows_toc_json(json);
        assert_eq!(t.len(), 1, "{}", json);
        assert_eq!((t[0].track_number, t[0].start_sector, t[0].end_sector), (1, 0, 8999));
        assert_eq!(t[0].duration_sectors, 9000);
    }
}

#[test]
fn mount_path_is_the_second_word_of_the_device_line() {
    let mounts = "proc /proc proc rw 0 0\n/dev/sr0 /media/cdrom iso9660 ro 0 0\n/dev/sr1 /mnt/x udf ro 0 0\n";
    assert_eq!(find_mount_path(mounts, "/dev/sr0").as_deref(), Some("/media/cdrom"));
    assert_eq!(find_mount_path(mounts, "/dev/sr1").as_deref(), Some("/mnt/x"));
    assert_eq!(find_mount_path(mounts, "/dev/sr2"), None);
    assert_eq!(find_mount_path("/dev/sr0\n", "/dev/sr0"), None);
    assert_eq!(find_mount_path("", "/dev/sr0"), None);
}

#[test]
fn cancelled_jobs_read_as_cancelled() {
    let mut t = JobTable::new();
    let id = t.create_job("rip".to_string(), 10);
    assert!(!t.is_cancelled(&id));
    assert_eq!(t.cancel_job(&id, 11).unwrap(), Some(JobEventType::Cancelled));
    assert!(t.is_cancelled(&id));
    assert_eq!(t.get(&id).unwrap().status, JobStatus::Cancelled);
    assert_eq!(t.get(&id).unwrap().updated_at, 11);
    let other = t.create_job("other".to_string(), 12);
    assert!(!t.is_cancelled(&other));
    let missing = JobId("nope".to_string());
    assert!(t.is_cancelled(&missing));
    assert!(t.cancel_job(&missing, 13).is_err());
    assert!(t.remove_job(&id).is_ok());
    assert!(t.is_cancelled(&id));
}

fn ident(content_type: ContentType) -> Identification {
    Identification {
        content_type,
        title: Some("Blue".to_string()),
        artist: Some("Band".to_string()),
        album: None,
        genre: Some("Jazz".to_string()),
        year: Some(1999),
    }
}

#[test]
fn nfo_notes_by_kind() {
    let head = "<?xml version=\"1.0\" encoding=\"UTF-8\"?>\n";
    assert_eq!(
        SmartOrganizer::nfo_content(&ident(ContentType::Music)),
        format!("{}<album>\n\t<title>Blue</title>\n\t<artist>Band</artist>\n\t<year>1999</year>\n\t<genre>Jazz</genre>\n</album>", head)
    );
    assert_eq!(
        SmartOrganizer::nfo_content(&ident(ContentType::Movie)),
        format!("{}<movie>\n\t<title>Blue</title>\n\t<year>1999</year>\n\t<genre>Jazz</genre>\n</movie>", head)
    );
    assert_eq!(
        SmartOrganizer::nfo_content(&ident(ContentType::TvShow)),
        format!("{}<item>\n\t<title>Blue</title>\n\t<type>TvShow</type>\n</item>", head)
    );
    let bare = Identification {
        content_type: ContentType::Music,
        title: None,
        artist: None,
        album: None,
        genre: None,
        year: None,
    };
    assert_eq!(
        SmartOrganizer::nfo_content(&bare),
        format!("{}<album>\n\t<title></title>\n\t<artist></artist>\n\t<year>0</year>\n\t<genre></genre>\n</album>", head)
    );
}

#[test]
fn icns_file_layout() {
    let types = icns_types();
    assert_eq!(types.len(), 8);
    assert_eq!(types[0], (0x49434E23, 16));
    assert_eq!(types[7], (0x69743332, 1024));
    let pngs: Vec<Vec<u8>> = (0..8u8).map(|i| vec![i; i as usize + 1]).collect();
    let f = icns_bytes(&pngs);
    let body: usize = pngs.iter().map(|p| p.len() + 8).sum();
    assert_eq!(f.len(), 8 + body);
    assert_eq!(&f[0..4], b"icns");
    assert_eq!(u32::from_be_bytes([f[4], f[5], f[6], f[7]]) as usize, 8 + body);
    assert_eq!(&f[8..12], &0x49434E23u32.to_be_bytes());
    assert_eq!(&f[12..16], &9u32.to_be_bytes());
    assert_eq!(f[16], 0);
    assert_eq!(&f[17..21], &0x69637334u32.to_be_bytes());
    assert_eq!(&f[21..25], &10u32.to_be_bytes());
    assert_eq!(&f[25..27], &[1, 1]);
}

#[test]
fn raw_device_paths_of_drive_letters() {
    assert_eq!(raw_device_path("d"), "\\\\.\\D:");
    assert_eq!(raw_device_path("E:\\"), "\\\\.\\E:");
    assert_eq!(raw_device_path("f:"), "\\\\.\\F:");
    assert_eq!(raw_device_path("D:\\\\"), "\\\\.\\D:");
    assert_eq!(raw_device_path("1"), "1");
    assert_eq!(raw_device_path("1:"), "\\\\.\\1:");
    assert_eq!(raw_device_path("\\\\.\\CdRom0"), "\\\\.\\CdRom0");
    assert_eq!(raw_device_path("é"), "é");
}

#[test]
fn scsi_command_blocks_and_capacity() {
    assert_eq!(read_capacity_cdb(), vec![0x25, 0, 0, 0, 0, 0, 0, 0, 0, 0]);
    assert_eq!(test_unit_ready_cdb(), vec![0u8; 6]);
    assert_eq!(
        read_cd_cdb(0x0102_0304, 16),
        vec![0xBE, 0, 1, 2, 3, 4, 0, 16, 0x10, 0, 0, 0]
    );
    assert_eq!(
        read_cd_cdb(0x1_0000_0005, 70000),
        vec![0xBE, 0, 0, 0, 0, 5, 0xFF, 0xFF, 0x10, 0, 0, 0]
    );
    assert_eq!(parse_capacity(&[0, 0, 0x12, 0x34, 0, 0, 8, 0]), (0x1234, 2048));
}

#[test]
fn apple_gpu_from_system_profiler() {
    let out = "Graphics/Displays:\n\n    Apple M2:\n\n      Chipset Model: Apple M2 \n      Type: GPU\n";
    let g = apple_silicon_gpu(out).unwrap();
    assert_eq!(g.name, "Apple M2");
    assert_eq!(g.device_type, GpuType::AppleSilicon);
    assert_eq!((g.memory_mb, g.compute_units, g.available), (0, 0, true));
    let g = apple_silicon_gpu("Apple GPU\nVendor: Apple\n").unwrap();
    assert_eq!(g.name, "Apple Silicon");
    assert!(apple_silicon_gpu("Chipset Model: Radeon\n").is_none());
}

#[test]
fn other_gpus_from_wmic() {
    let out = "Name\r\nNVIDIA GeForce RTX 3060  \r\n\r\nAMD Radeon RX 6600\r\nIntel(R) UHD Graphics 630\r\nMatrox G200\r\n";
    let v = other_gpus(out).unwrap();
    let kinds: Vec<GpuType> = v.iter().map(|g| g.device_type).collect();
    assert_eq!(kinds, vec![GpuType::Nvidia, GpuType::Amd, GpuType::Intel, GpuType::Unknown]);
    assert_eq!(v[0].name, "NVIDIA GeForce RTX 3060");
    assert!(v.iter().all(|g| g.available && g.memory_mb == 0));
    assert!(other_gpus("Name\n\n").is_none());
    assert!(other_gpus("").is_none());
}

#[test]
fn nvidia_gpu_from_the_first_line() {
    let g = nvidia_gpu("NVIDIA GeForce RTX 4090, 24564 MiB\nother, 1 MiB\n").unwrap();
    assert_eq!(g.name, "NVIDIA GeForce RTX 4090");
    assert_eq!(g.vendor, "NVIDIA");
    assert_eq!(g.platform, "CUDA");
    assert_eq!(g.memory_bytes, 24564 * 1024 * 1024);
    assert_eq!(nvidia_gpu("Tesla, 16 MB, extra").unwrap().memory_bytes, 16 * 1024 * 1024);
    assert_eq!(nvidia_gpu("Tesla, lots").unwrap().memory_bytes, 0);
    assert!(nvidia_gpu("no separator here").is_none());
    assert!(nvidia_gpu("").is_none());
}

fn audio_like() -> Vec<u8> {
    (0..2352u32).map(|i| (i % 251) as u8).collect()
}

#[test]
fn checked_sector_read_takes_the_first_plausible_read() {
    let mut c = CheckedSectorRead::new(3);
    assert!(c.wants_read());
    assert!(c.on_read(None).is_none());
    assert!(c.on_read(Some(vec![0u8; 2352])).is_none());
    let good = audio_like();
    assert_eq!(c.on_read(Some(good.clone())), Some(good));
}

#[test]
fn checked_sector_read_falls_back_to_the_last_data() {
    let mut c = CheckedSectorRead::new(2);
    assert!(c.on_read(Some(vec![7u8; 2352])).is_none());
    assert!(c.on_read(None).is_none());
    assert!(!c.wants_read());
    assert_eq!(c.finish(), Some(vec![7u8; 2352]));
    let mut c = CheckedSectorRead::new(1);
    assert!(c.on_read(None).is_none());
    assert_eq!(c.finish(), None);
}

fn read_ok(data: Vec<u8>, retries: u32) -> Result<ReadResult, DiskRipperError> {
    Ok(ReadResult { data, retries_used: retries, had_errors: retries > 0 })
}

#[test]
fn range_read_goes_batch_by_batch() {
    let mut r = RangeRead::new(100, 5, 4, 2, &ReadConfig::default());
    assert_eq!(r.next_batch(), Some((100, 2)));
    assert!(r.on_batch(read_ok(vec![1, 2, 3, 4], 0)).is_ok());
    assert_eq!(r.next_batch(), Some((102, 2)));
    assert!(r.on_batch(read_ok(vec![5, 6, 7, 8], 2)).is_ok());
    assert_eq!(r.next_batch(), Some((104, 1)));
    assert!(r.on_batch(read_ok(vec![9, 10], 0)).is_ok());
    assert_eq!(r.next_batch(), None);
    assert_eq!(r.finish(), vec![1, 2, 3, 4, 5, 6, 7, 8, 9, 10]);
    let plan = plan_batches(100, 5, 2);
    assert_eq!(plan, vec![(100, 2), (102, 2), (104, 1)]);
}

#[test]
fn range_read_fills_or_fails_on_a_bad_batch() {
    let mut r = RangeRead::new(0, 3, 4, 2, &ReadConfig { skip_on_failure: true, ..ReadConfig::default() });
    assert!(r.on_batch(Err(DiskRipperError::ReadError("bad".to_string()))).is_ok());
    assert_eq!(r.next_batch(), Some((2, 1)));
    assert!(r.on_batch(read_ok(vec![7, 7, 7, 7], 1)).is_ok());
    assert_eq!(r.finish(), vec![0, 0, 0, 0, 0, 0, 0, 0, 7, 7, 7, 7]);
    let mut r = RangeRead::new(0, 3, 4, 2, &ReadConfig::default());
    match r.on_batch(Err(DiskRipperError::ReadError("bad".to_string()))) {
        Err(DiskRipperError::ReadError(m)) => assert_eq!(m, "bad"),
        other => panic!("unexpected {:?}", other),
    }
    assert_eq!(r.next_batch(), Some((0, 2)));
}

#[test]
fn test_read_config_default() {
    let config = ReadConfig::default();
    assert_eq!(config.max_retries, 3);
    assert_eq!(config.initial_delay_ms, 100);
}

use diskripper_core::audio_cd::{escape_cue_string, wav_header_bytes, AudioCdRipper, AudioTrack};
use diskripper_core::crash_reporting::{
    is_crash_file, is_report_file, report_file_name, sort_newest_first, CrashReport, CrashReporter,
    Platform,
};
use diskripper_core::error::DiskRipperError;
use diskripper_core::flac::{flac_input_bytes, FlacCompression, FlacEncoder};
use diskripper_core::gpu::{classify_name, GpuAccelerator, GpuDevice, GpuType};
use diskripper_core::icons::{icon_sizes, ico_bytes, placeholder_png, IconManager};
use diskripper_core::image::{
    is_drive_path, BatchOutcome, DriveStream, HardwareResources, StreamStep,
};
use diskripper_core::ml::organizer::{Identification, SmartOrganizer};
use diskripper_core::ml::ContentType;
use diskripper_core::settings::{Settings, SettingsManager};

fn audio_track(n: u8, title: Option<&str>, pre: bool, dcp: bool) -> AudioTrack {
    AudioTrack {
        track_number: n,
        start_sector: 0,
        end_sector: 10,
        sector_count: 11,
        is_audio: true,
        pre_emphasis: pre,
        copy_permitted: dcp,
        channels: 2,
        title: title.map(|s| s.to_string()),
        artist: None,
    }
}

#[test]
fn cue_sheet_lists_audio_tracks() {
    let mut data_track = audio_track(2, None, false, false);
    data_track.is_audio = false;
    let tracks = vec![audio_track(1, Some("Intro \"A\""), true, true), data_track];
    let cue = AudioCdRipper::generate_cue_sheet(&tracks, Some("Album"), Some("Band"));
    assert_eq!(
        cue,
        "PERFORMER \"Band\"\nTITLE \"Album\"\nFILE \"01.wav\" WAV\n  TRACK 01 AUDIO\n    INDEX 01 00:02:00\n    TITLE \"Intro \\\"A\\\"\"\n    FLAGS PRE DCP\n"
    );
}

#[test]
fn cue_escape_of_quotes_and_line_breaks() {
    assert_eq!(escape_cue_string("a\"b\nc\rd"), "a\\\"b\\nc\\rd");
}

#[test]
fn pcm_wav_header_fields() {
    let h = wav_header_bytes(100, 44100, 16, 2);
    assert_eq!(h.len(), 44);
    assert_eq!(&h[4..8], &136u32.to_le_bytes());
    assert_eq!(&h[28..32], &176400u32.to_le_bytes());
    assert_eq!(&h[32..34], &4u16.to_le_bytes());
}

#[test]
fn crash_reporter_refuses_when_off() {
    let mut r = CrashReporter::with_dir("/tmp/crashes");
    assert!(r.is_enabled());
    r.set_enabled(false);
    assert!(!r.is_enabled());
    let p = Platform {
        os_name: "linux".to_string(),
        architecture: "x86_64".to_string(),
        app_version: "0.1.0".to_string(),
    };
    let e = DiskRipperError::Io("x".to_string());
    match r.capture_crash(&e, "rip", &p) {
        Err(DiskRipperError::Io(m)) => assert_eq!(m, "Crash reporting disabled"),
        _ => panic!("expected the disabled error"),
    }
}

#[test]
fn crash_report_records_the_error() {
    let r = CrashReporter::with_dir("/tmp/crashes");
    let p = Platform {
        os_name: "linux".to_string(),
        architecture: "x86_64".to_string(),
        app_version: "0.1.0".to_string(),
    };
    let e = DiskRipperError::NoDisc("sr0".to_string());
    let rep = r.capture_crash(&e, "rip", &p).unwrap();
    assert_eq!(rep.id.len(), 36);
    assert_eq!(rep.error_message, "No disc in drive: sr0");
    assert_eq!(rep.component, "rip");
    assert!(rep.num_cpus >= 1);
    assert_eq!(r.report_path(&rep.id), format!("/tmp/crashes/crash_{}.json", rep.id));
}

#[test]
fn crash_file_names() {
    assert_eq!(report_file_name("abc"), "crash_abc.json");
    assert!(is_report_file("crash_abc.json"));
    assert!(!is_report_file("crash_abc.txt"));
    assert!(!is_report_file("error_stats.json"));
    assert!(is_crash_file("crash_abc.txt"));
}

fn report(id: &str, t: i64) -> CrashReport {
    CrashReport {
        id: id.to_string(),
        timestamp: t,
        error_message: String::new(),
        component: String::new(),
        os_name: String::new(),
        architecture: String::new(),
        num_cpus: 1,
        app_version: String::new(),
    }
}

#[test]
fn reports_newest_first() {
    let sorted = sort_newest_first(vec![report("a", 1), report("b", 3), report("c", 2), report("d", 3)]);
    let ids: Vec<&str> = sorted.iter().map(|r| r.id.as_str()).collect();
    assert_eq!(ids, vec!["b", "d", "c", "a"]);
}

#[test]
fn drive_paths() {
    assert!(is_drive_path("/dev/sr0"));
    assert!(is_drive_path("/dev/cdrom"));
    assert!(!is_drive_path("/home/user/disc.iso"));
}

#[test]
fn hardware_resources_double_io_threads() {
    let r = HardwareResources::from_cpu_count(4);
    assert_eq!((r.num_cpus, r.io_threads, r.chunk_workers, r.max_concurrent_reads), (4, 8, 4, 1));
    let d = HardwareResources::discover();
    assert!(d.num_cpus >= 1);
    assert_eq!(d.io_threads, d.num_cpus * 2);
}

#[test]
fn drive_stream_steps() {
    let mut s = DriveStream::new(2352 * 300);
    assert_eq!(s.total_sectors, 300);
    match s.next_step(false) {
        StreamStep::Read { sector, count } => assert_eq!((sector, count), (0, 200)),
        _ => panic!("expected a read"),
    }
    s.on_batch(BatchOutcome::Data(470400));
    assert_eq!(s.current_sector, 200);
    assert!(matches!(s.next_step(true), StreamStep::Cancelled));
    s.on_batch(BatchOutcome::Failed);
    assert_eq!(s.consecutive_errors, 1);
    assert_eq!(s.current_sector, 400);
    assert!(matches!(s.next_step(false), StreamStep::Done));
}

#[test]
fn drive_stream_stops_on_empty_read_and_after_fifty_errors() {
    let mut s = DriveStream::new(0);
    assert_eq!(s.total_sectors, 100_000);
    s.on_batch(BatchOutcome::Empty);
    assert!(matches!(s.next_step(false), StreamStep::Done));
    let mut t = DriveStream::new(0);
    for _ in 0..49 {
        t.on_batch(BatchOutcome::Failed);
    }
    assert!(!t.stopped);
    t.on_batch(BatchOutcome::Failed);
    assert!(t.stopped);
}

#[test]
fn flac_levels() {
    assert_eq!(FlacCompression::from(0), FlacCompression::Fast);
    assert_eq!(FlacCompression::from(2), FlacCompression::Fast);
    assert_eq!(FlacCompression::from(3), FlacCompression::Default);
    assert_eq!(FlacCompression::from(6), FlacCompression::Default);
    assert_eq!(FlacCompression::from(7), FlacCompression::Best);
    assert_eq!(FlacCompression::Best.level(), 8);
    let args = FlacEncoder::compress_args("in.wav", "out.flac", FlacCompression::Default);
    assert_eq!(args, vec!["--compression-level-5", "--force", "--quiet", "-o", "out.flac", "in.wav"]);
}

#[test]
fn flac_input_wav_layout() {
    let b = flac_input_bytes(&[1, -1], 44100, 2);
    assert_eq!(b.len(), 42 + 4);
    assert_eq!(&b[0..4], b"RIFF");
    assert_eq!(&b[4..8], &40u32.to_le_bytes());
    assert_eq!(b[22], 2);
    assert_eq!(b[31], 4);
    assert_eq!(&b[42..46], &[1, 0, 0xFF, 0xFF]);
}

fn device(name: &str, available: bool) -> GpuDevice {
    GpuDevice { name: name.to_string(), device_type: GpuType::Unknown, memory_mb: 0, compute_units: 0, available }
}

#[test]
fn gpu_first_available_is_used() {
    let g = GpuAccelerator::from_devices(vec![device("a", false), device("b", true), device("c", true)]);
    assert!(g.has_gpu());
    assert_eq!(g.active_device().unwrap().name, "b");
    assert_eq!(g.device_used(), "b");
    let none = GpuAccelerator::from_devices(vec![device("a", false)]);
    assert!(!none.has_gpu());
    assert_eq!(none.device_used(), "CPU");
}

#[test]
fn gpu_checksum_and_names() {
    let g = GpuAccelerator::from_devices(Vec::new());
    assert_eq!(g.checksum_hash(b"hello world"), "0d4a1185");
    assert_eq!(classify_name("NVIDIA GeForce"), GpuType::Nvidia);
    assert_eq!(classify_name("AMD Radeon"), GpuType::Amd);
    assert_eq!(classify_name("Intel UHD"), GpuType::Intel);
    assert_eq!(classify_name("Matrox"), GpuType::Unknown);
}

#[test]
fn png_layout() {
    assert_eq!(icon_sizes(), vec![16, 32, 48, 128, 256, 512]);
    let ihdr = IconManager::create_ihdr(16, 32);
    assert_eq!(ihdr, vec![0, 0, 0, 16, 0, 0, 0, 32, 8, 2, 0, 0, 0]);
    let png = IconManager::create_png_bytes(1, 1, &[0, 1, 2, 3]);
    assert_eq!(&png[0..8], &[137, 80, 78, 71, 13, 10, 26, 10]);
    assert_eq!(&png[12..16], b"IHDR");
    assert_eq!(png.len(), 8 + 25 + 16 + 12);
    // the IEND chunk's CRC is the well-known one
    assert_eq!(&png[png.len() - 4..], &[0xAE, 0x42, 0x60, 0x82]);
    assert_eq!(IconManager::icon_file_name(48), "icon_48x48.png");
    assert_eq!(placeholder_png().len(), 67);
}

#[test]
fn ico_layout() {
    let ico = ico_bytes(&[16, 32], &[vec![1, 2, 3], vec![4]]);
    assert_eq!(&ico[0..6], &[0, 0, 1, 0, 6, 0]);
    assert_eq!(ico[6], 16);
    assert_eq!(&ico[14..18], &102u32.to_le_bytes());
    assert_eq!(&ico[18..22], &3u32.to_le_bytes());
    assert_eq!(&ico[30..34], &105u32.to_le_bytes());
    assert_eq!(&ico[38..], &[1, 2, 3, 4]);
}

#[test]
fn organizer_paths() {
    let o = SmartOrganizer::new("/out");
    let music = Identification {
        content_type: ContentType::Music,
        title: Some("Song: One".to_string()),
        artist: Some("Band".to_string()),
        album: None,
        genre: None,
        year: None,
    };
    assert_eq!(o.build_path("/rip/t1.flac", &music), "/out/Music/Band/Unknown Album/Song_ One.flac");
    let movie = Identification {
        content_type: ContentType::Movie,
        title: Some("Film".to_string()),
        artist: None,
        album: None,
        genre: None,
        year: Some(1999),
    };
    assert_eq!(o.build_path("/rip/a.mkv", &movie), "/out/Movies/Film (1999)/Film.mkv");
    let other = Identification {
        content_type: ContentType::Data,
        title: None,
        artist: None,
        album: None,
        genre: None,
        year: None,
    };
    assert_eq!(o.build_path("/rip/x", &other), "/out/Other/Unknown.");
}

#[test]
fn settings_manager_update_and_reset() {
    let mut m = SettingsManager::from_loaded("/app", None);
    assert_eq!(m.path(), "/app/settings.json");
    let mut s = Settings::default();
    s.read_retries = 50;
    let saved = m.update(s);
    assert_eq!(saved.read_retries, 10);
    assert_eq!(m.get().read_retries, 3);
    assert!(m.commit(saved, Ok(())).is_ok());
    assert_eq!(m.get().read_retries, 10);
    let changed = m.update_field(|mut s: Settings| {
        s.buffer_size_mb = 0;
        s
    });
    assert_eq!(changed.buffer_size_mb, 1);
    assert_eq!(changed.read_retries, 10);
    let failed = m.commit(changed, Err(DiskRipperError::Io("disk full".to_string())));
    assert!(failed.is_err());
    assert_eq!(m.get().buffer_size_mb, 4);
    let r = m.reset();
    assert_eq!(r.read_retries, 3);
    assert_eq!(m.get().read_retries, 10);
    assert!(m.commit(r, Ok(())).is_ok());
    assert_eq!(m.get().read_retries, 3);
}

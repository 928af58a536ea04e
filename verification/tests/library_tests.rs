use std::collections::HashMap;

use diskripper_core::accurip::{AccurateRipVerifier, calculate_crc32};
use diskripper_core::audio::AudioCdReader;
use diskripper_core::audio_cd::{AudioCdRipper, AudioTrack};
use diskripper_core::crash_reporting::CrashReporter;
use diskripper_core::disc::{DiscType, PlatformDiscAnalyzer};
use diskripper_core::drive::{DriveInfo, DriveType, drive_has_disc};
use diskripper_core::drive_control::{CommandSent, DriveController, ParanoidConfig, ParanoidRipper};
use diskripper_core::error::DiskRipperError;
use diskripper_core::filesystem::linux_sg::{parse_toc_buffer, read_toc_cdb};
use diskripper_core::filesystem::macos_iokit::{get_toc, is_iokit_available};
use diskripper_core::filesystem::native_win::{DiscFilesystem, TocTrack, detect_disc_type, toc_from_msf};
use diskripper_core::filesystem::raw_io::{RawDiscError, raw_error_into};
use diskripper_core::filesystem::recovery::calculate_checksum;
use diskripper_core::filesystem::verify::{compare_rip, verify_audio_accuracy};
use diskripper_core::formats::dvd::DvdParser;
use diskripper_core::i18n::supported_languages;
use diskripper_core::icons::placeholder_sizes;
use diskripper_core::media::{MediaType, detect_media_types};
use diskripper_core::metadata::{CdTextInfo, CdTextParser, MetadataProvider};
use diskripper_core::ml::ContentType;
use diskripper_core::ml::audio_fingerprint::{AudioFingerprinter, KnownFingerprint};
use diskripper_core::ml::organizer::{Identification, SmartOrganizer};
use diskripper_core::multisession::{CdIReader, MultisessionReader, TrackType};
use diskripper_core::plugins::{MetadataPlugin, Plugin, PluginCapability, PluginManager};
use diskripper_core::progress::ProgressTracker;
use diskripper_core::types::JobId;

fn track(sectors: u64) -> AudioTrack {
    AudioTrack {
        track_number: 1,
        start_sector: 0,
        end_sector: sectors,
        sector_count: sectors,
        is_audio: true,
        pre_emphasis: false,
        copy_permitted: false,
        channels: 2,
        title: None,
        artist: None,
    }
}

#[test]
fn track_durations_as_minutes_seconds_frames() {
    assert_eq!(track(0).duration_msf(), "00:00:00");
    assert_eq!(track(75).duration_msf(), "00:01:00");
    assert_eq!(track(4576).duration_msf(), "01:01:01");
    assert_eq!(track(20_000).duration_msf(), "04:26:50");
    assert_eq!(track(u64::MAX).duration_msf().len() > 8, true);
}

#[test]
fn tracks_end_where_the_next_starts() {
    let toc = vec![
        TocTrack { track_number: 1, control: 0x00, start_lba: 0 },
        TocTrack { track_number: 2, control: 0x03, start_lba: 1000 },
        TocTrack { track_number: 3, control: 0x04, start_lba: 5000 },
    ];
    let t = AudioCdRipper::tracks_from_toc(&toc, Some(2352 * 9000));
    assert_eq!(t.len(), 3);
    assert_eq!((t[0].start_sector, t[0].end_sector, t[0].sector_count), (0, 1000, 1000));
    assert_eq!((t[1].start_sector, t[1].end_sector, t[1].sector_count), (1000, 5000, 4000));
    assert_eq!((t[2].start_sector, t[2].end_sector, t[2].sector_count), (5000, 9000, 4000));
    assert!(t[0].is_audio && t[1].is_audio && !t[2].is_audio);
    assert!(t[1].pre_emphasis && t[1].copy_permitted && !t[0].pre_emphasis);
    assert!(t.iter().all(|x| x.channels == 2 && x.title.is_none()));
    let u = AudioCdRipper::tracks_from_toc(&toc[2..], None);
    assert_eq!((u[0].end_sector, u[0].sector_count), (15000, 10000));
    let v = AudioCdRipper::tracks_from_toc(&toc[2..], Some(2352 * 10));
    assert_eq!((v[0].end_sector, v[0].sector_count), (10, 0));
    assert_eq!(AudioCdRipper::track_file_name(3), "03.wav");
    assert_eq!(AudioCdRipper::track_file_name(12), "12.wav");
}

#[test]
fn reader_keeps_its_settings_and_table() {
    let r = AudioCdReader::new("/dev/sr0".to_string(), 75 * 3661).with_jitter_correction(false);
    assert!(!r.jitter_correction());
    assert_eq!(r.drive_path(), "/dev/sr0");
    assert_eq!(r.total_duration(), (1, 1, 1));
    assert!(r.cached().is_none());
    let mut r = r;
    let toc = r.parse_toc_fallback();
    r.store_toc(toc);
    let c = r.cached().unwrap();
    assert_eq!(c.len(), 1);
    assert_eq!((c[0].start_sector, c[0].end_sector), (0, 75 * 3661 - 1));
}

#[test]
fn linux_toc_entries_become_tracks() {
    let r = AudioCdReader::new("/dev/sr0".to_string(), 500);
    let t = r.toc_from_entries(Some((1, 3)), &[Some((10, 0)), None, Some((40, 0x04))], Some(90));
    assert_eq!(t.len(), 3);
    assert_eq!((t[0].track_number, t[0].start_sector, t[0].end_sector, t[0].duration_sectors), (1, 0, 10, 10));
    assert!(t[0].is_audio);
    assert_eq!((t[1].track_number, t[1].start_sector, t[1].end_sector), (3, 10, 40));
    assert!(!t[1].is_audio);
    assert_eq!((t[2].track_number, t[2].start_sector, t[2].end_sector, t[2].duration_sectors), (0xAA, 40, 90, 50));
    let f = r.toc_from_entries(None, &[], None);
    assert_eq!(f.len(), 1);
    assert_eq!(f[0].end_sector, 499);
}

#[test]
fn performers_fall_back_to_the_disc_performer() {
    let mut info = CdTextInfo::default();
    assert!(info.get_track_performer(1).is_none());
    info.performer = Some("Band".to_string());
    let mut perf = HashMap::new();
    perf.insert(2u8, "Guest".to_string());
    info.track_performers = perf;
    assert_eq!(info.get_track_performer(2), Some("Guest"));
    assert_eq!(info.get_track_performer(1), Some("Band"));
    let e = CdTextParser::extract_from_drive("/dev/sr0").unwrap();
    assert!(e.title.is_none() && e.track_titles.is_empty());
}

#[test]
fn metadata_comes_from_cd_text_when_there_is_any() {
    let mut info = CdTextInfo::default();
    match MetadataProvider::lookup_metadata(Some(&info), "abc") {
        Err(DiskRipperError::Io(m)) => assert_eq!(m, "No metadata found"),
        _ => panic!("expected an error"),
    }
    assert!(MetadataProvider::lookup_metadata(None, "abc").is_err());
    info.title = Some("Album".to_string());
    info.performer = Some("Band".to_string());
    info.track_titles.insert(1, "One".to_string());
    info.track_titles.insert(2, "Two".to_string());
    let m = MetadataProvider::lookup_metadata(Some(&info), "abc").unwrap();
    assert_eq!(m.title.as_deref(), Some("Album"));
    assert_eq!(m.artist.as_deref(), Some("Band"));
    assert_eq!(m.track_count, 2);
    assert_eq!(m.source, "CD-Text");
    assert!(m.year.is_none());
}

#[test]
fn drive_command_blocks() {
    assert_eq!(DriveController::start_stop_cdb(0x02), vec![0x1B, 0, 0, 0, 0x02, 0]);
    let s = DriveController::set_streaming_cdb(8);
    assert_eq!(s.len(), 12);
    assert_eq!(s[0], 0xB6);
    assert_eq!(&s[1..10], &[0u8; 9]);
    assert_eq!((s[10], s[11]), (0x04, 0xB0));
    match DriveController::set_read_speed(None) {
        Err(DiskRipperError::UnsupportedDisc(m)) => {
            assert_eq!(m, "Read speed control only supported on Windows")
        }
        _ => panic!("expected an error"),
    }
}

#[test]
fn drive_commands_report_what_sending_came_to() {
    match DriveController::eject(None) {
        Err(DiskRipperError::UnsupportedDisc(m)) => assert_eq!(m, "Drive control only supported on Windows"),
        _ => panic!("expected a refusal"),
    }
    match DriveController::load(Some(CommandSent::OpenFailed("no such drive".to_string()))) {
        Err(DiskRipperError::Io(m)) => assert_eq!(m, "no such drive"),
        _ => panic!("expected the opening error"),
    }
    match DriveController::start(Some(CommandSent::Failed)) {
        Err(DiskRipperError::Io(m)) => assert_eq!(m, "START STOP UNIT failed"),
        _ => panic!("expected a failed command"),
    }
    assert!(DriveController::stop(Some(CommandSent::Done)).is_ok());
    match DriveController::set_read_speed(Some(CommandSent::Failed)) {
        Err(DiskRipperError::Io(m)) => assert_eq!(m, "SET STREAMING failed"),
        _ => panic!("expected a failed command"),
    }
    assert!(DriveController::set_read_speed(Some(CommandSent::Done)).is_ok());
}

#[test]
fn paranoid_rip_gives_zero_filled_sectors() {
    let config = ParanoidConfig::default();
    let data = ParanoidRipper::rip_track_paranoid("/dev/null", 10, 2, &config).unwrap();
    assert_eq!(data, vec![0u8; 2 * 2352]);
    assert!(ParanoidRipper::rip_track_paranoid("/dev/null", 10, 0, &config).unwrap().is_empty());
    let none = ParanoidConfig { read_count: 0, ..ParanoidConfig::default() };
    assert!(matches!(
        ParanoidRipper::rip_track_paranoid("/dev/null", 7, 1, &none),
        Err(DiskRipperError::ReadError(_))
    ));
}

fn drive(id: &str, has_disc: bool) -> DriveInfo {
    DriveInfo {
        id: id.to_string(),
        path: id.to_string(),
        label: None,
        drive_type: DriveType::Cd,
        has_disc,
        disc_present: has_disc,
    }
}

#[test]
fn a_drive_has_a_disc_as_its_first_listing_says() {
    let ds = vec![drive("a", false), drive("b", true), drive("a", true)];
    assert!(!drive_has_disc(&ds, "a"));
    assert!(drive_has_disc(&ds, "b"));
    assert!(!drive_has_disc(&ds, "c"));
}

#[test]
fn languages_on_offer() {
    let l = supported_languages();
    assert_eq!(l.len(), 8);
    assert_eq!(l[0], ("en".to_string(), "English".to_string()));
    assert_eq!(l[1], ("es".to_string(), "Español".to_string()));
    assert_eq!(l[7], ("pt".to_string(), "Português".to_string()));
}

#[test]
fn progress_counts_files() {
    let mut t = ProgressTracker::new(JobId("j".to_string()), 100, 3);
    t.add_file();
    t.add_file();
    assert_eq!(t.files_processed(), 2);
    assert_eq!(t.bytes_processed(), 0);
    assert_eq!(t.files_total(), 3);
}

#[test]
fn disc_families() {
    assert!(DiscType::BdRDL.is_bluray() && !DiscType::BdRDL.is_dvd());
    assert!(DiscType::HdDvd.is_dvd() && !DiscType::HdDvd.is_bluray());
    assert!(DiscType::CdRw.is_cd() && !DiscType::DvdRom.is_cd());
    assert!(!DiscType::Unknown.is_cd() && !DiscType::Unknown.is_dvd() && !DiscType::Unknown.is_bluray());
}

#[test]
fn disc_kinds_from_platform_reports() {
    assert_eq!(PlatformDiscAnalyzer::parse_macos_disc_info("Optical Media Type: BD-ROM"), DiscType::BdRom);
    assert_eq!(PlatformDiscAnalyzer::parse_macos_disc_info("Optical Media Type: DVD-R"), DiscType::DvdR);
    assert_eq!(PlatformDiscAnalyzer::parse_macos_disc_info("Optical Media Type: DVD+R"), DiscType::DvdPlusR);
    assert_eq!(PlatformDiscAnalyzer::parse_macos_disc_info("CD-R"), DiscType::CdR);
    assert_eq!(PlatformDiscAnalyzer::parse_macos_disc_info("nothing"), DiscType::Unknown);
    let info = "CD-ROM information\n\ndrive name: sr0\nCan read DVD: 1\nCan read CD: 1\n";
    assert_eq!(PlatformDiscAnalyzer::parse_linux_disc_info(info, "sr0"), DiscType::DvdRom);
    assert_eq!(PlatformDiscAnalyzer::parse_linux_disc_info(info, "sr1"), DiscType::Unknown);
    assert_eq!(
        PlatformDiscAnalyzer::parse_linux_disc_info("Can read BD\ndrive name: sr0\nCan read BD: 1\n", "sr0"),
        DiscType::BdRom
    );
}

#[test]
fn session_tracks_by_kind() {
    let mut data = vec![0u8; 28];
    data[1] = 26;
    data[2] = 1;
    data[3] = 1;
    data[5] = 0x10;
    data[6] = 1;
    data[8..12].copy_from_slice(&150u32.to_be_bytes());
    data[13] = 0x10;
    data[14] = 2;
    data[16..20].copy_from_slice(&900u32.to_be_bytes());
    data[21] = 0x14;
    data[22] = 3;
    data[24..28].copy_from_slice(&2000u32.to_be_bytes());
    let toc = MultisessionReader::parse_toc(&data).unwrap();
    let audio: Vec<u8> = MultisessionReader::get_audio_tracks(&toc).iter().map(|t| t.track_number).collect();
    let data_tracks: Vec<u8> = MultisessionReader::get_data_tracks(&toc).iter().map(|t| t.track_number).collect();
    assert_eq!(audio, vec![1, 2]);
    assert_eq!(data_tracks, vec![3]);
    assert_eq!(toc.sessions[0].tracks[2].track_type, TrackType::Data);
    assert!(!CdIReader::is_cd_i(&toc));
    match MultisessionReader::read_session("/dev/sr0", 2) {
        Err(DiskRipperError::InvalidPath(m)) => assert_eq!(m, "Session 2 not found"),
        _ => panic!("expected an error"),
    }
}

#[test]
fn accuraterip_disc_checks() {
    assert_eq!(calculate_crc32(b"123456789"), 0xCBF43926);
    assert_eq!(calculate_crc32(b""), 0);
    assert_eq!(AccurateRipVerifier::detect_drive_offset("/dev/sr0"), 0);
    let tracks = vec![vec![1u8; 10], vec![2u8; 20], vec![3u8; 30]];
    let results = AccurateRipVerifier::verify_disc(&tracks, 0, "abc").unwrap();
    let numbers: Vec<u32> = results.iter().map(|r| r.track_number).collect();
    assert_eq!(numbers, vec![1, 2, 3]);
    assert!(results.iter().all(|r| !r.verified && r.confidence == 0 && r.crc32.len() == 8));
}

#[test]
fn placeholder_icon_sizes() {
    assert_eq!(placeholder_sizes(), vec![32, 128, 256]);
}

#[test]
fn plugins_register_for_their_hooks() {
    let mut m = PluginManager::with_dir("/tmp/plugins".to_string());
    assert_eq!(m.plugin_dir(), "/tmp/plugins");
    assert!(m.register_plugin(Box::new(MetadataPlugin::new("meta", "https://example.org"))).is_ok());
    assert_eq!(m.plugins().len(), 1);
    assert_eq!(m.get_by_capability(PluginCapability::MetadataProvider).len(), 1);
    assert_eq!(m.get_by_capability(PluginCapability::AudioProcessor).len(), 0);
    assert!(m.trigger_hook("on_disc_inserted", "{}").is_ok());
    m.shutdown_all();
    assert_eq!(m.plugins().len(), 1);
}

#[test]
fn crash_statistics_file() {
    assert_eq!(CrashReporter::with_dir("/tmp/crashes").stats_path(), "/tmp/crashes/error_stats.json");
    assert_eq!(CrashReporter::with_dir("/tmp/crashes/").stats_path(), "/tmp/crashes/error_stats.json");
}

fn file(path: &str, is_dir: bool) -> diskripper_core::types::FileEntry {
    diskripper_core::types::FileEntry {
        path: path.to_string(),
        size: 1,
        is_dir,
        modified: None,
        checksum_sha256: None,
    }
}

#[test]
fn media_kinds_of_files() {
    let files = vec![
        file("a/b.MP4", false),
        file("c.flac", false),
        file("d.mp4", false),
        file("video.mkv", true),
        file("setup.exe", false),
    ];
    let mut kinds = detect_media_types(&files);
    kinds.sort_by_key(|k| format!("{:?}", k));
    assert_eq!(kinds, vec![MediaType::Audio, MediaType::Program, MediaType::Video]);
    assert!(detect_media_types(&[file("x", true)]).is_empty());
}

#[test]
fn rips_compare_by_checksum() {
    let ok = compare_rip("out.iso".to_string(), b"abc", b"abc", 3);
    assert!(ok.valid);
    assert_eq!(ok.source_checksum, ok.dest_checksum);
    assert_eq!(ok.bytes_verified, 3);
    assert_eq!(ok.file_path, "out.iso");
    let bad = compare_rip("out.iso".to_string(), b"abc", b"abd", 3);
    assert!(!bad.valid);
    assert!(verify_audio_accuracy(b"pcm", &calculate_checksum(b"pcm")));
    assert!(!verify_audio_accuracy(b"pcm", "00"));
}

#[test]
fn raw_read_errors_become_library_errors() {
    match raw_error_into(RawDiscError::InvalidRange { start: 5, count: 7 }) {
        DiskRipperError::Io(m) => assert_eq!(m, "Invalid sector range: start=5, count=7"),
        _ => panic!("wrong kind"),
    }
    match raw_error_into(RawDiscError::Cancelled) {
        DiskRipperError::Io(m) => assert_eq!(m, "Operation cancelled"),
        _ => panic!("wrong kind"),
    }
    match raw_error_into(RawDiscError::DiscEjected) {
        DiskRipperError::NoDisc(m) => assert_eq!(m, "Disc ejected"),
        _ => panic!("wrong kind"),
    }
    match raw_error_into(RawDiscError::BadSector { lba: 42 }) {
        DiskRipperError::ReadError(m) => assert_eq!(m, "Bad sector at LBA 42"),
        _ => panic!("wrong kind"),
    }
    match raw_error_into(RawDiscError::Io("x".to_string())) {
        DiskRipperError::Io(m) => assert_eq!(m, "x"),
        _ => panic!("wrong kind"),
    }
}

#[test]
fn iokit_is_absent_here() {
    assert!(!is_iokit_available());
    let t = get_toc("/dev/disk2");
    assert_eq!((t.first_track, t.last_track, t.tracks.len()), (1, 0, 0));
}

#[test]
fn read_toc_command_and_response() {
    assert_eq!(read_toc_cdb(), vec![0x43, 0x02, 0, 0, 0, 0, 0, 0xFF, 0, 0]);
    let mut b = vec![0u8; 4 + 8 * 2 + 1];
    b[1] = 18;
    b[2] = 1;
    b[3] = 2;
    b[4 + 1] = 1;
    b[4 + 4] = 0x10;
    b[4 + 5..4 + 9].copy_from_slice(&[0, 0, 0, 150]);
    b[12 + 1] = 2;
    b[12 + 4] = 0x14;
    b[12 + 5..12 + 9].copy_from_slice(&[0, 0, 3, 232]);
    let toc = parse_toc_buffer(&b);
    assert_eq!((toc.first_track, toc.last_track), (1, 2));
    assert_eq!(toc.tracks.len(), 2);
    assert_eq!((toc.tracks[0].track_number, toc.tracks[0].control, toc.tracks[0].start_lba), (1, 0x10, 150));
    assert_eq!((toc.tracks[1].track_number, toc.tracks[1].control, toc.tracks[1].start_lba), (2, 0x14, 1000));
}

#[test]
fn windows_disc_description() {
    let mut pvd = vec![0u8; 2048];
    pvd[0] = 1;
    pvd[1..6].copy_from_slice(b"CD001");
    let info = detect_disc_type(&pvd, Some(4096 + 100), Some(vec![TocTrack { track_number: 1, control: 4, start_lba: 0 }]));
    assert_eq!(info.filesystem, DiscFilesystem::Iso9660);
    let mut two = pvd.clone();
    two.extend_from_slice(&[0u8; 2048]);
    two[2048] = 2;
    two[2049..2054].copy_from_slice(b"CD001");
    assert_eq!(detect_disc_type(&two, None, None).filesystem, DiscFilesystem::Joliet);
    let mut udf = vec![0u8; 2048];
    udf[1..6].copy_from_slice(b"NSR03");
    assert_eq!(detect_disc_type(&udf, None, None).filesystem, DiscFilesystem::Udf);
    assert_eq!((info.total_size, info.sector_count, info.tracks.len()), (4196, 2, 1));
    let none = detect_disc_type(&[0u8; 16], None, None);
    assert_eq!(none.filesystem, DiscFilesystem::Unknown);
    assert_eq!((none.total_size, none.sector_count, none.tracks.len()), (0, 0, 0));
    let mut entries = vec![([0u8; 4], 0u8); 100];
    entries[0] = ([0, 2, 0, 0], 0x10);
    entries[1] = ([10, 4, 1, 0], 0x14);
    let t = toc_from_msf(1, 2, &entries);
    assert_eq!(t.len(), 2);
    assert_eq!((t[0].track_number, t[0].control, t[0].start_lba), (1, 0x10, 0));
    assert_eq!((t[1].track_number, t[1].control, t[1].start_lba), (2, 0x14, 4500 + 300 + 10 - 150));
    assert!(toc_from_msf(3, 2, &entries).is_empty());
}

#[test]
fn vts_summary_from_ifo_bytes() {
    let p = DvdParser::new();
    let mut d = vec![0u8; 0x304];
    d[0] = 0;
    d[1] = 3;
    d[0x20..0x24].copy_from_slice(&1234u32.to_be_bytes());
    d[0x301] = 2;
    d[0x303] = 1;
    d[0x302] = 0;
    let v = p.vts_info_from(&d).unwrap();
    assert_eq!((v.vts_number, v.sector_count, v.audio_track_count, v.subtitle_track_count), (3, 1234, 2, 1));
    assert_eq!(v.chapter_count, 1);
    match p.vts_info_from(&d[..0x200]) {
        Err(DiskRipperError::InvalidPath(m)) => assert_eq!(m, "VTS_MAT too short"),
        _ => panic!("expected an error"),
    }
    match p.vts_info_from(&d[..0x80]) {
        Err(DiskRipperError::InvalidPath(m)) => assert_eq!(m, "IFO file too short"),
        _ => panic!("expected an error"),
    }
}

#[test]
fn ifo_files_by_kind() {
    let p = DvdParser::new();
    let mut vmg = vec![0u8; 0x1000];
    vmg[0..12].copy_from_slice(b"DVDVIDEO-VMG");
    vmg[0xE4..0xE6].copy_from_slice(&2u16.to_be_bytes());
    vmg[0xF00..0xF02].copy_from_slice(&7u16.to_be_bytes());
    vmg[0xF04..0xF06].copy_from_slice(&9u16.to_be_bytes());
    let titles = p.parse_ifo_data(&vmg).unwrap();
    let numbers: Vec<u16> = titles.iter().map(|t| t.title_number).collect();
    assert_eq!(numbers, vec![7, 9]);
    let mut other = vec![0u8; 0x100];
    other[0..12].copy_from_slice(b"DVDVIDEO-XYZ");
    match p.parse_ifo_data(&other) {
        Err(DiskRipperError::InvalidPath(m)) => assert_eq!(m, "Not a valid DVD IFO file"),
        _ => panic!("expected an error"),
    }
    let mut vts = vec![0u8; 0x100];
    vts[0..12].copy_from_slice(b"DVDVIDEO-VTS");
    match p.parse_ifo_data(&vts) {
        Err(DiskRipperError::InvalidPath(m)) => assert_eq!(m, "VTS_MAT too short"),
        _ => panic!("expected an error"),
    }
}

#[test]
fn organizing_reports_where_a_file_went() {
    let id = Identification {
        content_type: ContentType::Movie,
        title: Some("Film".to_string()),
        artist: None,
        album: Some("Box".to_string()),
        genre: None,
        year: Some(2001),
    };
    let r = SmartOrganizer::result_for("in.mkv", "/lib/Movies/Film (2001)/Film.mkv", &id);
    assert_eq!(r.original_path, "in.mkv");
    assert_eq!(r.organized_path, "/lib/Movies/Film (2001)/Film.mkv");
    assert_eq!(r.content_type, "Movie");
    assert_eq!(r.title, "Film");
    assert_eq!(r.album.as_deref(), Some("Box"));
    assert!(r.artist.is_none() && r.quality.is_none());
    assert_eq!(r.year, Some(2001));
}

#[test]
fn fingerprint_database_updates() {
    let mut f = AudioFingerprinter::new("/models", HashMap::new());
    f.add_fingerprint(KnownFingerprint {
        id: 7,
        peaks: vec![(1, 2)],
        title: Some("Song".to_string()),
        artist: None,
        album: None,
        genre: None,
        year: None,
        confirmations: 0,
    });
    assert!(f.confirm_fingerprint(7));
    assert!(f.confirm_fingerprint(7));
    assert!(!f.confirm_fingerprint(8));
    assert_eq!(f.database()[&7].confirmations, 2);
    assert_eq!(f.database().len(), 1);
    assert_eq!(f.model_dir(), "/models");
}

#[test]
fn metadata_plugin_describes_itself() {
    let mut p = MetadataPlugin::new("meta", "https://example.org");
    let m = p.metadata();
    assert_eq!((m.name.as_str(), m.version.as_str(), m.author.as_str()), ("meta", "1.0.0", "DiskRipper"));
    assert_eq!(m.description, "Metadata provider plugin");
    assert_eq!(m.hooks, vec!["on_disc_inserted".to_string(), "on_rip_complete".to_string()]);
    assert_eq!(p.capabilities(), vec![PluginCapability::MetadataProvider]);
    assert!(p.initialize().is_ok());
}

#[test]
fn media_type_ignores_extension_case() {
    assert_eq!(MediaType::from_extension("MKV"), MediaType::Video);
    assert_eq!(MediaType::from_extension("mkv"), MediaType::Video);
    assert_eq!(MediaType::from_extension("FlAc"), MediaType::Audio);
    assert_eq!(MediaType::from_extension("NRG"), MediaType::DiscImage);
    assert_eq!(MediaType::from_extension("pdf"), MediaType::Document);
    assert_eq!(MediaType::from_extension(""), MediaType::Unknown);
    for ext in ["ISO", "Iso", "iso"] {
        assert_eq!(MediaType::from_extension(ext), MediaType::from_extension("iso"));
    }
}

#[test]
fn cdtext_decoded_pack_goes_where_its_type_says() {
    let mut info = CdTextInfo::default();
    CdTextParser::apply_decoded_pack(&mut info, 0x80, 0, "Test Album\0\0");
    assert_eq!(info.title.as_deref(), Some("Test Album"));
    CdTextParser::apply_decoded_pack(&mut info, 0x81, 2, "  Band ");
    assert_eq!(info.track_performers.get(&2).map(|s| s.as_str()), Some("Band"));
    CdTextParser::apply_decoded_pack(&mut info, 0x82, 3, "Writer");
    assert_eq!(info.songwriter, None);
    CdTextParser::apply_decoded_pack(&mut info, 0x80, 0, "\0\0\0");
    assert_eq!(info.title.as_deref(), Some("Test Album"));
}

#[test]
fn progress_reports_when_the_interval_has_passed() {
    let mut t = ProgressTracker::new(JobId("j".to_string()), 100, 3);
    assert!(!t.should_update(0, u64::MAX));
    assert!(t.should_update(0, 0));
    assert!(!t.should_update(40, 50));
    assert!(t.should_update(50, 50));
    assert!(!t.should_update(99, 50));
    assert!(!t.should_update(10, 1));
    assert!(t.should_update(10, 0));
    assert!(t.should_update(200, 50));
}

use diskripper_core::formats::dvd::{AudioCodec, DvdParser};
use diskripper_core::metadata::{CdTextParser, FreedbLookup, CDTEXT_PACK_TITLE};
use diskripper_core::ml::organizer::sanitize_filename;
use diskripper_core::multisession::{
    CdToc, EnhancedCdReader, MultisessionReader, SessionInfo, TrackInfo, TrackType,
};
use diskripper_core::settings::Settings;

#[test]
fn test_parse_bcd_time() {
    let data = [0x01, 0x30, 0x45, 0x20];
    let time = DvdParser::parse_bcd_time(&data) as f64 / 75.0;
    assert!((time - 5445.267).abs() < 0.01);
}

#[test]
fn test_parse_language_code() {
    let data = *b"en\x00\x00";
    assert_eq!(DvdParser::parse_language_code(&data), "en");

    let data = *b"fr\x00\x00";
    assert_eq!(DvdParser::parse_language_code(&data), "fr");

    let data = [0x00, 0x00, 0x00, 0x00];
    assert_eq!(DvdParser::parse_language_code(&data), "und");
}

#[test]
fn test_audio_codec_from() {
    assert_eq!(AudioCodec::from(0x00), AudioCodec::Ac3);
    assert_eq!(AudioCodec::from(0x01), AudioCodec::Dts);
    assert_eq!(AudioCodec::from(0x02), AudioCodec::Lpcm);
    assert_eq!(AudioCodec::from(0x03), AudioCodec::Mpeg1);
    assert_eq!(AudioCodec::from(0x04), AudioCodec::Mpeg2);
    assert_eq!(AudioCodec::from(0x05), AudioCodec::Sdds);
}

#[test]
fn test_cdtext_parse() {
    let mut data = vec![0u8; 18];
    data[0] = CDTEXT_PACK_TITLE;
    data[1] = 0;
    let title = b"Test Album";
    data[4..4 + title.len()].copy_from_slice(title);

    let info = CdTextParser::parse(&data).unwrap();
    assert_eq!(info.title, Some("Test Album".to_string()));
}

#[test]
fn test_cdtext_track_title() {
    let mut data = vec![0u8; 36];
    data[0] = CDTEXT_PACK_TITLE;
    data[1] = 0;
    let title = b"Album Name";
    data[4..4 + title.len()].copy_from_slice(title);
    data[18] = CDTEXT_PACK_TITLE;
    data[19] = 1;
    let track_title = b"Track One";
    data[22..22 + track_title.len()].copy_from_slice(track_title);

    let info = CdTextParser::parse(&data).unwrap();
    assert_eq!(info.title, Some("Album Name".to_string()));
    assert_eq!(info.track_titles.get(&1), Some(&"Track One".to_string()));
    assert_eq!(info.get_track_title(1), Some("Track One"));
    assert_eq!(info.get_track_title(2), Some("Album Name"));
}

#[test]
fn test_freedb_disc_id() {
    let offsets = vec![150, 2000, 4000];
    let total_length = 120;
    let disc_id = FreedbLookup::calculate_disc_id(&offsets, total_length);
    assert_eq!(disc_id.len(), 8);
}

#[test]
fn test_sanitize_filename() {
    assert_eq!(sanitize_filename("Hello: World"), "Hello_ World");
    assert_eq!(sanitize_filename("File/Name"), "File_Name");
    assert_eq!(sanitize_filename("Normal Name"), "Normal Name");
}

#[test]
fn sanitize_trims_white_space() {
    assert_eq!(sanitize_filename("  a*b?  "), "a_b_");
}

fn track(n: u8, start: u32, end: u32, t: TrackType, copy: bool) -> TrackInfo {
    TrackInfo {
        track_number: n,
        start_lba: start,
        end_lba: end,
        sector_count: (end - start) as u64,
        track_type: t,
        pre_emphasis: false,
        copy_permitted: copy,
        channels: 2,
        isrc: None,
        title: None,
    }
}

#[test]
fn test_parse_toc() {
    let mut data = vec![0u8; 20];
    data[0] = 0;
    data[1] = 18;
    data[2] = 1;
    data[3] = 1;
    data[4] = 0;
    data[5] = 0x10;
    data[6] = 1;
    data[7] = 0;
    data[8..12].copy_from_slice(&150u32.to_be_bytes());
    data[12] = 0;
    data[13] = 0x14;
    data[14] = 2;
    data[15] = 0;
    data[16..20].copy_from_slice(&1000u32.to_be_bytes());

    let toc = MultisessionReader::parse_toc(&data).unwrap();
    assert_eq!(toc.total_sessions, 1);
    assert_eq!(toc.total_tracks, 2);
    assert_eq!(toc.sessions[0].tracks[0].track_type, TrackType::Audio);
    assert_eq!(toc.sessions[0].tracks[1].track_type, TrackType::Data);
}

#[test]
fn test_is_mixed_mode() {
    let toc = CdToc {
        sessions: vec![SessionInfo {
            session_number: 1,
            start_lba: 0,
            end_lba: 1000,
            track_count: 2,
            tracks: vec![
                track(1, 0, 100, TrackType::Data, false),
                track(2, 100, 1000, TrackType::Audio, true),
            ],
        }],
        total_sessions: 1,
        total_tracks: 2,
        lead_out_lba: 1000,
    };

    assert!(MultisessionReader::is_mixed_mode(&toc));
}

#[test]
fn test_enhanced_cd_detection() {
    let toc = CdToc {
        sessions: vec![
            SessionInfo {
                session_number: 1,
                start_lba: 0,
                end_lba: 1000,
                track_count: 1,
                tracks: vec![track(1, 0, 1000, TrackType::Audio, true)],
            },
            SessionInfo {
                session_number: 2,
                start_lba: 1000,
                end_lba: 2000,
                track_count: 1,
                tracks: vec![track(2, 1000, 2000, TrackType::Data, false)],
            },
        ],
        total_sessions: 2,
        total_tracks: 2,
        lead_out_lba: 2000,
    };

    assert!(EnhancedCdReader::is_enhanced_cd(&toc));
    assert_eq!(EnhancedCdReader::get_audio_session(&toc).unwrap().session_number, 1);
    assert_eq!(EnhancedCdReader::get_data_session(&toc).unwrap().session_number, 2);
}

#[test]
fn test_settings_default() {
    let settings = Settings::default();
    assert_eq!(settings.read_retries, 3);
    assert_eq!(settings.buffer_size_mb, 4);
    assert!(settings.verify_checksums);
}

#[test]
fn test_settings_validation() {
    let mut settings = Settings::default();
    settings.read_retries = 100;
    settings.buffer_size_mb = 1000;
    settings.validate();
    assert_eq!(settings.read_retries, 10);
    assert_eq!(settings.buffer_size_mb, 64);
}

#[test]
fn test_settings_merge_defaults() {
    let mut settings = Settings::default();
    settings.default_output_dir = String::new();
    settings.merge_defaults();
    assert!(!settings.default_output_dir.is_empty());
}

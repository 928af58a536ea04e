use diskripper_core::audio::{AudioCdReader, TrackInfo, WavHeader};

#[test]
fn test_sectors_to_duration() {
    let (h, m, s) = AudioCdReader::sectors_to_duration(75 * 60 * 3);
    assert_eq!(h, 0);
    assert_eq!(m, 3);
    assert_eq!(s, 0);
}

#[test]
fn test_sectors_to_bytes() {
    assert_eq!(AudioCdReader::sectors_to_bytes(1), 2352);
    assert_eq!(AudioCdReader::sectors_to_bytes(75), 75 * 2352);
}

#[test]
fn test_wav_header() {
    let header = WavHeader::new_cd_da(2352);
    assert_eq!(header.len(), 44);
    assert_eq!(&header[0..4], b"RIFF");
    assert_eq!(&header[8..12], b"WAVE");
    assert_eq!(&header[12..16], b"fmt ");
    assert_eq!(&header[36..40], b"data");
}

#[test]
fn test_verify_audio_sector_valid() {
    let mut data = vec![0u8; 2352];
    for i in 0..100 {
        data[i] = (i % 256) as u8;
    }
    assert!(AudioCdReader::verify_audio_sector(&data));
}

#[test]
fn test_verify_audio_sector_all_zeros() {
    let data = vec![0u8; 2352];
    assert!(!AudioCdReader::verify_audio_sector(&data));
}

#[test]
fn test_verify_audio_sector_all_same() {
    let data = vec![0xFFu8; 2352];
    assert!(!AudioCdReader::verify_audio_sector(&data));
}

#[test]
fn test_verify_audio_sector_too_small() {
    let data = vec![0u8; 100];
    assert!(!AudioCdReader::verify_audio_sector(&data));
}

#[test]
fn test_track_info_sector_count() {
    let track = TrackInfo {
        track_number: 1,
        start_sector: 0,
        end_sector: 100,
        duration_sectors: 100,
        is_audio: true,
    };
    assert_eq!(track.sector_count(), 101);
}

#[test]
fn test_parse_toc_fallback() {
    let reader = AudioCdReader::new("D:\\".to_string(), 337500);
    let toc = reader.parse_toc_fallback();
    assert_eq!(toc.len(), 1);
    assert_eq!(toc[0].track_number, 1);
    assert_eq!(toc[0].start_sector, 0);
}

#[test]
fn wav_header_sizes_are_little_endian() {
    let header = WavHeader::new_cd_da(1000);
    // RIFF size = data + 36
    assert_eq!(&header[4..8], &1036u32.to_le_bytes());
    // byte rate 44100 * 2 * 2
    assert_eq!(&header[28..32], &176400u32.to_le_bytes());
    assert_eq!(&header[40..44], &1000u32.to_le_bytes());
}

#[test]
fn sectors_to_duration_hours() {
    let (h, m, s) = AudioCdReader::sectors_to_duration(75 * 3661);
    assert_eq!((h, m, s), (1, 1, 1));
}

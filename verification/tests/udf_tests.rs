use diskripper_core::filesystem::udf::UdfReader;
use diskripper_core::filesystem::FilesystemType;
use diskripper_core::job::{JobStatus, JobTable};
use diskripper_core::job::JobEventType;
use diskripper_core::types::JobId;

#[test]
fn test_udf_detection() {
    let mut data = vec![0u8; 0x10000];
    data[0x8001..0x8006].copy_from_slice(b"NSR02");
    let reader = UdfReader::new(data);
    assert!(reader.is_ok());
}

#[test]
fn test_udf_detection_nsr03() {
    let mut data = vec![0u8; 0x10000];
    data[0x8001..0x8006].copy_from_slice(b"NSR03");
    let reader = UdfReader::new(data);
    assert!(reader.is_ok());
}

#[test]
fn test_udf_rejection() {
    let data = vec![0u8; 0x10000];
    let reader = UdfReader::new(data);
    assert!(reader.is_err());
}

#[test]
fn test_parse_descriptor_tag() {
    let mut data = vec![0u8; 0x10000];
    data[0x8001..0x8006].copy_from_slice(b"NSR02");
    let reader = UdfReader::new(data).unwrap();

    let mut tag_data = vec![0u8; 16];
    tag_data[0] = 2;
    let tag = reader.parse_descriptor_tag(0).unwrap();
    assert_eq!(tag.tag_identifier, 0);
}

#[test]
fn test_extent_ad_parsing() {
    let mut data = vec![0u8; 0x10000];
    data[0x8001..0x8006].copy_from_slice(b"NSR02");
    let reader = UdfReader::new(data).unwrap();

    let mut ead = vec![0u8; 8];
    ead[0..4].copy_from_slice(&2048u32.to_le_bytes());
    ead[4..8].copy_from_slice(&100u32.to_le_bytes());

    let extent = reader.parse_extent_ad(&ead);
    assert_eq!(extent.location, 100);
    assert_eq!(extent.length, 2048);
}

#[test]
fn udf_too_small() {
    assert!(UdfReader::new(vec![0u8; 100]).is_err());
}

/// An image with an anchor at block 256 pointing to a sequence at block 300
/// (a partition descriptor starting at 400, then a terminator), a file set
/// descriptor at block 512 whose root is block 600, and two names there.
fn sample_image() -> Vec<u8> {
    let mut d = vec![0u8; 700 * 2048];
    d[0x8001..0x8006].copy_from_slice(b"NSR02");
    let avdp = 256 * 2048;
    d[avdp..avdp + 2].copy_from_slice(&2u16.to_le_bytes());
    d[avdp + 16..avdp + 20].copy_from_slice(&(2 * 2048u32).to_le_bytes());
    d[avdp + 20..avdp + 24].copy_from_slice(&300u32.to_le_bytes());
    let pd = 300 * 2048;
    d[pd..pd + 2].copy_from_slice(&5u16.to_le_bytes());
    d[pd + 188..pd + 192].copy_from_slice(&400u32.to_le_bytes());
    let term = 301 * 2048;
    d[term..term + 2].copy_from_slice(&8u16.to_le_bytes());
    let fsd = 512 * 2048;
    d[fsd..fsd + 2].copy_from_slice(&256u16.to_le_bytes());
    d[fsd + 48..fsd + 52].copy_from_slice(&600u32.to_le_bytes());
    let root = 600 * 2048;
    // first identifier: "A.TXT", a file whose data is block 650
    d[root..root + 2].copy_from_slice(&257u16.to_le_bytes());
    d[root + 19] = 5;
    d[root + 24..root + 28].copy_from_slice(&650u32.to_le_bytes());
    d[root + 38..root + 43].copy_from_slice(b"A.TXT");
    // second identifier: "DOCS", a directory
    let second = root + 43;
    d[second..second + 2].copy_from_slice(&257u16.to_le_bytes());
    d[second + 18] = 2;
    d[second + 19] = 4;
    d[second + 38..second + 42].copy_from_slice(b"DOCS");
    d[650 * 2048] = 0xAB;
    d
}

#[test]
fn udf_reads_volume_and_root() {
    let mut r = UdfReader::new(sample_image()).unwrap();
    let v = r.read_volume().unwrap();
    assert_eq!(v.volume_id, "UDF Volume");
    assert_eq!(v.system_id, "UDF");
    assert_eq!(v.block_size, 2048);
    assert_eq!(v.files_used, 2);
    assert_eq!(v.fs_type, FilesystemType::Udf);
    let files = r.list_files();
    assert_eq!(files.len(), 2);
    assert!(files.iter().any(|f| f.path == "A.TXT" && !f.is_dir));
    assert!(files.iter().any(|f| f.path == "DOCS" && f.is_dir));
    let data = r.read_file("A.TXT").unwrap();
    assert_eq!(data.len(), 2048);
    assert_eq!(data[0], 0xAB);
    assert!(r.read_file("DOCS").is_err());
    assert!(r.read_file("NOPE").is_err());
}

#[test]
fn job_table_create_get_remove() {
    let mut t = JobTable::new();
    let id = t.create_job("rip".to_string(), 100);
    assert_eq!(id.0.len(), 36);
    let j = t.get(&id).unwrap();
    assert_eq!(j.name, "rip");
    assert_eq!(j.status, JobStatus::Queued);
    assert_eq!(t.set_status(&id, JobStatus::Running, 101).unwrap(), Some(JobEventType::Started));
    assert_eq!(t.get(&id).unwrap().updated_at, 101);
    assert_eq!(t.set_error(&id, "boom".to_string(), 102).unwrap(), JobEventType::Failed);
    assert_eq!(t.get(&id).unwrap().error.as_deref(), Some("boom"));
    assert!(t.remove_job(&id).is_ok());
    assert!(t.get(&id).is_none());
    let missing = JobId("x".to_string());
    assert!(t.remove_job(&missing).is_err());
    assert!(t.set_status(&missing, JobStatus::Paused, 1).is_err());
    assert!(t.touch(&missing, 1).is_err());
}

#[test]
fn job_table_lists_newest_first() {
    let mut t = JobTable::new();
    let a = t.create_job("a".to_string(), 1);
    let b = t.create_job("b".to_string(), 3);
    let c = t.create_job("c".to_string(), 2);
    let l = t.list_jobs();
    let ids: Vec<&JobId> = l.iter().map(|j| &j.id).collect();
    assert_eq!(ids, vec![&b, &c, &a]);
}

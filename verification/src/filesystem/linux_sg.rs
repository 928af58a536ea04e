//! The table of contents as Linux SCSI generic (SG_IO) READ TOC returns it.
use vstd::prelude::*;
use crate::bytes::{be16_at, be32_at, read_be_u16, read_be_u32};

verus! {

/// A track of the table of contents.
#[derive(Debug, Clone, Copy)]
pub struct TocTrack {
    pub track_number: u8,
    pub control: u8,
    pub start_lba: u32,
}

/// The table of contents.
#[derive(Debug, Clone)]
pub struct TocData {
    pub first_track: u8,
    pub last_track: u8,
    pub tracks: Vec<TocTrack>,
}

/// The READ TOC command block (MSF addresses, from the first track).
pub open spec fn read_toc_block() -> Seq<u8> {
    seq![0x43u8, 0x02, 0, 0, 0, 0, 0, 0xFF, 0, 0]
}

/// The READ TOC command block.
pub fn read_toc_cdb() -> (r: Vec<u8>)
    ensures
        r@ == read_toc_block(),
{
    let mut cdb: Vec<u8> = Vec::new();
    cdb.push(0x43);
    cdb.push(0x02);
    cdb.push(0x00);
    cdb.push(0x00);
    cdb.push(0x00);
    cdb.push(0x00);
    cdb.push(0x00);
    cdb.push(0xFF);
    cdb.push(0x00);
    cdb.push(0x00);
    proof {
        assert(cdb@ =~= read_toc_block());
    }
    cdb
}

/// Number of descriptors the response's length field covers: the length
/// less the two bytes after it, in descriptors of 8 bytes.
pub open spec fn descriptor_count(b: Seq<u8>) -> int {
    let l = be16_at(b, 0);
    if l < 2 {
        0
    } else {
        (l - 2) / 8
    }
}

/// Whether descriptor `i` lies within the response.
pub open spec fn descriptor_present(b: Seq<u8>, i: int) -> bool {
    4 + 8 * i + 8 <= b.len()
}

/// The track that descriptor `i` describes: the track number at byte 1,
/// the control byte at byte 4 and the start at bytes 5 to 8.
pub open spec fn descriptor_track(b: Seq<u8>, i: int) -> TocTrack {
    let o = 4 + 8 * i;
    TocTrack { track_number: b[o + 1], control: b[o + 4], start_lba: be32_at(b, o + 5) as u32 }
}

/// The tracks of the descriptors before `n` that lie within the response.
pub open spec fn tracks_upto(b: Seq<u8>, n: int) -> Seq<TocTrack>
    decreases n,
{
    if n <= 0 {
        seq![]
    } else if descriptor_present(b, n - 1) {
        tracks_upto(b, n - 1).push(descriptor_track(b, n - 1))
    } else {
        tracks_upto(b, n - 1)
    }
}

/// Whether reading the response stays within it: no descriptor counted
/// ends exactly at the end of the response (its start would be read one
/// byte beyond).
pub open spec fn toc_buffer_readable(b: Seq<u8>) -> bool {
    b.len() >= 4 && forall|i: int|
        0 <= i < descriptor_count(b) ==> #[trigger] descriptor_present(b, i) ==> 4 + 8 * i + 9
            <= b.len()
}

/// Parses a READ TOC response: first and last track, then a track for each
/// descriptor the length covers that lies within the response.
pub fn parse_toc_buffer(toc_buffer: &[u8]) -> (r: TocData)
    requires
        toc_buffer_readable(toc_buffer@),
    ensures
        r.first_track == toc_buffer@[2],
        r.last_track == toc_buffer@[3],
        r.tracks@ == tracks_upto(toc_buffer@, descriptor_count(toc_buffer@)),
{
    let ghost b = toc_buffer@;
    let toc_data_len = read_be_u16(toc_buffer, 0) as usize;
    let first_track = toc_buffer[2];
    let last_track = toc_buffer[3];
    let count = if toc_data_len < 2 {
        0
    } else {
        (toc_data_len - 2) / 8
    };
    let len = toc_buffer.len();
    let mut tracks: Vec<TocTrack> = Vec::new();
    let mut i: usize = 0;
    while i < count
        invariant
            b == toc_buffer@,
            len == b.len(),
            count == descriptor_count(b),
            count <= 0x2000,
            toc_buffer_readable(b),
            i <= count,
            tracks@ == tracks_upto(b, i as int),
        decreases count - i,
    {
        let offset = 4 + i * 8;
        if offset + 8 <= len {
            proof {
                assert(descriptor_present(b, i as int));
            }
            let track_number = toc_buffer[offset + 1];
            let control = toc_buffer[offset + 4];
            let lba = read_be_u32(toc_buffer, offset + 5);
            tracks.push(TocTrack { track_number, control, start_lba: lba });
        }
        i = i + 1;
    }
    TocData { first_track, last_track, tracks }
}

/// The READ CAPACITY(10) command block.
pub open spec fn read_capacity_block() -> Seq<u8> {
    seq![0x25u8, 0, 0, 0, 0, 0, 0, 0, 0, 0]
}

/// The READ CAPACITY(10) command block.
pub fn read_capacity_cdb() -> (r: Vec<u8>)
    ensures
        r@ == read_capacity_block(),
{
    let r: Vec<u8> = vec![0x25, 0, 0, 0, 0, 0, 0, 0, 0, 0];
    proof {
        assert(r@ =~= read_capacity_block());
    }
    r
}

/// The last block address and the block size in a READ CAPACITY(10)
/// response: two big-endian words.
pub fn parse_capacity(buffer: &[u8]) -> (r: (u32, u32))
    requires
        buffer@.len() >= 8,
    ensures
        r.0 == be32_at(buffer@, 0),
        r.1 == be32_at(buffer@, 4),
{
    (read_be_u32(buffer, 0), read_be_u32(buffer, 4))
}

/// The READ CD command block for `count` sectors of 2048 bytes of user
/// data from block `lba`, without sub-channel data.
pub open spec fn read_cd_block(lba: u32, count: u16) -> Seq<u8> {
    seq![
        0xBEu8,
        0,
        (lba / 16777216) as u8,
        ((lba / 65536) % 256) as u8,
        ((lba / 256) % 256) as u8,
        (lba % 256) as u8,
        (count / 256) as u8,
        (count % 256) as u8,
        0x10,
        0,
        0,
        0,
    ]
}

/// The READ CD command block for `num_sectors` sectors from
/// `start_sector`: the address is taken to 32 bits and the count to at most
/// 0xFFFF.
pub fn read_cd_cdb(start_sector: u64, num_sectors: u32) -> (r: Vec<u8>)
    ensures
        r@ == read_cd_block(
            start_sector as u32,
            (if num_sectors < 0xFFFF {
                num_sectors
            } else {
                0xFFFF
            }) as u16,
        ),
{
    let lba: u32 = start_sector as u32;
    let count: u16 = if num_sectors < 0xFFFF {
        num_sectors as u16
    } else {
        0xFFFF
    };
    let r: Vec<u8> = vec![
        0xBE,
        0,
        (lba / 16777216) as u8,
        ((lba / 65536) % 256) as u8,
        ((lba / 256) % 256) as u8,
        (lba % 256) as u8,
        (count / 256) as u8,
        (count % 256) as u8,
        0x10,
        0,
        0,
        0,
    ];
    proof {
        assert(r@ =~= read_cd_block(lba, count));
    }
    r
}

/// The TEST UNIT READY command block.
pub fn test_unit_ready_cdb() -> (r: Vec<u8>)
    ensures
        r@ == seq![0u8, 0, 0, 0, 0, 0],
{
    let r: Vec<u8> = vec![0, 0, 0, 0, 0, 0];
    proof {
        assert(r@ =~= seq![0u8, 0, 0, 0, 0, 0]);
    }
    r
}

} // verus!

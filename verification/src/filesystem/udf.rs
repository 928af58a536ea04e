//! UDF images: the descriptors of the volume, the partition and the root
//! directory, read from the bytes of the image.
use vstd::prelude::*;
use crate::bytes::{le16_at, le32_at, read_le_u16, read_le_u32};
use crate::error::DiskRipperError;
use crate::text::{decode_utf8_lossy, owned, str_eq, utf8_lossy};
use crate::types::{FileEntry, FileEntryView, plain_entry};
use super::{FilesystemType, VolumeInfo, has5, sig_nsr02, sig_nsr03, is_nsr};

verus! {

/// Tag of an anchor volume descriptor pointer.
pub const TAG_ANCHOR_VOLUME_DESCRIPTOR_POINTER: u16 = 2;

/// Tag of a partition descriptor.
pub const TAG_PARTITION_DESCRIPTOR: u16 = 5;

/// Tag of a logical volume descriptor.
pub const TAG_LOGICAL_VOLUME_DESCRIPTOR: u16 = 6;

/// Tag of the terminating descriptor.
pub const TAG_TERMINATING_DESCRIPTOR: u16 = 8;

/// Tag of a file set descriptor.
pub const TAG_FILE_SET_DESCRIPTOR: u16 = 256;

/// Tag of a file identifier descriptor.
pub const TAG_FILE_IDENTIFIER_DESCRIPTOR: u16 = 257;

/// Bytes in a logical block.
pub const UDF_BLOCK_SIZE: u32 = 2048;

/// A descriptor tag.
#[derive(Debug, Clone, Copy)]
pub struct DescriptorTag {
    pub tag_identifier: u16,
    pub descriptor_version: u16,
    pub tag_serial_number: u16,
    pub descriptor_crc: u16,
    pub descriptor_crc_length: u16,
    pub tag_location: u32,
}

/// An extent: its length in bytes and its first logical block.
#[derive(Debug, Clone, Copy)]
pub struct ExtentAD {
    pub length: u32,
    pub location: u32,
}

/// An entity identifier.
#[derive(Debug, Clone)]
pub struct EntityIdentifier {
    pub flags: u8,
    pub identifier: String,
    pub identifier_suffix: String,
}

/// A partition descriptor.
#[derive(Debug, Clone, Copy)]
pub struct PartitionDescriptor {
    pub partition_number: u16,
    pub partition_start: u32,
    pub partition_length: u32,
}

/// A file entry.
#[derive(Debug, Clone)]
pub struct FileEntryDescriptor {
    pub icb_tag: u32,
    pub information_length: u64,
    pub logical_blocks_recorded: u64,
    pub access_time: u64,
    pub modification_time: u64,
    pub attr_time: u64,
    pub checkpoint: u32,
    pub ext_attr_icb: u32,
    pub impl_ident: EntityIdentifier,
    pub unique_id: u64,
    pub length_of_ext_attrs: u32,
    pub length_of_alloc_descs: u32,
    pub ext_attrs: Vec<u8>,
    pub alloc_descs: Vec<u8>,
}

/// A file identifier descriptor: a name in a directory.
#[derive(Debug, Clone)]
pub struct FileIdentifierDescriptor {
    pub volume_desc_seq_number: u32,
    pub file_characteristics: u8,
    pub length_of_file_identifier: u8,
    pub icb: ExtentAD,
    pub length_of_implementation_use: u16,
    pub file_identifier: String,
}

/// The descriptor tag at `off`.
pub open spec fn tag_at(d: Seq<u8>, off: int) -> DescriptorTag {
    DescriptorTag {
        tag_identifier: le16_at(d, off) as u16,
        descriptor_version: le16_at(d, off + 2) as u16,
        tag_serial_number: le16_at(d, off + 4) as u16,
        descriptor_crc: le16_at(d, off + 6) as u16,
        descriptor_crc_length: le16_at(d, off + 8) as u16,
        tag_location: le32_at(d, off + 10) as u32,
    }
}

/// The extent that `s` begins with (empty where `s` is shorter than one).
pub open spec fn extent_of(s: Seq<u8>) -> ExtentAD {
    if s.len() < 8 {
        ExtentAD { length: 0, location: 0 }
    } else {
        ExtentAD { length: le32_at(s, 0) as u32, location: le32_at(s, 4) as u32 }
    }
}

/// The partition descriptor at `off`.
pub open spec fn partition_at(d: Seq<u8>, off: int) -> PartitionDescriptor {
    PartitionDescriptor {
        partition_number: le16_at(d, off + 22) as u16,
        partition_start: le32_at(d, off + 188) as u32,
        partition_length: le32_at(d, off + 192) as u32,
    }
}

/// What the logical volume descriptor at `off` gives: for an extended
/// partition map, the partition's start and length; for a primary one, its
/// volume sequence number and partition number; `None` where neither is
/// there.
pub open spec fn logical_volume_at(d: Seq<u8>, off: int) -> Option<(u32, u32)> {
    if le32_at(d, off + 264) >= 24 {
        if d[off + 268] == 2 {
            Some((le32_at(d, off + 320) as u32, le32_at(d, off + 324) as u32))
        } else if d[off + 268] == 1 {
            Some((le16_at(d, off + 272) as u32, le16_at(d, off + 274) as u32))
        } else {
            None
        }
    } else {
        None
    }
}

/// The name of the file identifier descriptor at `off`, empty where it
/// runs past the image.
pub open spec fn fid_name_at(d: Seq<u8>, off: int) -> Seq<char> {
    let start = off + 38 + le16_at(d, off + 36);
    let end = start + d[off + 19];
    if end <= d.len() {
        utf8_lossy(d.subrange(start, end))
    } else {
        seq![]
    }
}

/// The bytes that a descriptor of `off` on leaves after it.
pub open spec fn rest(d: Seq<u8>, off: int) -> int {
    d.len() - off
}

/// The block `lba` of the image (shorter at its end, empty past it).
pub open spec fn lba_block(d: Seq<u8>, lba: u32) -> Seq<u8> {
    let off = lba * 2048;
    if off >= d.len() {
        seq![]
    } else if off + 2048 <= d.len() {
        d.subrange(off, off + 2048)
    } else {
        d.subrange(off, d.len() as int)
    }
}

/// Whether a name is kept in a directory listing: not empty, `.` or `..`.
pub open spec fn listed_name(n: Seq<char>) -> bool {
    n.len() > 0 && n != "."@ && n != ".."@
}

/// The names and directory flags of the file identifier descriptors of a
/// directory block at `base`, from `pos` on: each one is followed by the
/// next, and anything else skips a block.
pub open spec fn fid_walk(d: Seq<u8>, base: int, blen: int, pos: int) -> Seq<(Seq<char>, bool)>
    decreases (if pos <= blen {
        blen - pos + 1
    } else {
        0
    }),
{
    if pos < 0 || pos + 38 > blen {
        seq![]
    } else if le16_at(d, base + pos) == TAG_FILE_IDENTIFIER_DESCRIPTOR {
        let off = base + pos;
        let name = fid_name_at(d, off);
        let next = pos + 38 + le16_at(d, off + 36) + d[off + 19];
        let tail = fid_walk(d, base, blen, next);
        if listed_name(name) {
            seq![(name, d[off + 18] & 2 != 0)] + tail
        } else {
            tail
        }
    } else {
        fid_walk(d, base, blen, pos + 2048)
    }
}

/// `es` with the entry `e` put under its path, in place of one there.
pub open spec fn upsert(es: Seq<FileEntryView>, e: FileEntryView) -> Seq<FileEntryView> {
    if exists|i: int| 0 <= i < es.len() && es[i].path == e.path {
        es.update(choose|i: int| 0 <= i < es.len() && es[i].path == e.path, e)
    } else {
        es.push(e)
    }
}

/// `es` with each found name put in as an entry of size 0.
pub open spec fn upsert_all(es: Seq<FileEntryView>, found: Seq<(Seq<char>, bool)>) -> Seq<
    FileEntryView,
>
    decreases found.len(),
{
    if found.len() == 0 {
        es
    } else {
        upsert_all(upsert(es, plain_entry(found[0].0, 0, found[0].1)), found.drop_first())
    }
}

/// No two entries have one path.
pub open spec fn paths_unique(es: Seq<FileEntryView>) -> bool {
    forall|i: int, j: int| 0 <= i < j < es.len() ==> #[trigger] es[i].path != #[trigger] es[j].path
}

/// The views of entries.
pub open spec fn entry_views(es: Seq<FileEntry>) -> Seq<FileEntryView> {
    es.map_values(|e: FileEntry| e@)
}

/// What scanning a volume descriptor sequence from `off` up to `end` gives
/// the partition start `ps`: a partition descriptor sets it, a logical
/// volume descriptor sets it where it is not set yet, the terminating
/// descriptor ends the scan, and a descriptor cut short is an error (its
/// message).
pub open spec fn vds_scan(d: Seq<u8>, off: int, end: int, ps: Option<u32>) -> Result<
    Option<u32>,
    Seq<char>,
>
    decreases (if off <= d.len() {
        d.len() - off + 1
    } else {
        0
    }),
{
    if off < 0 || !(off < end && off + 16 <= d.len()) {
        Ok(ps)
    } else {
        let t = le16_at(d, off);
        if t == TAG_PARTITION_DESCRIPTOR {
            if rest(d, off) < 512 {
                Err("Partition descriptor too short"@)
            } else {
                vds_scan(d, off + 2048, end, Some(partition_at(d, off).partition_start))
            }
        } else if t == TAG_LOGICAL_VOLUME_DESCRIPTOR {
            if rest(d, off) < 512 {
                Err("Logical volume descriptor too short"@)
            } else {
                match logical_volume_at(d, off) {
                    None => Err("Could not parse logical volume descriptor"@),
                    Some(p) => vds_scan(
                        d,
                        off + 2048,
                        end,
                        if ps is None {
                            Some(p.0)
                        } else {
                            ps
                        },
                    ),
                }
            }
        } else if t == TAG_TERMINATING_DESCRIPTOR {
            Ok(ps)
        } else {
            vds_scan(d, off + 2048, end, ps)
        }
    }
}

/// Whether an error is `InvalidPath` with the message `m`.
pub open spec fn invalid_path(e: DiskRipperError, m: Seq<char>) -> bool {
    e matches DiskRipperError::InvalidPath(s) && s@ == m
}

/// Reads a UDF image held in memory.
pub struct UdfReader {
    data: Vec<u8>,
    block_size: u32,
    partition_start: Option<u32>,
    root_file_set: Option<ExtentAD>,
    root_icb: Option<ExtentAD>,
    root_entries: Vec<FileEntry>,
}

impl UdfReader {
    /// The image.
    pub closed spec fn bytes(&self) -> Seq<u8> {
        self.data@
    }

    /// The root directory's entries found so far.
    pub closed spec fn entries(&self) -> Seq<FileEntryView> {
        entry_views(self.root_entries@)
    }

    /// The partition's first block, where known.
    pub closed spec fn partition(&self) -> Option<u32> {
        self.partition_start
    }

    /// The root directory's ICB, where found.
    pub closed spec fn root(&self) -> Option<ExtentAD> {
        self.root_icb
    }

    /// Blocks are 2048 bytes and the root entries have distinct paths.
    pub closed spec fn wf(&self) -> bool {
        &&& self.block_size == UDF_BLOCK_SIZE
        &&& paths_unique(entry_views(self.root_entries@))
    }

    /// Opens a UDF image: at least 64 KiB, with `NSR02` or `NSR03` at
    /// 0x8001.
    pub fn new(data: Vec<u8>) -> (r: Result<Self, DiskRipperError>)
        ensures
            data@.len() < 0x10000 ==> (r matches Err(e) && invalid_path(
                e,
                "Data too small for UDF image"@,
            )),
            data@.len() >= 0x10000 && !(has5(data@, 0x8001, sig_nsr02()) || has5(
                data@,
                0x8001,
                sig_nsr03(),
            )) ==> (r matches Err(e) && invalid_path(
                e,
                "Not a valid UDF image (missing NSR02/03 signature)"@,
            )),
            data@.len() >= 0x10000 && (has5(data@, 0x8001, sig_nsr02()) || has5(
                data@,
                0x8001,
                sig_nsr03(),
            )) ==> (r matches Ok(u) && u.wf() && u.bytes() == data@ && u.entries().len() == 0
                && u.partition() is None && u.root() is None),
    {
        if data.len() < 0x10000 {
            proof {
                reveal_strlit("Data too small for UDF image");
            }
            return Err(DiskRipperError::InvalidPath(owned("Data too small for UDF image")));
        }
        if !is_nsr(data.as_slice(), 0x8001) {
            proof {
                reveal_strlit("Not a valid UDF image (missing NSR02/03 signature)");
            }
            return Err(
                DiskRipperError::InvalidPath(
                    owned("Not a valid UDF image (missing NSR02/03 signature)"),
                ),
            );
        }
        let r = UdfReader {
            data,
            block_size: UDF_BLOCK_SIZE,
            partition_start: None,
            root_file_set: None,
            root_icb: None,
            root_entries: Vec::new(),
        };
        proof {
            assert(entry_views(r.root_entries@) =~= Seq::<FileEntryView>::empty());
        }
        Ok(r)
    }

    /// The descriptor tag at `offset`.
    pub fn parse_descriptor_tag(&self, offset: u32) -> (r: Result<DescriptorTag, DiskRipperError>)
        requires
            offset <= self.bytes().len(),
        ensures
            rest(self.bytes(), offset as int) < 16 ==> (r matches Err(e) && invalid_path(
                e,
                "Tag too short"@,
            )),
            rest(self.bytes(), offset as int) >= 16 ==> r == Ok::<DescriptorTag, DiskRipperError>(
                tag_at(self.bytes(), offset as int),
            ),
    {
        let off = offset as usize;
        if self.data.len() - off < 16 {
            proof {
                reveal_strlit("Tag too short");
            }
            return Err(DiskRipperError::InvalidPath(owned("Tag too short")));
        }
        let d = self.data.as_slice();
        Ok(
            DescriptorTag {
                tag_identifier: read_le_u16(d, off),
                descriptor_version: read_le_u16(d, off + 2),
                tag_serial_number: read_le_u16(d, off + 4),
                descriptor_crc: read_le_u16(d, off + 6),
                descriptor_crc_length: read_le_u16(d, off + 8),
                tag_location: read_le_u32(d, off + 10),
            },
        )
    }

    /// The extent that `data` begins with; an empty one where it is
    /// shorter than eight bytes.
    pub fn parse_extent_ad(&self, data: &[u8]) -> (r: ExtentAD)
        ensures
            r == extent_of(data@),
    {
        if data.len() < 8 {
            return ExtentAD { length: 0, location: 0 };
        }
        ExtentAD { length: read_le_u32(data, 0), location: read_le_u32(data, 4) }
    }

    /// The partition descriptor at `offset`.
    pub fn parse_partition_descriptor(&self, offset: u32) -> (r: Result<
        PartitionDescriptor,
        DiskRipperError,
    >)
        requires
            offset <= self.bytes().len(),
        ensures
            rest(self.bytes(), offset as int) < 512 ==> (r matches Err(e) && invalid_path(
                e,
                "Partition descriptor too short"@,
            )),
            rest(self.bytes(), offset as int) >= 512 ==> r == Ok::<
                PartitionDescriptor,
                DiskRipperError,
            >(partition_at(self.bytes(), offset as int)),
    {
        let off = offset as usize;
        if self.data.len() - off < 512 {
            proof {
                reveal_strlit("Partition descriptor too short");
            }
            return Err(DiskRipperError::InvalidPath(owned("Partition descriptor too short")));
        }
        let d = self.data.as_slice();
        Ok(
            PartitionDescriptor {
                partition_number: read_le_u16(d, off + 22),
                partition_start: read_le_u32(d, off + 188),
                partition_length: read_le_u32(d, off + 192),
            },
        )
    }

    /// The partition's start and length (or volume sequence and partition
    /// numbers) from the logical volume descriptor at `offset`.
    pub fn parse_logical_volume_descriptor(&self, offset: u32) -> (r: Result<
        (u32, u32),
        DiskRipperError,
    >)
        requires
            offset <= self.bytes().len(),
        ensures
            rest(self.bytes(), offset as int) < 512 ==> (r matches Err(e) && invalid_path(
                e,
                "Logical volume descriptor too short"@,
            )),
            rest(self.bytes(), offset as int) >= 512 ==> match logical_volume_at(
                self.bytes(),
                offset as int,
            ) {
                Some(p) => r == Ok::<(u32, u32), DiskRipperError>(p),
                None => r matches Err(e) && invalid_path(
                    e,
                    "Could not parse logical volume descriptor"@,
                ),
            },
    {
        let off = offset as usize;
        if self.data.len() - off < 512 {
            proof {
                reveal_strlit("Logical volume descriptor too short");
            }
            return Err(DiskRipperError::InvalidPath(owned("Logical volume descriptor too short")));
        }
        let d = self.data.as_slice();
        let map_table_length = read_le_u32(d, off + 264);
        if map_table_length >= 24 {
            let map_type = d[off + 268];
            if map_type == 2 {
                let start = read_le_u32(d, off + 320);
                let length = read_le_u32(d, off + 324);
                return Ok((start, length));
            } else if map_type == 1 {
                let vol_seq_num = read_le_u16(d, off + 272);
                let partition_num = read_le_u16(d, off + 274);
                return Ok((vol_seq_num as u32, partition_num as u32));
            }
        }
        proof {
            reveal_strlit("Could not parse logical volume descriptor");
        }
        Err(DiskRipperError::InvalidPath(owned("Could not parse logical volume descriptor")))
    }

    /// The file identifier descriptor at byte `offset` of the image.
    fn fid_at(&self, offset: usize) -> (r: Result<
        FileIdentifierDescriptor,
        DiskRipperError,
    >)
        requires
            offset <= self.bytes().len(),
        ensures
            rest(self.bytes(), offset as int) < 38 ==> (r matches Err(e) && invalid_path(
                e,
                "FID too short"@,
            )),
            rest(self.bytes(), offset as int) >= 38 ==> (r matches Ok(f) && {
                let d = self.bytes();
                let o = offset as int;
                &&& f.volume_desc_seq_number == tag_at(d, o).tag_location
                &&& f.file_characteristics == d[o + 18]
                &&& f.length_of_file_identifier == d[o + 19]
                &&& f.icb == extent_of(d.subrange(o + 20, o + 36))
                &&& f.length_of_implementation_use == le16_at(d, o + 36)
                &&& f.file_identifier@ == fid_name_at(d, o)
            }),
    {
        let off = offset;
        if self.data.len() - off < 38 {
            proof {
                reveal_strlit("FID too short");
            }
            return Err(DiskRipperError::InvalidPath(owned("FID too short")));
        }
        let d = self.data.as_slice();
        let tag_location = read_le_u32(d, off + 10);
        let file_characteristics = d[off + 18];
        let length_of_file_identifier = d[off + 19];
        let icb = self.parse_extent_ad(slice_of(d, off + 20, off + 36).as_slice());
        let length_of_implementation_use = read_le_u16(d, off + 36);
        let room = self.data.len() - off - 38;
        let iu = length_of_implementation_use as usize;
        let li = length_of_file_identifier as usize;
        let file_identifier = if iu <= room && li <= room - iu {
            decode_utf8_lossy(slice_of(d, off + 38 + iu, off + 38 + iu + li).as_slice())
        } else {
            owned("")
        };
        proof {
            reveal_strlit("");
        }
        Ok(
            FileIdentifierDescriptor {
                volume_desc_seq_number: tag_location,
                file_characteristics,
                length_of_file_identifier,
                icb,
                length_of_implementation_use,
                file_identifier,
            },
        )
    }

    /// The file identifier descriptor at `offset`.
    pub fn parse_file_identifier(&self, offset: u32) -> (r: Result<
        FileIdentifierDescriptor,
        DiskRipperError,
    >)
        requires
            offset <= self.bytes().len(),
        ensures
            rest(self.bytes(), offset as int) < 38 ==> (r matches Err(e) && invalid_path(
                e,
                "FID too short"@,
            )),
            rest(self.bytes(), offset as int) >= 38 ==> (r matches Ok(f) && {
                let d = self.bytes();
                let o = offset as int;
                &&& f.volume_desc_seq_number == tag_at(d, o).tag_location
                &&& f.file_characteristics == d[o + 18]
                &&& f.length_of_file_identifier == d[o + 19]
                &&& f.icb == extent_of(d.subrange(o + 20, o + 36))
                &&& f.length_of_implementation_use == le16_at(d, o + 36)
                &&& f.file_identifier@ == fid_name_at(d, o)
            }),
    {
        self.fid_at(offset as usize)
    }

    /// The root directory's ICB from the file set descriptor at `offset`.
    pub fn parse_file_set_descriptor(&self, offset: u32) -> (r: Result<ExtentAD, DiskRipperError>)
        requires
            offset <= self.bytes().len(),
        ensures
            rest(self.bytes(), offset as int) < 512 ==> (r matches Err(e) && invalid_path(
                e,
                "File set descriptor too short"@,
            )),
            rest(self.bytes(), offset as int) >= 512 ==> r == Ok::<ExtentAD, DiskRipperError>(
                ExtentAD {
                    length: le32_at(self.bytes(), offset + 52) as u32,
                    location: le32_at(self.bytes(), offset + 48) as u32,
                },
            ),
    {
        let off = offset as usize;
        if self.data.len() - off < 512 {
            proof {
                reveal_strlit("File set descriptor too short");
            }
            return Err(DiskRipperError::InvalidPath(owned("File set descriptor too short")));
        }
        let d = self.data.as_slice();
        let location = read_le_u32(d, off + 48);
        let length = read_le_u32(d, off + 52);
        Ok(ExtentAD { length, location })
    }

    /// The logical block `lba` of the image.
    pub fn read_lba(&self, lba: u32) -> (r: Vec<u8>)
        ensures
            r@ == lba_block(self.bytes(), lba),
    {
        let off: u64 = lba as u64 * 2048;
        let len = self.data.len() as u64;
        if off >= len {
            return Vec::new();
        }
        let end = if off + 2048 <= len {
            off + 2048
        } else {
            len
        };
        slice_of(self.data.as_slice(), off as usize, end as usize)
    }

    /// The file entry at `offset`: only its information length (the 64-bit
    /// value at 56, zero where the entry is shorter) is read.
    pub fn read_file_entry(&self, offset: u32) -> (r: Result<FileEntryDescriptor, DiskRipperError>)
        requires
            offset <= self.bytes().len(),
        ensures
            rest(self.bytes(), offset as int) < 16 ==> (r matches Err(e) && invalid_path(
                e,
                "File entry too short"@,
            )),
            rest(self.bytes(), offset as int) >= 16 ==> (r matches Ok(f) && f.information_length
                == (if rest(self.bytes(), offset as int) >= 64 {
                le32_at(self.bytes(), offset + 56) + le32_at(self.bytes(), offset + 60)
                    * 0x1_0000_0000
            } else {
                0
            }) && f.unique_id == 0 && f.ext_attrs@.len() == 0 && f.alloc_descs@.len() == 0),
    {
        let off = offset as usize;
        if self.data.len() - off < 16 {
            proof {
                reveal_strlit("File entry too short");
            }
            return Err(DiskRipperError::InvalidPath(owned("File entry too short")));
        }
        let d = self.data.as_slice();
        let information_length: u64 = if self.data.len() - off >= 64 {
            let lo = read_le_u32(d, off + 56) as u64;
            let hi = read_le_u32(d, off + 60) as u64;
            lo + hi * 0x1_0000_0000
        } else {
            0
        };
        Ok(
            FileEntryDescriptor {
                icb_tag: 0,
                information_length,
                logical_blocks_recorded: 0,
                access_time: 0,
                modification_time: 0,
                attr_time: 0,
                checkpoint: 0,
                ext_attr_icb: 0,
                impl_ident: EntityIdentifier {
                    flags: 0,
                    identifier: owned(""),
                    identifier_suffix: owned(""),
                },
                unique_id: 0,
                length_of_ext_attrs: 0,
                length_of_alloc_descs: 0,
                ext_attrs: Vec::new(),
                alloc_descs: Vec::new(),
            },
        )
    }
}

/// The position of the root directory's file set descriptor: the first
/// of blocks 256, 512 and 1024 whose tag says so.
pub open spec fn fsd_offset(d: Seq<u8>) -> Option<int> {
    if 256int * 2048 + 16 <= d.len() && le16_at(d, 256int * 2048) == TAG_FILE_SET_DESCRIPTOR {
        Some(256int * 2048)
    } else if 512int * 2048 + 16 <= d.len() && le16_at(d, 512int * 2048) == TAG_FILE_SET_DESCRIPTOR {
        Some(512int * 2048)
    } else if 1024int * 2048 + 16 <= d.len() && le16_at(d, 1024int * 2048)
        == TAG_FILE_SET_DESCRIPTOR {
        Some(1024int * 2048)
    } else {
        None
    }
}

/// The blocks where an anchor volume descriptor pointer is looked for: 256,
/// 512, and the last block of the image.
pub open spec fn avdp_lbas(d: Seq<u8>) -> Seq<int> {
    seq![256int, 512int, if (d.len() as u32) / 2048 >= 1 { (d.len() as u32) / 2048 - 1 } else { 0 }]
}

/// The position of the first anchor volume descriptor pointer found.
pub open spec fn avdp_offset(d: Seq<u8>) -> Option<int> {
    let l = avdp_lbas(d);
    if l[0] * 2048 + 16 <= d.len() && le16_at(d, l[0] * 2048) == TAG_ANCHOR_VOLUME_DESCRIPTOR_POINTER {
        Some(l[0] * 2048)
    } else if l[1] * 2048 + 16 <= d.len() && le16_at(d, l[1] * 2048)
        == TAG_ANCHOR_VOLUME_DESCRIPTOR_POINTER {
        Some(l[1] * 2048)
    } else if l[2] * 2048 + 16 <= d.len() && le16_at(d, l[2] * 2048)
        == TAG_ANCHOR_VOLUME_DESCRIPTOR_POINTER {
        Some(l[2] * 2048)
    } else {
        None
    }
}

/// The main volume descriptor sequence extent of the anchor at `off`.
pub open spec fn main_vds(d: Seq<u8>, off: int) -> ExtentAD {
    extent_of(d.subrange(off + 16, off + 28))
}

/// What reading the anchor at `off` does to the partition start.
pub open spec fn anchor_scan(d: Seq<u8>, off: int, ps: Option<u32>) -> Result<Option<u32>, Seq<char>> {
    if rest(d, off) < 512 {
        Err("AVDP too short"@)
    } else {
        let e = main_vds(d, off);
        vds_scan(
            d,
            e.location.wrapping_mul(2048) as int,
            e.location.wrapping_mul(2048).wrapping_add(e.length) as int,
            ps,
        )
    }
}

/// The directory entries that reading the root directory's block `lba`
/// leaves, from `es`.
pub open spec fn dir_scan(d: Seq<u8>, lba: u32, es: Seq<FileEntryView>) -> Seq<FileEntryView> {
    let b = lba_block(d, lba);
    if b.len() < 38 {
        es
    } else {
        upsert_all(es, fid_walk(d, lba * 2048, b.len() as int, 0))
    }
}

/// The root directory's ICB and entries after the root directory is read:
/// from the file set descriptor found (an error where it is cut short),
/// else as they were.
pub open spec fn root_scan(d: Seq<u8>, root: Option<ExtentAD>, es: Seq<FileEntryView>) -> Result<
    (Option<ExtentAD>, Seq<FileEntryView>),
    Seq<char>,
> {
    let found = match fsd_offset(d) {
        Some(off) => if rest(d, off) < 512 {
            None
        } else {
            Some(ExtentAD { length: le32_at(d, off + 52) as u32, location: le32_at(d, off + 48) as u32 })
        },
        None => root,
    };
    if fsd_offset(d) is Some && found is None {
        Err("File set descriptor too short"@)
    } else {
        match found {
            Some(r) => Ok((found, dir_scan(d, r.location, es))),
            None => Ok((found, es)),
        }
    }
}

impl UdfReader {
    /// Puts `e` under its path among the root entries.
    fn upsert_entry(&mut self, e: FileEntry)
        requires
            old(self).wf(),
        ensures
            final(self).wf(),
            final(self).entries() == upsert(old(self).entries(), e@),
            final(self).bytes() == old(self).bytes(),
            final(self).partition() == old(self).partition(),
            final(self).root() == old(self).root(),
    {
        let ghost es = self.entries();
        let ghost v = e@;
        let mut i: usize = 0;
        while i < self.root_entries.len()
            invariant
                *self == *old(self),
                old(self).wf(),
                i <= self.root_entries@.len(),
                es == entry_views(self.root_entries@),
                v == e@,
                forall|k: int| 0 <= k < i ==> es[k].path != v.path,
            decreases self.root_entries.len() - i,
        {
            proof {
                assert(es[i as int] == self.root_entries@[i as int]@);
            }
            if str_eq(self.root_entries[i].path.as_str(), e.path.as_str()) {
                self.root_entries.set(i, e);
                proof {
                    assert(es[i as int].path == v.path);
                    let c = choose|j: int| 0 <= j < es.len() && es[j].path == v.path;
                    assert(c == i) by {
                        if c != i as int {
                            if c < i {
                                assert(es[c].path != es[i as int].path);
                            } else {
                                assert(es[i as int].path != es[c].path);
                            }
                        }
                    }
                    assert(entry_views(self.root_entries@) =~= es.update(i as int, v));
                    assert forall|a: int, b: int|
                        0 <= a < b < entry_views(self.root_entries@).len() implies #[trigger] entry_views(
                        self.root_entries@,
                    )[a].path != #[trigger] entry_views(self.root_entries@)[b].path by {
                        if a != i && b != i {
                            assert(es[a].path != es[b].path);
                        } else if a == i {
                            assert(es[a].path != es[b].path);
                        } else {
                            assert(es[a].path != es[b].path);
                        }
                    }
                }
                return ;
            }
            i = i + 1;
        }
        self.root_entries.push(e);
        proof {
            assert(entry_views(self.root_entries@) =~= es.push(v));
            assert(!(exists|j: int| 0 <= j < es.len() && es[j].path == v.path));
        }
    }

    /// Reads the directory entries of the block `lba` (the root
    /// directory's) into the root entries.
    pub fn read_directory_entries(&mut self, lba: u32) -> (r: Result<(), DiskRipperError>)
        requires
            old(self).wf(),
        ensures
            r is Ok,
            final(self).wf(),
            final(self).entries() == dir_scan(old(self).bytes(), lba, old(self).entries()),
            final(self).bytes() == old(self).bytes(),
            final(self).partition() == old(self).partition(),
            final(self).root() == old(self).root(),
    {
        let block = self.read_lba(lba);
        if block.len() < 38 {
            return Ok(());
        }
        let ghost d = self.bytes();
        let n = self.data.len();
        let ghost blen = block@.len() as int;
        let base: u64 = lba as u64 * 2048;
        let ghost target = upsert_all(old(self).entries(), fid_walk(d, base as int, blen, 0));
        let mut pos: usize = 0;
        while pos + 38 <= block.len()
            invariant
                pos <= block@.len() + 65800,
                self.wf(),
                self.bytes() == d,
                self.partition() == old(self).partition(),
                self.root() == old(self).root(),
                block@ == lba_block(d, lba),
                blen == block@.len(),
                38 <= blen <= 2048,
                base == lba * 2048,
                base + blen <= d.len(),
                n == d.len(),
                upsert_all(self.entries(), fid_walk(d, base as int, blen, pos as int)) == target,
            decreases block.len() + 65800 - pos,
        {
            let tag_id = read_le_u16(block.as_slice(), pos);
            proof {
                assert(le16_at(block@, pos as int) == le16_at(d, base + pos));
            }
            if tag_id == TAG_FILE_IDENTIFIER_DESCRIPTOR {
                proof {
                    assert(base + pos <= n);
                }
                let off = (base + pos as u64) as usize;
                match self.fid_at(off) {
                    Ok(fid) => {
                        let is_dir = (fid.file_characteristics & 0x02) != 0;
                        let name = fid.file_identifier;
                        let ghost n = name@;
                        let keep = !str_eq(name.as_str(), "") && !str_eq(name.as_str(), ".")
                            && !str_eq(name.as_str(), "..");
                        proof {
                            reveal_strlit("");
                            reveal_strlit(".");
                            reveal_strlit("..");
                            if n.len() == 0 {
                                assert(n =~= ""@);
                            }
                            assert(keep == listed_name(n));
                        }
                        let next = pos + 38 + fid.length_of_implementation_use as usize
                            + fid.length_of_file_identifier as usize;
                        let ghost walk_next = fid_walk(d, base as int, blen, next as int);
                        if keep {
                            let entry = FileEntry {
                                path: name,
                                size: 0,
                                is_dir,
                                modified: None,
                                checksum_sha256: None,
                            };
                            proof {
                                assert(entry@ == plain_entry(n, 0, is_dir));
                            }
                            let ghost before = self.entries();
                            self.upsert_entry(entry);
                            proof {
                                let w = seq![(n, is_dir)] + walk_next;
                                assert(w.drop_first() =~= walk_next);
                                assert(fid_walk(d, base as int, blen, pos as int) == w);
                            }
                        }
                        pos = next;
                    },
                    Err(_) => {
                        pos = pos + 2048;
                    },
                }
            } else {
                pos = pos + 2048;
            }
        }
        Ok(())
    }

    /// Scans the volume descriptor sequence of `length` bytes from block
    /// `start_lba` for the partition start.
    pub fn parse_volume_descriptor_sequence(&mut self, start_lba: u32, length: u32) -> (r: Result<
        (),
        DiskRipperError,
    >)
        requires
            old(self).wf(),
        ensures
            final(self).wf(),
            final(self).bytes() == old(self).bytes(),
            final(self).entries() == old(self).entries(),
            final(self).root() == old(self).root(),
            match vds_scan(
                old(self).bytes(),
                start_lba.wrapping_mul(2048) as int,
                start_lba.wrapping_mul(2048).wrapping_add(length) as int,
                old(self).partition(),
            ) {
                Ok(ps) => r is Ok && final(self).partition() == ps,
                Err(m) => r matches Err(e) && invalid_path(e, m),
            },
    {
        let mut offset: u32 = start_lba.wrapping_mul(self.block_size);
        let end: u32 = offset.wrapping_add(length);
        let ghost d = self.bytes();
        let ghost goal = vds_scan(d, offset as int, end as int, old(self).partition());
        while offset < end && (offset as u64) + 16 <= self.data.len() as u64
            invariant
                d == old(self).bytes(),
                goal == vds_scan(
                    d,
                    start_lba.wrapping_mul(2048) as int,
                    start_lba.wrapping_mul(2048).wrapping_add(length) as int,
                    old(self).partition(),
                ),
                end == start_lba.wrapping_mul(2048).wrapping_add(length),
                self.wf(),
                self.bytes() == d,
                self.entries() == old(self).entries(),
                self.root() == old(self).root(),
                vds_scan(d, offset as int, end as int, self.partition()) == goal,
            ensures
                self.wf(),
                self.bytes() == d,
                self.entries() == old(self).entries(),
                self.root() == old(self).root(),
                vds_scan(d, offset as int, end as int, self.partition()) == Ok::<
                    Option<u32>,
                    Seq<char>,
                >(self.partition()),
                goal == vds_scan(
                    d,
                    start_lba.wrapping_mul(2048) as int,
                    start_lba.wrapping_mul(2048).wrapping_add(length) as int,
                    old(self).partition(),
                ),
                vds_scan(d, offset as int, end as int, self.partition()) == goal,
            decreases (if offset <= self.data.len() {
                self.data.len() - offset + 1
            } else {
                0
            }),
        {
            let tag = match self.parse_descriptor_tag(offset) {
                Ok(t) => t,
                Err(e) => return Err(e),
            };
            if tag.tag_identifier == TAG_PARTITION_DESCRIPTOR {
                match self.parse_partition_descriptor(offset) {
                    Ok(pd) => {
                        self.partition_start = Some(pd.partition_start);
                    },
                    Err(e) => {
                        return Err(e);
                    },
                }
            } else if tag.tag_identifier == TAG_LOGICAL_VOLUME_DESCRIPTOR {
                match self.parse_logical_volume_descriptor(offset) {
                    Ok(p) => {
                        if self.partition_start.is_none() {
                            self.partition_start = Some(p.0);
                        }
                    },
                    Err(e) => {
                        return Err(e);
                    },
                }
            } else if tag.tag_identifier == TAG_TERMINATING_DESCRIPTOR {
                break;
            }
            let next: u64 = offset as u64 + self.block_size as u64;
            proof {
                assert(vds_scan(d, next as int, end as int, self.partition()) == goal);
            }
            offset = if next >= end as u64 {
                end
            } else {
                next as u32
            };
        }
        Ok(())
    }

    /// Reads the anchor volume descriptor pointer at `avdp_offset`, then
    /// the main volume descriptor sequence it points to.
    pub fn parse_anchor_vdp(&mut self, avdp_offset: u32) -> (r: Result<(), DiskRipperError>)
        requires
            old(self).wf(),
            avdp_offset <= old(self).bytes().len(),
        ensures
            final(self).wf(),
            final(self).bytes() == old(self).bytes(),
            final(self).entries() == old(self).entries(),
            final(self).root() == old(self).root(),
            match anchor_scan(old(self).bytes(), avdp_offset as int, old(self).partition()) {
                Ok(ps) => r is Ok && final(self).partition() == ps,
                Err(m) => r matches Err(e) && invalid_path(e, m),
            },
    {
        let off = avdp_offset as usize;
        if self.data.len() - off < 512 {
            proof {
                reveal_strlit("AVDP too short");
            }
            return Err(DiskRipperError::InvalidPath(owned("AVDP too short")));
        }
        let main = self.parse_extent_ad(slice_of(self.data.as_slice(), off + 16, off + 28).as_slice());
        self.parse_volume_descriptor_sequence(main.location, main.length)
    }
}

/// Whether some entry has the path `p`.
pub open spec fn has_path(es: Seq<FileEntryView>, p: Seq<char>) -> bool {
    exists|i: int| 0 <= i < es.len() && es[i].path == p
}

/// The data of the file `path` found through the root directory's first
/// file identifier: the block its ICB names, where that identifier names
/// the file.
pub open spec fn file_data(d: Seq<u8>, root: Option<ExtentAD>, path: Seq<char>) -> Option<Seq<u8>> {
    match root {
        Some(ri) => {
            let o = ri.location * 2048;
            if lba_block(d, ri.location).len() >= 38 && le16_at(d, o) == TAG_FILE_IDENTIFIER_DESCRIPTOR
                && fid_name_at(d, o) == path {
                Some(lba_block(d, extent_of(d.subrange(o + 20, o + 36)).location))
            } else {
                None
            }
        },
        None => None,
    }
}

/// A copy of an entry.
fn copy_entry(e: &FileEntry) -> (r: FileEntry)
    ensures
        r@ == e@,
{
    FileEntry {
        path: owned(e.path.as_str()),
        size: e.size,
        is_dir: e.is_dir,
        modified: e.modified,
        checksum_sha256: match &e.checksum_sha256 {
            Some(c) => Some(owned(c.as_str())),
            None => None,
        },
    }
}

impl UdfReader {
    /// The first file set descriptor among blocks 256, 512 and 1024.
    fn find_file_set(&self) -> (r: Option<u32>)
        requires
            self.wf(),
        ensures
            match fsd_offset(self.bytes()) {
                Some(o) => r == Some(o as u32),
                None => r is None,
            },
    {
        let len = self.data.len() as u64;
        let a: u32 = 256 * 2048;
        let b: u32 = 512 * 2048;
        let c: u32 = 1024 * 2048;
        if a as u64 + 16 <= len {
            if let Ok(t) = self.parse_descriptor_tag(a) {
                if t.tag_identifier == TAG_FILE_SET_DESCRIPTOR {
                    return Some(a);
                }
            }
        }
        if b as u64 + 16 <= len {
            if let Ok(t) = self.parse_descriptor_tag(b) {
                if t.tag_identifier == TAG_FILE_SET_DESCRIPTOR {
                    return Some(b);
                }
            }
        }
        if c as u64 + 16 <= len {
            if let Ok(t) = self.parse_descriptor_tag(c) {
                if t.tag_identifier == TAG_FILE_SET_DESCRIPTOR {
                    return Some(c);
                }
            }
        }
        None
    }

    /// Finds the root directory through the file set descriptor and reads
    /// its entries.
    pub fn parse_root_directory(&mut self) -> (r: Result<(), DiskRipperError>)
        requires
            old(self).wf(),
        ensures
            final(self).wf(),
            final(self).bytes() == old(self).bytes(),
            final(self).partition() == old(self).partition(),
            match root_scan(old(self).bytes(), old(self).root(), old(self).entries()) {
                Ok(found) => r is Ok && final(self).root() == found.0 && final(self).entries()
                    == found.1,
                Err(m) => r matches Err(e) && invalid_path(e, m),
            },
    {
        match self.find_file_set() {
            Some(off) => {
                match self.parse_file_set_descriptor(off) {
                    Ok(icb) => {
                        self.root_icb = Some(icb);
                    },
                    Err(e) => {
                        return Err(e);
                    },
                }
            },
            None => {},
        }
        match self.root_icb {
            Some(icb) => self.read_directory_entries(icb.location),
            None => Ok(()),
        }
    }

    /// Reads the volume: the anchor and volume descriptors for the
    /// partition, then the root directory.
    pub fn read_volume(&mut self) -> (r: Result<VolumeInfo, DiskRipperError>)
        requires
            old(self).wf(),
        ensures
            final(self).wf(),
            final(self).bytes() == old(self).bytes(),
            ({
                let d = old(self).bytes();
                let first = match avdp_offset(d) {
                    Some(o) => anchor_scan(d, o, old(self).partition()),
                    None => Ok(old(self).partition()),
                };
                match first {
                    Err(m) => r matches Err(e) && invalid_path(e, m),
                    Ok(ps) => final(self).partition() == ps && match root_scan(
                        d,
                        old(self).root(),
                        old(self).entries(),
                    ) {
                        Err(m) => r matches Err(e) && invalid_path(e, m),
                        Ok(found) => {
                            &&& final(self).root() == found.0
                            &&& final(self).entries() == found.1
                            &&& r matches Ok(v) && v.volume_id@ == "UDF Volume"@ && v.system_id@
                                == "UDF"@ && v.volume_size == d.len() && v.block_size == 2048
                                && v.files_used == found.1.len() && v.fs_type
                                == FilesystemType::Udf
                        },
                    },
                }
            }),
    {
        let len = self.data.len() as u64;
        let blocks: u32 = (self.data.len() as u32) / 2048;
        let last: u32 = if blocks >= 1 {
            blocks - 1
        } else {
            0
        };
        let locations: [u32; 3] = [256, 512, last];
        let mut found: Option<u32> = None;
        let mut k: usize = 0;
        while k < 3
            invariant_except_break
                found is None,
            invariant
                self == old(self),
                self.wf(),
                len == self.data@.len(),
                locations@ == seq![256u32, 512u32, last],
                last == (if (self.data@.len() as u32) / 2048 >= 1 {
                    (self.data@.len() as u32) / 2048 - 1
                } else {
                    0
                }),
                k <= 3,
                forall|j: int|
                    0 <= j < k ==> !(locations@[j] * 2048 + 16 <= self.data@.len() && le16_at(
                        self.data@,
                        locations@[j] * 2048,
                    ) == TAG_ANCHOR_VOLUME_DESCRIPTOR_POINTER),
            ensures
                self == old(self),
                self.wf(),
                found matches Some(o) ==> avdp_offset(self.data@) == Some(o as int) && o
                    <= self.data@.len(),
                found is None ==> avdp_offset(self.data@) is None,
            decreases 3 - k,
        {
            let off: u32 = locations[k] * 2048;
            if off as u64 + 16 <= len {
                if let Ok(t) = self.parse_descriptor_tag(off) {
                    if t.tag_identifier == TAG_ANCHOR_VOLUME_DESCRIPTOR_POINTER {
                        found = Some(off);
                        break;
                    }
                }
            }
            k = k + 1;
        }
        match found {
            Some(off) => {
                match self.parse_anchor_vdp(off) {
                    Ok(()) => {},
                    Err(e) => {
                        return Err(e);
                    },
                }
            },
            None => {},
        }
        match self.parse_root_directory() {
            Ok(()) => {},
            Err(e) => {
                return Err(e);
            },
        }
        proof {
            reveal_strlit("UDF Volume");
            reveal_strlit("UDF");
        }
        Ok(
            VolumeInfo {
                volume_id: owned("UDF Volume"),
                system_id: owned("UDF"),
                volume_size: self.data.len() as u64,
                block_size: self.block_size,
                files_used: self.root_entries.len() as u64,
                fs_type: FilesystemType::Udf,
            },
        )
    }

    /// The root directory's entries (every path lists them).
    pub fn read_directory(&self, _path: &str) -> (r: Vec<FileEntry>)
        ensures
            entry_views(r@) == self.entries(),
    {
        self.list_files()
    }

    /// The root directory's entries.
    pub fn list_files(&self) -> (r: Vec<FileEntry>)
        ensures
            entry_views(r@) == self.entries(),
    {
        let mut out: Vec<FileEntry> = Vec::new();
        let mut i: usize = 0;
        while i < self.root_entries.len()
            invariant
                i <= self.root_entries@.len(),
                entry_views(out@) == entry_views(self.root_entries@).subrange(0, i as int),
            decreases self.root_entries.len() - i,
        {
            let e = copy_entry(&self.root_entries[i]);
            let ghost before = out@;
            out.push(e);
            proof {
                assert(out@ == before.push(e));
                assert(entry_views(out@) =~= entry_views(before).push(e@));
                assert(entry_views(out@) =~= entry_views(self.root_entries@).subrange(0, i + 1));
            }
            i = i + 1;
        }
        proof {
            assert(entry_views(self.root_entries@).subrange(0, i as int) =~= entry_views(
                self.root_entries@,
            ));
        }
        out
    }

    /// The data of the file at `path`: an error where it is not among the
    /// root entries, or where the root directory's first identifier does
    /// not lead to it.
    pub fn read_file(&self, path: &str) -> (r: Result<Vec<u8>, DiskRipperError>)
        requires
            self.wf(),
        ensures
            !has_path(self.entries(), path@) ==> (r matches Err(DiskRipperError::ReadError(m))
                && m@ == "File not in directory: "@ + path@),
            has_path(self.entries(), path@) ==> match file_data(self.bytes(), self.root(), path@) {
                Some(b) => r matches Ok(v) && v@ == b,
                None => r matches Err(DiskRipperError::ReadError(m)) && m@ == "File not found: "@
                    + path@,
            },
    {
        let mut known = false;
        let mut i: usize = 0;
        let ghost es = entry_views(self.root_entries@);
        while i < self.root_entries.len()
            invariant
                i <= self.root_entries@.len(),
                es == entry_views(self.root_entries@),
                known == (exists|j: int| 0 <= j < i && #[trigger] es[j].path == path@),
            decreases self.root_entries.len() - i,
        {
            proof {
                assert(es[i as int] == self.root_entries@[i as int]@);
            }
            if str_eq(self.root_entries[i].path.as_str(), path) {
                known = true;
                proof {
                    assert(es[i as int].path == path@);
                }
            } else {
                proof {
                    assert(es[i as int].path != path@);
                    assert forall|j: int| 0 <= j < i + 1 && #[trigger] es[j].path == path@ implies j
                        < i by {}
                }
            }
            i = i + 1;
        }
        if !known {
            return Err(DiskRipperError::ReadError(crate::text::concat("File not in directory: ", path)));
        }
        match self.root_icb {
            Some(ri) => {
                let block = self.read_lba(ri.location);
                if block.len() >= 38 {
                    let n = self.data.len();
                    proof {
                        assert(ri.location * 2048 < n);
                    }
                    let off: usize = (ri.location as u64 * 2048) as usize;
                    proof {
                        assert(off as int == ri.location * 2048);
                        assert(rest(self.bytes(), off as int) >= 38);
                    }
                    if read_le_u16(self.data.as_slice(), off) == TAG_FILE_IDENTIFIER_DESCRIPTOR {
                        {
                            if let Ok(fid) = self.fid_at(off) {
                                if str_eq(fid.file_identifier.as_str(), path) {
                                    return Ok(self.read_lba(fid.icb.location));
                                }
                            }
                        }
                    }
                }
            },
            None => {},
        }
        Err(DiskRipperError::ReadError(crate::text::concat("File not found: ", path)))
    }
}

/// The bytes of `d` from `start` to `end`.
fn slice_of(d: &[u8], start: usize, end: usize) -> (r: Vec<u8>)
    requires
        start <= end <= d@.len(),
    ensures
        r@ == d@.subrange(start as int, end as int),
{
    let mut r: Vec<u8> = Vec::new();
    let mut i = start;
    while i < end
        invariant
            start <= i <= end <= d@.len(),
            r@ == d@.subrange(start as int, i as int),
        decreases end - i,
    {
        r.push(d[i]);
        proof {
            assert(r@ =~= d@.subrange(start as int, i + 1));
        }
        i = i + 1;
    }
    r
}

} // verus!

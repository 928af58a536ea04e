//! CD-Text parsing and the disc identifiers used by the MusicBrainz and
//! freedb databases.
//!
//! CD-Text is album and track metadata stored in packs of 18 bytes in the
//! R-W subchannels of a compact disc.
use std::collections::HashMap;
use vstd::prelude::*;
use vstd::slice::slice_subrange;
use crate::error::DiskRipperError;
use crate::text::{
    chars_of, dec_digits, dec_padded, decode_utf8_lossy, hex_digits, owned, push_dec, push_hex, string_of,
    trim_end_char, trim_end_char_vec, trim_ws, trim_ws_vec, utf8_lossy,
};

verus! {

broadcast use vstd::std_specs::hash::group_hash_axioms;

pub const CDTEXT_PACK_TITLE: u8 = 0x80;
const CDTEXT_PACK_PERFORMER: u8 = 0x81;
const CDTEXT_PACK_SONGWRITER: u8 = 0x82;
const CDTEXT_PACK_COMPOSER: u8 = 0x83;
const CDTEXT_PACK_ARRANGER: u8 = 0x84;
const CDTEXT_PACK_MESSAGE: u8 = 0x85;
const CDTEXT_PACK_DISC_ID: u8 = 0x86;
const CDTEXT_PACK_GENRE: u8 = 0x87;
const CDTEXT_PACK_UPC_EAN: u8 = 0x8E;

/// CD-Text information for a disc.
#[derive(Debug, Clone)]
pub struct CdTextInfo {
    pub title: Option<String>,
    pub performer: Option<String>,
    pub songwriter: Option<String>,
    pub composer: Option<String>,
    pub arranger: Option<String>,
    pub message: Option<String>,
    pub disc_id: Option<String>,
    pub genre: Option<String>,
    pub upc_ean: Option<String>,
    /// Per-track titles by track number.
    pub track_titles: HashMap<u8, String>,
    /// Per-track performers by track number.
    pub track_performers: HashMap<u8, String>,
}

/// The value of a [`CdTextInfo`], strings taken as characters.
pub struct CdTextView {
    pub title: Option<Seq<char>>,
    pub performer: Option<Seq<char>>,
    pub songwriter: Option<Seq<char>>,
    pub composer: Option<Seq<char>>,
    pub arranger: Option<Seq<char>>,
    pub message: Option<Seq<char>>,
    pub disc_id: Option<Seq<char>>,
    pub genre: Option<Seq<char>>,
    pub upc_ean: Option<Seq<char>>,
    pub track_titles: Map<u8, Seq<char>>,
    pub track_performers: Map<u8, Seq<char>>,
}

/// An optional string taken as characters.
pub open spec fn opt_chars(o: Option<String>) -> Option<Seq<char>> {
    match o {
        Some(s) => Some(s@),
        None => None,
    }
}

/// A map of strings taken as characters.
pub open spec fn text_map(m: Map<u8, String>) -> Map<u8, Seq<char>> {
    m.map_values(|s: String| s@)
}

impl View for CdTextInfo {
    type V = CdTextView;

    open spec fn view(&self) -> CdTextView {
        CdTextView {
            title: opt_chars(self.title),
            performer: opt_chars(self.performer),
            songwriter: opt_chars(self.songwriter),
            composer: opt_chars(self.composer),
            arranger: opt_chars(self.arranger),
            message: opt_chars(self.message),
            disc_id: opt_chars(self.disc_id),
            genre: opt_chars(self.genre),
            upc_ean: opt_chars(self.upc_ean),
            track_titles: text_map(self.track_titles@),
            track_performers: text_map(self.track_performers@),
        }
    }
}

/// CD-Text with no field set.
pub open spec fn empty_cdtext() -> CdTextView {
    CdTextView {
        title: None,
        performer: None,
        songwriter: None,
        composer: None,
        arranger: None,
        message: None,
        disc_id: None,
        genre: None,
        upc_ean: None,
        track_titles: Map::empty(),
        track_performers: Map::empty(),
    }
}

impl Default for CdTextInfo {
    fn default() -> (r: Self)
        ensures
            r@ == empty_cdtext(),
    {
        let r = CdTextInfo {
            title: None,
            performer: None,
            songwriter: None,
            composer: None,
            arranger: None,
            message: None,
            disc_id: None,
            genre: None,
            upc_ean: None,
            track_titles: HashMap::new(),
            track_performers: HashMap::new(),
        };
        proof {
            assert(text_map(r.track_titles@) =~= Map::<u8, Seq<char>>::empty());
            assert(text_map(r.track_performers@) =~= Map::<u8, Seq<char>>::empty());
        }
        r
    }
}

/// An optional string borrowed as characters.
pub open spec fn opt_str(o: Option<&str>) -> Option<Seq<char>> {
    match o {
        Some(s) => Some(s@),
        None => None,
    }
}

impl CdTextInfo {
    /// The title of track `track_number`, else the disc title.
    pub fn get_track_title(&self, track_number: u8) -> (r: Option<&str>)
        ensures
            opt_str(r) == if self@.track_titles.contains_key(track_number) {
                Some(self@.track_titles[track_number])
            } else {
                self@.title
            },
    {
        match self.track_titles.get(&track_number) {
            Some(s) => Some(s.as_str()),
            None => match &self.title {
                Some(t) => Some(t.as_str()),
                None => None,
            },
        }
    }

    /// The performer of track `track_number`, else the disc performer.
    pub fn get_track_performer(&self, track_number: u8) -> (r: Option<&str>)
        ensures
            opt_str(r) == if self@.track_performers.contains_key(track_number) {
                Some(self@.track_performers[track_number])
            } else {
                self@.performer
            },
    {
        match self.track_performers.get(&track_number) {
            Some(s) => Some(s.as_str()),
            None => match &self.performer {
                Some(t) => Some(t.as_str()),
                None => None,
            },
        }
    }
}

/// The text of pack `i`: its twelve data bytes decoded, trailing NULs and
/// surrounding whitespace removed.
pub open spec fn pack_text(raw: Seq<u8>, i: int) -> Seq<char> {
    trim_ws(trim_end_char(utf8_lossy(raw.subrange(i * 18 + 4, i * 18 + 16)), '\0'))
}

/// CD-Text after one pack of type `kind` for track `track` with `text`. An
/// empty text changes nothing; titles and performers of tracks other than
/// 0 go to the per-track maps; the other disc-wide fields are taken only
/// from track 0; unknown types are ignored.
pub open spec fn apply_pack(info: CdTextView, kind: u8, track: u8, text: Seq<char>) -> CdTextView {
    if text.len() == 0 {
        info
    } else if kind == 0x80 {
        if track == 0 {
            CdTextView { title: Some(text), ..info }
        } else {
            CdTextView { track_titles: info.track_titles.insert(track, text), ..info }
        }
    } else if kind == 0x81 {
        if track == 0 {
            CdTextView { performer: Some(text), ..info }
        } else {
            CdTextView { track_performers: info.track_performers.insert(track, text), ..info }
        }
    } else if track != 0 {
        info
    } else if kind == 0x82 {
        CdTextView { songwriter: Some(text), ..info }
    } else if kind == 0x83 {
        CdTextView { composer: Some(text), ..info }
    } else if kind == 0x84 {
        CdTextView { arranger: Some(text), ..info }
    } else if kind == 0x85 {
        CdTextView { message: Some(text), ..info }
    } else if kind == 0x86 {
        CdTextView { disc_id: Some(text), ..info }
    } else if kind == 0x87 {
        CdTextView { genre: Some(text), ..info }
    } else if kind == 0x8E {
        CdTextView { upc_ean: Some(text), ..info }
    } else {
        info
    }
}

/// What one CD-Text pack with non-empty text does: a disc-wide pack (track
/// 0) of type 0x80 sets the title, 0x81 the performer, 0x82 the songwriter,
/// 0x83 the composer, 0x84 the arranger, 0x85 the message, 0x86 the disc id,
/// 0x87 the genre and 0x8E the UPC/EAN, and changes nothing else; a pack for
/// another track puts a title (0x80) or performer (0x81) under that track
/// number and is otherwise ignored; a pack with empty text changes nothing.
pub proof fn law_cdtext_pack_fields(info: CdTextView, kind: u8, track: u8, text: Seq<char>)
    ensures
        text.len() == 0 ==> apply_pack(info, kind, track, text) == info,
        text.len() > 0 && track == 0 ==> apply_pack(info, kind, track, text) == (if kind == 0x80 {
            CdTextView { title: Some(text), ..info }
        } else if kind == 0x81 {
            CdTextView { performer: Some(text), ..info }
        } else if kind == 0x82 {
            CdTextView { songwriter: Some(text), ..info }
        } else if kind == 0x83 {
            CdTextView { composer: Some(text), ..info }
        } else if kind == 0x84 {
            CdTextView { arranger: Some(text), ..info }
        } else if kind == 0x85 {
            CdTextView { message: Some(text), ..info }
        } else if kind == 0x86 {
            CdTextView { disc_id: Some(text), ..info }
        } else if kind == 0x87 {
            CdTextView { genre: Some(text), ..info }
        } else if kind == 0x8E {
            CdTextView { upc_ean: Some(text), ..info }
        } else {
            info
        }),
        text.len() > 0 && track != 0 ==> apply_pack(info, kind, track, text) == (if kind == 0x80 {
            CdTextView { track_titles: info.track_titles.insert(track, text), ..info }
        } else if kind == 0x81 {
            CdTextView { track_performers: info.track_performers.insert(track, text), ..info }
        } else {
            info
        }),
{
}

/// A disc-wide songwriter pack (0x82) and a composer pack (0x83) fill
/// different fields: after both, the songwriter is the first one's text and
/// the composer the second one's, in either order.
pub proof fn law_songwriter_and_composer(info: CdTextView, writer: Seq<char>, composer: Seq<char>)
    requires
        writer.len() > 0,
        composer.len() > 0,
    ensures
        apply_pack(apply_pack(info, 0x82, 0, writer), 0x83, 0, composer).songwriter == Some(writer),
        apply_pack(apply_pack(info, 0x82, 0, writer), 0x83, 0, composer).composer == Some(composer),
        apply_pack(apply_pack(info, 0x83, 0, composer), 0x82, 0, writer).songwriter == Some(writer),
        apply_pack(apply_pack(info, 0x83, 0, composer), 0x82, 0, writer).composer == Some(composer),
{
    law_cdtext_pack_fields(info, 0x82, 0, writer);
    law_cdtext_pack_fields(apply_pack(info, 0x82, 0, writer), 0x83, 0, composer);
    law_cdtext_pack_fields(info, 0x83, 0, composer);
    law_cdtext_pack_fields(apply_pack(info, 0x83, 0, composer), 0x82, 0, writer);
}

/// CD-Text from the first `n` packs of `raw`, in order.
pub open spec fn parse_packs(raw: Seq<u8>, n: nat) -> CdTextView
    decreases n,
{
    if n == 0 {
        empty_cdtext()
    } else {
        let i = n - 1;
        apply_pack(parse_packs(raw, (n - 1) as nat), raw[i * 18], raw[i * 18 + 1], pack_text(raw, i))
    }
}

/// Parser of raw CD-Text data.
pub struct CdTextParser;

impl CdTextParser {
    /// Parses CD-Text from raw subchannel data: whole packs of 18 bytes
    /// (type, track, sequence number, character position, 12 data bytes,
    /// CRC), a trailing partial pack ignored.
    pub fn parse(raw_data: &[u8]) -> (r: Result<CdTextInfo, DiskRipperError>)
        ensures
            raw_data@.len() < 18 ==> (r matches Err(DiskRipperError::InvalidPath(m)) && m@
                == "CD-Text data too short"@),
            raw_data@.len() >= 18 ==> (r matches Ok(info) && info@ == parse_packs(
                raw_data@,
                raw_data@.len() / 18,
            )),
    {
        if raw_data.len() < 18 {
            return Err(DiskRipperError::InvalidPath(owned("CD-Text data too short")));
        }
        let mut info = CdTextInfo::default();
        let n = raw_data.len();
        let num_packs = n / 18;
        let mut i: usize = 0;
        while i < num_packs
            invariant
                i <= num_packs,
                n == raw_data@.len(),
                num_packs == n / 18,
                info@ == parse_packs(raw_data@, i as nat),
            decreases num_packs - i,
        {
            proof {
                assert(i * 18 + 18 <= raw_data@.len()) by (nonlinear_arith)
                    requires
                        i < num_packs,
                        num_packs == n / 18,
                        n == raw_data@.len(),
                ;
            }
            let offset = i * 18;
            let pack_type = raw_data[offset];
            let track_number = raw_data[offset + 1];
            let decoded = decode_utf8_lossy(slice_subrange(raw_data, offset + 4, offset + 16));
            proof {
                assert(raw_data@.subrange(offset + 4, offset + 16) =~= raw_data@.subrange(
                    i * 18 + 4,
                    i * 18 + 16,
                ));
            }
            Self::apply_decoded_pack(&mut info, pack_type, track_number, decoded.as_str());
            i = i + 1;
        }
        Ok(info)
    }

    /// Applies one pack whose twelve data bytes decoded to `decoded`: the
    /// text, trailing NULs and surrounding whitespace removed, goes where
    /// the pack's type and track say.
    pub fn apply_decoded_pack(info: &mut CdTextInfo, pack_type: u8, track_number: u8, decoded: &str)
        ensures
            final(info)@ == apply_pack(
                old(info)@,
                pack_type,
                track_number,
                trim_ws(trim_end_char(decoded@, '\0')),
            ),
    {
        let mut v = chars_of(decoded);
        trim_end_char_vec(&mut v, '\0');
        let t = trim_ws_vec(&v);
        let ghost before = info@;
        let ghost text = trim_ws(trim_end_char(decoded@, '\0'));
        if t.len() > 0 {
            let text_s = string_of(t.as_slice());
            if pack_type == CDTEXT_PACK_TITLE {
                if track_number == 0 {
                    info.title = Some(text_s);
                } else {
                    info.track_titles.insert(track_number, text_s);
                    proof {
                        assert(text_map(info.track_titles@) =~= before.track_titles.insert(
                            track_number,
                            text,
                        ));
                    }
                }
            } else if pack_type == CDTEXT_PACK_PERFORMER {
                if track_number == 0 {
                    info.performer = Some(text_s);
                } else {
                    info.track_performers.insert(track_number, text_s);
                    proof {
                        assert(text_map(info.track_performers@)
                            =~= before.track_performers.insert(track_number, text));
                    }
                }
            } else if track_number == 0 {
                if pack_type == CDTEXT_PACK_SONGWRITER {
                    info.songwriter = Some(text_s);
                } else if pack_type == CDTEXT_PACK_COMPOSER {
                    info.composer = Some(text_s);
                } else if pack_type == CDTEXT_PACK_ARRANGER {
                    info.arranger = Some(text_s);
                } else if pack_type == CDTEXT_PACK_MESSAGE {
                    info.message = Some(text_s);
                } else if pack_type == CDTEXT_PACK_DISC_ID {
                    info.disc_id = Some(text_s);
                } else if pack_type == CDTEXT_PACK_GENRE {
                    info.genre = Some(text_s);
                } else if pack_type == CDTEXT_PACK_UPC_EAN {
                    info.upc_ean = Some(text_s);
                }
            }
        }
    }

    /// Reads CD-Text from a drive. Reading the R-W subchannels is not
    /// implemented: the result is always empty CD-Text.
    pub fn extract_from_drive(_drive_path: &str) -> (r: Result<CdTextInfo, DiskRipperError>)
        ensures
            r matches Ok(info) && info@ == empty_cdtext(),
    {
        Ok(CdTextInfo::default())
    }
}


/// The sum of the decimal digits of `n`.
pub open spec fn digit_sum(n: nat) -> nat
    decreases n,
{
    if n == 0 {
        0
    } else {
        n % 10 + digit_sum(n / 10)
    }
}

/// The sum of the decimal digits of all offsets.
pub open spec fn digit_total(s: Seq<u32>) -> nat
    decreases s.len(),
{
    if s.len() == 0 {
        0
    } else {
        digit_total(s.drop_last()) + digit_sum(s.last() as nat)
    }
}

/// A prefix's digit total is at most the whole total.
proof fn lemma_digit_total_prefix(s: Seq<u32>, k: int)
    requires
        0 <= k <= s.len(),
    ensures
        digit_total(s.subrange(0, k)) <= digit_total(s),
    decreases s.len(),
{
    if k < s.len() {
        lemma_digit_total_prefix(s.drop_last(), k);
        assert(s.drop_last().subrange(0, k) =~= s.subrange(0, k));
    } else {
        assert(s.subrange(0, k) =~= s);
    }
}

/// The freedb disc id: the digit total modulo 255 in the top byte, the
/// length in frames shifted left by 8 (bits beyond 32 dropped), and the
/// track count in the low bits.
pub open spec fn freedb_id(offsets: Seq<u32>, seconds: u32) -> u32 {
    (((digit_total(offsets) % 0xFF) as u32) << 24u32) | (((seconds * 75) as u32) << 8u32) | (
    offsets.len() as u32)
}

/// freedb metadata lookup.
pub struct FreedbLookup;

/// MusicBrainz metadata lookup.
pub struct MusicBrainzLookup;

/// What the freedb database records of a disc.
#[derive(Debug, Clone)]
pub struct FreedbEntry {
    pub title: String,
    pub artist: String,
    pub genre: Option<String>,
    pub track_count: u8,
}

/// What the MusicBrainz database records of a release.
#[derive(Debug, Clone)]
pub struct MusicBrainzRelease {
    pub title: String,
    pub artist: Option<String>,
    pub year: Option<u32>,
    pub track_count: u8,
}

impl FreedbLookup {
    /// Looks a disc up in freedb. The query is not implemented: the lookup
    /// always fails.
    pub fn lookup_disc(_disc_id: &str, _category: Option<&str>) -> (r: Result<
        FreedbEntry,
        DiskRipperError,
    >)
        ensures
            r matches Err(DiskRipperError::UnsupportedDisc(m)) && m@
                == "FreeDB lookup not yet implemented"@,
    {
        Err(DiskRipperError::UnsupportedDisc(owned("FreeDB lookup not yet implemented")))
    }

    /// The freedb disc id of tracks starting at `track_offsets` on a disc
    /// of `total_length_seconds`, as eight lower-case hexadecimal digits.
    pub fn calculate_disc_id(track_offsets: &[u32], total_length_seconds: u32) -> (r: String)
        requires
            digit_total(track_offsets@) <= u32::MAX,
            total_length_seconds * 75 <= u32::MAX,
        ensures
            r@ == hex_digits(freedb_id(track_offsets@, total_length_seconds) as nat, 8, false),
    {
        let mut sum: u32 = 0;
        let mut i: usize = 0;
        while i < track_offsets.len()
            invariant
                i <= track_offsets@.len(),
                digit_total(track_offsets@) <= u32::MAX,
                sum == digit_total(track_offsets@.subrange(0, i as int)),
            decreases track_offsets.len() - i,
        {
            proof {
                lemma_digit_total_prefix(track_offsets@, i + 1);
                assert(track_offsets@.subrange(0, i + 1).drop_last() =~= track_offsets@.subrange(
                    0,
                    i as int,
                ));
            }
            let mut n = track_offsets[i];
            while n > 0
                invariant
                    sum + digit_sum(n as nat) == digit_total(track_offsets@.subrange(0, i + 1)),
                    digit_total(track_offsets@.subrange(0, i + 1)) <= u32::MAX,
                decreases n,
            {
                sum = sum + n % 10;
                n = n / 10;
            }
            i = i + 1;
        }
        proof {
            assert(track_offsets@.subrange(0, i as int) =~= track_offsets@);
        }
        let total_length_frames = total_length_seconds * 75;
        let disc_id: u32 = ((sum % 0xFF) << 24u32) | (total_length_frames << 8u32) | (
        track_offsets.len() as u32);
        let mut out: Vec<char> = Vec::new();
        push_hex(&mut out, disc_id as u64, 8, false);
        proof {
            assert(out@ =~= hex_digits(disc_id as nat, 8, false));
        }
        string_of(out.as_slice())
    }
}

/// The SHA-1 digest of a byte sequence.
pub uninterp spec fn sha1_of(bytes: Seq<u8>) -> Seq<u8>;

/// `sha1::Sha1` through `Digest::digest`: the contract names the digest of
/// the bytes and states its length of 20 bytes.
#[verifier::external_body]
fn sha1_digest(bytes: &[u8]) -> (r: Vec<u8>)
    ensures
        r@ == sha1_of(bytes@),
        r@.len() == 20,
{
    <sha1::Sha1 as sha1::Digest>::digest(bytes).to_vec()
}

/// The standard (padded) base64 encoding of a byte sequence.
pub uninterp spec fn base64_standard(bytes: Seq<u8>) -> Seq<char>;

/// `base64::Engine::encode` with the `STANDARD` engine: the contract names
/// the encoding of the bytes. Inputs whose encoded length would overflow
/// `usize` are excluded, as `encode` panics on them.
#[verifier::external_body]
fn base64_encode(bytes: &[u8]) -> (r: String)
    requires
        bytes@.len() <= 0x3000_0000,
    ensures
        r@ == base64_standard(bytes@),
{
    base64::Engine::encode(&base64::engine::general_purpose::STANDARD, bytes)
}

/// Upper-case eight-digit hexadecimal text of each offset, concatenated.
pub open spec fn offsets_hex(offsets: Seq<u32>) -> Seq<char>
    decreases offsets.len(),
{
    if offsets.len() == 0 {
        seq![]
    } else {
        offsets_hex(offsets.drop_last()) + hex_digits(offsets.last() as nat, 8, true)
    }
}

/// The text hashed for a MusicBrainz disc id: first and last track as two
/// decimal digits, then the lead-out and every track offset as eight
/// upper-case hexadecimal digits.
pub open spec fn mb_input(first: u8, last: u8, lead_out: u32, offsets: Seq<u32>) -> Seq<char> {
    dec_padded(first as nat, 2) + dec_padded(last as nat, 2) + hex_digits(lead_out as nat, 8, true)
        + offsets_hex(offsets)
}

/// The text hashed for a MusicBrainz disc id begins with the first track
/// number as two decimal digits and then the last track number as two
/// decimal digits (for tracks 1 to 3, "0103"); the lead-out offset follows
/// as eight hexadecimal digits, and each track offset adds eight more.
pub proof fn law_mb_input_track_numbers(first: u8, last: u8, lead_out: u32, offsets: Seq<u32>)
    requires
        first < 100,
        last < 100,
    ensures
        mb_input(first, last, lead_out, offsets).len() == 12 + 8 * offsets.len(),
        mb_input(first, last, lead_out, offsets)[0] == (48 + first / 10) as char,
        mb_input(first, last, lead_out, offsets)[1] == (48 + first % 10) as char,
        mb_input(first, last, lead_out, offsets)[2] == (48 + last / 10) as char,
        mb_input(first, last, lead_out, offsets)[3] == (48 + last % 10) as char,
{
    lemma_two_digits(first as nat);
    lemma_two_digits(last as nat);
    lemma_offsets_hex_len(offsets);
    let a = dec_padded(first as nat, 2);
    let b = dec_padded(last as nat, 2);
    let h = hex_digits(lead_out as nat, 8, true);
    lemma_hex_digits_len(lead_out as nat, 8, true);
    let s = mb_input(first, last, lead_out, offsets);
    assert(s == a + b + h + offsets_hex(offsets));
    assert(s[0] == a[0]);
    assert(s[1] == a[1]);
    assert(s[2] == b[0]);
    assert(s[3] == b[1]);
}

/// After the track numbers, the hashed text holds the lead-out offset and
/// then each track offset in order, each as eight upper-case hexadecimal
/// digits.
pub proof fn law_mb_input_offsets(first: u8, last: u8, lead_out: u32, offsets: Seq<u32>)
    requires
        first < 100,
        last < 100,
    ensures
        mb_input(first, last, lead_out, offsets).subrange(4, 12) == hex_digits(lead_out as nat, 8, true),
        forall|i: int|
            0 <= i < offsets.len() ==> mb_input(first, last, lead_out, offsets).subrange(
                12 + 8 * i,
                20 + 8 * i,
            ) == hex_digits(#[trigger] offsets[i] as nat, 8, true),
{
    lemma_two_digits(first as nat);
    lemma_two_digits(last as nat);
    lemma_hex_digits_len(lead_out as nat, 8, true);
    lemma_offsets_hex_len(offsets);
    let tens = dec_padded(first as nat, 2);
    let a = tens + dec_padded(last as nat, 2);
    let h = hex_digits(lead_out as nat, 8, true);
    let s = mb_input(first, last, lead_out, offsets);
    assert(s == a + h + offsets_hex(offsets));
    assert(s.subrange(4, 12) =~= h);
    assert forall|i: int| 0 <= i < offsets.len() implies s.subrange(12 + 8 * i, 20 + 8 * i)
        == hex_digits(#[trigger] offsets[i] as nat, 8, true) by {
        lemma_offsets_hex_at(offsets, i);
        assert(s.subrange(12 + 8 * i, 20 + 8 * i) =~= offsets_hex(offsets).subrange(8 * i, 8 * i + 8));
    }
}

/// The digits of offset `i` stand at `8i` in the digits of all offsets.
proof fn lemma_offsets_hex_at(offsets: Seq<u32>, i: int)
    requires
        0 <= i < offsets.len(),
    ensures
        offsets_hex(offsets).len() == 8 * offsets.len(),
        offsets_hex(offsets).subrange(8 * i, 8 * i + 8) == hex_digits(offsets[i] as nat, 8, true),
    decreases offsets.len(),
{
    lemma_offsets_hex_len(offsets);
    let init = offsets.drop_last();
    lemma_offsets_hex_len(init);
    lemma_hex_digits_len(offsets.last() as nat, 8, true);
    if i < offsets.len() - 1 {
        lemma_offsets_hex_at(init, i);
        assert(offsets_hex(offsets).subrange(8 * i, 8 * i + 8) =~= offsets_hex(init).subrange(
            8 * i,
            8 * i + 8,
        ));
        assert(init[i] == offsets[i]);
    } else {
        assert(offsets_hex(offsets).subrange(8 * i, 8 * i + 8) =~= hex_digits(
            offsets.last() as nat,
            8,
            true,
        ));
    }
}

/// A number below 100 padded to two decimal digits: its tens, then its
/// units.
proof fn lemma_two_digits(n: nat)
    requires
        n < 100,
    ensures
        dec_padded(n, 2) == seq![(48 + n / 10) as char, (48 + n % 10) as char],
{
    reveal_with_fuel(dec_digits, 2);
    if n < 10 {
        assert(dec_digits(n) == seq![(48 + n) as char]);
        assert(dec_padded(n, 2) =~= seq![(48 + n / 10) as char, (48 + n % 10) as char]);
    } else {
        assert(dec_digits(n / 10) == seq![(48 + n / 10) as char]);
        assert(dec_padded(n, 2) =~= seq![(48 + n / 10) as char, (48 + n % 10) as char]);
    }
}

/// `hex_digits` gives exactly `width` digits.
proof fn lemma_hex_digits_len(x: nat, width: nat, upper: bool)
    ensures
        hex_digits(x, width, upper).len() == width,
    decreases width,
{
    if width > 0 {
        lemma_hex_digits_len(x / 16, (width - 1) as nat, upper);
    }
}

/// Each offset adds eight hexadecimal digits.
proof fn lemma_offsets_hex_len(offsets: Seq<u32>)
    ensures
        offsets_hex(offsets).len() == 8 * offsets.len(),
    decreases offsets.len(),
{
    if offsets.len() > 0 {
        lemma_offsets_hex_len(offsets.drop_last());
        lemma_hex_digits_len(offsets.last() as nat, 8, true);
    }
}

/// The bytes of text whose characters are all ASCII.
pub open spec fn ascii_bytes(s: Seq<char>) -> Seq<u8> {
    s.map_values(|c: char| c as u8)
}

/// Base64 made safe for URLs the MusicBrainz way: `+` becomes `.`, `/`
/// becomes `_` and `=` becomes `-`.
pub open spec fn mb_escape_char(c: char) -> char {
    if c == '+' {
        '.'
    } else if c == '/' {
        '_'
    } else if c == '=' {
        '-'
    } else {
        c
    }
}

/// The MusicBrainz disc id of a table of contents.
pub open spec fn mb_disc_id(first: u8, last: u8, lead_out: u32, offsets: Seq<u32>) -> Seq<char> {
    base64_standard(sha1_of(ascii_bytes(mb_input(first, last, lead_out, offsets)))).map_values(
        |c: char| mb_escape_char(c),
    )
}

impl MusicBrainzLookup {
    /// Looks a disc up in MusicBrainz. The query is not implemented: the
    /// lookup always fails.
    pub fn lookup_disc(_disc_id: &str) -> (r: Result<MusicBrainzRelease, DiskRipperError>)
        ensures
            r matches Err(DiskRipperError::UnsupportedDisc(m)) && m@
                == "MusicBrainz lookup not yet implemented"@,
    {
        Err(DiskRipperError::UnsupportedDisc(owned("MusicBrainz lookup not yet implemented")))
    }

    /// The MusicBrainz disc id: SHA-1 of the track layout text, base64
    /// encoded with `+`, `/` and `=` replaced.
    pub fn calculate_disc_id(first_track: u8, last_track: u8, lead_out_offset: u32, track_offsets: &[u32]) -> (r: String)
        requires
            track_offsets@.len() <= 0x0100_0000,
        ensures
            r@ == mb_disc_id(first_track, last_track, lead_out_offset, track_offsets@),
    {
        let mut input: Vec<char> = Vec::new();
        push_dec(&mut input, first_track as u64, 2);
        push_dec(&mut input, last_track as u64, 2);
        push_hex(&mut input, lead_out_offset as u64, 8, true);
        let ghost head = input@;
        let mut i: usize = 0;
        while i < track_offsets.len()
            invariant
                i <= track_offsets@.len(),
                input@ == head + offsets_hex(track_offsets@.subrange(0, i as int)),
            decreases track_offsets.len() - i,
        {
            proof {
                assert(track_offsets@.subrange(0, i + 1).drop_last() =~= track_offsets@.subrange(
                    0,
                    i as int,
                ));
            }
            push_hex(&mut input, track_offsets[i] as u64, 8, true);
            proof {
                assert(input@ =~= head + offsets_hex(track_offsets@.subrange(0, i + 1)));
            }
            i = i + 1;
        }
        proof {
            assert(track_offsets@.subrange(0, i as int) =~= track_offsets@);
            assert(input@ =~= mb_input(first_track, last_track, lead_out_offset, track_offsets@));
        }
        let mut bytes: Vec<u8> = Vec::new();
        let mut k: usize = 0;
        while k < input.len()
            invariant
                k <= input@.len(),
                bytes@ == ascii_bytes(input@.subrange(0, k as int)),
            decreases input.len() - k,
        {
            let c = input[k];
            bytes.push(c as u8);
            proof {
                assert(bytes@ =~= ascii_bytes(input@.subrange(0, k + 1)));
            }
            k = k + 1;
        }
        proof {
            assert(input@.subrange(0, k as int) =~= input@);
        }
        let digest = sha1_digest(bytes.as_slice());
        let encoded = base64_encode(digest.as_slice());
        let chars = chars_of(encoded.as_str());
        let mut out: Vec<char> = Vec::new();
        let mut j: usize = 0;
        while j < chars.len()
            invariant
                j <= chars@.len(),
                out@ == chars@.subrange(0, j as int).map_values(|c: char| mb_escape_char(c)),
            decreases chars.len() - j,
        {
            let c = chars[j];
            let e = if c == '+' {
                '.'
            } else if c == '/' {
                '_'
            } else if c == '=' {
                '-'
            } else {
                c
            };
            out.push(e);
            proof {
                assert(out@ =~= chars@.subrange(0, j + 1).map_values(|c: char| mb_escape_char(c)));
            }
            j = j + 1;
        }
        proof {
            assert(chars@.subrange(0, j as int) =~= chars@);
        }
        string_of(out.as_slice())
    }
}

/// Disc metadata, with the source it came from.
#[derive(Debug, Clone)]
pub struct DiscMetadata {
    pub title: Option<String>,
    pub artist: Option<String>,
    pub genre: Option<String>,
    pub year: Option<u32>,
    pub track_count: u8,
    pub source: String,
}

/// A copy of an optional string.
fn copy_opt(o: &Option<String>) -> (r: Option<String>)
    ensures
        r == *o,
{
    match o {
        Some(s) => Some(s.clone()),
        None => None,
    }
}

/// Metadata from the sources in turn: CD-Text, MusicBrainz, freedb.
pub struct MetadataProvider;

impl MetadataProvider {
    /// Metadata from CD-Text where it holds a disc title or a track title,
    /// else from MusicBrainz, else from freedb; both lookups always fail,
    /// so without such CD-Text no metadata is found.
    pub fn lookup_metadata(cdtext: Option<&CdTextInfo>, disc_id: &str) -> (r: Result<
        DiscMetadata,
        DiskRipperError,
    >)
        ensures
            match cdtext {
                Some(c) => if c.title is Some || c.track_titles@.len() > 0 {
                    r matches Ok(m) && m.title == c.title && m.artist == c.performer && m.genre
                        == c.genre && m.year is None && m.track_count == c.track_titles@.len() as u8
                        && m.source@ == "CD-Text"@
                } else {
                    r matches Err(DiskRipperError::Io(e)) && e@ == "No metadata found"@
                },
                None => r matches Err(DiskRipperError::Io(e)) && e@ == "No metadata found"@,
            },
    {
        if let Some(c) = cdtext {
            if c.title.is_some() || !c.track_titles.is_empty() {
                return Ok(
                    DiscMetadata {
                        title: copy_opt(&c.title),
                        artist: copy_opt(&c.performer),
                        genre: copy_opt(&c.genre),
                        year: None,
                        track_count: c.track_titles.len() as u8,
                        source: owned("CD-Text"),
                    },
                );
            }
        }
        match MusicBrainzLookup::lookup_disc(disc_id) {
            Ok(release) => {
                return Ok(
                    DiscMetadata {
                        title: Some(release.title),
                        artist: release.artist,
                        genre: None,
                        year: release.year,
                        track_count: release.track_count,
                        source: owned("MusicBrainz"),
                    },
                );
            },
            Err(_) => {},
        }
        match FreedbLookup::lookup_disc(disc_id, None) {
            Ok(entry) => {
                return Ok(
                    DiscMetadata {
                        title: Some(entry.title),
                        artist: Some(entry.artist),
                        genre: entry.genre,
                        year: None,
                        track_count: entry.track_count,
                        source: owned("FreeDB"),
                    },
                );
            },
            Err(_) => {},
        }
        Err(DiskRipperError::Io(owned("No metadata found")))
    }
}

} // verus!

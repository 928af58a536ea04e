//! Application icons: the sizes, the PNG file layout and the Windows ICO
//! container.
use vstd::prelude::*;
use crate::accurip::{crc32_hash, crc32_of};
use crate::audio::{le16_bytes, le32_bytes};
use crate::text::{push_dec, push_str, string_of, dec_digits};

verus! {

/// Makes the application's icons.
pub struct IconManager;

/// The PNG icon sizes, in pixels.
pub open spec fn icon_size_list() -> Seq<u32> {
    seq![16u32, 32, 48, 128, 256, 512]
}

/// The PNG icon sizes, in pixels.
pub fn icon_sizes() -> (r: Vec<u32>)
    ensures
        r@ == icon_size_list(),
{
    let r: Vec<u32> = vec![16, 32, 48, 128, 256, 512];
    proof {
        assert(r@ =~= icon_size_list());
    }
    r
}

/// The big-endian bytes of `x`.
pub open spec fn be32_bytes(x: u32) -> Seq<u8> {
    seq![(x / 16777216) as u8, ((x / 65536) % 256) as u8, ((x / 256) % 256) as u8, (x % 256) as u8]
}

/// Appends the big-endian bytes of `x`.
fn push_be32(v: &mut Vec<u8>, x: u32)
    ensures
        final(v)@ == old(v)@ + be32_bytes(x),
{
    v.push((x / 16777216) as u8);
    v.push(((x / 65536) % 256) as u8);
    v.push(((x / 256) % 256) as u8);
    v.push((x % 256) as u8);
    proof {
        assert(final(v)@ =~= old(v)@ + be32_bytes(x));
    }
}

/// Appends `s`.
pub(crate) fn push_all(v: &mut Vec<u8>, s: &[u8])
    ensures
        final(v)@ == old(v)@ + s@,
{
    let ghost start = v@;
    let mut i: usize = 0;
    while i < s.len()
        invariant
            i <= s@.len(),
            v@ == start + s@.subrange(0, i as int),
        decreases s.len() - i,
    {
        v.push(s[i]);
        proof {
            assert(v@ =~= start + s@.subrange(0, i + 1));
        }
        i = i + 1;
    }
    proof {
        assert(s@.subrange(0, s@.len() as int) =~= s@);
    }
}

/// The PNG file signature.
pub open spec fn png_signature() -> Seq<u8> {
    seq![137u8, 80, 78, 71, 13, 10, 26, 10]
}

/// The header data of an 8-bit RGB image, not interlaced.
pub open spec fn ihdr_data(width: u32, height: u32) -> Seq<u8> {
    be32_bytes(width) + be32_bytes(height) + seq![8u8, 2, 0, 0, 0]
}

/// A PNG chunk: its data's length, its type, its data and the CRC-32 of the
/// type and the data.
pub open spec fn png_chunk(chunk_type: Seq<u8>, chunk_data: Seq<u8>) -> Seq<u8> {
    be32_bytes(chunk_data.len() as u32) + chunk_type + chunk_data + be32_bytes(
        crc32_of(chunk_type + chunk_data),
    )
}

/// `IHDR`, `IDAT` and `IEND`.
pub open spec fn ihdr_tag() -> Seq<u8> {
    seq![73u8, 72, 68, 82]
}

/// `IDAT`.
pub open spec fn idat_tag() -> Seq<u8> {
    seq![73u8, 68, 65, 84]
}

/// `IEND`.
pub open spec fn iend_tag() -> Seq<u8> {
    seq![73u8, 69, 78, 68]
}

/// A PNG file of the given size whose image data (filtered rows, stored
/// as they are) is `image`.
pub open spec fn png_file(width: u32, height: u32, image: Seq<u8>) -> Seq<u8> {
    png_signature() + png_chunk(ihdr_tag(), ihdr_data(width, height)) + png_chunk(idat_tag(), image)
        + png_chunk(iend_tag(), seq![])
}

impl IconManager {
    /// The header data of an 8-bit RGB image of the given size.
    pub fn create_ihdr(width: u32, height: u32) -> (r: Vec<u8>)
        ensures
            r@ == ihdr_data(width, height),
    {
        let mut data: Vec<u8> = Vec::new();
        push_be32(&mut data, width);
        push_be32(&mut data, height);
        data.push(8);
        data.push(2);
        data.push(0);
        data.push(0);
        data.push(0);
        proof {
            assert(data@ =~= ihdr_data(width, height));
        }
        data
    }

    /// The image data as the file holds it: stored, not compressed.
    pub fn compress_data(data: &[u8]) -> (r: Vec<u8>)
        ensures
            r@ == data@,
    {
        let mut r: Vec<u8> = Vec::new();
        push_all(&mut r, data);
        r
    }

    /// Appends a PNG chunk with its CRC.
    pub fn write_png_chunk(data: &mut Vec<u8>, chunk_type: &[u8], chunk_data: &[u8])
        ensures
            final(data)@ == old(data)@ + png_chunk(chunk_type@, chunk_data@),
    {
        let length = chunk_data.len() as u32;
        push_be32(data, length);
        push_all(data, chunk_type);
        push_all(data, chunk_data);
        let mut both: Vec<u8> = Vec::new();
        push_all(&mut both, chunk_type);
        push_all(&mut both, chunk_data);
        let crc = crc32_hash(both.as_slice());
        push_be32(data, crc);
        proof {
            assert(final(data)@ =~= old(data)@ + png_chunk(chunk_type@, chunk_data@));
        }
    }

    /// A PNG file of the given size whose image data is `image`.
    pub fn create_png_bytes(width: u32, height: u32, image: &[u8]) -> (r: Vec<u8>)
        ensures
            r@ == png_file(width, height, image@),
    {
        let mut png: Vec<u8> = Vec::new();
        png.push(137);
        png.push(80);
        png.push(78);
        png.push(71);
        png.push(13);
        png.push(10);
        png.push(26);
        png.push(10);
        let ghost sig = png@;
        let ihdr = Self::create_ihdr(width, height);
        let ihdr_t: [u8; 4] = [73, 72, 68, 82];
        Self::write_png_chunk(&mut png, ihdr_t.as_slice(), ihdr.as_slice());
        let ghost a = png@;
        let compressed = Self::compress_data(image);
        let idat_t: [u8; 4] = [73, 68, 65, 84];
        Self::write_png_chunk(&mut png, idat_t.as_slice(), compressed.as_slice());
        let ghost b = png@;
        let iend_t: [u8; 4] = [73, 69, 78, 68];
        let empty: Vec<u8> = Vec::new();
        Self::write_png_chunk(&mut png, iend_t.as_slice(), empty.as_slice());
        proof {
            assert(sig =~= png_signature());
            assert(ihdr_t@ =~= ihdr_tag());
            assert(idat_t@ =~= idat_tag());
            assert(iend_t@ =~= iend_tag());
            assert(empty@ =~= Seq::<u8>::empty());
            assert(png@ =~= png_file(width, height, image@));
        }
        png
    }

    /// The file name of the PNG icon of a size: `icon_<size>x<size>.png`.
    pub fn icon_file_name(size: u32) -> (r: String)
        ensures
            r@ == "icon_"@ + dec_digits(size as nat) + "x"@ + dec_digits(size as nat) + ".png"@,
    {
        let mut v: Vec<char> = Vec::new();
        push_str(&mut v, "icon_");
        push_dec(&mut v, size as u64, 0);
        push_str(&mut v, "x");
        push_dec(&mut v, size as u64, 0);
        push_str(&mut v, ".png");
        string_of(v.as_slice())
    }
}

/// The ICO directory entry of an image of `size` pixels square, 32 bits a
/// pixel, at `offset`, of `len` bytes.
pub open spec fn ico_entry(size: u32, offset: u32, len: u32) -> Seq<u8> {
    seq![size as u8, size as u8, 0u8, 0u8] + le16_bytes(1) + le16_bytes(32) + le32_bytes(offset)
        + le32_bytes(len)
}

/// The directory entries of the ICO images from the `i`-th on, the first of
/// them at `offset`.
pub open spec fn ico_entries(sizes: Seq<u32>, pngs: Seq<Seq<u8>>, i: int, offset: nat) -> Seq<u8>
    decreases sizes.len() - i,
{
    if i < 0 || i >= sizes.len() {
        seq![]
    } else {
        ico_entry(sizes[i], offset as u32, pngs[i].len() as u32) + ico_entries(
            sizes,
            pngs,
            i + 1,
            offset + pngs[i].len(),
        )
    }
}

/// The images, one after another.
pub open spec fn joined(pngs: Seq<Seq<u8>>) -> Seq<u8>
    decreases pngs.len(),
{
    if pngs.len() == 0 {
        seq![]
    } else {
        joined(pngs.drop_last()) + pngs.last()
    }
}

/// A Windows ICO file of PNG images: the header (which announces six
/// images), a directory entry for each image, then the images.
pub open spec fn ico_file(sizes: Seq<u32>, pngs: Seq<Seq<u8>>) -> Seq<u8> {
    le16_bytes(0) + le16_bytes(1) + le16_bytes(6) + ico_entries(sizes, pngs, 0, 102) + joined(pngs)
}

/// The sizes of the Windows icon's images.
pub open spec fn ico_size_list() -> Seq<u32> {
    seq![16u32, 32, 48, 128, 256]
}

/// The images of `pngs` taken by their views.
pub open spec fn png_views(pngs: Seq<Vec<u8>>) -> Seq<Seq<u8>> {
    pngs.map_values(|p: Vec<u8>| p@)
}

/// A Windows ICO file holding the PNG image `pngs[i]` for the `i`-th size
/// of `sizes`.
pub fn ico_bytes(sizes: &[u32], pngs: &[Vec<u8>]) -> (r: Vec<u8>)
    requires
        sizes@.len() == pngs@.len(),
        102 + joined(png_views(pngs@)).len() <= u32::MAX,
    ensures
        r@ == ico_file(sizes@, png_views(pngs@)),
{
    let ghost views = png_views(pngs@);
    let mut header: Vec<u8> = Vec::new();
    header.push(0);
    header.push(0);
    header.push(1);
    header.push(0);
    header.push(6);
    header.push(0);
    let mut entries: Vec<u8> = Vec::new();
    let mut images: Vec<u8> = Vec::new();
    let mut i: usize = 0;
    while i < sizes.len()
        invariant
            sizes@.len() == pngs@.len(),
            views == png_views(pngs@),
            102 + joined(views).len() <= u32::MAX,
            i <= sizes@.len(),
            images@ == joined(views.subrange(0, i as int)),
            entries@ + ico_entries(sizes@, views, i as int, 102 + images@.len()) == ico_entries(
                sizes@,
                views,
                0,
                102,
            ),
        decreases sizes.len() - i,
    {
        proof {
            lemma_joined_prefix(views, i as int + 1);
            assert(views.subrange(0, i + 1).drop_last() =~= views.subrange(0, i as int));
            assert(views[i as int] == pngs@[i as int]@);
        }
        let ghost prev_len = images@.len();
        let offset: u32 = (102 + images.len()) as u32;
        let len: u32 = pngs[i].len() as u32;
        entries.push(sizes[i] as u8);
        entries.push(sizes[i] as u8);
        entries.push(0);
        entries.push(0);
        entries.push(1);
        entries.push(0);
        entries.push(32);
        entries.push(0);
        let ghost before = entries@;
        push_le32(&mut entries, offset);
        push_le32(&mut entries, len);
        push_all(&mut images, pngs[i].as_slice());
        proof {
            assert(images@ =~= joined(views.subrange(0, i + 1)));
            assert(entries@ =~= before + le32_bytes(offset) + le32_bytes(len));
            assert(ico_entries(sizes@, views, i as int, 102 + prev_len)
                =~= ico_entry(sizes@[i as int], offset, len) + ico_entries(
                sizes@,
                views,
                i + 1,
                102 + images@.len(),
            ));
            assert(entries@ + ico_entries(sizes@, views, i + 1, 102 + images@.len()) =~= ico_entries(
                sizes@,
                views,
                0,
                102,
            ));
        }
        i = i + 1;
    }
    let mut out = header;
    push_all(&mut out, entries.as_slice());
    push_all(&mut out, images.as_slice());
    proof {
        assert(views.subrange(0, sizes@.len() as int) =~= views);
        assert(ico_entries(sizes@, views, sizes@.len() as int, 102 + images@.len()) =~= seq![]);
        assert(out@ =~= ico_file(sizes@, views));
    }
    out
}

/// The images up to the `n`-th are at most as long as all of them.
pub proof fn lemma_joined_prefix(pngs: Seq<Seq<u8>>, n: int)
    requires
        0 <= n <= pngs.len(),
    ensures
        joined(pngs.subrange(0, n)).len() <= joined(pngs).len(),
    decreases pngs.len(),
{
    if n < pngs.len() {
        assert(pngs.drop_last().subrange(0, n) =~= pngs.subrange(0, n));
        lemma_joined_prefix(pngs.drop_last(), n);
    } else {
        assert(pngs.subrange(0, n) =~= pngs);
    }
}

/// Appends the little-endian bytes of `x`.
fn push_le32(v: &mut Vec<u8>, x: u32)
    ensures
        final(v)@ == old(v)@ + le32_bytes(x),
{
    v.push((x % 256) as u8);
    v.push(((x / 256) % 256) as u8);
    v.push(((x / 65536) % 256) as u8);
    v.push((x / 16777216) as u8);
    proof {
        assert(final(v)@ =~= old(v)@ + le32_bytes(x));
    }
}

/// A one-pixel blue PNG image, the placeholder icon.
pub open spec fn placeholder_png_bytes() -> Seq<u8> {
    seq![
        137u8, 80, 78, 71, 13, 10, 26, 10,
        0, 0, 0, 13, 73, 72, 68, 82, 0, 0, 0, 1, 0, 0, 0, 1, 8, 2, 0, 0, 0, 0x3A, 0x24, 0x91, 0x27,
        0, 0, 0, 11, 73, 68, 65, 84, 0x78, 0x9C, 0x62, 0x64, 0x00, 0x00, 0x00, 0x02, 0x00, 0x01,
        0x1D, 0xB4, 0x63, 0x07, 0, 0, 0, 0, 73, 69, 78, 68, 0xAE, 0x42, 0x60, 0x82,
    ]
}

/// A one-pixel blue PNG image, the placeholder icon.
pub fn placeholder_png() -> (r: Vec<u8>)
    ensures
        r@ == placeholder_png_bytes(),
{
    let r: Vec<u8> = vec![
        137, 80, 78, 71, 13, 10, 26, 10,
        0, 0, 0, 13, 73, 72, 68, 82, 0, 0, 0, 1, 0, 0, 0, 1, 8, 2, 0, 0, 0, 0x3A, 0x24, 0x91, 0x27,
        0, 0, 0, 11, 73, 68, 65, 84, 0x78, 0x9C, 0x62, 0x64, 0x00, 0x00, 0x00, 0x02, 0x00, 0x01,
        0x1D, 0xB4, 0x63, 0x07, 0, 0, 0, 0, 73, 69, 78, 68, 0xAE, 0x42, 0x60, 0x82,
    ];
    proof {
        assert(r@ =~= placeholder_png_bytes());
    }
    r
}

/// The sizes the placeholder icon is written at.
pub fn placeholder_sizes() -> (r: Vec<u32>)
    ensures
        r@ == seq![32u32, 128, 256],
{
    let r: Vec<u32> = vec![32, 128, 256];
    proof {
        assert(r@ =~= seq![32u32, 128, 256]);
    }
    r
}

/// The element types of the macOS icon (ICNS) file and the size in pixels
/// of each one's image.
pub open spec fn icns_type_list() -> Seq<(u32, u32)> {
    seq![
        (0x49434E23u32, 16u32),
        (0x69637334u32, 16u32),
        (0x69637338u32, 32u32),
        (0x69636C34u32, 128u32),
        (0x69636C38u32, 128u32),
        (0x69683332u32, 256u32),
        (0x696C3332u32, 512u32),
        (0x69743332u32, 1024u32),
    ]
}

/// The element types of the macOS icon file and their sizes in pixels.
pub fn icns_types() -> (r: Vec<(u32, u32)>)
    ensures
        r@ == icns_type_list(),
{
    let r: Vec<(u32, u32)> = vec![
        (0x49434E23, 16),
        (0x69637334, 16),
        (0x69637338, 32),
        (0x69636C34, 128),
        (0x69636C38, 128),
        (0x69683332, 256),
        (0x696C3332, 512),
        (0x69743332, 1024),
    ];
    proof {
        assert(r@ =~= icns_type_list());
    }
    r
}

/// An ICNS element: its type, its length (the image's and eight bytes of
/// its own header), then the image.
pub open spec fn icns_element(code: u32, png: Seq<u8>) -> Seq<u8> {
    be32_bytes(code) + be32_bytes((png.len() + 8) as u32) + png
}

/// The elements of the images `pngs`, the `i`-th of the `i`-th type.
pub open spec fn icns_body(pngs: Seq<Seq<u8>>) -> Seq<u8>
    decreases pngs.len(),
{
    if pngs.len() == 0 {
        seq![]
    } else {
        icns_body(pngs.drop_last()) + icns_element(
            icns_type_list()[pngs.len() - 1].0,
            pngs.last(),
        )
    }
}

/// A macOS icon file: `icns`, the file's length, then the elements.
pub open spec fn icns_file(pngs: Seq<Seq<u8>>) -> Seq<u8> {
    seq![0x69u8, 0x63, 0x6E, 0x73] + be32_bytes((8 + icns_body(pngs).len()) as u32) + icns_body(pngs)
}

/// The elements of the first images are at most as long as all of them.
pub proof fn lemma_icns_prefix(pngs: Seq<Seq<u8>>, n: int)
    requires
        0 <= n <= pngs.len(),
    ensures
        icns_body(pngs.subrange(0, n)).len() <= icns_body(pngs).len(),
    decreases pngs.len(),
{
    if n < pngs.len() {
        assert(pngs.drop_last().subrange(0, n) =~= pngs.subrange(0, n));
        lemma_icns_prefix(pngs.drop_last(), n);
    } else {
        assert(pngs.subrange(0, n) =~= pngs);
    }
}

/// A macOS icon file holding the image `pngs[i]` for the `i`-th element
/// type.
pub fn icns_bytes(pngs: &[Vec<u8>]) -> (r: Vec<u8>)
    requires
        pngs@.len() == 8,
        8 + icns_body(png_views(pngs@)).len() <= u32::MAX,
    ensures
        r@ == icns_file(png_views(pngs@)),
{
    let ghost views = png_views(pngs@);
    let types = icns_types();
    let mut body: Vec<u8> = Vec::new();
    let mut i: usize = 0;
    while i < pngs.len()
        invariant
            pngs@.len() == 8,
            types@ == icns_type_list(),
            views == png_views(pngs@),
            8 + icns_body(views).len() <= u32::MAX,
            i <= pngs@.len(),
            body@ == icns_body(views.subrange(0, i as int)),
        decreases pngs.len() - i,
    {
        proof {
            lemma_icns_prefix(views, i as int + 1);
            assert(views.subrange(0, i + 1).drop_last() =~= views.subrange(0, i as int));
            assert(views[i as int] == pngs@[i as int]@);
        }
        let len: u32 = (pngs[i].len() + 8) as u32;
        push_be32(&mut body, types[i].0);
        push_be32(&mut body, len);
        push_all(&mut body, pngs[i].as_slice());
        proof {
            assert(body@ =~= icns_body(views.subrange(0, i + 1)));
        }
        i = i + 1;
    }
    proof {
        assert(views.subrange(0, pngs@.len() as int) =~= views);
    }
    let mut out: Vec<u8> = Vec::new();
    out.push(0x69);
    out.push(0x63);
    out.push(0x6E);
    out.push(0x73);
    push_be32(&mut out, (8 + body.len()) as u32);
    push_all(&mut out, body.as_slice());
    proof {
        assert(out@ =~= icns_file(views));
    }
    out
}

/// The length that a macOS icon file gives in its header, read back as a
/// big-endian word, is the file's length.
pub proof fn law_icns_length_field(pngs: Seq<Seq<u8>>)
    requires
        8 + icns_body(pngs).len() <= u32::MAX,
    ensures
        icns_file(pngs).len() == 8 + icns_body(pngs).len(),
        icns_file(pngs).subrange(4, 8) == be32_bytes(icns_file(pngs).len() as u32),
        icns_file(pngs).subrange(0, 4) == seq![0x69u8, 0x63, 0x6E, 0x73],
{
    let f = icns_file(pngs);
    assert(f.subrange(4, 8) =~= be32_bytes((8 + icns_body(pngs).len()) as u32));
    assert(f.subrange(0, 4) =~= seq![0x69u8, 0x63, 0x6E, 0x73]);
}

} // verus!

//! Kinds of media on a disc, recognised by file extension.
use vstd::prelude::*;
use crate::text::{chars_of, owned, str_eq, string_of};
use crate::types::FileEntry;

verus! {

/// The kind of a file's content.
#[derive(Debug, Clone, Copy, PartialEq, Eq, Structural, Hash)]
pub enum MediaType {
    Video,
    Audio,
    Image,
    Data,
    Program,
    Archive,
    Document,
    DiscImage,
    Unknown,
}

/// The characters of `s` in lower case.
pub uninterp spec fn lowercase(s: Seq<char>) -> Seq<char>;

/// Whether every character of `s` is ASCII.
pub open spec fn is_ascii_text(s: Seq<char>) -> bool {
    forall|i: int| 0 <= i < s.len() ==> (#[trigger] s[i] as u32) < 128
}

/// `c` with an ASCII capital letter turned into its small letter.
pub open spec fn ascii_lower_char(c: char) -> char {
    if 'A' <= c <= 'Z' {
        ((c as u32) + 32) as char
    } else {
        c
    }
}

/// `s` with its ASCII capital letters turned into small letters.
pub open spec fn ascii_lower(s: Seq<char>) -> Seq<char> {
    s.map_values(|c: char| ascii_lower_char(c))
}

/// `str::to_lowercase`: the contract names the lower-case form of the text
/// (Unicode case mapping, which may change a string's length), and says
/// that on ASCII text it turns the capital letters `A` to `Z` into `a` to
/// `z` and keeps every other character, as Unicode's mapping does there.
#[verifier::external_body]
pub(crate) fn to_lowercase(s: &str) -> (r: String)
    ensures
        r@ == lowercase(s@),
        is_ascii_text(s@) ==> r@ == ascii_lower(s@),
{
    s.to_lowercase()
}

/// Extensions are matched without regard to case: an ASCII extension's
/// small-letter form is ASCII again and lowers to itself, so it is
/// classified as the extension is; two ASCII extensions that differ only in
/// the case of their letters are classified alike.
pub proof fn law_extension_case_insensitive(a: Seq<char>, b: Seq<char>)
    requires
        is_ascii_text(a),
    ensures
        is_ascii_text(ascii_lower(a)),
        ascii_lower(ascii_lower(a)) == ascii_lower(a),
        media_of(ascii_lower(ascii_lower(a))) == media_of(ascii_lower(a)),
        ascii_lower(a) == ascii_lower(b) ==> media_of(ascii_lower(a)) == media_of(ascii_lower(b)),
{
    let l = ascii_lower(a);
    assert forall|i: int| 0 <= i < l.len() implies (#[trigger] l[i] as u32) < 128 by {
        assert((a[i] as u32) < 128);
    }
    assert(ascii_lower(l) =~= l) by {
        assert forall|i: int| 0 <= i < l.len() implies #[trigger] ascii_lower(l)[i] == l[i] by {
            let c = a[i];
            assert(l[i] == ascii_lower_char(c));
        }
    }
}

/// Whether `e` is one of the video extensions.
pub open spec fn is_video_ext(e: Seq<char>) -> bool {
    e == "mp4"@
        || e == "mkv"@
        || e == "avi"@
        || e == "mov"@
        || e == "wmv"@
        || e == "flv"@
        || e == "webm"@
        || e == "m4v"@
        || e == "mpg"@
        || e == "mpeg"@
        || e == "ts"@
        || e == "m2ts"@
        || e == "vob"@
        || e == "ifo"@
        || e == "bup"@
}

/// Whether `e` is one of the audio extensions.
pub open spec fn is_audio_ext(e: Seq<char>) -> bool {
    e == "mp3"@
        || e == "wav"@
        || e == "flac"@
        || e == "aac"@
        || e == "ogg"@
        || e == "wma"@
        || e == "m4a"@
        || e == "opus"@
        || e == "aiff"@
        || e == "ape"@
        || e == "alac"@
        || e == "pcm"@
        || e == "ac3"@
        || e == "dts"@
}

/// Whether `e` is one of the image extensions.
pub open spec fn is_image_ext(e: Seq<char>) -> bool {
    e == "jpg"@
        || e == "jpeg"@
        || e == "png"@
        || e == "gif"@
        || e == "bmp"@
        || e == "tiff"@
        || e == "tga"@
        || e == "webp"@
        || e == "svg"@
        || e == "ico"@
        || e == "raw"@
        || e == "cr2"@
        || e == "nef"@
        || e == "arw"@
        || e == "heic"@
}

/// Whether `e` is one of the program extensions.
pub open spec fn is_program_ext(e: Seq<char>) -> bool {
    e == "exe"@
        || e == "msi"@
        || e == "app"@
        || e == "pkg"@
        || e == "deb"@
        || e == "rpm"@
        || e == "appimage"@
        || e == "sh"@
        || e == "bat"@
        || e == "cmd"@
        || e == "ps1"@
        || e == "jar"@
        || e == "py"@
        || e == "js"@
        || e == "cpp"@
        || e == "c"@
        || e == "h"@
        || e == "rs"@
        || e == "go"@
        || e == "rb"@
        || e == "php"@
}

/// Whether `e` is one of the disc image extensions.
pub open spec fn is_discimage_ext(e: Seq<char>) -> bool {
    e == "nrg"@
        || e == "mdf"@
        || e == "mds"@
        || e == "vcd"@
        || e == "svcd"@
}

/// Whether `e` is one of the archive extensions.
pub open spec fn is_archive_ext(e: Seq<char>) -> bool {
    e == "zip"@
        || e == "rar"@
        || e == "7z"@
        || e == "tar"@
        || e == "gz"@
        || e == "bz2"@
        || e == "xz"@
        || e == "lz"@
        || e == "lzma"@
        || e == "zst"@
        || e == "cab"@
        || e == "iso"@
        || e == "img"@
        || e == "bin"@
        || e == "cue"@
        || e == "dmg"@
        || e == "vhd"@
        || e == "vmdk"@
}

/// Whether `e` is one of the document extensions.
pub open spec fn is_document_ext(e: Seq<char>) -> bool {
    e == "pdf"@
        || e == "doc"@
        || e == "docx"@
        || e == "xls"@
        || e == "xlsx"@
        || e == "ppt"@
        || e == "pptx"@
        || e == "txt"@
        || e == "rtf"@
        || e == "odt"@
        || e == "ods"@
        || e == "odp"@
        || e == "epub"@
        || e == "mobi"@
        || e == "azw"@
        || e == "azw3"@
}

/// Whether `e` is one of the video extensions.
fn is_video_ext_exec(e: &str) -> (r: bool)
    ensures
        r == is_video_ext(e@),
{
    str_eq(e, "mp4")
        || str_eq(e, "mkv")
        || str_eq(e, "avi")
        || str_eq(e, "mov")
        || str_eq(e, "wmv")
        || str_eq(e, "flv")
        || str_eq(e, "webm")
        || str_eq(e, "m4v")
        || str_eq(e, "mpg")
        || str_eq(e, "mpeg")
        || str_eq(e, "ts")
        || str_eq(e, "m2ts")
        || str_eq(e, "vob")
        || str_eq(e, "ifo")
        || str_eq(e, "bup")
}

/// Whether `e` is one of the audio extensions.
fn is_audio_ext_exec(e: &str) -> (r: bool)
    ensures
        r == is_audio_ext(e@),
{
    str_eq(e, "mp3")
        || str_eq(e, "wav")
        || str_eq(e, "flac")
        || str_eq(e, "aac")
        || str_eq(e, "ogg")
        || str_eq(e, "wma")
        || str_eq(e, "m4a")
        || str_eq(e, "opus")
        || str_eq(e, "aiff")
        || str_eq(e, "ape")
        || str_eq(e, "alac")
        || str_eq(e, "pcm")
        || str_eq(e, "ac3")
        || str_eq(e, "dts")
}

/// Whether `e` is one of the image extensions.
fn is_image_ext_exec(e: &str) -> (r: bool)
    ensures
        r == is_image_ext(e@),
{
    str_eq(e, "jpg")
        || str_eq(e, "jpeg")
        || str_eq(e, "png")
        || str_eq(e, "gif")
        || str_eq(e, "bmp")
        || str_eq(e, "tiff")
        || str_eq(e, "tga")
        || str_eq(e, "webp")
        || str_eq(e, "svg")
        || str_eq(e, "ico")
        || str_eq(e, "raw")
        || str_eq(e, "cr2")
        || str_eq(e, "nef")
        || str_eq(e, "arw")
        || str_eq(e, "heic")
}

/// Whether `e` is one of the program extensions.
fn is_program_ext_exec(e: &str) -> (r: bool)
    ensures
        r == is_program_ext(e@),
{
    str_eq(e, "exe")
        || str_eq(e, "msi")
        || str_eq(e, "app")
        || str_eq(e, "pkg")
        || str_eq(e, "deb")
        || str_eq(e, "rpm")
        || str_eq(e, "appimage")
        || str_eq(e, "sh")
        || str_eq(e, "bat")
        || str_eq(e, "cmd")
        || str_eq(e, "ps1")
        || str_eq(e, "jar")
        || str_eq(e, "py")
        || str_eq(e, "js")
        || str_eq(e, "cpp")
        || str_eq(e, "c")
        || str_eq(e, "h")
        || str_eq(e, "rs")
        || str_eq(e, "go")
        || str_eq(e, "rb")
        || str_eq(e, "php")
}

/// Whether `e` is one of the disc image extensions.
fn is_discimage_ext_exec(e: &str) -> (r: bool)
    ensures
        r == is_discimage_ext(e@),
{
    str_eq(e, "nrg")
        || str_eq(e, "mdf")
        || str_eq(e, "mds")
        || str_eq(e, "vcd")
        || str_eq(e, "svcd")
}

/// Whether `e` is one of the archive extensions.
fn is_archive_ext_exec(e: &str) -> (r: bool)
    ensures
        r == is_archive_ext(e@),
{
    str_eq(e, "zip")
        || str_eq(e, "rar")
        || str_eq(e, "7z")
        || str_eq(e, "tar")
        || str_eq(e, "gz")
        || str_eq(e, "bz2")
        || str_eq(e, "xz")
        || str_eq(e, "lz")
        || str_eq(e, "lzma")
        || str_eq(e, "zst")
        || str_eq(e, "cab")
        || str_eq(e, "iso")
        || str_eq(e, "img")
        || str_eq(e, "bin")
        || str_eq(e, "cue")
        || str_eq(e, "dmg")
        || str_eq(e, "vhd")
        || str_eq(e, "vmdk")
}

/// Whether `e` is one of the document extensions.
fn is_document_ext_exec(e: &str) -> (r: bool)
    ensures
        r == is_document_ext(e@),
{
    str_eq(e, "pdf")
        || str_eq(e, "doc")
        || str_eq(e, "docx")
        || str_eq(e, "xls")
        || str_eq(e, "xlsx")
        || str_eq(e, "ppt")
        || str_eq(e, "pptx")
        || str_eq(e, "txt")
        || str_eq(e, "rtf")
        || str_eq(e, "odt")
        || str_eq(e, "ods")
        || str_eq(e, "odp")
        || str_eq(e, "epub")
        || str_eq(e, "mobi")
        || str_eq(e, "azw")
        || str_eq(e, "azw3")
}

/// The kind of content a lower-case extension names; disc image
/// extensions are checked before archive ones.
pub open spec fn media_of(e: Seq<char>) -> MediaType {
    if is_video_ext(e) {
        MediaType::Video
    } else if is_audio_ext(e) {
        MediaType::Audio
    } else if is_image_ext(e) {
        MediaType::Image
    } else if is_program_ext(e) {
        MediaType::Program
    } else if is_discimage_ext(e) {
        MediaType::DiscImage
    } else if is_archive_ext(e) {
        MediaType::Archive
    } else if is_document_ext(e) {
        MediaType::Document
    } else {
        MediaType::Unknown
    }
}

/// The name by which a media kind is shown.
pub open spec fn media_name(m: MediaType) -> Seq<char> {
    match m {
        MediaType::Video => "Video"@,
        MediaType::Audio => "Audio"@,
        MediaType::Image => "Image"@,
        MediaType::Data => "Data"@,
        MediaType::Program => "Program"@,
        MediaType::Archive => "Archive"@,
        MediaType::Document => "Document"@,
        MediaType::DiscImage => "Disc Image"@,
        MediaType::Unknown => "Unknown"@,
    }
}

/// The icon of a media kind.
pub open spec fn media_icon(m: MediaType) -> Seq<char> {
    match m {
        MediaType::Video => "🎬"@,
        MediaType::Audio => "🎵"@,
        MediaType::Image => "🖼️"@,
        MediaType::Data => "💾"@,
        MediaType::Program => "⚙️"@,
        MediaType::Archive => "📦"@,
        MediaType::Document => "📄"@,
        MediaType::DiscImage => "💿"@,
        MediaType::Unknown => "❓"@,
    }
}

impl MediaType {
    /// The kind of content an extension already in lower case names.
    pub fn from_lowercase_extension(ext: &str) -> (r: Self)
        ensures
            r == media_of(ext@),
    {
        if is_video_ext_exec(ext) {
            MediaType::Video
        } else if is_audio_ext_exec(ext) {
            MediaType::Audio
        } else if is_image_ext_exec(ext) {
            MediaType::Image
        } else if is_program_ext_exec(ext) {
            MediaType::Program
        } else if is_discimage_ext_exec(ext) {
            MediaType::DiscImage
        } else if is_archive_ext_exec(ext) {
            MediaType::Archive
        } else if is_document_ext_exec(ext) {
            MediaType::Document
        } else {
            MediaType::Unknown
        }
    }

    /// The kind of content an extension names, in any case.
    pub fn from_extension(ext: &str) -> (r: Self)
        ensures
            r == media_of(lowercase(ext@)),
            is_ascii_text(ext@) ==> r == media_of(ascii_lower(ext@)),
    {
        let lower = to_lowercase(ext);
        Self::from_lowercase_extension(lower.as_str())
    }

    /// The icon of the media kind.
    pub fn icon(&self) -> (r: &str)
        ensures
            r@ == media_icon(*self),
    {
        match self {
            MediaType::Video => "🎬",
            MediaType::Audio => "🎵",
            MediaType::Image => "🖼️",
            MediaType::Data => "💾",
            MediaType::Program => "⚙️",
            MediaType::Archive => "📦",
            MediaType::Document => "📄",
            MediaType::DiscImage => "💿",
            MediaType::Unknown => "❓",
        }
    }

    /// The name by which the media kind is shown.
    pub fn to_string(&self) -> (r: String)
        ensures
            r@ == media_name(*self),
    {
        match self {
            MediaType::Video => owned("Video"),
            MediaType::Audio => owned("Audio"),
            MediaType::Image => owned("Image"),
            MediaType::Data => owned("Data"),
            MediaType::Program => owned("Program"),
            MediaType::Archive => owned("Archive"),
            MediaType::Document => owned("Document"),
            MediaType::DiscImage => owned("Disc Image"),
            MediaType::Unknown => owned("Unknown"),
        }
    }
}

/// The last component of a `/`-separated path other than empty and `.`
/// components, unless it is `..` (`Path::file_name`).
pub open spec fn file_name_of(p: Seq<char>) -> Option<Seq<char>> {
    match last_named(split_on_slash(p)) {
        Some(c) => if c == ".."@ {
            None
        } else {
            Some(c)
        },
        None => None,
    }
}

/// The components of a path.
pub open spec fn split_on_slash(p: Seq<char>) -> Seq<Seq<char>> {
    crate::text::split_on(p, '/', seq![])
}

/// The last component that is neither empty nor `.`.
pub open spec fn last_named(cs: Seq<Seq<char>>) -> Option<Seq<char>>
    decreases cs.len(),
{
    if cs.len() == 0 {
        None
    } else if cs.last().len() > 0 && cs.last() != "."@ {
        Some(cs.last())
    } else {
        last_named(cs.drop_last())
    }
}

/// The index of the last `.` in `s` before position `n`.
pub open spec fn last_dot(s: Seq<char>, n: int) -> Option<int>
    decreases n,
{
    if n <= 0 {
        None
    } else if s[n - 1] == '.' {
        Some(n - 1)
    } else {
        last_dot(s, n - 1)
    }
}

/// The extension of a path, or the empty text where it has none
/// (`Path::extension`): what follows the last `.` of the file name, unless
/// that `.` opens the name.
pub open spec fn extension_of(p: Seq<char>) -> Seq<char> {
    match file_name_of(p) {
        Some(n) => match last_dot(n, n.len() as int) {
            Some(k) => if k == 0 {
                seq![]
            } else {
                n.subrange(k + 1, n.len() as int)
            },
            None => seq![],
        },
        None => seq![],
    }
}

/// Whether a path component is neither empty nor `.`.
fn is_named(c: &Vec<char>) -> (r: bool)
    ensures
        r == (c@.len() > 0 && c@ != "."@),
{
    let dot = chars_of(".");
    c.len() > 0 && !crate::text::chars_eq(c.as_slice(), dot.as_slice())
}

/// The extension of a path, empty where it has none.
pub(crate) fn path_extension(p: &str) -> (r: String)
    ensures
        r@ == extension_of(p@),
{
    proof {
        reveal_strlit("");
        assert(""@ =~= Seq::<char>::empty());
    }
    let all = chars_of(p);
    let comps = crate::text::split_chars(&all, '/');
    let ghost cs = crate::text::char_vecs(comps@);
    let mut i = comps.len();
    proof {
        assert(cs.subrange(0, i as int) =~= cs);
    }
    while i > 0 && !is_named(&comps[i - 1])
        invariant
            i <= comps@.len(),
            cs == crate::text::char_vecs(comps@),
            last_named(cs) == last_named(cs.subrange(0, i as int)),
        decreases i,
    {
        proof {
            assert(cs.subrange(0, i as int).drop_last() =~= cs.subrange(0, i - 1));
            assert(cs[i - 1] == comps@[i - 1]@);
        }
        i = i - 1;
    }
    if i == 0 {
        return owned("");
    }
    let name = &comps[i - 1];
    proof {
        assert(cs[i - 1] == name@);
        assert(last_named(cs) == Some(name@));
    }
    let dots = chars_of("..");
    if crate::text::chars_eq(name.as_slice(), dots.as_slice()) {
        return owned("");
    }
    let mut k = name.len();
    while k > 0 && name[k - 1] != '.'
        invariant
            k <= name@.len(),
            last_dot(name@, name@.len() as int) == last_dot(name@, k as int),
        decreases k,
    {
        k = k - 1;
    }
    if k <= 1 {
        return owned("");
    }
    let mut e: Vec<char> = Vec::new();
    let mut j = k;
    while j < name.len()
        invariant
            k <= j <= name@.len(),
            e@ == name@.subrange(k as int, j as int),
        decreases name.len() - j,
    {
        e.push(name[j]);
        j = j + 1;
    }
    string_of(e.as_slice())
}

/// Whether `v` holds no value twice.
pub open spec fn no_repeats(v: Seq<MediaType>) -> bool {
    forall|i: int, j: int| 0 <= i < j < v.len() ==> v[i] != v[j]
}

/// The kind of content of a file entry, by its extension.
pub open spec fn entry_media(f: FileEntry) -> MediaType {
    media_of(lowercase(extension_of(f.path@)))
}

/// The media kinds among the files (directories left out), each once.
/// Their order is not specified.
pub fn detect_media_types(files: &[FileEntry]) -> (r: Vec<MediaType>)
    ensures
        no_repeats(r@),
        forall|m: MediaType|
            r@.contains(m) <==> exists|i: int|
                0 <= i < files@.len() && !files@[i].is_dir && #[trigger] entry_media(files@[i]) == m,
{
    let mut types: Vec<MediaType> = Vec::new();
    let mut i: usize = 0;
    while i < files.len()
        invariant
            i <= files@.len(),
            no_repeats(types@),
            forall|m: MediaType|
                types@.contains(m) <==> exists|k: int|
                    0 <= k < i && !files@[k].is_dir && #[trigger] entry_media(files@[k]) == m,
        decreases files.len() - i,
    {
        let file = &files[i];
        if !file.is_dir {
            let ext = path_extension(file.path.as_str());
            let t = MediaType::from_extension(ext.as_str());
            proof {
                assert(t == entry_media(files@[i as int]));
            }
            let mut seen = false;
            let mut j: usize = 0;
            while j < types.len()
                invariant
                    j <= types@.len(),
                    seen == exists|q: int| 0 <= q < j && types@[q] == t,
                decreases types.len() - j,
            {
                if types[j] == t {
                    seen = true;
                }
                j = j + 1;
            }
            let ghost before = types@;
            if !seen {
                types.push(t);
            }
            proof {
                if !seen {
                    assert(types@[before.len() as int] == t);
                } else {
                    let q = choose|q: int| 0 <= q < before.len() && before[q] == t;
                    assert(types@[q] == t);
                }
                assert(types@.contains(t));
                assert forall|m: MediaType|
                    types@.contains(m) <==> exists|k: int|
                        0 <= k < i + 1 && !files@[k].is_dir && #[trigger] entry_media(files@[k])
                            == m by {
                    if types@.contains(m) && m != t {
                        let q = choose|q: int| 0 <= q < types@.len() && types@[q] == m;
                        assert(before[q] == m);
                        assert(before.contains(m));
                    }
                    if m != t && (exists|k: int|
                        0 <= k < i + 1 && !files@[k].is_dir && #[trigger] entry_media(files@[k])
                            == m) {
                        let k = choose|k: int|
                            0 <= k < i + 1 && !files@[k].is_dir && #[trigger] entry_media(
                                files@[k],
                            ) == m;
                        assert(k < i);
                        assert(before.contains(m));
                        let q = choose|q: int| 0 <= q < before.len() && before[q] == m;
                        assert(types@[q] == m);
                    }
                    if m == t {
                        assert(!files@[i as int].is_dir && entry_media(files@[i as int]) == m);
                    }
                }
            }
        }
        i = i + 1;
    }
    types
}

} // verus!

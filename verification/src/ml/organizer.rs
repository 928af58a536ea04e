//! Where identified content goes: a directory tree by kind, artist, album
//! and title, with names made safe for file systems.
use vstd::prelude::*;
use crate::audio_cd::opt_text;
use crate::media::{extension_of, path_extension};
use crate::ml::{ContentType, content_type_text};
use crate::settings::{join_path, path_join};
use crate::text::{
    chars_of, concat, dec_digits, is_ws, owned, push_dec, push_str, string_of, trim_ws,
    trim_ws_vec,
};

verus! {

/// Moves ripped files into an organized tree.
pub struct SmartOrganizer {
    output_dir: String,
    rename_files: bool,
    create_nfo: bool,
    download_artwork: bool,
}

/// What the models found out about a file, as far as organizing it needs.
pub struct Identification {
    pub content_type: ContentType,
    pub title: Option<String>,
    pub artist: Option<String>,
    pub album: Option<String>,
    pub genre: Option<String>,
    pub year: Option<u32>,
}

/// Where a file went.
pub struct OrganizationResult {
    pub original_path: String,
    pub organized_path: String,
    pub content_type: String,
    pub title: String,
    pub artist: Option<String>,
    pub album: Option<String>,
    pub year: Option<u32>,
    pub quality: Option<String>,
}

/// Whether a character is unsafe in file names.
pub open spec fn unsafe_char(c: char) -> bool {
    c == '<' || c == '>' || c == ':' || c == '"' || c == '/' || c == '\\' || c == '|' || c == '?'
        || c == '*'
}

/// A name made safe for file systems: each unsafe character becomes `_`,
/// then the surrounding white space goes.
pub open spec fn sanitized(name: Seq<char>) -> Seq<char> {
    trim_ws(name.map_values(|c: char| if unsafe_char(c) { '_' } else { c }))
}

/// Makes a name safe for file systems.
pub fn sanitize_filename(name: &str) -> (r: String)
    ensures
        r@ == sanitized(name@),
{
    let v = chars_of(name);
    let mut m: Vec<char> = Vec::new();
    let mut i: usize = 0;
    while i < v.len()
        invariant
            i <= v@.len(),
            v@ == name@,
            m@ == name@.subrange(0, i as int).map_values(
                |c: char| if unsafe_char(c) { '_' } else { c },
            ),
        decreases v.len() - i,
    {
        let c = v[i];
        let d = if c == '<' || c == '>' || c == ':' || c == '"' || c == '/' || c == '\\' || c == '|'
            || c == '?' || c == '*' {
            '_'
        } else {
            c
        };
        m.push(d);
        proof {
            assert(m@ =~= name@.subrange(0, i + 1).map_values(
                |c: char| if unsafe_char(c) { '_' } else { c },
            ));
        }
        i = i + 1;
    }
    proof {
        assert(name@.subrange(0, name@.len() as int) =~= name@);
    }
    let t = trim_ws_vec(&m);
    string_of(t.as_slice())
}

/// The text of an optional value, or a fallback.
pub open spec fn or_text(o: Option<String>, fallback: Seq<char>) -> Seq<char> {
    match o {
        Some(s) => s@,
        None => fallback,
    }
}

/// `title.ext`.
pub open spec fn file_text(title: Seq<char>, ext: Seq<char>) -> Seq<char> {
    title + "."@ + ext
}

/// Where an identified file goes under `out`: music under
/// `Music/<artist>/<album>/<title>.<ext>`, a movie under
/// `Movies/<title> (<year>)/<title>.<ext>`, a show, a program or a game
/// under `TV Shows`, `Software` or `Games` in a directory of its title,
/// anything else under `Other`; each name is made safe, and unknown ones
/// read `Unknown ...`.
pub open spec fn organized_path(out: Seq<char>, ext: Seq<char>, id: Identification) -> Seq<char> {
    match id.content_type {
        ContentType::Music => path_join(
            path_join(
                path_join(path_join(out, "Music"@), sanitized(or_text(id.artist, "Unknown Artist"@))),
                sanitized(or_text(id.album, "Unknown Album"@)),
            ),
            file_text(sanitized(or_text(id.title, "Unknown Track"@)), ext),
        ),
        ContentType::Movie => {
            let t = sanitized(or_text(id.title, "Unknown Movie"@));
            let y = match id.year {
                Some(y) => dec_digits(y as nat),
                None => seq![],
            };
            path_join(path_join(path_join(out, "Movies"@), t + " ("@ + y + ")"@), file_text(t, ext))
        },
        ContentType::TvShow => {
            let t = sanitized(or_text(id.title, "Unknown Show"@));
            path_join(path_join(path_join(out, "TV Shows"@), t), file_text(t, ext))
        },
        ContentType::Software => {
            let t = sanitized(or_text(id.title, "Unknown Software"@));
            path_join(path_join(path_join(out, "Software"@), t), file_text(t, ext))
        },
        ContentType::Game => {
            let t = sanitized(or_text(id.title, "Unknown Game"@));
            path_join(path_join(path_join(out, "Games"@), t), file_text(t, ext))
        },
        _ => {
            let t = sanitized(or_text(id.title, "Unknown"@));
            path_join(path_join(out, "Other"@), file_text(t, ext))
        },
    }
}

/// The text of an optional value, or a fallback.
fn text_or(o: &Option<String>, fallback: &str) -> (r: String)
    ensures
        r@ == or_text(*o, fallback@),
{
    match o {
        Some(s) => owned(s.as_str()),
        None => owned(fallback),
    }
}

/// `title.ext`.
fn file_name(title: &str, ext: &str) -> (r: String)
    ensures
        r@ == file_text(title@, ext@),
{
    let a = concat(title, ".");
    concat(a.as_str(), ext)
}

/// Joins a kind's directory, a directory named by the title, and the file.
fn titled_path(out: &str, kind: &str, t: &str, ext: &str) -> (r: String)
    ensures
        r@ == path_join(path_join(path_join(out@, kind@), t@), file_text(t@, ext@)),
{
    let a = join_path(out, kind);
    let b = join_path(a.as_str(), t);
    let f = file_name(t, ext);
    join_path(b.as_str(), f.as_str())
}

impl SmartOrganizer {
    /// The tree's root.
    pub closed spec fn root(&self) -> Seq<char> {
        self.output_dir@
    }

    /// An organizer of files under `output_dir` that renames files and
    /// writes media-center notes, without artwork.
    pub fn new(output_dir: &str) -> (r: Self)
        ensures
            r.root() == output_dir@,
            r.renames(),
            r.writes_nfo(),
    {
        SmartOrganizer {
            output_dir: owned(output_dir),
            rename_files: true,
            create_nfo: true,
            download_artwork: false,
        }
    }

    /// Whether files are moved to their organized place.
    pub closed spec fn renames(&self) -> bool {
        self.rename_files
    }

    /// Whether a media-center note is written beside each file.
    pub closed spec fn writes_nfo(&self) -> bool {
        self.create_nfo
    }

    /// Whether files are moved to their organized place.
    pub fn rename_files(&self) -> (r: bool)
        ensures
            r == self.renames(),
    {
        self.rename_files
    }

    /// Whether a media-center note is written beside each file.
    pub fn create_nfo(&self) -> (r: bool)
        ensures
            r == self.writes_nfo(),
    {
        self.create_nfo
    }

    /// Where the file `original_path` goes, given what was identified.
    pub fn build_path(&self, original_path: &str, identification: &Identification) -> (r: String)
        ensures
            r@ == organized_path(self.root(), extension_of(original_path@), *identification),
    {
        let ext = path_extension(original_path);
        let out = self.output_dir.as_str();
        match identification.content_type {
            ContentType::Music => {
                let artist = sanitize_filename(text_or(&identification.artist, "Unknown Artist").as_str());
                let album = sanitize_filename(text_or(&identification.album, "Unknown Album").as_str());
                let title = sanitize_filename(text_or(&identification.title, "Unknown Track").as_str());
                let a = join_path(out, "Music");
                let b = join_path(a.as_str(), artist.as_str());
                let c = join_path(b.as_str(), album.as_str());
                let f = file_name(title.as_str(), ext.as_str());
                join_path(c.as_str(), f.as_str())
            },
            ContentType::Movie => {
                let t = sanitize_filename(text_or(&identification.title, "Unknown Movie").as_str());
                let mut dir: Vec<char> = Vec::new();
                push_str(&mut dir, t.as_str());
                push_str(&mut dir, " (");
                match identification.year {
                    Some(y) => push_dec(&mut dir, y as u64, 0),
                    None => {},
                }
                push_str(&mut dir, ")");
                let d = string_of(dir.as_slice());
                let a = join_path(out, "Movies");
                let b = join_path(a.as_str(), d.as_str());
                let f = file_name(t.as_str(), ext.as_str());
                proof {
                    let y = match identification.year {
                        Some(y) => dec_digits(y as nat),
                        None => seq![],
                    };
                    assert(d@ =~= t@ + " ("@ + y + ")"@);
                }
                join_path(b.as_str(), f.as_str())
            },
            ContentType::TvShow => {
                let t = sanitize_filename(text_or(&identification.title, "Unknown Show").as_str());
                titled_path(out, "TV Shows", t.as_str(), ext.as_str())
            },
            ContentType::Software => {
                let t = sanitize_filename(text_or(&identification.title, "Unknown Software").as_str());
                titled_path(out, "Software", t.as_str(), ext.as_str())
            },
            ContentType::Game => {
                let t = sanitize_filename(text_or(&identification.title, "Unknown Game").as_str());
                titled_path(out, "Games", t.as_str(), ext.as_str())
            },
            _ => {
                let t = sanitize_filename(text_or(&identification.title, "Unknown").as_str());
                let a = join_path(out, "Other");
                let f = file_name(t.as_str(), ext.as_str());
                join_path(a.as_str(), f.as_str())
            },
        }
    }

    /// What `organize` reports of a file moved from `original_path` to
    /// `organized_path`.
    pub fn result_for(original_path: &str, organized_path: &str, identification: &Identification) -> (r:
        OrganizationResult)
        ensures
            r.original_path@ == original_path@,
            r.organized_path@ == organized_path@,
            r.content_type@ == content_type_text(identification.content_type),
            r.title@ == or_text(identification.title, ""@),
            opt_text(r.artist) == opt_text(identification.artist),
            opt_text(r.album) == opt_text(identification.album),
            r.year == identification.year,
            r.quality is None,
    {
        OrganizationResult {
            original_path: owned(original_path),
            organized_path: owned(organized_path),
            content_type: identification.content_type.name(),
            title: text_or(&identification.title, ""),
            artist: clone_opt(&identification.artist),
            album: clone_opt(&identification.album),
            year: identification.year,
            quality: None,
        }
    }
}

/// The XML declaration that begins a media-center note.
pub open spec fn nfo_head() -> Seq<char> {
    "<?xml version=\"1.0\" encoding=\"UTF-8\"?>\n"@
}

/// The year of an identification as a note shows it: `0` where unknown.
pub open spec fn nfo_year(y: Option<u32>) -> Seq<char> {
    match y {
        Some(y) => dec_digits(y as nat),
        None => dec_digits(0),
    }
}

/// The media-center note (`.nfo`) of identified content: an album with
/// title, artist, year and genre for music; a movie with title, year and
/// genre; otherwise an item with its title and kind. Unknown text is empty.
pub open spec fn nfo_text(id: Identification) -> Seq<char> {
    let title = or_text(id.title, ""@);
    let genre = or_text(id.genre, ""@);
    match id.content_type {
        ContentType::Music => nfo_head() + "<album>\n\t<title>"@ + title + "</title>\n\t<artist>"@
            + or_text(id.artist, ""@) + "</artist>\n\t<year>"@ + nfo_year(id.year)
            + "</year>\n\t<genre>"@ + genre + "</genre>\n</album>"@,
        ContentType::Movie => nfo_head() + "<movie>\n\t<title>"@ + title + "</title>\n\t<year>"@
            + nfo_year(id.year) + "</year>\n\t<genre>"@ + genre + "</genre>\n</movie>"@,
        _ => nfo_head() + "<item>\n\t<title>"@ + title + "</title>\n\t<type>"@ + content_type_text(
            id.content_type,
        ) + "</type>\n</item>"@,
    }
}

/// Appends the text of an optional string, nothing where there is none.
fn push_opt(out: &mut Vec<char>, o: &Option<String>)
    ensures
        final(out)@ == old(out)@ + or_text(*o, ""@),
{
    match o {
        Some(s) => push_str(out, s.as_str()),
        None => {
            proof {
                assert(""@.len() == 0) by {
                    reveal_strlit("");
                }
                assert(out@ + ""@ =~= out@);
            }
        },
    }
}

/// Appends a year as a note shows it.
fn push_year(out: &mut Vec<char>, y: Option<u32>)
    ensures
        final(out)@ == old(out)@ + nfo_year(y),
{
    let n: u64 = match y {
        Some(y) => y as u64,
        None => 0,
    };
    push_dec(out, n, 0);
}

impl SmartOrganizer {
    /// The media-center note written beside an organized file.
    pub fn nfo_content(identification: &Identification) -> (r: String)
        ensures
            r@ == nfo_text(*identification),
    {
        let mut v: Vec<char> = Vec::new();
        push_str(&mut v, "<?xml version=\"1.0\" encoding=\"UTF-8\"?>\n");
        match identification.content_type {
            ContentType::Music => {
                push_str(&mut v, "<album>\n\t<title>");
                push_opt(&mut v, &identification.title);
                push_str(&mut v, "</title>\n\t<artist>");
                push_opt(&mut v, &identification.artist);
                push_str(&mut v, "</artist>\n\t<year>");
                push_year(&mut v, identification.year);
                push_str(&mut v, "</year>\n\t<genre>");
                push_opt(&mut v, &identification.genre);
                push_str(&mut v, "</genre>\n</album>");
            },
            ContentType::Movie => {
                push_str(&mut v, "<movie>\n\t<title>");
                push_opt(&mut v, &identification.title);
                push_str(&mut v, "</title>\n\t<year>");
                push_year(&mut v, identification.year);
                push_str(&mut v, "</year>\n\t<genre>");
                push_opt(&mut v, &identification.genre);
                push_str(&mut v, "</genre>\n</movie>");
            },
            _ => {
                push_str(&mut v, "<item>\n\t<title>");
                push_opt(&mut v, &identification.title);
                push_str(&mut v, "</title>\n\t<type>");
                let kind = identification.content_type.name();
                push_str(&mut v, kind.as_str());
                push_str(&mut v, "</type>\n</item>");
            },
        }
        proof {
            assert(v@ =~= nfo_text(*identification));
        }
        string_of(v.as_slice())
    }
}

/// A copy of an optional string.
fn clone_opt(o: &Option<String>) -> (r: Option<String>)
    ensures
        opt_text(r) == opt_text(*o),
{
    match o {
        Some(s) => Some(owned(s.as_str())),
        None => None,
    }
}

/// Every character of the trimmed text is one of the text's.
proof fn lemma_trim_keeps_chars(s: Seq<char>)
    ensures
        forall|i: int|
            0 <= i < trim_ws(s).len() ==> exists|j: int| 0 <= j < s.len() && s[j] == #[trigger] trim_ws(
                s,
            )[i],
{
    lemma_trim_end_keeps(s);
    lemma_trim_start_keeps(crate::text::trim_end_ws(s));
    assert forall|i: int| 0 <= i < trim_ws(s).len() implies exists|j: int|
        0 <= j < s.len() && s[j] == #[trigger] trim_ws(s)[i] by {
        let e = crate::text::trim_end_ws(s);
        let k = choose|k: int| 0 <= k < e.len() && e[k] == trim_ws(s)[i];
        assert(s[k] == e[k]);
    }
}

/// Trimming the end leaves a beginning of the text.
proof fn lemma_trim_end_keeps(s: Seq<char>)
    ensures
        crate::text::trim_end_ws(s).len() <= s.len(),
        forall|i: int|
            0 <= i < crate::text::trim_end_ws(s).len() ==> #[trigger] crate::text::trim_end_ws(s)[i]
                == s[i],
    decreases s.len(),
{
    if s.len() > 0 && is_ws(s.last()) {
        lemma_trim_end_keeps(s.drop_last());
    }
}

/// Trimming the start leaves an end of the text.
proof fn lemma_trim_start_keeps(s: Seq<char>)
    ensures
        forall|i: int|
            0 <= i < crate::text::trim_start_ws(s).len() ==> exists|j: int|
                0 <= j < s.len() && s[j] == #[trigger] crate::text::trim_start_ws(s)[i],
    decreases s.len(),
{
    if s.len() > 0 && is_ws(s[0]) {
        lemma_trim_start_keeps(s.drop_first());
        assert forall|i: int| 0 <= i < crate::text::trim_start_ws(s).len() implies exists|j: int|
            0 <= j < s.len() && s[j] == #[trigger] crate::text::trim_start_ws(s)[i] by {
            let t = s.drop_first();
            let j = choose|j: int| 0 <= j < t.len() && t[j] == crate::text::trim_start_ws(t)[i];
            assert(s[j + 1] == t[j]);
        }
    } else {
        assert forall|i: int| 0 <= i < crate::text::trim_start_ws(s).len() implies exists|j: int|
            0 <= j < s.len() && s[j] == #[trigger] crate::text::trim_start_ws(s)[i] by {
            assert(s[i] == crate::text::trim_start_ws(s)[i]);
        }
    }
}

/// A name made safe holds none of the characters that file systems refuse.
pub proof fn law_sanitized_is_safe(name: Seq<char>)
    ensures
        forall|i: int| 0 <= i < sanitized(name).len() ==> !unsafe_char(#[trigger] sanitized(name)[i]),
{
    let m = name.map_values(|c: char| if unsafe_char(c) { '_' } else { c });
    lemma_trim_keeps_chars(m);
    assert forall|i: int| 0 <= i < sanitized(name).len() implies !unsafe_char(
        #[trigger] sanitized(name)[i],
    ) by {
        let j = choose|j: int| 0 <= j < m.len() && m[j] == trim_ws(m)[i];
        assert(m[j] == (if unsafe_char(name[j]) { '_' } else { name[j] }));
    }
}

/// `path_join(base, name)` begins with `base`.
proof fn lemma_join_prefix(base: Seq<char>, name: Seq<char>)
    ensures
        base.len() <= path_join(base, name).len(),
        path_join(base, name).subrange(0, base.len() as int) == base,
{
    if base.len() == 0 {
        assert(path_join(base, name).subrange(0, 0) =~= base);
    } else if base.last() == '/' {
        assert((base + name).subrange(0, base.len() as int) =~= base);
    } else {
        assert((base + "/"@ + name).subrange(0, base.len() as int) =~= base);
    }
}

/// A prefix of a prefix is a prefix.
proof fn lemma_prefix_trans(a: Seq<char>, b: Seq<char>, c: Seq<char>)
    requires
        a.len() <= b.len(),
        b.subrange(0, a.len() as int) == a,
        b.len() <= c.len(),
        c.subrange(0, b.len() as int) == b,
    ensures
        a.len() <= c.len(),
        c.subrange(0, a.len() as int) == a,
{
    assert(c.subrange(0, a.len() as int) =~= b.subrange(0, a.len() as int));
}

/// Every organized path lies under the organizer's root.
pub proof fn law_organized_under_root(out: Seq<char>, ext: Seq<char>, id: Identification)
    ensures
        out.len() <= organized_path(out, ext, id).len(),
        organized_path(out, ext, id).subrange(0, out.len() as int) == out,
{
    let p = organized_path(out, ext, id);
    match id.content_type {
        ContentType::Music => {
            let a = path_join(out, "Music"@);
            let b = path_join(a, sanitized(or_text(id.artist, "Unknown Artist"@)));
            let c = path_join(b, sanitized(or_text(id.album, "Unknown Album"@)));
            lemma_join_prefix(out, "Music"@);
            lemma_join_prefix(a, sanitized(or_text(id.artist, "Unknown Artist"@)));
            lemma_join_prefix(b, sanitized(or_text(id.album, "Unknown Album"@)));
            lemma_join_prefix(c, file_text(sanitized(or_text(id.title, "Unknown Track"@)), ext));
            lemma_prefix_trans(out, a, b);
            lemma_prefix_trans(out, b, c);
            lemma_prefix_trans(out, c, p);
        },
        ContentType::Movie => {
            let t = sanitized(or_text(id.title, "Unknown Movie"@));
            let y = match id.year {
                Some(y) => dec_digits(y as nat),
                None => seq![],
            };
            let a = path_join(out, "Movies"@);
            let b = path_join(a, t + " ("@ + y + ")"@);
            lemma_join_prefix(out, "Movies"@);
            lemma_join_prefix(a, t + " ("@ + y + ")"@);
            lemma_join_prefix(b, file_text(t, ext));
            lemma_prefix_trans(out, a, b);
            lemma_prefix_trans(out, b, p);
        },
        ContentType::TvShow | ContentType::Software | ContentType::Game => {
            let (kind, fallback) = match id.content_type {
                ContentType::TvShow => ("TV Shows"@, "Unknown Show"@),
                ContentType::Software => ("Software"@, "Unknown Software"@),
                _ => ("Games"@, "Unknown Game"@),
            };
            let t = sanitized(or_text(id.title, fallback));
            let a = path_join(out, kind);
            let b = path_join(a, t);
            lemma_join_prefix(out, kind);
            lemma_join_prefix(a, t);
            lemma_join_prefix(b, file_text(t, ext));
            lemma_prefix_trans(out, a, b);
            lemma_prefix_trans(out, b, p);
        },
        _ => {
            let t = sanitized(or_text(id.title, "Unknown"@));
            let a = path_join(out, "Other"@);
            lemma_join_prefix(out, "Other"@);
            lemma_join_prefix(a, file_text(t, ext));
            lemma_prefix_trans(out, a, p);
        },
    }
}

} // verus!

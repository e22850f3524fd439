//! The calls into other crates, and what the client takes to hold of them.
//!
//! Nothing in this module is proved: each function makes a call, and its contract is believed.

use vstd::prelude::*;
use vstd::utf8::is_ascii_chars;

use crate::archive::{
    ArchiveEntry, ArchiveEntryView, EntryRefusal, METHOD_AES, RefusalView, bytes_view,
    ends_in_separator, joins_plainly, may_open, name_pieces,
};
use crate::conf::text_view;
use crate::paths::PathPieces;
use crate::process::{BEGIN_POST_PROCESSING, BLENDER_VERSION, RENDER_PROGRESS, SAMPLE_SPEED};
use crate::screen::{Area, split_in};
use crate::text::views;

verus! {

// Letters

/// An ASCII letter in lower case; any other character as it is.
pub open spec fn ascii_lower(c: char) -> char {
    if 'A' <= c <= 'Z' {
        (c as u32 + 32) as char
    } else {
        c
    }
}

/// What `str::to_lowercase` makes of a text that is not all ASCII.
pub uninterp spec fn unicode_lowercase(s: Seq<char>) -> Seq<char>;

/// A text in lower case.
pub open spec fn lowered(s: Seq<char>) -> Seq<char> {
    if is_ascii_chars(s) {
        s.map_values(|c: char| ascii_lower(c))
    } else {
        unicode_lowercase(s)
    }
}

/// `str::to_lowercase`. In a text that is all ASCII each letter turns into its lower case and
/// every other character stays; of another text the result is only named.
#[verifier::external_body]
pub(crate) fn lowercase(s: &str) -> (r: String)
    ensures
        is_ascii_chars(s@) ==> r@ == s@.map_values(|c: char| ascii_lower(c)),
        !is_ascii_chars(s@) ==> r@ == unicode_lowercase(s@),
{
    s.to_lowercase()
}

// URLs

/// What `Url::parse` makes of a text: the serialised URL, or the text of its error.
pub uninterp spec fn parsed_url(s: Seq<char>) -> Result<Seq<char>, Seq<char>>;

/// `Url::parse` of the url crate: a function of the text alone. The URL comes back serialised,
/// the error as its message.
#[verifier::external_body]
pub(crate) fn parseUrl(s: &str) -> (r: Result<String, String>)
    ensures
        match r {
            Ok(url) => parsed_url(s@) == Ok::<Seq<char>, Seq<char>>(url@),
            Err(e) => parsed_url(s@) == Err::<Seq<char>, Seq<char>>(e@),
        },
{
    match reqwest::Url::parse(s) {
        Ok(url) => Ok(url.to_string()),
        Err(e) => Err(e.to_string()),
    }
}

/// What `PathSegmentsMut::extend` makes of a URL; nothing where the text is no URL, or one that
/// has no path to extend.
pub uninterp spec fn extended_url(url: Seq<char>, segments: Seq<Seq<char>>) -> Option<Seq<char>>;

/// `PathSegmentsMut::extend` of the url crate: the URL with the segments behind its path, a
/// function of the two alone. There is no result where the text is no URL, or where the URL is
/// one that cannot be a base.
#[verifier::external_body]
pub(crate) fn extendUrl(url: &str, segments: &Vec<String>) -> (r: Option<String>)
    ensures
        match r {
            Some(u) => extended_url(url@, views(segments@)) == Some(u@),
            None => extended_url(url@, views(segments@)) is None,
        },
{
    let mut url = reqwest::Url::parse(url).ok()?;
    url.path_segments_mut().ok()?.extend(segments);
    Some(url.to_string())
}

/// What `urlencoding::decode` makes of a text with a percent sign in it; nothing where the bytes
/// that come out are no text.
pub uninterp spec fn percent_decoded(s: Seq<char>) -> Option<Seq<char>>;

/// A text with its percent sequences decoded.
pub open spec fn decoded(s: Seq<char>) -> Option<Seq<char>> {
    if s.contains('%') {
        percent_decoded(s)
    } else {
        Some(s)
    }
}

/// `urlencoding::decode`. A text without a percent sign comes back as it is; of another the
/// result is only named.
#[verifier::external_body]
pub(crate) fn percentDecode(s: &str) -> (r: Option<String>)
    ensures
        match r {
            Some(d) => if s@.contains('%') {
                percent_decoded(s@) == Some(d@)
            } else {
                d@ == s@
            },
            None => s@.contains('%') && percent_decoded(s@) is None,
        },
{
    urlencoding::decode(s).ok().map(|d| d.into_owned())
}

// Digests

/// A digest in the making, of the md5 crate.
#[verifier::external_type_specification]
#[verifier::external_body]
pub struct ExContext(md5::Context);

/// The bytes that a digest in the making has taken in, in order.
pub uninterp spec fn consumed(context: md5::Context) -> Seq<u8>;

/// The MD5 digest of some bytes.
pub uninterp spec fn md5_digest(data: Seq<u8>) -> Seq<u8>;

/// `md5::Context::new`: nothing is taken in yet.
#[verifier::external_body]
pub(crate) fn md5Context() -> (r: md5::Context)
    ensures
        consumed(r) == Seq::<u8>::empty(),
{
    md5::Context::new()
}

/// `md5::Context::consume`: the bytes are taken in behind those before.
#[verifier::external_body]
pub(crate) fn md5Consume(context: &mut md5::Context, data: &[u8])
    ensures
        consumed(*final(context)) == consumed(*old(context)) + data@,
    no_unwind
{
    context.consume(data);
}

/// `md5::Context::compute`: the digest, a function of the bytes that were taken in alone.
#[verifier::external_body]
pub(crate) fn md5Compute(context: md5::Context) -> (r: [u8; 16])
    ensures
        r@ == md5_digest(consumed(context)),
{
    context.compute().0
}

// Chance

/// `rand::Rng::gen_range` on the thread's generator: some number from `low` to `high`, both
/// included. Which one is left to chance.
#[verifier::external_body]
pub(crate) fn randomBetween(low: u32, high: u32) -> (r: u32)
    requires
        low <= high,
    ensures
        low <= r <= high,
{
    rand::Rng::gen_range(&mut rand::thread_rng(), low..=high)
}

// Patterns

/// What the groups of a match hold.
pub open spec fn capture_views(captures: Seq<Option<String>>) -> Seq<Option<Seq<char>>> {
    captures.map_values(|c: Option<String>| text_view(c))
}

/// What `Regex::captures` finds in a text: the groups of the first match, the whole match first.
pub uninterp spec fn regex_captures(pattern: Seq<char>, text: Seq<char>) -> Option<
    Seq<Option<Seq<char>>>,
>;

/// `Regex::captures` of the regex crate, with the pattern compiled by `Regex::new`: the groups of
/// the first match, a function of the pattern and the text alone. Only the patterns of this client
/// are admitted: they compile.
#[verifier::external_body]
pub(crate) fn regexCaptures(pattern: &str, text: &str) -> (r: Option<Vec<Option<String>>>)
    requires
        pattern@ == BLENDER_VERSION@ || pattern@ == RENDER_PROGRESS@ || pattern@
            == BEGIN_POST_PROCESSING@ || pattern@ == SAMPLE_SPEED@,
    ensures
        match r {
            Some(captures) => regex_captures(pattern@, text@) == Some(capture_views(captures@)),
            None => regex_captures(pattern@, text@) is None,
        },
{
    let captures = regex::Regex::new(pattern).unwrap().captures(text)?;
    Some(captures.iter().map(|m| m.map(|m| m.as_str().to_string())).collect())
}

// The screen

/// `Layout::split` of the ratatui crate, on a vertical layout of a fixed length and a part that
/// fills the rest, whatever its weight. The solver holds the ends of the area and the order of the
/// parts above all, then the gaps before and between the parts empty, then the length, then the
/// filling: so the length is met as far as there is room, and the filling part has the rest.
#[verifier::external_body]
pub(crate) fn splitFrame(area: Area, length: u16, fill: u16) -> (r: (Area, Area))
    ensures
        r == split_in(area, length),
{
    let area = ratatui::layout::Rect {
        x: area.x,
        y: area.y,
        width: area.width,
        height: area.height,
    };
    let parts = ratatui::layout::Layout::vertical(
        [ratatui::layout::Constraint::Length(length), ratatui::layout::Constraint::Fill(fill)],
    ).split(area);
    let plain = |p: ratatui::layout::Rect| Area { x: p.x, y: p.y, width: p.width, height: p.height };
    (plain(parts[0]), plain(parts[1]))
}

/// How many cells of a terminal `Span::width` counts for a text.
pub uninterp spec fn text_width(s: Seq<char>) -> nat;

/// `Span::width` of the ratatui crate: how many cells a text takes, a function of the text alone.
#[verifier::external_body]
pub(crate) fn textWidth(s: &str) -> (r: usize)
    ensures
        r == text_width(s@),
{
    ratatui::text::Span::raw(s).width()
}

// Archives

/// A place in some bytes, of std: what an archive in memory is read through.
#[verifier::external_type_specification]
#[verifier::external_body]
#[verifier::reject_recursive_types(T)]
pub struct ExCursor<T>(std::io::Cursor<T>);

/// An archive that was opened, of the zip crate.
#[verifier::external_type_specification]
#[verifier::external_body]
#[verifier::reject_recursive_types(R)]
pub struct ExZipArchive<R>(zip::ZipArchive<R>);

/// The bytes that an archive was opened on.
pub uninterp spec fn archived(archive: zip::ZipArchive<std::io::Cursor<&[u8]>>) -> Seq<u8>;

/// Why `ZipArchive::new` takes some bytes for no archive, in its words; nothing where it takes
/// them for one.
pub uninterp spec fn archive_error(bytes: Seq<u8>) -> Option<Seq<char>>;

/// How many entries `ZipArchive::len` counts in the archive that some bytes are.
pub uninterp spec fn archive_length(bytes: Seq<u8>) -> nat;

/// What `ZipArchive::by_index_raw` tells of an entry, or the text of its error.
pub uninterp spec fn archive_entry(bytes: Seq<u8>, i: nat) -> Result<ArchiveEntryView, Seq<char>>;

/// Why `ZipArchive::by_index_decrypt`, or `by_index` without a password, does not open an entry;
/// nothing where it does.
pub uninterp spec fn entry_refused(
    bytes: Seq<u8>,
    password: Option<Seq<u8>>,
    i: nat,
) -> Option<RefusalView>;

/// What `Read::read_to_end` gives of an opened entry: what the file holds, or the text of the
/// error.
pub uninterp spec fn entry_content(bytes: Seq<u8>, password: Option<Seq<u8>>, i: nat) -> Result<
    Seq<u8>,
    Seq<char>,
>;

/// `ZipArchive::new` of the zip crate, on bytes in memory: whether they are taken for an archive,
/// and the text of the error, are a function of the bytes alone.
#[verifier::external_body]
pub(crate) fn openArchive<'a>(bytes: &'a [u8]) -> (r: Result<
    zip::ZipArchive<std::io::Cursor<&'a [u8]>>,
    String,
>)
    ensures
        match r {
            Ok(archive) => archived(archive) == bytes@ && archive_error(bytes@) is None,
            Err(e) => archive_error(bytes@) == Some(e@),
        },
{
    zip::ZipArchive::new(std::io::Cursor::new(bytes)).map_err(|e| e.to_string())
}

/// `ZipArchive::len` of the zip crate: the number of entries, a function of the bytes alone.
#[verifier::external_body]
pub(crate) fn archiveLength(archive: &zip::ZipArchive<std::io::Cursor<&[u8]>>) -> (r: usize)
    ensures
        r == archive_length(archived(*archive)),
{
    archive.len()
}

/// `ZipArchive::by_index_raw` of the zip crate: what the archive tells of an entry, a function of
/// the bytes and the place alone. An entry is a folder if its name ends in a separator, and else a
/// file. Its header, of which the flags are the ninth byte and the tenth, lies within the bytes.
#[verifier::external_body]
pub(crate) fn archiveEntry(
    archive: &mut zip::ZipArchive<std::io::Cursor<&[u8]>>,
    i: usize,
) -> (r: Result<ArchiveEntry, String>)
    ensures
        archived(*final(archive)) == archived(*old(archive)),
        match r {
            Ok(e) => {
                &&& archive_entry(archived(*old(archive)), i as nat) == Ok::<
                    ArchiveEntryView,
                    Seq<char>,
                >(e@)
                &&& e.isDir == ends_in_separator(e.name@)
                &&& e.isFile == !e.isDir
                &&& e.header + 46 <= archived(*old(archive)).len()
            },
            Err(e) => archive_entry(archived(*old(archive)), i as nat) == Err::<
                ArchiveEntryView,
                Seq<char>,
            >(e@),
        },
    no_unwind
{
    let entry = archive.by_index_raw(i).map_err(|e| e.to_string())?;
    #[allow(deprecated)]
    Ok(ArchiveEntry {
        name: entry.name().to_string(),
        isDir: entry.is_dir(),
        isFile: entry.is_file(),
        supported: !matches!(entry.compression(), zip::CompressionMethod::Unsupported(_)),
        method: entry.compression().to_u16(),
        packedSize: entry.compressed_size(),
        extra: entry.extra_data().to_vec(),
        header: entry.central_header_start(),
    })
}

/// `ZipFile::mangled_name` of the zip crate, piece by piece: the pieces of the entry's name, but
/// for those that lead nowhere or upwards. Nothing is said of a name that one platform takes for
/// one with a drive or a share in it, and another does not.
#[verifier::external_body]
pub(crate) fn entryPath(archive: &mut zip::ZipArchive<std::io::Cursor<&[u8]>>, i: usize) -> (r:
    Option<PathPieces>)
    ensures
        archived(*final(archive)) == archived(*old(archive)),
        match archive_entry(archived(*old(archive)), i as nat) {
            Ok(e) => r is Some && (joins_plainly(e.name) ==> r->0@ == name_pieces(e.name)),
            Err(_) => r is None,
        },
    no_unwind
{
    let path = archive.by_index_raw(i).ok()?.mangled_name();
    Some(PathPieces {
        pieces: path.components().map(|c| c.as_os_str().to_string_lossy().into_owned()).collect(),
    })
}

/// `ZipArchive::by_index_decrypt` of the zip crate, and `by_index` where there is no password:
/// whether an entry can be opened, a function of the bytes, the password and the place alone. What
/// they panic on is left out.
#[verifier::external_body]
pub(crate) fn openEntry(
    archive: &mut zip::ZipArchive<std::io::Cursor<&[u8]>>,
    password: Option<&[u8]>,
    i: usize,
) -> (r: Option<EntryRefusal>)
    requires
        archive_entry(archived(*old(archive)), i as nat) matches Ok(e) ==> may_open(
            archived(*old(archive)),
            bytes_view(password),
            e,
        ),
    ensures
        archived(*final(archive)) == archived(*old(archive)),
        match r {
            Some(refusal) => entry_refused(
                archived(*old(archive)),
                bytes_view(password),
                i as nat,
            ) == Some(refusal@),
            None => entry_refused(
                archived(*old(archive)),
                bytes_view(password),
                i as nat,
            ) is None,
        },
    no_unwind
{
    let opened = match password {
        Some(password) => archive.by_index_decrypt(i, password),
        None => archive.by_index(i).map(Ok),
    };
    match opened {
        Ok(Ok(_)) => None,
        Ok(Err(_)) => Some(EntryRefusal::WrongPassword),
        Err(e) => Some(EntryRefusal::Failed(e.to_string())),
    }
}

/// `Read::read_to_end` on a `ZipFile` of the zip crate, which is opened as above: what a file
/// holds, a function of the bytes, the password and the place alone. What it panics on is left out.
#[verifier::external_body]
pub(crate) fn entryContent(
    archive: &mut zip::ZipArchive<std::io::Cursor<&[u8]>>,
    password: Option<&[u8]>,
    i: usize,
) -> (r: Result<Vec<u8>, String>)
    requires
        archive_entry(archived(*old(archive)), i as nat) matches Ok(e) ==> may_open(
            archived(*old(archive)),
            bytes_view(password),
            e,
        ) && e.method != METHOD_AES,
    ensures
        archived(*final(archive)) == archived(*old(archive)),
        match r {
            Ok(content) => entry_content(
                archived(*old(archive)),
                bytes_view(password),
                i as nat,
            ) == Ok::<Seq<u8>, Seq<char>>(content@),
            Err(e) => entry_content(archived(*old(archive)), bytes_view(password), i as nat)
                == Err::<Seq<u8>, Seq<char>>(e@),
        },
    no_unwind
{
    let opened = match password {
        Some(password) => archive.by_index_decrypt(i, password),
        None => archive.by_index(i).map(Ok),
    };
    let mut entry = opened.map_err(|e| e.to_string())?.map_err(|e| e.to_string())?;
    let mut content: Vec<u8> = Vec::new();
    std::io::Read::read_to_end(&mut entry, &mut content).map_err(|e| e.to_string())?;
    Ok(content)
}

} // verus!

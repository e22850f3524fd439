//! Archives that lie in memory.

use vstd::prelude::*;

use crate::files::{
    EntryStep, EntryView, FoldersCreated, UnzipMove, UnzipWorker, Unzipping, creates, entry_done,
    law_archive_unzipped, unzip_moved, unzip_start,
};
use crate::outside::{
    archive_entry, archive_error, archive_length, archiveEntry, archiveLength, archived,
    entry_content, entry_refused, entryContent, entryPath, openArchive, openEntry,
};
use crate::paths::PathPieces;

verus! {

/// What is held, if there is anything.
pub open spec fn bytes_view(bytes: Option<&[u8]>) -> Option<Seq<u8>> {
    match bytes {
        Some(b) => Some(b@),
        None => None,
    }
}

// Entries

/// The number of the method by which an entry is encrypted with AES. Within the encryption there
/// is another, by which the entry is packed.
pub const METHOD_AES: u16 = 99;

/// What an archive tells of an entry.
#[derive(Debug)]
pub struct ArchiveEntry {
    pub name: String,
    pub isDir: bool,
    pub isFile: bool,
    /// Whether there is a way to unpack it.
    pub supported: bool,
    /// The number of the method by which it is packed.
    pub method: u16,
    /// How many bytes it takes in the archive.
    pub packedSize: u64,
    /// Its extra data: records, each a kind, a length and the bytes.
    pub extra: Vec<u8>,
    /// Where its header in the archive's directory starts.
    pub header: u64,
}

/// What an archive tells of an entry.
pub struct ArchiveEntryView {
    pub name: Seq<char>,
    pub isDir: bool,
    pub isFile: bool,
    pub supported: bool,
    pub method: u16,
    pub packedSize: u64,
    pub extra: Seq<u8>,
    pub header: u64,
}

impl View for ArchiveEntry {
    type V = ArchiveEntryView;

    open spec fn view(&self) -> ArchiveEntryView {
        ArchiveEntryView {
            name: self.name@,
            isDir: self.isDir,
            isFile: self.isFile,
            supported: self.supported,
            method: self.method,
            packedSize: self.packedSize,
            extra: self.extra@,
            header: self.header,
        }
    }
}

/// Why an entry cannot be opened.
#[derive(Debug)]
pub enum EntryRefusal {
    WrongPassword,
    Failed(String),
}

/// Why an entry cannot be opened.
pub enum RefusalView {
    WrongPassword,
    Failed(Seq<char>),
}

impl View for EntryRefusal {
    type V = RefusalView;

    open spec fn view(&self) -> RefusalView {
        match self {
            EntryRefusal::WrongPassword => RefusalView::WrongPassword,
            EntryRefusal::Failed(e) => RefusalView::Failed(e@),
        }
    }
}

// Names

/// What parts the pieces of an entry's name, on every platform.
pub open spec fn is_separator(c: char) -> bool {
    c == '/' || c == '\\'
}

/// Whether a name is that of a folder.
pub open spec fn ends_in_separator(name: Seq<char>) -> bool {
    name.len() > 0 && is_separator(name.last())
}

/// A name up to the first character whose number is zero.
pub open spec fn before_nul(name: Seq<char>) -> Seq<char>
    decreases name.len(),
{
    if name.len() == 0 || name[0] == '\0' {
        Seq::empty()
    } else {
        seq![name[0]] + before_nul(name.skip(1))
    }
}

/// What stands between the separators.
pub open spec fn between_separators(name: Seq<char>) -> Seq<Seq<char>>
    decreases name.len(),
{
    if name.len() == 0 {
        seq![Seq::empty()]
    } else {
        let front = between_separators(name.drop_last());
        if is_separator(name.last()) {
            front.push(Seq::empty())
        } else {
            front.drop_last().push(front.last().push(name.last()))
        }
    }
}

/// Whether a piece of a name leads on: it is not empty and stands for neither the folder that it
/// is in nor the one above.
pub open spec fn leads_on(piece: Seq<char>) -> bool {
    piece.len() > 0 && piece != "."@ && piece != ".."@
}

/// The pieces of an entry's name, by which it stays below the folder that it is unpacked to.
pub open spec fn name_pieces(name: Seq<char>) -> Seq<Seq<char>> {
    between_separators(before_nul(name)).filter(|piece: Seq<char>| leads_on(piece))
}

/// Whether the pieces of a name mean the same on every platform: no share stands in front, and none
/// of them could be a drive.
pub open spec fn joins_plainly(name: Seq<char>) -> bool {
    let kept = before_nul(name);
    &&& !(kept.len() >= 2 && is_separator(kept[0]) && is_separator(kept[1]))
    &&& forall|k: int|
        0 <= k < name_pieces(name).len() ==> {
            let piece = #[trigger] name_pieces(name)[k];
            !(piece.len() >= 2 && piece[1] == ':')
        }
}

// Encryption

/// Whether an entry is marked as encrypted, in the flags of its header.
pub open spec fn encrypted(bytes: Seq<u8>, entry: ArchiveEntryView) -> bool {
    bytes[entry.header + 8] % 2 == 1
}

/// Whether a record on AES encryption stands at a place in an entry's extra data.
pub open spec fn aes_record(extra: Seq<u8>, k: int) -> bool {
    &&& 0 <= k
    &&& k + 11 <= extra.len()
    &&& extra[k] == 0x01
    &&& extra[k + 1] == 0x99
    &&& extra[k + 2] == 7
    &&& extra[k + 3] == 0
    &&& extra[k + 4] == 1 || extra[k + 4] == 2
    &&& extra[k + 5] == 0
    &&& extra[k + 6] == 0x41
    &&& extra[k + 7] == 0x45
    &&& 1 <= extra[k + 8] <= 3
}

/// How many bytes the encryption takes besides the file, if the record at a place is that on it:
/// the salt, as long as the strength has it, the check of the password, and the digest.
pub open spec fn aes_overhead(extra: Seq<u8>, k: int) -> int {
    4 + 4 * extra[k + 8] + 2 + 10
}

/// Whether an entry can be opened or be refused. It is neither where there is a way to unpack it,
/// but what is told of its encryption does not fit: it is not marked as encrypted, or shorter than
/// what the encryption takes. A record counts wherever in the extra data it stands, also inside
/// another, where the reader of the archive would not look for one.
pub open spec fn may_open(
    bytes: Seq<u8>,
    password: Option<Seq<u8>>,
    entry: ArchiveEntryView,
) -> bool {
    entry.supported ==> forall|k: int| #[trigger]
        aes_record(entry.extra, k) ==> if password is None {
            encrypted(bytes, entry)
        } else {
            encrypted(bytes, entry) ==> entry.packedSize >= aes_overhead(entry.extra, k)
        }
}

fn aesRecordAt(extra: &Vec<u8>, k: usize) -> (r: bool)
    requires
        k < extra@.len(),
    ensures
        r == aes_record(extra@, k as int),
{
    if extra.len() - k < 11 {
        return false;
    }
    let kind = extra[k] == 0x01 && extra[k + 1] == 0x99;
    let length = extra[k + 2] == 7 && extra[k + 3] == 0;
    let version = (extra[k + 4] == 1 || extra[k + 4] == 2) && extra[k + 5] == 0;
    let vendor = extra[k + 6] == 0x41 && extra[k + 7] == 0x45;
    let strength = 1 <= extra[k + 8] && extra[k + 8] <= 3;
    kind && length && version && vendor && strength
}

/// Whether an entry can be opened or be refused.
pub fn mayOpen(bytes: &[u8], password: Option<&[u8]>, entry: &ArchiveEntry) -> (r: bool)
    requires
        entry.header + 8 < bytes@.len(),
    ensures
        r == may_open(bytes@, bytes_view(password), entry@),
{
    if !entry.supported {
        return true;
    }
    let size: usize = bytes.len();
    assert(entry.header + 8 < size);
    let marked: bool = bytes[entry.header as usize + 8] % 2 == 1;
    let mut k: usize = 0;
    while k < entry.extra.len()
        invariant
            k <= entry.extra@.len(),
            entry.supported,
            marked == encrypted(bytes@, entry@),
            forall|j: int| #[trigger]
                aes_record(entry.extra@, j) && j < k ==> if password is None {
                    marked
                } else {
                    marked ==> entry.packedSize >= aes_overhead(entry.extra@, j)
                },
        decreases entry.extra@.len() - k,
    {
        if aesRecordAt(&entry.extra, k) {
            let fits = if password.is_none() {
                marked
            } else {
                !marked || entry.packedSize >= 16 + 4 * entry.extra[k + 8] as u64
            };
            if !fits {
                assert(aes_record(entry@.extra, k as int));
                return false;
            }
        }
        k += 1;
    }
    true
}

// Unpacking

/// An archive that was opened, with its bytes.
struct MemArchive<'a> {
    zipFile: &'a [u8],
    archive: zip::ZipArchive<std::io::Cursor<&'a [u8]>>,
}

/// An archive in memory that is being unpacked, by one worker.
pub struct MemUnzip<'a> {
    source: MemArchive<'a>,
    password: Option<&'a [u8]>,
    at: usize,
    folders: FoldersCreated,
}

/// An archive that is being unpacked: its bytes, the password if there is one, how many entries
/// were looked at, and the folders that were created.
pub struct MemUnzipView {
    pub zipFile: Seq<u8>,
    pub password: Option<Seq<u8>>,
    pub at: nat,
    pub folders: Set<Seq<Seq<char>>>,
}

impl<'a> View for MemUnzip<'a> {
    type V = MemUnzipView;

    closed spec fn view(&self) -> MemUnzipView {
        MemUnzipView {
            zipFile: self.source.zipFile@,
            password: bytes_view(self.password),
            at: self.at as nat,
            folders: self.folders@,
        }
    }
}

/// An entry that was unpacked: where it goes, what is to be done, and what the file holds if it is
/// extracted.
#[derive(Debug)]
pub struct Unpacked {
    pub path: PathPieces,
    pub did: EntryStep,
    pub content: Option<Vec<u8>>,
}

/// Why an entry was not unpacked.
#[derive(Debug)]
pub enum UnpackFailure {
    WrongPassword,
    /// The entry could not be opened.
    Failed(String),
    /// The file could not be read to its end.
    Content { path: PathPieces, cause: String },
    /// What is told of the entry's encryption does not fit.
    Unopenable,
    /// There is encryption within the encryption.
    Unreadable { path: PathPieces },
}

/// Before the first entry.
pub open spec fn mem_start(zipFile: Seq<u8>, password: Option<Seq<u8>>) -> MemUnzipView {
    MemUnzipView { zipFile, password, at: 0, folders: Set::empty() }
}

/// The only worker on an archive.
pub open spec fn only_worker() -> UnzipWorker {
    UnzipWorker { workerCount: 1, wi: 0, index: 0 }
}

/// Whether the entry at a place is opened, and this is what is told of it.
pub open spec fn entry_opened(
    zipFile: Seq<u8>,
    password: Option<Seq<u8>>,
    i: nat,
    entry: ArchiveEntryView,
) -> bool {
    &&& archive_entry(zipFile, i) == Ok::<ArchiveEntryView, Seq<char>>(entry)
    &&& may_open(zipFile, password, entry)
    &&& entry_refused(zipFile, password, i) is None
}

/// Whether this is why the entry at a place is not opened.
pub open spec fn entry_not_opened(
    zipFile: Seq<u8>,
    password: Option<Seq<u8>>,
    i: nat,
    failure: UnpackFailure,
) -> bool {
    let told = archive_entry(zipFile, i);
    let refused = entry_refused(zipFile, password, i);
    if told matches Ok(e) && !may_open(zipFile, password, e) {
        failure is Unopenable
    } else {
        match refused {
            Some(RefusalView::WrongPassword) => failure is WrongPassword,
            Some(RefusalView::Failed(m)) => failure matches UnpackFailure::Failed(e) && e@ == m,
            None => told matches Err(m) && failure matches UnpackFailure::Failed(e) && e@ == m,
        }
    }
}

/// Whether a path is where an entry of a name goes.
pub open spec fn goes_to(name: Seq<char>, path: Seq<Seq<char>>) -> bool {
    joins_plainly(name) ==> path == name_pieces(name)
}

/// Whether an entry was unpacked as it should: a folder that is not there yet is to be created, and
/// a file is to be extracted, with all that it holds.
pub open spec fn unpacked(
    before: MemUnzipView,
    entry: ArchiveEntryView,
    got: Unpacked,
    folders: Set<Seq<Seq<char>>>,
) -> bool {
    &&& entry_opened(before.zipFile, before.password, before.at, entry)
    &&& goes_to(entry.name, got.path@)
    &&& entry_done(
        only_worker(),
        before.folders,
        EntryView { path: got.path@, isDir: entry.isDir, isFile: entry.isFile },
        only_worker(),
        folders,
        got.did,
    )
    &&& match got.content {
        Some(content) => {
            &&& got.did is Extract
            &&& entry.method != METHOD_AES
            &&& entry_content(before.zipFile, before.password, before.at) == Ok::<
                Seq<u8>,
                Seq<char>,
            >(content@)
        },
        None => !(got.did is Extract),
    }
}

/// Whether this is why a file is not extracted, though it was opened.
pub open spec fn not_extracted(
    before: MemUnzipView,
    entry: ArchiveEntryView,
    failure: UnpackFailure,
) -> bool {
    &&& entry_opened(before.zipFile, before.password, before.at, entry)
    &&& entry.isFile
    &&& match failure {
        UnpackFailure::Content { path, cause } => {
            &&& entry.method != METHOD_AES
            &&& goes_to(entry.name, path@)
            &&& entry_content(before.zipFile, before.password, before.at) == Err::<
                Seq<u8>,
                Seq<char>,
            >(cause@)
        },
        UnpackFailure::Unreadable { path } => {
            &&& entry.method == METHOD_AES
            &&& goes_to(entry.name, path@)
        },
        _ => false,
    }
}

/// Whether an archive that is being unpacked goes on as it should.
pub open spec fn unpacking_led(
    before: MemUnzipView,
    after: MemUnzipView,
    r: Option<Result<Unpacked, UnpackFailure>>,
) -> bool {
    match r {
        None => before.at >= archive_length(before.zipFile) && after == before,
        Some(r) => {
            &&& before.at < archive_length(before.zipFile)
            &&& after == (MemUnzipView { at: before.at + 1, folders: after.folders, ..before })
            &&& match r {
                Ok(got) => archive_entry(before.zipFile, before.at) matches Ok(entry) && unpacked(
                    before,
                    entry,
                    got,
                    after.folders,
                ),
                Err(failure) => {
                    &&& after.folders == before.folders
                    &&& entry_not_opened(before.zipFile, before.password, before.at, failure) || (
                    archive_entry(before.zipFile, before.at) matches Ok(entry) && not_extracted(
                        before,
                        entry,
                        failure,
                    ))
                },
            }
        },
    }
}

/// Opens an archive that lies in memory.
pub fn unzipMem<'a>(zipFile: &'a [u8], password: Option<&'a [u8]>) -> (r: Result<
    MemUnzip<'a>,
    String,
>)
    ensures
        match r {
            Ok(unzip) => archive_error(zipFile@) is None && unzip@ == mem_start(
                zipFile@,
                bytes_view(password),
            ),
            Err(e) => archive_error(zipFile@) == Some(e@),
        },
{
    match openArchive(zipFile) {
        Ok(archive) => Ok(
            MemUnzip {
                source: MemArchive { zipFile, archive },
                password,
                at: 0,
                folders: FoldersCreated::none(),
            },
        ),
        Err(e) => Err(e),
    }
}

impl<'a> MemArchive<'a> {
    #[verifier::type_invariant]
    spec fn well_formed(self) -> bool {
        archived(self.archive) == self.zipFile@
    }

    fn length(&self) -> (r: usize)
        ensures
            r == archive_length(self.zipFile@),
    {
        proof {
            use_type_invariant(self);
        }
        archiveLength(&self.archive)
    }

    /// Opens the entry at a place, and gives what is told of it and where it goes.
    fn open(&mut self, password: Option<&[u8]>, i: usize) -> (r: Result<
        (ArchiveEntry, PathPieces),
        UnpackFailure,
    >)
        ensures
            final(self).zipFile == old(self).zipFile,
            match r {
                Ok((entry, path)) => entry_opened(
                    old(self).zipFile@,
                    bytes_view(password),
                    i as nat,
                    entry@,
                ) && goes_to(entry@.name, path@) && entry.isFile == !entry.isDir,
                Err(failure) => entry_not_opened(
                    old(self).zipFile@,
                    bytes_view(password),
                    i as nat,
                    failure,
                ),
            },
    {
        proof {
            use_type_invariant(&*self);
        }
        let told = archiveEntry(&mut self.archive, i);
        if let Ok(entry) = &told {
            if !mayOpen(self.zipFile, password, entry) {
                return Err(UnpackFailure::Unopenable);
            }
        }
        match openEntry(&mut self.archive, password, i) {
            Some(EntryRefusal::WrongPassword) => {
                return Err(UnpackFailure::WrongPassword);
            },
            Some(EntryRefusal::Failed(e)) => {
                return Err(UnpackFailure::Failed(e));
            },
            None => {},
        }
        match told {
            Ok(entry) => {
                let path = entryPath(&mut self.archive, i).unwrap();
                Ok((entry, path))
            },
            Err(e) => Err(UnpackFailure::Failed(e)),
        }
    }

    /// What the file at a place holds.
    fn content(&mut self, password: Option<&[u8]>, i: usize) -> (r: Result<Vec<u8>, String>)
        requires
            archive_entry(old(self).zipFile@, i as nat) matches Ok(e) ==> may_open(
                old(self).zipFile@,
                bytes_view(password),
                e,
            ) && e.method != METHOD_AES,
        ensures
            final(self).zipFile == old(self).zipFile,
            match r {
                Ok(content) => entry_content(
                    old(self).zipFile@,
                    bytes_view(password),
                    i as nat,
                ) == Ok::<Seq<u8>, Seq<char>>(content@),
                Err(e) => entry_content(old(self).zipFile@, bytes_view(password), i as nat)
                    == Err::<Seq<u8>, Seq<char>>(e@),
            },
    {
        proof {
            use_type_invariant(&*self);
        }
        entryContent(&mut self.archive, password, i)
    }
}

impl<'a> MemUnzip<'a> {
    /// Goes on to the next entry, until there is none.
    pub fn next(&mut self) -> (r: Option<Result<Unpacked, UnpackFailure>>)
        ensures
            unpacking_led(old(self)@, final(self)@, r),
    {
        let i: usize = self.at;
        if i >= self.source.length() {
            return None;
        }
        self.at = i + 1;
        let (entry, path) = match self.source.open(self.password, i) {
            Ok(found) => found,
            Err(failure) => {
                return Some(Err(failure));
            },
        };
        let mut content: Option<Vec<u8>> = None;
        if entry.isFile {
            if entry.method == METHOD_AES {
                return Some(Err(UnpackFailure::Unreadable { path }));
            }
            match self.source.content(self.password, i) {
                Ok(held) => {
                    content = Some(held);
                },
                Err(cause) => {
                    return Some(Err(UnpackFailure::Content { path, cause }));
                },
            }
        }
        let mut worker = UnzipWorker::new(1, 0);
        let did = worker.step(&mut self.folders, path.clone(), entry.isDir, entry.isFile);
        let got = Unpacked { path, did, content };
        assert(unpacked(old(self)@, entry@, got, self.folders@));
        Some(Ok(got))
    }
}

/// Whether an archive was unpacked to its end, and all went well.
pub open spec fn mem_unzipped(
    zipFile: Seq<u8>,
    password: Option<Seq<u8>>,
    states: Seq<MemUnzipView>,
    got: Seq<Unpacked>,
) -> bool {
    &&& states.len() == got.len() + 1
    &&& states[0] == mem_start(zipFile, password)
    &&& forall|i: int|
        0 <= i < got.len() ==> #[trigger] unpacking_led(
            states[i],
            states[i + 1],
            Some(Ok::<Unpacked, UnpackFailure>(got[i])),
        )
    &&& unpacking_led(states.last(), states.last(), None)
}

/// Whether the folder at a path is created for an entry.
pub open spec fn makes(got: Unpacked, path: Seq<Seq<char>>) -> bool {
    got.did is Create && got.path@ == path
}

/// When an archive was unpacked to its end, each of its entries was looked at once, in order; each
/// file was extracted to where its name says, with what it holds; each folder was created exactly
/// once; and nothing else was extracted or created.
pub proof fn law_mem_unzipped(
    zipFile: Seq<u8>,
    password: Option<Seq<u8>>,
    states: Seq<MemUnzipView>,
    got: Seq<Unpacked>,
)
    requires
        mem_unzipped(zipFile, password, states, got),
    ensures
        got.len() == archive_length(zipFile),
        forall|i: int|
            0 <= i < got.len() ==> {
                &&& archive_entry(zipFile, i as nat) matches Ok(entry)
                &&& goes_to(entry.name, (#[trigger] got[i]).path@)
                &&& entry.isDir ==> {
                    &&& !(got[i].did is Extract)
                    &&& exists|j: int| 0 <= j < got.len() && #[trigger] makes(got[j], got[i].path@)
                    &&& forall|j: int, k: int|
                        0 <= j < got.len() && 0 <= k < got.len() && #[trigger] makes(
                            got[j],
                            got[i].path@,
                        ) && #[trigger] makes(got[k], got[i].path@) ==> j == k
                }
                &&& !entry.isDir && entry.isFile ==> {
                    &&& got[i].did is Extract
                    &&& got[i].content matches Some(content)
                    &&& entry_content(zipFile, password, i as nat) == Ok::<Seq<u8>, Seq<char>>(
                        content@,
                    )
                }
                &&& !entry.isDir && !entry.isFile ==> got[i].did is Skip
            },
{
    let n = got.len() as int;
    lemma_mem_states(zipFile, password, states, got, n);
    let entries = Seq::new(got.len(), |i: int| entry_view(zipFile, got[i], i));
    let moves = Seq::new(got.len(), |i: int| UnzipMove { wi: 0, entry: i, did: got[i].did });
    let runs = Seq::new(
        (n + 1) as nat,
        |i: int|
            Unzipping { workers: seq![only_worker()], at: seq![i], folders: states[i].folders },
    );
    assert(runs[0].workers == unzip_start(1).workers);
    assert(runs[0].at == unzip_start(1).at);
    assert forall|i: int| 0 <= i < moves.len() implies #[trigger] unzip_moved(
        entries,
        runs[i],
        moves[i],
        runs[i + 1],
    ) by {
        lemma_mem_states(zipFile, password, states, got, i);
        assert(unpacking_led(
            states[i],
            states[i + 1],
            Some(Ok::<Unpacked, UnpackFailure>(got[i])),
        ));
        assert(runs[i + 1].at == runs[i].at.update(0, i + 1));
        assert(runs[i + 1].workers == runs[i].workers.update(0, runs[i + 1].workers[0]));
    }
    law_archive_unzipped(entries, 1, runs, moves);
    assert forall|i: int| 0 <= i < got.len() implies {
        &&& archive_entry(zipFile, i as nat) matches Ok(entry)
        &&& goes_to(entry.name, (#[trigger] got[i]).path@)
        &&& entry.isDir ==> {
            &&& !(got[i].did is Extract)
            &&& exists|j: int| 0 <= j < got.len() && #[trigger] makes(got[j], got[i].path@)
            &&& forall|j: int, k: int|
                0 <= j < got.len() && 0 <= k < got.len() && #[trigger] makes(got[j], got[i].path@)
                    && #[trigger] makes(got[k], got[i].path@) ==> j == k
        }
        &&& !entry.isDir && entry.isFile ==> {
            &&& got[i].did is Extract
            &&& got[i].content matches Some(content)
            &&& entry_content(zipFile, password, i as nat) == Ok::<Seq<u8>, Seq<char>>(content@)
        }
        &&& !entry.isDir && !entry.isFile ==> got[i].did is Skip
    } by {
        lemma_mem_states(zipFile, password, states, got, i);
        assert(unpacking_led(
            states[i],
            states[i + 1],
            Some(Ok::<Unpacked, UnpackFailure>(got[i])),
        ));
        if entries[i].isDir {
            let path = entries[i].path;
            let j = choose|j: int|
                0 <= j < moves.len() && #[trigger] creates(entries, moves[j], path);
            assert(makes(got[j], path));
            assert forall|j: int, k: int|
                0 <= j < got.len() && 0 <= k < got.len() && #[trigger] makes(got[j], path)
                    && #[trigger] makes(got[k], path) implies j == k by {
                assert(creates(entries, moves[j], path));
                assert(creates(entries, moves[k], path));
            }
        }
    }
}

/// The entry at a place, as the workers on an archive see it.
spec fn entry_view(zipFile: Seq<u8>, got: Unpacked, i: int) -> EntryView {
    let entry = archive_entry(zipFile, i as nat)->Ok_0;
    EntryView { path: got.path@, isDir: entry.isDir, isFile: entry.isFile }
}

/// How far an archive is unpacked after some of its entries.
proof fn lemma_mem_states(
    zipFile: Seq<u8>,
    password: Option<Seq<u8>>,
    states: Seq<MemUnzipView>,
    got: Seq<Unpacked>,
    i: int,
)
    requires
        mem_unzipped(zipFile, password, states, got),
        0 <= i <= got.len(),
    ensures
        states[i].zipFile == zipFile,
        states[i].password == password,
        states[i].at == i,
        i <= archive_length(zipFile),
    decreases i,
{
    if i > 0 {
        lemma_mem_states(zipFile, password, states, got, i - 1);
        assert(unpacking_led(
            states[i - 1],
            states[i - 1 + 1],
            Some(Ok::<Unpacked, UnpackFailure>(got[i - 1])),
        ));
    }
}

// What names and records are for

/// Whatever an entry is called, it stays below the folder that it is unpacked to: no piece leads
/// upwards or nowhere, and none holds a separator.
pub proof fn law_entry_stays_below(name: Seq<char>, k: int)
    requires
        0 <= k < name_pieces(name).len(),
    ensures
        name_pieces(name)[k].len() > 0,
        name_pieces(name)[k] != seq!['.'],
        name_pieces(name)[k] != seq!['.', '.'],
        !name_pieces(name)[k].contains('/'),
        !name_pieces(name)[k].contains('\\'),
{
    let parts = between_separators(before_nul(name));
    let keeps = |piece: Seq<char>| leads_on(piece);
    let piece = name_pieces(name)[k];
    reveal_strlit(".");
    reveal_strlit("..");
    assert("."@ == seq!['.']);
    assert(".."@ == seq!['.', '.']);
    broadcast use vstd::seq_lib::group_filter_ensures;

    parts.lemma_filter_contains_rev(keeps, piece);
    assert(keeps(parts.filter(keeps)[k]));
    let j = choose|j: int| 0 <= j < parts.len() && parts[j] == piece;
    lemma_between_separators(before_nul(name), j);
}

proof fn lemma_between_separators(name: Seq<char>, j: int)
    requires
        0 <= j < between_separators(name).len(),
    ensures
        !between_separators(name)[j].contains('/'),
        !between_separators(name)[j].contains('\\'),
    decreases name.len(),
{
    if name.len() > 0 {
        let front = between_separators(name.drop_last());
        let all = between_separators(name);
        lemma_has_pieces(name.drop_last());
        if j < front.len() {
            lemma_between_separators(name.drop_last(), j);
        }
        if !is_separator(name.last()) && j == front.len() - 1 {
            assert(all[j] == front[j].push(name.last()));
            assert forall|i: int| 0 <= i < all[j].len() implies all[j][i] != '/' && all[j][i]
                != '\\' by {
                if i < front[j].len() {
                    assert(front[j].contains(front[j][i]));
                }
            }
        }
    }
}

proof fn lemma_has_pieces(name: Seq<char>)
    ensures
        between_separators(name).len() >= 1,
    decreases name.len(),
{
    if name.len() > 0 {
        lemma_has_pieces(name.drop_last());
    }
}

/// An entry without a record on AES can always be opened or be refused, and so can one that is marked
/// as encrypted and as long as any strength takes.
pub proof fn law_may_open(bytes: Seq<u8>, password: Option<Seq<u8>>, entry: ArchiveEntryView)
    ensures
        (forall|k: int| !#[trigger] aes_record(entry.extra, k)) ==> may_open(
            bytes,
            password,
            entry,
        ),
        encrypted(bytes, entry) && entry.packedSize >= 28 ==> may_open(bytes, password, entry),
        !entry.supported ==> may_open(bytes, password, entry),
        password is Some && !encrypted(bytes, entry) ==> may_open(bytes, password, entry),
{
}

/// An entry that can neither be opened nor be refused has a record on AES, which does not fit.
pub proof fn law_may_not_open(bytes: Seq<u8>, password: Option<Seq<u8>>, entry: ArchiveEntryView)
    requires
        !may_open(bytes, password, entry),
    ensures
        exists|k: int| #[trigger] aes_record(entry.extra, k),
        password is None ==> !encrypted(bytes, entry),
        password is Some ==> encrypted(bytes, entry) && entry.packedSize < 28,
{
}

/// An entry comes out only if it was opened: nothing spoke against it, with the password that was
/// given. A file comes with what it holds, a folder with nothing.
pub proof fn law_unpacked(before: MemUnzipView, after: MemUnzipView, got: Unpacked)
    requires
        unpacking_led(before, after, Some(Ok::<Unpacked, UnpackFailure>(got))),
    ensures
        after.at == before.at + 1,
        archive_entry(before.zipFile, before.at) matches Ok(entry) && may_open(
            before.zipFile,
            before.password,
            entry,
        ) && goes_to(entry.name, got.path@) && (got.content is Some <==> !entry.isDir
            && entry.isFile),
        entry_refused(before.zipFile, before.password, before.at) is None,
        got.content matches Some(content) ==> entry_content(
            before.zipFile,
            before.password,
            before.at,
        ) == Ok::<Seq<u8>, Seq<char>>(content@),
        got.did is Create ==> !before.folders.contains(got.path@) && after.folders
            == before.folders.insert(got.path@),
{
}

/// Why an entry does not come out: the password is wrong, it could not be opened, or it could not be
/// read; each is told exactly as it came. No folder counts as created then.
pub proof fn law_not_unpacked(before: MemUnzipView, after: MemUnzipView, failure: UnpackFailure)
    requires
        unpacking_led(before, after, Some(Err::<Unpacked, UnpackFailure>(failure))),
    ensures
        ({
            let told = archive_entry(before.zipFile, before.at);
            let refused = entry_refused(before.zipFile, before.password, before.at);
            &&& after.folders == before.folders
            &&& failure is WrongPassword ==> refused == Some(RefusalView::WrongPassword)
            &&& failure matches UnpackFailure::Failed(e) ==> refused == Some(
                RefusalView::Failed(e@),
            ) || told == Err::<ArchiveEntryView, Seq<char>>(e@)
            &&& failure is Unopenable ==> (told matches Ok(entry) && !may_open(
                before.zipFile,
                before.password,
                entry,
            ))
            &&& failure matches UnpackFailure::Content { path, cause } ==> {
                &&& told matches Ok(entry) && entry.isFile && entry.method != 99 && goes_to(
                    entry.name,
                    path@,
                )
                &&& refused is None
                &&& entry_content(before.zipFile, before.password, before.at) == Err::<
                    Seq<u8>,
                    Seq<char>,
                >(cause@)
            }
            &&& failure matches UnpackFailure::Unreadable { path } ==> {
                &&& told matches Ok(entry) && entry.isFile && entry.method == 99 && goes_to(
                    entry.name,
                    path@,
                )
                &&& refused is None
            }
        }),
{
}

/// A name without the character whose number is zero is kept whole, and one with it up to there.
pub proof fn law_before_nul(a: Seq<char>, b: Seq<char>)
    requires
        !a.contains('\0'),
    ensures
        before_nul(a) == a,
        before_nul(a + seq!['\0'] + b) == a,
    decreases a.len(),
{
    let all = a + seq!['\0'] + b;
    if a.len() > 0 {
        let rest = a.skip(1);
        assert forall|i: int| 0 <= i < rest.len() implies rest[i] != '\0' by {
            assert(a[i + 1] != '\0');
        }
        law_before_nul(rest, b);
        assert(all.skip(1) == rest + seq!['\0'] + b);
        assert(all[0] == a[0]);
        assert(a[0] != '\0');
        assert(seq![a[0]] + rest == a);
    } else {
        assert(all[0] == '\0');
        assert(a == Seq::<char>::empty());
    }
}

/// A record on AES is one of any version and strength, wherever it stands.
pub proof fn law_aes_record(
    before: Seq<u8>,
    version: u8,
    strength: u8,
    method: u8,
    high: u8,
    after: Seq<u8>,
)
    requires
        version == 1 || version == 2,
        1 <= strength <= 3,
    ensures
        aes_record(
            before + seq![0x01u8, 0x99u8, 7u8, 0u8, version, 0u8, 0x41u8, 0x45u8, strength, method, high]
                + after,
            before.len() as int,
        ),
        aes_overhead(
            before + seq![0x01u8, 0x99u8, 7u8, 0u8, version, 0u8, 0x41u8, 0x45u8, strength, method, high]
                + after,
            before.len() as int,
        ) == if strength == 1 {
            20int
        } else if strength == 2 {
            24int
        } else {
            28int
        },
{
    let record =
        seq![0x01u8, 0x99u8, 7u8, 0u8, version, 0u8, 0x41u8, 0x45u8, strength, method, high];
    let all = before + record + after;
    assert forall|i: int| 0 <= i < 11 implies all[before.len() + i] == record[i] by {}
}

/// An entry is a folder exactly if its name ends in a separator of either kind.
pub proof fn law_folder_names(name: Seq<char>, c: char)
    ensures
        ends_in_separator(name.push(c)) <==> c == '/' || c == '\\',
        !ends_in_separator(Seq::empty()),
{
    assert(name.push(c).last() == c);
}

/// A record on AES says so, in its kind, its length and its maker.
pub proof fn law_aes_record_says(extra: Seq<u8>, k: int)
    requires
        aes_record(extra, k),
    ensures
        0 <= k <= extra.len() - 11,
        extra.subrange(k, k + 4) == seq![0x01u8, 0x99u8, 7u8, 0u8],
        extra[k + 4] + 256 * extra[k + 5] == 1 || extra[k + 4] + 256 * extra[k + 5] == 2,
        extra.subrange(k + 6, k + 8) == seq![0x41u8, 0x45u8],
        1 <= extra[k + 8] <= 3,
{
    assert(extra.subrange(k, k + 4) =~= seq![0x01u8, 0x99u8, 7u8, 0u8]);
    assert(extra.subrange(k + 6, k + 8) =~= seq![0x41u8, 0x45u8]);
}

/// All pieces of a name lead on but those without letters and those of one dot or two.
pub proof fn law_leads_on(piece: Seq<char>)
    ensures
        leads_on(piece) <==> piece.len() > 0 && piece != seq!['.'] && piece != seq!['.', '.'],
{
    reveal_strlit(".");
    reveal_strlit("..");
    assert("."@ == seq!['.']);
    assert(".."@ == seq!['.', '.']);
}

/// A name means the same on every platform unless it starts with two separators, or a colon is the
/// second character of one of its pieces.
pub proof fn law_joins_plainly(name: Seq<char>, k: int)
    requires
        joins_plainly(name),
    ensures
        before_nul(name).len() >= 2 ==> !(is_separator(before_nul(name)[0]) && is_separator(
            before_nul(name)[1],
        )),
        0 <= k < name_pieces(name).len() && name_pieces(name)[k].len() >= 2 ==> name_pieces(
            name,
        )[k][1] != ':',
{
}

} // verus!

//! Files: cleaning folders, deleting trees, and unpacking archives.

use vstd::prelude::*;

pub use crate::archive::unzipMem;
use crate::paths::{PathPieces, extension, extension_of, last_dot, lemma_last_dot, path_views};
use crate::text::strEq;

verus! {

// Cleaning

/// What is done with an entry of a folder that is cleaned.
#[derive(Debug, Clone, Copy, PartialEq, Eq, Structural)]
pub enum CleanAction {
    /// Delete a folder and all that is in it.
    DeleteTree,
    RemoveFile,
    Keep,
}

/// What is done with an entry of a folder that is cleaned: folders and files go, but the parts of
/// scenes' archives stay.
pub open spec fn clean_action(isDir: bool, name: Seq<char>) -> CleanAction {
    if isDir {
        CleanAction::DeleteTree
    } else if extension_of(name) == Some("wool"@) {
        CleanAction::Keep
    } else {
        CleanAction::RemoveFile
    }
}

/// What is done with an entry of the working directory when that is cleaned.
pub fn cleanWorkingDir(isDir: bool, name: &str) -> (r: CleanAction)
    ensures
        r == clean_action(isDir, name@),
{
    if !isDir {
        let wool = match extension(name) {
            Some(ext) => strEq(ext.as_str(), "wool"),
            None => false,
        };
        if wool {
            CleanAction::Keep
        } else {
            CleanAction::RemoveFile
        }
    } else {
        CleanAction::DeleteTree
    }
}

/// A part of a scene's archive, under the name that it is kept by, outlasts a cleaning.
pub proof fn law_chunks_outlast_cleaning(id: Seq<char>)
    requires
        id.len() > 0,
    ensures
        clean_action(false, id + ".wool"@) == CleanAction::Keep,
{
    reveal_strlit(".wool");
    reveal_strlit("wool");
    let name = id + ".wool"@;
    lemma_last_dot(name);
    assert(".wool"@.len() == 5 && "wool"@.len() == 4);
    assert(name[id.len() as int] == '.');
    assert forall|i: int| id.len() < i < name.len() implies name[i] != '.' by {
        assert(name[i] == ".wool"@[i - id.len()]);
    }
    assert(last_dot(name) == id.len());
    reveal_strlit("..");
    assert(name.len() > ".."@.len());
    assert(name.skip(id.len() as int + 1) == "wool"@);
}

/// Which of the tasks that are under way is looked at next: the first one from `start` on that is
/// finished.
pub fn nextFinished(finished: &Vec<bool>, start: usize) -> (r: Option<usize>)
    ensures
        match r {
            Some(i) => {
                &&& start <= i < finished@.len()
                &&& finished@[i as int]
                &&& forall|k: int| start <= k < i ==> !#[trigger] finished@[k]
            },
            None => forall|k: int| start <= k < finished@.len() ==> !#[trigger] finished@[k],
        },
{
    let mut i: usize = start;
    while i < finished.len()
        invariant
            start <= i,
            forall|k: int| start <= k < i && k < finished@.len() ==> !#[trigger] finished@[k],
        decreases finished@.len() - i,
    {
        if finished[i] {
            return Some(i);
        }
        i += 1;
    }
    None
}

/// Where the tasks that are under way are gone through again and again, each time from the one
/// that was found and taken out on, none that is finished is passed over: those before `start`
/// stay unfinished ones, and when none is found any more, none is left.
pub proof fn law_finished_tasks_found(finished: Seq<bool>, start: nat, found: Option<nat>)
    requires
        forall|k: int| 0 <= k < start && k < finished.len() ==> !#[trigger] finished[k],
        match found {
            Some(i) => start <= i < finished.len() && finished[i as int] && forall|k: int|
                start <= k < i ==> !#[trigger] finished[k],
            None => forall|k: int| start <= k < finished.len() ==> !#[trigger] finished[k],
        },
    ensures
        match found {
            Some(i) => forall|k: int| 0 <= k < i ==> !#[trigger] finished.remove(i as int)[k],
            None => forall|k: int| 0 <= k < finished.len() ==> !#[trigger] finished[k],
        },
{
    if let Some(i) = found {
        assert forall|k: int| 0 <= k < i implies !#[trigger] finished.remove(i as int)[k] by {
            assert(finished.remove(i as int)[k] == finished[k]);
        }
    }
}

// Deleting

/// The deletion of a tree, from its root: what is still to be looked at, and the folders that
/// were met. A path may be anything.
#[derive(Debug)]
pub struct TreeWalk<P> {
    pub pending: Vec<P>,
    pub folders: Vec<P>,
}

impl<P> TreeWalk<P> {
    /// How far the deletion is, when these files were met and removed.
    pub open spec fn seen(self, files: Seq<P>) -> WalkView<P> {
        WalkView { pending: self.pending@, folders: self.folders@, files }
    }

    /// What is to be looked at next, if there is more; it is taken out.
    pub fn next(&mut self) -> (r: Option<P>)
        ensures
            final(self).folders@ == old(self).folders@,
            match r {
                Some(path) => old(self).pending@.len() > 0 && path == old(self).pending@.last()
                    && final(self).pending@ == old(self).pending@.drop_last(),
                None => old(self).pending@.len() == 0 && final(self).pending@
                    == old(self).pending@,
            },
            r matches Some(path) ==> forall|files: Seq<P>|
                walk_step(#[trigger] old(self).seen(files), None) == final(self).seen(
                    files.push(path),
                ),
    {
        self.pending.pop()
    }

    /// What was looked at is a folder with the given entries.
    pub fn enter(&mut self, folder: P, entries: Vec<P>)
        ensures
            final(self).folders@ == old(self).folders@.push(folder),
            final(self).pending@ == old(self).pending@ + entries@,
            forall|files: Seq<P>|
                walk_step(
                    (WalkView { pending: old(self).pending@.push(folder), ..(#[trigger] old(self).seen(
                        files,
                    )) }),
                    Some(entries@),
                ) == final(self).seen(files),
    {
        let mut entries = entries;
        self.folders.push(folder);
        self.pending.append(&mut entries);
        proof {
            let before = old(self).pending@.push(folder);
            assert(before.last() == folder);
            assert(before.drop_last() == old(self).pending@);
        }
    }

    /// The folders, in the order in which they are removed, when all that is in them is gone.
    pub fn removals(self) -> (r: Vec<P>)
        ensures
            r@ == self.folders@.reverse(),
    {
        let mut folders = self.folders;
        let mut order: Vec<P> = Vec::new();
        while folders.len() > 0
            invariant
                folders@.len() <= self.folders@.len(),
                folders@ == self.folders@.take(folders@.len() as int),
                order@ == self.folders@.skip(folders@.len() as int).reverse(),
            decreases folders@.len(),
        {
            let ghost n = folders@.len() as int;
            assert(self.folders@.take(n).drop_last() == self.folders@.take(n - 1));
            assert(self.folders@.skip(n - 1).reverse() == self.folders@.skip(n).reverse().push(
                self.folders@[n - 1],
            ));
            if let Some(folder) = folders.pop() {
                order.push(folder);
            }
        }
        assert(self.folders@.skip(0) == self.folders@);
        order
    }
}

/// The deletion of the tree under `path`, before its start.
pub fn deleteDirDeep<P>(path: P) -> (r: TreeWalk<P>)
    ensures
        r.pending@ == seq![path],
        r.folders@ == Seq::<P>::empty(),
        r.seen(Seq::empty()) == walk_start(path),
{
    let mut pending: Vec<P> = Vec::new();
    pending.push(path);
    assert(pending@ == seq![path]);
    TreeWalk { pending, folders: Vec::new() }
}

/// How far the deletion of a tree is, with the files that were met and removed.
pub struct WalkView<P> {
    pub pending: Seq<P>,
    pub folders: Seq<P>,
    pub files: Seq<P>,
}

/// The deletion of the tree under a root, before its start.
pub open spec fn walk_start<P>(root: P) -> WalkView<P> {
    WalkView { pending: seq![root], folders: Seq::empty(), files: Seq::empty() }
}

/// The deletion after one more look. `entries` are those of the folder that was looked at; there
/// are none where it was a file.
pub open spec fn walk_step<P>(walk: WalkView<P>, entries: Option<Seq<P>>) -> WalkView<P> {
    let path = walk.pending.last();
    let rest = walk.pending.drop_last();
    match entries {
        Some(list) => WalkView {
            pending: rest + list,
            folders: walk.folders.push(path),
            files: walk.files,
        },
        None => WalkView { pending: rest, folders: walk.folders, files: walk.files.push(path) },
    }
}

/// Whether looks lead through the stages of a deletion, over a tree whose folders have the
/// entries that `entries` tells.
pub open spec fn walked<P>(
    walks: Seq<WalkView<P>>,
    root: P,
    entries: spec_fn(P) -> Option<Seq<P>>,
) -> bool {
    &&& walks.len() > 0
    &&& walks[0] == walk_start(root)
    &&& forall|i: int|
        0 <= i < walks.len() - 1 ==> (#[trigger] walks[i]).pending.len() > 0 && walks[i + 1]
            == walk_step(walks[i], entries(walks[i].pending.last()))
}

/// Whether a path was met.
pub open spec fn met<P>(walk: WalkView<P>, path: P) -> bool {
    walk.pending.contains(path) || walk.folders.contains(path) || walk.files.contains(path)
}

/// Whether a folder that was met lists a path, and stands before the given place.
pub open spec fn listed_before<P>(
    folders: Seq<P>,
    entries: spec_fn(P) -> Option<Seq<P>>,
    path: P,
    place: int,
) -> bool {
    exists|k: int|
        0 <= k < place && entries(#[trigger] folders[k]) is Some && entries(
            folders[k],
        )->0.contains(path)
}

/// When a deletion has nothing more to look at, it has met the root and, with each folder, all
/// that is in it; files are removed and folders kept for the end; each folder but the root stands
/// behind one that lists it, so that it is removed before that one; and nothing is removed but the
/// root and what a folder that was met lists.
pub proof fn law_tree_deleted<P>(
    walks: Seq<WalkView<P>>,
    root: P,
    entries: spec_fn(P) -> Option<Seq<P>>,
)
    requires
        walked(walks, root, entries),
        walks.last().pending.len() == 0,
    ensures
        ({
            let end = walks.last();
            &&& if entries(root) is Some {
                end.folders.contains(root)
            } else {
                end.files.contains(root)
            }
            &&& forall|p: P, q: P|
                end.folders.contains(p) && #[trigger] entries(p)->0.contains(q) ==> if entries(
                    q,
                ) is Some {
                    end.folders.contains(q)
                } else {
                    end.files.contains(q)
                }
            &&& forall|p: P| #[trigger] end.folders.contains(p) ==> entries(p) is Some
            &&& forall|p: P| #[trigger] end.files.contains(p) ==> entries(p) is None
            &&& forall|i: int|
                0 <= i < end.folders.len() ==> #[trigger] end.folders[i] == root || listed_before(
                    end.folders,
                    entries,
                    end.folders[i],
                    i,
                )
            &&& forall|i: int|
                0 <= i < end.files.len() ==> #[trigger] end.files[i] == root || listed_before(
                    end.folders,
                    entries,
                    end.files[i],
                    end.folders.len() as int,
                )
        }),
{
    lemma_walk(walks, root, entries);
    let end = walks.last();
    assert forall|p: P, q: P|
        end.folders.contains(p) && #[trigger] entries(p)->0.contains(q) implies if entries(
        q,
    ) is Some {
        end.folders.contains(q)
    } else {
        end.files.contains(q)
    } by {
        assert(met(end, q));
    }
    assert(met(end, root));
}

/// Whether all that was met is accounted for: the root, and what the folders list.
pub open spec fn covers<P>(
    walk: WalkView<P>,
    root: P,
    entries: spec_fn(P) -> Option<Seq<P>>,
) -> bool {
    &&& met(walk, root)
    &&& forall|p: P, q: P|
        walk.folders.contains(p) && #[trigger] entries(p)->0.contains(q) ==> met(walk, q)
}

/// Whether folders are told from files.
pub open spec fn sorted_out<P>(walk: WalkView<P>, entries: spec_fn(P) -> Option<Seq<P>>) -> bool {
    &&& forall|p: P| #[trigger] walk.folders.contains(p) ==> entries(p) is Some
    &&& forall|p: P| #[trigger] walk.files.contains(p) ==> entries(p) is None
}

/// Whether each folder but the root stands behind one that lists it, and what is pending, and
/// each file, is listed.
pub open spec fn in_order<P>(
    walk: WalkView<P>,
    root: P,
    entries: spec_fn(P) -> Option<Seq<P>>,
) -> bool {
    &&& forall|i: int|
        0 <= i < walk.folders.len() ==> #[trigger] walk.folders[i] == root || listed_before(
            walk.folders,
            entries,
            walk.folders[i],
            i,
        )
    &&& forall|i: int|
        0 <= i < walk.pending.len() ==> #[trigger] walk.pending[i] == root || listed_before(
            walk.folders,
            entries,
            walk.pending[i],
            walk.folders.len() as int,
        )
    &&& forall|i: int|
        0 <= i < walk.files.len() ==> #[trigger] walk.files[i] == root || listed_before(
            walk.folders,
            entries,
            walk.files[i],
            walk.folders.len() as int,
        )
}

proof fn lemma_walk<P>(
    walks: Seq<WalkView<P>>,
    root: P,
    entries: spec_fn(P) -> Option<Seq<P>>,
)
    requires
        walked(walks, root, entries),
    ensures
        covers(walks.last(), root, entries),
        sorted_out(walks.last(), entries),
        in_order(walks.last(), root, entries),
    decreases walks.len(),
{
    if walks.len() == 1 {
        assert(walks[0].pending[0] == root);
    } else {
        let n = walks.len() - 2;
        let front = walks.drop_last();
        assert forall|i: int| 0 <= i < front.len() - 1 implies (#[trigger] front[i]).pending.len()
            > 0 && front[i + 1] == walk_step(front[i], entries(front[i].pending.last())) by {
            assert(walks[i].pending.len() > 0);
        }
        lemma_walk(front, root, entries);
        assert(walks[n].pending.len() > 0);
        lemma_step_covers(walks[n], root, entries);
        lemma_step_sorts(walks[n], entries);
        lemma_step_orders(walks[n], root, entries);
    }
}

proof fn lemma_step_meets<P>(walk: WalkView<P>, entries: Option<Seq<P>>, q: P)
    requires
        walk.pending.len() > 0,
        met(walk, q),
    ensures
        met(walk_step(walk, entries), q),
{
    let after = walk_step(walk, entries);
    let n = walk.pending.len() - 1;
    if walk.pending.contains(q) {
        let i = choose|i: int| 0 <= i < walk.pending.len() && walk.pending[i] == q;
        if i < n {
            assert(after.pending[i] == q);
        } else if entries is Some {
            assert(after.folders[walk.folders.len() as int] == q);
        } else {
            assert(after.files[walk.files.len() as int] == q);
        }
    } else if walk.folders.contains(q) {
        let i = choose|i: int| 0 <= i < walk.folders.len() && walk.folders[i] == q;
        assert(after.folders[i] == q);
    } else {
        let i = choose|i: int| 0 <= i < walk.files.len() && walk.files[i] == q;
        assert(after.files[i] == q);
    }
}

proof fn lemma_push_contains<P>(list: Seq<P>, last: P, p: P)
    requires
        list.push(last).contains(p),
    ensures
        list.contains(p) || p == last,
{
    let i = choose|i: int| 0 <= i < list.push(last).len() && list.push(last)[i] == p;
    if i < list.len() {
        assert(list[i] == p);
    }
}

proof fn lemma_step_covers<P>(walk: WalkView<P>, root: P, entries: spec_fn(P) -> Option<Seq<P>>)
    requires
        walk.pending.len() > 0,
        covers(walk, root, entries),
    ensures
        covers(walk_step(walk, entries(walk.pending.last())), root, entries),
{
    let path = walk.pending.last();
    let after = walk_step(walk, entries(path));
    lemma_step_meets(walk, entries(path), root);
    assert forall|p: P, q: P|
        after.folders.contains(p) && #[trigger] entries(p)->0.contains(q) implies met(after, q) by {
        if walk.folders.contains(p) {
            lemma_step_meets(walk, entries(path), q);
        } else {
            assert(entries(path) is Some);
            lemma_push_contains(walk.folders, path, p);
            let list = entries(path)->0;
            let i = choose|i: int| 0 <= i < list.len() && list[i] == q;
            assert(after.pending[walk.pending.len() - 1 + i] == q);
        }
    }
}

proof fn lemma_step_sorts<P>(walk: WalkView<P>, entries: spec_fn(P) -> Option<Seq<P>>)
    requires
        walk.pending.len() > 0,
        sorted_out(walk, entries),
    ensures
        sorted_out(walk_step(walk, entries(walk.pending.last())), entries),
{
    let path = walk.pending.last();
    let after = walk_step(walk, entries(path));
    assert forall|p: P| #[trigger] after.folders.contains(p) implies entries(p) is Some by {
        if !walk.folders.contains(p) {
            lemma_push_contains(walk.folders, path, p);
        }
    }
    assert forall|p: P| #[trigger] after.files.contains(p) implies entries(p) is None by {
        if !walk.files.contains(p) {
            lemma_push_contains(walk.files, path, p);
        }
    }
}

proof fn lemma_listed_on<P>(
    folders: Seq<P>,
    more: Seq<P>,
    entries: spec_fn(P) -> Option<Seq<P>>,
    q: P,
    place: int,
    further: int,
)
    requires
        listed_before(folders, entries, q, place),
        place <= folders.len(),
        place <= further,
        folders.is_prefix_of(more),
    ensures
        listed_before(more, entries, q, further),
{
    let k = choose|k: int|
        0 <= k < place && entries(#[trigger] folders[k]) is Some && entries(folders[k])->0.contains(
            q,
        );
    assert(more[k] == folders[k]);
}

proof fn lemma_step_orders<P>(walk: WalkView<P>, root: P, entries: spec_fn(P) -> Option<Seq<P>>)
    requires
        walk.pending.len() > 0,
        in_order(walk, root, entries),
    ensures
        in_order(walk_step(walk, entries(walk.pending.last())), root, entries),
{
    let path = walk.pending.last();
    let n = walk.pending.len() - 1;
    let m = walk.folders.len() as int;
    let after = walk_step(walk, entries(path));
    assert(walk.folders.is_prefix_of(after.folders));
    assert forall|i: int| 0 <= i < after.folders.len() implies #[trigger] after.folders[i] == root
        || listed_before(after.folders, entries, after.folders[i], i) by {
        if after.folders[i] != root {
            if i < m {
                assert(walk.folders[i] == after.folders[i]);
                lemma_listed_on(walk.folders, after.folders, entries, walk.folders[i], i, i);
            } else {
                assert(walk.pending[n] == after.folders[i]);
                lemma_listed_on(walk.folders, after.folders, entries, path, m, i);
            }
        }
    }
    assert forall|i: int| 0 <= i < after.pending.len() implies #[trigger] after.pending[i] == root
        || listed_before(
        after.folders,
        entries,
        after.pending[i],
        after.folders.len() as int,
    ) by {
        if after.pending[i] != root {
            if i < n {
                assert(walk.pending[i] == after.pending[i]);
                lemma_listed_on(
                    walk.folders,
                    after.folders,
                    entries,
                    walk.pending[i],
                    m,
                    after.folders.len() as int,
                );
            } else {
                let list = entries(path)->0;
                assert(after.pending[i] == list[i - n]);
                assert(after.folders[m] == path);
                assert(list.contains(after.pending[i]));
            }
        }
    }
    let wide = after.folders.len() as int;
    assert forall|i: int| 0 <= i < after.files.len() implies #[trigger] after.files[i] == root
        || listed_before(after.folders, entries, after.files[i], wide) by {
        if after.files[i] != root {
            if i < walk.files.len() {
                assert(walk.files[i] == after.files[i]);
                lemma_listed_on(walk.folders, after.folders, entries, walk.files[i], m, wide);
            } else {
                assert(walk.pending[n] == after.files[i]);
                lemma_listed_on(walk.folders, after.folders, entries, path, m, wide);
            }
        }
    }
}

// Unpacking

/// How many workers unpack an archive that lies on disk.
pub const UNZIP_WORKERS: u32 = 8;

/// The folders that the workers on an archive have created.
#[derive(Debug)]
pub struct FoldersCreated {
    pub paths: Vec<PathPieces>,
}

impl View for FoldersCreated {
    type V = Set<Seq<Seq<char>>>;

    open spec fn view(&self) -> Set<Seq<Seq<char>>> {
        path_views(self.paths@).to_set()
    }
}

fn samePath(a: &PathPieces, b: &PathPieces) -> (r: bool)
    ensures
        r == (a@ == b@),
{
    if a.pieces.len() != b.pieces.len() {
        assert(a@.len() != b@.len());
        return false;
    }
    let mut i: usize = 0;
    while i < a.pieces.len()
        invariant
            i <= a.pieces@.len(),
            a.pieces@.len() == b.pieces@.len(),
            forall|k: int| 0 <= k < i ==> #[trigger] a@[k] == b@[k],
        decreases a.pieces@.len() - i,
    {
        assert(a@[i as int] == a.pieces@[i as int]@);
        assert(b@[i as int] == b.pieces@[i as int]@);
        if !strEq(a.pieces[i].as_str(), b.pieces[i].as_str()) {
            return false;
        }
        i += 1;
    }
    assert(a@ == b@);
    true
}

impl FoldersCreated {
    /// No folders.
    pub fn none() -> (r: FoldersCreated)
        ensures
            r@ == Set::<Seq<Seq<char>>>::empty(),
    {
        let paths: Vec<PathPieces> = Vec::new();
        assert(path_views(paths@).to_set() == Set::<Seq<Seq<char>>>::empty());
        FoldersCreated { paths }
    }

    /// Adds a folder. Whether it was not there before is given back.
    pub fn insert(&mut self, path: PathPieces) -> (r: bool)
        ensures
            r == !old(self)@.contains(path@),
            final(self)@ == old(self)@.insert(path@),
    {
        let ghost before = path_views(self.paths@);
        let mut i: usize = 0;
        while i < self.paths.len()
            invariant
                i <= self.paths@.len(),
                before == path_views(self.paths@),
                *self == *old(self),
                forall|k: int| 0 <= k < i ==> #[trigger] before[k] != path@,
            decreases self.paths@.len() - i,
        {
            assert(before[i as int] == self.paths@[i as int]@);
            if samePath(&self.paths[i], &path) {
                assert(before.to_set().contains(path@));
                assert(before.to_set().insert(path@) == before.to_set());
                return false;
            }
            i += 1;
        }
        assert(!before.to_set().contains(path@)) by {
            if before.to_set().contains(path@) {
                let k = choose|k: int| 0 <= k < before.len() && before[k] == path@;
                assert(before[k] != path@);
            }
        }
        self.paths.push(path);
        assert(path_views(self.paths@) == before.push(path@));
        assert(before.push(path@).to_set() == before.to_set().insert(path@)) by {
            broadcast use vstd::seq_lib::group_seq_properties;

            assert forall|q: Seq<Seq<char>>|
                before.push(path@).contains(q) <==> before.contains(q) || q == path@ by {
                if before.contains(q) {
                    let k = choose|k: int| 0 <= k < before.len() && before[k] == q;
                    assert(before.push(path@)[k] == q);
                }
                assert(before.push(path@)[before.len() as int] == path@);
            }
        }
        true
    }
}

/// One of the workers that unpack an archive; each goes through all of its entries.
#[derive(Debug, Clone, Copy, PartialEq, Eq, Structural)]
pub struct UnzipWorker {
    pub workerCount: u32,
    /// Which of the workers this is.
    pub wi: u32,
    /// How many files it has come by, where there is more than one worker.
    pub index: u32,
}

/// What a worker does with an entry of an archive.
#[derive(Debug, Clone, Copy, PartialEq, Eq, Structural)]
pub enum EntryStep {
    /// Create the folder.
    Create,
    Skip,
    Extract,
}

/// What a worker does with the file that is the given one among the files, counted from one.
pub open spec fn takes(workerCount: u32, wi: u32, file: nat) -> bool {
    workerCount > 1 ==> file % workerCount as nat == wi
}

/// An entry of an archive.
pub struct EntryView {
    pub path: Seq<Seq<char>>,
    pub isDir: bool,
    pub isFile: bool,
}

/// Whether an entry is a file.
pub open spec fn is_plain_file(entry: EntryView) -> bool {
    !entry.isDir && entry.isFile
}

/// Whether a worker does with an entry what it should: it creates a folder that no worker has
/// created yet, extracts a file that is its own, and skips all else.
pub open spec fn entry_done(
    before: UnzipWorker,
    foldersBefore: Set<Seq<Seq<char>>>,
    entry: EntryView,
    after: UnzipWorker,
    folders: Set<Seq<Seq<char>>>,
    did: EntryStep,
) -> bool {
    &&& did == if entry.isDir {
        if foldersBefore.contains(entry.path) {
            EntryStep::Skip
        } else {
            EntryStep::Create
        }
    } else if entry.isFile && takes(before.workerCount, before.wi, (before.index + 1) as nat) {
        EntryStep::Extract
    } else {
        EntryStep::Skip
    }
    &&& folders == if entry.isDir {
        foldersBefore.insert(entry.path)
    } else {
        foldersBefore
    }
    &&& after == (UnzipWorker {
        index: if is_plain_file(entry) && before.workerCount > 1 {
            (before.index + 1) as u32
        } else {
            before.index
        },
        ..before
    })
}

impl UnzipWorker {
    /// A worker, before the first entry.
    pub fn new(workerCount: u32, wi: u32) -> (r: UnzipWorker)
        ensures
            r == (UnzipWorker { workerCount, wi, index: 0 }),
    {
        UnzipWorker { workerCount, wi, index: 0 }
    }

    /// What the worker does with the next entry, at `path`.
    pub fn step(
        &mut self,
        folders: &mut FoldersCreated,
        path: PathPieces,
        isDir: bool,
        isFile: bool,
    ) -> (r: EntryStep)
        requires
            !isDir && isFile && old(self).workerCount > 1 ==> old(self).index < u32::MAX,
        ensures
            entry_done(
                *old(self),
                old(folders)@,
                EntryView { path: path@, isDir, isFile },
                *final(self),
                final(folders)@,
                r,
            ),
    {
        if isDir {
            if folders.insert(path) {
                return EntryStep::Create;
            }
            return EntryStep::Skip;
        }
        if !isFile {
            return EntryStep::Skip;
        }
        if self.workerCount > 1 {
            self.index = self.index + 1;
            if self.index % self.workerCount != self.wi {
                return EntryStep::Skip;
            }
        }
        EntryStep::Extract
    }
}

/// Of several workers exactly one takes a file, whichever it is; a single worker takes all.
pub proof fn law_one_worker_takes(workerCount: u32, file: nat)
    requires
        workerCount >= 1,
    ensures
        exists|wi: u32| wi < workerCount && #[trigger] takes(workerCount, wi, file),
        forall|a: u32, b: u32|
            a < workerCount && b < workerCount && #[trigger] takes(workerCount, a, file)
                && #[trigger] takes(workerCount, b, file) ==> a == b,
{
    let wi = (file % workerCount as nat) as u32;
    assert(file % (workerCount as nat) < workerCount) by (nonlinear_arith)
        requires
            workerCount >= 1,
    ;
    assert(takes(workerCount, wi, file));
}

// A whole archive

/// How far the workers on an archive are: each of them, at which entry it is, and the folders that
/// were created.
pub struct Unzipping {
    pub workers: Seq<UnzipWorker>,
    pub at: Seq<int>,
    pub folders: Set<Seq<Seq<char>>>,
}

/// What a worker did with an entry.
pub struct UnzipMove {
    pub wi: int,
    pub entry: int,
    pub did: EntryStep,
}

/// So many workers, before the first entry.
pub open spec fn unzip_start(workerCount: u32) -> Unzipping {
    Unzipping {
        workers: Seq::new(
            workerCount as nat,
            |wi: int| UnzipWorker { workerCount, wi: wi as u32, index: 0 },
        ),
        at: Seq::new(workerCount as nat, |wi: int| 0),
        folders: Set::empty(),
    }
}

/// Whether one of the workers goes on by one entry.
pub open spec fn unzip_moved(
    entries: Seq<EntryView>,
    before: Unzipping,
    m: UnzipMove,
    after: Unzipping,
) -> bool {
    &&& 0 <= m.wi < before.workers.len()
    &&& m.wi < before.at.len()
    &&& m.entry == before.at[m.wi]
    &&& 0 <= m.entry < entries.len()
    &&& after.at == before.at.update(m.wi, m.entry + 1)
    &&& after.workers == before.workers.update(m.wi, after.workers[m.wi])
    &&& entry_done(
        before.workers[m.wi],
        before.folders,
        entries[m.entry],
        after.workers[m.wi],
        after.folders,
        m.did,
    )
}

/// Whether the workers on an archive come that far, in whatever order they go on.
pub open spec fn unzipping(
    entries: Seq<EntryView>,
    workerCount: u32,
    states: Seq<Unzipping>,
    moves: Seq<UnzipMove>,
) -> bool {
    &&& states.len() == moves.len() + 1
    &&& states[0] == unzip_start(workerCount)
    &&& forall|i: int|
        0 <= i < moves.len() ==> #[trigger] unzip_moved(entries, states[i], moves[i], states[i + 1])
}

/// Whether all the workers are through with all the entries.
pub open spec fn unzipped(entries: Seq<EntryView>, state: Unzipping) -> bool {
    forall|wi: int| 0 <= wi < state.at.len() ==> #[trigger] state.at[wi] == entries.len()
}

/// How many files there are among some entries.
pub open spec fn files_among(entries: Seq<EntryView>) -> nat
    decreases entries.len(),
{
    if entries.len() == 0 {
        0
    } else if is_plain_file(entries.last()) {
        files_among(entries.drop_last()) + 1
    } else {
        files_among(entries.drop_last())
    }
}

/// Which of the workers extracts the file at a place: they take the files in turn.
pub open spec fn extractor(entries: Seq<EntryView>, workerCount: u32, entry: int) -> int {
    if workerCount > 1 {
        (files_among(entries.take(entry + 1)) % workerCount as nat) as int
    } else {
        0
    }
}

/// Whether a move extracts the entry at a place.
pub open spec fn extracts(m: UnzipMove, entry: int) -> bool {
    m.entry == entry && m.did is Extract
}

/// Whether a move creates the folder at a path.
pub open spec fn creates(entries: Seq<EntryView>, m: UnzipMove, path: Seq<Seq<char>>) -> bool {
    entries[m.entry].path == path && m.did is Create
}

/// When all the workers are through with an archive, in whatever order they went on, then each of
/// its files was extracted by exactly one of them, which is the one whose turn it was, and only
/// once; each of its folders was created exactly once; and nothing else was extracted or created.
/// Where there is more than one worker, they count the files, so their number has to fit.
pub proof fn law_archive_unzipped(
    entries: Seq<EntryView>,
    workerCount: u32,
    states: Seq<Unzipping>,
    moves: Seq<UnzipMove>,
)
    requires
        workerCount >= 1,
        workerCount > 1 ==> files_among(entries) <= u32::MAX,
        unzipping(entries, workerCount, states, moves),
        unzipped(entries, states.last()),
    ensures
        forall|e: int|
            0 <= e < entries.len() && is_plain_file(#[trigger] entries[e]) ==> {
                &&& exists|i: int|
                    0 <= i < moves.len() && #[trigger] extracts(moves[i], e) && moves[i].wi
                        == extractor(entries, workerCount, e)
                &&& forall|i: int, j: int|
                    0 <= i < moves.len() && 0 <= j < moves.len() && #[trigger] extracts(moves[i], e)
                        && #[trigger] extracts(moves[j], e) ==> i == j
            },
        forall|e: int|
            0 <= e < entries.len() && (#[trigger] entries[e]).isDir ==> {
                &&& exists|i: int|
                    0 <= i < moves.len() && #[trigger] creates(entries, moves[i], entries[e].path)
                &&& forall|i: int, j: int|
                    0 <= i < moves.len() && 0 <= j < moves.len() && #[trigger] creates(
                        entries,
                        moves[i],
                        entries[e].path,
                    ) && #[trigger] creates(entries, moves[j], entries[e].path) ==> i == j
            },
        forall|i: int|
            0 <= i < moves.len() ==> {
                let m = #[trigger] moves[i];
                &&& 0 <= m.entry < entries.len()
                &&& m.did is Extract ==> is_plain_file(entries[m.entry])
                &&& m.did is Create ==> entries[m.entry].isDir
            },
{
    let n = workerCount as int;
    let end = states.last();
    lemma_unzipping(entries, workerCount, states, moves);
    assert forall|e: int| 0 <= e < entries.len() && is_plain_file(#[trigger] entries[e]) implies {
        &&& exists|i: int|
            0 <= i < moves.len() && #[trigger] extracts(moves[i], e) && moves[i].wi == extractor(
                entries,
                workerCount,
                e,
            )
        &&& forall|i: int, j: int|
            0 <= i < moves.len() && 0 <= j < moves.len() && #[trigger] extracts(moves[i], e)
                && #[trigger] extracts(moves[j], e) ==> i == j
    } by {
        let number = files_among(entries.take(e + 1));
        let wi = extractor(entries, workerCount, e);
        assert(0 <= number % (workerCount as nat) < n) by (nonlinear_arith)
            requires
                n == workerCount,
                workerCount >= 1,
        ;
        assert(end.at[wi] == entries.len());
        assert(visited(moves, wi, e));
        let i = choose|i: int| 0 <= i < moves.len() && #[trigger] visits(moves[i], wi, e);
        assert(move_ok(entries, workerCount, moves[i]));
        assert(extracts(moves[i], e));
        assert forall|i: int, j: int|
            0 <= i < moves.len() && 0 <= j < moves.len() && #[trigger] extracts(moves[i], e)
                && #[trigger] extracts(moves[j], e) implies i == j by {
            assert(move_ok(entries, workerCount, moves[i]));
            assert(move_ok(entries, workerCount, moves[j]));
            assert(moves[i].wi == wi && moves[j].wi == wi);
            assert(visits(moves[i], wi, e) && visits(moves[j], wi, e));
        }
    }
    assert forall|e: int| 0 <= e < entries.len() && (#[trigger] entries[e]).isDir implies {
        &&& exists|i: int|
            0 <= i < moves.len() && #[trigger] creates(entries, moves[i], entries[e].path)
        &&& forall|i: int, j: int|
            0 <= i < moves.len() && 0 <= j < moves.len() && #[trigger] creates(
                entries,
                moves[i],
                entries[e].path,
            ) && #[trigger] creates(entries, moves[j], entries[e].path) ==> i == j
    } by {
        assert(end.at[0] == entries.len());
        assert(visited(moves, 0, e));
        let i = choose|i: int| 0 <= i < moves.len() && #[trigger] visits(moves[i], 0, e);
        assert(end.folders.contains(entries[moves[i].entry].path));
        assert(was_created(entries, moves, entries[e].path));
    }
    assert forall|i: int| 0 <= i < moves.len() implies {
        let m = #[trigger] moves[i];
        &&& 0 <= m.entry < entries.len()
        &&& m.did is Extract ==> is_plain_file(entries[m.entry])
        &&& m.did is Create ==> entries[m.entry].isDir
    } by {
        assert(move_ok(entries, workerCount, moves[i]));
    }
}

/// Whether a move is that of a worker over the entry at a place.
spec fn visits(m: UnzipMove, wi: int, entry: int) -> bool {
    m.wi == wi && m.entry == entry
}

/// Whether a worker has come by the entry at a place.
spec fn visited(moves: Seq<UnzipMove>, wi: int, entry: int) -> bool {
    exists|i: int| 0 <= i < moves.len() && #[trigger] visits(moves[i], wi, entry)
}

/// Whether the folder at a path was created.
spec fn was_created(
    entries: Seq<EntryView>,
    moves: Seq<UnzipMove>,
    path: Seq<Seq<char>>,
) -> bool {
    exists|i: int| 0 <= i < moves.len() && #[trigger] creates(entries, moves[i], path)
}

/// Whether a move is one of the workers', and does with its entry what is the worker's part.
spec fn move_ok(entries: Seq<EntryView>, workerCount: u32, m: UnzipMove) -> bool {
    &&& 0 <= m.wi < workerCount
    &&& 0 <= m.entry < entries.len()
    &&& m.did is Extract <==> is_plain_file(entries[m.entry]) && m.wi == extractor(
        entries,
        workerCount,
        m.entry,
    )
    &&& m.did is Create ==> entries[m.entry].isDir
}

/// What is always true of the workers on an archive.
spec fn workers_ok(entries: Seq<EntryView>, workerCount: u32, state: Unzipping) -> bool {
    &&& state.workers.len() == workerCount
    &&& state.at.len() == workerCount
    &&& forall|wi: int|
        0 <= wi < workerCount ==> {
            &&& 0 <= #[trigger] state.at[wi] <= entries.len()
            &&& state.workers[wi] == UnzipWorker {
                workerCount,
                wi: wi as u32,
                index: if workerCount > 1 {
                    files_among(entries.take(state.at[wi])) as u32
                } else {
                    0
                },
            }
        }
}

proof fn lemma_files_among(entries: Seq<EntryView>, k: int)
    requires
        0 <= k <= entries.len(),
    ensures
        files_among(entries.take(k)) <= files_among(entries),
    decreases entries.len() - k,
{
    if k == entries.len() {
        assert(entries.take(k) == entries);
    } else {
        assert(entries.take(k + 1).drop_last() == entries.take(k));
        lemma_files_among(entries, k + 1);
    }
}

proof fn lemma_unzip_moved(
    entries: Seq<EntryView>,
    workerCount: u32,
    before: Unzipping,
    m: UnzipMove,
    after: Unzipping,
)
    requires
        workerCount >= 1,
        workerCount > 1 ==> files_among(entries) <= u32::MAX,
        workers_ok(entries, workerCount, before),
        unzip_moved(entries, before, m, after),
    ensures
        workers_ok(entries, workerCount, after),
        move_ok(entries, workerCount, m),
{
    let e = m.entry;
    assert(before.at[m.wi] == e);
    assert(entries.take(e + 1).drop_last() == entries.take(e));
    assert(entries.take(e + 1).last() == entries[e]);
    lemma_files_among(entries, e);
    lemma_files_among(entries, e + 1);
    assert forall|wi: int| 0 <= wi < workerCount implies {
        &&& 0 <= #[trigger] after.at[wi] <= entries.len()
        &&& after.workers[wi] == UnzipWorker {
            workerCount,
            wi: wi as u32,
            index: if workerCount > 1 {
                files_among(entries.take(after.at[wi])) as u32
            } else {
                0
            },
        }
    } by {
        assert(0 <= before.at[wi] <= entries.len());
    }
}

/// What holds of the workers on an archive, however far they are.
proof fn lemma_unzipping(
    entries: Seq<EntryView>,
    workerCount: u32,
    states: Seq<Unzipping>,
    moves: Seq<UnzipMove>,
)
    requires
        workerCount >= 1,
        workerCount > 1 ==> files_among(entries) <= u32::MAX,
        unzipping(entries, workerCount, states, moves),
    ensures
        workers_ok(entries, workerCount, states.last()),
        forall|i: int| 0 <= i < moves.len() ==> #[trigger] move_ok(entries, workerCount, moves[i]),
        forall|wi: int, e: int|
            0 <= wi < workerCount && 0 <= e < states.last().at[wi] ==> #[trigger] visited(
                moves,
                wi,
                e,
            ),
        forall|i: int, wi: int, e: int|
            0 <= i < moves.len() && #[trigger] visits(moves[i], wi, e) ==> e
                < states.last().at[wi],
        forall|i: int, j: int, wi: int, e: int|
            0 <= i < moves.len() && 0 <= j < moves.len() && #[trigger] visits(moves[i], wi, e)
                && #[trigger] visits(moves[j], wi, e) ==> i == j,
        forall|i: int|
            0 <= i < moves.len() && entries[(#[trigger] moves[i]).entry].isDir
                ==> states.last().folders.contains(entries[moves[i].entry].path),
        forall|path: Seq<Seq<char>>| #[trigger]
            states.last().folders.contains(path) <==> was_created(entries, moves, path),
        forall|i: int, j: int, path: Seq<Seq<char>>|
            0 <= i < moves.len() && 0 <= j < moves.len() && #[trigger] creates(
                entries,
                moves[i],
                path,
            ) && #[trigger] creates(entries, moves[j], path) ==> i == j,
    decreases moves.len(),
{
    if moves.len() == 0 {
        assert(entries.take(0).len() == 0);
    } else {
        let n = moves.len() - 1;
        let front = moves.drop_last();
        let early = states.drop_last();
        assert forall|i: int| 0 <= i < front.len() implies #[trigger] unzip_moved(
            entries,
            early[i],
            front[i],
            early[i + 1],
        ) by {
            assert(unzip_moved(entries, states[i], moves[i], states[i + 1]));
        }
        lemma_unzipping(entries, workerCount, early, front);
        let before = states[n];
        let after = states[n + 1];
        let m = moves[n];
        assert(early.last() == before);
        assert(unzip_moved(entries, before, m, after));
        lemma_unzip_moved(entries, workerCount, before, m, after);
        assert(forall|i: int| 0 <= i < n ==> #[trigger] moves[i] == front[i]);
        assert forall|i: int| 0 <= i < moves.len() implies #[trigger] move_ok(
            entries,
            workerCount,
            moves[i],
        ) by {
            if i < n {
                assert(move_ok(entries, workerCount, front[i]));
            }
        }
        assert forall|wi: int, e: int|
            0 <= wi < workerCount && 0 <= e < after.at[wi] implies #[trigger] visited(
            moves,
            wi,
            e,
        ) by {
            if e < before.at[wi] {
                assert(visited(front, wi, e));
                let i = choose|i: int| 0 <= i < front.len() && #[trigger] visits(front[i], wi, e);
                assert(visits(moves[i], wi, e));
            } else {
                assert(visits(moves[n], wi, e));
            }
        }
        assert forall|i: int, wi: int, e: int|
            0 <= i < moves.len() && #[trigger] visits(moves[i], wi, e) implies e < after.at[wi] by {
            if i < n {
                assert(visits(front[i], wi, e));
                assert(move_ok(entries, workerCount, front[i]));
            }
        }
        assert forall|i: int, j: int, wi: int, e: int|
            0 <= i < moves.len() && 0 <= j < moves.len() && #[trigger] visits(moves[i], wi, e)
                && #[trigger] visits(moves[j], wi, e) implies i == j by {
            if i < n {
                assert(visits(front[i], wi, e));
            }
            if j < n {
                assert(visits(front[j], wi, e));
            }
        }
        assert forall|i: int|
            0 <= i < moves.len() && entries[(#[trigger] moves[i]).entry].isDir implies
            after.folders.contains(entries[moves[i].entry].path) by {
            if i < n {
                assert(before.folders.contains(entries[front[i].entry].path));
            }
        }
        lemma_unzip_created(entries, front, before.folders, moves, after.folders);
    }
}

/// One more move creates a folder only if it was not created before.
proof fn lemma_unzip_created(
    entries: Seq<EntryView>,
    front: Seq<UnzipMove>,
    before: Set<Seq<Seq<char>>>,
    moves: Seq<UnzipMove>,
    after: Set<Seq<Seq<char>>>,
)
    requires
        moves.len() > 0,
        front == moves.drop_last(),
        forall|path: Seq<Seq<char>>| #[trigger]
            before.contains(path) <==> was_created(entries, front, path),
        forall|i: int, j: int, path: Seq<Seq<char>>|
            0 <= i < front.len() && 0 <= j < front.len() && #[trigger] creates(
                entries,
                front[i],
                path,
            ) && #[trigger] creates(entries, front[j], path) ==> i == j,
        ({
            let entry = entries[moves.last().entry];
            &&& moves.last().did is Create <==> entry.isDir && !before.contains(entry.path)
            &&& after == if entry.isDir {
                before.insert(entry.path)
            } else {
                before
            }
        }),
    ensures
        forall|path: Seq<Seq<char>>| #[trigger]
            after.contains(path) <==> was_created(entries, moves, path),
        forall|i: int, j: int, path: Seq<Seq<char>>|
            0 <= i < moves.len() && 0 <= j < moves.len() && #[trigger] creates(
                entries,
                moves[i],
                path,
            ) && #[trigger] creates(entries, moves[j], path) ==> i == j,
{
    let n = moves.len() - 1;
    assert forall|path: Seq<Seq<char>>| #[trigger]
        after.contains(path) <==> was_created(entries, moves, path) by {
        if was_created(entries, front, path) {
            let i = choose|i: int| 0 <= i < front.len() && #[trigger] creates(entries, front[i], path);
            assert(creates(entries, moves[i], path));
        }
        if was_created(entries, moves, path) {
            let i = choose|i: int| 0 <= i < moves.len() && #[trigger] creates(entries, moves[i], path);
            if i < n {
                assert(creates(entries, front[i], path));
                assert(before.contains(path));
            }
        }
        if after.contains(path) && !before.contains(path) {
            assert(creates(entries, moves[n], path));
        }
    }
    assert forall|i: int, j: int, path: Seq<Seq<char>>|
        0 <= i < moves.len() && 0 <= j < moves.len() && #[trigger] creates(entries, moves[i], path)
            && #[trigger] creates(entries, moves[j], path) implies i == j by {
        if i < n {
            assert(creates(entries, front[i], path));
            assert(before.contains(path));
        }
        if j < n {
            assert(creates(entries, front[j], path));
            assert(before.contains(path));
        }
    }
}

// What cleaning is for

/// A cleaning leaves nothing but the parts of scenes' archives: every folder goes with all that is in
/// it, and every file whose extension is another, or that has none.
pub proof fn law_cleaning(isDir: bool, name: Seq<char>)
    ensures
        isDir <==> clean_action(isDir, name) is DeleteTree,
        clean_action(isDir, name) is Keep ==> !isDir && exists|stem: Seq<char>|
            stem.len() > 0 && name == #[trigger] (stem + ".wool"@),
        !isDir && extension_of(name) is None ==> clean_action(isDir, name) is RemoveFile,
{
    if clean_action(isDir, name) is Keep {
        crate::paths::law_extension(name);
        reveal_strlit("wool");
        reveal_strlit(".wool");
        let ext = extension_of(name)->0;
        let stem = name.take(name.len() - ext.len() - 1);
        assert(".wool"@ =~= seq!['.'] + "wool"@);
        assert(name == stem + ".wool"@);
    }
}

} // verus!

//! Paths, as the pieces that are joined to make them.

use vstd::prelude::*;

use crate::text::views;

verus! {

/// A path: a first piece, and each following piece joined onto what stands before it. What
/// joining does to a piece with a root of its own is the platform's business.
#[derive(Debug)]
pub struct PathPieces {
    pub pieces: Vec<String>,
}

impl View for PathPieces {
    type V = Seq<Seq<char>>;

    open spec fn view(&self) -> Seq<Seq<char>> {
        views(self.pieces@)
    }
}

impl PathPieces {
    /// The path that is `base` alone.
    pub fn of(base: &str) -> (r: PathPieces)
        ensures
            r@ == seq![base@],
    {
        let mut pieces: Vec<String> = Vec::new();
        pieces.push(base.to_owned());
        assert(views(pieces@) == seq![base@]);
        PathPieces { pieces }
    }

    /// This path with one more piece joined onto it.
    pub fn join(self, piece: &str) -> (r: PathPieces)
        ensures
            r@ == self@.push(piece@),
    {
        let mut pieces = self.pieces;
        pieces.push(piece.to_owned());
        assert(views(pieces@) == self@.push(piece@));
        PathPieces { pieces }
    }
}

impl Clone for PathPieces {
    fn clone(&self) -> (r: PathPieces)
        ensures
            r@ == self@,
    {
        let mut pieces: Vec<String> = Vec::new();
        let mut i: usize = 0;
        while i < self.pieces.len()
            invariant
                i <= self.pieces@.len(),
                views(pieces@) == self@.take(i as int),
            decreases self.pieces@.len() - i,
        {
            let ghost before = views(pieces@);
            pieces.push(self.pieces[i].clone());
            i += 1;
            assert(views(pieces@) == before.push(self@[i as int - 1]));
            assert(self@.take(i as int) == before.push(self@[i as int - 1]));
        }
        assert(self@.take(self@.len() as int) == self@);
        PathPieces { pieces }
    }
}

/// What each path of a list is made of.
pub open spec fn path_views(list: Seq<PathPieces>) -> Seq<Seq<Seq<char>>> {
    list.map_values(|p: PathPieces| p@)
}

// File names

/// What stands behind the last dot of a file name, unless the dot is its first character or
/// there is none. The two dots that stand for the folder above have no extension.
pub open spec fn extension_of(name: Seq<char>) -> Option<Seq<char>> {
    let dot = last_dot(name);
    if name == ".."@ || dot <= 0 {
        None
    } else {
        Some(name.skip(dot + 1))
    }
}

/// The name of the file at a path whose last piece is a name: that piece, unless it stands for the
/// folder above.
pub open spec fn file_name_of(path: Seq<Seq<char>>) -> Option<Seq<char>> {
    if path.len() == 0 || path.last() == ".."@ {
        None
    } else {
        Some(path.last())
    }
}

/// The name of the file at a path whose last piece is a name.
pub fn fileName(path: &PathPieces) -> (r: Option<String>)
    ensures
        match r {
            Some(name) => file_name_of(path@) == Some(name@),
            None => file_name_of(path@) is None,
        },
{
    let n = path.pieces.len();
    if n == 0 || crate::text::strEq(path.pieces[n - 1].as_str(), "..") {
        None
    } else {
        Some(path.pieces[n - 1].clone())
    }
}

/// Where the last dot of a file name stands; before its front where there is none.
pub open spec fn last_dot(name: Seq<char>) -> int
    decreases name.len(),
{
    if name.len() == 0 {
        -1
    } else if name.last() == '.' {
        name.len() - 1
    } else {
        last_dot(name.drop_last())
    }
}

/// The extension of a file name.
pub fn extension(name: &str) -> (r: Option<String>)
    ensures
        match r {
            Some(e) => extension_of(name@) == Some(e@),
            None => extension_of(name@) is None,
        },
{
    if crate::text::strEq(name, "..") {
        return None;
    }
    let chars = crate::text::toChars(name);
    let mut end: usize = chars.len();
    assert(name@.take(name@.len() as int) == name@);
    while end > 0 && chars[end - 1] != '.'
        invariant
            end <= chars@.len(),
            chars@ == name@,
            last_dot(name@) == last_dot(name@.take(end as int)),
        decreases end,
    {
        assert(name@.take(end as int).drop_last() == name@.take(end as int - 1));
        end -= 1;
    }
    if end <= 1 {
        None
    } else {
        assert(name@.skip(end as int) == chars@.subrange(end as int, chars@.len() as int));
        Some(crate::text::fromChars(&chars, end, chars.len()))
    }
}

/// The last dot is a dot, and no dot stands behind it.
pub proof fn lemma_last_dot(name: Seq<char>)
    ensures
        -1 <= last_dot(name) < name.len(),
        last_dot(name) >= 0 ==> name[last_dot(name)] == '.',
        forall|i: int| last_dot(name) < i < name.len() ==> #[trigger] name[i] != '.',
    decreases name.len(),
{
    if name.len() > 0 && name.last() != '.' {
        lemma_last_dot(name.drop_last());
        assert forall|i: int| last_dot(name) < i < name.len() implies #[trigger] name[i] != '.' by {
            if i < name.len() - 1 {
                assert(name.drop_last()[i] == name[i]);
            }
        }
    }
}

/// An extension is what stands behind the last dot of a name, with something before that dot; the
/// three together are the name.
pub proof fn law_extension(name: Seq<char>)
    ensures
        extension_of(name) matches Some(ext) ==> {
            let stem = name.take(name.len() - ext.len() - 1);
            &&& name == stem + seq!['.'] + ext
            &&& stem.len() > 0
            &&& forall|i: int| 0 <= i < ext.len() ==> #[trigger] ext[i] != '.'
        },
{
    lemma_last_dot(name);
    if let Some(ext) = extension_of(name) {
        let dot = last_dot(name);
        let stem = name.take(name.len() - ext.len() - 1);
        assert(name.len() - ext.len() - 1 == dot);
        assert(name == stem + seq!['.'] + ext);
        assert forall|i: int| 0 <= i < ext.len() implies #[trigger] ext[i] != '.' by {
            assert(name[dot + 1 + i] != '.');
        }
    }
}

/// A name that is put together of something, a dot and an extension without a dot has that extension,
/// unless it is the folder above.
pub proof fn law_extension_found(stem: Seq<char>, ext: Seq<char>)
    requires
        stem.len() > 0,
        !ext.contains('.'),
        ext.len() > 0 || stem != seq!['.'],
    ensures
        extension_of(stem + seq!['.'] + ext) == Some(ext),
{
    let name = stem + seq!['.'] + ext;
    lemma_last_dot(name);
    reveal_strlit("..");
    assert(name[stem.len() as int] == '.');
    assert forall|i: int| stem.len() < i < name.len() implies name[i] != '.' by {
        assert(name[i] == ext[i - stem.len() - 1]);
    }
    assert(last_dot(name) == stem.len());
    assert(name.skip(stem.len() as int + 1) == ext);
    if name == ".."@ {
        assert(name[0] == '.');
        assert(stem.len() == 1);
        assert(stem[0] == name[0]);
        assert(stem == seq!['.']);
    }
}

/// A name without a dot has no extension, nor has one whose only dot is its first character.
pub proof fn law_no_extension(name: Seq<char>)
    requires
        forall|i: int| 1 <= i < name.len() ==> #[trigger] name[i] != '.',
    ensures
        extension_of(name) is None,
{
    lemma_last_dot(name);
}

/// The name of a file is the last piece of its path; the folder above is no file.
pub proof fn law_file_name(path: Seq<Seq<char>>, name: Seq<char>)
    ensures
        name != seq!['.', '.'] ==> file_name_of(path.push(name)) == Some(name),
        file_name_of(path.push(seq!['.', '.'])) is None,
        file_name_of(Seq::empty()) is None,
{
    reveal_strlit("..");
    assert(".."@ == seq!['.', '.']);
    assert(path.push(name).last() == name);
}

} // verus!

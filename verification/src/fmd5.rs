//! Digests of files, and what is remembered of them.

use vstd::prelude::*;

use crate::outside::{consumed, md5_digest, md5Compute, md5Consume, md5Context};
use crate::text::{glue, strEq};

verus! {

/// The character of a hexadecimal digit.
pub open spec fn hex_char(d: int) -> char {
    if d < 10 {
        (48 + d) as char
    } else {
        (87 + d) as char
    }
}

/// Bytes in hexadecimal, two digits each, in lower case.
pub open spec fn hex(bytes: Seq<u8>) -> Seq<char>
    decreases bytes.len(),
{
    if bytes.len() == 0 {
        Seq::empty()
    } else {
        hex(bytes.drop_last()).push(hex_char(bytes.last() as int / 16)).push(
            hex_char(bytes.last() as int % 16),
        )
    }
}

fn hexChar(d: u8) -> (c: char)
    requires
        d < 16,
    ensures
        c == hex_char(d as int),
{
    match d {
        0 => '0',
        1 => '1',
        2 => '2',
        3 => '3',
        4 => '4',
        5 => '5',
        6 => '6',
        7 => '7',
        8 => '8',
        9 => '9',
        10 => 'a',
        11 => 'b',
        12 => 'c',
        13 => 'd',
        14 => 'e',
        _ => 'f',
    }
}

/// A digest in hexadecimal.
pub fn hexText(digest: &[u8; 16]) -> (r: String)
    ensures
        r@ == hex(digest@),
{
    let mut text = String::new();
    let mut i: usize = 0;
    while i < 16
        invariant
            i <= 16,
            text@ == hex(digest@.take(i as int)),
        decreases 16 - i,
    {
        let b: u8 = digest[i];
        text.push(hexChar(b / 16));
        text.push(hexChar(b % 16));
        i += 1;
        assert(digest@.take(i as int).drop_last() == digest@.take(i as int - 1));
    }
    assert(digest@.take(16) == digest@);
    text
}

proof fn lemma_hex_char(a: int, b: int)
    requires
        0 <= a < 16,
        0 <= b < 16,
        hex_char(a) == hex_char(b),
    ensures
        a == b,
{
}

/// Different bytes of the same number differ in hexadecimal.
pub proof fn law_hex_injective(a: Seq<u8>, b: Seq<u8>)
    requires
        hex(a) == hex(b),
    ensures
        a == b,
    decreases a.len(),
{
    lemma_hex_len(a);
    lemma_hex_len(b);
    if a.len() > 0 {
        let x = hex(a);
        let y = hex(b);
        let n = x.len() as int;
        assert(x[n - 1] == hex_char(a.last() as int % 16));
        assert(y[n - 1] == hex_char(b.last() as int % 16));
        assert(x[n - 2] == hex_char(a.last() as int / 16));
        assert(y[n - 2] == hex_char(b.last() as int / 16));
        lemma_hex_char(a.last() as int % 16, b.last() as int % 16);
        lemma_hex_char(a.last() as int / 16, b.last() as int / 16);
        assert(a.last() == b.last());
        assert(hex(a.drop_last()) == x.take(n - 2));
        assert(hex(b.drop_last()) == y.take(n - 2));
        law_hex_injective(a.drop_last(), b.drop_last());
        assert(a == a.drop_last().push(a.last()));
        assert(b == b.drop_last().push(b.last()));
    }
}

proof fn lemma_hex_len(a: Seq<u8>)
    ensures
        hex(a).len() == 2 * a.len(),
    decreases a.len(),
{
    if a.len() > 0 {
        lemma_hex_len(a.drop_last());
    }
}

/// Holds a digest against the one that was announced. `owner` is what the digest is of.
pub fn checkMd5(md5Check: &str, owner: &str, computed: &[u8; 16]) -> (r: Result<(), String>)
    ensures
        match r {
            Ok(_) => hex(computed@) == md5Check@,
            Err(m) => hex(computed@) != md5Check@ && m@ == "Hashes do not match for "@ + owner@,
        },
{
    if strEq(hexText(computed).as_str(), md5Check) {
        Ok(())
    } else {
        Err(glue("Hashes do not match for ", owner))
    }
}

/// A digest passes for at most one announcement, and two digests that pass for the same
/// announcement are equal.
pub proof fn law_check_decides(check: Seq<char>, a: Seq<u8>, b: Seq<u8>)
    requires
        hex(a) == check,
        hex(b) == check,
    ensures
        a == b,
{
    law_hex_injective(a, b);
}

// Digests in the making

/// Some bytes in a digest, and their number.
struct CountedContext {
    context: md5::Context,
    count: u64,
}

impl CountedContext {
    spec fn counts(self) -> bool {
        self.count == consumed(self.context).len()
    }

    fn consume(&mut self, data: &[u8], length: usize)
        requires
            old(self).counts(),
            length == data@.len(),
            old(self).count + length <= u64::MAX,
        ensures
            final(self).counts(),
            consumed(final(self).context) == consumed(old(self).context) + data@,
        no_unwind
    {
        md5Consume(&mut self.context, data);
        self.count = self.count + length as u64;
    }
}

/// The digest of a file in the making, which knows how many bytes it has taken in. Its view is what
/// was taken in of the file.
pub struct FileDigest {
    taken: CountedContext,
}

impl View for FileDigest {
    type V = Seq<u8>;

    closed spec fn view(&self) -> Seq<u8> {
        consumed(self.taken.context)
    }
}

impl FileDigest {
    #[verifier::type_invariant]
    spec fn well_formed(self) -> bool {
        self.taken.counts()
    }

    /// Nothing is taken in yet.
    pub fn new() -> (r: FileDigest)
        ensures
            r@ == Seq::<u8>::empty(),
    {
        FileDigest { taken: CountedContext { context: md5Context(), count: 0 } }
    }

    /// Takes in the next bytes.
    pub fn consume(&mut self, data: &[u8])
        requires
            old(self)@.len() + data@.len() <= u64::MAX,
        ensures
            final(self)@ == old(self)@ + data@,
    {
        proof {
            use_type_invariant(&*self);
        }
        self.taken.consume(data, data.len());
    }

    /// How many bytes were taken in.
    pub fn bytes(&self) -> (r: u64)
        ensures
            r == self@.len(),
    {
        proof {
            use_type_invariant(self);
        }
        self.taken.count
    }

    /// The digest of the bytes that were taken in.
    pub fn compute(self) -> (r: [u8; 16])
        ensures
            r@ == md5_digest(self@),
    {
        md5Compute(self.taken.context)
    }
}

// What is remembered

/// By what a file is told to be unchanged: when it was last written, in nanoseconds from the
/// start of 1970, and its size.
#[derive(Debug, Clone, Copy, PartialEq, Eq, Structural)]
pub struct HashNode {
    pub modTime: i128,
    pub size: u64,
}

struct HashEntry {
    path: Vec<u8>,
    node: HashNode,
    digest: [u8; 16],
}

/// The digests of files that were computed before, each with the state that the file was in. Its
/// view maps a path to that state and the digest.
pub struct HashCache {
    entries: Vec<HashEntry>,
}

spec fn entry_at(entries: Seq<HashEntry>, path: Seq<u8>) -> int {
    choose|i: int| 0 <= i < entries.len() && (#[trigger] entries[i]).path@ == path
}

spec fn has_entry(entries: Seq<HashEntry>, path: Seq<u8>) -> bool {
    exists|i: int| 0 <= i < entries.len() && (#[trigger] entries[i]).path@ == path
}

impl View for HashCache {
    type V = Map<Seq<u8>, (HashNode, Seq<u8>)>;

    closed spec fn view(&self) -> Map<Seq<u8>, (HashNode, Seq<u8>)> {
        Map::new(
            |path: Seq<u8>| has_entry(self.entries@, path),
            |path: Seq<u8>|
                {
                    let entry = self.entries@[entry_at(self.entries@, path)];
                    (entry.node, entry.digest@)
                },
        )
    }
}

/// The digest that is remembered of a file, if the file is as it was.
pub open spec fn remembered(
    cache: Map<Seq<u8>, (HashNode, Seq<u8>)>,
    path: Seq<u8>,
    node: Option<HashNode>,
) -> Option<Seq<u8>> {
    match node {
        Some(node) => if cache.contains_key(path) && cache[path].0 == node {
            Some(cache[path].1)
        } else {
            None
        },
        None => None,
    }
}

/// What is remembered once a digest was computed of a file in a state; nothing new where the
/// state could not be told.
pub open spec fn with_digest(
    cache: Map<Seq<u8>, (HashNode, Seq<u8>)>,
    path: Seq<u8>,
    node: Option<HashNode>,
    digest: Seq<u8>,
) -> Map<Seq<u8>, (HashNode, Seq<u8>)> {
    match node {
        Some(node) => cache.insert(path, (node, digest)),
        None => cache,
    }
}

fn sameBytes(a: &Vec<u8>, b: &Vec<u8>) -> (r: bool)
    ensures
        r == (a@ == b@),
{
    if a.len() != b.len() {
        return false;
    }
    let mut i: usize = 0;
    while i < a.len()
        invariant
            i <= a@.len() == b@.len(),
            forall|j: int| 0 <= j < i ==> a@[j] == b@[j],
        decreases a@.len() - i,
    {
        if a[i] != b[i] {
            return false;
        }
        i += 1;
    }
    assert(a@ == b@);
    true
}

impl Default for HashCache {
    fn default() -> (r: Self)
        ensures
            r@ == Map::<Seq<u8>, (HashNode, Seq<u8>)>::empty(),
    {
        let r = HashCache { entries: Vec::new() };
        assert(r@ == Map::<Seq<u8>, (HashNode, Seq<u8>)>::empty());
        r
    }
}

impl HashCache {
    #[verifier::type_invariant]
    spec fn well_formed(self) -> bool {
        forall|i: int, j: int|
            0 <= i < j < self.entries@.len() ==> #[trigger] self.entries@[i].path@
                != #[trigger] self.entries@[j].path@
    }

    fn position(&self, path: &Vec<u8>) -> (r: Option<usize>)
        ensures
            match r {
                Some(i) => i < self.entries@.len() && self.entries@[i as int].path@ == path@,
                None => !has_entry(self.entries@, path@),
            },
    {
        let mut i: usize = 0;
        while i < self.entries.len()
            invariant
                i <= self.entries@.len(),
                forall|j: int| 0 <= j < i ==> (#[trigger] self.entries@[j]).path@ != path@,
            decreases self.entries@.len() - i,
        {
            if sameBytes(&self.entries[i].path, path) {
                return Some(i);
            }
            i += 1;
        }
        None
    }

    /// The digest of the file at `path`, if it is remembered and the file is as it was. `node` is
    /// the state that the file is in, if it can be told.
    pub fn lookup(&self, path: &Vec<u8>, node: Option<HashNode>) -> (r: Option<[u8; 16]>)
        ensures
            match r {
                Some(digest) => remembered(self@, path@, node) == Some(digest@),
                None => remembered(self@, path@, node) is None,
            },
    {
        proof {
            use_type_invariant(self);
        }
        let node = match node {
            Some(node) => node,
            None => return None,
        };
        match self.position(path) {
            Some(i) => {
                assert(entry_at(self.entries@, path@) == i);
                if self.entries[i].node == node {
                    Some(self.entries[i].digest)
                } else {
                    None
                }
            },
            None => None,
        }
    }

    /// Remembers the digest of the file at `path`, in place of any that was remembered before.
    pub fn record(&mut self, path: Vec<u8>, node: Option<HashNode>, digest: [u8; 16])
        ensures
            final(self)@ == with_digest(old(self)@, path@, node, digest@),
    {
        proof {
            use_type_invariant(&*self);
        }
        let node = match node {
            Some(node) => node,
            None => return ,
        };
        let place = self.position(&path);
        let ghost before = self.entries@;
        let ghost map = self@;
        let ghost key = path@;
        let mut entries: Vec<HashEntry> = Vec::new();
        std::mem::swap(&mut entries, &mut self.entries);
        match place {
            Some(i) => {
                entries.set(i, HashEntry { path, node, digest });
                proof {
                    assert(before[i as int].path@ == key);
                    assert forall|p: Seq<u8>| #[trigger]
                        has_entry(entries@, p) == (has_entry(before, p) || p == key) by {
                        if has_entry(before, p) {
                            let k = entry_at(before, p);
                            assert(entries@[k].path@ == p);
                        }
                        if has_entry(entries@, p) {
                            let k = entry_at(entries@, p);
                            assert(before[k].path@ == p);
                        }
                    }
                }
            },
            None => {
                entries.push(HashEntry { path, node, digest });
                proof {
                    assert(entries@[before.len() as int].path@ == key);
                    assert forall|p: Seq<u8>| #[trigger]
                        has_entry(entries@, p) == (has_entry(before, p) || p == key) by {
                        if has_entry(before, p) {
                            let k = entry_at(before, p);
                            assert(entries@[k].path@ == p);
                        }
                    }
                }
            },
        }
        proof {
            assert forall|i: int, j: int| 0 <= i < j < entries@.len() implies #[trigger] entries@[i].path@
                != #[trigger] entries@[j].path@ by {
                if place is None && j == before.len() {
                    assert(before[i].path@ != key);
                } else {
                    assert(before[i].path@ != before[j].path@);
                }
            }
        }
        self.entries = entries;
        proof {
            assert forall|p: Seq<u8>| #[trigger] map.insert(key, (node, digest@)).contains_key(p)
                implies self@[p] == map.insert(key, (node, digest@))[p] by {
                assert(has_entry(self.entries@, p));
                let k = entry_at(self.entries@, p);
                assert(self.entries@[k].path@ == p);
                if p != key {
                    assert(has_entry(before, p));
                    let k0 = entry_at(before, p);
                    assert(before[k0].path@ == p);
                    assert(self.entries@[k0].path@ == p);
                    assert(k == k0);
                } else {
                    let place_of = match place {
                        Some(i) => i as int,
                        None => before.len() as int,
                    };
                    assert(self.entries@[place_of].path@ == key);
                    assert(k == place_of);
                }
            }
            assert(self@ =~= map.insert(key, (node, digest@)));
        }
    }

    /// The digest of the file at `path`, all of whose bytes were taken in; it is remembered.
    pub fn computeFileHash(
        &mut self,
        path: Vec<u8>,
        node: Option<HashNode>,
        content: FileDigest,
    ) -> (r: [u8; 16])
        ensures
            r@ == md5_digest(content@),
            final(self)@ == with_digest(old(self)@, path@, node, md5_digest(content@)),
    {
        let digest = content.compute();
        self.record(path, node, digest);
        digest
    }
}

/// What was remembered of a file is found while the file stays in that state, and not once it is
/// in another; other files are left alone.
pub proof fn law_remembered(
    cache: Map<Seq<u8>, (HashNode, Seq<u8>)>,
    path: Seq<u8>,
    node: HashNode,
    digest: Seq<u8>,
    other: Seq<u8>,
    state: Option<HashNode>,
)
    ensures
        remembered(with_digest(cache, path, Some(node), digest), path, Some(node)) == Some(digest),
        state != Some(node) ==> remembered(
            with_digest(cache, path, Some(node), digest),
            path,
            state,
        ) is None,
        other != path ==> remembered(with_digest(cache, path, Some(node), digest), other, state)
            == remembered(cache, other, state),
{
}

/// The value of a hexadecimal digit in lower case.
pub open spec fn hex_value(c: char) -> int {
    if '0' <= c <= '9' {
        c as int - '0' as int
    } else if 'a' <= c <= 'f' {
        c as int - 'a' as int + 10
    } else {
        -1
    }
}

/// Bytes in hexadecimal are read back: the two digits of each byte, both in lower case, make its
/// value, the higher one first.
pub proof fn law_hex_read_back(bytes: Seq<u8>, i: int)
    requires
        0 <= i < bytes.len(),
    ensures
        hex(bytes).len() == 2 * bytes.len(),
        hex_value(hex(bytes)[2 * i]) >= 0,
        hex_value(hex(bytes)[2 * i + 1]) >= 0,
        hex_value(hex(bytes)[2 * i]) * 16 + hex_value(hex(bytes)[2 * i + 1]) == bytes[i],
    decreases bytes.len(),
{
    lemma_hex_len(bytes);
    lemma_hex_len(bytes.drop_last());
    let n = bytes.len() - 1;
    if i < n {
        law_hex_read_back(bytes.drop_last(), i);
        assert(hex(bytes)[2 * i] == hex(bytes.drop_last())[2 * i]);
        assert(hex(bytes)[2 * i + 1] == hex(bytes.drop_last())[2 * i + 1]);
    } else {
        let b = bytes.last() as int;
        lemma_hex_value(b / 16);
        lemma_hex_value(b % 16);
        assert(hex(bytes)[2 * n] == hex_char(b / 16));
        assert(hex(bytes)[2 * n + 1] == hex_char(b % 16));
        assert(b == b / 16 * 16 + b % 16);
    }
}

proof fn lemma_hex_value(d: int)
    requires
        0 <= d < 16,
    ensures
        hex_value(hex_char(d)) == d,
{
}

/// A file whose state cannot be told is neither remembered nor looked up.
pub proof fn law_state_unknown(
    cache: Map<Seq<u8>, (HashNode, Seq<u8>)>,
    path: Seq<u8>,
    digest: Seq<u8>,
    other: Seq<u8>,
    state: Option<HashNode>,
)
    ensures
        remembered(cache, path, None) is None,
        remembered(with_digest(cache, path, None, digest), other, state) == remembered(
            cache,
            other,
            state,
        ),
        remembered(Map::empty(), path, state) is None,
{
}

/// What is remembered is what was computed last.
pub proof fn law_latest_remembered(
    cache: Map<Seq<u8>, (HashNode, Seq<u8>)>,
    path: Seq<u8>,
    older: HashNode,
    newer: HashNode,
    first: Seq<u8>,
    second: Seq<u8>,
)
    ensures
        remembered(
            with_digest(with_digest(cache, path, Some(older), first), path, Some(newer), second),
            path,
            Some(newer),
        ) == Some(second),
        older != newer ==> remembered(
            with_digest(with_digest(cache, path, Some(older), first), path, Some(newer), second),
            path,
            Some(older),
        ) is None,
{
}

} // verus!

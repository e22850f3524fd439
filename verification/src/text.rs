//! Text: what the client needs of strings, over their characters.

use vstd::prelude::*;

verus! {

/// `String::push`: the given character comes to stand at the end.
pub assume_specification[ String::push ](s: &mut String, c: char)
    ensures
        final(s)@ == old(s)@.push(c),
;

/// The `char`s of a string, one by one.
pub fn toChars(s: &str) -> (r: Vec<char>)
    ensures
        r@ == s@,
{
    let mut chars: Vec<char> = Vec::new();
    for c in it: s.chars()
        invariant
            it.seq() == s@,
            chars@ == s@.take(it.index() as int),
    {
        chars.push(c);
    }
    assert(s@.take(s@.len() as int) == s@);
    chars
}

/// The string that the characters from `from` up to `to` make.
pub fn fromChars(chars: &Vec<char>, from: usize, to: usize) -> (r: String)
    requires
        from <= to <= chars@.len(),
    ensures
        r@ == chars@.subrange(from as int, to as int),
{
    let mut text = String::new();
    let mut i: usize = from;
    while i < to
        invariant
            from <= i <= to <= chars@.len(),
            text@ == chars@.subrange(from as int, i as int),
        decreases to - i,
    {
        text.push(chars[i]);
        i += 1;
    }
    text
}

/// Whether two strings hold the same characters.
pub fn strEq(a: &str, b: &str) -> (r: bool)
    ensures
        r == (a@ == b@),
{
    a.to_owned() == b.to_owned()
}

/// Two strings, one after the other.
pub fn glue(a: &str, b: &str) -> (r: String)
    ensures
        r@ == a@ + b@,
{
    let mut text = a.to_owned();
    text.append(b);
    text
}

/// Three strings, one after the other.
pub fn glue3(a: &str, b: &str, c: &str) -> (r: String)
    ensures
        r@ == a@ + b@ + c@,
{
    let mut text = a.to_owned();
    text.append(b);
    text.append(c);
    text
}

/// Whether a string begins with another.
pub fn startsWith(s: &str, prefix: &str) -> (r: bool)
    ensures
        r == prefix@.is_prefix_of(s@),
{
    let a = toChars(s);
    let b = toChars(prefix);
    if b.len() > a.len() {
        return false;
    }
    let mut i: usize = 0;
    while i < b.len()
        invariant
            i <= b@.len() <= a@.len(),
            a@ == s@,
            b@ == prefix@,
            b@.take(i as int) == a@.take(i as int),
        decreases b@.len() - i,
    {
        if a[i] != b[i] {
            assert(prefix@[i as int] != s@[i as int]);
            return false;
        }
        assert(b@.take(i as int + 1) == b@.take(i as int).push(b@[i as int]));
        assert(a@.take(i as int + 1) == a@.take(i as int).push(a@[i as int]));
        i += 1;
    }
    assert(b@.take(b@.len() as int) == b@);
    true
}

/// The string with each `from` turned into `to`.
pub open spec fn replaced(s: Seq<char>, from: char, to: char) -> Seq<char> {
    s.map_values(|c: char| if c == from { to } else { c })
}

/// `s` with each `from` turned into `to`.
pub fn replaceChar(s: &str, from: char, to: char) -> (r: String)
    ensures
        r@ == replaced(s@, from, to),
{
    let chars = toChars(s);
    let mut text = String::new();
    let mut i: usize = 0;
    while i < chars.len()
        invariant
            i <= chars@.len(),
            chars@ == s@,
            text@ == replaced(s@, from, to).take(i as int),
        decreases chars@.len() - i,
    {
        text.push(if chars[i] == from { to } else { chars[i] });
        i += 1;
        assert(text@ == replaced(s@, from, to).take(i as int));
    }
    assert(replaced(s@, from, to).take(s@.len() as int) == replaced(s@, from, to));
    text
}

// Whitespace

/// The characters with Unicode's property `White_Space`.
pub open spec fn is_space(c: char) -> bool {
    let n = c as u32;
    ||| 0x9 <= n <= 0xd
    ||| n == 0x20
    ||| n == 0x85
    ||| n == 0xa0
    ||| n == 0x1680
    ||| 0x2000 <= n <= 0x200a
    ||| n == 0x2028
    ||| n == 0x2029
    ||| n == 0x202f
    ||| n == 0x205f
    ||| n == 0x3000
}

/// A string without the whitespace at its front.
pub open spec fn trimmed_front(s: Seq<char>) -> Seq<char>
    decreases s.len(),
{
    if s.len() > 0 && is_space(s[0]) {
        trimmed_front(s.drop_first())
    } else {
        s
    }
}

/// A string without the whitespace at its end.
pub open spec fn trimmed_back(s: Seq<char>) -> Seq<char>
    decreases s.len(),
{
    if s.len() > 0 && is_space(s.last()) {
        trimmed_back(s.drop_last())
    } else {
        s
    }
}

/// A string without the whitespace around it.
pub open spec fn trimmed(s: Seq<char>) -> Seq<char> {
    trimmed_back(trimmed_front(s))
}

/// Whether `c` is whitespace.
pub fn isSpace(c: char) -> (r: bool)
    ensures
        r == is_space(c),
{
    let n: u32 = c as u32;
    (0x9 <= n && n <= 0xd) || n == 0x20 || n == 0x85 || n == 0xa0 || n == 0x1680 || (0x2000 <= n && n
        <= 0x200a) || n == 0x2028 || n == 0x2029 || n == 0x202f || n == 0x205f || n == 0x3000
}

/// `s` without the whitespace around it.
pub fn trim(s: &str) -> (r: String)
    ensures
        r@ == trimmed(s@),
{
    let chars = toChars(s);
    let mut from: usize = 0;
    assert(s@.skip(0) == s@);
    while from < chars.len() && isSpace(chars[from])
        invariant
            from <= chars@.len(),
            chars@ == s@,
            trimmed_front(s@) == trimmed_front(s@.skip(from as int)),
        decreases chars@.len() - from,
    {
        assert(s@.skip(from as int).drop_first() == s@.skip(from as int + 1));
        from += 1;
    }
    let mut to: usize = chars.len();
    assert(s@.subrange(from as int, to as int) == s@.skip(from as int));
    while to > from && isSpace(chars[to - 1])
        invariant
            from <= to <= chars@.len(),
            chars@ == s@,
            trimmed(s@) == trimmed_back(s@.subrange(from as int, to as int)),
        decreases to,
    {
        assert(s@.subrange(from as int, to as int).drop_last() == s@.subrange(
            from as int,
            to as int - 1,
        ));
        to -= 1;
    }
    fromChars(&chars, from, to)
}

/// Nothing but whitespace goes: what is left is a stretch of the string, with no whitespace at
/// either end, and all that stood before and after the stretch is whitespace.
pub proof fn law_trimmed(s: Seq<char>) -> (bounds: (int, int))
    ensures
        0 <= bounds.0 <= bounds.1 <= s.len(),
        trimmed(s) == s.subrange(bounds.0, bounds.1),
        forall|i: int| 0 <= i < bounds.0 || bounds.1 <= i < s.len() ==> is_space(#[trigger] s[i]),
        trimmed(s).len() > 0 ==> !is_space(trimmed(s)[0]) && !is_space(trimmed(s).last()),
{
    let from = lemma_trimmed_front(s);
    let front = trimmed_front(s);
    let kept = lemma_trimmed_back(front);
    let back = trimmed_back(front);
    assert(back == s.subrange(from, from + kept));
    assert forall|i: int| 0 <= i < from || from + kept <= i < s.len() implies is_space(
        #[trigger] s[i],
    ) by {
        if i >= from {
            assert(front[i - from] == s[i]);
        }
    }
    if back.len() > 0 {
        assert(back[0] == front[0]);
    }
    (from, from + kept)
}

proof fn lemma_trimmed_front(s: Seq<char>) -> (from: int)
    ensures
        0 <= from <= s.len(),
        trimmed_front(s) == s.subrange(from, s.len() as int),
        forall|i: int| 0 <= i < from ==> is_space(#[trigger] s[i]),
        trimmed_front(s).len() > 0 ==> !is_space(trimmed_front(s)[0]),
    decreases s.len(),
{
    if s.len() > 0 && is_space(s[0]) {
        let rest = s.drop_first();
        let from = lemma_trimmed_front(rest);
        assert forall|i: int| 0 <= i < from + 1 implies is_space(#[trigger] s[i]) by {
            if i > 0 {
                assert(rest[i - 1] == s[i]);
            }
        }
        assert(rest.subrange(from, rest.len() as int) == s.subrange(from + 1, s.len() as int));
        from + 1
    } else {
        assert(s == s.subrange(0, s.len() as int));
        0
    }
}

proof fn lemma_trimmed_back(s: Seq<char>) -> (kept: int)
    ensures
        0 <= kept <= s.len(),
        trimmed_back(s) == s.subrange(0, kept),
        forall|i: int| kept <= i < s.len() ==> is_space(#[trigger] s[i]),
        trimmed_back(s).len() > 0 ==> !is_space(trimmed_back(s).last()),
    decreases s.len(),
{
    if s.len() > 0 && is_space(s.last()) {
        let rest = s.drop_last();
        let kept = lemma_trimmed_back(rest);
        assert forall|i: int| kept <= i < s.len() implies is_space(#[trigger] s[i]) by {
            if i < rest.len() {
                assert(rest[i] == s[i]);
            }
        }
        assert(rest.subrange(0, kept) == s.subrange(0, kept));
        kept
    } else {
        assert(s == s.subrange(0, s.len() as int));
        s.len() as int
    }
}

/// Whitespace goes from the end of two texts put together as from the second; where nothing of
/// that is left, as from the first.
pub proof fn lemma_trimmed_back_concat(a: Seq<char>, b: Seq<char>)
    ensures
        trimmed_back(a + b) == if trimmed_back(b).len() > 0 {
            a + trimmed_back(b)
        } else {
            trimmed_back(a)
        },
    decreases b.len(),
{
    if b.len() > 0 && is_space(b.last()) {
        assert((a + b).last() == b.last());
        assert((a + b).drop_last() == a + b.drop_last());
        lemma_trimmed_back_concat(a, b.drop_last());
    } else if b.len() > 0 {
        assert((a + b).last() == b.last());
    } else {
        assert(a + b == a);
    }
}

/// It does not matter from which end the whitespace goes first.
pub proof fn lemma_trimmed_ends(s: Seq<char>)
    ensures
        trimmed_front(trimmed_back(s)) == trimmed(s),
        trimmed(trimmed_back(s)) == trimmed(s),
    decreases s.len(),
{
    let from = lemma_trimmed_front(s);
    let kept = lemma_trimmed_back(s);
    if s.len() > 0 && is_space(s[0]) {
        let rest = s.drop_first();
        lemma_trimmed_ends(rest);
        let first = seq![s[0]];
        assert(first + rest == s);
        lemma_trimmed_back_concat(first, rest);
        if trimmed_back(rest).len() > 0 {
            assert((first + trimmed_back(rest)).drop_first() == trimmed_back(rest));
        } else {
            assert(first.drop_last().len() == 0);
            assert(trimmed_back(first).len() == 0) by {
                reveal_with_fuel(trimmed_back, 2);
            }
            assert(trimmed_back(s) == trimmed_back(rest));
        }
    } else {
        assert(trimmed_front(s) == s);
        if trimmed_back(s).len() > 0 {
            assert(trimmed_back(s)[0] == s[0]);
        }
    }
    let once = trimmed_back(s);
    let there = lemma_trimmed_back(trimmed_front(s));
    assert(trimmed_back(trimmed(s)) == trimmed(s));
    assert(trimmed(once) == trimmed_back(trimmed_front(once)));
}

// Splitting

/// The pieces between the occurrences of `sep`; one piece more than there are occurrences.
pub open spec fn pieces(s: Seq<char>, sep: char) -> Seq<Seq<char>>
    decreases s.len(),
{
    if s.len() == 0 {
        seq![Seq::empty()]
    } else {
        let before = pieces(s.drop_last(), sep);
        if s.last() == sep {
            before.push(Seq::empty())
        } else {
            before.drop_last().push(before.last().push(s.last()))
        }
    }
}

/// The given pieces with `sep` between them.
pub open spec fn joined(parts: Seq<Seq<char>>, sep: char) -> Seq<char>
    decreases parts.len(),
{
    if parts.len() == 0 {
        Seq::empty()
    } else if parts.len() == 1 {
        parts[0]
    } else {
        joined(parts.drop_last(), sep).push(sep) + parts.last()
    }
}

/// What each string of a list holds.
pub open spec fn views(list: Seq<String>) -> Seq<Seq<char>> {
    list.map_values(|s: String| s@)
}

/// The pieces of `s` between the occurrences of `sep`.
pub fn split(s: &str, sep: char) -> (r: Vec<String>)
    ensures
        views(r@) == pieces(s@, sep),
{
    let chars = toChars(s);
    let mut parts: Vec<String> = Vec::new();
    let mut start: usize = 0;
    let mut i: usize = 0;
    assert(s@.subrange(0, 0) == Seq::<char>::empty());
    assert(views(parts@).push(s@.subrange(0, 0)) == pieces(s@.take(0), sep));
    while i < chars.len()
        invariant
            start <= i <= chars@.len(),
            chars@ == s@,
            views(parts@).push(s@.subrange(start as int, i as int)) == pieces(
                s@.take(i as int),
                sep,
            ),
        decreases chars@.len() - i,
    {
        let ghost before = views(parts@);
        let ghost last = s@.subrange(start as int, i as int);
        assert(s@.take(i as int + 1).drop_last() == s@.take(i as int));
        assert(before.push(last).drop_last() == before);
        if chars[i] == sep {
            let part = fromChars(&chars, start, i);
            parts.push(part);
            start = i + 1;
            assert(views(parts@) == before.push(last));
            assert(s@.subrange(start as int, i as int + 1) == Seq::<char>::empty());
        } else {
            assert(s@.subrange(start as int, i as int + 1) == last.push(s@[i as int]));
        }
        i += 1;
    }
    assert(s@.take(s@.len() as int) == s@);
    let ghost before = views(parts@);
    let part = fromChars(&chars, start, i);
    parts.push(part);
    assert(views(parts@) == before.push(part@));
    parts
}

/// Splitting loses nothing but the separators: between the pieces again, they give the string
/// back; and no piece holds one.
pub proof fn lemma_pieces(s: Seq<char>, sep: char)
    ensures
        pieces(s, sep).len() >= 1,
        joined(pieces(s, sep), sep) == s,
        forall|i: int|
            0 <= i < pieces(s, sep).len() ==> !(#[trigger] pieces(s, sep)[i]).contains(sep),
    decreases s.len(),
{
    if s.len() > 0 {
        let init = s.drop_last();
        let before = pieces(init, sep);
        lemma_pieces(init, sep);
        let now = pieces(s, sep);
        if s.last() == sep {
            assert(now.drop_last() == before);
            assert(joined(now, sep) == init.push(sep) + Seq::<char>::empty());
            assert(init.push(sep) + Seq::<char>::empty() == s);
        } else {
            let old_last = before.last();
            let new_last = old_last.push(s.last());
            assert(now.last() == new_last);
            assert forall|i: int| 0 <= i < now.len() implies !(#[trigger] now[i]).contains(sep) by {
                if i < before.len() - 1 {
                    assert(now[i] == before[i]);
                } else {
                    assert(before[before.len() - 1] == old_last);
                    if new_last.contains(sep) {
                        let k = new_last.index_of(sep);
                        assert(new_last[k] == sep);
                        assert(k < old_last.len());
                        assert(old_last[k] == sep);
                        assert(false);
                    }
                }
            }
            if before.len() == 1 {
                assert(joined(now, sep) == new_last);
                assert(new_last == s);
            } else {
                assert(now.drop_last() == before.drop_last());
                assert(joined(now, sep) == joined(before.drop_last(), sep).push(sep) + new_last);
                assert(joined(before.drop_last(), sep).push(sep) + new_last == (joined(
                    before.drop_last(),
                    sep,
                ).push(sep) + old_last).push(s.last()));
                assert(init.push(s.last()) == s);
            }
        }
    }
}

// Lists of named values

/// What each pair of a list holds.
pub open spec fn pair_views(list: Seq<(String, String)>) -> Seq<(Seq<char>, Seq<char>)> {
    list.map_values(|p: (String, String)| (p.0@, p.1@))
}

/// Puts a named value at the end of a list.
pub fn pushPair(list: &mut Vec<(String, String)>, name: &str, value: &str)
    ensures
        pair_views(final(list)@) == pair_views(old(list)@).push((name@, value@)),
{
    let ghost before = pair_views(list@);
    list.push((name.to_owned(), value.to_owned()));
    assert(pair_views(list@) == before.push((name@, value@)));
}

/// The word for a truth value.
pub open spec fn bool_text(b: bool) -> Seq<char> {
    if b {
        "true"@
    } else {
        "false"@
    }
}

/// The word for a truth value.
pub fn boolText(b: bool) -> (r: String)
    ensures
        r@ == bool_text(b),
{
    if b {
        "true".to_owned()
    } else {
        "false".to_owned()
    }
}

/// The words for the two truth values are different, and those that are meant.
pub proof fn law_bool_texts()
    ensures
        bool_text(true) == seq!['t', 'r', 'u', 'e'],
        bool_text(false) == seq!['f', 'a', 'l', 's', 'e'],
        bool_text(true) != bool_text(false),
{
    reveal_strlit("true");
    reveal_strlit("false");
    assert(bool_text(true) == seq!['t', 'r', 'u', 'e']);
    assert(bool_text(false) == seq!['f', 'a', 'l', 's', 'e']);
    assert(bool_text(true).len() != bool_text(false).len());
}

/// Turning characters into others keeps the length and all the rest, and leaves none of those that
/// were to be turned.
pub proof fn law_replaced(s: Seq<char>, from: char, to: char, i: int)
    requires
        0 <= i < s.len(),
    ensures
        replaced(s, from, to).len() == s.len(),
        s[i] == from ==> replaced(s, from, to)[i] == to,
        s[i] != from ==> replaced(s, from, to)[i] == s[i],
{
}

/// A text without the separator is one piece, and two texts with the separator between them have the
/// pieces of the first and then those of the second.
pub proof fn law_pieces(a: Seq<char>, b: Seq<char>, sep: char)
    ensures
        !a.contains(sep) ==> pieces(a, sep) == seq![a],
        pieces(a + seq![sep] + b, sep) == pieces(a, sep) + pieces(b, sep),
{
    if !a.contains(sep) {
        lemma_one_piece(a, sep);
    }
    lemma_pieces_parted(a, b, sep);
}

proof fn lemma_one_piece(a: Seq<char>, sep: char)
    requires
        !a.contains(sep),
    ensures
        pieces(a, sep) == seq![a],
    decreases a.len(),
{
    if a.len() > 0 {
        let init = a.drop_last();
        assert forall|i: int| 0 <= i < init.len() implies init[i] != sep by {
            assert(a[i] != sep);
        }
        lemma_one_piece(init, sep);
        assert(a[a.len() - 1] != sep);
        assert(init.push(a.last()) == a);
        assert(pieces(a, sep) == seq![a]);
    } else {
        assert(a == Seq::<char>::empty());
    }
}

proof fn lemma_pieces_parted(a: Seq<char>, b: Seq<char>, sep: char)
    ensures
        pieces(a + seq![sep] + b, sep) == pieces(a, sep) + pieces(b, sep),
    decreases b.len(),
{
    let all = a + seq![sep] + b;
    lemma_pieces(b, sep);
    if b.len() > 0 {
        let init = b.drop_last();
        lemma_pieces_parted(a, init, sep);
        lemma_pieces(init, sep);
        assert(all.drop_last() == a + seq![sep] + init);
        assert(all.last() == b.last());
        let before = pieces(a, sep) + pieces(init, sep);
        assert(before.last() == pieces(init, sep).last());
        assert(before.drop_last() == pieces(a, sep) + pieces(init, sep).drop_last());
        assert(pieces(all, sep) == pieces(a, sep) + pieces(b, sep));
    } else {
        assert(all == a.push(sep));
        assert(all.drop_last() == a);
        assert(pieces(all, sep) == pieces(a, sep).push(Seq::empty()));
        assert(pieces(all, sep) == pieces(a, sep) + pieces(b, sep));
    }
}

/// Among the characters of ASCII, whitespace are the space and what moves on without printing: tab,
/// line feed, vertical tab, form feed and carriage return. Beyond ASCII there are a few more.
pub proof fn law_spaces(c: char)
    ensures
        (c as u32) < 0x80 ==> (is_space(c) <==> c == ' ' || c == '\t' || c == '\n' || c as u32
            == 11 || c as u32 == 12 || c == '\r'),
        0x80 <= (c as u32) < 0x2000 ==> (is_space(c) <==> c as u32 == 0x85 || c as u32 == 0xa0
            || c as u32 == 0x1680),
        0x2000 <= (c as u32) < 0x2010 ==> (is_space(c) <==> (c as u32) < 0x200b),
        0x2010 <= (c as u32) ==> (is_space(c) <==> c as u32 == 0x2028 || c as u32 == 0x2029
            || c as u32 == 0x202f || c as u32 == 0x205f || c as u32 == 0x3000),
{
}

/// Pieces without the separator in them, put together with it between them, are found again.
pub proof fn law_joined(parts: Seq<Seq<char>>, sep: char)
    requires
        parts.len() > 0,
        forall|i: int| 0 <= i < parts.len() ==> !(#[trigger] parts[i]).contains(sep),
    ensures
        pieces(joined(parts, sep), sep) == parts,
    decreases parts.len(),
{
    let last = parts[parts.len() - 1];
    assert(!last.contains(sep));
    law_pieces(last, Seq::empty(), sep);
    if parts.len() > 1 {
        let front = parts.drop_last();
        assert forall|i: int| 0 <= i < front.len() implies !(#[trigger] front[i]).contains(sep) by {
            assert(front[i] == parts[i]);
        }
        law_joined(front, sep);
        law_pieces(joined(front, sep), last, sep);
        assert(joined(parts, sep) == joined(front, sep) + seq![sep] + last);
        assert(front + seq![last] == parts);
    } else {
        assert(parts == seq![last]);
    }
}

} // verus!

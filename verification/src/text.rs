//! Character-level helpers on which the string logic of the crate rests.

use vstd::prelude::*;

verus! {

/// Unicode `White_Space` characters, the set that `str::trim` removes.
pub open spec fn is_unicode_whitespace(c: char) -> bool {
    ||| c == '\t' || c == '\n' || c == '\u{0B}' || c == '\u{0C}' || c == '\r' || c == ' '
    ||| c == '\u{85}' || c == '\u{A0}' || c == '\u{1680}'
    ||| ('\u{2000}' <= c && c <= '\u{200A}')
    ||| c == '\u{2028}' || c == '\u{2029}' || c == '\u{202F}' || c == '\u{205F}' || c == '\u{3000}'
}

/// Executable membership test for `is_unicode_whitespace`.
pub fn is_whitespace_char(c: char) -> (b: bool)
    ensures
        b == is_unicode_whitespace(c),
{
    c == '\t' || c == '\n' || c == '\u{0B}' || c == '\u{0C}' || c == '\r' || c == ' ' || c
        == '\u{85}' || c == '\u{A0}' || c == '\u{1680}' || ('\u{2000}' <= c && c <= '\u{200A}')
        || c == '\u{2028}' || c == '\u{2029}' || c == '\u{202F}' || c == '\u{205F}' || c
        == '\u{3000}'
}

/// Calls `String::push`; claims, as std documents, that the character is appended.
#[verifier::external_body]
pub(crate) fn push_char(s: &mut String, c: char)
    ensures
        final(s)@ == old(s)@.push(c),
{
    s.push(c);
}

/// The characters of a string slice, in order.
pub fn chars_of(s: &str) -> (v: Vec<char>)
    ensures
        v@ == s@,
{
    let mut v: Vec<char> = Vec::new();
    for c in it: s.chars()
        invariant
            v@ == it.seq().take(it.index() as int),
            it.seq() == s@,
    {
        v.push(c);
        assert(v@ == it.seq().take(it.index() + 1));
    }
    v
}

/// A string built from the given characters.
pub fn string_of(v: &Vec<char>) -> (s: String)
    ensures
        s@ == v@,
{
    let mut s = String::new();
    for i in 0..v.len()
        invariant
            s@ == v@.take(i as int),
    {
        push_char(&mut s, v[i]);
        assert(v@.take(i + 1) == v@.take(i as int).push(v@[i as int]));
    }
    assert(v@.take(v@.len() as int) == v@);
    s
}

/// A string built from the characters `v[from..to]`.
pub fn string_of_range(v: &Vec<char>, from: usize, to: usize) -> (s: String)
    requires
        from <= to <= v@.len(),
    ensures
        s@ == v@.subrange(from as int, to as int),
{
    let mut s = String::new();
    let mut i = from;
    while i < to
        invariant
            from <= i <= to <= v@.len(),
            s@ == v@.subrange(from as int, i as int),
        decreases to - i,
    {
        push_char(&mut s, v[i]);
        assert(v@.subrange(from as int, i + 1) == v@.subrange(from as int, i as int).push(
            v@[i as int],
        ));
        i = i + 1;
    }
    s
}

/// `s` with every leading Unicode whitespace character removed.
pub open spec fn trim_start_ws(s: Seq<char>) -> Seq<char>
    decreases s.len(),
{
    if s.len() > 0 && is_unicode_whitespace(s[0]) {
        trim_start_ws(s.drop_first())
    } else {
        s
    }
}

/// `s` with every trailing Unicode whitespace character removed.
pub open spec fn trim_end_ws(s: Seq<char>) -> Seq<char>
    decreases s.len(),
{
    if s.len() > 0 && is_unicode_whitespace(s.last()) {
        trim_end_ws(s.drop_last())
    } else {
        s
    }
}

/// What `str::trim` returns: both ends stripped of whitespace.
pub open spec fn trim_ws(s: Seq<char>) -> Seq<char> {
    trim_end_ws(trim_start_ws(s))
}

/// `s` with every trailing occurrence of `c` removed (`str::trim_end_matches`).
pub open spec fn trim_end_char(s: Seq<char>, c: char) -> Seq<char>
    decreases s.len(),
{
    if s.len() > 0 && s.last() == c {
        trim_end_char(s.drop_last(), c)
    } else {
        s
    }
}

/// `s` with every leading occurrence of `c` removed (`str::trim_start_matches`).
pub open spec fn trim_start_char(s: Seq<char>, c: char) -> Seq<char>
    decreases s.len(),
{
    if s.len() > 0 && s[0] == c {
        trim_start_char(s.drop_first(), c)
    } else {
        s
    }
}

/// Whether `p` is a prefix of `s`.
pub open spec fn has_prefix(s: Seq<char>, p: Seq<char>) -> bool {
    p.len() <= s.len() && s.take(p.len() as int) == p
}

/// Whether `c` occurs in `s`.
pub open spec fn has_char(s: Seq<char>, c: char) -> bool {
    exists|i: int| 0 <= i < s.len() && s[i] == c
}

/// The part of `s` before the first occurrence of `c`, or all of `s`.
pub open spec fn before_char(s: Seq<char>, c: char) -> Seq<char>
    decreases s.len(),
{
    if s.len() == 0 {
        s
    } else if s[0] == c {
        Seq::empty()
    } else {
        seq![s[0]] + before_char(s.drop_first(), c)
    }
}

/// The pieces of `s` between occurrences of `c`, the current piece being `cur`.
pub open spec fn split_from(s: Seq<char>, c: char, cur: Seq<char>) -> Seq<Seq<char>>
    decreases s.len(),
{
    if s.len() == 0 {
        seq![cur]
    } else if s[0] == c {
        seq![cur] + split_from(s.drop_first(), c, Seq::empty())
    } else {
        split_from(s.drop_first(), c, cur.push(s[0]))
    }
}

/// The pieces of `s` between occurrences of `c` (`str::split` with a char).
pub open spec fn split_char(s: Seq<char>, c: char) -> Seq<Seq<char>> {
    split_from(s, c, Seq::empty())
}

/// The pieces joined, with `sep` between each two.
pub open spec fn join_with(parts: Seq<Seq<char>>, sep: char) -> Seq<char>
    decreases parts.len(),
{
    if parts.len() == 0 {
        Seq::empty()
    } else if parts.len() == 1 {
        parts[0]
    } else {
        join_with(parts.drop_last(), sep).push(sep) + parts.last()
    }
}

/// The views of a vector of strings.
pub open spec fn views(v: Seq<String>) -> Seq<Seq<char>> {
    v.map_values(|x: String| x@)
}

/// Trailing whitespace removal on a character vector, as an index.
fn trimmed_range(v: &Vec<char>) -> (r: (usize, usize))
    ensures
        r.0 <= r.1 <= v@.len(),
        v@.subrange(r.0 as int, r.1 as int) == trim_ws(v@),
{
    let mut a: usize = 0;
    assert(v@.skip(0) == v@);
    while a < v.len() && is_whitespace_char(v[a])
        invariant
            a <= v@.len(),
            trim_start_ws(v@.skip(a as int)) == trim_start_ws(v@),
        decreases v.len() - a,
    {
        assert(v@.skip(a as int).drop_first() == v@.skip(a + 1));
        a = a + 1;
    }
    assert(trim_start_ws(v@.skip(a as int)) == v@.skip(a as int));
    let mut b: usize = v.len();
    while b > a && is_whitespace_char(v[b - 1])
        invariant
            a <= b <= v@.len(),
            trim_end_ws(v@.subrange(a as int, b as int)) == trim_ws(v@),
        decreases b,
    {
        assert(v@.subrange(a as int, b as int).drop_last() == v@.subrange(a as int, b - 1));
        b = b - 1;
    }
    (a, b)
}

/// `str::trim`: the string without leading and trailing whitespace.
pub fn trim(s: &str) -> (r: String)
    ensures
        r@ == trim_ws(s@),
{
    let v = chars_of(s);
    let (a, b) = trimmed_range(&v);
    string_of_range(&v, a, b)
}

/// `str::trim_end_matches` with a single character.
pub fn trim_end_matching(s: &str, c: char) -> (r: String)
    ensures
        r@ == trim_end_char(s@, c),
{
    let v = chars_of(s);
    let mut b: usize = v.len();
    assert(v@.take(v@.len() as int) == v@);
    while b > 0 && v[b - 1] == c
        invariant
            b <= v@.len(),
            trim_end_char(v@.take(b as int), c) == trim_end_char(v@, c),
        decreases b,
    {
        assert(v@.take(b as int).drop_last() == v@.take(b - 1));
        b = b - 1;
    }
    assert(v@.subrange(0, b as int) == v@.take(b as int));
    string_of_range(&v, 0, b)
}

/// `str::trim_start_matches` with a single character.
pub fn trim_start_matching(s: &str, c: char) -> (r: String)
    ensures
        r@ == trim_start_char(s@, c),
{
    let v = chars_of(s);
    let mut a: usize = 0;
    assert(v@.skip(0) == v@);
    while a < v.len() && v[a] == c
        invariant
            a <= v@.len(),
            trim_start_char(v@.skip(a as int), c) == trim_start_char(v@, c),
        decreases v.len() - a,
    {
        assert(v@.skip(a as int).drop_first() == v@.skip(a + 1));
        a = a + 1;
    }
    assert(v@.subrange(a as int, v@.len() as int) == v@.skip(a as int));
    string_of_range(&v, a, v.len())
}

/// `str::starts_with` with a string prefix.
pub fn starts_with(s: &str, p: &str) -> (b: bool)
    ensures
        b == has_prefix(s@, p@),
{
    let v = chars_of(s);
    let w = chars_of(p);
    if w.len() > v.len() {
        return false;
    }
    let mut i: usize = 0;
    while i < w.len()
        invariant
            v@ == s@,
            w@ == p@,
            w@.len() <= v@.len(),
            i <= w@.len(),
            forall|j: int| 0 <= j < i ==> v@[j] == w@[j],
        decreases w.len() - i,
    {
        if v[i] != w[i] {
            assert(v@.take(w@.len() as int)[i as int] != w@[i as int]);
            assert(v@.take(w@.len() as int) != w@);
            return false;
        }
        i = i + 1;
    }
    assert(v@.take(w@.len() as int) =~= w@);
    true
}

/// The part of `s` before the first `c` (all of `s` when `c` does not occur).
pub fn prefix_before(s: &str, c: char) -> (r: String)
    ensures
        r@ == before_char(s@, c),
{
    let v = chars_of(s);
    let mut i: usize = 0;
    assert(v@.skip(0) == v@);
    assert(v@.take(0) + before_char(v@, c) == before_char(v@, c));
    while i < v.len() && v[i] != c
        invariant
            i <= v@.len(),
            forall|j: int| 0 <= j < i ==> v@[j] != c,
            before_char(v@, c) == v@.take(i as int) + before_char(v@.skip(i as int), c),
        decreases v.len() - i,
    {
        assert(v@.skip(i as int).drop_first() == v@.skip(i + 1));
        assert(v@.take(i + 1) == v@.take(i as int) + seq![v@[i as int]]);
        i = i + 1;
    }
    assert(before_char(v@.skip(i as int), c) == Seq::<char>::empty());
    assert(v@.subrange(0, i as int) == v@.take(i as int));
    string_of_range(&v, 0, i)
}

/// `str::split` on a character, collected.
pub fn split_on(s: &str, c: char) -> (parts: Vec<String>)
    ensures
        views(parts@) == split_char(s@, c),
{
    let v = chars_of(s);
    let mut parts: Vec<String> = Vec::new();
    let mut cur = String::new();
    assert(v@.skip(0) == v@);
    assert(views(parts@) + split_from(v@, c, cur@) == split_from(v@, c, cur@));
    for i in 0..v.len()
        invariant
            v@ == s@,
            views(parts@) + split_from(v@.skip(i as int), c, cur@) == split_char(s@, c),
    {
        assert(v@.skip(i as int).drop_first() == v@.skip(i + 1));
        if v[i] == c {
            let ghost old_parts = views(parts@);
            let ghost old_cur = cur@;
            let done = cur;
            cur = String::new();
            parts.push(done);
            assert(views(parts@) == old_parts.push(old_cur));
        } else {
            push_char(&mut cur, v[i]);
        }
    }
    assert(v@.skip(v@.len() as int) == Seq::<char>::empty());
    let ghost old_parts = views(parts@);
    let ghost last = cur@;
    parts.push(cur);
    assert(views(parts@) == old_parts.push(last));
    parts
}

/// The pieces joined with `sep` between each two (`[String]::join`).
pub fn join_on(parts: &Vec<String>, sep: char) -> (s: String)
    ensures
        s@ == join_with(views(parts@), sep),
{
    let mut s = String::new();
    for i in 0..parts.len()
        invariant
            s@ == join_with(views(parts@).take(i as int), sep),
    {
        if i > 0 {
            push_char(&mut s, sep);
        }
        s.append(parts[i].as_str());
        assert(views(parts@).take(i + 1).drop_last() == views(parts@).take(i as int));
    }
    assert(views(parts@).take(parts@.len() as int) == views(parts@));
    s
}

/// Whether two string slices hold the same characters.
pub fn same_text(a: &str, b: &str) -> (r: bool)
    ensures
        r == (a@ == b@),
{
    let v = chars_of(a);
    let w = chars_of(b);
    if v.len() != w.len() {
        return false;
    }
    let mut i: usize = 0;
    while i < v.len()
        invariant
            v@ == a@,
            w@ == b@,
            v@.len() == w@.len(),
            i <= v@.len(),
            forall|j: int| 0 <= j < i ==> v@[j] == w@[j],
        decreases v.len() - i,
    {
        if v[i] != w[i] {
            return false;
        }
        i = i + 1;
    }
    assert(v@ =~= w@);
    true
}

/// Splitting a text without separator yields the current piece extended by it.
pub proof fn lemma_split_without_separator(s: Seq<char>, c: char, cur: Seq<char>)
    requires
        !has_char(s, c),
    ensures
        split_from(s, c, cur) == seq![cur + s],
    decreases s.len(),
{
    if s.len() > 0 {
        assert(!has_char(s.drop_first(), c)) by {
            if has_char(s.drop_first(), c) {
                let i = choose|i: int| 0 <= i < s.drop_first().len() && s.drop_first()[i] == c;
                assert(s[i + 1] == c);
            }
        }
        assert(s[0] != c);
        lemma_split_without_separator(s.drop_first(), c, cur.push(s[0]));
        assert(cur.push(s[0]) + s.drop_first() =~= cur + s);
    } else {
        assert(cur + s =~= cur);
    }
}

/// Splitting never yields an empty list of pieces.
pub proof fn lemma_split_nonempty(s: Seq<char>, c: char, cur: Seq<char>)
    ensures
        split_from(s, c, cur).len() >= 1,
    decreases s.len(),
{
    if s.len() > 0 {
        if s[0] == c {
            lemma_split_nonempty(s.drop_first(), c, Seq::empty());
        } else {
            lemma_split_nonempty(s.drop_first(), c, cur.push(s[0]));
        }
    }
}

/// A separator followed by a separator-free tail adds that tail as the last piece.
pub proof fn lemma_split_append_piece(x: Seq<char>, c: char, y: Seq<char>, cur: Seq<char>)
    requires
        !has_char(y, c),
    ensures
        split_from(x.push(c) + y, c, cur) == split_from(x, c, cur).push(y),
    decreases x.len(),
{
    if x.len() == 0 {
        assert(x.push(c) + y =~= seq![c] + y);
        assert((seq![c] + y).drop_first() =~= y);
        lemma_split_without_separator(y, c, Seq::empty());
        assert(Seq::<char>::empty() + y =~= y);
        assert(seq![cur] + seq![y] =~= seq![cur].push(y));
    } else {
        assert((x.push(c) + y).drop_first() =~= x.drop_first().push(c) + y);
        assert((x.push(c) + y)[0] == x[0]);
        if x[0] == c {
            lemma_split_append_piece(x.drop_first(), c, y, Seq::empty());
            assert(seq![cur] + split_from(x.drop_first(), c, Seq::empty()).push(y) =~= (seq![cur]
                + split_from(x.drop_first(), c, Seq::empty())).push(y));
        } else {
            lemma_split_append_piece(x.drop_first(), c, y, cur.push(x[0]));
        }
    }
}

/// Splitting what was joined gives back the pieces, when no piece holds the separator.
pub proof fn lemma_split_join(parts: Seq<Seq<char>>, c: char)
    requires
        parts.len() >= 1,
        forall|i: int| 0 <= i < parts.len() ==> !has_char(#[trigger] parts[i], c),
    ensures
        split_char(join_with(parts, c), c) == parts,
    decreases parts.len(),
{
    if parts.len() == 1 {
        lemma_split_without_separator(parts[0], c, Seq::empty());
        assert(Seq::<char>::empty() + parts[0] =~= parts[0]);
        assert(seq![parts[0]] =~= parts);
    } else {
        let d = parts.drop_last();
        assert forall|i: int| 0 <= i < d.len() implies !has_char(#[trigger] d[i], c) by {
            assert(d[i] == parts[i]);
        }
        lemma_split_join(d, c);
        assert(!has_char(parts.last(), c));
        lemma_split_append_piece(join_with(d, c), c, parts.last(), Seq::empty());
        assert(d.push(parts.last()) =~= parts);
    }
}

} // verus!

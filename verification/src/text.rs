//! Text as a sequence of characters: white space, trimming, and cutting
//! into lines.

use vstd::prelude::*;

verus! {

/// Whether `c` is white space: a character with the Unicode property
/// `White_Space`.
pub open spec fn is_whitespace_spec(c: char) -> bool {
    let u = c as u32;
    ||| 0x09 <= u <= 0x0d
    ||| u == 0x20
    ||| u == 0x85
    ||| u == 0xa0
    ||| u == 0x1680
    ||| 0x2000 <= u <= 0x200a
    ||| u == 0x2028
    ||| u == 0x2029
    ||| u == 0x202f
    ||| u == 0x205f
    ||| u == 0x3000
}

/// The index of the first `c` in `s`, or the length of `s` if there is
/// none.
pub open spec fn index_of_spec(s: Seq<char>, c: char) -> int
    decreases s.len(),
{
    if s.len() == 0 || s[0] == c {
        0
    } else {
        1 + index_of_spec(s.drop_first(), c)
    }
}

/// `s` without the white space it starts with.
pub open spec fn trim_start_spec(s: Seq<char>) -> Seq<char>
    decreases s.len(),
{
    if s.len() > 0 && is_whitespace_spec(s[0]) {
        trim_start_spec(s.drop_first())
    } else {
        s
    }
}

/// `s` without the white space it ends with.
pub open spec fn trim_end_spec(s: Seq<char>) -> Seq<char>
    decreases s.len(),
{
    if s.len() > 0 && is_whitespace_spec(s.last()) {
        trim_end_spec(s.drop_last())
    } else {
        s
    }
}

/// `s` without the white space around it.
pub open spec fn trim_spec(s: Seq<char>) -> Seq<char> {
    trim_end_spec(trim_start_spec(s))
}

/// The lines of `s`: the pieces between its line feeds, in order. A text
/// with `n` line feeds has `n + 1` lines, some of them perhaps empty.
pub open spec fn split_lines_spec(s: Seq<char>) -> Seq<Seq<char>>
    decreases s.len(),
    via split_lines_decreases
{
    let end = index_of_spec(s, '\n');
    if end >= s.len() {
        seq![s]
    } else {
        seq![s.take(end)] + split_lines_spec(s.skip(end + 1))
    }
}

#[via_fn]
proof fn split_lines_decreases(s: Seq<char>) {
    lemma_index_of_bounds(s, '\n');
}

/// The first index of a character lies within the text or at its end.
pub proof fn lemma_index_of_bounds(s: Seq<char>, c: char)
    ensures
        0 <= index_of_spec(s, c) <= s.len(),
    decreases s.len(),
{
    if s.len() > 0 && s[0] != c {
        lemma_index_of_bounds(s.drop_first(), c);
    }
}

/// The views of a list of texts.
pub open spec fn texts_view(texts: Seq<Vec<char>>) -> Seq<Seq<char>> {
    texts.map_values(|t: Vec<char>| t@)
}

/// An index is the first of `c` in `s` exactly when `c` stands there, or
/// the text ends there, and nowhere before.
pub proof fn lemma_index_of(s: Seq<char>, c: char, i: int)
    requires
        0 <= i <= s.len(),
        forall|j: int| 0 <= j < i ==> s[j] != c,
        i < s.len() ==> s[i] == c,
    ensures
        index_of_spec(s, c) == i,
    decreases i,
{
    if i > 0 {
        let rest = s.drop_first();
        assert forall|j: int| 0 <= j < i - 1 implies rest[j] != c by {
            assert(rest[j] == s[j + 1]);
        }
        lemma_index_of(rest, c, i - 1);
    }
}

/// Trimming the start of `s` drops exactly its first `i` characters when
/// those are white space and the next one, if any, is not.
pub proof fn lemma_trim_start(s: Seq<char>, i: int)
    requires
        0 <= i <= s.len(),
        forall|j: int| 0 <= j < i ==> is_whitespace_spec(s[j]),
        i < s.len() ==> !is_whitespace_spec(s[i]),
    ensures
        trim_start_spec(s) == s.skip(i),
    decreases i,
{
    if i > 0 {
        let rest = s.drop_first();
        assert forall|j: int| 0 <= j < i - 1 implies is_whitespace_spec(rest[j]) by {
            assert(rest[j] == s[j + 1]);
        }
        lemma_trim_start(rest, i - 1);
        assert(rest.skip(i - 1) =~= s.skip(i));
    } else {
        assert(s.skip(0) =~= s);
    }
}

/// Trimming the end of `s` keeps exactly its first `i` characters when all
/// behind them are white space and the one before, if any, is not.
pub proof fn lemma_trim_end(s: Seq<char>, i: int)
    requires
        0 <= i <= s.len(),
        forall|j: int| i <= j < s.len() ==> is_whitespace_spec(s[j]),
        i > 0 ==> !is_whitespace_spec(s[i - 1]),
    ensures
        trim_end_spec(s) == s.take(i),
    decreases s.len() - i,
{
    if i < s.len() {
        let rest = s.drop_last();
        lemma_trim_end(rest, i);
        assert(rest.take(i) =~= s.take(i));
    } else {
        assert(s.take(i) =~= s);
    }
}

/// Tells whether `c` is white space.
pub fn is_whitespace(c: char) -> (ws: bool)
    ensures
        ws == is_whitespace_spec(c),
{
    let u: u32 = c as u32;
    (0x09 <= u && u <= 0x0d) || u == 0x20 || u == 0x85 || u == 0xa0 || u == 0x1680 || (0x2000
        <= u && u <= 0x200a) || u == 0x2028 || u == 0x2029 || u == 0x202f || u == 0x205f || u
        == 0x3000
}

/// A copy of the characters of `s` from `from` up to `to`.
pub fn copy_range(s: &Vec<char>, from: usize, to: usize) -> (piece: Vec<char>)
    requires
        from <= to <= s.len(),
    ensures
        piece@ == s@.subrange(from as int, to as int),
{
    let mut piece: Vec<char> = Vec::new();
    let mut i: usize = from;
    while i < to
        invariant
            from <= i <= to <= s.len(),
            piece@ == s@.subrange(from as int, i as int),
        decreases to - i,
    {
        piece.push(s[i]);
        assert(piece@ =~= s@.subrange(from as int, i + 1));
        i += 1;
    }
    piece
}

/// The characters of `s` from `from` up to `to`, without the white space
/// around them.
pub fn trim_range(s: &Vec<char>, from: usize, to: usize) -> (piece: Vec<char>)
    requires
        from <= to <= s.len(),
    ensures
        piece@ == trim_spec(s@.subrange(from as int, to as int)),
{
    let ghost whole = s@.subrange(from as int, to as int);
    let mut a: usize = from;
    while a < to && is_whitespace(s[a])
        invariant
            from <= a <= to <= s.len(),
            forall|j: int| from <= j < a ==> is_whitespace_spec(s@[j]),
        decreases to - a,
    {
        a += 1;
    }
    let mut b: usize = to;
    while b > a && is_whitespace(s[b - 1])
        invariant
            a <= b <= to <= s.len(),
            forall|j: int| b <= j < to ==> is_whitespace_spec(s@[j]),
        decreases b,
    {
        b -= 1;
    }
    proof {
        lemma_trim_start(whole, a - from);
        let tail = whole.skip(a - from);
        assert(b > a ==> tail[b - a - 1] == s@[b - 1]);
        lemma_trim_end(tail, b - a);
        assert(tail.take(b - a) =~= s@.subrange(a as int, b as int));
    }
    copy_range(s, a, b)
}

/// `s` without the white space around it.
pub fn trim(s: &Vec<char>) -> (piece: Vec<char>)
    ensures
        piece@ == trim_spec(s@),
{
    assert(s@.subrange(0, s@.len() as int) =~= s@);
    trim_range(s, 0, s.len())
}

/// Cuts a text into its lines at the line feeds.
pub fn split_lines(s: &Vec<char>) -> (lines: Vec<Vec<char>>)
    ensures
        texts_view(lines@) == split_lines_spec(s@),
{
    let mut lines: Vec<Vec<char>> = Vec::new();
    let mut start: usize = 0;
    let mut pos: usize = 0;
    assert(s@.skip(0) =~= s@);
    assert(texts_view(lines@) =~= Seq::<Seq<char>>::empty());
    while pos < s.len()
        invariant
            start <= pos <= s.len(),
            forall|j: int| start <= j < pos ==> s@[j] != '\n',
            texts_view(lines@) + split_lines_spec(s@.skip(start as int)) == split_lines_spec(s@),
        decreases s.len() - pos,
    {
        if s[pos] == '\n' {
            let line = copy_range(s, start, pos);
            proof {
                let rest = s@.skip(start as int);
                lemma_index_of(rest, '\n', pos - start);
                assert(rest.take(pos - start) =~= line@);
                assert(rest.skip(pos - start + 1) =~= s@.skip(pos + 1));
                assert(texts_view(lines@.push(line)) =~= texts_view(lines@) + seq![line@]);
            }
            lines.push(line);
            start = pos + 1;
        }
        pos += 1;
    }
    let line = copy_range(s, start, pos);
    proof {
        let rest = s@.skip(start as int);
        lemma_index_of(rest, '\n', pos - start);
        assert(rest =~= line@);
        assert(texts_view(lines@.push(line)) =~= texts_view(lines@) + seq![line@]);
    }
    lines.push(line);
    lines
}

} // verus!

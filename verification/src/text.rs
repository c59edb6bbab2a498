//! The position index: resolving (line, column) positions to character
//! offsets by a single linear scan, and splicing text at resolved offsets.

use vstd::prelude::*;

use crate::ast::{Position, Span};
use crate::err::EditError;

verus! {

/// The offset of the first character whose position is `(tl, tc)`, scanning
/// from index `i` with the scan currently at position `(line, col)`. Each
/// newline advances the line and resets the column to 1; any other character
/// advances the column.
pub open spec fn offset_from(
    s: Seq<char>,
    i: int,
    line: int,
    col: int,
    tl: int,
    tc: int,
) -> Option<int>
    decreases s.len() - i,
{
    if i < 0 || i >= s.len() {
        None
    } else if line == tl && col == tc {
        Some(i)
    } else if s[i] == '\n' {
        offset_from(s, i + 1, line + 1, 1, tl, tc)
    } else {
        offset_from(s, i + 1, line, col + 1, tl, tc)
    }
}

/// The character offset of `pos` in `s`: the scan starts at offset 0,
/// position (1, 1).
pub open spec fn offset_of(s: Seq<char>, pos: Position) -> Option<int> {
    offset_from(s, 0, 1, 1, pos.line as int, pos.column as int)
}

/// The (line, column) position of the character at offset `i`, obtained by
/// counting the newlines that precede it.
pub open spec fn pos_at(s: Seq<char>, i: int) -> (int, int)
    decreases i,
{
    if i <= 0 {
        (1, 1)
    } else if s[i - 1] == '\n' {
        (pos_at(s, i - 1).0 + 1, 1)
    } else {
        (pos_at(s, i - 1).0, pos_at(s, i - 1).1 + 1)
    }
}

/// The scan that resolves a position reports an offset whose recomputed
/// (line, column) — obtained by counting the newlines that precede it — is
/// exactly the position that was asked for.
proof fn lemma_scan_hits_position(s: Seq<char>, i: int, tl: int, tc: int)
    requires
        0 <= i,
        offset_from(s, i, pos_at(s, i).0, pos_at(s, i).1, tl, tc) is Some,
    ensures
        ({
            let j = offset_from(s, i, pos_at(s, i).0, pos_at(s, i).1, tl, tc)->Some_0;
            &&& i <= j < s.len()
            &&& pos_at(s, j) == (tl, tc)
        }),
    decreases s.len() - i,
{
    let line = pos_at(s, i).0;
    let col = pos_at(s, i).1;
    if i >= s.len() {
        // offset_from is None here, contradicting the precondition.
    } else if line == tl && col == tc {
        // The scan stops at i itself.
    } else {
        assert(pos_at(s, i + 1) == if s[i] == '\n' {
            (line + 1, 1int)
        } else {
            (line, col + 1)
        });
        lemma_scan_hits_position(s, i + 1, tl, tc);
    }
}

/// Round trip: resolving a position to an offset and converting that offset
/// back to a (line, column) pair by counting newlines reproduces the
/// position, for every position that resolves inside the buffer.
pub proof fn lemma_position_offset_round_trip(s: Seq<char>, pos: Position)
    requires
        offset_of(s, pos) is Some,
    ensures
        ({
            let i = offset_of(s, pos)->Some_0;
            &&& 0 <= i < s.len()
            &&& pos_at(s, i) == (pos.line as int, pos.column as int)
        }),
{
    assert(pos_at(s, 0) == (1int, 1int));
    lemma_scan_hits_position(s, 0, pos.line as int, pos.column as int);
}

/// Converts a character offset back to its (line, column) position by a
/// single scan that counts newlines.
pub fn offset_to_position(input: &Vec<char>, offset: usize) -> (r: Position)
    requires
        offset <= input@.len() < usize::MAX,
    ensures
        r.line as int == pos_at(input@, offset as int).0,
        r.column as int == pos_at(input@, offset as int).1,
{
    let ghost s = input@;
    let mut i: usize = 0;
    let mut line: usize = 1;
    let mut column: usize = 1;
    while i < offset
        invariant
            i <= offset <= s.len() < usize::MAX,
            input@ == s,
            1 <= line <= i + 1,
            1 <= column <= i + 1,
            line as int == pos_at(s, i as int).0,
            column as int == pos_at(s, i as int).1,
        decreases offset - i,
    {
        if input[i] == '\n' {
            line = line + 1;
            column = 1;
        } else {
            column = column + 1;
        }
        i = i + 1;
    }
    Position { line, column }
}

/// Scans `input` from the start, tracking the current (line, column), and
/// returns the offset of the first character whose position equals
/// `position`; fails with `PositionNotFound` when the scan exhausts the
/// buffer without a match.
pub fn position_to_offset(input: &Vec<char>, position: Position) -> (r: Result<usize, EditError>)
    requires
        input@.len() < usize::MAX,
    ensures
        match r {
            Ok(i) => offset_of(input@, position) == Some(i as int),
            Err(e) => {
                &&& offset_of(input@, position) is None
                &&& e == (EditError::PositionNotFound {
                    line: position.line,
                    column: position.column,
                })
            },
        },
{
    let ghost s = input@;
    let mut idx: usize = 0;
    let mut line: usize = 1;
    let mut column: usize = 1;
    while idx < input.len()
        invariant
            idx <= s.len(),
            s.len() < usize::MAX,
            input@ == s,
            1 <= line <= idx + 1,
            1 <= column <= idx + 1,
            offset_of(s, position) == offset_from(
                s,
                idx as int,
                line as int,
                column as int,
                position.line as int,
                position.column as int,
            ),
        decreases s.len() - idx,
    {
        if line == position.line && column == position.column {
            return Ok(idx);
        }
        if input[idx] == '\n' {
            line = line + 1;
            column = 1;
        } else {
            column = column + 1;
        }
        idx = idx + 1;
    }
    Err(EditError::PositionNotFound { line: position.line, column: position.column })
}

/// Resolves both endpoints of `span`, failing if either fails.
pub fn span_to_start_end_offsets(input: &Vec<char>, span: Span) -> (r: Result<
    (usize, usize),
    EditError,
>)
    requires
        input@.len() < usize::MAX,
    ensures
        match r {
            Ok((start, end)) => {
                &&& offset_of(input@, span.start) == Some(start as int)
                &&& offset_of(input@, span.end) == Some(end as int)
            },
            Err(e) => {
                &&& offset_of(input@, span.start) is None || offset_of(input@, span.end) is None
                &&& match e {
                    EditError::PositionNotFound { .. } => true,
                    _ => false,
                }
            },
        },
{
    let start = position_to_offset(input, span.start)?;
    let end = position_to_offset(input, span.end)?;
    Ok((start, end))
}

/// The buffer with the region `[start, end)` replaced by `t`.
pub open spec fn splice(s: Seq<char>, start: int, end: int, t: Seq<char>) -> Seq<char> {
    s.take(start) + t + s.skip(end)
}

/// Copies a character vector.
pub fn copy_chars(v: &Vec<char>) -> (r: Vec<char>)
    ensures
        r@ == v@,
{
    let mut out: Vec<char> = Vec::new();
    let mut i: usize = 0;
    while i < v.len()
        invariant
            i <= v@.len(),
            out@ == v@.take(i as int),
        decreases v@.len() - i,
    {
        out.push(v[i]);
        i = i + 1;
    }
    assert(v@.take(v@.len() as int) == v@);
    out
}

/// Copies the characters of `v` in `[a, b)`.
pub fn subrange_chars(v: &Vec<char>, a: usize, b: usize) -> (r: Vec<char>)
    requires
        a <= b <= v@.len(),
    ensures
        r@ == v@.subrange(a as int, b as int),
{
    let mut out: Vec<char> = Vec::new();
    let mut i: usize = a;
    while i < b
        invariant
            a <= i <= b <= v@.len(),
            out@ == v@.subrange(a as int, i as int),
        decreases b - i,
    {
        out.push(v[i]);
        assert(out@ =~= v@.subrange(a as int, i + 1));
        i = i + 1;
    }
    out
}

/// Appends the characters of `src` to `dst`.
pub fn append_chars(dst: &mut Vec<char>, src: &Vec<char>)
    ensures
        final(dst)@ == old(dst)@ + src@,
{
    assert(dst@ =~= dst@ + src@.take(0));
    let mut i: usize = 0;
    while i < src.len()
        invariant
            i <= src@.len(),
            dst@ == old(dst)@ + src@.take(i as int),
        decreases src@.len() - i,
    {
        dst.push(src[i]);
        assert(dst@ =~= old(dst)@ + src@.take(i + 1));
        i = i + 1;
    }
    assert(dst@ =~= old(dst)@ + src@);
}

/// Character-vector equality, decided element by element.
pub fn chars_eq(a: &Vec<char>, b: &Vec<char>) -> (r: bool)
    ensures
        r == (a@ == b@),
{
    if a.len() != b.len() {
        return false;
    }
    let mut i: usize = 0;
    while i < a.len()
        invariant
            i <= a@.len(),
            a@.len() == b@.len(),
            forall|j: int| 0 <= j < i ==> a@[j] == b@[j],
        decreases a@.len() - i,
    {
        if a[i] != b[i] {
            return false;
        }
        i = i + 1;
    }
    assert(a@ =~= b@);
    true
}

/// `s` ends with `suf`.
pub open spec fn ends_with(s: Seq<char>, suf: Seq<char>) -> bool {
    s.len() >= suf.len() && s.subrange(s.len() - suf.len(), s.len() as int) == suf
}

/// Whether `v` ends with `suf`.
pub fn ends_with_chars(v: &Vec<char>, suf: &Vec<char>) -> (r: bool)
    ensures
        r == ends_with(v@, suf@),
{
    if suf.len() > v.len() {
        return false;
    }
    let base = v.len() - suf.len();
    let ghost tail = v@.subrange(v@.len() - suf@.len(), v@.len() as int);
    let mut m: usize = 0;
    while m < suf.len()
        invariant
            suf@.len() <= v@.len() <= usize::MAX,
            base == v@.len() - suf@.len(),
            m <= suf@.len(),
            tail == v@.subrange(v@.len() - suf@.len(), v@.len() as int),
            forall|q: int| 0 <= q < m ==> tail[q] == suf@[q],
        decreases suf@.len() - m,
    {
        proof {
            assert(tail[m as int] == v@[base + m]);
        }
        if v[base + m] != suf[m] {
            proof {
                assert(tail[m as int] != suf@[m as int]);
            }
            return false;
        }
        m = m + 1;
    }
    assert(tail =~= suf@);
    true
}

/// Splitting scan: the segments of `s` from index `j` on, with `cur` the
/// partial segment collected so far. Every separator ends a segment, and the
/// final partial segment always counts, so splitting an empty text yields one
/// empty segment.
pub open spec fn split_scan(s: Seq<char>, sep: char, j: int, cur: Seq<char>) -> Seq<Seq<char>>
    decreases s.len() - j,
{
    if j < 0 || j >= s.len() {
        seq![cur]
    } else if s[j] == sep {
        seq![cur] + split_scan(s, sep, j + 1, Seq::empty())
    } else {
        split_scan(s, sep, j + 1, cur.push(s[j]))
    }
}

/// The segments of `s` between occurrences of `sep`.
pub open spec fn split_char(s: Seq<char>, sep: char) -> Seq<Seq<char>> {
    split_scan(s, sep, 0, Seq::empty())
}

/// Splits `v` on `sep` into its segments.
pub fn split_chars(v: &Vec<char>, sep: char) -> (r: Vec<Vec<char>>)
    ensures
        r.deep_view() == split_char(v@, sep),
{
    let mut out: Vec<Vec<char>> = Vec::new();
    let mut cur: Vec<char> = Vec::new();
    proof {
        assert(out.deep_view() =~~= Seq::<Seq<char>>::empty());
        assert(Seq::<Seq<char>>::empty() + split_scan(v@, sep, 0, Seq::empty()) =~= split_scan(
            v@,
            sep,
            0,
            Seq::empty(),
        ));
    }
    let mut j: usize = 0;
    while j < v.len()
        invariant
            j <= v@.len(),
            split_char(v@, sep) == out.deep_view() + split_scan(v@, sep, j as int, cur@),
        decreases v@.len() - j,
    {
        let c = v[j];
        if c == sep {
            let ghost pre = out.deep_view();
            let ghost curv = cur@;
            out.push(cur);
            cur = Vec::new();
            proof {
                assert(out.deep_view() =~~= pre.push(curv));
                assert(pre.push(curv) + split_scan(v@, sep, j + 1, Seq::empty()) =~= pre + (seq![
                    curv,
                ] + split_scan(v@, sep, j + 1, Seq::empty())));
            }
        } else {
            cur.push(c);
        }
        j = j + 1;
    }
    let ghost pre = out.deep_view();
    let ghost curv = cur@;
    out.push(cur);
    proof {
        assert(out.deep_view() =~~= pre.push(curv));
        assert(pre.push(curv) =~= pre + seq![curv]);
    }
    out
}

/// A whitespace character, as trimming understands it.
pub open spec fn is_space(c: char) -> bool {
    c == ' ' || c == '\t' || c == '\n' || c == '\r'
}

/// `s` without its leading whitespace.
pub open spec fn drop_leading_ws(s: Seq<char>) -> Seq<char>
    decreases s.len(),
{
    if s.len() == 0 {
        s
    } else if is_space(s[0]) {
        drop_leading_ws(s.skip(1))
    } else {
        s
    }
}

/// `s` without its trailing whitespace.
pub open spec fn drop_trailing_ws(s: Seq<char>) -> Seq<char>
    decreases s.len(),
{
    if s.len() == 0 {
        s
    } else if is_space(s.last()) {
        drop_trailing_ws(s.drop_last())
    } else {
        s
    }
}

/// `s` without leading and trailing whitespace.
pub open spec fn trimmed(s: Seq<char>) -> Seq<char> {
    drop_trailing_ws(drop_leading_ws(s))
}

/// Whether `c` counts as whitespace for trimming.
pub fn is_space_char(c: char) -> (r: bool)
    ensures
        r == is_space(c),
{
    c == ' ' || c == '\t' || c == '\n' || c == '\r'
}

/// Copies `v` without its leading and trailing whitespace.
pub fn trim_chars(v: &Vec<char>) -> (r: Vec<char>)
    ensures
        r@ == trimmed(v@),
{
    proof {
        assert(v@.skip(0) =~= v@);
    }
    let mut a: usize = 0;
    while a < v.len() && is_space_char(v[a])
        invariant
            a <= v@.len(),
            drop_leading_ws(v@) == drop_leading_ws(v@.skip(a as int)),
        decreases v@.len() - a,
    {
        proof {
            assert(v@.skip(a as int)[0] == v@[a as int]);
            assert(v@.skip(a as int).skip(1) =~= v@.skip(a + 1));
        }
        a = a + 1;
    }
    let ghost s2 = drop_leading_ws(v@);
    proof {
        if a < v@.len() {
            assert(v@.skip(a as int)[0] == v@[a as int]);
        } else {
            assert(v@.skip(a as int) =~= Seq::<char>::empty());
        }
        assert(s2 == v@.skip(a as int));
        assert(v@.subrange(a as int, v@.len() as int) =~= v@.skip(a as int));
    }
    let mut b: usize = v.len();
    while b > a && is_space_char(v[b - 1])
        invariant
            a <= b <= v@.len(),
            s2 == v@.skip(a as int),
            drop_trailing_ws(s2) == drop_trailing_ws(v@.subrange(a as int, b as int)),
        decreases b,
    {
        proof {
            assert(v@.subrange(a as int, b as int).last() == v@[b - 1]);
            assert(v@.subrange(a as int, b as int).drop_last() =~= v@.subrange(a as int, b - 1));
        }
        b = b - 1;
    }
    proof {
        let t = v@.subrange(a as int, b as int);
        if b > a {
            assert(t.last() == v@[b - 1]);
        }
        assert(drop_trailing_ws(s2) == t);
    }
    subrange_chars(v, a, b)
}

/// `needle` occurs in `hay` starting at character offset `i`.
pub open spec fn matches_at(hay: Seq<char>, needle: Seq<char>, i: int) -> bool {
    &&& 0 <= i
    &&& i + needle.len() <= hay.len()
    &&& hay.subrange(i, i + needle.len()) == needle
}

/// Whether `needle` occurs anywhere in `hay` as a contiguous run.
pub fn contains_chars(hay: &Vec<char>, needle: &Vec<char>) -> (r: bool)
    ensures
        r == exists|i: int| matches_at(hay@, needle@, i),
{
    if needle.len() > hay.len() {
        assert(forall|i: int| !matches_at(hay@, needle@, i));
        return false;
    }
    if needle.len() == 0 {
        assert(matches_at(hay@, needle@, 0)) by {
            assert(hay@.subrange(0, 0) =~= needle@);
        }
        return true;
    }
    let limit = hay.len() - needle.len();
    let mut i: usize = 0;
    while i <= limit
        invariant
            1 <= needle@.len() <= hay@.len() <= usize::MAX,
            limit == hay@.len() - needle@.len(),
            i <= limit + 1,
            forall|k: int| 0 <= k < i ==> !matches_at(hay@, needle@, k),
        decreases limit + 1 - i,
    {
        let mut j: usize = 0;
        let mut hit = true;
        while j < needle.len()
            invariant
                1 <= needle@.len(),
                i + needle@.len() <= hay@.len() <= usize::MAX,
                j <= needle@.len(),
                hit ==> forall|m: int| 0 <= m < j ==> hay@[i + m] == needle@[m],
                !hit ==> !matches_at(hay@, needle@, i as int),
            decreases needle@.len() - j,
        {
            if hay[i + j] != needle[j] {
                proof {
                    if matches_at(hay@, needle@, i as int) {
                        assert(hay@.subrange(i as int, i + needle@.len())[j as int]
                            == needle@[j as int]);
                    }
                }
                hit = false;
                j = needle.len();
            } else {
                j = j + 1;
            }
        }
        if hit {
            assert(hay@.subrange(i as int, i + needle@.len()) =~= needle@);
            assert(matches_at(hay@, needle@, i as int));
            return true;
        }
        i = i + 1;
    }
    assert(forall|k: int| !matches_at(hay@, needle@, k));
    false
}

/// Replaces the characters of `buf` in `[start, end)` with `t`.
pub fn splice_chars(buf: &Vec<char>, start: usize, end: usize, t: &Vec<char>) -> (r: Vec<char>)
    requires
        start <= end <= buf@.len(),
    ensures
        r@ == splice(buf@, start as int, end as int, t@),
{
    let mut out: Vec<char> = Vec::new();
    let mut i: usize = 0;
    while i < start
        invariant
            i <= start <= buf@.len(),
            out@ == buf@.take(i as int),
        decreases start - i,
    {
        out.push(buf[i]);
        i = i + 1;
    }
    let mut j: usize = 0;
    while j < t.len()
        invariant
            j <= t@.len(),
            start <= buf@.len(),
            out@ == buf@.take(start as int) + t@.take(j as int),
        decreases t@.len() - j,
    {
        out.push(t[j]);
        j = j + 1;
    }
    let mut k: usize = end;
    while k < buf.len()
        invariant
            end <= k <= buf@.len(),
            out@ == buf@.take(start as int) + t@ + buf@.subrange(end as int, k as int),
        decreases buf@.len() - k,
    {
        out.push(buf[k]);
        k = k + 1;
    }
    assert(t@.take(t@.len() as int) == t@);
    assert(buf@.subrange(end as int, buf@.len() as int) == buf@.skip(end as int));
    out
}

} // verus!

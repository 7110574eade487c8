//! Text primitives shared by the scanner and the repository state machine.
//!
//! Every function here works on the sequence of characters that a string
//! holds, so contracts are stated over `Seq<char>`.

use vstd::prelude::*;

verus! {

/// `pat` stands in `s` at position `i`.
pub open spec fn occurs_at(s: Seq<char>, pat: Seq<char>, i: int) -> bool {
    0 <= i && i + pat.len() <= s.len() && s.subrange(i, i + pat.len()) == pat
}

/// `pat` stands somewhere in `s`.
pub open spec fn occurs(s: Seq<char>, pat: Seq<char>) -> bool {
    exists|i: int| occurs_at(s, pat, i)
}

/// The text of each string of a list.
pub open spec fn texts(lines: Seq<String>) -> Seq<Seq<char>> {
    Seq::new(lines.len(), |i: int| lines[i]@)
}

/// `s` ends with `suffix`.
pub open spec fn has_suffix(s: Seq<char>, suffix: Seq<char>) -> bool {
    suffix.len() <= s.len() && s.subrange(s.len() - suffix.len(), s.len() as int) == suffix
}

/// `s` starts with `prefix`.
pub open spec fn has_prefix(s: Seq<char>, prefix: Seq<char>) -> bool {
    prefix.len() <= s.len() && s.subrange(0, prefix.len() as int) == prefix
}

/// `s` with every occurrence of `from`, taken left to right without
/// overlap, replaced by `to`. An empty `from` occurs nowhere.
pub open spec fn replaced(s: Seq<char>, from: Seq<char>, to: Seq<char>) -> Seq<char>
    decreases s.len(),
{
    if from.len() == 0 || s.len() < from.len() {
        s
    } else if has_prefix(s, from) {
        to + replaced(s.subrange(from.len() as int, s.len() as int), from, to)
    } else {
        seq![s[0]] + replaced(s.subrange(1, s.len() as int), from, to)
    }
}

/// `s` without any trailing repetitions of `suffix`. An empty `suffix` is
/// never taken off.
pub open spec fn trimmed_end(s: Seq<char>, suffix: Seq<char>) -> Seq<char>
    decreases s.len(),
{
    if suffix.len() > 0 && has_suffix(s, suffix) {
        trimmed_end(s.subrange(0, s.len() - suffix.len()), suffix)
    } else {
        s
    }
}

/// Index just behind the last `c` in `s`, or 0 where `s` holds no `c`.
pub open spec fn segment_start(s: Seq<char>, c: char) -> int
    decreases s.len(),
{
    if s.len() == 0 {
        0
    } else if s.last() == c {
        s.len() as int
    } else {
        segment_start(s.drop_last(), c)
    }
}

/// What follows the last `c` in `s`; all of `s` where it holds no `c`.
pub open spec fn last_segment(s: Seq<char>, c: char) -> Seq<char> {
    s.subrange(segment_start(s, c), s.len() as int)
}

/// `segment_start` is the one index that follows a `c` (or is 0) and has no
/// `c` behind it.
pub proof fn lemma_segment_start(s: Seq<char>, c: char)
    ensures
        0 <= segment_start(s, c) <= s.len(),
        segment_start(s, c) == 0 || s[segment_start(s, c) - 1] == c,
        forall|j: int| segment_start(s, c) <= j < s.len() ==> s[j] != c,
    decreases s.len(),
{
    if s.len() > 0 && s.last() != c {
        lemma_segment_start(s.drop_last(), c);
        assert forall|j: int| segment_start(s, c) <= j < s.len() implies s[j] != c by {
            if j < s.len() - 1 {
                assert(s.drop_last()[j] == s[j]);
            }
        }
        if segment_start(s, c) != 0 {
            assert(s.drop_last()[segment_start(s, c) - 1] == s[segment_start(s, c) - 1]);
        }
    }
}

/// The characters of `s`, one element each.
pub fn chars_of(s: &str) -> (v: Vec<char>)
    ensures
        v@ == s@,
{
    let n: usize = s.unicode_len();
    let mut v: Vec<char> = Vec::new();
    let mut i: usize = 0;
    while i < n
        invariant
            n == s@.len(),
            i <= n,
            v@ == s@.subrange(0, i as int),
        decreases n - i,
    {
        let c = s.get_char(i);
        v.push(c);
        i = i + 1;
        assert(v@ =~= s@.subrange(0, i as int));
    }
    assert(s@.subrange(0, n as int) =~= s@);
    v
}

/// Whether `pat` stands in `s` at index `i`.
pub fn slice_matches_at(s: &[char], pat: &[char], i: usize) -> (b: bool)
    ensures
        b == occurs_at(s@, pat@, i as int),
{
    let n: usize = s.len();
    let m: usize = pat.len();
    if i > n || m > n - i {
        return false;
    }
    let mut j: usize = 0;
    while j < m
        invariant
            n == s@.len(),
            m == pat@.len(),
            i + m <= n,
            j <= m,
            forall|k: int| 0 <= k < j ==> s@[i + k] == pat@[k],
        decreases m - j,
    {
        if s[i + j] != pat[j] {
            proof {
                assert(s@.subrange(i as int, i + m)[j as int] == s@[i + j]);
            }
            return false;
        }
        j = j + 1;
    }
    assert(s@.subrange(i as int, i + m) =~= pat@);
    true
}

/// Whether `pat` stands somewhere in `s`.
pub fn slice_contains(s: &[char], pat: &[char]) -> (b: bool)
    ensures
        b == occurs(s@, pat@),
{
    let n: usize = s.len();
    let m: usize = pat.len();
    if m > n {
        return false;
    }
    let limit: usize = n - m;
    let mut i: usize = 0;
    loop
        invariant
            n == s@.len(),
            m == pat@.len(),
            limit == n - m,
            i <= limit,
            forall|k: int| 0 <= k < i ==> !occurs_at(s@, pat@, k),
        decreases limit - i,
    {
        if slice_matches_at(s, pat, i) {
            return true;
        }
        if i == limit {
            return false;
        }
        i = i + 1;
    }
}

/// Whether `pat` stands somewhere in `s`.
pub fn contains(s: &str, pat: &str) -> (b: bool)
    ensures
        b == occurs(s@, pat@),
{
    let sv = chars_of(s);
    let pv = chars_of(pat);
    slice_contains(sv.as_slice(), pv.as_slice())
}

/// Whether `s` ends with `suffix`.
pub fn ends_with(s: &str, suffix: &str) -> (b: bool)
    ensures
        b == has_suffix(s@, suffix@),
{
    let sv = chars_of(s);
    let pv = chars_of(suffix);
    if pv.len() > sv.len() {
        return false;
    }
    slice_matches_at(sv.as_slice(), pv.as_slice(), sv.len() - pv.len())
}

/// `s` with every occurrence of `from` replaced by `to`, scanning left to
/// right and never matching inside a replacement.
pub fn replace(s: &str, from: &str, to: &str) -> (r: String)
    ensures
        r@ == replaced(s@, from@, to@),
{
    let sv = chars_of(s);
    let fv = chars_of(from);
    let n: usize = sv.len();
    let m: usize = fv.len();
    if m == 0 {
        return String::from_str(s);
    }
    let mut out = String::new();
    let mut i: usize = 0;
    assert(s@.subrange(0, n as int) =~= s@);
    assert(out@ + replaced(s@, from@, to@) =~= replaced(s@, from@, to@));
    while i < n
        invariant
            n == s@.len(),
            m == from@.len(),
            m > 0,
            sv@ == s@,
            fv@ == from@,
            i <= n,
            out@ + replaced(s@.subrange(i as int, n as int), from@, to@) == replaced(
                s@,
                from@,
                to@,
            ),
        decreases n - i,
    {
        let ghost rest = s@.subrange(i as int, n as int);
        if slice_matches_at(sv.as_slice(), fv.as_slice(), i) {
            proof {
                assert(rest.subrange(0, m as int) =~= s@.subrange(i as int, i + m));
                assert(rest.subrange(m as int, rest.len() as int) =~= s@.subrange(
                    i + m,
                    n as int,
                ));
                assert(out@ + (to@ + replaced(s@.subrange(i + m, n as int), from@, to@)) =~= (out@
                    + to@) + replaced(s@.subrange(i + m, n as int), from@, to@));
            }
            out.append(to);
            i = i + m;
        } else {
            proof {
                if rest.len() >= m {
                    assert(rest.subrange(0, m as int) =~= s@.subrange(i as int, i + m));
                }
                assert(rest.subrange(1, rest.len() as int) =~= s@.subrange(i + 1, n as int));
                assert(seq![rest[0]] =~= s@.subrange(i as int, i + 1));
                if rest.len() >= m {
                    assert(out@ + (seq![rest[0]] + replaced(
                        s@.subrange(i + 1, n as int),
                        from@,
                        to@,
                    )) =~= (out@ + seq![rest[0]]) + replaced(
                        s@.subrange(i + 1, n as int),
                        from@,
                        to@,
                    ));
                }
            }
            if n - i < m {
                proof {
                    assert(s@.subrange(n as int, n as int) =~= Seq::<char>::empty());
                    assert(out@ + rest =~= (out@ + rest) + Seq::<char>::empty());
                }
                out.append(s.substring_char(i, n));
                i = n;
            } else {
                out.append(s.substring_char(i, i + 1));
                i = i + 1;
            }
        }
    }
    assert(s@.subrange(n as int, n as int) =~= Seq::<char>::empty());
    assert(out@ + Seq::<char>::empty() =~= out@);
    out
}

/// `s` with every trailing repetition of `suffix` removed.
pub fn trim_end<'a>(s: &'a str, suffix: &str) -> (r: &'a str)
    ensures
        r@ == trimmed_end(s@, suffix@),
{
    let sv = chars_of(s);
    let pv = chars_of(suffix);
    let m: usize = pv.len();
    if m == 0 {
        return s;
    }
    let mut end: usize = sv.len();
    assert(s@.subrange(0, end as int) =~= s@);
    while end >= m && slice_matches_at(sv.as_slice(), pv.as_slice(), end - m)
        invariant
            sv@ == s@,
            pv@ == suffix@,
            m == suffix@.len(),
            m > 0,
            end <= s@.len(),
            trimmed_end(s@.subrange(0, end as int), suffix@) == trimmed_end(s@, suffix@),
        decreases end,
    {
        proof {
            let cur = s@.subrange(0, end as int);
            assert(cur.subrange(cur.len() - m, cur.len() as int) =~= s@.subrange(
                end - m,
                end as int,
            ));
            assert(cur.subrange(0, cur.len() - m) =~= s@.subrange(0, end - m));
        }
        end = end - m;
    }
    proof {
        let cur = s@.subrange(0, end as int);
        if end >= m {
            assert(cur.subrange(cur.len() - m, cur.len() as int) =~= s@.subrange(
                end - m,
                end as int,
            ));
        }
    }
    s.substring_char(0, end)
}

/// Index just behind the last `c` in `s`.
pub fn last_segment_start(s: &[char], c: char) -> (k: usize)
    ensures
        k == segment_start(s@, c),
{
    let n: usize = s.len();
    let mut k: usize = 0;
    let mut i: usize = 0;
    while i < n
        invariant
            n == s@.len(),
            i <= n,
            k <= i,
            k == segment_start(s@.subrange(0, i as int), c),
        decreases n - i,
    {
        proof {
            let next = s@.subrange(0, i + 1);
            assert(next.last() == s@[i as int]);
            assert(next.drop_last() =~= s@.subrange(0, i as int));
        }
        if s[i] == c {
            k = i + 1;
        }
        i = i + 1;
    }
    assert(s@.subrange(0, n as int) =~= s@);
    k
}

/// The lines with a line feed between each two.
pub open spec fn join_lines(lines: Seq<Seq<char>>) -> Seq<char>
    decreases lines.len(),
{
    if lines.len() == 0 {
        Seq::empty()
    } else if lines.len() == 1 {
        lines[0]
    } else {
        join_lines(lines.drop_last()) + seq!['\n'] + lines.last()
    }
}

/// The lines with a line feed between each two.
pub fn joined_lines(lines: &Vec<String>) -> (r: String)
    ensures
        r@ == join_lines(texts(lines@)),
{
    let n: usize = lines.len();
    let mut out = String::new();
    let mut i: usize = 0;
    assert(texts(lines@).subrange(0, 0) =~= Seq::<Seq<char>>::empty());
    while i < n
        invariant
            n == lines@.len(),
            i <= n,
            out@ == join_lines(texts(lines@).subrange(0, i as int)),
        decreases n - i,
    {
        proof {
            let before = texts(lines@).subrange(0, i as int);
            let after = texts(lines@).subrange(0, i + 1);
            reveal_strlit("\n");
            assert("\n"@ =~= seq!['\n']);
            assert(after.drop_last() =~= before);
            assert(after.last() == lines@[i as int]@);
            assert(Seq::<char>::empty() + lines@[i as int]@ =~= lines@[i as int]@);
            if i == 0 {
                assert(after[0] == lines@[0]@);
            }
        }
        if i > 0 {
            out.append("\n");
        }
        out.append(lines[i].as_str());
        i = i + 1;
    }
    assert(texts(lines@).subrange(0, n as int) =~= texts(lines@));
    out
}

/// Index of the first `c` at or behind `i`; the length where there is none.
pub open spec fn next_index(s: Seq<char>, c: char, i: int) -> int
    decreases s.len() - i,
{
    if i < 0 || i >= s.len() || s[i] == c {
        i
    } else {
        next_index(s, c, i + 1)
    }
}

/// The pieces of `s` from `start` on that `c` separates. There is always a
/// last piece, which is empty where `s` ends in `c`.
pub open spec fn pieces(s: Seq<char>, c: char, start: int) -> Seq<Seq<char>>
    decreases s.len() - start,
{
    let end = next_index(s, c, start);
    if 0 <= start <= end < s.len() {
        seq![s.subrange(start, end)] + pieces(s, c, end + 1)
    } else {
        seq![s.subrange(start, s.len() as int)]
    }
}

/// White space, as Unicode defines it.
pub open spec fn is_space(c: char) -> bool {
    let n = c as u32;
    (0x09 <= n <= 0x0d) || n == 0x20 || n == 0x85 || n == 0xa0 || n == 0x1680 || (0x2000 <= n
        <= 0x200a) || n == 0x2028 || n == 0x2029 || n == 0x202f || n == 0x205f || n == 0x3000
}

/// `s` without the white space at its start.
pub open spec fn trimmed_start(s: Seq<char>) -> Seq<char>
    decreases s.len(),
{
    if s.len() > 0 && is_space(s[0]) {
        trimmed_start(s.subrange(1, s.len() as int))
    } else {
        s
    }
}

/// `s` without the white space at its end.
pub open spec fn trimmed_tail(s: Seq<char>) -> Seq<char>
    decreases s.len(),
{
    if s.len() > 0 && is_space(s.last()) {
        trimmed_tail(s.drop_last())
    } else {
        s
    }
}

/// `s` without the white space at either end.
pub open spec fn trimmed(s: Seq<char>) -> Seq<char> {
    trimmed_tail(trimmed_start(s))
}

/// Whether `c` is white space.
pub fn is_whitespace(c: char) -> (r: bool)
    ensures
        r == is_space(c),
{
    let n: u32 = c as u32;
    (0x09 <= n && n <= 0x0d) || n == 0x20 || n == 0x85 || n == 0xa0 || n == 0x1680 || (0x2000 <= n
        && n <= 0x200a) || n == 0x2028 || n == 0x2029 || n == 0x202f || n == 0x205f || n
        == 0x3000
}

/// Index of the first `c` in `s` at or behind `i`.
pub fn find_from(s: &[char], c: char, i: usize) -> (r: usize)
    ensures
        r == next_index(s@, c, i as int),
        i <= r,
        i <= s@.len() ==> r <= s@.len(),
{
    let n: usize = s.len();
    let mut end: usize = i;
    while end < n && s[end] != c
        invariant
            n == s@.len(),
            i <= end,
            i <= n ==> end <= n,
            next_index(s@, c, end as int) == next_index(s@, c, i as int),
        decreases n - end,
    {
        end = end + 1;
    }
    end
}

/// `s` without the white space at either end.
pub fn trim<'a>(s: &'a str) -> (r: &'a str)
    ensures
        r@ == trimmed(s@),
{
    let cv = chars_of(s);
    let n: usize = cv.len();
    let mut a: usize = 0;
    assert(s@.subrange(0, n as int) =~= s@);
    while a < n && is_whitespace(cv[a])
        invariant
            cv@ == s@,
            n == s@.len(),
            a <= n,
            trimmed_start(s@.subrange(a as int, n as int)) == trimmed_start(s@),
        decreases n - a,
    {
        proof {
            let cur = s@.subrange(a as int, n as int);
            assert(cur.subrange(1, cur.len() as int) =~= s@.subrange(a + 1, n as int));
        }
        a = a + 1;
    }
    let ghost front = s@.subrange(a as int, n as int);
    assert(trimmed_start(s@) == front);
    let mut b: usize = n;
    while b > a && is_whitespace(cv[b - 1])
        invariant
            cv@ == s@,
            n == s@.len(),
            a <= b <= n,
            trimmed_tail(s@.subrange(a as int, b as int)) == trimmed_tail(front),
        decreases b,
    {
        proof {
            let cur = s@.subrange(a as int, b as int);
            assert(cur.drop_last() =~= s@.subrange(a as int, b - 1));
        }
        b = b - 1;
    }
    s.substring_char(a, b)
}

/// `word` stands in `s` at `i` as a whole word: white space or an end of
/// `s` bounds it on either side.
pub open spec fn word_at(s: Seq<char>, word: Seq<char>, i: int) -> bool {
    &&& occurs_at(s, word, i)
    &&& (i == 0 || is_space(s[i - 1]))
    &&& (i + word.len() == s.len() || is_space(s[i + word.len()]))
}

/// The non-empty `word` is one of the words of `s`.
pub open spec fn has_word(s: Seq<char>, word: Seq<char>) -> bool {
    word.len() > 0 && exists|i: int| word_at(s, word, i)
}

/// Whether `word` is not empty and one of the words of `s`.
pub fn slice_has_word(s: &[char], word: &[char]) -> (b: bool)
    ensures
        b == has_word(s@, word@),
{
    let n: usize = s.len();
    let m: usize = word.len();
    if m == 0 || m > n {
        return false;
    }
    let limit: usize = n - m;
    let mut i: usize = 0;
    loop
        invariant
            n == s@.len(),
            m == word@.len(),
            m > 0,
            limit == n - m,
            i <= limit,
            forall|k: int| 0 <= k < i ==> !word_at(s@, word@, k),
        decreases limit - i,
    {
        if slice_matches_at(s, word, i) && (i == 0 || is_whitespace(s[i - 1])) && (i == limit
            || is_whitespace(s[i + m])) {
            assert(word_at(s@, word@, i as int));
            return true;
        }
        if i == limit {
            return false;
        }
        i = i + 1;
    }
}

/// Whether `word` is not empty and one of the words of `s`.
pub fn contains_word(s: &str, word: &str) -> (b: bool)
    ensures
        b == has_word(s@, word@),
{
    let sv = chars_of(s);
    let wv = chars_of(word);
    slice_has_word(sv.as_slice(), wv.as_slice())
}

/// `c` occurs nowhere in `s`.
pub open spec fn free_of(s: Seq<char>, c: char) -> bool {
    forall|i: int| 0 <= i < s.len() ==> s[i] != c
}

/// `next_index` is the first place at or behind `i` that holds `c`, or the
/// length: any such place is it.
pub proof fn lemma_next_index_is(s: Seq<char>, c: char, i: int, e: int)
    requires
        0 <= i <= e <= s.len(),
        forall|j: int| i <= j < e ==> s[j] != c,
        e == s.len() || s[e] == c,
    ensures
        next_index(s, c, i) == e,
    decreases e - i,
{
    if i < e {
        lemma_next_index_is(s, c, i + 1, e);
    }
}

/// `next_index` stays within the text, passes over no `c`, and stops at a
/// `c` or at the end.
pub proof fn lemma_next_index_bounds(s: Seq<char>, c: char, i: int)
    requires
        0 <= i <= s.len(),
    ensures
        i <= next_index(s, c, i) <= s.len(),
        forall|j: int| i <= j < next_index(s, c, i) ==> s[j] != c,
        next_index(s, c, i) == s.len() || s[next_index(s, c, i)] == c,
    decreases s.len() - i,
{
    if i < s.len() && s[i] != c {
        lemma_next_index_bounds(s, c, i + 1);
    }
}

/// A separator and a further piece behind a text add that piece to its
/// pieces.
pub proof fn lemma_pieces_append(x: Seq<char>, y: Seq<char>, c: char, start: int)
    requires
        0 <= start <= x.len(),
        free_of(y, c),
    ensures
        pieces(x + seq![c] + y, c, start) == pieces(x, c, start).push(y),
    decreases x.len() - start,
{
    let s = x + seq![c] + y;
    lemma_next_index_bounds(x, c, start);
    let e = next_index(x, c, start);
    assert forall|j: int| start <= j < e implies s[j] != c by {
        assert(s[j] == x[j]);
    }
    assert(s[e] == c) by {
        if e < x.len() {
            assert(s[e] == x[e]);
        }
    }
    lemma_next_index_is(s, c, start, e);
    if e < x.len() {
        lemma_pieces_append(x, y, c, e + 1);
        assert(s.subrange(start, e) =~= x.subrange(start, e));
        let rest = pieces(x, c, e + 1);
        assert(pieces(s, c, start) == seq![s.subrange(start, e)] + pieces(s, c, e + 1));
        assert(pieces(x, c, start) == seq![x.subrange(start, e)] + rest);
        assert(seq![x.subrange(start, e)] + rest.push(y) =~= (seq![x.subrange(start, e)]
            + rest).push(y));
    } else {
        assert forall|j: int| e + 1 <= j < s.len() implies s[j] != c by {
            assert(s[j] == y[j - e - 1]);
        }
        lemma_next_index_is(s, c, e + 1, s.len() as int);
        assert(s.subrange(e + 1, s.len() as int) =~= y);
        assert(s.subrange(start, e) =~= x.subrange(start, x.len() as int));
        assert(pieces(s, c, e + 1) == seq![y]);
        assert(pieces(s, c, start) == seq![s.subrange(start, e)] + pieces(s, c, e + 1));
        assert(pieces(x, c, start) == seq![x.subrange(start, x.len() as int)]);
        assert(seq![x.subrange(start, x.len() as int)] + seq![y] =~= seq![
            x.subrange(start, x.len() as int),
        ].push(y));
    }
}

/// Splitting what was joined gives the lines back, where there is a line
/// at all and none of them holds a line feed.
pub proof fn lemma_split_joined(lines: Seq<Seq<char>>)
    requires
        lines.len() > 0,
        forall|k: int| 0 <= k < lines.len() ==> free_of(#[trigger] lines[k], '\n'),
    ensures
        pieces(join_lines(lines), '\n', 0) == lines,
    decreases lines.len(),
{
    if lines.len() == 1 {
        let only = lines[0];
        lemma_next_index_is(only, '\n', 0, only.len() as int);
        assert(only.subrange(0, only.len() as int) =~= only);
        assert(seq![only] =~= lines);
    } else {
        let front = lines.drop_last();
        assert forall|k: int| 0 <= k < front.len() implies free_of(#[trigger] front[k], '\n') by {
            assert(front[k] == lines[k]);
        }
        lemma_split_joined(front);
        lemma_pieces_append(join_lines(front), lines.last(), '\n', 0);
        assert(front.push(lines.last()) =~= lines);
    }
}

} // verus!

//! Character-level text handling for the command outputs that the drive
//! tools print: lines, fields, whitespace-separated words and integers.
//!
//! Every operation works on sequences of `char`s, the view of a `&str`,
//! and states its result over the spec functions below.
use vstd::prelude::*;

verus! {

broadcast use vstd::string::group_string_axioms;

// ---------------------------------------------------------------------------
// Character classes
// ---------------------------------------------------------------------------

/// Unicode `White_Space`, the set that `char::is_whitespace` tests.
pub open spec fn is_ws(c: char) -> bool {
    ||| c == ' ' || c == '\t' || c == '\n' || c == '\x0B' || c == '\x0C' || c == '\r'
    ||| c == '\u{85}' || c == '\u{A0}' || c == '\u{1680}'
    ||| ('\u{2000}' <= c && c <= '\u{200A}')
    ||| c == '\u{2028}' || c == '\u{2029}' || c == '\u{202F}' || c == '\u{205F}'
    ||| c == '\u{3000}'
}

pub fn char_is_ws(c: char) -> (b: bool)
    ensures
        b == is_ws(c),
{
    c == ' ' || c == '\t' || c == '\n' || c == '\x0B' || c == '\x0C' || c == '\r' || c == '\u{85}'
        || c == '\u{A0}' || c == '\u{1680}' || ('\u{2000}' <= c && c <= '\u{200A}') || c
        == '\u{2028}' || c == '\u{2029}' || c == '\u{202F}' || c == '\u{205F}' || c == '\u{3000}'
}

/// ASCII decimal digit.
pub open spec fn is_digit(c: char) -> bool {
    '0' <= c && c <= '9'
}

/// The value that `char::to_digit` gives a character under radix 36:
/// digits, then letters of either case; 99 for anything else.
pub open spec fn digit_value(c: char) -> nat {
    if '0' <= c && c <= '9' {
        (c as int - '0' as int) as nat
    } else if 'a' <= c && c <= 'z' {
        (c as int - 'a' as int + 10) as nat
    } else if 'A' <= c && c <= 'Z' {
        (c as int - 'A' as int + 10) as nat
    } else {
        99
    }
}

pub fn char_digit_value(c: char) -> (d: u32)
    ensures
        d == digit_value(c),
{
    if '0' <= c && c <= '9' {
        (c as u32) - ('0' as u32)
    } else if 'a' <= c && c <= 'z' {
        (c as u32) - ('a' as u32) + 10
    } else if 'A' <= c && c <= 'Z' {
        (c as u32) - ('A' as u32) + 10
    } else {
        99
    }
}

// ---------------------------------------------------------------------------
// Copies
// ---------------------------------------------------------------------------

/// The characters of a string slice, in order.
pub fn chars_of(s: &str) -> (v: Vec<char>)
    ensures
        v@ == s@,
{
    let mut v: Vec<char> = Vec::new();
    for c in it: s.chars()
        invariant
            v@ == it.seq().take(it.index() as int),
            it.seq() == s@,
    {
        v.push(c);
    }
    v
}

/// The characters `lo..hi` of `v`.
pub fn subvec(v: &Vec<char>, lo: usize, hi: usize) -> (r: Vec<char>)
    requires
        lo <= hi <= v.len(),
    ensures
        r@ == v@.subrange(lo as int, hi as int),
{
    let mut r: Vec<char> = Vec::new();
    let mut i: usize = lo;
    while i < hi
        invariant
            lo <= i <= hi <= v.len(),
            r@ == v@.subrange(lo as int, i as int),
        decreases hi - i,
    {
        r.push(v[i]);
        i += 1;
    }
    r
}

/// Equality of two character sequences.
pub fn chars_eq(a: &Vec<char>, b: &Vec<char>) -> (r: bool)
    ensures
        r == (a@ == b@),
{
    if a.len() != b.len() {
        return false;
    }
    let mut i: usize = 0;
    while i < a.len()
        invariant
            a.len() == b.len(),
            i <= a.len(),
            forall|j: int| 0 <= j < i ==> a@[j] == b@[j],
        decreases a.len() - i,
    {
        if a[i] != b[i] {
            return false;
        }
        i += 1;
    }
    assert(a@ =~= b@);
    true
}

// ---------------------------------------------------------------------------
// Searching
// ---------------------------------------------------------------------------

/// `p` occurs in `s` at index `i`.
pub open spec fn matches_at(s: Seq<char>, p: Seq<char>, i: int) -> bool {
    0 <= i && i + p.len() <= s.len() && s.subrange(i, i + p.len()) == p
}

/// Index of the first occurrence of `p` in `s`, or -1 (what `str::find` gives).
pub open spec fn find_sub(s: Seq<char>, p: Seq<char>) -> int
    decreases s.len(),
{
    if s.len() < p.len() {
        -1
    } else if s.take(p.len() as int) == p {
        0
    } else if s.len() == 0 {
        -1
    } else {
        let r: int = find_sub(s.drop_first(), p);
        if r < 0 {
            -1
        } else {
            r + 1
        }
    }
}

/// `p` occurs somewhere in `s` (what `str::contains` tests).
pub open spec fn contains(s: Seq<char>, p: Seq<char>) -> bool {
    find_sub(s, p) >= 0
}

pub proof fn lemma_find_sub_bounds(s: Seq<char>, p: Seq<char>)
    ensures
        -1 <= find_sub(s, p),
        find_sub(s, p) >= 0 ==> matches_at(s, p, find_sub(s, p)),
        find_sub(s, p) >= 0 ==> forall|j: int| 0 <= j < find_sub(s, p) ==> !matches_at(s, p, j),
        find_sub(s, p) < 0 ==> forall|j: int| !matches_at(s, p, j),
    decreases s.len(),
{
    if s.len() < p.len() {
    } else if s.take(p.len() as int) == p {
        assert(s.subrange(0, p.len() as int) =~= s.take(p.len() as int));
    } else if s.len() == 0 {
        assert(s.take(p.len() as int) =~= p);
    } else {
        lemma_find_sub_bounds(s.drop_first(), p);
        assert(!matches_at(s, p, 0)) by {
            assert(s.subrange(0, p.len() as int) =~= s.take(p.len() as int));
        }
        assert forall|j: int| 1 <= j && j + p.len() <= s.len() implies matches_at(s, p, j)
            == matches_at(s.drop_first(), p, j - 1) by {
            assert(s.subrange(j, j + p.len()) =~= s.drop_first().subrange(
                j - 1,
                j - 1 + p.len(),
            ));
        }
        let r: int = find_sub(s.drop_first(), p);
        if r >= 0 {
            assert(s.subrange(r + 1, r + 1 + p.len()) =~= s.drop_first().subrange(r, r + p.len()));
            assert(matches_at(s, p, r + 1));
        }
    }
}

/// Whether `p` occurs at index `i` of `s`.
pub fn matches_at_exec(s: &Vec<char>, p: &Vec<char>, i: usize) -> (r: bool)
    ensures
        r == matches_at(s@, p@, i as int),
{
    if i > s.len() || p.len() > s.len() - i {
        return false;
    }
    let mut j: usize = 0;
    while j < p.len()
        invariant
            i + p.len() <= s.len(),
            j <= p.len(),
            forall|k: int| 0 <= k < j ==> s@[i + k] == p@[k],
        decreases p.len() - j,
    {
        if s[i + j] != p[j] {
            assert(s@.subrange(i as int, i + p.len())[j as int] != p@[j as int]);
            return false;
        }
        j += 1;
    }
    assert(s@.subrange(i as int, i + p.len()) =~= p@);
    true
}

/// The first index at which `p` occurs in `s`.
pub fn find_exec(s: &Vec<char>, p: &Vec<char>) -> (r: Option<usize>)
    ensures
        r matches Some(i) ==> find_sub(s@, p@) == i,
        r is None ==> find_sub(s@, p@) == -1,
{
    proof {
        lemma_find_sub_bounds(s@, p@);
    }
    if p.len() > s.len() {
        return None;
    }
    if p.len() == 0 {
        assert(s@.take(0) =~= p@);
        return Some(0);
    }
    let mut i: usize = 0;
    while i <= s.len() - p.len()
        invariant
            1 <= p.len() <= s.len(),
            i <= s.len() - p.len() + 1,
            forall|j: int| 0 <= j < i ==> !matches_at(s@, p@, j),
            -1 <= find_sub(s@, p@),
            find_sub(s@, p@) >= 0 ==> matches_at(s@, p@, find_sub(s@, p@)),
            find_sub(s@, p@) >= 0 ==> forall|j: int|
                0 <= j < find_sub(s@, p@) ==> !matches_at(s@, p@, j),
            find_sub(s@, p@) < 0 ==> forall|j: int| !matches_at(s@, p@, j),
        decreases s.len() - p.len() + 1 - i,
    {
        if matches_at_exec(s, p, i) {
            return Some(i);
        }
        i += 1;
    }
    None
}

/// Whether `p` occurs in `s`.
pub fn has(s: &Vec<char>, p: &Vec<char>) -> (r: bool)
    ensures
        r == contains(s@, p@),
{
    find_exec(s, p).is_some()
}

/// Whether the literal `p` occurs in `s`.
pub fn has_str(s: &Vec<char>, p: &str) -> (r: bool)
    ensures
        r == contains(s@, p@),
{
    let pv = chars_of(p);
    has(s, &pv)
}

/// `s` begins with `p`.
pub open spec fn starts_with(s: Seq<char>, p: Seq<char>) -> bool {
    p.len() <= s.len() && s.take(p.len() as int) == p
}

pub fn starts_with_str(s: &Vec<char>, p: &str) -> (r: bool)
    ensures
        r == starts_with(s@, p@),
{
    let pv = chars_of(p);
    let r = matches_at_exec(s, &pv, 0);
    proof {
        if pv@.len() <= s@.len() {
            assert(s@.subrange(0, pv@.len() as int) =~= s@.take(pv@.len() as int));
        }
    }
    r
}

/// Index of the first `c` in `s`, or -1.
pub open spec fn find_char(s: Seq<char>, c: char) -> int
    decreases s.len(),
{
    if s.len() == 0 {
        -1
    } else if s[0] == c {
        0
    } else {
        let r: int = find_char(s.drop_first(), c);
        if r < 0 {
            -1
        } else {
            r + 1
        }
    }
}

pub proof fn lemma_find_char(s: Seq<char>, c: char)
    ensures
        -1 <= find_char(s, c) < s.len(),
        find_char(s, c) >= 0 ==> s[find_char(s, c)] == c,
        find_char(s, c) >= 0 ==> forall|j: int| 0 <= j < find_char(s, c) ==> s[j] != c,
        find_char(s, c) < 0 ==> forall|j: int| 0 <= j < s.len() ==> s[j] != c,
    decreases s.len(),
{
    if s.len() > 0 && s[0] != c {
        lemma_find_char(s.drop_first(), c);
        assert forall|j: int| 1 <= j < s.len() implies s[j] == s.drop_first()[j - 1] by {}
    }
}

/// A char sequence with no `c` before index `k` and a `c` at `k` has its first `c` at `k`.
pub proof fn lemma_find_char_at(s: Seq<char>, c: char, k: int)
    requires
        0 <= k < s.len(),
        s[k] == c,
        forall|j: int| 0 <= j < k ==> s[j] != c,
    ensures
        find_char(s, c) == k,
{
    lemma_find_char(s, c);
}

/// A char sequence without `c` has no first `c`.
pub proof fn lemma_find_char_none(s: Seq<char>, c: char)
    requires
        forall|j: int| 0 <= j < s.len() ==> s[j] != c,
    ensures
        find_char(s, c) == -1,
{
    lemma_find_char(s, c);
}

pub fn find_char_exec(s: &Vec<char>, c: char) -> (r: Option<usize>)
    ensures
        r matches Some(i) ==> find_char(s@, c) == i,
        r is None ==> find_char(s@, c) == -1,
{
    let mut i: usize = 0;
    while i < s.len()
        invariant
            i <= s.len(),
            forall|j: int| 0 <= j < i ==> s@[j] != c,
        decreases s.len() - i,
    {
        if s[i] == c {
            proof {
                lemma_find_char_at(s@, c, i as int);
            }
            return Some(i);
        }
        i += 1;
    }
    proof {
        lemma_find_char_none(s@, c);
    }
    None
}

/// Index of the last `c` in `s`, or -1 (what `str::rfind` gives for a char).
pub open spec fn rfind_char(s: Seq<char>, c: char) -> int
    decreases s.len(),
{
    if s.len() == 0 {
        -1
    } else if s.last() == c {
        s.len() - 1
    } else {
        rfind_char(s.drop_last(), c)
    }
}

pub proof fn lemma_rfind_char(s: Seq<char>, c: char)
    ensures
        -1 <= rfind_char(s, c) < s.len(),
        rfind_char(s, c) >= 0 ==> s[rfind_char(s, c)] == c,
        forall|j: int| rfind_char(s, c) < j < s.len() ==> s[j] != c,
    decreases s.len(),
{
    if s.len() > 0 && s.last() != c {
        lemma_rfind_char(s.drop_last(), c);
        assert forall|j: int| 0 <= j < s.len() - 1 implies s[j] == s.drop_last()[j] by {}
    }
}

pub fn rfind_char_exec(s: &Vec<char>, c: char) -> (r: Option<usize>)
    ensures
        r matches Some(i) ==> rfind_char(s@, c) == i,
        r is None ==> rfind_char(s@, c) == -1,
{
    let mut i: usize = s.len();
    assert(s@.take(i as int) =~= s@);
    while i > 0
        invariant
            i <= s.len(),
            rfind_char(s@, c) == rfind_char(s@.take(i as int), c),
        decreases i,
    {
        assert(s@.take(i as int).drop_last() =~= s@.take(i - 1));
        if s[i - 1] == c {
            return Some(i - 1);
        }
        i -= 1;
    }
    None
}


// ---------------------------------------------------------------------------
// Lines
// ---------------------------------------------------------------------------

/// A line as `str::lines` yields it when a `\n` ended it: a final `\r` is dropped.
pub open spec fn strip_cr(l: Seq<char>) -> Seq<char> {
    if l.len() > 0 && l.last() == '\r' {
        l.drop_last()
    } else {
        l
    }
}

/// The lines of `s`, as `str::lines` yields them: split at each `\n`, a `\r`
/// before the `\n` removed, and no empty last line after a final `\n`.
pub open spec fn lines(s: Seq<char>) -> Seq<Seq<char>>
    decreases s.len(),
{
    if s.len() == 0 {
        seq![]
    } else {
        let i = find_char(s, '\n');
        if i < 0 {
            seq![s]
        } else {
            proof {
                lemma_find_char(s, '\n');
            }
            seq![strip_cr(s.take(i))] + lines(s.skip(i + 1))
        }
    }
}

/// The views of a vector of character vectors.
pub open spec fn views(r: Seq<Vec<char>>) -> Seq<Seq<char>> {
    r.map_values(|v: Vec<char>| v@)
}

/// The lines of `s`.
pub fn split_lines(s: &Vec<char>) -> (r: Vec<Vec<char>>)
    ensures
        views(r@) == lines(s@),
{
    let mut r: Vec<Vec<char>> = Vec::new();
    let mut start: usize = 0;
    let mut i: usize = 0;
    assert(s@.skip(0) =~= s@);
    assert(views(r@) + lines(s@.skip(0)) =~= lines(s@));
    while i < s.len()
        invariant
            start <= i <= s.len(),
            forall|j: int| start <= j < i ==> s@[j] != '\n',
            lines(s@) == views(r@) + lines(s@.skip(start as int)),
        decreases s.len() - i,
    {
        if s[i] == '\n' {
            let ghost rest = s@.skip(start as int);
            proof {
                lemma_find_char_at(rest, '\n', i - start);
                assert(rest.take(i - start) =~= s@.subrange(start as int, i as int));
                assert(rest.skip(i - start + 1) =~= s@.skip(i + 1));
            }
            let end: usize = if i > start && s[i - 1] == '\r' {
                i - 1
            } else {
                i
            };
            let line = subvec(s, start, end);
            proof {
                let full = s@.subrange(start as int, i as int);
                if i > start && s@[i - 1] == '\r' {
                    assert(line@ =~= full.drop_last());
                } else {
                    assert(line@ =~= full);
                }
                assert(line@ == strip_cr(full));
            }
            let ghost before = views(r@);
            r.push(line);
            proof {
                assert(views(r@) =~= before.push(line@));
                assert(lines(rest) == seq![line@] + lines(s@.skip(i + 1)));
                assert(before + lines(rest) =~= views(r@) + lines(s@.skip(i + 1)));
            }
            start = i + 1;
        }
        i += 1;
    }
    if start < s.len() {
        let ghost rest = s@.skip(start as int);
        proof {
            lemma_find_char_none(rest, '\n');
            assert(lines(rest) == seq![rest]);
        }
        let line = subvec(s, start, s.len());
        let ghost before = views(r@);
        r.push(line);
        proof {
            assert(line@ =~= rest);
            assert(views(r@) =~= before.push(line@));
            assert(before + lines(rest) =~= views(r@));
        }
    } else {
        proof {
            assert(s@.skip(start as int) =~= Seq::<char>::empty());
            assert(views(r@) + lines(s@.skip(start as int)) =~= views(r@));
        }
    }
    r
}

// ---------------------------------------------------------------------------
// Pieces around a separator
// ---------------------------------------------------------------------------

/// The first piece of `s.split(c)`.
pub open spec fn first_piece(s: Seq<char>, c: char) -> Seq<char> {
    let i = find_char(s, c);
    if i < 0 {
        s
    } else {
        s.take(i)
    }
}

/// `s.split(c).nth(1)`: the piece between the first and the second `c`.
pub open spec fn second_piece(s: Seq<char>, c: char) -> Option<Seq<char>> {
    let i = find_char(s, c);
    if i < 0 {
        None
    } else {
        Some(first_piece(s.skip(i + 1), c))
    }
}

pub fn first_piece_exec(s: &Vec<char>, c: char) -> (r: Vec<char>)
    ensures
        r@ == first_piece(s@, c),
{
    proof {
        lemma_find_char(s@, c);
    }
    match find_char_exec(s, c) {
        None => subvec(s, 0, s.len()),
        Some(i) => subvec(s, 0, i),
    }
}

pub fn second_piece_exec(s: &Vec<char>, c: char) -> (r: Option<Vec<char>>)
    ensures
        r is None <==> second_piece(s@, c) is None,
        r matches Some(v) ==> second_piece(s@, c) == Some(v@),
{
    proof {
        lemma_find_char(s@, c);
    }
    match find_char_exec(s, c) {
        None => None,
        Some(i) => {
            assert(i < s.len());
            let rest = subvec(s, i + 1, s.len());
            assert(rest@ =~= s@.skip(i + 1));
            Some(first_piece_exec(&rest, c))
        },
    }
}

// ---------------------------------------------------------------------------
// Whitespace
// ---------------------------------------------------------------------------

/// `s` without leading whitespace (`str::trim_start`).
pub open spec fn trim_start(s: Seq<char>) -> Seq<char>
    decreases s.len(),
{
    if s.len() > 0 && is_ws(s[0]) {
        trim_start(s.drop_first())
    } else {
        s
    }
}

/// `s` without trailing whitespace (`str::trim_end`).
pub open spec fn trim_end(s: Seq<char>) -> Seq<char>
    decreases s.len(),
{
    if s.len() > 0 && is_ws(s.last()) {
        trim_end(s.drop_last())
    } else {
        s
    }
}

/// `s` without leading or trailing whitespace (`str::trim`).
pub open spec fn trim(s: Seq<char>) -> Seq<char> {
    trim_end(trim_start(s))
}

pub fn trim_exec(s: &Vec<char>) -> (r: Vec<char>)
    ensures
        r@ == trim(s@),
{
    let mut lo: usize = 0;
    assert(s@.skip(0) =~= s@);
    while lo < s.len() && char_is_ws(s[lo])
        invariant
            lo <= s.len(),
            trim_start(s@) == trim_start(s@.skip(lo as int)),
        decreases s.len() - lo,
    {
        assert(s@.skip(lo as int).drop_first() =~= s@.skip(lo + 1));
        lo += 1;
    }
    let ghost t = s@.skip(lo as int);
    assert(trim_start(s@) == t);
    let mut hi: usize = s.len();
    assert(t.take(hi - lo) =~= t);
    while hi > lo && char_is_ws(s[hi - 1])
        invariant
            lo <= hi <= s.len(),
            t == s@.skip(lo as int),
            trim_end(t) == trim_end(t.take(hi - lo)),
        decreases hi,
    {
        assert(t.take(hi - lo).drop_last() =~= t.take(hi - 1 - lo));
        hi -= 1;
    }
    let r = subvec(s, lo, hi);
    assert(r@ =~= t.take(hi - lo));
    r
}

/// Length of the run of non-whitespace characters at the start of `s`.
pub open spec fn word_len(s: Seq<char>) -> nat
    decreases s.len(),
{
    if s.len() == 0 || is_ws(s[0]) {
        0
    } else {
        1 + word_len(s.drop_first())
    }
}

pub proof fn lemma_word_len(s: Seq<char>)
    ensures
        word_len(s) <= s.len(),
        forall|j: int| 0 <= j < word_len(s) ==> !is_ws(s[j]),
        word_len(s) < s.len() ==> is_ws(s[word_len(s) as int]),
    decreases s.len(),
{
    if s.len() > 0 && !is_ws(s[0]) {
        lemma_word_len(s.drop_first());
        assert forall|j: int| 1 <= j < s.len() implies s[j] == s.drop_first()[j - 1] by {}
    }
}

pub proof fn lemma_word_len_exact(s: Seq<char>, k: int)
    requires
        0 <= k <= s.len(),
        forall|j: int| 0 <= j < k ==> !is_ws(s[j]),
        k < s.len() ==> is_ws(s[k]),
    ensures
        word_len(s) == k,
    decreases s.len(),
{
    if k > 0 {
        assert forall|j: int| 0 <= j < k - 1 implies !is_ws(s.drop_first()[j]) by {
            assert(s.drop_first()[j] == s[j + 1]);
        }
        lemma_word_len_exact(s.drop_first(), k - 1);
    }
}

/// The words of `s`, as `str::split_whitespace` yields them.
pub open spec fn words(s: Seq<char>) -> Seq<Seq<char>>
    decreases s.len(),
{
    if s.len() == 0 {
        seq![]
    } else if is_ws(s[0]) {
        words(s.drop_first())
    } else {
        let n = word_len(s);
        proof {
            lemma_word_len(s);
        }
        seq![s.take(n as int)] + words(s.skip(n as int))
    }
}

pub fn split_words(s: &Vec<char>) -> (r: Vec<Vec<char>>)
    ensures
        views(r@) == words(s@),
{
    let mut r: Vec<Vec<char>> = Vec::new();
    let mut i: usize = 0;
    assert(s@.skip(0) =~= s@);
    assert(views(r@) + words(s@.skip(0)) =~= words(s@));
    while i < s.len()
        invariant
            i <= s.len(),
            words(s@) == views(r@) + words(s@.skip(i as int)),
        decreases s.len() - i,
    {
        let ghost rest = s@.skip(i as int);
        if char_is_ws(s[i]) {
            assert(rest.drop_first() =~= s@.skip(i + 1));
            i += 1;
        } else {
            let mut j: usize = i;
            while j < s.len() && !char_is_ws(s[j])
                invariant
                    i <= j <= s.len(),
                    forall|k: int| i <= k < j ==> !is_ws(s@[k]),
                decreases s.len() - j,
            {
                j += 1;
            }
            proof {
                lemma_word_len_exact(rest, j - i);
                assert(rest.take(j - i) =~= s@.subrange(i as int, j as int));
                assert(rest.skip(j - i) =~= s@.skip(j as int));
            }
            let w = subvec(s, i, j);
            let ghost before = views(r@);
            r.push(w);
            proof {
                assert(views(r@) =~= before.push(w@));
                assert(before + words(rest) =~= views(r@) + words(s@.skip(j as int)));
            }
            i = j;
        }
    }
    proof {
        assert(s@.skip(i as int) =~= Seq::<char>::empty());
        assert(views(r@) + words(s@.skip(i as int)) =~= views(r@));
    }
    r
}

/// `s` with every `c` removed (`str::replace(c, "")` for a one-char pattern).
pub open spec fn without(s: Seq<char>, c: char) -> Seq<char>
    decreases s.len(),
{
    if s.len() == 0 {
        s
    } else if s.last() == c {
        without(s.drop_last(), c)
    } else {
        without(s.drop_last(), c).push(s.last())
    }
}

pub fn without_exec(s: &Vec<char>, c: char) -> (r: Vec<char>)
    ensures
        r@ == without(s@, c),
{
    let mut r: Vec<char> = Vec::new();
    let mut i: usize = 0;
    assert(s@.take(0) =~= Seq::<char>::empty());
    while i < s.len()
        invariant
            i <= s.len(),
            r@ == without(s@.take(i as int), c),
        decreases s.len() - i,
    {
        assert(s@.take(i + 1).drop_last() =~= s@.take(i as int));
        if s[i] != c {
            r.push(s[i]);
        }
        i += 1;
    }
    assert(s@.take(s.len() as int) =~= s@);
    r
}

// ---------------------------------------------------------------------------
// Unsigned integers
// ---------------------------------------------------------------------------

/// The value of a digit string in a radix, most significant digit first.
pub open spec fn digits_value(d: Seq<char>, radix: nat) -> nat
    decreases d.len(),
{
    if d.len() == 0 {
        0
    } else {
        digits_value(d.drop_last(), radix) * radix + digit_value(d.last())
    }
}

/// Every character of `d` is a digit of the radix.
pub open spec fn all_digits(d: Seq<char>, radix: nat) -> bool {
    forall|i: int| 0 <= i < d.len() ==> digit_value(#[trigger] d[i]) < radix
}

/// The digits of an unsigned number after an optional `+`.
pub open spec fn unsigned_body(s: Seq<char>) -> Seq<char> {
    if s.len() > 0 && s[0] == '+' {
        s.drop_first()
    } else {
        s
    }
}

/// What `from_str_radix` of an unsigned type whose largest value is `max`
/// gives for `s`: an optional `+`, then at least one digit, and no overflow.
pub open spec fn parse_uint(s: Seq<char>, radix: nat, max: nat) -> Option<nat> {
    let d = unsigned_body(s);
    if d.len() > 0 && all_digits(d, radix) && digits_value(d, radix) <= max {
        Some(digits_value(d, radix))
    } else {
        None
    }
}

/// `str::parse::<u64>`.
pub open spec fn parse_u64(s: Seq<char>) -> Option<nat> {
    parse_uint(s, 10, u64::MAX as nat)
}

pub proof fn lemma_digits_value_prefix(d: Seq<char>, radix: nat, k: int)
    requires
        radix >= 1,
        0 <= k <= d.len(),
    ensures
        digits_value(d.take(k), radix) <= digits_value(d, radix),
    decreases d.len(),
{
    if k < d.len() {
        assert(d.drop_last().take(k) =~= d.take(k));
        lemma_digits_value_prefix(d.drop_last(), radix, k);
        let v = digits_value(d.drop_last(), radix);
        assert(v * radix >= v) by (nonlinear_arith)
            requires
                radix >= 1,
        ;
    } else {
        assert(d.take(k) =~= d);
    }
}

pub fn parse_uint_exec(s: &Vec<char>, radix: u32, max: u64) -> (r: Option<u64>)
    requires
        2 <= radix <= 36,
    ensures
        r matches Some(v) ==> parse_uint(s@, radix as nat, max as nat) == Some(v as nat),
        r is None ==> parse_uint(s@, radix as nat, max as nat) is None,
{
    let start: usize = if s.len() > 0 && s[0] == '+' {
        1
    } else {
        0
    };
    let ghost d = unsigned_body(s@);
    assert(d =~= s@.skip(start as int));
    if start >= s.len() {
        return None;
    }
    let mut acc: u64 = 0;
    let mut i: usize = start;
    assert(d.take(0) =~= Seq::<char>::empty());
    while i < s.len()
        invariant
            2 <= radix <= 36,
            start <= i <= s.len(),
            d == s@.skip(start as int),
            d == unsigned_body(s@),
            acc as nat == digits_value(d.take(i - start), radix as nat),
            acc <= max,
            all_digits(d.take(i - start), radix as nat),
        decreases s.len() - i,
    {
        let dv = char_digit_value(s[i]);
        assert(d.take(i + 1 - start).drop_last() =~= d.take(i - start));
        assert(d.take(i + 1 - start).last() == s@[i as int]);
        if dv >= radix {
            assert(d[i - start] == s@[i as int]);
            assert(digit_value(d[i - start]) >= radix);
            assert(!all_digits(d, radix as nat));
            assert(parse_uint(s@, radix as nat, max as nat) is None);
            return None;
        }
        assert((acc as u128) * (radix as u128) <= 36 * 0xffff_ffff_ffff_ffffu128) by (nonlinear_arith)
            requires
                acc <= 0xffff_ffff_ffff_ffffu64,
                radix <= 36,
        ;
        let next: u128 = (acc as u128) * (radix as u128) + (dv as u128);
        assert(next == digits_value(d.take(i + 1 - start), radix as nat));
        if next > max as u128 {
            proof {
                lemma_digits_value_prefix(d, radix as nat, i + 1 - start);
            }
            return None;
        }
        acc = next as u64;
        i += 1;
    }
    assert(d.take(i - start) =~= d);
    Some(acc)
}

/// `str::parse::<u64>` on a character sequence.
pub fn parse_u64_exec(s: &Vec<char>) -> (r: Option<u64>)
    ensures
        r matches Some(v) ==> parse_u64(s@) == Some(v as nat),
        r is None ==> parse_u64(s@) is None,
{
    parse_uint_exec(s, 10, u64::MAX)
}

/// The value of an optional `u64` as a natural number.
pub open spec fn opt64(o: Option<u64>) -> Option<nat> {
    match o {
        Some(v) => Some(v as nat),
        None => None,
    }
}

/// The value of an optional `u32` as a natural number.
pub open spec fn opt32(o: Option<u32>) -> Option<nat> {
    match o {
        Some(v) => Some(v as nat),
        None => None,
    }
}

/// A sequence with no word is all whitespace.
pub proof fn lemma_no_words_all_ws(s: Seq<char>)
    requires
        words(s).len() == 0,
    ensures
        forall|i: int| 0 <= i < s.len() ==> is_ws(s[i]),
    decreases s.len(),
{
    if s.len() > 0 {
        if is_ws(s[0]) {
            lemma_no_words_all_ws(s.drop_first());
            assert forall|i: int| 0 <= i < s.len() implies is_ws(s[i]) by {
                if i > 0 {
                    assert(s[i] == s.drop_first()[i - 1]);
                }
            }
        } else {
            lemma_word_len(s);
        }
    }
}

/// A sequence that holds a non-whitespace character has a word.
pub proof fn lemma_words_nonempty(s: Seq<char>, i: int)
    requires
        0 <= i < s.len(),
        !is_ws(s[i]),
    ensures
        words(s).len() > 0,
{
    if words(s).len() == 0 {
        lemma_no_words_all_ws(s);
    }
}

// ---------------------------------------------------------------------------
// Decimal formatting
// ---------------------------------------------------------------------------

/// The ASCII digit for `d < 10`.
pub open spec fn digit_char(d: nat) -> char {
    if d == 0 { '0' } else if d == 1 { '1' } else if d == 2 { '2' } else if d == 3 { '3' }
    else if d == 4 { '4' } else if d == 5 { '5' } else if d == 6 { '6' } else if d == 7 { '7' }
    else if d == 8 { '8' } else { '9' }
}

/// The decimal notation of `n`, as `{}` formats an unsigned integer.
pub open spec fn decimal(n: nat) -> Seq<char>
    decreases n,
{
    if n < 10 {
        seq![digit_char(n)]
    } else {
        decimal(n / 10).push(digit_char(n % 10))
    }
}

fn digit_char_exec(d: u64) -> (c: char)
    requires
        d < 10,
    ensures
        c == digit_char(d as nat),
{
    match d {
        0 => '0',
        1 => '1',
        2 => '2',
        3 => '3',
        4 => '4',
        5 => '5',
        6 => '6',
        7 => '7',
        8 => '8',
        _ => '9',
    }
}

/// The decimal digits of `n`.
pub fn decimal_exec(n: u64) -> (r: Vec<char>)
    ensures
        r@ == decimal(n as nat),
    decreases n,
{
    if n < 10 {
        let mut r: Vec<char> = Vec::new();
        r.push(digit_char_exec(n));
        assert(r@ =~= decimal(n as nat));
        r
    } else {
        let mut r = decimal_exec(n / 10);
        r.push(digit_char_exec(n % 10));
        r
    }
}

/// Appends the characters of `s` to `v`.
pub fn push_str(v: &mut Vec<char>, s: &str)
    ensures
        final(v)@ == old(v)@ + s@,
{
    let mut cs = chars_of(s);
    v.append(&mut cs);
}

// ---------------------------------------------------------------------------
// Calls into std whose results are stated here
// ---------------------------------------------------------------------------

/// `String: FromIterator<char>`: the string made of the characters of `v`, in order.
#[verifier::external_body]
pub(crate) fn string_from_chars(v: &Vec<char>) -> (s: String)
    ensures
        s@ == v@,
{
    v.iter().collect()
}

/// Whether `char::is_numeric` holds of a character (general category Nd, Nl or No).
pub uninterp spec fn char_numeric(c: char) -> bool;

/// `char::is_numeric`. Its documentation places a character in one of the
/// numeric categories of Unicode; of the ASCII characters only `0`..`9` are.
/// Which other characters are numeric is left to the name `char_numeric`.
#[verifier::external_body]
pub(crate) fn is_numeric(c: char) -> (r: bool)
    ensures
        r == char_numeric(c),
        (c as u32) < 128 ==> (r <==> is_digit(c)),
{
    c.is_numeric()
}

/// What `str::to_lowercase` gives for a character sequence.
pub uninterp spec fn lowercase(s: Seq<char>) -> Seq<char>;

/// The ASCII lower-case form of a character.
pub open spec fn ascii_lower(c: char) -> char {
    if 'A' <= c && c <= 'Z' {
        ((c as u32) + 32) as char
    } else {
        c
    }
}

/// `str::to_lowercase`: the Unicode lower-case mapping of each character.
/// On ASCII text it lowers `A`..`Z` and keeps every other character, as its
/// documentation states; on other text the result is the name `lowercase`.
#[verifier::external_body]
pub(crate) fn to_lowercase(s: &str) -> (r: String)
    ensures
        r@ == lowercase(s@),
        (forall|i: int| 0 <= i < s@.len() ==> (s@[i] as u32) < 128) ==> r@ == s@.map_values(
            |c: char| ascii_lower(c),
        ),
{
    s.to_lowercase()
}

} // verus!

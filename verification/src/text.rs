//! Character-level text utilities with their mathematical meaning.
//!
//! Strings are handled as sequences of `char`; every operation here states its
//! result over `Seq<char>`, mirroring the behaviour of the corresponding `str`
//! method of the standard library.
use vstd::prelude::*;

verus! {

/// Unicode `White_Space` (the set that `char::is_whitespace` accepts).
pub open spec fn is_ws(c: char) -> bool {
    let u = c as u32;
    ||| 0x09 <= u <= 0x0D
    ||| u == 0x20
    ||| u == 0x85
    ||| u == 0xA0
    ||| u == 0x1680
    ||| 0x2000 <= u <= 0x200A
    ||| u == 0x2028
    ||| u == 0x2029
    ||| u == 0x202F
    ||| u == 0x205F
    ||| u == 0x3000
}

/// `s` with its leading whitespace removed (`str::trim_start`).
pub open spec fn trim_start(s: Seq<char>) -> Seq<char>
    decreases s.len(),
{
    if s.len() > 0 && is_ws(s[0]) {
        trim_start(s.drop_first())
    } else {
        s
    }
}

/// `s` with its trailing whitespace removed (`str::trim_end`).
pub open spec fn trim_end(s: Seq<char>) -> Seq<char>
    decreases s.len(),
{
    if s.len() > 0 && is_ws(s.last()) {
        trim_end(s.drop_last())
    } else {
        s
    }
}

/// `s` with whitespace removed at both ends (`str::trim`).
pub open spec fn trim(s: Seq<char>) -> Seq<char> {
    trim_end(trim_start(s))
}

/// `s` with every leading occurrence of `c` removed (`str::trim_start_matches(c)`).
pub open spec fn trim_start_char(s: Seq<char>, c: char) -> Seq<char>
    decreases s.len(),
{
    if s.len() > 0 && s[0] == c {
        trim_start_char(s.drop_first(), c)
    } else {
        s
    }
}

/// `s` with every trailing occurrence of `p` removed (`str::trim_end_matches(p)`).
pub open spec fn trim_end_seq(s: Seq<char>, p: Seq<char>) -> Seq<char>
    decreases s.len(),
{
    if p.len() > 0 && ends_with(s, p) {
        trim_end_seq(s.take(s.len() - p.len()), p)
    } else {
        s
    }
}

/// `s` begins with `p` (`str::starts_with`).
pub open spec fn starts_with(s: Seq<char>, p: Seq<char>) -> bool {
    p.len() <= s.len() && s.take(p.len() as int) == p
}

/// `s` ends with `p` (`str::ends_with`).
pub open spec fn ends_with(s: Seq<char>, p: Seq<char>) -> bool {
    p.len() <= s.len() && s.skip(s.len() - p.len()) == p
}

/// `p` occurs in `s` at position `i`.
pub open spec fn matches_at(s: Seq<char>, i: int, p: Seq<char>) -> bool {
    0 <= i && i + p.len() <= s.len() && s.subrange(i, i + p.len()) == p
}

/// The first position at or after `start` where `p` occurs in `s`.
pub open spec fn find_from(s: Seq<char>, start: int, p: Seq<char>) -> Option<int>
    decreases s.len() + 1 - start,
{
    if start < 0 || start + p.len() > s.len() {
        None
    } else if matches_at(s, start, p) {
        Some(start)
    } else {
        find_from(s, start + 1, p)
    }
}

/// The first position where `p` occurs in `s` (`str::find`).
pub open spec fn find(s: Seq<char>, p: Seq<char>) -> Option<int> {
    find_from(s, 0, p)
}

/// `p` occurs somewhere in `s` (`str::contains`).
pub open spec fn contains_seq(s: Seq<char>, p: Seq<char>) -> bool {
    exists|i: int| matches_at(s, i, p)
}

/// What `find_from` returns is an occurrence, the first one at or after `start`.
pub proof fn lemma_find_from(s: Seq<char>, start: int, p: Seq<char>)
    requires
        0 <= start,
    ensures
        match find_from(s, start, p) {
            Some(k) => start <= k && matches_at(s, k, p) && forall|j: int|
                start <= j < k ==> !matches_at(s, j, p),
            None => forall|j: int| start <= j ==> !matches_at(s, j, p),
        },
    decreases s.len() + 1 - start,
{
    if start + p.len() > s.len() {
    } else if matches_at(s, start, p) {
    } else {
        lemma_find_from(s, start + 1, p);
    }
}


/// The position `find` reports is the first occurrence of `p` in `s`.
pub proof fn lemma_find_first(s: Seq<char>, p: Seq<char>, k: int)
    requires
        matches_at(s, k, p),
        forall|j: int| 0 <= j < k ==> !matches_at(s, j, p),
    ensures
        find(s, p) == Some(k),
{
    lemma_find_from(s, 0, p);
}

/// `l` without one trailing carriage return.
pub open spec fn strip_cr(l: Seq<char>) -> Seq<char> {
    if l.len() > 0 && l.last() == '\r' {
        l.drop_last()
    } else {
        l
    }
}

/// The lines of `s` (`str::lines`): split at each `'\n'`, a `'\r'` before that
/// `'\n'` dropped, and no empty line after a final `'\n'`.
pub open spec fn lines(s: Seq<char>) -> Seq<Seq<char>>
    decreases s.len(),
{
    if s.len() == 0 {
        seq![]
    } else {
        match find(s, seq!['\n']) {
            Some(k) => {
                proof {
                    lemma_find_from(s, 0, seq!['\n']);
                }
                seq![strip_cr(s.take(k))] + lines(s.skip(k + 1))
            },
            None => seq![s],
        }
    }
}

/// The views of a sequence of character vectors.
pub open spec fn views(v: Seq<Vec<char>>) -> Seq<Seq<char>> {
    v.map_values(|l: Vec<char>| l@)
}

/// `char::is_whitespace`.
pub fn is_whitespace_char(c: char) -> (b: bool)
    ensures
        b == is_ws(c),
{
    let u = c as u32;
    (0x09 <= u && u <= 0x0D) || u == 0x20 || u == 0x85 || u == 0xA0 || u == 0x1680 || (0x2000
        <= u && u <= 0x200A) || u == 0x2028 || u == 0x2029 || u == 0x202F || u == 0x205F || u
        == 0x3000
}

/// Appends one character to a string (`String::push`).
#[verifier::external_body]
pub(crate) fn push_char(s: &mut String, c: char)
    ensures
        final(s)@ == old(s)@.push(c),
{
    s.push(c);
}

/// The characters of a string slice, in order.
pub fn chars_of(s: &str) -> (out: Vec<char>)
    ensures
        out@ == s@,
{
    let mut out: Vec<char> = Vec::new();
    for c in it: s.chars()
        invariant
            out@ == it.seq().take(it.index() as int),
    {
        out.push(c);
    }
    out
}

/// Builds a string from a slice of characters.
pub fn string_of(cs: &[char]) -> (out: String)
    ensures
        out@ == cs@,
{
    let mut out = String::new();
    let mut i: usize = 0;
    while i < cs.len()
        invariant
            i <= cs.len(),
            out@ == cs@.take(i as int),
        decreases cs.len() - i,
    {
        push_char(&mut out, cs[i]);
        assert(cs@.take(i as int).push(cs@[i as int]) =~= cs@.take(i + 1));
        i = i + 1;
    }
    assert(cs@.take(cs.len() as int) =~= cs@);
    out
}

/// A copy of `s[lo..hi]`.
pub fn sub_chars(s: &[char], lo: usize, hi: usize) -> (out: Vec<char>)
    requires
        lo <= hi <= s.len(),
    ensures
        out@ == s@.subrange(lo as int, hi as int),
{
    let mut out: Vec<char> = Vec::new();
    let mut i = lo;
    while i < hi
        invariant
            lo <= i <= hi <= s.len(),
            out@ == s@.subrange(lo as int, i as int),
        decreases hi - i,
    {
        out.push(s[i]);
        assert(s@.subrange(lo as int, i as int).push(s@[i as int]) =~= s@.subrange(
            lo as int,
            i + 1,
        ));
        i = i + 1;
    }
    out
}

/// `a` followed by `b`.
pub fn concat_chars(a: &[char], b: &[char]) -> (out: Vec<char>)
    ensures
        out@ == a@ + b@,
{
    let mut out = sub_chars(a, 0, a.len());
    let mut i: usize = 0;
    while i < b.len()
        invariant
            i <= b.len(),
            out@ == a@ + b@.take(i as int),
        decreases b.len() - i,
    {
        out.push(b[i]);
        assert((a@ + b@.take(i as int)).push(b@[i as int]) =~= a@ + b@.take(i + 1));
        i = i + 1;
    }
    assert(a@.subrange(0, a@.len() as int) =~= a@);
    assert(b@.take(b.len() as int) =~= b@);
    out
}

/// The number of leading whitespace characters of `s`.
pub fn trim_start_len(s: &[char]) -> (k: usize)
    ensures
        k <= s.len(),
        s@.skip(k as int) == trim_start(s@),
{
    let mut i: usize = 0;
    assert(s@.skip(0) =~= s@);
    while i < s.len() && is_whitespace_char(s[i])
        invariant
            i <= s.len(),
            trim_start(s@.skip(i as int)) == trim_start(s@),
        decreases s.len() - i,
    {
        assert(s@.skip(i as int).drop_first() =~= s@.skip(i + 1));
        i = i + 1;
    }
    i
}

/// The length of `s` once its trailing whitespace is removed.
pub fn trim_end_len(s: &[char]) -> (k: usize)
    ensures
        k <= s.len(),
        s@.take(k as int) == trim_end(s@),
{
    let mut i: usize = s.len();
    assert(s@.take(s.len() as int) =~= s@);
    while i > 0 && is_whitespace_char(s[i - 1])
        invariant
            i <= s.len(),
            trim_end(s@.take(i as int)) == trim_end(s@),
        decreases i,
    {
        assert(s@.take(i as int).drop_last() =~= s@.take(i - 1));
        i = i - 1;
    }
    i
}

/// `str::trim_start`.
pub fn trim_start_chars(s: &[char]) -> (out: Vec<char>)
    ensures
        out@ == trim_start(s@),
{
    let lo = trim_start_len(s);
    let out = sub_chars(s, lo, s.len());
    assert(out@ =~= s@.skip(lo as int));
    out
}

/// `str::trim`.
pub fn trim_chars(s: &[char]) -> (out: Vec<char>)
    ensures
        out@ == trim(s@),
{
    let t = trim_start_chars(s);
    let k = trim_end_len(&t);
    let out = sub_chars(&t, 0, k);
    assert(out@ =~= t@.take(k as int));
    out
}

/// `str::trim_start_matches(c)` for a single character `c`.
pub fn trim_start_char_chars(s: &[char], c: char) -> (out: Vec<char>)
    ensures
        out@ == trim_start_char(s@, c),
{
    let mut i: usize = 0;
    assert(s@.skip(0) =~= s@);
    while i < s.len() && s[i] == c
        invariant
            i <= s.len(),
            trim_start_char(s@.skip(i as int), c) == trim_start_char(s@, c),
        decreases s.len() - i,
    {
        assert(s@.skip(i as int).drop_first() =~= s@.skip(i + 1));
        i = i + 1;
    }
    let out = sub_chars(s, i, s.len());
    assert(out@ =~= s@.skip(i as int));
    out
}

/// Whether `p` occurs in `s` at position `i`.
pub fn matches_at_chars(s: &[char], i: usize, p: &[char]) -> (b: bool)
    ensures
        b == matches_at(s@, i as int, p@),
{
    if p.len() > s.len() || i > s.len() - p.len() {
        return false;
    }
    let mut k: usize = 0;
    while k < p.len()
        invariant
            k <= p.len(),
            i + p.len() <= s.len(),
            s@.subrange(i as int, i + k) == p@.take(k as int),
        decreases p.len() - k,
    {
        if s[i + k] != p[k] {
            assert(s@.subrange(i as int, i + p.len())[k as int] != p@[k as int]);
            return false;
        }
        assert(s@.subrange(i as int, i + k + 1) =~= s@.subrange(i as int, i + k).push(
            s@[i + k],
        ));
        assert(p@.take(k + 1) =~= p@.take(k as int).push(p@[k as int]));
        k = k + 1;
    }
    assert(p@.take(p.len() as int) =~= p@);
    true
}

/// Whether `s` begins with `p`.
pub fn starts_with_chars(s: &[char], p: &[char]) -> (b: bool)
    ensures
        b == starts_with(s@, p@),
{
    let b = matches_at_chars(s, 0, p);
    assert(s@.subrange(0, p@.len() as int) =~= s@.take(p@.len() as int));
    b
}

/// Whether `s` ends with `p`.
pub fn ends_with_chars(s: &[char], p: &[char]) -> (b: bool)
    ensures
        b == ends_with(s@, p@),
{
    if p.len() > s.len() {
        return false;
    }
    let b = matches_at_chars(s, s.len() - p.len(), p);
    assert(s@.subrange(s.len() - p.len(), s.len() as int) =~= s@.skip(s.len() - p.len()));
    b
}

/// The first position at or after `start` where `p` occurs in `s`.
pub fn find_from_chars(s: &[char], start: usize, p: &[char]) -> (r: Option<usize>)
    ensures
        match r {
            Some(k) => find_from(s@, start as int, p@) == Some(k as int),
            None => find_from(s@, start as int, p@) is None,
        },
{
    if p.len() > s.len() {
        return None;
    }
    if p.len() == 0 {
        if start <= s.len() {
            assert(s@.subrange(start as int, start as int) =~= p@);
            return Some(start);
        }
        return None;
    }
    let mut i = start;
    while i <= s.len() - p.len()
        invariant
            start <= i,
            1 <= p.len() <= s.len(),
            find_from(s@, i as int, p@) == find_from(s@, start as int, p@),
        decreases s.len() - i,
    {
        if matches_at_chars(s, i, p) {
            return Some(i);
        }
        i = i + 1;
    }
    None
}

/// `str::trim_end_matches(p)`.
pub fn trim_end_seq_chars(s: &[char], p: &[char]) -> (out: Vec<char>)
    ensures
        out@ == trim_end_seq(s@, p@),
{
    let mut cur = sub_chars(s, 0, s.len());
    assert(cur@ =~= s@);
    if p.len() == 0 {
        return cur;
    }
    while ends_with_chars(&cur, p)
        invariant
            p.len() > 0,
            trim_end_seq(cur@, p@) == trim_end_seq(s@, p@),
        decreases cur.len(),
    {
        let n = cur.len() - p.len();
        cur = sub_chars(&cur, 0, n);
    }
    cur
}

/// Splits `s` into its lines, as `str::lines` does.
#[verifier::rlimit(30)]
pub fn lines_of(s: &[char]) -> (out: Vec<Vec<char>>)
    ensures
        views(out@) == lines(s@),
{
    let mut out: Vec<Vec<char>> = Vec::new();
    let mut cur: Vec<char> = Vec::new();
    let mut seg: usize = 0;
    let mut i: usize = 0;
    let ghost nl = seq!['\n'];
    assert(s@.skip(0) =~= s@);
    while i < s.len()
        invariant
            seg <= i <= s.len(),
            nl == seq!['\n'],
            views(out@) + lines(s@.skip(seg as int)) == lines(s@),
            cur@ == s@.subrange(seg as int, i as int),
            forall|j: int| seg <= j < i ==> s@[j] != '\n',
        decreases s.len() - i,
    {
        if s[i] == '\n' {
            let ghost t = s@.skip(seg as int);
            let ghost k = i - seg;
            proof {
                assert(t.subrange(k, k + 1) =~= nl);
                assert forall|j: int| 0 <= j < k implies !matches_at(t, j, nl) by {
                    assert(t.subrange(j, j + 1)[0] == s@[seg + j]);
                }
                lemma_find_first(t, nl, k);
                assert(t.take(k) =~= cur@);
                assert(t.skip(k + 1) =~= s@.skip(i + 1));
            }
            let line = strip_cr_chars(&cur);
            let ghost before = out@;
            out.push(line);
            assert(views(out@) =~= views(before).push(line@));
            assert(views(out@) + lines(s@.skip(i + 1)) =~= views(before) + lines(t));
            cur = Vec::new();
            seg = i + 1;
        } else {
            cur.push(s[i]);
            assert(cur@ =~= s@.subrange(seg as int, i + 1));
        }
        i = i + 1;
    }
    let ghost t = s@.skip(seg as int);
    assert(t =~= cur@);
    if cur.len() > 0 {
        proof {
            lemma_find_from(t, 0, nl);
            if find(t, nl) is Some {
                let k = find(t, nl)->0;
                assert(t.subrange(k, k + 1)[0] == t[k]);
            }
        }
        let ghost before = out@;
        out.push(cur);
        assert(views(out@) =~= views(before) + lines(t));
    } else {
        assert(views(out@) =~= views(out@) + lines(t));
    }
    out
}

/// `l` without one trailing carriage return.
pub fn strip_cr_chars(l: &[char]) -> (out: Vec<char>)
    ensures
        out@ == strip_cr(l@),
{
    if l.len() > 0 && l[l.len() - 1] == '\r' {
        let out = sub_chars(l, 0, l.len() - 1);
        assert(out@ =~= l@.drop_last());
        out
    } else {
        let out = sub_chars(l, 0, l.len());
        assert(out@ =~= l@);
        out
    }
}

/// Whether two character slices are equal.
pub fn eq_chars(a: &[char], b: &[char]) -> (r: bool)
    ensures
        r == (a@ == b@),
{
    if a.len() != b.len() {
        return false;
    }
    let r = starts_with_chars(a, b);
    assert(a@.take(b@.len() as int) =~= a@);
    r
}

/// Whether the characters of `s` are those of the literal `lit`.
pub fn eq_str(s: &[char], lit: &str) -> (r: bool)
    ensures
        r == (s@ == lit@),
{
    let l = chars_of(lit);
    eq_chars(s, &l)
}

/// The characters of `a` followed by those of `b`.
pub fn str_then(a: &str, b: &[char]) -> (out: Vec<char>)
    ensures
        out@ == a@ + b@,
{
    let ac = chars_of(a);
    concat_chars(&ac, b)
}

/// The pieces of `s` between occurrences of the non-empty separator `sep`
/// (`str::split` with a string pattern).
pub open spec fn split(s: Seq<char>, sep: Seq<char>) -> Seq<Seq<char>>
    decreases s.len(),
{
    if sep.len() == 0 {
        seq![s]
    } else {
        match find(s, sep) {
            None => seq![s],
            Some(k) => {
                proof {
                    lemma_find_from(s, 0, sep);
                }
                seq![s.take(k)] + split(s.skip(k + sep.len()), sep)
            },
        }
    }
}

/// Searching from `pos + j` in `s` is searching from `j` in `s` past `pos`.
pub proof fn lemma_find_from_skip(s: Seq<char>, pos: int, j: int, p: Seq<char>)
    requires
        0 <= pos <= s.len(),
        0 <= j,
    ensures
        match find_from(s.skip(pos), j, p) {
            Some(k) => find_from(s, pos + j, p) == Some(pos + k),
            None => find_from(s, pos + j, p) is None,
        },
    decreases s.len() + 1 - (pos + j),
{
    let t = s.skip(pos);
    if j + p.len() > t.len() {
    } else {
        assert(t.subrange(j, j + p.len()) =~= s.subrange(pos + j, pos + j + p.len()));
        if !matches_at(t, j, p) {
            lemma_find_from_skip(s, pos, j + 1, p);
        }
    }
}

/// Splits `s` at every occurrence of the non-empty separator `sep`.
#[verifier::rlimit(30)]
pub fn split_chars(s: &[char], sep: &[char]) -> (out: Vec<Vec<char>>)
    requires
        sep.len() > 0,
    ensures
        views(out@) == split(s@, sep@),
{
    let mut out: Vec<Vec<char>> = Vec::new();
    let mut pos: usize = 0;
    assert(s@.skip(0) =~= s@);
    loop
        invariant
            pos <= s.len(),
            sep.len() > 0,
            views(out@) + split(s@.skip(pos as int), sep@) == split(s@, sep@),
        decreases s.len() - pos,
    {
        let ghost t = s@.skip(pos as int);
        let ghost before = views(out@);
        proof {
            lemma_find_from_skip(s@, pos as int, 0, sep@);
            lemma_find_from(t, 0, sep@);
        }
        match find_from_chars(s, pos, sep) {
            None => {
                let piece = sub_chars(s, pos, s.len());
                assert(piece@ =~= t);
                out.push(piece);
                assert(views(out@) =~= before + split(t, sep@));
                return out;
            },
            Some(k) => {
                let ghost k0 = k - pos;
                assert(find(t, sep@) == Some(k0));
                let piece = sub_chars(s, pos, k);
                assert(piece@ =~= t.take(k0));
                assert(t.skip(k0 + sep@.len()) =~= s@.skip(k + sep.len()));
                out.push(piece);
                assert(views(out@) + split(s@.skip(k + sep.len()), sep@) =~= before + split(
                    t,
                    sep@,
                ));
                pos = k + sep.len();
            },
        }
    }
}

/// The pieces joined with `sep` between consecutive ones (`[T]::join`).
pub open spec fn join(parts: Seq<Seq<char>>, sep: Seq<char>) -> Seq<char>
    decreases parts.len(),
{
    if parts.len() == 0 {
        seq![]
    } else if parts.len() == 1 {
        parts[0]
    } else {
        join(parts.drop_last(), sep) + sep + parts.last()
    }
}

/// Joins the pieces with `sep` between consecutive ones.
#[verifier::rlimit(30)]
pub fn join_chars(parts: &Vec<Vec<char>>, sep: &[char]) -> (out: Vec<char>)
    ensures
        out@ == join(views(parts@), sep@),
{
    let ghost pv = views(parts@);
    let mut out: Vec<char> = Vec::new();
    let mut i: usize = 0;
    while i < parts.len()
        invariant
            i <= parts.len(),
            pv == views(parts@),
            out@ == join(pv.take(i as int), sep@),
        decreases parts.len() - i,
    {
        assert(pv.take(i + 1).drop_last() =~= pv.take(i as int));
        assert(pv.take(i + 1).last() == parts@[i as int]@);
        if i == 0 {
            out = sub_chars(&parts[0], 0, parts[0].len());
            assert(out@ =~= parts@[0]@);
        } else {
            let with_sep = concat_chars(&out, sep);
            out = concat_chars(&with_sep, &parts[i]);
        }
        i = i + 1;
    }
    assert(pv.take(parts.len() as int) =~= pv);
    out
}

} // verus!

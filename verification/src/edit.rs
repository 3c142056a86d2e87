//! Line editing over UTF-8 byte offsets.
//!
//! The chat input keeps its cursor as a byte offset into the text, as
//! `String` indexing does; these definitions relate byte offsets to character
//! positions.
use vstd::prelude::*;

verus! {

/// The number of bytes UTF-8 takes for `c`.
pub open spec fn char_width(c: char) -> nat {
    let u = c as u32;
    if u < 0x80 {
        1
    } else if u < 0x800 {
        2
    } else if u < 0x10000 {
        3
    } else {
        4
    }
}

/// The number of bytes UTF-8 takes for `s` (`str::len`).
pub open spec fn byte_len(s: Seq<char>) -> nat
    decreases s.len(),
{
    if s.len() == 0 {
        0
    } else {
        byte_len(s.drop_last()) + char_width(s.last())
    }
}

/// Byte offset `b` falls between two characters of `s` (or at an end):
/// `str::is_char_boundary`.
pub open spec fn is_boundary(s: Seq<char>, b: int) -> bool {
    exists|k: int| 0 <= k <= s.len() && byte_len(s.take(k)) == b
}

/// The character position at byte offset `b` (meaningful when `b` is a
/// boundary).
pub open spec fn char_pos(s: Seq<char>, b: int) -> int {
    choose|k: int| 0 <= k <= s.len() && byte_len(s.take(k)) == b
}

/// Byte offsets grow strictly with character positions.
pub proof fn lemma_byte_len_prefix(s: Seq<char>, i: int, j: int)
    requires
        0 <= i < j <= s.len(),
    ensures
        byte_len(s.take(i)) < byte_len(s.take(j)),
    decreases j - i,
{
    assert(s.take(j).drop_last() =~= s.take(j - 1));
    if i < j - 1 {
        lemma_byte_len_prefix(s, i, j - 1);
    }
}

/// A boundary sits at exactly one character position.
pub proof fn lemma_char_pos(s: Seq<char>, k: int)
    requires
        0 <= k <= s.len(),
    ensures
        is_boundary(s, byte_len(s.take(k)) as int),
        char_pos(s, byte_len(s.take(k)) as int) == k,
{
    let b = byte_len(s.take(k)) as int;
    assert(0 <= k <= s.len() && byte_len(s.take(k)) == b);
    let c = char_pos(s, b);
    if c < k {
        lemma_byte_len_prefix(s, c, k);
    } else if c > k {
        lemma_byte_len_prefix(s, k, c);
    }
}

/// The byte length of a whole sequence is that of its full prefix.
pub proof fn lemma_take_all(s: Seq<char>)
    ensures
        s.take(s.len() as int) == s,
{
    assert(s.take(s.len() as int) =~= s);
}

/// Appending characters adds their byte lengths.
pub proof fn lemma_byte_len_concat(a: Seq<char>, b: Seq<char>)
    ensures
        byte_len(a + b) == byte_len(a) + byte_len(b),
    decreases b.len(),
{
    if b.len() > 0 {
        assert((a + b).drop_last() =~= a + b.drop_last());
        lemma_byte_len_concat(a, b.drop_last());
    } else {
        assert(a + b =~= a);
    }
}

/// The number of bytes of `c`.
pub fn width(c: char) -> (w: usize)
    ensures
        w == char_width(c),
{
    let u = c as u32;
    if u < 0x80 {
        1
    } else if u < 0x800 {
        2
    } else if u < 0x10000 {
        3
    } else {
        4
    }
}

/// The character position at byte offset `b`, when `b` is a boundary.
pub fn pos_of_byte(s: &[char], b: usize) -> (r: Option<usize>)
    ensures
        match r {
            Some(k) => k <= s.len() && byte_len(s@.take(k as int)) == b && is_boundary(s@, b as int)
                && char_pos(s@, b as int) == k,
            None => !is_boundary(s@, b as int),
        },
{
    let mut acc: usize = 0;
    let mut k: usize = 0;
    assert(s@.take(0) =~= Seq::<char>::empty());
    while k < s.len() && acc < b
        invariant
            k <= s.len(),
            acc == byte_len(s@.take(k as int)),
            acc <= b || k == 0,
            forall|j: int| 0 <= j < k ==> byte_len(s@.take(j)) < b,
        decreases s.len() - k,
    {
        assert(s@.take(k + 1).drop_last() =~= s@.take(k as int));
        assert(s@.take(k + 1).last() == s@[k as int]);
        let w = width(s[k]);
        if w > b - acc {
            proof {
                assert forall|j: int| 0 <= j <= s.len() implies byte_len(s@.take(j)) != b by {
                    if j > k {
                        if j > k + 1 {
                            lemma_byte_len_prefix(s@, k + 1, j);
                        }
                    }
                }
            }
            return None;
        }
        acc = acc + w;
        k = k + 1;
    }
    if acc == b {
        proof {
            lemma_char_pos(s@, k as int);
        }
        Some(k)
    } else {
        proof {
            assert forall|j: int| 0 <= j <= s.len() implies byte_len(s@.take(j)) != b by {
                if j > k {
                    lemma_byte_len_prefix(s@, k as int, j);
                } else if j == k {
                } else {
                }
            }
        }
        None
    }
}

/// The byte length of `s`.
pub fn byte_len_of(s: &[char]) -> (n: usize)
    requires
        byte_len(s@) <= usize::MAX,
    ensures
        n == byte_len(s@),
{
    let mut acc: usize = 0;
    let mut k: usize = 0;
    assert(s@.take(0) =~= Seq::<char>::empty());
    while k < s.len()
        invariant
            k <= s.len(),
            byte_len(s@) <= usize::MAX,
            acc == byte_len(s@.take(k as int)),
        decreases s.len() - k,
    {
        assert(s@.take(k + 1).drop_last() =~= s@.take(k as int));
        assert(s@.take(k + 1).last() == s@[k as int]);
        proof {
            if k + 1 < s.len() {
                lemma_byte_len_prefix(s@, k + 1, s.len() as int);
            }
            lemma_take_all(s@);
        }
        acc = acc + width(s[k]);
        k = k + 1;
    }
    proof {
        lemma_take_all(s@);
    }
    acc
}

} // verus!

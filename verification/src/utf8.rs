//! Byte offsets into UTF-8 text. A `String` is viewed as its characters;
//! the byte offset of a character position is the sum of the encoded
//! widths of the characters before it.

use vstd::prelude::*;
use vstd::string::*;
use vstd::utf8::{char_is_scalar, encode_scalar, encode_utf8};

verus! {

/// Bytes in the UTF-8 encoding of `c` (`char::len_utf8`).
pub open spec fn width(c: char) -> nat {
    let u = c as u32;
    if u < 0x80 {
        1
    } else if u < 0x800 {
        2
    } else if u < 0x10000 {
        3
    } else {
        4
    }
}

/// Bytes in the UTF-8 encoding of `s` (`str::len`).
pub open spec fn byte_len(s: Seq<char>) -> nat
    decreases s.len(),
{
    if s.len() == 0 {
        0
    } else {
        byte_len(s.drop_last()) + width(s.last())
    }
}

/// The byte offset of character position `k`.
pub open spec fn offset(s: Seq<char>, k: int) -> nat {
    byte_len(s.take(k))
}

/// The number of leading characters that fit in `b` bytes.
pub open spec fn floor_idx(s: Seq<char>, b: int) -> nat
    decreases s.len(),
{
    if s.len() == 0 {
        0
    } else if byte_len(s) <= b {
        s.len()
    } else {
        floor_idx(s.drop_last(), b)
    }
}

/// `b` is the offset of a character position (`str::is_char_boundary`).
pub open spec fn is_boundary(s: Seq<char>, b: int) -> bool {
    0 <= b && offset(s, floor_idx(s, b) as int) == b
}

/// `char::len_utf8`.
pub fn char_width(c: char) -> (r: usize)
    ensures
        r == width(c),
        1 <= r <= 4,
{
    let u = c as u32;
    if u < 0x80 {
        1
    } else if u < 0x800 {
        2
    } else if u < 0x10000 {
        3
    } else {
        4
    }
}

proof fn lemma_byte_len_front(c: char, t: Seq<char>)
    ensures
        byte_len(seq![c] + t) == width(c) + byte_len(t),
    decreases t.len(),
{
    let s = seq![c] + t;
    if t.len() == 0 {
        assert(s.drop_last() =~= Seq::<char>::empty());
        assert(s.last() == c);
        assert(byte_len(Seq::<char>::empty()) == 0);
    } else {
        assert(s.drop_last() =~= seq![c] + t.drop_last());
        assert(s.last() == t.last());
        lemma_byte_len_front(c, t.drop_last());
        assert(byte_len(t) == byte_len(t.drop_last()) + width(t.last()));
    }
}

/// The UTF-8 encoding of a text has `byte_len` bytes.
proof fn lemma_encode_len(s: Seq<char>)
    ensures
        encode_utf8(s).len() == byte_len(s),
    decreases s.len(),
{
    if s.len() > 0 {
        let c = s[0];
        char_is_scalar(c);
        assert(encode_scalar(c as u32).len() == width(c));
        lemma_encode_len(s.drop_first());
        assert(s =~= seq![c] + s.drop_first());
        lemma_byte_len_front(c, s.drop_first());
    }
}

/// `str::len`: the byte length of a string.
pub fn str_byte_len(s: &str) -> (r: usize)
    ensures
        r == byte_len(s@),
{
    let n = s.as_bytes().len();
    proof {
        lemma_encode_len(s@);
    }
    n
}

pub proof fn lemma_offset_step(s: Seq<char>, k: int)
    requires
        0 <= k < s.len(),
    ensures
        offset(s, k + 1) == offset(s, k) + width(s[k]),
{
    assert(s.take(k + 1).drop_last() =~= s.take(k));
}

pub proof fn lemma_offset_strict(s: Seq<char>, j: int, k: int)
    requires
        0 <= j <= k <= s.len(),
    ensures
        offset(s, j) <= offset(s, k),
        j < k ==> offset(s, j) < offset(s, k),
    decreases k - j,
{
    if j < k {
        lemma_offset_step(s, k - 1);
        lemma_offset_strict(s, j, k - 1);
    }
}

pub proof fn lemma_offset_mono(s: Seq<char>, j: int, k: int)
    requires
        0 <= j <= k <= s.len(),
    ensures
        offset(s, j) <= offset(s, k),
        j < k ==> offset(s, j) < offset(s, k),
        offset(s, k) <= byte_len(s),
{
    assert(s.take(s.len() as int) =~= s);
    lemma_offset_strict(s, j, k);
    lemma_offset_strict(s, k, s.len() as int);
}

pub proof fn lemma_offset_drop_last(s: Seq<char>, k: int)
    requires
        s.len() > 0,
        0 <= k < s.len(),
    ensures
        offset(s.drop_last(), k) == offset(s, k),
{
    assert(s.drop_last().take(k) =~= s.take(k));
}

/// `floor_idx` is the unique position whose offset fits in `b` while the
/// next one does not.
pub proof fn lemma_floor_idx(s: Seq<char>, b: int)
    requires
        b >= 0,
    ensures
        floor_idx(s, b) <= s.len(),
        offset(s, floor_idx(s, b) as int) <= b,
        floor_idx(s, b) < s.len() ==> offset(s, floor_idx(s, b) + 1int) > b,
    decreases s.len(),
{
    assert(s.take(s.len() as int) =~= s);
    if s.len() == 0 {
    } else if byte_len(s) <= b {
    } else {
        let t = s.drop_last();
        lemma_floor_idx(t, b);
        let k = floor_idx(t, b) as int;
        lemma_offset_drop_last(s, k);
        if k < t.len() {
            lemma_offset_drop_last(s, k + 1);
        } else {
            assert(s.take(k + 1) =~= s);
        }
    }
}

pub proof fn lemma_floor_idx_unique(s: Seq<char>, b: int, k: int)
    requires
        b >= 0,
        0 <= k <= s.len(),
        offset(s, k) <= b,
        k < s.len() ==> offset(s, k + 1) > b,
    ensures
        floor_idx(s, b) == k,
{
    lemma_floor_idx(s, b);
    let f = floor_idx(s, b) as int;
    if f < k {
        lemma_offset_mono(s, f + 1, k);
    } else if k < f {
        lemma_offset_mono(s, k + 1, f);
    }
}

/// The position of the character that starts at byte `b`, for a boundary.
pub proof fn lemma_boundary_idx(s: Seq<char>, k: int)
    requires
        0 <= k <= s.len(),
    ensures
        floor_idx(s, offset(s, k) as int) == k,
        is_boundary(s, offset(s, k) as int),
{
    if k < s.len() {
        lemma_offset_step(s, k);
    }
    lemma_floor_idx_unique(s, offset(s, k) as int, k);
}

/// The number of leading characters of `s` that fit in `b` bytes,
/// counted from the front.
pub fn floor_idx_exec(s: &Vec<char>, b: usize) -> (r: usize)
    ensures
        r == floor_idx(s@, b as int),
        r <= s.len(),
        offset(s@, r as int) <= b,
{
    let mut i: usize = 0;
    let mut acc: usize = 0;
    proof {
        assert(s@.take(0) =~= Seq::<char>::empty());
    }
    while i < s.len() && char_width(s[i]) <= b - acc
        invariant
            i <= s.len(),
            acc == offset(s@, i as int),
            acc <= b,
        decreases s.len() - i,
    {
        proof {
            lemma_offset_step(s@, i as int);
        }
        acc = acc + char_width(s[i]);
        i = i + 1;
    }
    proof {
        if i < s.len() {
            lemma_offset_step(s@, i as int);
        }
        lemma_floor_idx_unique(s@, b as int, i as int);
    }
    i
}

/// The byte offset of character position `k`.
pub fn offset_exec(s: &Vec<char>, k: usize, total: usize) -> (r: usize)
    requires
        k <= s.len(),
        total == byte_len(s@),
    ensures
        r == offset(s@, k as int),
{
    let mut i: usize = 0;
    let mut acc: usize = 0;
    proof {
        assert(s@.take(0) =~= Seq::<char>::empty());
    }
    while i < k
        invariant
            i <= k <= s.len(),
            total == byte_len(s@),
            acc == offset(s@, i as int),
        decreases k - i,
    {
        proof {
            lemma_offset_step(s@, i as int);
            lemma_offset_mono(s@, i + 1, s.len() as int);
        }
        acc = acc + char_width(s[i]);
        i = i + 1;
    }
    acc
}

} // verus!

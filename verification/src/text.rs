//! Character-sequence primitives shared by every text format of the
//! library: whitespace, trimming, prefixes, searching, replacing and
//! line splitting. Each executable helper is proved equal to a spec
//! function over `Seq<char>`.

use vstd::prelude::*;

verus! {

/// Unicode `White_Space`, as `char::is_whitespace` defines it.
pub open spec fn is_ws(c: char) -> bool {
    let u = c as u32;
    ||| (0x9 <= u && u <= 0xD)
    ||| u == 0x20
    ||| u == 0x85
    ||| u == 0xA0
    ||| u == 0x1680
    ||| (0x2000 <= u && u <= 0x200A)
    ||| u == 0x2028
    ||| u == 0x2029
    ||| u == 0x202F
    ||| u == 0x205F
    ||| u == 0x3000
}

/// Whitespace test on one character.
pub fn char_is_ws(c: char) -> (r: bool)
    ensures
        r == is_ws(c),
{
    let u = c as u32;
    (0x9 <= u && u <= 0xD) || u == 0x20 || u == 0x85 || u == 0xA0 || u == 0x1680 || (0x2000
        <= u && u <= 0x200A) || u == 0x2028 || u == 0x2029 || u == 0x202F || u == 0x205F || u
        == 0x3000
}

/// Append one character to a string.
#[verifier::external_body]
pub(crate) fn push_char(s: &mut String, c: char)
    ensures
        final(s)@ == old(s)@.push(c),
{
    s.push(c);
}

/// Removes the last character of a string, if there is one.
#[verifier::external_body]
pub(crate) fn pop_char(s: &mut String) -> (r: Option<char>)
    ensures
        old(s)@.len() == 0 ==> r is None && final(s)@ == old(s)@,
        old(s)@.len() > 0 ==> r == Some(old(s)@.last()) && final(s)@ == old(s)@.drop_last(),
{
    s.pop()
}

/// A string with the same characters as `s`.
pub fn copy_string(s: &String) -> (r: String)
    ensures
        r@ == s@,
{
    string_of(&chars_of(s.as_str()))
}

/// The characters of a string.
pub fn chars_of(s: &str) -> (r: Vec<char>)
    ensures
        r@ == s@,
{
    let mut out: Vec<char> = Vec::new();
    for c in it: s.chars()
        invariant
            out@ == it.seq().take(it.index()),
    {
        out.push(c);
    }
    proof {
        assert(out@ =~= s@);
    }
    out
}

/// A string holding the given characters.
pub fn string_of(s: &Vec<char>) -> (r: String)
    ensures
        r@ == s@,
{
    let mut out = String::new();
    let mut i: usize = 0;
    while i < s.len()
        invariant
            i <= s.len(),
            out@ == s@.take(i as int),
        decreases s.len() - i,
    {
        push_char(&mut out, s[i]);
        i = i + 1;
        proof {
            assert(out@ =~= s@.take(i as int));
        }
    }
    proof {
        assert(out@ =~= s@);
    }
    out
}

/// Copy of `s[lo..hi]`.
pub fn slice(s: &Vec<char>, lo: usize, hi: usize) -> (r: Vec<char>)
    requires
        lo <= hi <= s.len(),
    ensures
        r@ == s@.subrange(lo as int, hi as int),
{
    let mut out: Vec<char> = Vec::new();
    let mut i: usize = lo;
    while i < hi
        invariant
            lo <= i <= hi <= s.len(),
            out@ == s@.subrange(lo as int, i as int),
        decreases hi - i,
    {
        out.push(s[i]);
        i = i + 1;
        proof {
            assert(out@ =~= s@.subrange(lo as int, i as int));
        }
    }
    out
}

/// A copy of `v`.
pub fn copy_chars(v: &Vec<char>) -> (r: Vec<char>)
    ensures
        r@ == v@,
{
    let r = slice(v, 0, v.len());
    proof {
        assert(r@ =~= v@);
    }
    r
}

/// `a` followed by `b`.
pub fn concat(a: &Vec<char>, b: &Vec<char>) -> (r: Vec<char>)
    ensures
        r@ == a@ + b@,
{
    let mut out = a.clone();
    let mut i: usize = 0;
    while i < b.len()
        invariant
            i <= b.len(),
            out@ == a@ + b@.take(i as int),
        decreases b.len() - i,
    {
        out.push(b[i]);
        i = i + 1;
        proof {
            assert(out@ =~= a@ + b@.take(i as int));
        }
    }
    proof {
        assert(b@.take(b.len() as int) =~= b@);
    }
    out
}

/// Appends `b` to `a` in place.
pub fn append(a: &mut Vec<char>, b: &Vec<char>)
    ensures
        final(a)@ == old(a)@ + b@,
{
    let mut i: usize = 0;
    while i < b.len()
        invariant
            i <= b.len(),
            a@ == old(a)@ + b@.take(i as int),
        decreases b.len() - i,
    {
        a.push(b[i]);
        i = i + 1;
        proof {
            assert(a@ =~= old(a)@ + b@.take(i as int));
        }
    }
    proof {
        assert(b@.take(b.len() as int) =~= b@);
    }
}

/// Equality of two character vectors.
pub fn eq(a: &Vec<char>, b: &Vec<char>) -> (r: bool)
    ensures
        r == (a@ == b@),
{
    if a.len() != b.len() {
        return false;
    }
    let mut i: usize = 0;
    while i < a.len()
        invariant
            a.len() == b.len(),
            i <= a.len(),
            forall|k: int| 0 <= k < i ==> a@[k] == b@[k],
        decreases a.len() - i,
    {
        if a[i] != b[i] {
            return false;
        }
        i = i + 1;
    }
    proof {
        assert(a@ =~= b@);
    }
    true
}

// ---------------------------------------------------------------------
// Leading and trailing runs.

/// Number of leading whitespace characters.
pub open spec fn lead_ws(s: Seq<char>) -> nat
    decreases s.len(),
{
    if s.len() > 0 && is_ws(s[0]) {
        1 + lead_ws(s.drop_first())
    } else {
        0
    }
}

/// Number of trailing whitespace characters.
pub open spec fn trail_ws(s: Seq<char>) -> nat
    decreases s.len(),
{
    if s.len() > 0 && is_ws(s.last()) {
        1 + trail_ws(s.drop_last())
    } else {
        0
    }
}

/// Number of leading copies of `c`.
pub open spec fn lead_ch(s: Seq<char>, c: char) -> nat
    decreases s.len(),
{
    if s.len() > 0 && s[0] == c {
        1 + lead_ch(s.drop_first(), c)
    } else {
        0
    }
}

/// Number of trailing copies of `c`.
pub open spec fn trail_ch(s: Seq<char>, c: char) -> nat
    decreases s.len(),
{
    if s.len() > 0 && s.last() == c {
        1 + trail_ch(s.drop_last(), c)
    } else {
        0
    }
}

pub proof fn lemma_lead_ws_bound(s: Seq<char>)
    ensures
        lead_ws(s) <= s.len(),
    decreases s.len(),
{
    if s.len() > 0 && is_ws(s[0]) {
        lemma_lead_ws_bound(s.drop_first());
    }
}

pub proof fn lemma_trail_ws_bound(s: Seq<char>)
    ensures
        trail_ws(s) <= s.len(),
    decreases s.len(),
{
    if s.len() > 0 && is_ws(s.last()) {
        lemma_trail_ws_bound(s.drop_last());
    }
}

pub proof fn lemma_lead_ch_bound(s: Seq<char>, c: char)
    ensures
        lead_ch(s, c) <= s.len(),
    decreases s.len(),
{
    if s.len() > 0 && s[0] == c {
        lemma_lead_ch_bound(s.drop_first(), c);
    }
}

pub proof fn lemma_trail_ch_bound(s: Seq<char>, c: char)
    ensures
        trail_ch(s, c) <= s.len(),
    decreases s.len(),
{
    if s.len() > 0 && s.last() == c {
        lemma_trail_ch_bound(s.drop_last(), c);
    }
}

/// `s` without leading whitespace (`str::trim_start`).
pub open spec fn trim_start(s: Seq<char>) -> Seq<char> {
    s.skip(lead_ws(s) as int)
}

/// `s` without trailing whitespace (`str::trim_end`).
pub open spec fn trim_end(s: Seq<char>) -> Seq<char> {
    s.take(s.len() - trail_ws(s))
}

/// `s` without surrounding whitespace (`str::trim`).
pub open spec fn trim(s: Seq<char>) -> Seq<char> {
    trim_end(trim_start(s))
}

/// `s` without leading copies of `c`.
pub open spec fn trim_start_ch(s: Seq<char>, c: char) -> Seq<char> {
    s.skip(lead_ch(s, c) as int)
}

/// `s` without trailing copies of `c`.
pub open spec fn trim_end_ch(s: Seq<char>, c: char) -> Seq<char> {
    s.take(s.len() - trail_ch(s, c))
}

/// `s` without surrounding copies of `c` (`str::trim_matches(c)`).
pub open spec fn trim_ch(s: Seq<char>, c: char) -> Seq<char> {
    trim_end_ch(trim_start_ch(s, c), c)
}

/// Count of leading whitespace.
pub fn count_lead_ws(s: &Vec<char>) -> (r: usize)
    ensures
        r == lead_ws(s@),
        r <= s.len(),
{
    let mut i: usize = 0;
    proof {
        assert(s@.skip(0) =~= s@);
    }
    while i < s.len() && char_is_ws(s[i])
        invariant
            i <= s.len(),
            lead_ws(s@) == i + lead_ws(s@.skip(i as int)),
        decreases s.len() - i,
    {
        proof {
            assert(s@.skip(i as int).drop_first() =~= s@.skip(i + 1));
        }
        i = i + 1;
    }
    i
}

/// Count of trailing whitespace.
pub fn count_trail_ws(s: &Vec<char>) -> (r: usize)
    ensures
        r == trail_ws(s@),
        r <= s.len(),
{
    let mut j: usize = s.len();
    proof {
        assert(s@.take(s.len() as int) =~= s@);
    }
    while j > 0 && char_is_ws(s[j - 1])
        invariant
            j <= s.len(),
            trail_ws(s@) == (s.len() - j) + trail_ws(s@.take(j as int)),
        decreases j,
    {
        proof {
            assert(s@.take(j as int).drop_last() =~= s@.take(j - 1));
        }
        j = j - 1;
    }
    s.len() - j
}

/// Count of leading copies of `c`.
pub fn count_lead_ch(s: &Vec<char>, c: char) -> (r: usize)
    ensures
        r == lead_ch(s@, c),
        r <= s.len(),
{
    let mut i: usize = 0;
    proof {
        assert(s@.skip(0) =~= s@);
    }
    while i < s.len() && s[i] == c
        invariant
            i <= s.len(),
            lead_ch(s@, c) == i + lead_ch(s@.skip(i as int), c),
        decreases s.len() - i,
    {
        proof {
            assert(s@.skip(i as int).drop_first() =~= s@.skip(i + 1));
        }
        i = i + 1;
    }
    i
}

/// Count of trailing copies of `c`.
pub fn count_trail_ch(s: &Vec<char>, c: char) -> (r: usize)
    ensures
        r == trail_ch(s@, c),
        r <= s.len(),
{
    let mut j: usize = s.len();
    proof {
        assert(s@.take(s.len() as int) =~= s@);
    }
    while j > 0 && s[j - 1] == c
        invariant
            j <= s.len(),
            trail_ch(s@, c) == (s.len() - j) + trail_ch(s@.take(j as int), c),
        decreases j,
    {
        proof {
            assert(s@.take(j as int).drop_last() =~= s@.take(j - 1));
        }
        j = j - 1;
    }
    s.len() - j
}

/// `str::trim_start`.
pub fn v_trim_start(s: &Vec<char>) -> (r: Vec<char>)
    ensures
        r@ == trim_start(s@),
{
    let k = count_lead_ws(s);
    slice(s, k, s.len())
}

/// `str::trim_end`.
pub fn v_trim_end(s: &Vec<char>) -> (r: Vec<char>)
    ensures
        r@ == trim_end(s@),
{
    let k = count_trail_ws(s);
    slice(s, 0, s.len() - k)
}

/// `str::trim`.
pub fn v_trim(s: &Vec<char>) -> (r: Vec<char>)
    ensures
        r@ == trim(s@),
{
    let a = v_trim_start(s);
    v_trim_end(&a)
}

/// `str::trim_start_matches(c)`.
pub fn v_trim_start_ch(s: &Vec<char>, c: char) -> (r: Vec<char>)
    ensures
        r@ == trim_start_ch(s@, c),
{
    let k = count_lead_ch(s, c);
    slice(s, k, s.len())
}

/// `str::trim_end_matches(c)`.
pub fn v_trim_end_ch(s: &Vec<char>, c: char) -> (r: Vec<char>)
    ensures
        r@ == trim_end_ch(s@, c),
{
    let k = count_trail_ch(s, c);
    slice(s, 0, s.len() - k)
}

/// `str::trim_matches(c)`.
pub fn v_trim_ch(s: &Vec<char>, c: char) -> (r: Vec<char>)
    ensures
        r@ == trim_ch(s@, c),
{
    let a = v_trim_start_ch(s, c);
    v_trim_end_ch(&a, c)
}

// ---------------------------------------------------------------------
// Prefixes, suffixes, searching.

/// `s` begins with `p`.
pub open spec fn has_prefix(s: Seq<char>, p: Seq<char>) -> bool {
    p.len() <= s.len() && s.take(p.len() as int) == p
}

/// `s` ends with `p`.
pub open spec fn has_suffix(s: Seq<char>, p: Seq<char>) -> bool {
    p.len() <= s.len() && s.skip(s.len() - p.len()) == p
}

/// `p` occurs in `s` at index `i`.
pub open spec fn occurs_at(s: Seq<char>, p: Seq<char>, i: int) -> bool {
    0 <= i && i + p.len() <= s.len() && s.subrange(i, i + p.len()) == p
}

/// First index at or after `i` where `p` occurs in `s`.
pub open spec fn find_from(s: Seq<char>, p: Seq<char>, i: int) -> Option<int>
    decreases s.len() + 1 - i,
{
    if i < 0 || i + p.len() > s.len() {
        None
    } else if occurs_at(s, p, i) {
        Some(i)
    } else {
        find_from(s, p, i + 1)
    }
}

/// First index where `p` occurs in `s` (`str::find`).
pub open spec fn find(s: Seq<char>, p: Seq<char>) -> Option<int> {
    find_from(s, p, 0)
}

/// `s` contains `p` (`str::contains`).
pub open spec fn contains(s: Seq<char>, p: Seq<char>) -> bool {
    find(s, p) is Some
}

pub proof fn lemma_find_from_props(s: Seq<char>, p: Seq<char>, i: int)
    requires
        0 <= i,
    ensures
        find_from(s, p, i) matches Some(k) ==> i <= k && occurs_at(s, p, k) && (forall|j: int|
            i <= j < k ==> !occurs_at(s, p, j)),
        find_from(s, p, i) is None ==> forall|j: int| i <= j ==> !occurs_at(s, p, j),
    decreases s.len() + 1 - i,
{
    if i + p.len() > s.len() {
    } else if occurs_at(s, p, i) {
    } else {
        lemma_find_from_props(s, p, i + 1);
    }
}

/// `s` begins with `p`.
pub fn starts_with(s: &Vec<char>, p: &Vec<char>) -> (r: bool)
    ensures
        r == has_prefix(s@, p@),
{
    if p.len() > s.len() {
        return false;
    }
    let mut i: usize = 0;
    while i < p.len()
        invariant
            p.len() <= s.len(),
            i <= p.len(),
            forall|k: int| 0 <= k < i ==> s@[k] == p@[k],
        decreases p.len() - i,
    {
        if s[i] != p[i] {
            proof {
                assert(s@.take(p.len() as int)[i as int] != p@[i as int]);
            }
            return false;
        }
        i = i + 1;
    }
    proof {
        assert(s@.take(p.len() as int) =~= p@);
    }
    true
}

/// `s` ends with `p`.
pub fn ends_with(s: &Vec<char>, p: &Vec<char>) -> (r: bool)
    ensures
        r == has_suffix(s@, p@),
{
    if p.len() > s.len() {
        return false;
    }
    let off = s.len() - p.len();
    let mut i: usize = 0;
    while i < p.len()
        invariant
            p.len() <= s.len(),
            off == s.len() - p.len(),
            i <= p.len(),
            forall|k: int| 0 <= k < i ==> s@[off + k] == p@[k],
        decreases p.len() - i,
    {
        if s[off + i] != p[i] {
            proof {
                assert(s@.skip(off as int)[i as int] != p@[i as int]);
            }
            return false;
        }
        i = i + 1;
    }
    proof {
        assert(s@.skip(off as int) =~= p@);
    }
    true
}

/// `p` occurs in `s` at `i`.
pub fn occurs_at_exec(s: &Vec<char>, p: &Vec<char>, i: usize) -> (r: bool)
    ensures
        r == occurs_at(s@, p@, i as int),
{
    if i > s.len() || p.len() > s.len() - i {
        return false;
    }
    let mut k: usize = 0;
    while k < p.len()
        invariant
            i + p.len() <= s.len(),
            k <= p.len(),
            forall|j: int| 0 <= j < k ==> s@[i + j] == p@[j],
        decreases p.len() - k,
    {
        if s[i + k] != p[k] {
            proof {
                assert(s@.subrange(i as int, i + p.len())[k as int] != p@[k as int]);
            }
            return false;
        }
        k = k + 1;
    }
    proof {
        assert(s@.subrange(i as int, i + p.len()) =~= p@);
    }
    true
}

/// First occurrence of `p` in `s` (`str::find`).
pub fn find_exec(s: &Vec<char>, p: &Vec<char>) -> (r: Option<usize>)
    ensures
        r is Some <==> find(s@, p@) is Some,
        r matches Some(k) ==> find(s@, p@) == Some(k as int),
{
    if p.len() > s.len() {
        return None;
    }
    let last = s.len() - p.len();
    let mut i: usize = 0;
    loop
        invariant
            last == s.len() - p.len(),
            i <= last,
            find(s@, p@) == find_from(s@, p@, i as int),
        decreases last - i,
    {
        if occurs_at_exec(s, p, i) {
            return Some(i);
        }
        if i == last {
            assert(find_from(s@, p@, i + 1) is None);
            return None;
        }
        i = i + 1;
    }
}

/// `s` contains `p`.
pub fn contains_exec(s: &Vec<char>, p: &Vec<char>) -> (r: bool)
    ensures
        r == contains(s@, p@),
{
    find_exec(s, p).is_some()
}

/// `s` split around the first occurrence of `p` (`str::split_once`).
pub open spec fn split_once(s: Seq<char>, p: Seq<char>) -> Option<(Seq<char>, Seq<char>)> {
    match find(s, p) {
        Some(i) => Some((s.take(i), s.skip(i + p.len()))),
        None => None,
    }
}

/// `str::split_once`.
pub fn split_once_exec(s: &Vec<char>, p: &Vec<char>) -> (r: Option<(Vec<char>, Vec<char>)>)
    ensures
        r is Some <==> split_once(s@, p@) is Some,
        r matches Some(pair) ==> split_once(s@, p@) == Some((pair.0@, pair.1@)),
{
    match find_exec(s, p) {
        Some(i) => {
            proof {
                lemma_find_from_props(s@, p@, 0);
                assert(occurs_at(s@, p@, i as int));
                assert(i + p@.len() <= s@.len());
            }
            let plen = p.len();
            assert(i + plen <= s.len());
            let j: usize = i + plen;
            let a = slice(s, 0, i);
            let b = slice(s, j, s.len());
            proof {
                assert(a@ =~= s@.take(i as int));
                assert(b@ =~= s@.skip(i + p.len()));
            }
            Some((a, b))
        },
        None => None,
    }
}

/// `s` with the prefix `p` removed (`str::strip_prefix`).
pub open spec fn strip_prefix(s: Seq<char>, p: Seq<char>) -> Option<Seq<char>> {
    if has_prefix(s, p) {
        Some(s.skip(p.len() as int))
    } else {
        None
    }
}

/// `str::strip_prefix`.
pub fn strip_prefix_exec(s: &Vec<char>, p: &Vec<char>) -> (r: Option<Vec<char>>)
    ensures
        r is Some <==> strip_prefix(s@, p@) is Some,
        r matches Some(v) ==> strip_prefix(s@, p@) == Some(v@),
{
    if starts_with(s, p) {
        Some(slice(s, p.len(), s.len()))
    } else {
        None
    }
}

/// `s` with every leading copy of `p` removed (`str::trim_start_matches(p)`).
pub open spec fn strip_all_prefix(s: Seq<char>, p: Seq<char>) -> Seq<char>
    decreases s.len(),
{
    if p.len() > 0 && has_prefix(s, p) {
        strip_all_prefix(s.skip(p.len() as int), p)
    } else {
        s
    }
}

/// `str::trim_start_matches` with a string pattern.
pub fn strip_all_prefix_exec(s: &Vec<char>, p: &Vec<char>) -> (r: Vec<char>)
    ensures
        r@ == strip_all_prefix(s@, p@),
{
    let mut cur = s.clone();
    if p.len() == 0 {
        return cur;
    }
    while starts_with(&cur, p)
        invariant
            p.len() > 0,
            strip_all_prefix(s@, p@) == strip_all_prefix(cur@, p@),
        decreases cur.len(),
    {
        cur = slice(&cur, p.len(), cur.len());
    }
    cur
}

/// Code of the ASCII lowercase of one character.
pub open spec fn ascii_lower(c: char) -> u32 {
    if 'A' <= c && c <= 'Z' {
        ((c as u32) + 32) as u32
    } else {
        c as u32
    }
}

/// `str::eq_ignore_ascii_case`.
pub open spec fn eq_ignore_case(a: Seq<char>, b: Seq<char>) -> bool {
    a.len() == b.len() && forall|i: int| 0 <= i < a.len() ==> ascii_lower(a[i]) == ascii_lower(b[i])
}

/// Code of the ASCII lowercase of one character.
pub fn ascii_lower_exec(c: char) -> (r: u32)
    ensures
        r == ascii_lower(c),
{
    if 'A' <= c && c <= 'Z' {
        (c as u32) + 32
    } else {
        c as u32
    }
}

/// `str::eq_ignore_ascii_case`.
pub fn eq_ignore_case_exec(a: &Vec<char>, b: &Vec<char>) -> (r: bool)
    ensures
        r == eq_ignore_case(a@, b@),
{
    if a.len() != b.len() {
        return false;
    }
    let mut i: usize = 0;
    while i < a.len()
        invariant
            a.len() == b.len(),
            i <= a.len(),
            forall|k: int| 0 <= k < i ==> ascii_lower(a@[k]) == ascii_lower(b@[k]),
        decreases a.len() - i,
    {
        if ascii_lower_exec(a[i]) != ascii_lower_exec(b[i]) {
            return false;
        }
        i = i + 1;
    }
    true
}

// ---------------------------------------------------------------------
// Lines, joining, replacing.

/// `s` without one trailing carriage return.
pub open spec fn strip_cr(s: Seq<char>) -> Seq<char> {
    if s.len() > 0 && s.last() == '\r' {
        s.drop_last()
    } else {
        s
    }
}

/// The lines of `s` (`str::lines`): split at `\n`, a `\r` right before
/// the `\n` dropped, and no empty last line for a trailing `\n`.
pub open spec fn lines(s: Seq<char>) -> Seq<Seq<char>>
    decreases s.len(),
{
    if s.len() == 0 {
        Seq::empty()
    } else if let Some(i) = find(s, seq!['\n']) {
        proof {
            lemma_find_from_props(s, seq!['\n'], 0);
        }
        seq![strip_cr(s.take(i))] + lines(s.skip(i + 1))
    } else {
        seq![s]
    }
}

/// The views of a vector of character vectors.
pub open spec fn views(v: Seq<Vec<char>>) -> Seq<Seq<char>> {
    v.map_values(|x: Vec<char>| x@)
}

/// `str::lines`.
pub fn lines_exec(s: &Vec<char>) -> (r: Vec<Vec<char>>)
    ensures
        views(r@) == lines(s@),
{
    let nl: Vec<char> = vec!['\n'];
    let mut rest = s.clone();
    let mut out: Vec<Vec<char>> = Vec::new();
    while rest.len() > 0
        invariant
            nl@ == seq!['\n'],
            lines(s@) == views(out@) + lines(rest@),
        decreases rest.len(),
    {
        match find_exec(&rest, &nl) {
            Some(i) => {
                proof {
                    lemma_find_from_props(rest@, nl@, 0);
                    assert(occurs_at(rest@, nl@, i as int));
                }
                let mut head = slice(&rest, 0, i);
                if head.len() > 0 && head[head.len() - 1] == '\r' {
                    head.pop();
                }
                assert(head@ == strip_cr(rest@.take(i as int)));
                let tail = slice(&rest, i + 1, rest.len());
                proof {
                    assert(views(out@.push(head)) =~= views(out@).push(head@));
                    assert(lines(rest@) == seq![head@] + lines(tail@));
                    assert(views(out@).push(head@) + lines(tail@) =~= views(out@) + (seq![
                        head@,
                    ] + lines(tail@)));
                }
                out.push(head);
                rest = tail;
            },
            None => {
                let last = rest.clone();
                proof {
                    assert(views(out@.push(last)) =~= views(out@).push(last@));
                    assert(lines(Seq::<char>::empty()) == Seq::<Seq<char>>::empty());
                    assert(views(out@).push(last@) + Seq::<Seq<char>>::empty() =~= views(out@)
                        + seq![last@]);
                }
                out.push(last);
                rest = Vec::new();
            },
        }
    }
    proof {
        assert(lines(rest@) == Seq::<Seq<char>>::empty());
        assert(views(out@) + Seq::<Seq<char>>::empty() =~= views(out@));
    }
    out
}

/// `parts` joined with `sep` (`[..].join(sep)`).
pub open spec fn join(parts: Seq<Seq<char>>, sep: Seq<char>) -> Seq<char>
    decreases parts.len(),
{
    if parts.len() == 0 {
        Seq::empty()
    } else if parts.len() == 1 {
        parts[0]
    } else {
        join(parts.drop_last(), sep) + sep + parts.last()
    }
}

/// `[..].join(sep)`.
pub fn join_exec(parts: &Vec<Vec<char>>, sep: &Vec<char>) -> (r: Vec<char>)
    ensures
        r@ == join(views(parts@), sep@),
{
    let mut out: Vec<char> = Vec::new();
    let mut i: usize = 0;
    while i < parts.len()
        invariant
            i <= parts.len(),
            out@ == join(views(parts@.take(i as int)), sep@),
        decreases parts.len() - i,
    {
        proof {
            let v = views(parts@.take(i + 1));
            assert(v.drop_last() =~= views(parts@.take(i as int)));
            assert(v.last() == parts@[i as int]@);
        }
        if i > 0 {
            append(&mut out, sep);
        }
        append(&mut out, &parts[i]);
        i = i + 1;
    }
    proof {
        assert(parts@.take(parts.len() as int) =~= parts@);
    }
    out
}

/// `s` with each occurrence of `from` replaced by `to`, scanning left
/// to right (`str::replace`).
pub open spec fn replace(s: Seq<char>, from: Seq<char>, to: Seq<char>) -> Seq<char>
    decreases s.len(),
{
    if from.len() == 0 {
        s
    } else if let Some(i) = find(s, from) {
        proof {
            lemma_find_from_props(s, from, 0);
        }
        s.take(i) + to + replace(s.skip(i + from.len()), from, to)
    } else {
        s
    }
}

/// `str::replace` with a non-empty pattern.
pub fn replace_exec(s: &Vec<char>, from: &Vec<char>, to: &Vec<char>) -> (r: Vec<char>)
    requires
        from.len() > 0,
    ensures
        r@ == replace(s@, from@, to@),
{
    let mut rest = s.clone();
    let mut out: Vec<char> = Vec::new();
    loop
        invariant
            from.len() > 0,
            replace(s@, from@, to@) == out@ + replace(rest@, from@, to@),
        decreases rest.len(),
    {
        match find_exec(&rest, from) {
            Some(i) => {
                proof {
                    lemma_find_from_props(rest@, from@, 0);
                    assert(occurs_at(rest@, from@, i as int));
                }
                let flen = from.len();
                assert(i + flen <= rest.len());
                let j: usize = i + flen;
                let head = slice(&rest, 0, i);
                let tail = slice(&rest, j, rest.len());
                let ghost old_out = out@;
                append(&mut out, &head);
                append(&mut out, to);
                proof {
                    assert(out@ + replace(tail@, from@, to@) =~= old_out + (rest@.take(i as int)
                        + to@ + replace(rest@.skip(i + from@.len()), from@, to@)));
                }
                rest = tail;
            },
            None => {
                append(&mut out, &rest);
                return out;
            },
        }
    }
}


/// A first occurrence of a newline in `a` is the first in `a + b` too.
proof fn lemma_find_nl_prefix(a: Seq<char>, b: Seq<char>, i: int)
    requires
        find(a, seq!['\n']) == Some(i),
    ensures
        find(a + b, seq!['\n']) == Some(i),
{
    let nl = seq!['\n'];
    let s = a + b;
    lemma_find_from_props(a, nl, 0);
    lemma_find_from_props(s, nl, 0);
    assert(a.subrange(i, i + 1) == nl);
    assert(s.subrange(i, i + 1) =~= a.subrange(i, i + 1));
    assert(occurs_at(s, nl, i));
    assert forall|j: int| 0 <= j < i implies !occurs_at(s, nl, j) by {
        assert(s.subrange(j, j + 1) =~= a.subrange(j, j + 1));
        assert(!occurs_at(a, nl, j));
    }
}

/// Where `a` holds no newline, the first newline of `a + "\n"` is the
/// one added.
proof fn lemma_find_nl_end(a: Seq<char>)
    requires
        find(a, seq!['\n']) is None,
    ensures
        find(a + seq!['\n'], seq!['\n']) == Some(a.len() as int),
{
    let nl = seq!['\n'];
    let s = a + nl;
    lemma_find_from_props(a, nl, 0);
    lemma_find_from_props(s, nl, 0);
    assert(s.subrange(a.len() as int, a.len() + 1 as int) =~= nl);
    assert(occurs_at(s, nl, a.len() as int));
    assert forall|j: int| 0 <= j < a.len() implies !occurs_at(s, nl, j) by {
        assert(s.subrange(j, j + 1) =~= a.subrange(j, j + 1));
        assert(!occurs_at(a, nl, j));
    }
}

/// Lines of a text that ends with a newline, followed by more text, are
/// its lines followed by those of the rest.
pub proof fn lemma_lines_append(a: Seq<char>, b: Seq<char>)
    requires
        a.len() > 0,
        a.last() == '\n',
    ensures
        lines(a + b) == lines(a) + lines(b),
    decreases a.len(),
{
    let nl = seq!['\n'];
    lemma_find_from_props(a, nl, 0);
    if find(a, nl) is None {
        assert(a.subrange(a.len() - 1, a.len() as int) =~= nl);
        assert(occurs_at(a, nl, a.len() - 1));
    }
    let i = find(a, nl)->0;
    lemma_find_nl_prefix(a, b, i);
    let s = a + b;
    assert(s.take(i) =~= a.take(i));
    assert(s.skip(i + 1) =~= a.skip(i + 1) + b);
    if i + 1 == a.len() {
        assert(a.skip(i + 1) =~= Seq::<char>::empty());
        assert(s.skip(i + 1) =~= b);
        assert(lines(Seq::<char>::empty()) =~= Seq::<Seq<char>>::empty());
        assert(lines(a) == seq![strip_cr(a.take(i))] + lines(a.skip(i + 1)));
        assert(lines(a) =~= seq![strip_cr(a.take(i))]);
    } else {
        let r = a.skip(i + 1);
        assert(r.last() == a.last());
        lemma_lines_append(r, b);
        assert(lines(s) =~= seq![strip_cr(a.take(i))] + (lines(r) + lines(b)));
    }
}

/// One line ended by a newline: the line itself.
pub proof fn lemma_lines_one(x: Seq<char>)
    requires
        find(x, seq!['\n']) is None,
        x.len() == 0 || x.last() != '\r',
    ensures
        lines(x + seq!['\n']) == seq![x],
{
    let s = x + seq!['\n'];
    lemma_find_nl_end(x);
    assert(s.take(x.len() as int) =~= x);
    assert(s.skip(x.len() + 1 as int) =~= Seq::<char>::empty());
    assert(lines(Seq::<char>::empty()) =~= Seq::<Seq<char>>::empty());
    assert(lines(s) == seq![strip_cr(s.take(x.len() as int))] + lines(s.skip(x.len() + 1 as int)));
    assert(lines(s) =~= seq![strip_cr(x)] + Seq::<Seq<char>>::empty());
}

/// A trailing newline adds no line to a text that does not end with a
/// line break.
pub proof fn lemma_lines_newline_end(c: Seq<char>)
    requires
        c.len() > 0,
        c.last() != '\n',
        c.last() != '\r',
    ensures
        lines(c + seq!['\n']) == lines(c),
    decreases c.len(),
{
    let nl = seq!['\n'];
    let s = c + nl;
    lemma_find_from_props(c, nl, 0);
    match find(c, nl) {
        Some(i) => {
            lemma_find_nl_prefix(c, nl, i);
            assert(s.take(i) =~= c.take(i));
            let r = c.skip(i + 1);
            assert(s.skip(i + 1) =~= r + nl);
            if r.len() == 0 {
                assert(c[i] == '\n') by {
                    assert(c.subrange(i, i + 1) == nl);
                    assert(c.subrange(i, i + 1)[0] == c[i]);
                }
            }
            assert(r.last() == c.last());
            lemma_lines_newline_end(r);
        },
        None => {
            lemma_find_nl_end(c);
            assert(s.take(c.len() as int) =~= c);
            assert(s.skip(c.len() + 1 as int) =~= Seq::<char>::empty());
            assert(lines(Seq::<char>::empty()) =~= Seq::<Seq<char>>::empty());
            assert(lines(s) == seq![strip_cr(s.take(c.len() as int))] + lines(
                s.skip(c.len() + 1 as int),
            ));
            assert(lines(s) =~= seq![strip_cr(c)] + Seq::<Seq<char>>::empty());
        },
    }
}

/// Joining with a separator, taken from the front.
pub proof fn lemma_join_front(x: Seq<char>, rest: Seq<Seq<char>>, sep: Seq<char>)
    requires
        rest.len() > 0,
    ensures
        join(seq![x] + rest, sep) == x + sep + join(rest, sep),
    decreases rest.len(),
{
    let all = seq![x] + rest;
    assert(all.drop_last() =~= seq![x] + rest.drop_last());
    assert(all.last() == rest.last());
    assert(join(all, sep) == join(all.drop_last(), sep) + sep + all.last());
    if rest.len() == 1 {
        assert(seq![x] + rest.drop_last() =~= seq![x]);
        assert(join(seq![x], sep) == x);
        assert(join(rest, sep) == rest[0]);
    } else {
        lemma_join_front(x, rest.drop_last(), sep);
        assert(join(rest, sep) == join(rest.drop_last(), sep) + sep + rest.last());
        assert(x + sep + join(rest, sep) =~= x + sep + join(rest.drop_last(), sep) + sep
            + rest.last());
    }
}

/// A text with no carriage return that does not end with a newline is
/// its lines joined by newlines.
pub proof fn lemma_join_lines(c: Seq<char>)
    requires
        forall|k: int| 0 <= k < c.len() ==> c[k] != '\r',
        c.len() == 0 || c.last() != '\n',
    ensures
        join(lines(c), seq!['\n']) == c,
    decreases c.len(),
{
    let nl = seq!['\n'];
    if c.len() > 0 {
        lemma_find_from_props(c, nl, 0);
        match find(c, nl) {
            Some(i) => {
                let r = c.skip(i + 1);
                assert(c[i] == '\n') by {
                    assert(c.subrange(i, i + 1) == nl);
                    assert(c.subrange(i, i + 1)[0] == c[i]);
                }
                assert(r.len() > 0);
                assert(r.last() == c.last());
                lemma_join_lines(r);
                let x = c.take(i);
                if x.len() > 0 {
                    assert(x.last() == c[i - 1]);
                }
                assert(strip_cr(x) == x);
                assert(lines(r).len() > 0);
                lemma_join_front(x, lines(r), nl);
                assert(c =~= x + nl + r);
            },
            None => {},
        }
    }
}


/// A text with no newline has none to find.
pub proof fn lemma_find_no_nl(x: Seq<char>)
    requires
        forall|k: int| 0 <= k < x.len() ==> x[k] != '\n',
    ensures
        find(x, seq!['\n']) is None,
{
    lemma_find_from_props(x, seq!['\n'], 0);
    if let Some(k) = find(x, seq!['\n']) {
        assert(x.subrange(k, k + 1)[0] == x[k]);
    }
}

/// A non-empty text that trimming leaves unchanged neither begins nor
/// ends with whitespace.
pub proof fn lemma_trimmed_ends(s: Seq<char>)
    requires
        s.len() > 0,
        trim(s) == s,
    ensures
        !is_ws(s[0]),
        !is_ws(s.last()),
{
    lemma_lead_ws_bound(s);
    let a = trim_start(s);
    lemma_trail_ws_bound(a);
    assert(trim(s).len() == s.len() - lead_ws(s) - trail_ws(a));
    assert(lead_ws(s) == 0);
    assert(a =~= s);
}

/// A text that neither begins nor ends with whitespace is its own trim
/// and its own end-trim.
pub proof fn lemma_unpadded(s: Seq<char>)
    requires
        s.len() > 0,
        !is_ws(s[0]),
        !is_ws(s.last()),
    ensures
        trim(s) == s,
        trim_end(s) == s,
        trim_start(s) == s,
{
    assert(lead_ws(s) == 0);
    assert(s.skip(0) =~= s);
    assert(trail_ws(s) == 0);
    assert(s.take(s.len() as int) =~= s);
}

/// A non-empty text that end-trimming leaves unchanged does not end
/// with whitespace.
pub proof fn lemma_end_trimmed(s: Seq<char>)
    requires
        s.len() > 0,
        trim_end(s) == s,
    ensures
        !is_ws(s.last()),
{
    lemma_trail_ws_bound(s);
}


proof fn lemma_lead_ws_props(s: Seq<char>)
    ensures
        lead_ws(s) <= s.len(),
        forall|j: int| 0 <= j < lead_ws(s) ==> is_ws(#[trigger] s[j]),
        lead_ws(s) < s.len() ==> !is_ws(s[lead_ws(s) as int]),
    decreases s.len(),
{
    if s.len() > 0 && is_ws(s[0]) {
        lemma_lead_ws_props(s.drop_first());
        assert forall|j: int| 0 <= j < lead_ws(s) implies is_ws(#[trigger] s[j]) by {
            if j > 0 {
                assert(s[j] == s.drop_first()[j - 1]);
            }
        }
    }
}

proof fn lemma_trail_ws_props(s: Seq<char>)
    ensures
        trail_ws(s) <= s.len(),
        forall|j: int| s.len() - trail_ws(s) <= j < s.len() ==> is_ws(#[trigger] s[j]),
    decreases s.len(),
{
    if s.len() > 0 && is_ws(s.last()) {
        lemma_trail_ws_props(s.drop_last());
        assert forall|j: int| s.len() - trail_ws(s) <= j < s.len() implies is_ws(#[trigger] s[j]) by {
            if j < s.len() - 1 {
                assert(s[j] == s.drop_last()[j]);
            }
        }
    }
}

/// A text with a character that is not whitespace is not blank.
pub proof fn lemma_trim_nonblank(s: Seq<char>, k: int)
    requires
        0 <= k < s.len(),
        !is_ws(s[k]),
    ensures
        trim(s).len() > 0,
{
    lemma_lead_ws_props(s);
    let l = lead_ws(s) as int;
    assert(l <= k);
    let u = s.skip(l);
    assert(u[0] == s[l]);
    lemma_trail_ws_props(u);
    if trail_ws(u) == u.len() {
        assert(is_ws(u[0]));
    }
}

} // verus!

//! Cursor arithmetic shared by the screens and editors: moving within a
//! list with clamping, and cycling through a list with wrap-around.

use vstd::prelude::*;

verus! {

/// `cur + delta`, clamped to `[0, cap]`.
pub open spec fn clamp_delta(cur: int, delta: int, cap: int) -> int {
    if cur + delta < 0 {
        0
    } else if cur + delta > cap {
        cap
    } else {
        cur + delta
    }
}

/// Adds `delta` to `cur`, clamped to `[0, cap]`.
pub fn apply_delta(cur: usize, delta: isize, cap: usize) -> (r: usize)
    ensures
        r == clamp_delta(cur as int, delta as int, cap as int),
{
    let v: i128 = cur as i128 + delta as i128;
    if v < 0 {
        0
    } else if v > cap as i128 {
        cap
    } else {
        v as usize
    }
}

/// Moves a list cursor by `d`, staying within a list of `len` items
/// (at 0 for an empty list).
pub fn move_cursor(cur: &mut usize, d: isize, len: usize)
    ensures
        *final(cur) == if len == 0 {
            0
        } else {
            clamp_delta(*old(cur) as int, d as int, len - 1)
        },
{
    if len == 0 {
        *cur = 0;
        return;
    }
    *cur = apply_delta(*cur, d, len - 1);
}

/// The position `d` steps from `idx` in a ring of `n` positions.
pub open spec fn wrap_index(n: int, idx: int, d: int) -> int {
    (idx + d) % n
}

/// The position `d` steps from `idx` in a ring of `len` items; `idx`
/// itself for an empty ring.
pub fn cycle_wrap(len: usize, idx: usize, d: isize) -> (r: usize)
    ensures
        len == 0 ==> r == idx,
        len > 0 ==> r == wrap_index(len as int, idx as int, d as int),
        len > 0 ==> r < len,
{
    if len == 0 {
        return idx;
    }
    let n: u128 = len as u128;
    let i: u128 = (idx as u128) % n;
    proof {
        vstd::arithmetic::div_mod::lemma_add_mod_noop_right(d as int, idx as int, n as int);
        assert(wrap_index(n as int, idx as int, d as int) == wrap_index(n as int, i as int, d as int));
    }
    if d >= 0 {
        let q: u128 = (d as u128) % n;
        proof {
            vstd::arithmetic::div_mod::lemma_add_mod_noop_right(i as int, d as int, n as int);
        }
        ((i + q) % n) as usize
    } else {
        let m: u128 = (-(d as i128)) as u128;
        let b: u128 = m % n;
        proof {
            let k = (m as int) / (n as int);
            vstd::arithmetic::div_mod::lemma_fundamental_div_mod(m as int, n as int);
            vstd::arithmetic::div_mod::lemma_mod_multiples_vanish(
                k,
                i + n + d,
                n as int,
            );
            vstd::arithmetic::div_mod::lemma_mod_add_multiples_vanish(i + d, n as int);
            assert(i + n - b == n * k + (i + n + d));
        }
        ((i + n - b) % n) as usize
    }
}

/// Stepping `d` positions round a ring of `n` and then `d` positions back
/// returns to where one started.
pub proof fn lemma_wrap_back(n: int, idx: int, d: int)
    requires
        0 <= idx < n,
    ensures
        wrap_index(n, wrap_index(n, idx, d), -d) == idx,
{
    let w = wrap_index(n, idx, d);
    vstd::arithmetic::div_mod::lemma_add_mod_noop_right(-d, idx + d, n);
    assert(-d + (idx + d) == idx);
    assert(w + -d == -d + w);
    vstd::arithmetic::div_mod::lemma_small_mod(idx as nat, n as nat);
}

} // verus!

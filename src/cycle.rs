use vstd::prelude::*;
use crate::monitor::{cyc_step, next_visible, settle, spec_is_visible, Client};

verus! {

/// The position `u` steps from `i` in direction `d` round a cycle of `n`.
pub open spec fn cyc_pos(i: int, d: int, u: int, n: int) -> int {
    (i + d * u) % n
}

proof fn lemma_cyc_pos_next(i: int, d: int, u: int, n: int)
    requires
        n > 0,
    ensures
        cyc_step(cyc_pos(i, d, u, n), d, n) == cyc_pos(i, d, u + 1, n),
{
    vstd::arithmetic::div_mod::lemma_add_mod_noop_right(d, i + d * u, n);
    assert(d + (i + d * u) == i + d * (u + 1)) by (nonlinear_arith);
}

/// Settling from the `u`-th position of a walk reaches the first visible
/// position of the walk at or after it, given the fuel to get there.
proof fn lemma_settle_reaches(s: Seq<Client>, mask: u32, i: int, d: int, u: int, t: int, f: nat)
    requires
        s.len() > 0,
        1 <= u <= t,
        f >= t - u,
        0 <= i < s.len(),
        forall|v: int| u <= v < t ==> !spec_is_visible(#[trigger] s[cyc_pos(i, d, v, s.len() as int)].tags, mask),
        spec_is_visible(s[cyc_pos(i, d, t, s.len() as int)].tags, mask),
    ensures
        settle(s, mask, cyc_pos(i, d, u, s.len() as int), d, f) == cyc_pos(i, d, t, s.len() as int),
    decreases t - u,
{
    let n = s.len() as int;
    let p = cyc_pos(i, d, u, n);
    vstd::arithmetic::div_mod::lemma_mod_bound(i + d * u, n);
    if u < t {
        assert(!spec_is_visible(s[p].tags, mask));
        lemma_cyc_pos_next(i, d, u, n);
        lemma_settle_reaches(s, mask, i, d, u + 1, t, (f - 1) as nat);
    }
}

/// The first visible position of the walk from `i`, looking from step `u`.
proof fn lemma_first_visible(s: Seq<Client>, mask: u32, i: int, d: int, u: int) -> (t: int)
    requires
        s.len() > 0,
        1 <= u <= s.len(),
        spec_is_visible(s[cyc_pos(i, d, s.len() as int, s.len() as int)].tags, mask),
        forall|v: int| 1 <= v < u ==> !spec_is_visible(#[trigger] s[cyc_pos(i, d, v, s.len() as int)].tags, mask),
    ensures
        u <= t <= s.len(),
        spec_is_visible(s[cyc_pos(i, d, t, s.len() as int)].tags, mask),
        forall|v: int| 1 <= v < t ==> !spec_is_visible(#[trigger] s[cyc_pos(i, d, v, s.len() as int)].tags, mask),
    decreases s.len() - u,
{
    if spec_is_visible(s[cyc_pos(i, d, u, s.len() as int)].tags, mask) {
        u
    } else {
        lemma_first_visible(s, mask, i, d, u + 1)
    }
}

/// From a visible client, the nearest visible client in one direction has
/// the first one as its nearest visible client in the other direction.
pub proof fn lemma_next_visible_back(s: Seq<Client>, mask: u32, i: int, d: int)
    requires
        0 <= i < s.len(),
        d == 1 || d == -1,
        spec_is_visible(s[i].tags, mask),
    ensures
        0 <= next_visible(s, mask, i, d) < s.len(),
        next_visible(s, mask, next_visible(s, mask, i, d), -d) == i,
{
    let n = s.len() as int;
    assert(cyc_pos(i, d, n, n) == i) by {
        vstd::arithmetic::div_mod::lemma_mod_multiples_vanish(d, i, n);
        vstd::arithmetic::div_mod::lemma_small_mod(i as nat, n as nat);
        assert(i + d * n == n * d + i) by (nonlinear_arith);
    }
    let t = lemma_first_visible(s, mask, i, d, 1);
    assert(cyc_pos(i, d, 1, n) == cyc_step(i, d, n)) by {
        assert(i + d * 1 == i + d);
    }
    lemma_settle_reaches(s, mask, i, d, 1, t, s.len());
    let j = cyc_pos(i, d, t, n);
    vstd::arithmetic::div_mod::lemma_mod_bound(i + d * t, n);
    assert forall|v: int| 1 <= v <= t implies #[trigger] cyc_pos(j, -d, v, n) == cyc_pos(i, d, t - v, n) by {
        vstd::arithmetic::div_mod::lemma_add_mod_noop_right(-d * v, i + d * t, n);
        assert(-d * v + (i + d * t) == i + d * (t - v)) by (nonlinear_arith);
        assert(j + -d * v == -d * v + j);
    }
    assert forall|v: int| 1 <= v < t implies !spec_is_visible(#[trigger] s[cyc_pos(j, -d, v, n)].tags, mask) by {
        assert(cyc_pos(j, -d, v, n) == cyc_pos(i, d, t - v, n));
        assert(!spec_is_visible(s[cyc_pos(i, d, t - v, n)].tags, mask));
    }
    assert(cyc_pos(j, -d, t, n) == i) by {
        assert(cyc_pos(j, -d, t, n) == cyc_pos(i, d, 0, n));
        vstd::arithmetic::div_mod::lemma_small_mod(i as nat, n as nat);
    }
    assert(cyc_pos(j, -d, 1, n) == cyc_step(j, -d, n)) by {
        assert(j + -d * 1 == j + -d);
    }
    lemma_settle_reaches(s, mask, j, -d, 1, t, s.len());
}

} // verus!

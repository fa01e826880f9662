//! Steps along the positions `0..=last`, either stopping at the ends or
//! going round them as on a ring of `last + 1` positions.

use vstd::arithmetic::div_mod::{lemma_add_mod_noop_right, lemma_mod_add_multiples_vanish};
use vstd::arithmetic::div_mod::{lemma_mod_bound, lemma_small_mod, lemma_sub_mod_noop_right};
use vstd::prelude::*;

verus! {

/// `m` steps forward from `p`, stopping at `last`.
pub open spec fn forward_clamped(p: int, m: int, last: int) -> int {
    if p + m > last {
        last
    } else {
        p + m
    }
}

/// `m` steps back from `p`, stopping at 0.
pub open spec fn backward_clamped(p: int, m: int) -> int {
    if p - m < 0 {
        0
    } else {
        p - m
    }
}

/// `m` steps forward from `p` on the ring `0..=last`.
pub open spec fn forward_wrapped(p: int, m: int, last: int) -> int {
    (p + m) % (last + 1)
}

/// `m` steps back from `p` on the ring `0..=last`.
pub open spec fn backward_wrapped(p: int, m: int, last: int) -> int {
    (p - m) % (last + 1)
}

/// Where `m` steps from `p` end, in the direction and under the policy given.
pub open spec fn stepped(p: int, m: int, last: int, forward: bool, wrap: bool) -> int {
    if forward {
        if wrap {
            forward_wrapped(p, m, last)
        } else {
            forward_clamped(p, m, last)
        }
    } else {
        if wrap {
            backward_wrapped(p, m, last)
        } else {
            backward_clamped(p, m)
        }
    }
}

/// One step from `p`: at the end that lies in the direction of travel the
/// step goes to the opposite end when wrapping, and nowhere otherwise.
pub open spec fn one_step(p: int, last: int, forward: bool, wrap: bool) -> int {
    if forward {
        if p < last {
            p + 1
        } else if wrap {
            0
        } else {
            p
        }
    } else {
        if p > 0 {
            p - 1
        } else if wrap {
            last
        } else {
            p
        }
    }
}

/// Where `m` single steps from `p` end.
pub open spec fn walked(p: int, m: nat, last: int, forward: bool, wrap: bool) -> int
    decreases m,
{
    if m == 0 {
        p
    } else {
        walked(one_step(p, last, forward, wrap), (m - 1) as nat, last, forward, wrap)
    }
}

/// A step of `m` stays on `0..=last`.
pub proof fn lemma_stepped_in_range(p: int, m: int, last: int, forward: bool, wrap: bool)
    requires
        0 <= p <= last,
        0 <= m,
    ensures
        0 <= stepped(p, m, last, forward, wrap) <= last,
{
    lemma_mod_bound(p + m, last + 1);
    lemma_mod_bound(p - m, last + 1);
}

/// A step of `m` is `m` single steps: stopping early at an end, or going
/// round it, one step at a time gives what the arithmetic gives at once.
pub proof fn lemma_stepped_is_walked(p: int, m: nat, last: int, forward: bool, wrap: bool)
    requires
        0 <= p <= last,
    ensures
        stepped(p, m as int, last, forward, wrap) == walked(p, m, last, forward, wrap),
    decreases m,
{
    let ring = last + 1;
    if m == 0 {
        lemma_small_mod(p as nat, ring as nat);
    } else {
        let q = one_step(p, last, forward, wrap);
        lemma_stepped_is_walked(q, (m - 1) as nat, last, forward, wrap);
        if wrap {
            if forward {
                if p == last {
                    // p + m == ring + (m - 1)
                    lemma_mod_add_multiples_vanish(m - 1, ring);
                }
            } else {
                if p == 0 {
                    // last - (m - 1) == ring + (0 - m)
                    lemma_mod_add_multiples_vanish(0 - m, ring);
                }
            }
        }
    }
}

/// `m` steps forward from `p` on `0..=last`.
pub(crate) fn step_forward(p: usize, m: usize, last: usize, wrap: bool) -> (r: usize)
    requires
        p <= last,
    ensures
        r == stepped(p as int, m as int, last as int, true, wrap),
        r <= last,
{
    let room: usize = last - p;
    if wrap {
        let k: usize = if last == usize::MAX {
            m
        } else {
            m % (last + 1)
        };
        proof {
            let ring: int = last + 1;
            lemma_mod_bound(m as int, ring);
            if last == usize::MAX {
                lemma_small_mod(m as nat, ring as nat);
            }
            lemma_add_mod_noop_right(p as int, m as int, ring);
            if k <= room {
                lemma_small_mod((p + k) as nat, ring as nat);
            } else {
                lemma_mod_add_multiples_vanish(p + k - ring, ring);
                lemma_small_mod((p + k - ring) as nat, ring as nat);
            }
        }
        if k <= room {
            p + k
        } else {
            k - room - 1
        }
    } else if m <= room {
        p + m
    } else {
        last
    }
}

/// `m` steps back from `p` on `0..=last`.
pub(crate) fn step_backward(p: usize, m: usize, last: usize, wrap: bool) -> (r: usize)
    requires
        p <= last,
    ensures
        r == stepped(p as int, m as int, last as int, false, wrap),
        r <= last,
{
    if wrap {
        let k: usize = if last == usize::MAX {
            m
        } else {
            m % (last + 1)
        };
        proof {
            let ring: int = last + 1;
            lemma_mod_bound(m as int, ring);
            if last == usize::MAX {
                lemma_small_mod(m as nat, ring as nat);
            }
            lemma_sub_mod_noop_right(p as int, m as int, ring);
            if k <= p {
                lemma_small_mod((p - k) as nat, ring as nat);
            } else {
                lemma_mod_add_multiples_vanish(p - k, ring);
                lemma_small_mod((p - k + ring) as nat, ring as nat);
            }
        }
        if k <= p {
            p - k
        } else {
            last - (k - p - 1)
        }
    } else if m <= p {
        p - m
    } else {
        0
    }
}

} // verus!

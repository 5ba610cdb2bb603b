//! The directional step primitive shared by agents: each axis moves
//! independently by the sign of its delta toward a target, so movement is
//! diagonal where both axes differ and covers the Chebyshev distance in
//! `max(|dx|, |dy|)` steps. No bounds or obstacle check is applied here;
//! callers are responsible for the target being reachable.

use vstd::prelude::*;

verus! {

/// One coordinate moved one unit toward the target coordinate.
pub open spec fn step_toward_coord(c: usize, t: usize) -> usize {
    if t > c {
        (c + 1) as usize
    } else if t < c {
        (c - 1) as usize
    } else {
        c
    }
}

/// One diagonal (Chebyshev) step from `p` toward `t`.
pub open spec fn spec_step_toward(p: (usize, usize), t: (usize, usize)) -> (usize, usize) {
    (step_toward_coord(p.0, t.0), step_toward_coord(p.1, t.1))
}

/// Chebyshev distance between two grid positions.
pub open spec fn chebyshev(a: (usize, usize), b: (usize, usize)) -> int {
    let dx = if a.0 >= b.0 { a.0 - b.0 } else { b.0 - a.0 };
    let dy = if a.1 >= b.1 { a.1 - b.1 } else { b.1 - a.1 };
    if dx >= dy { dx } else { dy }
}

/// Takes one step from `p` toward `t`, moving each axis by the sign of its
/// delta. A step from a distinct position strictly decreases the Chebyshev
/// distance to the target, and each axis stays between its start and the
/// target's axis, so a step between in-bounds positions stays in bounds.
pub fn step_toward(p: (usize, usize), t: (usize, usize)) -> (r: (usize, usize))
    ensures
        r == spec_step_toward(p, t),
        p == t ==> r == p,
        p != t ==> chebyshev(r, t) == chebyshev(p, t) - 1,
        p.0 <= t.0 ==> p.0 <= r.0 <= t.0,
        t.0 <= p.0 ==> t.0 <= r.0 <= p.0,
        p.1 <= t.1 ==> p.1 <= r.1 <= t.1,
        t.1 <= p.1 ==> t.1 <= r.1 <= p.1,
{
    let x = if t.0 > p.0 {
        p.0 + 1
    } else if t.0 < p.0 {
        p.0 - 1
    } else {
        p.0
    };
    let y = if t.1 > p.1 {
        p.1 + 1
    } else if t.1 < p.1 {
        p.1 - 1
    } else {
        p.1
    };
    (x, y)
}

} // verus!

//! Which intersection of a ray with a sphere counts as the hit.
//!
//! The caller solves the quadratic of the ray against the sphere. When its
//! discriminant is positive there are two roots, `near <= far`; each is given
//! here, as are the bounds of the open search interval, as order keys (`u32`
//! values that order as the parameters do). The near root is tried first, so
//! the visible surface wins when the ray starts outside the sphere.
use vstd::prelude::*;

verus! {

/// Which root of the quadratic is the hit.
#[derive(Debug, Clone, Copy, PartialEq, Eq, Structural)]
pub enum Root {
    /// The entry point `(-b - sqrt(d)) / a`.
    Near,
    /// The exit point `(-b + sqrt(d)) / a`.
    Far,
}

/// `t` lies strictly inside the search interval `(lo, hi)`.
pub open spec fn inside(lo: u32, t: u32, hi: u32) -> bool {
    lo < t && t < hi
}

/// The root that the sphere reports, if any.
pub open spec fn root_of(has_roots: bool, lo: u32, near: u32, far: u32, hi: u32) -> Option<Root> {
    if !has_roots {
        None
    } else if inside(lo, near, hi) {
        Some(Root::Near)
    } else if inside(lo, far, hi) {
        Some(Root::Far)
    } else {
        None
    }
}

/// The key of the chosen root.
pub open spec fn key_of(root: Root, near: u32, far: u32) -> u32 {
    match root {
        Root::Near => near,
        Root::Far => far,
    }
}

/// Decides the hit of a sphere: none unless the discriminant is positive
/// (`has_roots`); else the near root if it lies inside `(lo, hi)`; else the
/// far root if it does; else none.
pub fn sphere_root(has_roots: bool, lo: u32, near: u32, far: u32, hi: u32) -> (r: Option<Root>)
    ensures
        r == root_of(has_roots, lo, near, far, hi),
        r == Some(Root::Near) <==> has_roots && inside(lo, near, hi),
        r == Some(Root::Far) <==> has_roots && !inside(lo, near, hi) && inside(lo, far, hi),
{
    if !has_roots {
        None
    } else if lo < near && near < hi {
        Some(Root::Near)
    } else if lo < far && far < hi {
        Some(Root::Far)
    } else {
        None
    }
}

/// With `near <= far`, the reported root is the least root inside the search
/// interval: from outside the sphere the entry point wins over the exit point.
pub proof fn lemma_root_is_nearest(lo: u32, near: u32, far: u32, hi: u32)
    requires
        near <= far,
    ensures
        root_of(true, lo, near, far, hi) matches Some(r) ==> {
            let t = key_of(r, near, far);
            &&& inside(lo, t, hi)
            &&& inside(lo, near, hi) ==> t <= near
            &&& inside(lo, far, hi) ==> t <= far
        },
        root_of(true, lo, near, far, hi) is None ==> !inside(lo, near, hi) && !inside(lo, far, hi),
        inside(lo, near, hi) && inside(lo, far, hi) ==> root_of(true, lo, near, far, hi) == Some(
            Root::Near,
        ),
{
}

/// Lowering the ceiling of the search to `hi2` keeps the hit found under `hi`
/// when it lies below `hi2`, and loses it otherwise. So a scene that tests
/// its members against a shrinking ceiling finds the same hit as one that
/// tests them all against the full interval and keeps the closest.
pub proof fn lemma_lower_ceiling(has_roots: bool, lo: u32, near: u32, far: u32, hi: u32, hi2: u32)
    requires
        near <= far,
        hi2 <= hi,
    ensures
        root_of(has_roots, lo, near, far, hi2) == (match root_of(has_roots, lo, near, far, hi) {
            Some(r) => if key_of(r, near, far) < hi2 {
                Some(r)
            } else {
                None
            },
            None => None,
        }),
{
}

} // verus!

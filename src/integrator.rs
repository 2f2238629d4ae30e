//! The integrator's control flow, as a state machine over the scatter depth.
//!
//! A path starts at depth 0. At each vertex the caller traces the current ray
//! against the scene and, on a hit, may ask the hit material to scatter. The
//! step function decides what the caller does next: return the sky colour,
//! return black, or follow the scattered ray one level deeper.
use vstd::prelude::*;

verus! {

/// Hard bound on the number of scatters along one path.
pub const MAX_DEPTH: u8 = 50;

/// What the integrator does after tracing a ray at some depth.
#[derive(Debug, Clone, Copy, PartialEq, Eq, Structural)]
pub enum Step {
    /// The ray left the scene: the path ends with the sky gradient.
    Sky,
    /// The ray was absorbed, or the depth bound was reached: the path ends black.
    Black,
    /// The material scattered the ray: follow it at the given depth, and
    /// multiply what comes back by the attenuation.
    Scatter { depth: u8 },
}

/// The step taken at `depth` when the trace `hit` something and the material
/// `scattered`. Whether the material scatters is not consulted once the bound
/// is reached.
pub open spec fn step_of(depth: u8, hit: bool, scattered: bool) -> Step {
    if !hit {
        Step::Sky
    } else if depth < MAX_DEPTH && scattered {
        Step::Scatter { depth: (depth + 1) as u8 }
    } else {
        Step::Black
    }
}

/// Whether a material may still be asked to scatter at `depth`.
pub fn may_scatter(depth: u8) -> (r: bool)
    ensures
        r == (depth < MAX_DEPTH),
{
    depth < MAX_DEPTH
}

/// The step after tracing a ray at `depth`. `scattered` is what the hit
/// material reported; it is ignored on a miss and once `may_scatter(depth)`
/// is false.
pub fn next_step(depth: u8, hit: bool, scattered: bool) -> (r: Step)
    ensures
        r == step_of(depth, hit, scattered),
        !hit ==> r == Step::Sky,
        hit && depth >= MAX_DEPTH ==> r == Step::Black,
        hit && !scattered ==> r == Step::Black,
        hit && scattered && depth < MAX_DEPTH ==> r == (Step::Scatter { depth: (depth + 1) as u8 }),
{
    if !hit {
        Step::Sky
    } else if may_scatter(depth) && scattered {
        Step::Scatter { depth: depth + 1 }
    } else {
        Step::Black
    }
}

/// Where a path that starts at `depth` ends, given what each successive trace
/// reports as `(hit, scattered)`: the final step and the number of scatters on
/// the way, or `None` if the reports run out first.
pub open spec fn path_end(events: Seq<(bool, bool)>, depth: u8) -> Option<(Step, nat)>
    decreases events.len(),
{
    if events.len() == 0 {
        None
    } else {
        match step_of(depth, events[0].0, events[0].1) {
            Step::Scatter { depth: d } => match path_end(events.drop_first(), d) {
                Some((s, n)) => Some((s, n + 1)),
                None => None,
            },
            s => Some((s, 0)),
        }
    }
}

proof fn lemma_trapped_from(events: Seq<(bool, bool)>, depth: u8)
    requires
        depth <= MAX_DEPTH,
        events.len() > MAX_DEPTH - depth,
        forall|i: int| 0 <= i < events.len() ==> #[trigger] events[i] == (true, true),
    ensures
        path_end(events, depth) == Some((Step::Black, (MAX_DEPTH - depth) as nat)),
    decreases MAX_DEPTH - depth,
{
    if depth < MAX_DEPTH {
        let rest = events.drop_first();
        assert(events[0] == (true, true));
        assert forall|i: int| 0 <= i < rest.len() implies #[trigger] rest[i] == (true, true) by {
            assert(rest[i] == events[i + 1]);
        }
        lemma_trapped_from(rest, (depth + 1) as u8);
    } else {
        assert(events[0] == (true, true));
    }
}

/// A ray trapped where every trace hits and every material scatters (two
/// mirrors facing each other) ends black after exactly `MAX_DEPTH` scatters.
pub proof fn lemma_trapped_path_ends_black(events: Seq<(bool, bool)>)
    requires
        events.len() > MAX_DEPTH,
        forall|i: int| 0 <= i < events.len() ==> #[trigger] events[i] == (true, true),
    ensures
        path_end(events, 0) == Some((Step::Black, MAX_DEPTH as nat)),
{
    lemma_trapped_from(events, 0);
}

proof fn lemma_bounded_from(events: Seq<(bool, bool)>, depth: u8)
    requires
        depth <= MAX_DEPTH,
    ensures
        path_end(events, depth) matches Some((_, n)) ==> depth + n <= MAX_DEPTH,
        events.len() > MAX_DEPTH - depth ==> path_end(events, depth) is Some,
    decreases events.len(),
{
    if events.len() > 0 {
        if let Step::Scatter { depth: d } = step_of(depth, events[0].0, events[0].1) {
            lemma_bounded_from(events.drop_first(), d);
        }
    }
}

/// Every path from depth 0 scatters at most `MAX_DEPTH` times, and it has
/// ended once `MAX_DEPTH + 1` traces were made, whatever they report.
pub proof fn lemma_path_terminates(events: Seq<(bool, bool)>)
    ensures
        path_end(events, 0) matches Some((_, n)) ==> n <= MAX_DEPTH,
        events.len() > MAX_DEPTH ==> path_end(events, 0) is Some,
{
    lemma_bounded_from(events, 0);
}

} // verus!

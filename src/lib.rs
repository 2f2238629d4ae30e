//! Decision logic of a recursive path tracer: how deep a light path may go and
//! when it ends, which member of a scene is hit first, and which root of a
//! ray–sphere quadratic is the visible one. The numeric geometry runs in the
//! caller; this library decides on what that geometry reports, given as order
//! keys of single-precision bit patterns.
pub mod closest;
pub mod integrator;
pub mod order;
pub mod sphere;

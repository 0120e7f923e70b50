//! Capture-zone bookkeeping for a spatial "minimize" affordance.
//!
//! The library holds the logic of a volumetric capture zone: a registry of
//! object identifiers that are candidates for capture or already captured,
//! and a two-phase scale animation whose completion drives the membership
//! transitions. Everything host-facing (geometry, easing curves, the client
//! connection) stays outside; the zone here works on plain identifiers and
//! integer milliseconds.

pub mod black_hole;
pub mod registry;

pub use black_hole::AnimationState;
pub use black_hole::Animator;
pub use black_hole::BlackHole;
pub use black_hole::BoundaryAction;
pub use black_hole::FrameScale;
pub use black_hole::ScaleTargets;
pub use black_hole::UpdateAction;
pub use black_hole::DURATION_MS;
pub use black_hole::scale_targets;
pub use registry::Registry;

//! Fixed-point collision and integration kernel for a dilute cloud of
//! trapped atoms: spatial binning, stochastic binary collisions per box,
//! a symplectic integrator and per-frame collision statistics.
//!
//! All quantities are integers in caller-chosen units: positions in length
//! units, velocities in length units per time unit, the timestep in time
//! units, the cross-section in square length units.
mod vector;
mod config;
mod binning;
mod scatter;
mod engine;
mod integrator;
mod frame;
mod report;

pub use vector::Vec3;
pub use config::{CollisionParameters, ConfigError, MAX_BOX_NUMBER, MAX_WIDTH_OR_LIMIT};
pub use binning::{cell_coord, box_of, build_boxes, lemma_boxes_partition, BoxPartition};
pub use scatter::{
    collide_pair, collision_spec, conserved, lemma_collision_conserves, lemma_collision_keeps_totals,
    SCATTER_CHOICES,
};
pub use engine::{isqrt, resolve_box, BoxOutcome};
pub use report::{render_stats, stats_text};
pub use integrator::{integrate, ParticleStore, StepError};
pub use frame::{
    collide_and_record, collision_pass, lemma_sparse_box_adds_nothing, step, summarize, CollisionsTracker, FrameStats,
    TrackerTable,
};

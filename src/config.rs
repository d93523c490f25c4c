use vstd::prelude::*;

verus! {

/// Largest number of boxes per side of the grid: the cube of it fits a `u64`.
pub const MAX_BOX_NUMBER: u64 = 2097152;

/// Bound (exclusive) on the box width, the per-frame collision ceiling and the
/// timestep, so that `width^3 * ceiling` fits a `u128` and one step of the
/// integrator fits an `i128`.
pub const MAX_WIDTH_OR_LIMIT: u64 = 4294967296;

/// Why a set of collision parameters was refused at setup.
#[derive(Debug, Clone, Copy, PartialEq, Eq, Structural)]
pub enum ConfigError {
    NonPositiveMacroparticle,
    ZeroBoxNumber,
    NonPositiveBoxWidth,
    NonPositiveSigma,
    NonPositiveTimestep,
    /// A value is beyond what the fixed-point arithmetic can hold.
    OutOfRange,
}

/// Immutable configuration of the collision pass and the timestep.
#[derive(Debug, Clone, Copy, PartialEq, Eq, Structural)]
pub struct CollisionParameters {
    /// Number of real atoms that one simulated particle stands for.
    pub macroparticle: u64,
    /// Number of boxes along each axis of the cubic grid.
    pub box_number: u64,
    /// Edge length of one cubic box.
    pub box_width: u64,
    /// Collision cross-section.
    pub sigma: u64,
    /// Upper bound on the collisions resolved in one box in one frame.
    pub collision_limit: u64,
    /// Length of one timestep.
    pub timestep: u64,
}

impl CollisionParameters {
    /// The parameters a run may start with.
    pub open spec fn wf(&self) -> bool {
        &&& self.macroparticle > 0
        &&& 0 < self.box_number <= MAX_BOX_NUMBER
        &&& 0 < self.box_width < MAX_WIDTH_OR_LIMIT
        &&& self.sigma > 0
        &&& self.collision_limit < MAX_WIDTH_OR_LIMIT
        &&& 0 < self.timestep < MAX_WIDTH_OR_LIMIT
    }

    /// The error that `new` reports for the given values, if any.
    pub open spec fn error_of(
        macroparticle: u64,
        box_number: u64,
        box_width: u64,
        sigma: u64,
        collision_limit: u64,
        timestep: u64,
    ) -> Option<ConfigError> {
        if macroparticle == 0 {
            Some(ConfigError::NonPositiveMacroparticle)
        } else if box_number == 0 {
            Some(ConfigError::ZeroBoxNumber)
        } else if box_width == 0 {
            Some(ConfigError::NonPositiveBoxWidth)
        } else if sigma == 0 {
            Some(ConfigError::NonPositiveSigma)
        } else if timestep == 0 {
            Some(ConfigError::NonPositiveTimestep)
        } else if box_number > MAX_BOX_NUMBER || box_width >= MAX_WIDTH_OR_LIMIT
            || collision_limit >= MAX_WIDTH_OR_LIMIT || timestep >= MAX_WIDTH_OR_LIMIT {
            Some(ConfigError::OutOfRange)
        } else {
            None
        }
    }

    /// Checks the configuration at setup; a refused one must not start a run.
    pub fn new(
        macroparticle: u64,
        box_number: u64,
        box_width: u64,
        sigma: u64,
        collision_limit: u64,
        timestep: u64,
    ) -> (r: Result<CollisionParameters, ConfigError>)
        ensures
            match Self::error_of(macroparticle, box_number, box_width, sigma, collision_limit, timestep) {
                Some(e) => r == Err::<CollisionParameters, ConfigError>(e),
                None => r == Ok::<CollisionParameters, ConfigError>(CollisionParameters {
                    macroparticle,
                    box_number,
                    box_width,
                    sigma,
                    collision_limit,
                    timestep,
                }),
            },
            r is Ok ==> r->Ok_0.wf(),
    {
        if macroparticle == 0 {
            Err(ConfigError::NonPositiveMacroparticle)
        } else if box_number == 0 {
            Err(ConfigError::ZeroBoxNumber)
        } else if box_width == 0 {
            Err(ConfigError::NonPositiveBoxWidth)
        } else if sigma == 0 {
            Err(ConfigError::NonPositiveSigma)
        } else if timestep == 0 {
            Err(ConfigError::NonPositiveTimestep)
        } else if box_number > MAX_BOX_NUMBER || box_width >= MAX_WIDTH_OR_LIMIT
            || collision_limit >= MAX_WIDTH_OR_LIMIT || timestep >= MAX_WIDTH_OR_LIMIT {
            Err(ConfigError::OutOfRange)
        } else {
            Ok(CollisionParameters {
                macroparticle,
                box_number,
                box_width,
                sigma,
                collision_limit,
                timestep,
            })
        }
    }
}

} // verus!

use vstd::prelude::*;

verus! {

/// Jacobi sweeps of the pressure solve in one simulation step.
pub const PRESSURE_ITERATIONS: usize = 20;

/// Relaxation passes of density diffusion in one simulation step.
pub const DIFFUSION_ITERATIONS: usize = 10;

/// One phase of a simulation step.
#[derive(Debug, Clone, Copy, PartialEq, Eq, Structural)]
pub enum Stage {
    /// Transport both velocity components along the velocity field.
    AdvectVelocity,
    /// Project the velocity field towards zero divergence.
    EnforceIncompressibility { iterations: usize },
    /// Relax the density field towards its diffused state.
    DiffuseDensity { iterations: usize },
    /// Transport density along the projected velocity field.
    AdvectDensity,
}

pub open spec fn step_pipeline() -> Seq<Stage> {
    seq![
        Stage::AdvectVelocity,
        Stage::EnforceIncompressibility { iterations: PRESSURE_ITERATIONS },
        Stage::DiffuseDensity { iterations: DIFFUSION_ITERATIONS },
        Stage::AdvectDensity,
    ]
}

/// The phases of one step, in the order they must run: density is moved
/// only along a velocity field that has been projected in the same step.
pub fn step_stages() -> (r: Vec<Stage>)
    ensures
        r@ == step_pipeline(),
{
    let mut r: Vec<Stage> = Vec::new();
    r.push(Stage::AdvectVelocity);
    r.push(Stage::EnforceIncompressibility { iterations: PRESSURE_ITERATIONS });
    r.push(Stage::DiffuseDensity { iterations: DIFFUSION_ITERATIONS });
    r.push(Stage::AdvectDensity);
    proof {
        assert(r@ =~= step_pipeline());
    }
    r
}

} // verus!

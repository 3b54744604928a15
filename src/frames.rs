use vstd::prelude::*;

verus! {

/// Interpolation parameter of one frame, as the exact fraction `num / den`.
pub struct Lerp {
    pub num: u64,
    pub den: u64,
}

/// Numerator of the fraction that frame `step` of `steps` uses:
/// `step / (steps - 1)`, and `1 / 1` for a single frame.
pub open spec fn lerp_num(step: int, steps: int) -> int {
    if steps == 1 { 1 } else { step }
}

/// Denominator of the fraction that every frame of a run of `steps` uses.
pub open spec fn lerp_den(steps: int) -> int {
    if steps == 1 { 1 } else { steps - 1 }
}

/// The interpolation parameter of frame `step` in a run of `steps` frames.
pub fn frame_lerp(step: u64, steps: u64) -> (r: Lerp)
    requires
        1 <= steps,
        step < steps,
    ensures
        r.num == lerp_num(step as int, steps as int),
        r.den == lerp_den(steps as int),
{
    if steps == 1 {
        Lerp { num: 1, den: 1 }
    } else {
        Lerp { num: step, den: steps - 1 }
    }
}

/// Every frame's parameter lies in [0, 1], with a positive denominator.
pub proof fn lemma_lerp_in_unit(step: int, steps: int)
    requires
        1 <= steps,
        0 <= step < steps,
    ensures
        0 < lerp_den(steps),
        0 <= lerp_num(step, steps) <= lerp_den(steps),
{
}

/// With two frames or more, the first frame decouples the last dimension
/// fully (parameter 0) and the last frame shows the base matrix itself
/// (parameter 1); a single frame shows the base matrix.
pub proof fn lemma_lerp_endpoints(steps: int)
    requires
        1 <= steps,
    ensures
        steps >= 2 ==> lerp_num(0, steps) == 0,
        lerp_num(steps - 1, steps) == lerp_den(steps),
{
}

/// Over one run the parameter grows strictly from frame to frame, all
/// frames sharing one denominator.
pub proof fn lemma_lerp_increasing(a: int, b: int, steps: int)
    requires
        0 <= a < b < steps,
    ensures
        lerp_num(a, steps) < lerp_num(b, steps),
{
}

/// What makes a run's configuration unusable.
#[derive(Debug, Clone, Copy, PartialEq, Eq, Structural)]
pub enum ConfigError {
    /// The matrix dimension is zero.
    EmptyMatrix,
    /// The matrix has more entries than memory can index.
    MatrixTooLarge,
    /// The run has no frame.
    NoFrames,
}

/// The configuration of one run: matrix dimension, generator seed, frame
/// count, and whether diagnostics are printed.
#[derive(Debug, Clone, Copy, PartialEq, Eq, Structural)]
pub struct RunConfig {
    pub dim: usize,
    pub seed: u64,
    pub steps: u64,
    pub verbose: bool,
}

impl RunConfig {
    /// A configuration that the pipeline can run.
    pub open spec fn valid(self) -> bool {
        &&& 1 <= self.dim
        &&& self.dim * self.dim <= usize::MAX
        &&& 1 <= self.steps
    }

    /// Checks the configuration before a run.
    pub fn check(&self) -> (r: Result<(), ConfigError>)
        ensures
            r is Ok <==> self.valid(),
            r == Err::<(), ConfigError>(ConfigError::EmptyMatrix) <==> self.dim == 0,
            r == Err::<(), ConfigError>(ConfigError::MatrixTooLarge) <==> (1 <= self.dim && self.dim * self.dim
                > usize::MAX),
            r == Err::<(), ConfigError>(ConfigError::NoFrames) <==> (1 <= self.dim && self.dim * self.dim
                <= usize::MAX && self.steps == 0),
    {
        if self.dim == 0 {
            Err(ConfigError::EmptyMatrix)
        } else if self.dim > usize::MAX / self.dim {
            proof {
                assert(self.dim * self.dim > usize::MAX) by (nonlinear_arith)
                    requires self.dim > usize::MAX / self.dim, self.dim >= 1;
            }
            Err(ConfigError::MatrixTooLarge)
        } else {
            proof {
                assert(self.dim * self.dim <= usize::MAX) by (nonlinear_arith)
                    requires self.dim <= usize::MAX / self.dim, self.dim >= 1;
            }
            if self.steps == 0 {
                Err(ConfigError::NoFrames)
            } else {
                Ok(())
            }
        }
    }
}

} // verus!

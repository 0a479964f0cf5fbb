use vstd::prelude::*;
use rand::Rng;

verus! {

/// One whole unit in fixed-point millionths: a probability of 1.
pub const PROB_SCALE: u64 = 1_000_000;

/// Reasons a probability cannot be built.
#[derive(Debug, Clone, Copy, PartialEq, Eq, Structural)]
pub enum ProbabilityError {
    /// The value lies outside the closed interval from 0 to 1.
    OutOfRange,
}

/// A probability in the closed interval [0, 1], held in millionths.
#[derive(Debug, Clone, Copy)]
pub struct Probability {
    millionths: u64,
}

impl Probability {
    #[verifier::type_invariant]
    pub(crate) open spec fn in_range(self) -> bool {
        self@ <= PROB_SCALE
    }

    /// The probability as a number of millionths.
    pub closed spec fn view(self) -> nat {
        self.millionths as nat
    }

    /// Builds the probability `millionths / PROB_SCALE`; values above 1 are refused.
    pub fn new(millionths: u64) -> (r: Result<Probability, ProbabilityError>)
        ensures
            millionths <= PROB_SCALE <==> r is Ok,
            r is Ok ==> r->Ok_0@ == millionths,
            r is Err ==> r->Err_0 == ProbabilityError::OutOfRange,
    {
        if millionths <= PROB_SCALE {
            Ok(Probability { millionths })
        } else {
            Err(ProbabilityError::OutOfRange)
        }
    }

    /// The probability `millionths / PROB_SCALE`, known to be in range.
    pub(crate) fn from_millionths(millionths: u64) -> (r: Probability)
        requires
            millionths <= PROB_SCALE,
        ensures
            r@ == millionths,
    {
        Probability { millionths }
    }

    /// The probability as a number of millionths.
    pub fn millionths(&self) -> (r: u64)
        ensures
            r == self@,
            r <= PROB_SCALE,
    {
        proof { use_type_invariant(self); }
        self.millionths
    }

    /// A probability drawn uniformly from [0, 1) at millionth resolution.
    pub fn random() -> (r: Probability)
        ensures
            r@ < PROB_SCALE,
    {
        let m = random_below(PROB_SCALE);
        Probability { millionths: m }
    }
}

/// Relies on rand's `thread_rng().gen_range(0..bound)`: a value below `bound`,
/// drawn uniformly; the range must not be empty.
#[verifier::external_body]
pub(crate) fn random_below(bound: u64) -> (r: u64)
    requires
        bound > 0,
    ensures
        r < bound,
{
    rand::thread_rng().gen_range(0..bound)
}

} // verus!

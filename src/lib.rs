//! Admission control for a bounded packet queue: a fixed-capacity FIFO queue,
//! admission policies (admit everything, a hard threshold, and Random Early
//! Detection), and the step that consults a policy before pushing a packet.
//!
//! Ratios (probabilities, smoothing weights) and fractional queue lengths are
//! fixed-point numbers counted in millionths.

mod admission;
mod policy;
mod probability;
mod queue;
mod red;

pub use admission::{handle_packet, random_delay_ms, random_packet, Admission, PACKET_BOUND};
pub use policy::{AllGoIn, Policy, Threshold};
pub use probability::{Probability, ProbabilityError, PROB_SCALE};
pub use queue::{lemma_fifo, lemma_fifo_run, pop_spec, push_spec, queue_run, BoundedQueue, MAX_CAPACITY};
pub use red::{
    admits, blend, drop_prob, ewma, lemma_average_weight, lemma_drop_curve, max_average,
    red_drop_probability, ConfigError, RandomEarlyDetection,
};

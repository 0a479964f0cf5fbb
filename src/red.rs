use vstd::prelude::*;
use crate::policy::Policy;
use crate::probability::{Probability, PROB_SCALE};
use crate::queue::{BoundedQueue, MAX_CAPACITY};

verus! {

/// The largest queue length in millionths of a packet.
pub open spec fn max_average() -> int {
    MAX_CAPACITY * PROB_SCALE
}

/// The exponentially weighted average with `weight` in millionths, before
/// rounding, scaled by `PROB_SCALE`: `(1 - weight) * average + weight * len`.
pub open spec fn blend(average: int, len: int, weight: int) -> int {
    (PROB_SCALE - weight) * average + weight * (len * PROB_SCALE)
}

/// The new average queue length in millionths of a packet after a queue of
/// `len` packets is observed, rounded down.
pub open spec fn ewma(average: int, len: int, weight: int) -> int {
    blend(average, len, weight) / (PROB_SCALE as int)
}

/// The drop probability in millionths for an average queue length `average`:
/// none up to `low`, certain beyond `high`, and a linear ramp up to
/// `max_drop_prob` in between (rounded down).
pub open spec fn drop_prob(average: int, low: int, high: int, max_drop_prob: int) -> int {
    if average <= low {
        0
    } else if average > high {
        PROB_SCALE as int
    } else {
        max_drop_prob * (average - low) / (high - low)
    }
}

/// Why a Random Early Detection policy cannot be built.
#[derive(Debug, Clone, Copy, PartialEq, Eq, Structural)]
pub enum ConfigError {
    /// The low watermark is negative.
    NegativeLow,
}

/// Random Early Detection: admits with a probability that falls as the
/// smoothed queue length rises between a low and a high watermark.
///
/// Watermarks and the average are queue lengths in millionths of a packet.
#[derive(Debug, Clone, Copy)]
pub struct RandomEarlyDetection {
    low: i64,
    high: i64,
    average: i64,
    weight: Probability,
    max_drop_prob: Probability,
}

impl RandomEarlyDetection {
    /// The low watermark.
    pub closed spec fn spec_low(&self) -> int {
        self.low as int
    }

    /// The high watermark.
    pub closed spec fn spec_high(&self) -> int {
        self.high as int
    }

    /// The smoothed queue length.
    pub closed spec fn spec_average(&self) -> int {
        self.average as int
    }

    /// The smoothing weight in millionths.
    pub closed spec fn spec_weight(&self) -> int {
        self.weight@ as int
    }

    /// The drop probability at the high watermark, in millionths.
    pub closed spec fn spec_max_drop_prob(&self) -> int {
        self.max_drop_prob@ as int
    }

    /// The watermarks are ordered from zero, the ratios are probabilities and
    /// the average is a queue length that can occur.
    pub open spec fn wf(&self) -> bool {
        &&& 0 <= self.spec_low()
        &&& 0 <= self.spec_average() <= max_average()
        &&& 0 <= self.spec_weight() <= PROB_SCALE
        &&& 0 <= self.spec_max_drop_prob() <= PROB_SCALE
    }

    /// The drop probability at the current average.
    pub open spec fn spec_drop_prob(&self) -> int {
        drop_prob(self.spec_average(), self.spec_low(), self.spec_high(), self.spec_max_drop_prob())
    }

    /// `next` is `self` with its average updated from a queue of `len` packets.
    pub open spec fn stepped(&self, next: &Self, len: nat) -> bool {
        &&& next.spec_average() == ewma(self.spec_average(), len as int, self.spec_weight())
        &&& next.spec_low() == self.spec_low()
        &&& next.spec_high() == self.spec_high()
        &&& next.spec_weight() == self.spec_weight()
        &&& next.spec_max_drop_prob() == self.spec_max_drop_prob()
    }

    /// Builds the policy with watermarks `low` and `high` (in millionths of a
    /// packet), with the average starting at the current length of `queue`.
    /// A negative `low` is refused.
    pub fn new(
        queue: &BoundedQueue,
        low: i64,
        high: i64,
        weight: Probability,
        max_drop_prob: Probability,
    ) -> (r: Result<RandomEarlyDetection, ConfigError>)
        requires
            queue.wf(),
        ensures
            r is Ok <==> low >= 0,
            r is Err ==> r->Err_0 == ConfigError::NegativeLow,
            r is Ok ==> ({
                let p = r->Ok_0;
                &&& p.wf()
                &&& p.spec_low() == low
                &&& p.spec_high() == high
                &&& p.spec_average() == queue@.len() * PROB_SCALE
                &&& p.spec_weight() == weight@
                &&& p.spec_max_drop_prob() == max_drop_prob@
            }),
    {
        if low < 0 {
            return Err(ConfigError::NegativeLow);
        }
        let len = queue.length();
        proof {
            use_type_invariant(&weight);
            use_type_invariant(&max_drop_prob);
            assert(len * PROB_SCALE <= max_average()) by (nonlinear_arith)
                requires len <= MAX_CAPACITY;
        }
        let average = (len as u64 * PROB_SCALE) as i64;
        Ok(RandomEarlyDetection { low, high, average, weight, max_drop_prob })
    }

    /// The smoothed queue length in millionths of a packet.
    pub fn average(&self) -> (r: i64)
        ensures
            r == self.spec_average(),
    {
        self.average
    }

    /// Blends a queue of `len` packets into the average.
    pub fn update_average(&mut self, len: usize)
        requires
            old(self).wf(),
            len <= MAX_CAPACITY,
        ensures
            final(self).wf(),
            old(self).stepped(&*final(self), len as nat),
    {
        let w = self.weight.millionths();
        let avg = self.average as u64;
        let sample = len as u64 * PROB_SCALE;
        proof {
            lemma_blend_bounded(avg as int, len as int, w as int);
        }
        let blended = (PROB_SCALE - w) * avg + w * sample;
        let next = blended / PROB_SCALE;
        proof {
            assert(next <= max_average()) by (nonlinear_arith)
                requires
                    blended <= max_average() * PROB_SCALE,
                    next == blended / PROB_SCALE,
                    PROB_SCALE > 0;
        }
        self.average = next as i64;
    }

    /// The drop probability at the current average.
    pub fn drop_probability(&self) -> (r: Probability)
        requires
            self.wf(),
        ensures
            r@ == self.spec_drop_prob(),
    {
        red_drop_probability(self.average, self.low, self.high, self.max_drop_prob)
    }

    /// Updates the average from a queue of `len` packets and returns the new
    /// drop probability.
    pub fn update(&mut self, len: usize) -> (r: Probability)
        requires
            old(self).wf(),
            len <= MAX_CAPACITY,
        ensures
            final(self).wf(),
            old(self).stepped(&*final(self), len as nat),
            r@ == final(self).spec_drop_prob(),
    {
        self.update_average(len);
        self.drop_probability()
    }

    /// Decides with the random draw `dice`: the average is updated from
    /// `queue`, and the packet is admitted when the drop probability does not
    /// exceed `dice`.
    pub fn decide_with_dice(&mut self, queue: &BoundedQueue, dice: Probability) -> (r: bool)
        requires
            old(self).wf(),
            queue.wf(),
        ensures
            final(self).wf(),
            old(self).stepped(&*final(self), queue@.len()),
            r == (final(self).spec_drop_prob() <= dice@),
    {
        let len = queue.length();
        let p = self.update(len);
        admits(p, dice)
    }
}

impl Policy for RandomEarlyDetection {
    open spec fn inv(&self) -> bool {
        self.wf()
    }

    /// The average moves as `stepped` says; a packet is refused only where
    /// the new drop probability is above zero, and always where it is one.
    open spec fn allowed(&self, next: &Self, len: nat, r: bool) -> bool {
        &&& self.stepped(next, len)
        &&& !r ==> next.spec_drop_prob() > 0
        &&& next.spec_drop_prob() >= PROB_SCALE ==> !r
    }

    fn allow(&mut self, queue: &BoundedQueue) -> (r: bool) {
        let dice = Probability::random();
        self.decide_with_dice(queue, dice)
    }
}

/// Whether a packet is admitted when the drop probability is `drop` and the
/// random draw is `dice`.
pub fn admits(drop: Probability, dice: Probability) -> (r: bool)
    ensures
        r == (drop@ <= dice@),
{
    drop.millionths() <= dice.millionths()
}

/// The drop probability for the average queue length `average`, with
/// watermarks `low` and `high` and ramp top `max_drop_prob`; lengths are in
/// millionths of a packet.
pub fn red_drop_probability(average: i64, low: i64, high: i64, max_drop_prob: Probability) -> (r: Probability)
    requires
        0 <= low,
        0 <= average <= max_average(),
    ensures
        r@ == drop_prob(average as int, low as int, high as int, max_drop_prob@ as int),
{
    let m = max_drop_prob.millionths();
    let millionths: u64 = if average <= low {
        0
    } else if average > high {
        PROB_SCALE
    } else {
        let above = (average - low) as u64;
        let span = (high - low) as u64;
        proof {
            assert(m * above <= PROB_SCALE * max_average()) by (nonlinear_arith)
                requires m <= PROB_SCALE, above <= max_average();
            assert((m as int) * (above as int) / (span as int) <= m as int) by (nonlinear_arith)
                requires above <= span, span > 0, m >= 0;
        }
        m * above / span
    };
    Probability::from_millionths(millionths)
}

/// Smoothing is monotone in the weight: for a sample above the average, a
/// larger weight blends to a strictly larger value and, after rounding, to a
/// new average at least as large; the new average is strictly larger once the
/// two blends differ by at least one millionth of a packet. A weight of zero
/// keeps the average and a weight of one takes the sample exactly.
pub proof fn lemma_average_weight(average: int, len: int, w1: int, w2: int)
    requires
        0 <= average <= max_average(),
        0 <= len <= MAX_CAPACITY,
        0 <= w1 <= PROB_SCALE,
        0 <= w2 <= PROB_SCALE,
    ensures
        w1 < w2 && len * PROB_SCALE > average ==> blend(average, len, w1) < blend(average, len, w2)
            && ewma(average, len, w1) <= ewma(average, len, w2),
        (w2 - w1) * (len * PROB_SCALE - average) >= PROB_SCALE ==> ewma(average, len, w1) < ewma(
            average,
            len,
            w2,
        ),
        ewma(average, len, 0) == average,
        ewma(average, len, PROB_SCALE as int) == len * PROB_SCALE,
{
    let s = PROB_SCALE as int;
    if w1 < w2 && len * s > average {
        assert(((s - w2) * average + w2 * (len * s)) - ((s - w1) * average + w1 * (len * s))
            == (w2 - w1) * (len * s - average)) by (nonlinear_arith);
        assert((w2 - w1) * (len * s - average) > 0) by (nonlinear_arith)
            requires w2 - w1 > 0, len * s - average > 0;
        lemma_div_monotone(blend(average, len, w1), blend(average, len, w2), s);
    }
    if (w2 - w1) * (len * s - average) >= s {
        let b1 = blend(average, len, w1);
        let b2 = blend(average, len, w2);
        assert(((s - w2) * average + w2 * (len * s)) - ((s - w1) * average + w1 * (len * s))
            == (w2 - w1) * (len * s - average)) by (nonlinear_arith);
        assert(b1 + s <= b2);
        vstd::arithmetic::div_mod::lemma_div_plus_one(b1, s);
        lemma_div_monotone(b1 + s, b2, s);
    }
    assert((s - 0) * average + 0 * (len * s) == s * average) by (nonlinear_arith);
    assert((s * average) / s == average) by (nonlinear_arith) requires s > 0;
    assert((s - s) * average + s * (len * s) == s * (len * s)) by (nonlinear_arith);
    assert((s * (len * s)) / s == len * s) by (nonlinear_arith) requires s > 0;
}

/// The drop curve starts at zero at the low watermark, reaches the ramp top
/// exactly at the high watermark, and never falls between the two.
pub proof fn lemma_drop_curve(low: int, high: int, max_drop_prob: int, a1: int, a2: int)
    requires
        0 <= low < high,
        0 <= max_drop_prob <= PROB_SCALE,
    ensures
        drop_prob(low, low, high, max_drop_prob) == 0,
        drop_prob(high, low, high, max_drop_prob) == max_drop_prob,
        low <= a1 <= a2 <= high ==> drop_prob(a1, low, high, max_drop_prob) <= drop_prob(a2, low, high, max_drop_prob),
{
    assert(max_drop_prob * (high - low) / (high - low) == max_drop_prob) by (nonlinear_arith)
        requires high - low > 0;
    if low <= a1 <= a2 <= high {
        if a1 > low {
            assert(max_drop_prob * (a1 - low) <= max_drop_prob * (a2 - low)) by (nonlinear_arith)
                requires a1 <= a2, max_drop_prob >= 0;
            lemma_div_monotone(max_drop_prob * (a1 - low), max_drop_prob * (a2 - low), high - low);
        } else if a2 > low {
            assert(max_drop_prob * (a2 - low) >= 0) by (nonlinear_arith)
                requires a2 > low, max_drop_prob >= 0;
            assert(max_drop_prob * (a2 - low) / (high - low) >= 0) by (nonlinear_arith)
                requires max_drop_prob * (a2 - low) >= 0, high - low > 0;
        }
    }
}

proof fn lemma_div_monotone(x: int, y: int, d: int)
    requires
        x <= y,
        d > 0,
    ensures
        x / d <= y / d,
{
    vstd::arithmetic::div_mod::lemma_div_is_ordered(x, y, d);
}

proof fn lemma_blend_bounded(average: int, len: int, weight: int)
    requires
        0 <= average <= max_average(),
        0 <= len <= MAX_CAPACITY,
        0 <= weight <= PROB_SCALE,
    ensures
        0 <= blend(average, len, weight) <= max_average() * PROB_SCALE,
{
    assert(0 <= (PROB_SCALE - weight) * average <= (PROB_SCALE - weight) * max_average()) by (nonlinear_arith)
        requires 0 <= average <= max_average(), 0 <= weight <= PROB_SCALE;
    assert(0 <= weight * (len * PROB_SCALE) <= weight * max_average()) by (nonlinear_arith)
        requires 0 <= len <= MAX_CAPACITY, 0 <= weight, max_average() == MAX_CAPACITY * PROB_SCALE;
    assert((PROB_SCALE - weight) * max_average() + weight * max_average() == PROB_SCALE * max_average()) by (nonlinear_arith);
}

} // verus!

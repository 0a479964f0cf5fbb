use vstd::prelude::*;
use crate::queue::BoundedQueue;

verus! {

/// Decides, once for each arriving packet, whether it may enter the queue.
pub trait Policy {
    /// What the policy keeps true of its own state between decisions.
    spec fn inv(&self) -> bool;

    /// `r` is a decision this policy may make, moving from `self` to `next`,
    /// when the queue holds `len` packets.
    spec fn allowed(&self, next: &Self, len: nat, r: bool) -> bool;

    /// Decides whether the next packet is admitted to `queue`.
    fn allow(&mut self, queue: &BoundedQueue) -> (r: bool)
        requires
            old(self).inv(),
            queue.wf(),
        ensures
            final(self).inv(),
            Self::allowed(&*old(self), &*final(self), queue@.len(), r);
}

/// The policy that admits every packet.
#[derive(Debug, Clone, Copy)]
pub struct AllGoIn;

impl Policy for AllGoIn {
    open spec fn inv(&self) -> bool {
        true
    }

    open spec fn allowed(&self, next: &Self, len: nat, r: bool) -> bool {
        r
    }

    fn allow(&mut self, queue: &BoundedQueue) -> (r: bool) {
        true
    }
}

/// The policy that admits a packet while the queue holds fewer packets than a
/// fixed threshold.
#[derive(Debug, Clone, Copy)]
pub struct Threshold {
    threshold: usize,
}

impl Threshold {
    /// The fixed threshold.
    pub closed spec fn spec_threshold(&self) -> nat {
        self.threshold as nat
    }

    /// The policy that admits while the queue is shorter than `threshold`.
    pub fn new(threshold: usize) -> (r: Threshold)
        ensures
            r.spec_threshold() == threshold,
    {
        Threshold { threshold }
    }

    /// Whether a queue of `len` packets admits one more.
    pub fn admits(&self, len: usize) -> (r: bool)
        ensures
            r == (len < self.spec_threshold()),
    {
        len < self.threshold
    }
}

impl Policy for Threshold {
    open spec fn inv(&self) -> bool {
        true
    }

    open spec fn allowed(&self, next: &Self, len: nat, r: bool) -> bool {
        &&& next.spec_threshold() == self.spec_threshold()
        &&& r == (len < self.spec_threshold())
    }

    fn allow(&mut self, queue: &BoundedQueue) -> (r: bool) {
        self.admits(queue.length())
    }
}

} // verus!

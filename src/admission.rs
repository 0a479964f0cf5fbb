use vstd::prelude::*;
use crate::policy::Policy;
use crate::probability::random_below;
use crate::queue::{push_spec, BoundedQueue};

verus! {

/// The largest packet value, plus one.
pub const PACKET_BOUND: u64 = 100;

/// What became of an arriving packet.
#[derive(Debug, Clone, Copy, PartialEq, Eq, Structural)]
pub enum Admission {
    /// The policy admitted it and it entered the queue.
    Admitted,
    /// The policy refused it.
    Discarded,
    /// The policy admitted it, but the queue was already full.
    Lost,
}

/// Consults `policy` once for `packet` and, when it admits, offers the packet
/// to `queue`.
pub fn handle_packet<P: Policy>(policy: &mut P, queue: &mut BoundedQueue, packet: i32) -> (r: Admission)
    requires
        old(policy).inv(),
        old(queue).wf(),
    ensures
        final(policy).inv(),
        final(queue).wf(),
        P::allowed(&*old(policy), &*final(policy), old(queue)@.len(), r != Admission::Discarded),
        final(queue).spec_capacity() == old(queue).spec_capacity(),
        r == Admission::Discarded ==> final(queue)@ == old(queue)@,
        r != Admission::Discarded ==> final(queue)@ == push_spec(
            old(queue)@,
            old(queue).spec_capacity(),
            packet,
        ),
        r != Admission::Discarded ==> (r == Admission::Admitted <==> old(queue)@.len()
            < old(queue).spec_capacity()),
{
    if policy.allow(queue) {
        if queue.try_push(packet) {
            Admission::Admitted
        } else {
            Admission::Lost
        }
    } else {
        Admission::Discarded
    }
}

/// A random packet value below [`PACKET_BOUND`].
pub fn random_packet() -> (r: i32)
    ensures
        0 <= r < PACKET_BOUND,
{
    random_below(PACKET_BOUND) as i32
}

/// A random delay in milliseconds below `max_ms`.
pub fn random_delay_ms(max_ms: u64) -> (r: u64)
    requires
        max_ms > 0,
    ensures
        r < max_ms,
{
    random_below(max_ms)
}

} // verus!

//! The poller: a background loop that, between fixed delays, takes
//! the pause gate, probes the socket for one byte without blocking,
//! raises a notification when data is there, and releases the pause
//! gate again. While a pauser holds it, the loop blocks there and
//! issues no probe.

use vstd::prelude::*;

use crate::errors::ProxyError;
use crate::gate::PauseGate;
use crate::transport::RecvChunk;

verus! {

/// What one poller iteration did.
#[derive(Clone, Copy, PartialEq, Eq, Structural, Debug)]
pub enum PollStep {
    /// The pause gate is held by a pauser; the iteration blocked before
    /// any probe.
    Blocked,
    /// The probe saw data: raise a notification with the byte count.
    Notify(usize),
    /// The probe saw no data (or the iteration swallowed end of
    /// stream or an error, which the loop does not treat specially).
    Quiet,
}

/// The decision one poller iteration takes, given whether the pause
/// gate is held and, if it is not, what the probe yielded.
pub open spec fn poll_decision(gate_held: bool, probe: RecvChunk) -> PollStep {
    if gate_held {
        PollStep::Blocked
    } else {
        match probe {
            RecvChunk::Bytes(n) => PollStep::Notify(n),
            _ => PollStep::Quiet,
        }
    }
}

/// Whether the poller's next iteration probes at all: it first takes
/// the pause gate and blocks for as long as a pauser holds it.
pub fn poller_may_probe(gate: &PauseGate) -> (r: bool)
    ensures
        r == !gate.spec_held(),
{
    !gate.held
}

/// What the poller does with a probe's outcome: a notification
/// carrying the byte count when data arrived, nothing otherwise —
/// end of stream and errors are swallowed, exactly like "no data".
pub fn probe_reaction(probe: RecvChunk) -> (r: PollStep)
    ensures
        r == poll_decision(false, probe),
{
    match probe {
        RecvChunk::Bytes(n) => PollStep::Notify(n),
        RecvChunk::Closed => PollStep::Quiet,
        RecvChunk::SysError(_) => PollStep::Quiet,
    }
}

/// One turn of the poller loop: take the pause gate — a held one
/// blocks the iteration before any probe — then judge the probe's
/// outcome `probe` and release the pause gate again. A pauser's hold
/// is never disturbed: the pause gate leaves exactly as it came.
pub fn poller_iteration(gate: &mut PauseGate, probe: RecvChunk) -> (r: PollStep)
    ensures
        *final(gate) == *old(gate),
        r == poll_decision(old(gate).spec_held(), probe),
{
    match gate.acquire() {
        crate::gate::Acquire::Blocks => PollStep::Blocked,
        crate::gate::Acquire::Acquired => {
            let step = probe_reaction(probe);
            gate.release();
            step
        },
    }
}

/// After a pause the poller issues no probe until a resume: a held
/// gate turns every iteration into `Blocked`, and once the pause gate is
/// released an iteration probes again and notifies exactly when the
/// probe saw data.
pub proof fn lemma_pause_stops_probes(g: PauseGate, probe: RecvChunk)
    ensures
        g.spec_held() ==> poll_decision(g.spec_held(), probe) is Blocked,
        !g.spec_held() ==> !(poll_decision(g.spec_held(), probe) is Blocked),
        !g.spec_held() ==> (poll_decision(g.spec_held(), probe) is Notify
            <==> probe is Bytes),
{
}

/// Judges the platform's answer to spawning the poller thread: the
/// loop is running exactly when the platform reported 0; any other
/// answer is a thread-creation error carrying that code.
pub fn start_result(create_rc: i32) -> (r: Result<(), ProxyError>)
    ensures
        r is Ok <==> create_rc == 0,
        create_rc != 0 ==> r == Err::<(), ProxyError>(ProxyError::Thread(create_rc)),
{
    if create_rc == 0 {
        Ok(())
    } else {
        Err(ProxyError::Thread(create_rc))
    }
}

/// The caller-visible notification state: how many notifications the
/// poller has delivered.
pub struct Notifications {
    pub delivered: u64,
}

impl Notifications {
    pub fn new() -> (n: Notifications)
        ensures
            n.delivered == 0,
    {
        Notifications { delivered: 0 }
    }

    /// The notification hook the poller invokes when a probe saw
    /// data. Returns 1, as the boundary promises, and records the
    /// delivery.
    pub fn message_received(&mut self, byte_count: usize) -> (r: i32)
        requires
            old(self).delivered < u64::MAX,
        ensures
            r == 1,
            final(self).delivered == old(self).delivered + 1,
    {
        self.delivered = self.delivered + 1;
        1
    }
}

} // verus!

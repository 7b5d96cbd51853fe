//! The guarded transport: send and receive on the shared socket,
//! serialized by one transport lock, and the wait-for-all receive
//! discipline — a receive of N bytes finishes with exactly N bytes,
//! with 0 when the peer closed, or with an error, never with a
//! partial count.

use vstd::prelude::*;

use crate::errors::ProxyError;
use crate::gate::Acquire;

verus! {

/// What one platform send call did: how many bytes it accepted
/// (possibly fewer than offered — a short write), or the system
/// error it reported.
#[derive(Clone, Copy, PartialEq, Eq, Structural, Debug)]
pub enum SendOutcome {
    Sent(usize),
    SysError(i32),
}

/// What one platform receive call yielded: a positive number of
/// bytes, end of stream, or a system error.
#[derive(Clone, Copy, PartialEq, Eq, Structural, Debug)]
pub enum RecvChunk {
    Bytes(usize),
    Closed,
    SysError(i32),
}

/// The lock that serializes every application-level send and receive
/// on the session's socket.
pub struct TransportLock {
    pub locked: bool,
}

/// Whether an attempt to take the transport lock blocks its caller.
pub open spec fn transport_blocks(l: TransportLock) -> bool {
    l.locked
}

/// The lock state once an operation has taken it.
pub open spec fn transport_taken(l: TransportLock) -> TransportLock {
    TransportLock { locked: true }
}

impl TransportLock {
    pub open spec fn spec_locked(self) -> bool {
        self.locked
    }

    /// A freshly initialized transport lock is free.
    pub fn new() -> (l: TransportLock)
        ensures
            !l.spec_locked(),
    {
        TransportLock { locked: false }
    }

    /// One attempt to take the lock: the caller takes a free lock and
    /// blocks on a held one, which stays unchanged.
    pub fn acquire(&mut self) -> (r: Acquire)
        ensures
            r == Acquire::Blocks <==> transport_blocks(*old(self)),
            transport_blocks(*old(self)) ==> *final(self) == *old(self),
            !transport_blocks(*old(self)) ==> *final(self) == transport_taken(*old(self)),
            final(self).spec_locked(),
    {
        if self.locked {
            Acquire::Blocks
        } else {
            self.locked = true;
            Acquire::Acquired
        }
    }

    /// Release the lock. Only the operation that holds it does so.
    pub fn release(&mut self)
        requires
            old(self).spec_locked(),
        ensures
            !final(self).spec_locked(),
    {
        self.locked = false;
    }
}

/// Send and receive are mutually exclusive: while one operation
/// holds the transport lock, every other attempt to take it blocks,
/// so two operations' bytes never interleave — each holds the lock
/// from its first byte to its last.
pub proof fn lemma_transport_serialized(l: TransportLock)
    requires
        !transport_blocks(l),
    ensures
        transport_blocks(transport_taken(l)),
{
}

/// One guarded send. It runs once the transport lock is free, holds
/// the lock across the single platform send call whose outcome is
/// `outcome`, and releases the lock unconditionally — on error too.
/// Returns the bytes the platform accepted (a short write is
/// possible; the transport does not loop to finish the buffer) or
/// the I/O error.
pub fn locked_send(lock: &mut TransportLock, offered: usize, outcome: SendOutcome) -> (r: Result<
    usize,
    ProxyError,
>)
    requires
        !transport_blocks(*old(lock)),
        outcome matches SendOutcome::Sent(n) ==> n <= offered,
    ensures
        !final(lock).spec_locked(),
        match r {
            Ok(n) => outcome == SendOutcome::Sent(n) && n <= offered,
            Err(e) => outcome matches SendOutcome::SysError(c) && e == ProxyError::Io(c),
        },
{
    let _took = lock.acquire();
    let r: Result<usize, ProxyError> = match outcome {
        SendOutcome::Sent(n) => Ok(n),
        SendOutcome::SysError(c) => Err(ProxyError::Io(c)),
    };
    lock.release();
    r
}

/// The boundary code of a finished send: the byte count the
/// platform accepted, or -1 on error, as the send call itself
/// reports it.
pub fn send_code(r: &Result<usize, ProxyError>) -> (code: isize)
    requires
        r matches Ok(n) ==> n <= isize::MAX,
    ensures
        r matches Ok(n) ==> code == n,
        r is Err ==> code == -1,
        code >= 0 <==> r is Ok,
{
    match r {
        Ok(n) => *n as isize,
        Err(_) => -1,
    }
}

/// The state of one wait-for-all receive.
#[derive(Clone, Copy, PartialEq, Eq, Structural, Debug)]
pub enum RecvState {
    /// Not all requested bytes are in yet; keep receiving.
    Pending,
    /// All requested bytes are in.
    Complete,
    /// The peer closed the connection before the request was filled.
    PeerClosed,
    /// A system error ended the receive.
    Failed(i32),
}

/// A wait-for-all receive of `requested` bytes: chunks are fed in as
/// the socket yields them until the request is filled, the peer
/// closes, or an error arrives.
pub struct RecvAll {
    pub requested: usize,
    pub received: usize,
    pub state: RecvState,
}

impl RecvAll {
    /// The states are consistent with the counts: a pending receive
    /// still misses bytes, a complete one has them all.
    pub open spec fn wf(self) -> bool {
        &&& self.received <= self.requested
        &&& (self.state is Pending ==> self.received < self.requested)
        &&& (self.state is Complete ==> self.received == self.requested)
    }

    /// The signed count this receive reports once finished: the full
    /// request, 0 for a closed peer, -1 for an error.
    pub open spec fn spec_result(self) -> int {
        match self.state {
            RecvState::Complete => self.requested as int,
            RecvState::PeerClosed => 0,
            _ => -1,
        }
    }

    /// Start a receive of `requested` bytes. A request for 0 bytes is
    /// complete at once.
    pub fn new(requested: usize) -> (m: RecvAll)
        ensures
            m.wf(),
            m.requested == requested,
            m.received == 0,
            m.state is Pending <==> requested > 0,
            requested == 0 ==> m.state is Complete,
    {
        if requested == 0 {
            RecvAll { requested, received: 0, state: RecvState::Complete }
        } else {
            RecvAll { requested, received: 0, state: RecvState::Pending }
        }
    }

    /// How many bytes the next platform receive should ask for.
    pub fn remaining(&self) -> (n: usize)
        requires
            self.wf(),
        ensures
            n == self.requested - self.received,
    {
        self.requested - self.received
    }

    /// Feed the outcome of one platform receive call. Bytes accrue
    /// until the request is filled; end of stream or an error ends
    /// the receive at once.
    pub fn feed(&mut self, chunk: RecvChunk)
        requires
            old(self).wf(),
            old(self).state is Pending,
            chunk matches RecvChunk::Bytes(n) ==> 1 <= n <= old(self).requested - old(self).received,
        ensures
            final(self).wf(),
            final(self).requested == old(self).requested,
            chunk matches RecvChunk::Bytes(n) ==> final(self).received == old(self).received + n,
            chunk matches RecvChunk::Bytes(n) ==> (final(self).state is Complete <==> old(self).received + n == old(self).requested),
            chunk matches RecvChunk::Bytes(n) ==> (old(self).received + n < old(self).requested ==> final(self).state is Pending),
            chunk is Closed ==> final(self).state is PeerClosed && final(self).received == old(self).received,
            chunk matches RecvChunk::SysError(c) ==> final(self).state == RecvState::Failed(c) && final(self).received == old(self).received,
    {
        match chunk {
            RecvChunk::Bytes(n) => {
                self.received = self.received + n;
                if self.received == self.requested {
                    self.state = RecvState::Complete;
                }
            },
            RecvChunk::Closed => {
                self.state = RecvState::PeerClosed;
            },
            RecvChunk::SysError(c) => {
                self.state = RecvState::Failed(c);
            },
        }
    }

    /// The boundary code of a finished receive.
    pub fn result_code(&self) -> (code: i32)
        requires
            self.wf(),
            !(self.state is Pending),
            self.requested <= i32::MAX,
        ensures
            code == self.spec_result(),
    {
        match self.state {
            RecvState::Complete => self.requested as i32,
            RecvState::PeerClosed => 0,
            RecvState::Pending => -1,
            RecvState::Failed(_) => -1,
        }
    }
}

/// A finished wait-for-all receive never reports a partial count:
/// its result is exactly the requested length, or 0 when the peer
/// closed, or -1 on error — never a value strictly between 0 and
/// the request.
pub proof fn lemma_recv_never_partial(m: RecvAll)
    requires
        m.wf(),
        !(m.state is Pending),
    ensures
        m.spec_result() == m.requested as int || m.spec_result() == 0 || m.spec_result() == -1,
        m.state is Complete ==> m.received == m.requested,
{
}

} // verus!

//! A managed socket session: one TCP endpoint over the bound interface,
//! valid for one link generation. Opening is guarded by the supervisor
//! being `Ready`; writes buffer until the caller flushes them to the
//! stack; reads are decided against the caller's deadline and never wait
//! past it; close always succeeds and is meant for every exit path. The
//! stack's own work — dialing, pushing bytes, polling — happens outside
//! and its outcome is handed back in.

use vstd::prelude::*;
use vstd::slice::slice_to_vec;
use crate::errors::SocketError;
use crate::ipv4::Ipv4Addr;
use crate::supervisor::ConnectionSupervisor;

verus! {

/// What the stack reported when the session's buffered bytes were pushed.
#[derive(Clone, Copy, Debug, PartialEq, Eq, Structural)]
pub enum FlushOutcome {
    /// The stack accepted every byte.
    Accepted,
    /// The peer reset the connection mid-write.
    PeerReset,
}

/// What one receive poll of the stack found.
#[derive(Clone, Copy, Debug, PartialEq, Eq, Structural)]
pub enum RxPoll {
    /// The carried number of bytes is ready, already placed in the
    /// caller's buffer.
    Data(usize),
    /// Nothing yet.
    Empty,
    /// The peer closed its side in order.
    Eof,
    /// The peer reset the connection.
    Reset,
}

/// What a read step decides.
#[derive(Clone, Copy, Debug, PartialEq, Eq, Structural)]
pub enum ReadStep {
    /// Deliver the carried positive byte count to the caller.
    Deliver(usize),
    /// Zero bytes: orderly end of stream.
    EndOfStream,
    /// Fail with the carried error; the session is closed.
    Fail(SocketError),
    /// Nothing yet and time remains: pump the stack and poll again.
    Wait,
}

/// The read decision. The deadline is checked first, so a deadline
/// already reached times out at once, whatever else the poll found;
/// then a reset fails, an orderly close ends the stream, data is
/// delivered, and otherwise the caller may poll again.
pub open spec fn read_step_spec(valid: bool, now_ms: u64, deadline_ms: u64, rx: RxPoll) -> ReadStep {
    if !valid {
        ReadStep::Fail(SocketError::Closed)
    } else if now_ms >= deadline_ms {
        ReadStep::Fail(SocketError::Timeout)
    } else {
        match rx {
            RxPoll::Reset => ReadStep::Fail(SocketError::Closed),
            RxPoll::Eof => ReadStep::EndOfStream,
            RxPoll::Data(n) => if n > 0 {
                ReadStep::Deliver(n)
            } else {
                ReadStep::Wait
            },
            RxPoll::Empty => ReadStep::Wait,
        }
    }
}

/// A deadline already reached times out immediately: a live session's
/// read step with `now_ms >= deadline_ms` is `Timeout`, never a wait,
/// whatever the poll found.
pub proof fn lemma_past_deadline_times_out(now_ms: u64, deadline_ms: u64, rx: RxPoll)
    requires
        now_ms >= deadline_ms,
    ensures
        read_step_spec(true, now_ms, deadline_ms, rx) == ReadStep::Fail(SocketError::Timeout),
{
}

/// A read step never waits at or past the deadline: `Wait` implies time
/// remains.
pub proof fn lemma_read_never_waits_past_deadline(
    valid: bool,
    now_ms: u64,
    deadline_ms: u64,
    rx: RxPoll,
)
    ensures
        read_step_spec(valid, now_ms, deadline_ms, rx) == ReadStep::Wait ==> now_ms < deadline_ms,
{
}

/// One socket session: at most one open endpoint at a time, bound to the
/// link generation it was opened in and never reused across generations.
pub struct SocketSession {
    open: bool,
    generation: u64,
    remote: Option<(Ipv4Addr, u16)>,
    tx: Vec<u8>,
}

impl SocketSession {
    /// An endpoint is open.
    pub closed spec fn is_open(self) -> bool {
        self.open
    }

    /// The link generation the endpoint was opened in.
    pub closed spec fn generation_spec(self) -> u64 {
        self.generation
    }

    /// The remote endpoint, while open.
    pub closed spec fn remote_spec(self) -> Option<(Ipv4Addr, u16)> {
        self.remote
    }

    /// Bytes written and not yet flushed to the stack.
    pub closed spec fn pending_bytes(self) -> Seq<u8> {
        self.tx@
    }

    /// The session is open and still belongs to the current link
    /// generation of a `Ready` supervisor: its operations may proceed.
    pub open spec fn valid_for(self, sup: ConnectionSupervisor) -> bool {
        &&& self.is_open()
        &&& sup.state_spec() is Ready
        &&& self.generation_spec() == sup.generation_spec()
    }

    /// A fresh session: closed, nothing pending.
    pub fn new() -> (r: SocketSession)
        ensures
            !r.is_open(),
            r.pending_bytes().len() == 0,
    {
        SocketSession { open: false, generation: 0, remote: None, tx: Vec::new() }
    }

    /// Open an endpoint to the given peer. Fails with `NotReady` unless
    /// the supervisor is `Ready`, and with `AlreadyOpen` if this session
    /// already holds an endpoint; on failure nothing is allocated and the
    /// session is unchanged. On success the endpoint is bound to the
    /// current link generation with an empty write buffer.
    pub fn open(&mut self, sup: &ConnectionSupervisor, remote: Ipv4Addr, port: u16) -> (r: Result<
        (),
        SocketError,
    >)
        ensures
            !(sup.state_spec() is Ready) ==> r == Err::<(), SocketError>(SocketError::NotReady)
                && *final(self) == *old(self),
            sup.state_spec() is Ready && old(self).is_open() ==> r == Err::<(), SocketError>(
                SocketError::AlreadyOpen,
            ) && *final(self) == *old(self),
            sup.state_spec() is Ready && !old(self).is_open() ==> {
                &&& r is Ok
                &&& final(self).is_open()
                &&& final(self).generation_spec() == sup.generation_spec()
                &&& final(self).remote_spec() == Some((remote, port))
                &&& final(self).pending_bytes().len() == 0
                &&& final(self).valid_for(*sup)
            },
    {
        if !sup.is_ready() {
            return Err(SocketError::NotReady);
        }
        if self.open {
            return Err(SocketError::AlreadyOpen);
        }
        self.open = true;
        self.generation = sup.generation();
        self.remote = Some((remote, port));
        self.tx = Vec::new();
        Ok(())
    }

    /// Buffer bytes for the peer: they are sent when the caller flushes.
    /// Fails with `Closed`, closing the session, when the endpoint is not
    /// open any more or belongs to an earlier link generation — work that
    /// straddles a disconnect fails rather than touch stale state.
    pub fn write_all(&mut self, sup: &ConnectionSupervisor, data: &[u8]) -> (r: Result<
        (),
        SocketError,
    >)
        ensures
            old(self).valid_for(*sup) ==> {
                &&& r is Ok
                &&& final(self).is_open()
                &&& final(self).generation_spec() == old(self).generation_spec()
                &&& final(self).remote_spec() == old(self).remote_spec()
                &&& final(self).pending_bytes() == old(self).pending_bytes() + data@
            },
            !old(self).valid_for(*sup) ==> r == Err::<(), SocketError>(SocketError::Closed)
                && !final(self).is_open() && final(self).pending_bytes().len() == 0,
    {
        if !self.open || !sup.is_ready() || self.generation != sup.generation() {
            self.close();
            return Err(SocketError::Closed);
        }
        let mut more = slice_to_vec(data);
        self.tx.append(&mut more);
        Ok(())
    }

    /// Hand the buffered bytes over for the stack to send, leaving the
    /// buffer empty. What the stack reported afterwards goes to
    /// `on_flush_result`.
    pub fn take_pending(&mut self) -> (out: Vec<u8>)
        ensures
            out@ == old(self).pending_bytes(),
            final(self).is_open() == old(self).is_open(),
            final(self).generation_spec() == old(self).generation_spec(),
            final(self).remote_spec() == old(self).remote_spec(),
            final(self).pending_bytes().len() == 0,
    {
        let mut out: Vec<u8> = Vec::new();
        core::mem::swap(&mut out, &mut self.tx);
        out
    }

    /// Record what the stack reported for the pushed bytes: a reset from
    /// the peer closes the session and surfaces as `Closed`.
    pub fn on_flush_result(&mut self, outcome: FlushOutcome) -> (r: Result<(), SocketError>)
        ensures
            outcome == FlushOutcome::Accepted ==> r is Ok && *final(self) == *old(self),
            outcome == FlushOutcome::PeerReset ==> r == Err::<(), SocketError>(SocketError::Closed)
                && !final(self).is_open() && final(self).pending_bytes().len() == 0,
    {
        match outcome {
            FlushOutcome::Accepted => Ok(()),
            FlushOutcome::PeerReset => {
                self.close();
                Err(SocketError::Closed)
            },
        }
    }

    /// Decide one read against the caller's deadline, from what a receive
    /// poll found. Follows `read_step_spec`; a failing step closes the
    /// session, any other step leaves it unchanged.
    pub fn read_step(
        &mut self,
        sup: &ConnectionSupervisor,
        now_ms: u64,
        deadline_ms: u64,
        rx: RxPoll,
    ) -> (r: ReadStep)
        ensures
            r == read_step_spec(old(self).valid_for(*sup), now_ms, deadline_ms, rx),
            r is Fail ==> !final(self).is_open() && final(self).pending_bytes().len() == 0,
            !(r is Fail) ==> *final(self) == *old(self),
    {
        if !self.open || !sup.is_ready() || self.generation != sup.generation() {
            self.close();
            return ReadStep::Fail(SocketError::Closed);
        }
        if now_ms >= deadline_ms {
            self.close();
            return ReadStep::Fail(SocketError::Timeout);
        }
        match rx {
            RxPoll::Reset => {
                self.close();
                ReadStep::Fail(SocketError::Closed)
            },
            RxPoll::Eof => ReadStep::EndOfStream,
            RxPoll::Data(n) => {
                if n > 0 {
                    ReadStep::Deliver(n)
                } else {
                    ReadStep::Wait
                }
            },
            RxPoll::Empty => ReadStep::Wait,
        }
    }

    /// Close the endpoint and drop anything unsent. Always succeeds, on
    /// every exit path — success, error, or timeout — so a partially
    /// written or read session never leaks an endpoint.
    pub fn close(&mut self)
        ensures
            !final(self).is_open(),
            final(self).pending_bytes().len() == 0,
            final(self).remote_spec() is None,
    {
        self.open = false;
        self.remote = None;
        self.tx = Vec::new();
    }
}

} // verus!

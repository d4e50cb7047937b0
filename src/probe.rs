use vstd::prelude::*;
use crate::errors::SocketIOError;

verus! {

/// Where one streaming probe invocation stands.
#[derive(Clone, Copy, Debug, PartialEq, Eq, Structural)]
pub enum Phase {
    Running,
    /// Every round ran; the session is to be closed.
    Completed,
    /// The peer went away; nothing more is emitted.
    Cancelled,
}

/// What the probe loop does next.
#[derive(Clone, Copy, Debug, PartialEq, Eq, Structural)]
pub enum LoopAction {
    /// Wait for the next tick, run one round and report it under `seq`.
    Probe { seq: u32 },
    /// All rounds ran: close the session.
    Close,
    /// Cancelled: stop without emitting or closing.
    Stop,
}

/// The state of the iteration loop of a ping or tcping invocation.
#[derive(Clone, Copy, Debug, PartialEq, Eq, Structural)]
pub struct ProbeLoop {
    /// Rounds started so far; the last one was reported under this number.
    pub emitted: u32,
    /// Rounds to run in all.
    pub total: u32,
    pub phase: Phase,
}

/// Rounds of a streaming probe: one when single-shot, a hundred otherwise.
pub open spec fn rounds(single: bool) -> u32 {
    if single {
        1
    } else {
        100
    }
}

/// Number of probe rounds a streaming probe runs.
pub fn iteration_count(single: bool) -> (r: u32)
    ensures
        r == rounds(single),
{
    if single {
        1
    } else {
        100
    }
}

impl ProbeLoop {
    pub open spec fn wf(self) -> bool {
        self.emitted <= self.total
    }

    /// A fresh loop, not yet started.
    pub open spec fn fresh(total: u32) -> ProbeLoop {
        ProbeLoop { emitted: 0, total, phase: Phase::Running }
    }

    /// One poll at the top of an iteration, given whether a cancellation is pending.
    pub open spec fn step(self, cancel_pending: bool) -> (ProbeLoop, LoopAction) {
        match self.phase {
            Phase::Running => if cancel_pending {
                (ProbeLoop { phase: Phase::Cancelled, ..self }, LoopAction::Stop)
            } else if self.emitted >= self.total {
                (ProbeLoop { phase: Phase::Completed, ..self }, LoopAction::Close)
            } else {
                let seq = (self.emitted + 1) as u32;
                (ProbeLoop { emitted: seq, ..self }, LoopAction::Probe { seq })
            },
            Phase::Completed => (self, LoopAction::Close),
            Phase::Cancelled => (self, LoopAction::Stop),
        }
    }

    /// The state after polling with each of `polls` in turn.
    pub open spec fn after(self, polls: Seq<bool>) -> ProbeLoop
        decreases polls.len(),
    {
        if polls.len() == 0 {
            self
        } else {
            self.after(polls.drop_last()).step(polls.last()).0
        }
    }

    /// The sequence numbers of the rounds run while polling with `polls`, in order.
    pub open spec fn issued(self, polls: Seq<bool>) -> Seq<u32>
        decreases polls.len(),
    {
        if polls.len() == 0 {
            Seq::empty()
        } else {
            let rest = self.issued(polls.drop_last());
            match self.after(polls.drop_last()).step(polls.last()).1 {
                LoopAction::Probe { seq } => rest.push(seq),
                _ => rest,
            }
        }
    }

    /// The loop of a ping or tcping invocation.
    pub fn new(single: bool) -> (r: ProbeLoop)
        ensures
            r == ProbeLoop::fresh(rounds(single)),
            r.wf(),
    {
        ProbeLoop { emitted: 0, total: iteration_count(single), phase: Phase::Running }
    }

    /// Polls at the top of an iteration: stops on a pending cancellation,
    /// closes once every round ran, and otherwise numbers the next round.
    pub fn poll(&mut self, cancel_pending: bool) -> (r: LoopAction)
        requires
            old(self).wf(),
        ensures
            (*final(self), r) == old(self).step(cancel_pending),
            final(self).wf(),
    {
        match self.phase {
            Phase::Running => {
                if cancel_pending {
                    self.phase = Phase::Cancelled;
                    LoopAction::Stop
                } else if self.emitted >= self.total {
                    self.phase = Phase::Completed;
                    LoopAction::Close
                } else {
                    self.emitted = self.emitted + 1;
                    LoopAction::Probe { seq: self.emitted }
                }
            },
            Phase::Completed => LoopAction::Close,
            Phase::Cancelled => LoopAction::Stop,
        }
    }
}

/// Polling from a fresh loop issues `1, 2, ..., n` with `n` the rounds started.
pub proof fn lemma_issued_numbers(total: u32, polls: Seq<bool>)
    ensures
        ProbeLoop::fresh(total).after(polls).wf(),
        ProbeLoop::fresh(total).after(polls).total == total,
        ProbeLoop::fresh(total).issued(polls) == Seq::new(
            ProbeLoop::fresh(total).after(polls).emitted as nat,
            |i: int| (i + 1) as u32,
        ),
    decreases polls.len(),
{
    let s0 = ProbeLoop::fresh(total);
    if polls.len() > 0 {
        lemma_issued_numbers(total, polls.drop_last());
        assert(s0.issued(polls) =~= Seq::new(s0.after(polls).emitted as nat, |i: int| (i + 1) as u32));
    } else {
        assert(s0.issued(polls) =~= Seq::new(0, |i: int| (i + 1) as u32));
    }
}

/// Sequence numbers of one invocation start at 1 and strictly increase.
pub proof fn law_sequence_numbers_increase(single: bool, polls: Seq<bool>)
    ensures
        ProbeLoop::fresh(rounds(single)).issued(polls).len() > 0
            ==> ProbeLoop::fresh(rounds(single)).issued(polls)[0] == 1,
        forall|i: int, j: int|
            0 <= i < j < ProbeLoop::fresh(rounds(single)).issued(polls).len()
                ==> ProbeLoop::fresh(rounds(single)).issued(polls)[i]
                < ProbeLoop::fresh(rounds(single)).issued(polls)[j],
{
    lemma_issued_numbers(rounds(single), polls);
}

/// Without a cancellation, the loop runs its rounds and then closes.
proof fn lemma_uncancelled(total: u32, polls: Seq<bool>)
    requires
        forall|k: int| 0 <= k < polls.len() ==> !polls[k],
    ensures
        ProbeLoop::fresh(total).after(polls).total == total,
        ProbeLoop::fresh(total).after(polls).emitted as int == if polls.len() <= total {
            polls.len() as int
        } else {
            total as int
        },
        ProbeLoop::fresh(total).after(polls).phase == if polls.len() <= total {
            Phase::Running
        } else {
            Phase::Completed
        },
    decreases polls.len(),
{
    if polls.len() > 0 {
        let prev = polls.drop_last();
        assert forall|k: int| 0 <= k < prev.len() implies !prev[k] by {
            assert(prev[k] == polls[k]);
        }
        assert(!polls[polls.len() - 1]);
        lemma_uncancelled(total, prev);
        assert(!polls.last());
    }
}

/// Without a cancellation, a single-shot probe emits exactly one round and a
/// continuous one exactly a hundred, after which the loop closes the session.
pub proof fn law_round_count(single: bool, polls: Seq<bool>)
    requires
        forall|k: int| 0 <= k < polls.len() ==> !polls[k],
        polls.len() > rounds(single),
    ensures
        ProbeLoop::fresh(rounds(single)).issued(polls).len() == rounds(single),
        ProbeLoop::fresh(rounds(single)).after(polls).phase == Phase::Completed,
{
    lemma_uncancelled(rounds(single), polls);
    lemma_issued_numbers(rounds(single), polls);
}

/// Once the loop has stopped, further polls issue nothing.
proof fn lemma_stopped_stays(s0: ProbeLoop, polls: Seq<bool>, m: int)
    requires
        0 <= m <= polls.len(),
        s0.after(polls.take(m)).phase != Phase::Running,
    ensures
        s0.issued(polls) == s0.issued(polls.take(m)),
        s0.after(polls) == s0.after(polls.take(m)),
    decreases polls.len() - m,
{
    if m == polls.len() {
        assert(polls.take(m) =~= polls);
    } else {
        let p1 = polls.take(m + 1);
        assert(p1.drop_last() =~= polls.take(m));
        assert(p1.take(m) =~= polls.take(m));
        assert(polls.take(m + 1) =~= p1);
        let q = polls.take(m + 1);
        assert(s0.after(q) == s0.after(polls.take(m)));
        assert(s0.issued(q) == s0.issued(polls.take(m)));
        lemma_stopped_stays(s0, polls, m + 1);
    }
}

/// A cancellation seen at some poll ends emission there: no round is issued
/// after it, so nothing with a higher sequence number follows the signal.
pub proof fn law_cancel_stops(single: bool, polls: Seq<bool>, k: int)
    requires
        0 <= k < polls.len(),
        polls[k],
    ensures
        ProbeLoop::fresh(rounds(single)).issued(polls)
            == ProbeLoop::fresh(rounds(single)).issued(polls.take(k)),
        ProbeLoop::fresh(rounds(single)).after(polls).phase != Phase::Running,
{
    let s0 = ProbeLoop::fresh(rounds(single));
    let p1 = polls.take(k + 1);
    assert(p1.drop_last() =~= polls.take(k));
    assert(p1.last() == polls[k]);
    assert(s0.issued(p1) == s0.issued(polls.take(k)));
    lemma_stopped_stays(s0, polls, k + 1);
}

/// One reported round of a ping: the replying address and the round trip, or
/// the target address and `ErrPingFailed`.
#[derive(Clone, Debug)]
pub struct PingEvent {
    pub ip: String,
    pub duration_ms: Option<u64>,
    pub seq: u32,
    pub error: Option<SocketIOError>,
}

/// The event for one ping round; `reply` holds the source address and the
/// round trip in milliseconds when an echo reply came back in time.
pub fn ping_event(target: &str, seq: u32, reply: Option<(String, u64)>) -> (r: PingEvent)
    ensures
        r.seq == seq,
        match reply {
            Some((src, ms)) => r.ip@ == src@ && r.duration_ms == Some(ms) && r.error is None,
            None => r.ip@ == target@ && r.duration_ms is None && r.error
                == Some(SocketIOError::ErrPingFailed),
        },
{
    match reply {
        Some((src, ms)) => PingEvent { ip: src, duration_ms: Some(ms), seq, error: None },
        None => PingEvent {
            ip: String::from_str(target),
            duration_ms: None,
            seq,
            error: Some(SocketIOError::ErrPingFailed),
        },
    }
}

/// One reported round of a tcping: the connect time, or `ErrTCPingFailed`.
#[derive(Clone, Debug)]
pub struct TcpingEvent {
    pub ip: String,
    pub duration_ms: Option<u64>,
    pub seq: u32,
    pub error: Option<SocketIOError>,
}

/// The event for one tcping round; `connected` holds the connect time in
/// milliseconds when the connection was made.
pub fn tcping_event(ip: &str, seq: u32, connected: Option<u64>) -> (r: TcpingEvent)
    ensures
        r.seq == seq,
        r.ip@ == ip@,
        r.duration_ms == connected,
        r.error == (if connected is Some {
            None::<SocketIOError>
        } else {
            Some(SocketIOError::ErrTCPingFailed)
        }),
{
    let error = if connected.is_some() {
        None
    } else {
        Some(SocketIOError::ErrTCPingFailed)
    };
    TcpingEvent { ip: String::from_str(ip), duration_ms: connected, seq, error }
}

} // verus!

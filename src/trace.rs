use vstd::prelude::*;
use crate::errors::SocketIOError;

verus! {

/// The role of a traced hop on the path.
#[derive(Clone, Copy, Debug, PartialEq, Eq, Structural)]
pub enum NodeRole {
    DefaultGateway,
    Relay,
    Destination,
}

/// The wire name of a node role.
pub open spec fn role_name(r: NodeRole) -> Seq<char> {
    match r {
        NodeRole::DefaultGateway => "DefaultGateway"@,
        NodeRole::Relay => "Relay"@,
        NodeRole::Destination => "Destination"@,
    }
}

impl NodeRole {
    /// The wire name of this role.
    pub fn name(&self) -> (r: &'static str)
        ensures
            r@ == role_name(*self),
    {
        match self {
            NodeRole::DefaultGateway => "DefaultGateway",
            NodeRole::Relay => "Relay",
            NodeRole::Destination => "Destination",
        }
    }
}

/// One discovered hop of a path trace.
#[derive(Debug)]
pub struct TraceHop {
    /// Position of the event among those of its traceroute run, from 1.
    pub seq: u32,
    pub ip: String,
    pub hostname: String,
    pub ttl: Option<u8>,
    /// Hop distance from the source.
    pub hop: Option<u8>,
    pub role: NodeRole,
    pub rtt_ms: u64,
}

/// Two hops carry the same discovery, whatever their event numbers.
pub open spec fn same_report(a: TraceHop, b: TraceHop) -> bool {
    &&& a.ip@ == b.ip@
    &&& a.hostname@ == b.hostname@
    &&& a.ttl == b.ttl
    &&& a.hop == b.hop
    &&& a.role == b.role
    &&& a.rtt_ms == b.rtt_ms
}

/// The hop distances of a sequence of hops.
pub open spec fn hops_of(s: Seq<TraceHop>) -> Seq<Option<u8>> {
    Seq::new(s.len(), |i: int| s[i].hop)
}

/// The hop distances of a final summary that a catch-up emits after
/// `reported` was streamed: each one not yet reported, once, in summary order.
pub open spec fn catch_up_hops(reported: Seq<Option<u8>>, summary: Seq<Option<u8>>) -> Seq<
    Option<u8>,
>
    decreases summary.len(),
{
    if summary.len() == 0 {
        Seq::empty()
    } else {
        let prev = catch_up_hops(reported, summary.drop_last());
        let h = summary.last();
        if reported.contains(h) || prev.contains(h) {
            prev
        } else {
            prev.push(h)
        }
    }
}

fn numbered_hop(h: &TraceHop, seq: u32) -> (r: TraceHop)
    ensures
        same_report(r, *h),
        r.seq == seq,
{
    TraceHop {
        seq,
        ip: h.ip.clone(),
        hostname: h.hostname.clone(),
        ttl: h.ttl,
        hop: h.hop,
        role: h.role,
        rtt_ms: h.rtt_ms,
    }
}

fn same_distance(a: Option<u8>, b: Option<u8>) -> (r: bool)
    ensures
        r == (a == b),
{
    match (a, b) {
        (Some(x), Some(y)) => x == y,
        (None, None) => true,
        _ => false,
    }
}

fn contains_distance(v: &Vec<Option<u8>>, h: Option<u8>) -> (r: bool)
    ensures
        r == v@.contains(h),
{
    let mut i: usize = 0;
    while i < v.len()
        invariant
            i <= v@.len(),
            forall|k: int| 0 <= k < i ==> v@[k] != h,
        decreases v@.len() - i,
    {
        if same_distance(v[i], h) {
            assert(v@[i as int] == h);
            return true;
        }
        i = i + 1;
    }
    false
}

/// `j` is the first position in `summary` with the hop distance of `h`, and
/// `h` reports what is found there.
pub open spec fn first_of_distance(summary: Seq<TraceHop>, j: int, h: TraceHop) -> bool {
    &&& 0 <= j < summary.len()
    &&& same_report(h, summary[j])
    &&& forall|k: int| 0 <= k < j ==> summary[k].hop != summary[j].hop
}

/// `h` reports the first summary hop with its hop distance.
pub open spec fn from_first_of_distance(summary: Seq<TraceHop>, h: TraceHop) -> bool {
    exists|j: int| #[trigger] first_of_distance(summary, j, h)
}

/// The hop distances a traceroute invocation has reported so far, one per
/// emitted event: the event at position `i` carries the number `i + 1`.
pub struct TraceReport {
    pub reported: Vec<Option<u8>>,
}

impl TraceReport {
    /// A report with nothing sent yet.
    pub fn new() -> (r: TraceReport)
        ensures
            r.reported@ == Seq::<Option<u8>>::empty(),
    {
        TraceReport { reported: Vec::new() }
    }

    /// Records a hop discovered while tracing and returns the event that
    /// forwards it, numbered after the events already sent.
    pub fn on_progress(&mut self, hop: &TraceHop) -> (r: TraceHop)
        requires
            old(self).reported@.len() < u32::MAX,
        ensures
            final(self).reported@ == old(self).reported@.push(hop.hop),
            same_report(r, *hop),
            r.seq == old(self).reported@.len() + 1,
    {
        let seq = (self.reported.len() + 1) as u32;
        self.reported.push(hop.hop);
        numbered_hop(hop, seq)
    }

    /// The hops of the final summary whose distance was not reported yet,
    /// each distance once (the first summary hop that has it), numbered after
    /// the events already sent; they are recorded as reported.
    pub fn catch_up(&mut self, summary: &Vec<TraceHop>) -> (r: Vec<TraceHop>)
        requires
            old(self).reported@.len() + summary@.len() <= u32::MAX,
        ensures
            hops_of(r@) == catch_up_hops(old(self).reported@, hops_of(summary@)),
            final(self).reported@ == old(self).reported@ + hops_of(r@),
            forall|i: int|
                0 <= i < r@.len() ==> #[trigger] r@[i].seq == old(self).reported@.len() + i + 1,
            forall|i: int|
                0 <= i < r@.len() ==> from_first_of_distance(summary@, #[trigger] r@[i]),
    {
        let ghost start = self.reported@;
        let mut r: Vec<TraceHop> = Vec::new();
        let mut i: usize = 0;
        while i < summary.len()
            invariant
                i <= summary@.len(),
                r@.len() <= i,
                start.len() + summary@.len() <= u32::MAX,
                hops_of(r@) == catch_up_hops(start, hops_of(summary@).take(i as int)),
                self.reported@ == start + hops_of(r@),
                forall|k: int| 0 <= k < i ==> self.reported@.contains(#[trigger] summary@[k].hop),
                forall|k: int| 0 <= k < r@.len() ==> #[trigger] r@[k].seq == start.len() + k + 1,
                forall|k: int|
                    0 <= k < r@.len() ==> from_first_of_distance(summary@, #[trigger] r@[k]),
            decreases summary@.len() - i,
        {
            let ghost before = hops_of(summary@).take(i as int);
            let ghost after = hops_of(summary@).take(i + 1);
            assert(after.drop_last() =~= before);
            assert(after.last() == summary@[i as int].hop);
            let h = summary[i].hop;
            let seen = contains_distance(&self.reported, h);
            proof {
                let prev = catch_up_hops(start, before);
                if start.contains(h) {
                    let k = choose|k: int| 0 <= k < start.len() && start[k] == h;
                    assert((start + hops_of(r@))[k] == h);
                }
                if prev.contains(h) {
                    let k = choose|k: int| 0 <= k < prev.len() && prev[k] == h;
                    assert((start + hops_of(r@))[start.len() + k] == h);
                }
                if self.reported@.contains(h) {
                    let k = choose|k: int|
                        0 <= k < self.reported@.len() && self.reported@[k] == h;
                    if k < start.len() {
                        assert(start[k] == h);
                    } else {
                        assert(prev[k - start.len()] == h);
                    }
                }
            }
            if !seen {
                let seq = (self.reported.len() + 1) as u32;
                let c = numbered_hop(&summary[i], seq);
                let ghost old_r = r@;
                let ghost old_reported = self.reported@;
                r.push(c);
                self.reported.push(h);
                assert(hops_of(r@) =~= hops_of(old_r).push(h));
                assert(self.reported@ =~= start + hops_of(r@));
                assert forall|k: int| 0 <= k < i implies !(summary@[k].hop == h) by {
                    assert(old_reported.contains(summary@[k].hop));
                }
                assert forall|k: int| 0 <= k <= i implies self.reported@.contains(
                    #[trigger] summary@[k].hop,
                ) by {
                    if k < i {
                        let w = choose|w: int|
                            0 <= w < old_reported.len() && old_reported[w] == summary@[k].hop;
                        assert(self.reported@[w] == summary@[k].hop);
                    } else {
                        assert(self.reported@[self.reported@.len() - 1] == h);
                    }
                }
                assert forall|k: int| 0 <= k < r@.len() implies #[trigger] r@[k].seq == start.len()
                    + k + 1 by {
                    if k < old_r.len() {
                        assert(r@[k] == old_r[k]);
                    }
                }
                assert forall|k: int| 0 <= k < r@.len() implies from_first_of_distance(
                    summary@,
                    #[trigger] r@[k],
                ) by {
                    if k < old_r.len() {
                        assert(r@[k] == old_r[k]);
                    } else {
                        assert(first_of_distance(summary@, i as int, r@[k]));
                    }
                }
            } else {
                assert forall|k: int| 0 <= k <= i implies self.reported@.contains(
                    #[trigger] summary@[k].hop,
                ) by {}
            }
            i = i + 1;
        }
        assert(hops_of(summary@).take(summary@.len() as int) =~= hops_of(summary@));
        r
    }

    /// The end of a trace: the catch-up of the summary when the trace worker
    /// produced one, `ErrMTRFailed` (with nothing recorded) when it failed.
    pub fn finish(&mut self, summary: Option<Vec<TraceHop>>) -> (r: Result<
        Vec<TraceHop>,
        SocketIOError,
    >)
        requires
            summary matches Some(s) ==> old(self).reported@.len() + s@.len() <= u32::MAX,
        ensures
            match summary {
                None => r == Err::<Vec<TraceHop>, SocketIOError>(SocketIOError::ErrMTRFailed)
                    && final(self).reported@ == old(self).reported@,
                Some(s) => r matches Ok(v) && hops_of(v@) == catch_up_hops(
                    old(self).reported@,
                    hops_of(s@),
                ) && final(self).reported@ == old(self).reported@ + hops_of(v@),
            },
    {
        match summary {
            None => Err(SocketIOError::ErrMTRFailed),
            Some(s) => Ok(self.catch_up(&s)),
        }
    }
}

/// Streamed distances, followed by the catch-up of a summary, report each
/// distance of the summary exactly once, provided the stream itself held no
/// distance twice.
pub proof fn law_each_hop_once(reported: Seq<Option<u8>>, summary: Seq<Option<u8>>)
    requires
        reported.no_duplicates(),
    ensures
        (reported + catch_up_hops(reported, summary)).no_duplicates(),
        forall|k: int|
            0 <= k < summary.len() ==> (reported + catch_up_hops(reported, summary)).contains(
                #[trigger] summary[k],
            ),
    decreases summary.len(),
{
    if summary.len() > 0 {
        let s1 = summary.drop_last();
        law_each_hop_once(reported, s1);
        let prev = catch_up_hops(reported, s1);
        let h = summary.last();
        let all_prev = reported + prev;
        assert forall|k: int| 0 <= k < s1.len() implies all_prev.contains(#[trigger] s1[k]) by {}
        if reported.contains(h) || prev.contains(h) {
            assert(all_prev.contains(h)) by {
                if reported.contains(h) {
                    let j = choose|j: int| 0 <= j < reported.len() && reported[j] == h;
                    assert(all_prev[j] == h);
                } else {
                    let j = choose|j: int| 0 <= j < prev.len() && prev[j] == h;
                    assert(all_prev[reported.len() + j] == h);
                }
            }
            assert forall|k: int| 0 <= k < summary.len() implies all_prev.contains(
                #[trigger] summary[k],
            ) by {
                if k < s1.len() {
                    assert(summary[k] == s1[k]);
                }
            }
        } else {
            let all = reported + prev.push(h);
            assert(all =~= all_prev.push(h));
            assert(!all_prev.contains(h)) by {
                if all_prev.contains(h) {
                    let j = choose|j: int| 0 <= j < all_prev.len() && all_prev[j] == h;
                    if j < reported.len() {
                        assert(reported[j] == h);
                    } else {
                        assert(prev[j - reported.len()] == h);
                    }
                }
            }
            assert forall|k: int| 0 <= k < summary.len() implies all.contains(
                #[trigger] summary[k],
            ) by {
                if k < s1.len() {
                    assert(summary[k] == s1[k]);
                    assert(all_prev.contains(s1[k]));
                    let j = choose|j: int| 0 <= j < all_prev.len() && all_prev[j] == s1[k];
                    assert(all[j] == s1[k]);
                } else {
                    assert(all[all.len() - 1] == h);
                }
            }
        }
    }
}

} // verus!

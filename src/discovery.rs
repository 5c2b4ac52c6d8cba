//! The decisions of a discovery session: when to keep waiting, when to stop,
//! and which received headers enter the snapshot. The socket, the receive
//! task and the clock are driven by the caller, which hands each outcome in.
use crate::codec::DecodeError;
use crate::device::{DeviceHeader, DeviceType};
use std::collections::HashSet;
use vstd::prelude::*;

verus! {

broadcast use vstd::std_specs::hash::group_hash_axioms;

/// UDP port on which devices broadcast their headers.
pub const DISCOVERY_PORT: u16 = 7331;

/// Milliseconds in a second.
pub const MILLIS_PER_SEC: u64 = 1000;

/// Whether `s` holds a header with hardware address `addr`.
pub open spec fn has_addr(s: Seq<DeviceHeader>, addr: u64) -> bool {
    exists|i: int| 0 <= i < s.len() && #[trigger] s[i].base().hw_addr == addr
}

/// The snapshot built from a sequence of decode results: each decoded header
/// whose hardware address was not seen before is appended, in arrival order;
/// decode failures and repeated addresses leave it unchanged.
pub open spec fn dedup(rs: Seq<Result<DeviceHeader, DecodeError>>) -> Seq<DeviceHeader>
    decreases rs.len(),
{
    if rs.len() == 0 {
        Seq::empty()
    } else {
        let prev = dedup(rs.drop_last());
        match rs.last() {
            Ok(h) => if has_addr(prev, h.base().hw_addr) {
                prev
            } else {
                prev.push(h)
            },
            Err(_) => prev,
        }
    }
}

/// The headers of `s` whose device type is `t`, in their order in `s`.
pub open spec fn of_type(s: Seq<DeviceHeader>, t: DeviceType) -> Seq<DeviceHeader>
    decreases s.len(),
{
    if s.len() == 0 {
        Seq::empty()
    } else {
        let prev = of_type(s.drop_last(), t);
        if s.last().base().device_type == t {
            prev.push(s.last())
        } else {
            prev
        }
    }
}

/// `idx` picks the elements of `sub` out of `s`, at strictly increasing positions.
pub open spec fn embeds(sub: Seq<DeviceHeader>, s: Seq<DeviceHeader>, idx: Seq<int>) -> bool {
    &&& idx.len() == sub.len()
    &&& forall|i: int| 0 <= i < idx.len() ==> 0 <= #[trigger] idx[i] < s.len() && s[idx[i]] == sub[i]
    &&& forall|i: int, j: int| 0 <= i < j < idx.len() ==> #[trigger] idx[i] < #[trigger] idx[j]
}

/// Entries of a snapshot carry distinct hardware addresses.
pub proof fn lemma_dedup_distinct(rs: Seq<Result<DeviceHeader, DecodeError>>)
    ensures
        forall|i: int, j: int|
            0 <= i < j < dedup(rs).len() ==> #[trigger] dedup(rs)[i].base().hw_addr
                != #[trigger] dedup(rs)[j].base().hw_addr,
    decreases rs.len(),
{
    if rs.len() > 0 {
        lemma_dedup_distinct(rs.drop_last());
        let prev = dedup(rs.drop_last());
        match rs.last() {
            Ok(h) => {
                if !has_addr(prev, h.base().hw_addr) {
                    let d = dedup(rs);
                    assert forall|i: int, j: int|
                        0 <= i < j < d.len() implies #[trigger] d[i].base().hw_addr
                        != #[trigger] d[j].base().hw_addr by {
                        if j == prev.len() {
                            assert(prev[i] == d[i]);
                        } else {
                            assert(prev[i] == d[i] && prev[j] == d[j]);
                        }
                    }
                }
            },
            Err(_) => {},
        }
    }
}

/// Every entry of a snapshot is a header that was received.
pub proof fn lemma_dedup_received(rs: Seq<Result<DeviceHeader, DecodeError>>, i: int)
    requires
        0 <= i < dedup(rs).len(),
    ensures
        exists|k: int|
            0 <= k < rs.len() && #[trigger] rs[k] == Ok::<DeviceHeader, DecodeError>(dedup(rs)[i]),
    decreases rs.len(),
{
    let prev = dedup(rs.drop_last());
    if i < prev.len() {
        assert(dedup(rs)[i] == prev[i]);
        lemma_dedup_received(rs.drop_last(), i);
        let k = choose|k: int|
            0 <= k < rs.drop_last().len() && #[trigger] rs.drop_last()[k] == Ok::<
                DeviceHeader,
                DecodeError,
            >(prev[i]);
        assert(rs[k] == rs.drop_last()[k]);
    } else {
        assert(rs[rs.len() - 1] == Ok::<DeviceHeader, DecodeError>(dedup(rs)[i]));
    }
}

/// Whether `rs[k]` is the first decoded header with its hardware address.
pub open spec fn first_of_addr(rs: Seq<Result<DeviceHeader, DecodeError>>, k: int) -> bool {
    &&& 0 <= k < rs.len()
    &&& rs[k] is Ok
    &&& forall|j: int|
        0 <= j < k ==> !(#[trigger] rs[j] is Ok && rs[j]->Ok_0.base().hw_addr
            == rs[k]->Ok_0.base().hw_addr)
}

proof fn lemma_dedup_keeps(rs: Seq<Result<DeviceHeader, DecodeError>>, k: int)
    requires
        first_of_addr(rs, k),
    ensures
        dedup(rs).contains(rs[k]->Ok_0),
    decreases rs.len(),
{
    let prev = dedup(rs.drop_last());
    let h = rs[k]->Ok_0;
    if k == rs.len() - 1 {
        if has_addr(prev, h.base().hw_addr) {
            let i = choose|i: int|
                0 <= i < prev.len() && #[trigger] prev[i].base().hw_addr == h.base().hw_addr;
            lemma_dedup_received(rs.drop_last(), i);
            let j = choose|j: int|
                0 <= j < rs.drop_last().len() && #[trigger] rs.drop_last()[j] == Ok::<
                    DeviceHeader,
                    DecodeError,
                >(prev[i]);
            assert(rs[j] == rs.drop_last()[j]);
        }
        assert(dedup(rs) == prev.push(h));
        assert(dedup(rs)[prev.len() as int] == h);
    } else {
        assert forall|j: int| 0 <= j < k implies !(#[trigger] rs.drop_last()[j] is Ok
            && rs.drop_last()[j]->Ok_0.base().hw_addr == rs.drop_last()[k]->Ok_0.base().hw_addr) by {
            assert(rs.drop_last()[j] == rs[j]);
        }
        lemma_dedup_keeps(rs.drop_last(), k);
        let i = choose|i: int| 0 <= i < prev.len() && prev[i] == h;
        match rs.last() {
            Ok(g) => {
                if !has_addr(prev, g.base().hw_addr) {
                    assert(dedup(rs)[i] == h);
                }
            },
            Err(_) => {},
        }
    }
}

/// For every hardware address that was received, the snapshot holds exactly one
/// entry with that address, and it is the first header received from it.
pub proof fn lemma_dedup_first_wins(rs: Seq<Result<DeviceHeader, DecodeError>>, k: int)
    requires
        first_of_addr(rs, k),
    ensures
        dedup(rs).contains(rs[k]->Ok_0),
        forall|i: int|
            0 <= i < dedup(rs).len() && #[trigger] dedup(rs)[i].base().hw_addr
                == rs[k]->Ok_0.base().hw_addr ==> dedup(rs)[i] == rs[k]->Ok_0,
{
    lemma_dedup_keeps(rs, k);
    lemma_dedup_distinct(rs);
    let d = dedup(rs);
    let m = choose|m: int| 0 <= m < d.len() && d[m] == rs[k]->Ok_0;
    assert forall|i: int|
        0 <= i < d.len() && #[trigger] d[i].base().hw_addr == rs[k]->Ok_0.base().hw_addr implies d[i]
        == rs[k]->Ok_0 by {
        if i < m {
            assert(d[i].base().hw_addr != d[m].base().hw_addr);
        } else if m < i {
            assert(d[m].base().hw_addr != d[i].base().hw_addr);
        }
    }
}

/// Filtering by type keeps only headers of that type, each taken from the
/// input, in their relative order.
pub proof fn lemma_of_type_in_order(s: Seq<DeviceHeader>, t: DeviceType) -> (idx: Seq<int>)
    ensures
        embeds(of_type(s, t), s, idx),
        forall|i: int| 0 <= i < of_type(s, t).len() ==> (#[trigger] of_type(s, t)[i]).base().device_type == t,
    decreases s.len(),
{
    if s.len() == 0 {
        Seq::empty()
    } else {
        let prev = of_type(s.drop_last(), t);
        let pidx = lemma_of_type_in_order(s.drop_last(), t);
        if s.last().base().device_type == t {
            let idx = pidx.push(s.len() - 1);
            assert forall|i: int| 0 <= i < idx.len() implies 0 <= #[trigger] idx[i] < s.len()
                && s[idx[i]] == of_type(s, t)[i] by {
                if i < pidx.len() {
                    assert(idx[i] == pidx[i]);
                    assert(s[pidx[i]] == s.drop_last()[pidx[i]]);
                }
            }
            assert forall|i: int, j: int| 0 <= i < j < idx.len() implies #[trigger] idx[i]
                < #[trigger] idx[j] by {
                if j < pidx.len() {
                    assert(idx[i] == pidx[i] && idx[j] == pidx[j]);
                } else {
                    assert(idx[i] == pidx[i]);
                }
            }
            assert forall|i: int| 0 <= i < of_type(s, t).len() implies (#[trigger] of_type(s, t)[i]).base().device_type == t by {
                if i < prev.len() {
                    assert(of_type(s, t)[i] == prev[i]);
                }
            }
            idx
        } else {
            assert forall|i: int| 0 <= i < pidx.len() implies 0 <= #[trigger] pidx[i] < s.len()
                && s[pidx[i]] == of_type(s, t)[i] by {
                assert(s[pidx[i]] == s.drop_last()[pidx[i]]);
            }
            pidx
        }
    }
}


/// Where a session stands: listening until its deadline, then draining while
/// the caller closes the socket and stops the receive task.
#[derive(Debug, Clone, Copy, PartialEq, Eq, Structural)]
pub enum Phase {
    Listening,
    Draining,
}

/// What the caller does next.
#[derive(Debug, Clone, Copy, PartialEq, Eq, Structural)]
pub enum Step {
    /// Wait for the next decode result for at most this many milliseconds.
    Wait(u64),
    /// The window is over: close the socket and take the snapshot.
    Stop,
}

/// What a received decode result did to the snapshot, for the caller to report.
#[derive(Debug, Clone, Copy, PartialEq, Eq, Structural)]
pub enum Observation {
    Added,
    Duplicate,
    DecodeFailed(DecodeError),
}

/// The observation for a decode result arriving at a snapshot.
pub open spec fn observation_of(
    snapshot: Seq<DeviceHeader>,
    result: Result<DeviceHeader, DecodeError>,
) -> Observation {
    match result {
        Ok(h) => if has_addr(snapshot, h.base().hw_addr) {
            Observation::Duplicate
        } else {
            Observation::Added
        },
        Err(e) => Observation::DecodeFailed(e),
    }
}

/// The deadline of a window of `timeout_secs` seconds opened at `now_ms`,
/// saturated at the largest representable instant.
pub open spec fn deadline_of(now_ms: u64, timeout_secs: u64) -> u64 {
    let d = now_ms + timeout_secs * MILLIS_PER_SEC;
    if d > u64::MAX {
        u64::MAX
    } else {
        d as u64
    }
}

/// One discovery window: its deadline and the snapshot built so far.
pub struct DiscoverySession {
    phase: Phase,
    deadline_ms: u64,
    headers: Vec<DeviceHeader>,
    seen: HashSet<u64>,
    received: Ghost<Seq<Result<DeviceHeader, DecodeError>>>,
}

impl DiscoverySession {
    /// Every decode result handed in so far, in arrival order.
    pub closed spec fn received(&self) -> Seq<Result<DeviceHeader, DecodeError>> {
        self.received@
    }

    pub closed spec fn phase(&self) -> Phase {
        self.phase
    }

    pub closed spec fn deadline(&self) -> u64 {
        self.deadline_ms
    }

    /// The snapshot is the deduplication of what was received, and the set of
    /// seen addresses is exactly the addresses in the snapshot.
    pub closed spec fn wf(&self) -> bool {
        &&& self.headers@ == dedup(self.received@)
        &&& forall|a: u64| self.seen@.contains(a) <==> has_addr(self.headers@, a)
    }

    /// Opens a window of `timeout_secs` seconds at the instant `now_ms`.
    pub fn start(now_ms: u64, timeout_secs: u64) -> (r: DiscoverySession)
        ensures
            r.wf(),
            r.phase() == Phase::Listening,
            r.deadline() == deadline_of(now_ms, timeout_secs),
            r.received() == Seq::<Result<DeviceHeader, DecodeError>>::empty(),
    {
        let deadline_ms = if timeout_secs > (u64::MAX - now_ms) / MILLIS_PER_SEC {
            u64::MAX
        } else {
            now_ms + timeout_secs * MILLIS_PER_SEC
        };
        DiscoverySession {
            phase: Phase::Listening,
            deadline_ms,
            headers: Vec::new(),
            seen: HashSet::new(),
            received: Ghost(Seq::empty()),
        }
    }

    /// Decides, at the instant `now_ms`, whether to keep waiting. Once the
    /// deadline is reached the session drains and never listens again.
    pub fn poll(&mut self, now_ms: u64) -> (r: Step)
        ensures
            final(self).received() == old(self).received(),
            final(self).deadline() == old(self).deadline(),
            old(self).wf() ==> final(self).wf(),
            old(self).phase() == Phase::Listening && now_ms < old(self).deadline() ==> {
                &&& r == Step::Wait((old(self).deadline() - now_ms) as u64)
                &&& final(self).phase() == Phase::Listening
            },
            !(old(self).phase() == Phase::Listening && now_ms < old(self).deadline()) ==> {
                &&& r == Step::Stop
                &&& final(self).phase() == Phase::Draining
            },
    {
        match self.phase {
            Phase::Listening => {
                if now_ms < self.deadline_ms {
                    Step::Wait(self.deadline_ms - now_ms)
                } else {
                    self.phase = Phase::Draining;
                    Step::Stop
                }
            },
            Phase::Draining => Step::Stop,
        }
    }

    /// Takes in one decode result from the receive task. A header whose
    /// hardware address is new is appended; anything else is only reported.
    pub fn receive(&mut self, result: Result<DeviceHeader, DecodeError>) -> (r: Observation)
        requires
            old(self).wf(),
        ensures
            final(self).wf(),
            final(self).received() == old(self).received().push(result),
            final(self).phase() == old(self).phase(),
            final(self).deadline() == old(self).deadline(),
            r == observation_of(dedup(old(self).received()), result),
    {
        let ghost rs = self.received@.push(result);
        assert(rs.drop_last() =~= self.received@);
        match result {
            Ok(h) => {
                let addr = h.hw_addr();
                if self.seen.contains(&addr) {
                    self.received = Ghost(rs);
                    Observation::Duplicate
                } else {
                    self.seen.insert(addr);
                    self.headers.push(h);
                    self.received = Ghost(rs);
                    assert forall|a: u64| self.seen@.contains(a) <==> has_addr(self.headers@, a) by {
                        if has_addr(self.headers@, a) && a != addr {
                            let i = choose|i: int|
                                0 <= i < self.headers@.len() && #[trigger] self.headers@[i].base().hw_addr == a;
                            assert(self.headers@[i] == old(self).headers@[i]);
                        }
                        if old(self).seen@.contains(a) {
                            let i = choose|i: int|
                                0 <= i < old(self).headers@.len() && #[trigger] old(self).headers@[i].base().hw_addr == a;
                            assert(self.headers@[i] == old(self).headers@[i]);
                        }
                        if a == addr {
                            assert(self.headers@[self.headers@.len() - 1].base().hw_addr == a);
                        }
                    }
                    Observation::Added
                }
            },
            Err(e) => {
                self.received = Ghost(rs);
                Observation::DecodeFailed(e)
            },
        }
    }

    /// Closes the session and hands out its snapshot: one header per hardware
    /// address received, the first one received, in arrival order.
    pub fn finish(self) -> (r: Vec<DeviceHeader>)
        requires
            self.wf(),
        ensures
            r@ == dedup(self.received()),
    {
        self.headers
    }
}

/// The headers of `devices` whose device type is `device_type`, in order.
pub fn filter_by_type(devices: &Vec<DeviceHeader>, device_type: DeviceType) -> (r: Vec<DeviceHeader>)
    ensures
        r@ == of_type(devices@, device_type),
{
    let mut r: Vec<DeviceHeader> = Vec::new();
    let mut i: usize = 0;
    while i < devices.len()
        invariant
            i <= devices.len(),
            r@ == of_type(devices@.take(i as int), device_type),
        decreases devices.len() - i,
    {
        let d = devices[i];
        assert(devices@.take(i + 1).drop_last() =~= devices@.take(i as int));
        if d.device_type() == device_type {
            r.push(d);
        }
        i = i + 1;
    }
    assert(devices@.take(i as int) =~= devices@);
    r
}

} // verus!

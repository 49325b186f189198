//! Bounded dispatcher: the queue-driven, concurrency-limited multiplexer.
//!
//! The dispatcher accepts call descriptors, assigns each a fresh correlation
//! identifier, encodes its request envelope, and decides which exchanges may
//! be in flight: at most the window's worth at any instant. Exchanges resolve
//! in arbitrary order; each resolution produces the verdict for exactly that
//! call and, if a call was waiting, the next exchange to issue. The loop that
//! performs the HTTP work is outside; every decision it follows is made and
//! verified here.

use vstd::prelude::*;

use crate::classify::Classified;
use crate::classify::HttpOutcome;
use crate::classify::classify_outcome;
use crate::classify::spec_classified;
use crate::encode::encode_request;
use crate::encode::spec_request_bytes;

verus! {

/// The concurrency window used when none is chosen: at most eight exchanges
/// in flight.
pub const DEFAULT_WINDOW: usize = 8;

/// One outgoing remote call: the method name and the JSON text of its
/// parameter value.
pub struct CallDescriptor {
    pub method: String,
    pub params: String,
}

/// An exchange handed to the transport: POST this body, resolve under this
/// identifier.
pub struct IssuedCall {
    pub id: u64,
    pub body: Vec<u8>,
}

/// The dispatcher's decision on one accepted descriptor.
pub enum Submitted {
    /// A window slot was free: issue this exchange now.
    Issued(IssuedCall),
    /// The window is full: the call waits its turn under this identifier.
    Queued(u64),
    /// The queue is closed; the descriptor is not accepted.
    Rejected,
}

/// The dispatcher's decision on one resolved exchange.
pub struct ResolveStep {
    /// The verdict to deliver to the resolved call's completion handle.
    pub verdict: Classified,
    /// The queued call issued into the freed slot, if one was waiting.
    pub next: Option<IssuedCall>,
}

struct PendingCall {
    id: u64,
    body: Vec<u8>,
}

/// The multiplexer's state: the waiting queue, the identifiers in flight,
/// and the ledger of accepted and completed calls.
pub struct Dispatcher {
    window: usize,
    next_id: u64,
    pending: Vec<PendingCall>,
    in_flight: Vec<u64>,
    closed: bool,
    accepted: Ghost<Set<u64>>,
    completed: Ghost<Set<u64>>,
}

impl Dispatcher {
    /// Identifiers of the exchanges currently in flight.
    pub closed spec fn in_flight_ids(self) -> Seq<u64> {
        self.in_flight@
    }

    /// Identifiers of the accepted calls still waiting for a slot, oldest
    /// first.
    pub closed spec fn pending_ids(self) -> Seq<u64> {
        self.pending@.map_values(|p: PendingCall| p.id)
    }

    /// The already-encoded envelopes of the waiting calls, oldest first.
    pub closed spec fn pending_bodies(self) -> Seq<Seq<u8>> {
        self.pending@.map_values(|p: PendingCall| p.body@)
    }

    /// Identifiers of every call ever accepted.
    pub closed spec fn accepted_ids(self) -> Set<u64> {
        self.accepted@
    }

    /// Identifiers of the calls whose verdict has been produced.
    pub closed spec fn completed_ids(self) -> Set<u64> {
        self.completed@
    }

    /// The concurrency window.
    pub closed spec fn spec_window(self) -> int {
        self.window as int
    }

    /// Whether the call queue has been closed.
    pub closed spec fn spec_closed(self) -> bool {
        self.closed
    }

    /// The identifier the next accepted call will get.
    pub closed spec fn spec_next_id(self) -> u64 {
        self.next_id
    }

    /// The dispatcher's invariant: the window is respected, every tracked
    /// identifier was assigned below the next fresh one, identifiers are
    /// pairwise distinct across waiting, in-flight and completed calls, the
    /// accepted ledger is exactly their union, and a call only ever waits
    /// while the window is full.
    pub closed spec fn wf(self) -> bool {
        &&& 1 <= self.window
        &&& self.in_flight@.no_duplicates()
        &&& self.in_flight@.len() <= self.window
        &&& self.pending_ids().no_duplicates()
        &&& forall|i: int|
            0 <= i < self.in_flight@.len() ==> #[trigger] self.in_flight@[i] < self.next_id
        &&& forall|i: int|
            0 <= i < self.pending@.len() ==> #[trigger] self.pending@[i].id < self.next_id
        &&& forall|id: u64| #[trigger] self.completed@.contains(id) ==> id < self.next_id
        &&& forall|i: int|
            0 <= i < self.in_flight@.len() ==> !self.completed@.contains(
                #[trigger] self.in_flight@[i],
            )
        &&& forall|i: int|
            0 <= i < self.pending@.len() ==> !self.completed@.contains(
                #[trigger] self.pending@[i].id,
            )
        &&& forall|i: int, j: int|
            0 <= i < self.pending@.len() && 0 <= j < self.in_flight@.len()
                ==> #[trigger] self.pending@[i].id != #[trigger] self.in_flight@[j]
        &&& self.accepted@ =~= self.completed@.union(self.in_flight@.to_set()).union(
            self.pending_ids().to_set(),
        )
        &&& self.pending@.len() > 0 ==> self.in_flight@.len() == self.window
    }

    /// Start a dispatcher with the given concurrency window.
    pub fn new(window: usize) -> (d: Dispatcher)
        requires
            1 <= window,
        ensures
            d.wf(),
            d.spec_window() == window,
            d.in_flight_ids().len() == 0,
            d.pending_ids().len() == 0,
            d.accepted_ids() =~= Set::<u64>::empty(),
            d.completed_ids() =~= Set::<u64>::empty(),
            d.spec_next_id() == 1,
            !d.spec_closed(),
    {
        let d = Dispatcher {
            window,
            next_id: 1,
            pending: Vec::new(),
            in_flight: Vec::new(),
            closed: false,
            accepted: Ghost(Set::empty()),
            completed: Ghost(Set::empty()),
        };
        proof {
            assert(d.accepted@ =~= d.completed@.union(d.in_flight@.to_set()).union(
                d.pending_ids().to_set(),
            ));
        }
        d
    }

    /// Accept one descriptor: assign it the next fresh identifier, encode
    /// its envelope, and either issue it at once — when a window slot is
    /// free — or queue it behind the full window. A closed queue accepts
    /// nothing.
    pub fn submit(&mut self, call: CallDescriptor) -> (r: Submitted)
        requires
            old(self).wf(),
            old(self).spec_next_id() < u64::MAX,
        ensures
            final(self).wf(),
            final(self).spec_window() == old(self).spec_window(),
            final(self).spec_closed() == old(self).spec_closed(),
            final(self).completed_ids() == old(self).completed_ids(),
            (r matches Submitted::Rejected) <==> old(self).spec_closed(),
            old(self).spec_closed() ==> *final(self) == *old(self),
            !old(self).spec_closed() ==> {
                &&& final(self).spec_next_id() == old(self).spec_next_id() + 1
                &&& !old(self).accepted_ids().contains(old(self).spec_next_id())
                &&& final(self).accepted_ids() =~= old(self).accepted_ids().insert(
                    old(self).spec_next_id(),
                )
            },
            !old(self).spec_closed() && old(self).in_flight_ids().len() < old(self).spec_window()
                ==> {
                &&& r matches Submitted::Issued(c) && c.id == old(self).spec_next_id()
                    && c.body@ == spec_request_bytes(
                    call.method@,
                    call.params@,
                    old(self).spec_next_id(),
                )
                &&& final(self).in_flight_ids() =~= old(self).in_flight_ids().push(
                    old(self).spec_next_id(),
                )
                &&& final(self).pending_ids() == old(self).pending_ids()
                &&& final(self).pending_bodies() == old(self).pending_bodies()
            },
            !old(self).spec_closed() && old(self).in_flight_ids().len() >= old(self).spec_window()
                ==> {
                &&& r == Submitted::Queued(old(self).spec_next_id())
                &&& final(self).in_flight_ids() == old(self).in_flight_ids()
                &&& final(self).pending_ids() =~= old(self).pending_ids().push(
                    old(self).spec_next_id(),
                )
                &&& final(self).pending_bodies() =~= old(self).pending_bodies().push(
                    spec_request_bytes(call.method@, call.params@, old(self).spec_next_id()),
                )
            },
    {
        if self.closed {
            return Submitted::Rejected;
        }
        let id = self.next_id;
        self.next_id = id + 1;
        proof {
            if self.accepted@.contains(id) {
                assert(self.completed@.contains(id) || self.in_flight@.to_set().contains(id)
                    || self.pending_ids().to_set().contains(id));
                if self.in_flight@.to_set().contains(id) {
                    let i = choose|i: int| 0 <= i < self.in_flight@.len() && self.in_flight@[i] == id;
                    assert(self.in_flight@[i] < id);
                }
                if self.pending_ids().to_set().contains(id) {
                    let i = choose|i: int|
                        0 <= i < self.pending_ids().len() && self.pending_ids()[i] == id;
                    assert(self.pending@[i].id < id);
                }
            }
        }
        self.accepted = Ghost(self.accepted@.insert(id));
        let body = encode_request(call.method.as_str(), call.params.as_str(), id);
        if self.in_flight.len() < self.window {
            self.in_flight.push(id);
            proof {
                assert(!old(self).in_flight@.contains(id)) by {
                    if old(self).in_flight@.contains(id) {
                        let i = choose|i: int|
                            0 <= i < old(self).in_flight@.len() && old(self).in_flight@[i] == id;
                        assert(old(self).in_flight@[i] < id);
                    }
                }
                lemma_push_no_duplicates(old(self).in_flight@, id);
                old(self).in_flight@.lemma_push_to_set_commute(id);
                assert(self.accepted@ =~= self.completed@.union(self.in_flight@.to_set()).union(
                    self.pending_ids().to_set(),
                ));
            }
            Submitted::Issued(IssuedCall { id, body })
        } else {
            self.pending.push(PendingCall { id, body });
            proof {
                assert(self.pending_ids() =~= old(self).pending_ids().push(id));
                assert(self.pending_bodies() =~= old(self).pending_bodies().push(body@));
                assert(!old(self).pending_ids().contains(id)) by {
                    if old(self).pending_ids().contains(id) {
                        let i = choose|i: int|
                            0 <= i < old(self).pending_ids().len() && old(self).pending_ids()[i]
                                == id;
                        assert(old(self).pending@[i].id < id);
                    }
                }
                lemma_push_no_duplicates(old(self).pending_ids(), id);
                old(self).pending_ids().lemma_push_to_set_commute(id);
                assert(self.accepted@ =~= self.completed@.union(self.in_flight@.to_set()).union(
                    self.pending_ids().to_set(),
                ));
            }
            Submitted::Queued(id)
        }
    }

    /// Resolve the in-flight exchange `id` with the outcome of its HTTP
    /// exchange: produce the verdict for exactly that call, strike it from
    /// the window, and issue the oldest waiting call into the freed slot.
    /// An identifier that is not in flight — never issued, or already
    /// resolved — changes nothing.
    pub fn resolve(&mut self, id: u64, outcome: HttpOutcome) -> (r: Option<ResolveStep>)
        requires
            old(self).wf(),
        ensures
            final(self).wf(),
            final(self).spec_window() == old(self).spec_window(),
            final(self).spec_closed() == old(self).spec_closed(),
            final(self).spec_next_id() == old(self).spec_next_id(),
            final(self).accepted_ids() == old(self).accepted_ids(),
            (r is Some) <==> old(self).in_flight_ids().contains(id),
            r is None ==> *final(self) == *old(self),
            r matches Some(step) ==> {
                &&& spec_classified(outcome, step.verdict)
                &&& final(self).completed_ids() =~= old(self).completed_ids().insert(id)
                &&& !final(self).in_flight_ids().contains(id)
            },
            old(self).in_flight_ids().contains(id) && old(self).pending_ids().len() == 0 ==> {
                &&& r matches Some(step) && step.next is None
                &&& final(self).in_flight_ids().to_set() =~= old(self).in_flight_ids().to_set()
                    .remove(id)
                &&& final(self).in_flight_ids().len() == old(self).in_flight_ids().len() - 1
                &&& final(self).pending_ids().len() == 0
            },
            old(self).in_flight_ids().contains(id) && old(self).pending_ids().len() > 0 ==> {
                &&& r matches Some(step) && step.next matches Some(c) && c.id == old(
                    self,
                ).pending_ids()[0] && c.body@ == old(self).pending_bodies()[0]
                &&& final(self).in_flight_ids().to_set() =~= old(self).in_flight_ids().to_set()
                    .remove(id).insert(old(self).pending_ids()[0])
                &&& final(self).in_flight_ids().len() == old(self).in_flight_ids().len()
                &&& final(self).pending_ids() =~= old(self).pending_ids().drop_first()
                &&& final(self).pending_bodies() =~= old(self).pending_bodies().drop_first()
            },
    {
        let index = match find_id(&self.in_flight, id) {
            Some(i) => i,
            None => {
                return None;
            },
        };
        let ghost before = old(self).in_flight@;
        let ghost mid = before.remove(index as int);
        proof {
            assert(before.contains(id)) by {
                assert(before[index as int] == id);
            }
            assert(id < self.next_id);
            assert(!self.completed@.contains(id));
            before.remove_ensures(index as int);
            lemma_removed_contains(before, index as int);
        }
        self.in_flight.remove(index);
        self.completed = Ghost(self.completed@.insert(id));
        proof {
            assert(mid.to_set() =~= before.to_set().remove(id)) by {
                assert(forall|x: u64| #[trigger] mid.contains(x) <==> before.contains(x) && x
                    != id);
            }
            assert forall|i: int| 0 <= i < mid.len() implies mid[i] < self.next_id
                && !self.completed@.contains(mid[i]) by {
                if i < index as int {
                    assert(mid[i] == before[i]);
                } else {
                    assert(mid[i] == before[i + 1]);
                }
                assert(mid.contains(mid[i]));
            }
        }
        let verdict = classify_outcome(outcome);
        let next = if self.pending.len() > 0 {
            let p = self.pending.remove(0);
            let next_id = p.id;
            self.in_flight.push(next_id);
            proof {
                let pen = self.pending@;
                let fin = self.in_flight@;
                let ghost oldpen = old(self).pending@;
                let ghost pids = old(self).pending_ids();
                oldpen.remove_ensures(0);
                assert(pids[0] == oldpen[0].id);
                assert(pen =~= oldpen.drop_first());
                assert(self.pending_ids() =~= pids.drop_first());
                assert(self.pending_bodies() =~= old(self).pending_bodies().drop_first());
                assert(!mid.contains(next_id)) by {
                    if mid.contains(next_id) {
                        let j = choose|j: int|
                            0 <= j < before.len() && before[j] == next_id;
                        assert(oldpen[0].id != before[j]);
                    }
                }
                lemma_push_no_duplicates(mid, next_id);
                lemma_contains_after_push(mid, next_id);
                mid.lemma_push_to_set_commute(next_id);
                assert(fin.to_set() =~= before.to_set().remove(id).insert(next_id));
                // every identifier now in flight is fresh-bounded and uncompleted
                assert(next_id < self.next_id && !old(self).completed@.contains(next_id));
                assert(next_id != id) by {
                    assert(oldpen[0].id != before[index as int]);
                }
                assert forall|i: int| 0 <= i < fin.len() implies fin[i] < self.next_id
                    && !self.completed@.contains(fin[i]) by {
                    if i < mid.len() {
                        assert(fin[i] == mid[i]);
                    } else {
                        assert(fin[i] == next_id);
                    }
                }
                // the remaining queue keeps its bounds and stays disjoint
                assert forall|i: int| 0 <= i < pen.len() implies pen[i].id < self.next_id
                    && !self.completed@.contains(pen[i].id) by {
                    assert(pen[i] == oldpen[i + 1]);
                    assert(oldpen[i + 1].id != before[index as int]);
                }
                assert forall|i: int, j: int|
                    0 <= i < pen.len() && 0 <= j < fin.len() implies pen[i].id != fin[j] by {
                    assert(pen[i] == oldpen[i + 1]);
                    assert(pids[i + 1] == oldpen[i + 1].id);
                    if j < mid.len() {
                        assert(fin[j] == mid[j]);
                        assert(mid.contains(mid[j]));
                        let k = choose|k: int| 0 <= k < before.len() && before[k] == mid[j];
                        assert(oldpen[i + 1].id != before[k]);
                    } else {
                        assert(fin[j] == next_id);
                        assert(pids[0] != pids[i + 1]);
                    }
                }
                assert forall|i: int, j: int|
                    0 <= i < self.pending_ids().len() && 0 <= j < self.pending_ids().len() && i
                        != j implies self.pending_ids()[i] != self.pending_ids()[j] by {
                    assert(self.pending_ids()[i] == pids[i + 1]);
                    assert(self.pending_ids()[j] == pids[j + 1]);
                }
                assert(self.pending_ids().to_set() =~= pids.to_set().remove(next_id)) by {
                    assert(self.pending_ids() =~= pids.remove(0));
                    lemma_removed_contains(pids, 0);
                    assert(forall|x: u64| #[trigger] pids.remove(0).contains(x) <==> pids.contains(
                        x,
                    ) && x != next_id);
                }
                assert(self.accepted@ =~= self.completed@.union(fin.to_set()).union(
                    self.pending_ids().to_set(),
                )) by {
                    assert(before.to_set().contains(id));
                    assert(pids.to_set().contains(next_id));
                }
            }
            Some(IssuedCall { id: next_id, body: p.body })
        } else {
            proof {
                assert(self.in_flight@.to_set() =~= before.to_set().remove(id));
                assert(self.accepted@ =~= self.completed@.union(self.in_flight@.to_set()).union(
                    self.pending_ids().to_set(),
                )) by {
                    assert(before.to_set().contains(id));
                }
            }
            None
        };
        Some(ResolveStep { verdict, next })
    }

    /// Close the call queue: no further descriptor is accepted; in-flight
    /// and waiting calls still resolve.
    pub fn close(&mut self)
        requires
            old(self).wf(),
        ensures
            final(self).wf(),
            final(self).spec_closed(),
            final(self).spec_window() == old(self).spec_window(),
            final(self).spec_next_id() == old(self).spec_next_id(),
            final(self).in_flight_ids() == old(self).in_flight_ids(),
            final(self).pending_ids() == old(self).pending_ids(),
            final(self).pending_bodies() == old(self).pending_bodies(),
            final(self).accepted_ids() == old(self).accepted_ids(),
            final(self).completed_ids() == old(self).completed_ids(),
    {
        self.closed = true;
    }

    /// Whether the dispatch loop may terminate: the queue is closed and no
    /// call is waiting or in flight.
    pub fn is_done(&self) -> (r: bool)
        ensures
            r == (self.spec_closed() && self.in_flight_ids().len() == 0 && self.pending_ids().len()
                == 0),
    {
        self.closed && self.in_flight.len() == 0 && self.pending.len() == 0
    }

    /// How many exchanges are in flight.
    pub fn in_flight_count(&self) -> (r: usize)
        ensures
            r == self.in_flight_ids().len(),
    {
        self.in_flight.len()
    }

    /// How many accepted calls wait for a window slot.
    pub fn pending_count(&self) -> (r: usize)
        ensures
            r == self.pending_ids().len(),
    {
        self.pending.len()
    }

    /// The concurrency window.
    pub fn window(&self) -> (r: usize)
        ensures
            r == self.spec_window(),
    {
        self.window
    }

    /// Whether the queue has been closed.
    pub fn is_closed(&self) -> (r: bool)
        ensures
            r == self.spec_closed(),
    {
        self.closed
    }
}

/// Exactly-once delivery: every accepted call is tracked in exactly one of
/// the three ledgers — waiting, in flight, or completed — and in no more
/// than one. A verdict is produced only by `resolve`, which moves one
/// identifier from the window to the completed ledger, and a completed
/// identifier is never waiting or in flight again; so, while the dispatcher
/// is alive, every accepted call is resolved at most once and is never
/// silently dropped from the ledgers before it is resolved.
pub proof fn lemma_exactly_once(d: Dispatcher)
    requires
        d.wf(),
    ensures
        d.accepted_ids() =~= d.completed_ids().union(d.in_flight_ids().to_set()).union(
            d.pending_ids().to_set(),
        ),
        forall|id: u64| #[trigger]
            d.completed_ids().contains(id) ==> !d.in_flight_ids().contains(id)
                && !d.pending_ids().contains(id),
        forall|id: u64| #[trigger]
            d.in_flight_ids().contains(id) ==> !d.pending_ids().contains(id),
{
    assert forall|id: u64| #[trigger]
        d.completed_ids().contains(id) implies !d.in_flight_ids().contains(id)
        && !d.pending_ids().contains(id) by {
        if d.in_flight_ids().contains(id) {
            let j = choose|j: int|
                0 <= j < d.in_flight_ids().len() && d.in_flight_ids()[j] == id;
            assert(!d.completed_ids().contains(d.in_flight_ids()[j]));
        }
        if d.pending_ids().contains(id) {
            let j = choose|j: int| 0 <= j < d.pending_ids().len() && d.pending_ids()[j] == id;
            assert(d.pending_ids()[j] == d.pending@[j].id);
            assert(!d.completed_ids().contains(d.pending@[j].id));
        }
    }
    assert forall|id: u64| #[trigger]
        d.in_flight_ids().contains(id) implies !d.pending_ids().contains(id) by {
        if d.pending_ids().contains(id) {
            let i = choose|i: int| 0 <= i < d.pending_ids().len() && d.pending_ids()[i] == id;
            let j = choose|j: int|
                0 <= j < d.in_flight_ids().len() && d.in_flight_ids()[j] == id;
            assert(d.pending@[i].id != d.in_flight_ids()[j]);
        }
    }
}

/// Concurrency bound: the dispatcher never holds more exchanges in flight
/// than its window allows.
pub proof fn lemma_concurrency_bound(d: Dispatcher)
    requires
        d.wf(),
    ensures
        d.in_flight_ids().len() <= d.spec_window(),
{
}

/// Correlation: the identifiers of outstanding requests — in flight or
/// waiting — are pairwise distinct, so a resolved outcome can only ever be
/// routed to the one call that carries its identifier.
pub proof fn lemma_distinct_correlation(d: Dispatcher)
    requires
        d.wf(),
    ensures
        d.in_flight_ids().no_duplicates(),
        d.pending_ids().no_duplicates(),
        forall|i: int, j: int|
            0 <= i < d.pending_ids().len() && 0 <= j < d.in_flight_ids().len()
                ==> d.pending_ids()[i] != d.in_flight_ids()[j],
{
    assert forall|i: int, j: int|
        0 <= i < d.pending_ids().len() && 0 <= j < d.in_flight_ids().len() implies (
    d.pending_ids()[i] != d.in_flight_ids()[j]) by {
        assert(d.pending_ids()[i] == d.pending@[i].id);
    }
}

/// Backpressure: a call only ever waits while the window is entirely full,
/// so the queue never grows while a slot is free.
pub proof fn lemma_backpressure(d: Dispatcher)
    requires
        d.wf(),
    ensures
        d.pending_ids().len() > 0 ==> d.in_flight_ids().len() == d.spec_window(),
{
}

fn find_id(ids: &Vec<u64>, id: u64) -> (r: Option<usize>)
    ensures
        r matches Some(i) ==> i < ids@.len() && ids@[i as int] == id,
        (r is Some) <==> ids@.contains(id),
{
    let n = ids.len();
    let mut i: usize = 0;
    while i < n
        invariant
            i <= n,
            n == ids@.len(),
            forall|j: int| 0 <= j < i ==> ids@[j] != id,
        decreases n - i,
    {
        if ids[i] == id {
            return Some(i);
        }
        i = i + 1;
    }
    None
}

proof fn lemma_push_no_duplicates(s: Seq<u64>, v: u64)
    requires
        s.no_duplicates(),
        !s.contains(v),
    ensures
        s.push(v).no_duplicates(),
{
    let t = s.push(v);
    assert forall|i: int, j: int|
        0 <= i < t.len() && 0 <= j < t.len() && i != j implies t[i] != t[j] by {
        if i < s.len() && j < s.len() {
            assert(t[i] == s[i] && t[j] == s[j]);
        } else if i < s.len() {
            assert(t[j] == v);
            if s[i] == v {
                assert(s.contains(v));
            }
        } else if j < s.len() {
            assert(t[i] == v);
            if s[j] == v {
                assert(s.contains(v));
            }
        }
    }
}

proof fn lemma_removed_contains(s: Seq<u64>, i: int)
    requires
        0 <= i < s.len(),
        s.no_duplicates(),
    ensures
        s.remove(i).no_duplicates(),
        forall|x: u64| #[trigger] s.remove(i).contains(x) <==> (s.contains(x) && x != s[i]),
{
    s.remove_ensures(i);
    let t = s.remove(i);
    assert forall|x: u64| #[trigger] t.contains(x) implies (s.contains(x) && x != s[i]) by {
        let j = choose|j: int| 0 <= j < t.len() && t[j] == x;
        if j < i {
            assert(s[j] == x);
        } else {
            assert(s[j + 1] == x);
        }
    }
    assert forall|x: u64| s.contains(x) && x != s[i] implies #[trigger] t.contains(x) by {
        let j = choose|j: int| 0 <= j < s.len() && s[j] == x;
        if j < i {
            assert(t[j] == x);
        } else {
            assert(t[j - 1] == x);
        }
    }
}

proof fn lemma_contains_after_push(s: Seq<u64>, v: u64)
    ensures
        forall|x: u64| #[trigger] s.push(v).contains(x) <==> (s.contains(x) || x == v),
{
    assert forall|x: u64| #[trigger] s.push(v).contains(x) implies (s.contains(x) || x == v) by {
        let j = choose|j: int| 0 <= j < s.push(v).len() && s.push(v)[j] == x;
        if j < s.len() {
            assert(s[j] == x);
        }
    }
    assert forall|x: u64| s.contains(x) || x == v implies #[trigger] s.push(v).contains(x) by {
        if s.contains(x) {
            let j = choose|j: int| 0 <= j < s.len() && s[j] == x;
            assert(s.push(v)[j] == x);
        } else {
            assert(s.push(v)[s.len() as int] == x);
        }
    }
}

} // verus!

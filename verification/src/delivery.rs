//! The delivery loop, as an explicit state machine.
//!
//! The loop itself performs no I/O.  It owns the cursor and the batch of
//! records still to deliver, and exposes two operations: `next_action` says
//! which external step the driver must perform next (query the source
//! table, post one payload, persist the cursor, or sleep), and `apply`
//! consumes the outcome of that step and moves to the next state.  Any
//! failed step halts the machine with the error kind of the step that
//! failed and the cursor it had reached; there is no retry and no
//! skip-and-continue.
//!
//! The driver performs each action, reports the outcome, and otherwise
//! decides nothing.  Everything the relay promises about ordering, cursor
//! monotonicity, resumption and fail-fast behaviour is stated and proved
//! here, over runs of this machine.

use crate::payload::{build_payload, payload_matches, Payload};
use crate::record::Res;
use vstd::pervasive::unreached;
use vstd::prelude::*;

verus! {

/// Milliseconds slept between two deliveries, to pace the receiver.
pub const PACE_MILLIS: u64 = 500;

/// Milliseconds slept when a fetch found nothing new.
pub const IDLE_MILLIS: u64 = 1000;

/// Why the machine halted: the error kind of the external step that failed.
#[derive(Debug)]
pub enum Failure {
    DataAccess,
    Delivery,
    Persistence,
}

/// The external step the driver must perform next.
#[derive(Debug)]
pub enum Action {
    /// Query the source table for all records with `no` greater than
    /// `since`, in ascending order.
    Fetch { since: i32 },
    /// Post the payload of the record with this sequence number.
    Deliver { payload: Payload, record_no: i32 },
    /// Durably persist this cursor value.
    Persist { value: i32 },
    /// Sleep for this many milliseconds.
    Sleep { millis: u64 },
}

/// The outcome of an external step, reported back by the driver.
#[derive(Debug)]
pub enum Event {
    Fetched { records: Vec<Res> },
    FetchFailed,
    Delivered,
    SendFailed,
    Persisted,
    PersistFailed,
    Slept,
}

/// Which kind of outcome the machine is waiting for.
#[derive(Debug)]
pub enum Wait {
    Fetch,
    Send,
    Persist,
    Pace,
    Idle,
}

/// The machine halted: the failure kind and the cursor value it had
/// reached (the persisted cursor is never ahead of this value).
#[derive(Debug)]
pub struct Stopped {
    pub failure: Failure,
    pub cursor: i32,
}

/// The delivery loop's state: the cursor, the fetched records not yet
/// delivered (ascending, all beyond the cursor), the outcome awaited, and
/// the configured image URL prefix.
#[derive(Debug)]
pub struct LoopState {
    pub cursor: i32,
    pub pending: Vec<Res>,
    pub waiting: Wait,
    pub image_url_prefix: String,
}

/// The sequence numbers of a sequence of records, in order.
pub open spec fn nos_of(rs: Seq<Res>) -> Seq<int> {
    rs.map(|i: int, r: Res| r.no as int)
}

/// The records are strictly ascending by sequence number and all lie
/// strictly beyond the cursor.
pub open spec fn sorted_above(cursor: int, rs: Seq<Res>) -> bool {
    &&& forall|i: int| 0 <= i < rs.len() ==> (#[trigger] rs[i]).no > cursor
    &&& forall|i: int, j: int|
        #![trigger rs[i], rs[j]]
        0 <= i < j < rs.len() ==> rs[i].no < rs[j].no
}

/// The machine's invariant: pending records are ascending and beyond the
/// cursor, a delivery is only awaited while records remain, and a fetch is
/// only awaited once the batch is drained.
pub open spec fn wf(s: LoopState) -> bool {
    &&& sorted_above(s.cursor as int, s.pending@)
    &&& (s.waiting is Send ==> s.pending@.len() > 0)
    &&& (s.waiting is Fetch ==> s.pending@.len() == 0)
    &&& (s.waiting is Idle ==> s.pending@.len() == 0)
}

/// The event answers the awaited step, and a fetch outcome honours the
/// fetcher's contract: records beyond the cursor, ascending.
pub open spec fn event_fits(s: LoopState, e: Event) -> bool {
    match s.waiting {
        Wait::Fetch => {
            &&& (e is Fetched || e is FetchFailed)
            &&& match e {
                Event::Fetched { records } => sorted_above(s.cursor as int, records@),
                _ => true,
            }
        },
        Wait::Send => e is Delivered || e is SendFailed,
        Wait::Persist => e is Persisted || e is PersistFailed,
        Wait::Pace => e is Slept,
        Wait::Idle => e is Slept,
    }
}

/// Cursor and pending records unchanged between two states.
pub open spec fn unchanged_data(s: LoopState, s2: LoopState) -> bool {
    s2.cursor == s.cursor && s2.pending@ == s.pending@
}

/// The machine's transition relation for a successful step: how `apply`
/// moves from `s` under event `e` to `s2`.
pub open spec fn step_rel(s: LoopState, e: Event, s2: LoopState) -> bool {
    &&& s2.image_url_prefix@ == s.image_url_prefix@
    &&& match s.waiting {
        Wait::Fetch => match e {
            Event::Fetched { records } => {
                &&& s2.cursor == s.cursor
                &&& s2.pending@ == records@
                &&& if records@.len() == 0 {
                    s2.waiting is Idle
                } else {
                    s2.waiting is Send
                }
            },
            _ => false,
        },
        Wait::Send => {
            &&& e is Delivered
            &&& s.pending@.len() > 0
            &&& s2.cursor == s.pending@[0].no
            &&& s2.pending@ == s.pending@.drop_first()
            &&& s2.waiting is Persist
        },
        Wait::Persist => e is Persisted && unchanged_data(s, s2) && s2.waiting is Pace,
        Wait::Pace => {
            &&& e is Slept
            &&& unchanged_data(s, s2)
            &&& if s.pending@.len() > 0 {
                s2.waiting is Send
            } else {
                s2.waiting is Idle
            }
        },
        Wait::Idle => e is Slept && unchanged_data(s, s2) && s2.waiting is Fetch,
    }
}

/// How the machine halts: which failure answers which awaited step.  A
/// sleep cannot fail, and a successful outcome never halts.
pub open spec fn halt_rel(s: LoopState, e: Event, f: Failure) -> bool {
    match s.waiting {
        Wait::Fetch => e is FetchFailed && f is DataAccess,
        Wait::Send => e is SendFailed && f is Delivery,
        Wait::Persist => e is PersistFailed && f is Persistence,
        Wait::Pace => false,
        Wait::Idle => false,
    }
}

impl LoopState {
    /// Starts the machine at a cursor, with nothing pending, about to
    /// fetch.
    pub fn init(cursor: i32, image_url_prefix: String) -> (s: LoopState)
        ensures
            wf(s),
            s.cursor == cursor,
            s.pending@.len() == 0,
            s.waiting is Fetch,
            s.image_url_prefix@ == image_url_prefix@,
    {
        LoopState { cursor, pending: Vec::new(), waiting: Wait::Fetch, image_url_prefix }
    }

    /// The external step to perform next: fetch beyond the cursor, deliver
    /// the first pending record's payload, persist the cursor just
    /// advanced, or sleep for the pacing or idling interval.
    pub fn next_action(&self) -> (a: Action)
        requires
            wf(*self),
        ensures
            self.waiting is Fetch ==> (a matches Action::Fetch { since } && since == self.cursor),
            self.waiting is Send ==> (a matches Action::Deliver { payload, record_no }
                && record_no == self.pending@[0].no && payload_matches(
                payload,
                self.pending@[0],
                self.image_url_prefix@,
            )),
            self.waiting is Persist ==> (a matches Action::Persist { value } && value
                == self.cursor),
            self.waiting is Pace ==> (a matches Action::Sleep { millis } && millis == PACE_MILLIS),
            self.waiting is Idle ==> (a matches Action::Sleep { millis } && millis == IDLE_MILLIS),
    {
        match self.waiting {
            Wait::Fetch => Action::Fetch { since: self.cursor },
            Wait::Send => {
                let payload = build_payload(&self.pending[0], self.image_url_prefix.as_str());
                Action::Deliver { payload, record_no: self.pending[0].no }
            },
            Wait::Persist => Action::Persist { value: self.cursor },
            Wait::Pace => Action::Sleep { millis: PACE_MILLIS },
            Wait::Idle => Action::Sleep { millis: IDLE_MILLIS },
        }
    }

    /// Consumes the outcome of the last external step.  A successful
    /// outcome moves the machine one step — in particular a delivery
    /// advances the cursor to the delivered record's sequence number — and
    /// a failed one halts it with the cursor unchanged.
    pub fn apply(self, e: Event) -> (r: Result<LoopState, Stopped>)
        requires
            wf(self),
            event_fits(self, e),
        ensures
            (r is Err <==> (e is FetchFailed || e is SendFailed || e is PersistFailed)),
            r matches Ok(s2) ==> wf(s2) && step_rel(self, e, s2) && self.cursor <= s2.cursor,
            r matches Err(st) ==> st.cursor == self.cursor && halt_rel(self, e, st.failure),
    {
        let LoopState { cursor, mut pending, waiting, image_url_prefix } = self;
        match waiting {
            Wait::Fetch => match e {
                Event::Fetched { records } => {
                    let waiting = if records.len() == 0 {
                        Wait::Idle
                    } else {
                        Wait::Send
                    };
                    Ok(LoopState { cursor, pending: records, waiting, image_url_prefix })
                },
                Event::FetchFailed => Err(Stopped { failure: Failure::DataAccess, cursor }),
                _ => unreached(),
            },
            Wait::Send => match e {
                Event::Delivered => {
                    let head_no = pending[0].no;
                    pending.remove(0);
                    let s2 = LoopState {
                        cursor: head_no,
                        pending,
                        waiting: Wait::Persist,
                        image_url_prefix,
                    };
                    proof {
                        let rs = self.pending@;
                        assert(s2.pending@ =~= rs.drop_first());
                        assert forall|k: int| 0 <= k < s2.pending@.len() implies (#[trigger] s2.pending@[k]).no
                            > s2.cursor by {
                            assert(s2.pending@[k] == rs[k + 1]);
                        }
                        assert forall|k: int, m: int|
                            #![trigger s2.pending@[k], s2.pending@[m]]
                            0 <= k < m < s2.pending@.len() implies s2.pending@[k].no
                            < s2.pending@[m].no by {
                            assert(s2.pending@[k] == rs[k + 1]);
                            assert(s2.pending@[m] == rs[m + 1]);
                        }
                    }
                    Ok(s2)
                },
                Event::SendFailed => Err(Stopped { failure: Failure::Delivery, cursor }),
                _ => unreached(),
            },
            Wait::Persist => match e {
                Event::Persisted => Ok(
                    LoopState { cursor, pending, waiting: Wait::Pace, image_url_prefix },
                ),
                Event::PersistFailed => Err(Stopped { failure: Failure::Persistence, cursor }),
                _ => unreached(),
            },
            Wait::Pace => match e {
                Event::Slept => {
                    let waiting = if pending.len() > 0 {
                        Wait::Send
                    } else {
                        Wait::Idle
                    };
                    Ok(LoopState { cursor, pending, waiting, image_url_prefix })
                },
                _ => unreached(),
            },
            Wait::Idle => match e {
                Event::Slept => Ok(
                    LoopState { cursor, pending, waiting: Wait::Fetch, image_url_prefix },
                ),
                _ => unreached(),
            },
        }
    }
}

/// The sequence numbers delivered by one step: the first pending record's,
/// when the step is a successful delivery, and none otherwise.
pub open spec fn delivered_of(s: LoopState, e: Event) -> Seq<int> {
    if s.waiting is Send && e is Delivered && s.pending@.len() > 0 {
        seq![s.pending@[0].no as int]
    } else {
        Seq::empty()
    }
}

/// The sequence numbers fetched by one step: those of the returned batch,
/// when the step is a successful fetch, and none otherwise.
pub open spec fn fetched_of(s: LoopState, e: Event) -> Seq<int> {
    match e {
        Event::Fetched { records } => if s.waiting is Fetch {
            nos_of(records@)
        } else {
            Seq::empty()
        },
        _ => Seq::empty(),
    }
}

/// A run of the machine: from `s0`, each event in turn fits the awaited
/// step and moves (successfully) to the corresponding state of `states`.
pub open spec fn is_run(s0: LoopState, evs: Seq<Event>, states: Seq<LoopState>) -> bool
    decreases evs.len(),
{
    &&& evs.len() == states.len()
    &&& (evs.len() > 0 ==> {
        &&& event_fits(s0, evs[0])
        &&& step_rel(s0, evs[0], states[0])
        &&& is_run(states[0], evs.drop_first(), states.drop_first())
    })
}

/// All sequence numbers delivered over a run, in delivery order.
pub open spec fn run_delivered(s0: LoopState, evs: Seq<Event>, states: Seq<LoopState>) -> Seq<
    int,
>
    decreases evs.len(),
{
    if evs.len() == 0 || states.len() == 0 {
        Seq::empty()
    } else {
        delivered_of(s0, evs[0]) + run_delivered(states[0], evs.drop_first(), states.drop_first())
    }
}

/// All sequence numbers fetched over a run, in fetch order.
pub open spec fn run_fetched(s0: LoopState, evs: Seq<Event>, states: Seq<LoopState>) -> Seq<int>
    decreases evs.len(),
{
    if evs.len() == 0 || states.len() == 0 {
        Seq::empty()
    } else {
        fetched_of(s0, evs[0]) + run_fetched(states[0], evs.drop_first(), states.drop_first())
    }
}

/// The state a run ends in.
pub open spec fn end_state(s0: LoopState, states: Seq<LoopState>) -> LoopState {
    if states.len() == 0 {
        s0
    } else {
        states.last()
    }
}

/// One successful step keeps the machine well formed, never moves the
/// cursor backwards, and delivers at most one record — one strictly beyond
/// the old cursor, to which the new cursor then points.
pub proof fn lemma_step_preserves(s: LoopState, e: Event, s2: LoopState)
    requires
        wf(s),
        event_fits(s, e),
        step_rel(s, e, s2),
    ensures
        wf(s2),
        s.cursor <= s2.cursor,
        delivered_of(s, e).len() <= 1,
        delivered_of(s, e).len() == 1 ==> delivered_of(s, e)[0] > s.cursor && delivered_of(s, e)[0]
            == s2.cursor,
{
    match s.waiting {
        Wait::Send => {
            if e is Delivered {
                let rs = s.pending@;
                assert forall|k: int| 0 <= k < s2.pending@.len() implies (#[trigger] s2.pending@[k]).no
                    > s2.cursor by {
                    assert(s2.pending@[k] == rs[k + 1]);
                }
                assert forall|k: int, m: int|
                    #![trigger s2.pending@[k], s2.pending@[m]]
                    0 <= k < m < s2.pending@.len() implies s2.pending@[k].no
                    < s2.pending@[m].no by {
                    assert(s2.pending@[k] == rs[k + 1]);
                    assert(s2.pending@[m] == rs[m + 1]);
                }
            }
        },
        _ => {},
    }
}

/// The machine stays well formed over a run, and the cursor never
/// decreases: each state's cursor is at least the previous one's, so the
/// values handed to successive persist steps never go backwards either.
#[verifier::rlimit(50)]
pub proof fn lemma_run_monotonic(s0: LoopState, evs: Seq<Event>, states: Seq<LoopState>)
    requires
        wf(s0),
        is_run(s0, evs, states),
    ensures
        forall|i: int| 0 <= i < states.len() ==> wf(#[trigger] states[i]),
        forall|i: int| 0 <= i < states.len() ==> s0.cursor <= (#[trigger] states[i]).cursor,
        forall|i: int|
            0 <= i < states.len() - 1 ==> (#[trigger] states[i]).cursor <= states[i + 1].cursor,
        s0.cursor <= end_state(s0, states).cursor,
    decreases evs.len(),
{
    if evs.len() > 0 {
        lemma_step_preserves(s0, evs[0], states[0]);
        lemma_run_monotonic(states[0], evs.drop_first(), states.drop_first());
        let rest = states.drop_first();
        assert forall|i: int| 1 <= i < states.len() implies wf(#[trigger] states[i]) && states[0].cursor
            <= states[i].cursor by {
            assert(states[i] == rest[i - 1]);
        }
        assert forall|i: int|
            0 <= i < states.len() - 1 implies (#[trigger] states[i]).cursor <= states[i
            + 1].cursor by {
            if i > 0 {
                assert(states[i] == rest[i - 1]);
                assert(states[i + 1] == rest[i]);
            }
        }
        if states.len() > 1 {
            assert(end_state(s0, states) == end_state(states[0], rest));
        }
    }
}

/// Records are delivered in strictly ascending sequence-number order, each
/// strictly beyond the cursor the run started from and none beyond the
/// cursor the run reaches.
#[verifier::rlimit(80)]
pub proof fn lemma_run_delivery_order(s0: LoopState, evs: Seq<Event>, states: Seq<LoopState>)
    requires
        wf(s0),
        is_run(s0, evs, states),
    ensures
        forall|k: int|
            0 <= k < run_delivered(s0, evs, states).len() ==> s0.cursor < #[trigger] run_delivered(
                s0,
                evs,
                states,
            )[k] <= end_state(s0, states).cursor,
        forall|k: int, m: int|
            0 <= k < m < run_delivered(s0, evs, states).len() ==> run_delivered(s0, evs, states)[k]
                < run_delivered(s0, evs, states)[m],
    decreases evs.len(),
{
    if evs.len() > 0 {
        let d0 = delivered_of(s0, evs[0]);
        let rest = run_delivered(states[0], evs.drop_first(), states.drop_first());
        let d = run_delivered(s0, evs, states);
        lemma_step_preserves(s0, evs[0], states[0]);
        lemma_run_monotonic(states[0], evs.drop_first(), states.drop_first());
        lemma_run_delivery_order(states[0], evs.drop_first(), states.drop_first());
        assert(d == d0 + rest);
        if states.len() > 1 {
            assert(end_state(s0, states) == end_state(states[0], states.drop_first()));
        }
        assert forall|k: int|
            0 <= k < d.len() implies s0.cursor < #[trigger] d[k] <= end_state(
            s0,
            states,
        ).cursor by {
            if k < d0.len() {
                assert(d[k] == d0[0]);
            } else {
                assert(d[k] == rest[k - d0.len()]);
            }
        }
        assert forall|k: int, m: int| 0 <= k < m < d.len() implies d[k] < d[m] by {
            if k < d0.len() {
                assert(d[k] == d0[0]);
                assert(d[m] == rest[m - d0.len()]);
                assert(d0[0] == states[0].cursor);
            } else {
                assert(d[k] == rest[k - d0.len()]);
                assert(d[m] == rest[m - d0.len()]);
            }
        }
    }
}

/// Nothing is lost and nothing is invented: what a run delivers, followed
/// by what it still holds pending, is exactly what it held pending at the
/// start followed by everything it fetched, in order.
pub proof fn lemma_run_conservation(s0: LoopState, evs: Seq<Event>, states: Seq<LoopState>)
    requires
        wf(s0),
        is_run(s0, evs, states),
    ensures
        run_delivered(s0, evs, states) + nos_of(end_state(s0, states).pending@) == nos_of(
            s0.pending@,
        ) + run_fetched(s0, evs, states),
    decreases evs.len(),
{
    if evs.len() == 0 {
        assert(run_delivered(s0, evs, states) + nos_of(end_state(s0, states).pending@) =~= nos_of(
            s0.pending@,
        ) + run_fetched(s0, evs, states));
    } else {
        lemma_step_preserves(s0, evs[0], states[0]);
        lemma_run_conservation(states[0], evs.drop_first(), states.drop_first());
        let d0 = delivered_of(s0, evs[0]);
        let f0 = fetched_of(s0, evs[0]);
        let rest_d = run_delivered(states[0], evs.drop_first(), states.drop_first());
        let rest_f = run_fetched(states[0], evs.drop_first(), states.drop_first());
        let endp = nos_of(end_state(s0, states).pending@);
        if states.len() > 1 {
            assert(end_state(s0, states) == end_state(states[0], states.drop_first()));
        }
        match s0.waiting {
            Wait::Fetch => {
                if evs[0] is Fetched {
                    assert(nos_of(states[0].pending@) == f0);
                    assert((d0 + rest_d) + endp =~= nos_of(s0.pending@) + (f0 + rest_f));
                }
            },
            Wait::Send => {
                let rs = s0.pending@;
                assert(states[0].pending@ == rs.drop_first());
                assert(d0 =~= seq![rs[0].no as int]);
                assert(f0 =~= Seq::<int>::empty());
                assert(nos_of(rs) =~= seq![rs[0].no as int] + nos_of(rs.drop_first()));
                let nos_drop = nos_of(rs.drop_first());
                assert(rest_d + endp == nos_drop + rest_f);
                assert((d0 + rest_d) + endp =~= d0 + (rest_d + endp));
                assert(d0 + (nos_drop + rest_f) =~= (d0 + nos_drop) + rest_f);
                assert(d0 + nos_drop == nos_of(rs));
                assert(nos_of(rs) + rest_f =~= nos_of(rs) + (f0 + rest_f));
                assert((d0 + rest_d) + endp == nos_of(s0.pending@) + (f0 + rest_f));
            },
            _ => {
                assert(states[0].pending@ == s0.pending@);
                assert((d0 + rest_d) + endp =~= nos_of(s0.pending@) + (f0 + rest_f));
            },
        }
    }
}

/// A run with no fetch events fetches nothing.
pub proof fn lemma_run_without_fetch(s0: LoopState, evs: Seq<Event>, states: Seq<LoopState>)
    requires
        is_run(s0, evs, states),
        forall|i: int| 0 <= i < evs.len() ==> !(#[trigger] evs[i] is Fetched),
    ensures
        run_fetched(s0, evs, states) == Seq::<int>::empty(),
    decreases evs.len(),
{
    if evs.len() > 0 && states.len() > 0 {
        assert forall|i: int| 0 <= i < evs.drop_first().len() implies !(#[trigger] evs.drop_first()[i] is Fetched) by {
            assert(evs.drop_first()[i] == evs[i + 1]);
        }
        lemma_run_without_fetch(states[0], evs.drop_first(), states.drop_first());
        assert(run_fetched(s0, evs, states) =~= Seq::<int>::empty());
    }
}

/// Resuming from a cursor delivers exactly what is fetched beyond it: a
/// run that starts awaiting a fetch, whose first event returns the batch
/// and whose later events fetch nothing more, and which drains the batch
/// completely, delivers exactly the fetched sequence numbers, in their
/// ascending order — none at or below the starting cursor.
pub proof fn lemma_resume_exact(s0: LoopState, evs: Seq<Event>, states: Seq<LoopState>)
    requires
        wf(s0),
        is_run(s0, evs, states),
        s0.waiting is Fetch,
        evs.len() > 0,
        forall|i: int| 1 <= i < evs.len() ==> !(#[trigger] evs[i] is Fetched),
        end_state(s0, states).pending@.len() == 0,
    ensures
        run_delivered(s0, evs, states) == fetched_of(s0, evs[0]),
        forall|k: int|
            0 <= k < run_delivered(s0, evs, states).len() ==> s0.cursor < #[trigger] run_delivered(
                s0,
                evs,
                states,
            )[k],
        forall|k: int, m: int|
            0 <= k < m < run_delivered(s0, evs, states).len() ==> run_delivered(s0, evs, states)[k]
                < run_delivered(s0, evs, states)[m],
{
    lemma_run_conservation(s0, evs, states);
    lemma_run_delivery_order(s0, evs, states);
    lemma_step_preserves(s0, evs[0], states[0]);
    assert forall|i: int| 0 <= i < evs.drop_first().len() implies !(#[trigger] evs.drop_first()[i] is Fetched) by {
        assert(evs.drop_first()[i] == evs[i + 1]);
    }
    lemma_run_without_fetch(states[0], evs.drop_first(), states.drop_first());
    assert(run_fetched(s0, evs, states) =~= fetched_of(s0, evs[0]));
    assert(nos_of(end_state(s0, states).pending@) =~= Seq::<int>::empty());
    assert(nos_of(s0.pending@) =~= Seq::<int>::empty());
    assert(run_delivered(s0, evs, states) =~= run_delivered(s0, evs, states) + nos_of(
        end_state(s0, states).pending@,
    ));
    assert(fetched_of(s0, evs[0]) =~= nos_of(s0.pending@) + run_fetched(s0, evs, states));
}

/// Fail-fast on a send error: when the machine awaits a delivery outcome
/// and the send fails, it halts with the delivery failure and the cursor
/// it had before the attempt, and every record the run had delivered lies
/// strictly below the record whose send failed.
#[verifier::rlimit(50)]
pub proof fn lemma_fail_fast(s0: LoopState, evs: Seq<Event>, states: Seq<LoopState>, e: Event)
    requires
        wf(s0),
        is_run(s0, evs, states),
        end_state(s0, states).waiting is Send,
        e is SendFailed,
    ensures
        halt_rel(end_state(s0, states), e, Failure::Delivery),
        forall|k: int|
            0 <= k < run_delivered(s0, evs, states).len() ==> #[trigger] run_delivered(
                s0,
                evs,
                states,
            )[k] < end_state(s0, states).pending@[0].no,
{
    lemma_run_monotonic(s0, evs, states);
    lemma_run_delivery_order(s0, evs, states);
    let end = end_state(s0, states);
    assert(end.pending@[0].no > end.cursor);
}

/// An empty fetch only idles: it delivers nothing, writes no cursor, and
/// after the idle sleep the machine is back to fetching, cursor untouched.
pub proof fn lemma_empty_fetch_idles(
    s0: LoopState,
    e0: Event,
    s1: LoopState,
    e1: Event,
    s2: LoopState,
)
    requires
        wf(s0),
        s0.waiting is Fetch,
        (e0 matches Event::Fetched { records } && records@.len() == 0),
        step_rel(s0, e0, s1),
        step_rel(s1, e1, s2),
    ensures
        delivered_of(s0, e0).len() == 0,
        delivered_of(s1, e1).len() == 0,
        s1.cursor == s0.cursor,
        s1.waiting is Idle,
        s2.cursor == s0.cursor,
        s2.pending@.len() == 0,
        s2.waiting is Fetch,
{
}

} // verus!

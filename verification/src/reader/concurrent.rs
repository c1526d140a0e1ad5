//! A reader that fetches ahead: a worker asks the driver for the next batch while the
//! consumer is busy with the one before. The two hand batches over through a channel that
//! holds a bounded number of them.
//!
//! The worker of a running reader is driven by `WorkerState`. What the worker, the channel
//! and the consumer do together is described by `Exchange` and its steps, and the laws at
//! the end of the file hold of every run of them.
use crate::reader::stream::{active_at, ends_stream, handed_out};
use vstd::prelude::*;

verus! {

/// What the worker of a concurrent reader is doing.
#[derive(Debug, Clone, Copy, PartialEq, Eq, Structural)]
pub enum WorkerState {
    /// It holds nothing and has asked for nothing.
    Idle,
    /// It has asked the driver for the next batch.
    Fetching,
    /// It holds what a fetch has come to and waits for room in the channel.
    Ready,
    /// It asks the driver for nothing more.
    Stopped,
}

impl WorkerState {
    /// A worker starts out idle.
    pub fn new() -> (r: Self)
        ensures
            r == WorkerState::Idle,
    {
        WorkerState::Idle
    }

    /// Decides whether an idle worker asks the driver for the next batch: it does unless the
    /// consumer is gone. Gives `true` where the driver is to be asked.
    pub fn begin_fetch(&mut self, cancelled: bool) -> (fetch: bool)
        requires
            *old(self) == WorkerState::Idle,
        ensures
            fetch == !cancelled,
            *final(self) == if cancelled {
                WorkerState::Stopped
            } else {
                WorkerState::Fetching
            },
    {
        if cancelled {
            *self = WorkerState::Stopped;
            false
        } else {
            *self = WorkerState::Fetching;
            true
        }
    }

    /// Takes note that the fetch under way has come back. Gives `true` where its outcome is
    /// to be handed over, and `false` where it is dropped because the consumer is gone.
    pub fn fetch_done(&mut self, cancelled: bool) -> (keep: bool)
        requires
            *old(self) == WorkerState::Fetching,
        ensures
            keep == !cancelled,
            *final(self) == if cancelled {
                WorkerState::Stopped
            } else {
                WorkerState::Ready
            },
    {
        if cancelled {
            *self = WorkerState::Stopped;
            false
        } else {
            *self = WorkerState::Ready;
            true
        }
    }

    /// Takes note of how handing over went. `accepted` tells whether the channel took the
    /// item, which it does not once the consumer is gone; `last` tells whether the item was
    /// the end of the result set or an error. Gives `true` where the worker goes on.
    pub fn handed_over(&mut self, accepted: bool, last: bool) -> (goes_on: bool)
        requires
            *old(self) == WorkerState::Ready,
        ensures
            goes_on == (accepted && !last),
            *final(self) == if accepted && !last {
                WorkerState::Idle
            } else {
                WorkerState::Stopped
            },
    {
        if accepted && !last {
            *self = WorkerState::Idle;
            true
        } else {
            *self = WorkerState::Stopped;
            false
        }
    }
}

/// The state of a concurrent reader as a whole.
pub struct Exchange<T, E> {
    /// What the worker is doing.
    pub worker: WorkerState,
    /// The number of fetches that the worker has asked the driver for.
    pub started: nat,
    /// What is in the channel: handed over by the worker, not yet taken by the consumer.
    pub in_flight: Seq<Option<Result<T, E>>>,
    /// What the consumer has taken, in the order in which it took it.
    pub taken: Seq<Option<Result<T, E>>>,
    /// Whether the consumer is gone.
    pub cancelled: bool,
}

/// What can happen in a concurrent reader.
pub enum Step {
    /// The worker asks the driver for the next batch.
    BeginFetch,
    /// The fetch under way comes back.
    FetchDone,
    /// The worker puts what it holds into the channel.
    HandOver,
    /// The consumer takes the oldest item out of the channel.
    Take,
    /// The consumer goes away, and what is in the channel with it.
    Cancel,
    /// The worker finds the consumer gone.
    NoticeCancel,
}

impl<T, E> Exchange<T, E> {
    /// A reader at its start.
    pub open spec fn initial() -> Self {
        Exchange {
            worker: WorkerState::Idle,
            started: 0,
            in_flight: Seq::empty(),
            taken: Seq::empty(),
            cancelled: false,
        }
    }

    /// The number of items that the worker has handed over.
    pub open spec fn handed_over(self) -> nat {
        self.taken.len() + self.in_flight.len()
    }

    /// True where `step` can happen in this state, with a channel that holds up to
    /// `capacity` items.
    pub open spec fn enabled(self, step: Step, capacity: nat) -> bool {
        match step {
            Step::BeginFetch => self.worker == WorkerState::Idle && !self.cancelled,
            Step::FetchDone => self.worker == WorkerState::Fetching,
            Step::HandOver => self.worker == WorkerState::Ready && !self.cancelled
                && self.in_flight.len() < capacity,
            Step::Take => !self.cancelled && self.in_flight.len() > 0,
            Step::Cancel => !self.cancelled,
            Step::NoticeCancel => self.cancelled && (self.worker == WorkerState::Idle
                || self.worker == WorkerState::Ready),
        }
    }

    /// The state after `step`. `offered[i]` is what the fetch at position `i` comes to.
    pub open spec fn after(self, step: Step, offered: Seq<Option<Result<T, E>>>) -> Self {
        match step {
            Step::BeginFetch => Exchange {
                worker: WorkerState::Fetching,
                started: self.started + 1,
                ..self
            },
            Step::FetchDone => Exchange {
                worker: if self.cancelled {
                    WorkerState::Stopped
                } else {
                    WorkerState::Ready
                },
                ..self
            },
            Step::HandOver => Exchange {
                worker: if ends_stream(offered[self.started - 1]) {
                    WorkerState::Stopped
                } else {
                    WorkerState::Idle
                },
                in_flight: self.in_flight.push(offered[self.started - 1]),
                ..self
            },
            Step::Take => Exchange {
                in_flight: self.in_flight.drop_first(),
                taken: self.taken.push(self.in_flight[0]),
                ..self
            },
            Step::Cancel => Exchange { in_flight: Seq::empty(), cancelled: true, ..self },
            Step::NoticeCancel => Exchange { worker: WorkerState::Stopped, ..self },
        }
    }

    /// What holds of a concurrent reader at any time.
    pub open spec fn inv(self, offered: Seq<Option<Result<T, E>>>, capacity: nat) -> bool {
        &&& self.in_flight.len() <= capacity
        &&& !self.cancelled ==> self.started == self.handed_over() + if self.worker
            == WorkerState::Fetching || self.worker == WorkerState::Ready {
            1nat
        } else {
            0nat
        }
        &&& self.taken.len() <= self.started
        &&& forall|i: int| 0 <= i < self.taken.len() ==> self.taken[i] == offered[i]
        &&& forall|i: int|
            0 <= i < self.in_flight.len() ==> self.in_flight[i] == offered[self.taken.len() + i]
        &&& forall|i: int| 0 <= i < self.handed_over() ==> #[trigger] active_at(offered, i)
        &&& !self.cancelled && self.worker != WorkerState::Stopped ==> active_at(
            offered,
            self.handed_over() as int,
        )
    }
}

/// A run of a concurrent reader: the steps in `steps`, one after the other, from the start.
pub open spec fn run<T, E>(steps: Seq<Step>, offered: Seq<Option<Result<T, E>>>) -> Exchange<
    T,
    E,
>
    decreases steps.len(),
{
    if steps.len() == 0 {
        Exchange::initial()
    } else {
        run(steps.drop_last(), offered).after(steps.last(), offered)
    }
}

/// True where every step of the run can happen when it does.
pub open spec fn possible<T, E>(
    steps: Seq<Step>,
    offered: Seq<Option<Result<T, E>>>,
    capacity: nat,
) -> bool
    decreases steps.len(),
{
    steps.len() == 0 || (possible(steps.drop_last(), offered, capacity) && run(
        steps.drop_last(),
        offered,
    ).enabled(steps.last(), capacity))
}

/// Every step that can happen keeps what holds of a concurrent reader.
pub proof fn lemma_step_keeps_inv<T, E>(
    before: Exchange<T, E>,
    step: Step,
    offered: Seq<Option<Result<T, E>>>,
    capacity: nat,
)
    requires
        before.inv(offered, capacity),
        before.enabled(step, capacity),
    ensures
        before.after(step, offered).inv(offered, capacity),
{
    let after = before.after(step, offered);
    match step {
        Step::HandOver => {
            let at = before.handed_over() as int;
            assert(before.started - 1 == at);
            assert(active_at(offered, at + 1) == (active_at(offered, at) && !ends_stream(
                offered[at],
            )));
            assert forall|i: int| 0 <= i < after.handed_over() implies #[trigger] active_at(
                offered,
                i,
            ) by {
                if i < at {
                    assert(active_at(offered, i));
                }
            }
        },
        Step::Take => {
            assert(after.handed_over() == before.handed_over());
            assert forall|i: int| 0 <= i < after.in_flight.len() implies after.in_flight[i]
                == offered[after.taken.len() + i] by {
                assert(after.in_flight[i] == before.in_flight[i + 1]);
            }
        },
        _ => {},
    }
}

/// What holds of a concurrent reader holds after every run.
pub proof fn lemma_run_keeps_inv<T, E>(
    steps: Seq<Step>,
    offered: Seq<Option<Result<T, E>>>,
    capacity: nat,
)
    requires
        possible(steps, offered, capacity),
    ensures
        run(steps, offered).inv(offered, capacity),
    decreases steps.len(),
{
    if steps.len() > 0 {
        lemma_run_keeps_inv(steps.drop_last(), offered, capacity);
        lemma_step_keeps_inv(run(steps.drop_last(), offered), steps.last(), offered, capacity);
    }
}

/// After any run the consumer of a concurrent reader has taken what a reader without a
/// worker hands out for the same fetches: the same items, in the same order.
pub proof fn lemma_same_batches_in_the_same_order<T, E>(
    steps: Seq<Step>,
    offered: Seq<Option<Result<T, E>>>,
    capacity: nat,
)
    requires
        possible(steps, offered, capacity),
    ensures
        forall|i: int|
            0 <= i < run(steps, offered).taken.len() ==> run(steps, offered).taken[i]
                == #[trigger] handed_out(offered, i),
{
    lemma_run_keeps_inv(steps, offered, capacity);
    let state = run(steps, offered);
    assert forall|i: int| 0 <= i < state.taken.len() implies state.taken[i] == #[trigger] handed_out(
        offered,
        i,
    ) by {
        assert(active_at(offered, i));
    }
}

/// The worker is never more than one fetch ahead of what the channel holds: of the fetches
/// that it has asked for, all but those in the channel and the one in its hands have been
/// taken by the consumer.
pub proof fn lemma_fetches_ahead_are_bounded<T, E>(
    steps: Seq<Step>,
    offered: Seq<Option<Result<T, E>>>,
    capacity: nat,
)
    requires
        possible(steps, offered, capacity),
        !run(steps, offered).cancelled,
    ensures
        run(steps, offered).in_flight.len() <= capacity,
        run(steps, offered).started <= run(steps, offered).taken.len() + capacity + 1,
{
    lemma_run_keeps_inv(steps, offered, capacity);
}

/// Once the consumer is gone, it stays gone, it takes nothing more, and the driver is not
/// asked for another batch, whatever happens next.
pub proof fn lemma_no_fetch_after_cancel<T, E>(
    steps: Seq<Step>,
    more: Seq<Step>,
    offered: Seq<Option<Result<T, E>>>,
    capacity: nat,
)
    requires
        possible(steps + more, offered, capacity),
        run(steps, offered).cancelled,
    ensures
        run(steps + more, offered).cancelled,
        run(steps + more, offered).started == run(steps, offered).started,
        run(steps + more, offered).taken == run(steps, offered).taken,
        forall|i: int| 0 <= i < more.len() ==> more[i] != Step::BeginFetch,
    decreases more.len(),
{
    if more.len() == 0 {
        assert(steps + more =~= steps);
    } else {
        let all = steps + more;
        assert(all.drop_last() =~= steps + more.drop_last());
        assert(all.last() == more.last());
        lemma_no_fetch_after_cancel(steps, more.drop_last(), offered, capacity);
        assert forall|i: int| 0 <= i < more.len() implies more[i] != Step::BeginFetch by {
            if i < more.len() - 1 {
                assert(more.drop_last()[i] == more[i]);
            }
        }
    }
}

} // verus!

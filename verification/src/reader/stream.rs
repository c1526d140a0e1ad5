//! When a reader stops: at the end of the result set, and after the first error.
use vstd::prelude::*;

verus! {

/// Whether a reader goes on asking the driver for batches.
#[derive(Debug, Clone, Copy, PartialEq, Eq, Structural)]
pub enum ReaderState {
    /// The driver is asked for the next batch.
    Active,
    /// The driver is asked for nothing more, and nothing more is handed out.
    Stopped,
}

/// True for what is handed out last: nothing, at the end of the result set, or an error.
pub open spec fn ends_stream<T, E>(item: Option<Result<T, E>>) -> bool {
    match item {
        None => true,
        Some(Err(_)) => true,
        Some(Ok(_)) => false,
    }
}

/// True where a reader is still active when it is asked for the item at `position`, the
/// first being at position 0: none of the fetches before has ended the stream. `offered[i]`
/// is what the fetch at position `i` comes to where it is made.
pub open spec fn active_at<T, E>(offered: Seq<Option<Result<T, E>>>, position: int) -> bool
    decreases position,
{
    position <= 0 || (active_at(offered, position - 1) && !ends_stream(offered[position - 1]))
}

/// What a reader hands out when it is asked for the item at `position`: what the fetch at
/// that position comes to, as long as the reader is active; nothing afterwards.
pub open spec fn handed_out<T, E>(offered: Seq<Option<Result<T, E>>>, position: int) -> Option<
    Result<T, E>,
> {
    if active_at(offered, position) {
        offered[position]
    } else {
        None
    }
}

impl ReaderState {
    /// The state that a reader is in when it is asked for the item at `position`.
    pub open spec fn at<T, E>(offered: Seq<Option<Result<T, E>>>, position: int) -> ReaderState {
        if active_at(offered, position) {
            ReaderState::Active
        } else {
            ReaderState::Stopped
        }
    }

    /// A reader starts out active.
    pub fn new() -> (r: Self)
        ensures
            r == ReaderState::Active,
    {
        ReaderState::Active
    }

    /// True where the driver is to be asked for the next batch. A stopped reader hands out
    /// nothing without asking.
    pub fn wants_fetch(&self) -> (r: bool)
        ensures
            r == (*self == ReaderState::Active),
    {
        match self {
            ReaderState::Active => true,
            ReaderState::Stopped => false,
        }
    }

    /// Takes note of what a fetch has come to and gives what is handed out for it. The end
    /// of the result set and an error stop the reader; a stopped reader hands out nothing.
    pub fn hand_out<T, E>(&mut self, item: Option<Result<T, E>>) -> (r: Option<Result<T, E>>)
        ensures
            r == if *old(self) == ReaderState::Active {
                item
            } else {
                None
            },
            *final(self) == if *old(self) == ReaderState::Active && !ends_stream(item) {
                ReaderState::Active
            } else {
                ReaderState::Stopped
            },
    {
        match self {
            ReaderState::Stopped => None,
            ReaderState::Active => {
                let ends: bool = match &item {
                    Some(Ok(_)) => false,
                    _ => true,
                };
                if ends {
                    *self = ReaderState::Stopped;
                }
                item
            },
        }
    }
}

/// One step of a reader is one step along the stream: from the state at a position,
/// `hand_out` gives what is handed out at that position and leads to the state at the next.
pub proof fn lemma_hand_out_advances<T, E>(offered: Seq<Option<Result<T, E>>>, position: int)
    requires
        0 <= position,
    ensures
        handed_out(offered, position) == if ReaderState::at(offered, position)
            == ReaderState::Active {
            offered[position]
        } else {
            None
        },
        ReaderState::at(offered, position + 1) == if ReaderState::at(offered, position)
            == ReaderState::Active && !ends_stream(offered[position]) {
            ReaderState::Active
        } else {
            ReaderState::Stopped
        },
{
}

/// A reader that has stopped stays stopped.
pub proof fn lemma_stopped_for_good<T, E>(offered: Seq<Option<Result<T, E>>>, from: int, to: int)
    requires
        !active_at(offered, from),
        from <= to,
    ensures
        !active_at(offered, to),
    decreases to - from,
{
    if from < to {
        lemma_stopped_for_good(offered, from, to - 1);
    }
}

/// Where the fetch at position `k` is the first that fails, a reader hands out a batch at
/// every position before `k`, the error at position `k`, and nothing at any position after
/// it: there the driver is not asked again.
pub proof fn lemma_error_ends_the_stream<T, E>(offered: Seq<Option<Result<T, E>>>, k: int)
    requires
        0 <= k < offered.len(),
        forall|j: int| 0 <= j < k ==> (#[trigger] offered[j]) matches Some(Ok(_)),
        offered[k] matches Some(Err(_)),
    ensures
        forall|j: int| 0 <= j <= k ==> #[trigger] active_at(offered, j),
        forall|j: int| 0 <= j <= k ==> #[trigger] handed_out(offered, j) == offered[j],
        forall|j: int| k < j ==> !#[trigger] active_at(offered, j),
        forall|j: int| k < j ==> #[trigger] handed_out(offered, j) is None,
{
    assert forall|j: int| 0 <= j <= k implies #[trigger] active_at(offered, j) by {
        lemma_active_while_batches(offered, j);
    }
    assert(!active_at(offered, k + 1));
    assert forall|j: int| k < j implies !#[trigger] active_at(offered, j) by {
        lemma_stopped_for_good(offered, k + 1, j);
    }
}

/// As long as every fetch has come to a batch, a reader is active.
pub proof fn lemma_active_while_batches<T, E>(offered: Seq<Option<Result<T, E>>>, position: int)
    requires
        forall|j: int| 0 <= j < position ==> (#[trigger] offered[j]) matches Some(Ok(_)),
    ensures
        active_at(offered, position),
    decreases position,
{
    if position > 0 {
        lemma_active_while_batches(offered, position - 1);
    }
}

} // verus!

//! The one-shot cell that carries a map result from callback or poll helper to the reader.

use vstd::prelude::*;

use crate::error::{Error, ReadbackFailure};
use crate::readback::lifecycle::{ReadbackStagingDisposition, ReadbackStagingMapState};

verus! {

/// How waiting for a map request ended.
#[derive(Clone, Copy, Debug, PartialEq, Eq, Structural)]
pub enum ReadbackCompletionResult {
    Mapped,
    MapFailed,
    PollFailure { requested: u64, successful: u64 },
}

/// The error that a completion result stands for, if it is one.
pub open spec fn completion_failure(result: ReadbackCompletionResult) -> Option<ReadbackFailure> {
    match result {
        ReadbackCompletionResult::Mapped => None,
        ReadbackCompletionResult::MapFailed => Some(ReadbackFailure::MapFailed),
        ReadbackCompletionResult::PollFailure { .. } => Some(ReadbackFailure::WrongSubmissionIndex),
    }
}

pub fn completion_result(result: ReadbackCompletionResult) -> (outcome: Result<(), Error>)
    ensures
        outcome == match completion_failure(result) {
            None => Ok(()),
            Some(failure) => Err(Error::Readback(failure)),
        },
{
    match result {
        ReadbackCompletionResult::Mapped => Ok(()),
        ReadbackCompletionResult::MapFailed => Err(Error::Readback(ReadbackFailure::MapFailed)),
        ReadbackCompletionResult::PollFailure { .. } => Err(
            Error::Readback(ReadbackFailure::WrongSubmissionIndex),
        ),
    }
}

/// Where a completion cell stands. `W` wakes the reader.
pub enum ReadbackCompletionStatus<W> {
    Pending { waker: Option<W> },
    Ready(ReadbackCompletionResult),
    Consumed,
    Canceled,
}

/// What can happen to a completion cell.
pub enum CompletionEvent<W> {
    Complete(ReadbackCompletionResult),
    Poll(W),
    Cancel,
}

/// The status after `event`. A cell that has been read or canceled stays as it is.
pub open spec fn status_after<W>(status: ReadbackCompletionStatus<W>, event: CompletionEvent<W>) -> ReadbackCompletionStatus<
    W,
> {
    match (status, event) {
        (ReadbackCompletionStatus::Pending { .. }, CompletionEvent::Complete(result)) => {
            ReadbackCompletionStatus::Ready(result)
        },
        (ReadbackCompletionStatus::Pending { .. }, CompletionEvent::Poll(waker)) => {
            ReadbackCompletionStatus::Pending { waker: Some(waker) }
        },
        (ReadbackCompletionStatus::Ready(_), CompletionEvent::Poll(_)) => {
            ReadbackCompletionStatus::Consumed
        },
        (ReadbackCompletionStatus::Pending { .. }, CompletionEvent::Cancel) => {
            ReadbackCompletionStatus::Canceled
        },
        (ReadbackCompletionStatus::Ready(_), CompletionEvent::Cancel) => {
            ReadbackCompletionStatus::Canceled
        },
        _ => status,
    }
}

pub open spec fn status_after_all<W>(
    status: ReadbackCompletionStatus<W>,
    events: Seq<CompletionEvent<W>>,
) -> ReadbackCompletionStatus<W>
    decreases events.len(),
{
    if events.len() == 0 {
        status
    } else {
        status_after(status_after_all(status, events.drop_last()), events.last())
    }
}

/// How many results of a run the cell accepted.
pub open spec fn accepted_results<W>(
    status: ReadbackCompletionStatus<W>,
    events: Seq<CompletionEvent<W>>,
) -> nat
    decreases events.len(),
{
    if events.len() == 0 {
        0
    } else {
        let before = status_after_all(status, events.drop_last());
        accepted_results(status, events.drop_last()) + if before is Pending && events.last()
            is Complete {
            1nat
        } else {
            0nat
        }
    }
}

/// In any run a cell accepts at most one result, and none once it has left the pending state.
pub proof fn law_at_most_one_result_is_accepted<W>(
    status: ReadbackCompletionStatus<W>,
    events: Seq<CompletionEvent<W>>,
)
    ensures
        accepted_results(status, events) <= 1,
        status !is Pending ==> accepted_results(status, events) == 0,
        status_after_all(status, events) is Pending ==> accepted_results(status, events) == 0,
    decreases events.len(),
{
    if events.len() > 0 {
        law_at_most_one_result_is_accepted(status, events.drop_last());
        lemma_pending_is_never_reentered(status, events.drop_last());
    }
}

proof fn lemma_pending_is_never_reentered<W>(
    status: ReadbackCompletionStatus<W>,
    events: Seq<CompletionEvent<W>>,
)
    ensures
        status !is Pending ==> status_after_all(status, events) !is Pending,
    decreases events.len(),
{
    if events.len() > 0 {
        lemma_pending_is_never_reentered(status, events.drop_last());
    }
}

/// A canceled cell discards whatever arrives later.
pub proof fn law_canceled_cells_stay_canceled<W>(events: Seq<CompletionEvent<W>>)
    ensures
        status_after_all(ReadbackCompletionStatus::<W>::Canceled, events) is Canceled,
    decreases events.len(),
{
    if events.len() > 0 {
        law_canceled_cells_stay_canceled::<W>(events.drop_last());
    }
}

/// The completion cell of one map request.
pub struct ReadbackCompletion<W> {
    pub status: ReadbackCompletionStatus<W>,
}

impl<W> ReadbackCompletion<W> {
    pub fn new() -> (completion: Self)
        ensures
            completion.status == (ReadbackCompletionStatus::<W>::Pending { waker: None }),
    {
        Self { status: ReadbackCompletionStatus::Pending { waker: None } }
    }

    /// Stores the first result and hands back the reader's waker; later results are discarded.
    pub fn complete(&mut self, result: ReadbackCompletionResult) -> (waker: Option<W>)
        ensures
            final(self).status == status_after(old(self).status, CompletionEvent::Complete(result)),
            waker == match old(self).status {
                ReadbackCompletionStatus::Pending { waker } => waker,
                _ => None,
            },
    {
        let mut previous = ReadbackCompletionStatus::Consumed;
        std::mem::swap(&mut self.status, &mut previous);
        match previous {
            ReadbackCompletionStatus::Pending { waker } => {
                self.status = ReadbackCompletionStatus::Ready(result);
                waker
            },
            terminal => {
                self.status = terminal;
                None
            },
        }
    }

    /// Takes a ready result, or leaves a waker to be woken when one arrives.
    pub fn poll(&mut self, waker: W) -> (result: Option<ReadbackCompletionResult>)
        requires
            old(self).status is Pending || old(self).status is Ready,
        ensures
            final(self).status == status_after(old(self).status, CompletionEvent::Poll(waker)),
            result == match old(self).status {
                ReadbackCompletionStatus::Ready(result) => Some(result),
                _ => None,
            },
    {
        match &self.status {
            ReadbackCompletionStatus::Ready(result) => {
                let result = *result;
                self.status = ReadbackCompletionStatus::Consumed;
                Some(result)
            },
            _ => {
                self.status = ReadbackCompletionStatus::Pending { waker: Some(waker) };
                None
            },
        }
    }

    /// Cancels a cell whose result has not been read.
    pub fn cancel(&mut self)
        ensures
            final(self).status == status_after(old(self).status, CompletionEvent::<W>::Cancel),
    {
        match &self.status {
            ReadbackCompletionStatus::Pending { .. } | ReadbackCompletionStatus::Ready(_) => {
                self.status = ReadbackCompletionStatus::Canceled;
            },
            _ => {},
        }
    }

    pub fn is_canceled(&self) -> (canceled: bool)
        ensures
            canceled == self.status is Canceled,
    {
        match &self.status {
            ReadbackCompletionStatus::Canceled => true,
            _ => false,
        }
    }

    /// Whether a result would still be accepted.
    pub fn is_pending(&self) -> (pending: bool)
        ensures
            pending == self.status is Pending,
    {
        match &self.status {
            ReadbackCompletionStatus::Pending { .. } => true,
            _ => false,
        }
    }
}

/// The result that a map callback delivers.
pub open spec fn map_result(succeeded: bool) -> ReadbackCompletionResult {
    if succeeded {
        ReadbackCompletionResult::Mapped
    } else {
        ReadbackCompletionResult::MapFailed
    }
}

/// How a staging buffer stands once its map request was answered. A released one stays released.
pub open spec fn answered(
    disposition: ReadbackStagingDisposition,
    succeeded: bool,
) -> ReadbackStagingDisposition {
    if disposition == ReadbackStagingDisposition::Released {
        ReadbackStagingDisposition::Released
    } else if succeeded {
        ReadbackStagingDisposition::MappedActive
    } else {
        ReadbackStagingDisposition::Idle
    }
}

/// The map callback: records the mapping, then completes the cell.
pub fn map_completion_callback<W>(
    completion: &mut ReadbackCompletion<W>,
    staging_map: &mut ReadbackStagingMapState,
    succeeded: bool,
) -> (waker: Option<W>)
    requires
        old(staging_map).disposition == ReadbackStagingDisposition::MapPending || old(
            staging_map,
        ).disposition == ReadbackStagingDisposition::Released,
    ensures
        final(completion).status == status_after(
            old(completion).status,
            CompletionEvent::Complete(map_result(succeeded)),
        ),
        final(staging_map).disposition == answered(old(staging_map).disposition, succeeded),
        waker == match old(completion).status {
            ReadbackCompletionStatus::Pending { waker } => waker,
            _ => None,
        },
{
    staging_map.map_callback_completed(succeeded);
    let result = if succeeded {
        ReadbackCompletionResult::Mapped
    } else {
        ReadbackCompletionResult::MapFailed
    };
    completion.complete(result)
}

/// What one slice of device polling reported.
#[derive(Clone, Copy, Debug, PartialEq, Eq, Structural)]
pub enum NativePollOutcome {
    Progressed,
    TimedOut,
    WrongSubmissionIndex { requested: u64, successful: u64 },
}

/// Whether the poll helper goes on.
#[derive(Clone, Copy, Debug, PartialEq, Eq, Structural)]
pub enum NativePollAction {
    Continue,
    Stop,
}

/// Decides what the poll helper does after one slice: it goes on while a result is awaited, and
/// stops with a failure when the submission is unknown to the device.
pub fn handle_native_poll_result<W>(
    completion: &mut ReadbackCompletion<W>,
    outcome: NativePollOutcome,
) -> (out: (NativePollAction, Option<W>))
    ensures
        match outcome {
            NativePollOutcome::WrongSubmissionIndex { requested, successful } => {
                &&& final(completion).status == status_after(
                    old(completion).status,
                    CompletionEvent::Complete(
                        (ReadbackCompletionResult::PollFailure { requested, successful }),
                    ),
                )
                &&& out.0 == NativePollAction::Stop
                &&& out.1 == match old(completion).status {
                    ReadbackCompletionStatus::Pending { waker } => waker,
                    _ => None,
                }
            },
            _ => {
                &&& final(completion).status == old(completion).status
                &&& out.0 == (if old(completion).status is Pending {
                    NativePollAction::Continue
                } else {
                    NativePollAction::Stop
                })
                &&& out.1 is None
            },
        },
{
    match outcome {
        NativePollOutcome::Progressed | NativePollOutcome::TimedOut => {
            if completion.is_pending() {
                (NativePollAction::Continue, None)
            } else {
                (NativePollAction::Stop, None)
            }
        },
        NativePollOutcome::WrongSubmissionIndex { requested, successful } => {
            let waker = completion.complete(
                ReadbackCompletionResult::PollFailure { requested, successful },
            );
            (NativePollAction::Stop, waker)
        },
    }
}

/// What a completion result means: mapped bytes are a success, a failed map is reported as one, and an
/// unknown submission as that.
pub proof fn law_completion_results(result: ReadbackCompletionResult, outcome: Result<(), Error>)
    requires
        call_ensures(completion_result, (result,), outcome),
    ensures
        outcome is Ok <==> result is Mapped,
        result is MapFailed <==> outcome == Err::<(), Error>(
            Error::Readback(ReadbackFailure::MapFailed),
        ),
        result is PollFailure <==> outcome == Err::<(), Error>(
            Error::Readback(ReadbackFailure::WrongSubmissionIndex),
        ),
{
}

/// The first result of a waiting cell is kept and wakes the reader that waits; every later one is
/// dropped and wakes nobody.
pub proof fn law_the_first_result_is_kept<W>(result: ReadbackCompletionResult)
    ensures
        forall|cell: &mut ReadbackCompletion<W>, waker: Option<W>| #[trigger]
            call_ensures(ReadbackCompletion::<W>::complete, (cell, result), waker) ==> {
                &&& (*cell).status matches ReadbackCompletionStatus::Pending { waker: kept } ==> waker
                    == kept && (*final(cell)).status == ReadbackCompletionStatus::<W>::Ready(result)
                &&& !((*cell).status is Pending) ==> waker is None && (*final(cell)).status
                    == (*cell).status
            },
{
}

/// A reader that polls a ready cell gets its result, once; one that polls a waiting cell gets nothing
/// and is the one that is woken. Canceling ends a cell that was not read.
pub proof fn law_results_are_read_once<W>(waker: W)
    ensures
        forall|cell: &mut ReadbackCompletion<W>, result: Option<ReadbackCompletionResult>|
         #[trigger]
            call_ensures(ReadbackCompletion::<W>::poll, (cell, waker), result) && (
            (*cell).status is Pending || (*cell).status is Ready) ==> {
                &&& (*cell).status matches ReadbackCompletionStatus::Ready(ready) ==> result == Some(
                    ready,
                ) && (*final(cell)).status is Consumed
                &&& (*cell).status is Pending ==> result is None && (*final(cell)).status
                    == (ReadbackCompletionStatus::Pending { waker: Some(waker) })
            },
        forall|cell: &mut ReadbackCompletion<W>| #[trigger]
            call_ensures(ReadbackCompletion::<W>::cancel, (cell,), ()) ==> {
                &&& (*cell).status is Pending || (*cell).status is Ready
                    ==> (*final(cell)).status is Canceled
                &&& (*cell).status is Consumed ==> (*final(cell)).status is Consumed
                &&& (*cell).status is Canceled ==> (*final(cell)).status is Canceled
            },
{
}

/// A map callback records the mapping and completes the cell with the same answer: mapped and active on
/// success, idle on failure; of a released buffer nothing changes, and only a waiting cell takes the
/// answer.
pub proof fn law_callbacks_record_their_answer<W>(succeeded: bool)
    ensures
        forall|
            cell: &mut ReadbackCompletion<W>,
            map: &mut ReadbackStagingMapState,
            waker: Option<W>,
        | #[trigger]
            call_ensures(map_completion_callback::<W>, (cell, map, succeeded), waker) && (
            (*map).disposition is MapPending || (*map).disposition is Released) ==> {
                &&& (*map).disposition is Released ==> (*final(map)).disposition is Released
                &&& (*map).disposition is MapPending ==> {
                    &&& succeeded ==> (*final(map)).disposition is MappedActive
                    &&& !succeeded ==> (*final(map)).disposition is Idle
                }
                &&& (*cell).status is Pending ==> {
                    &&& succeeded ==> (*final(cell)).status == ReadbackCompletionStatus::<W>::Ready(
                        ReadbackCompletionResult::Mapped,
                    )
                    &&& !succeeded ==> (*final(cell)).status == ReadbackCompletionStatus::<
                        W,
                    >::Ready(ReadbackCompletionResult::MapFailed)
                }
                &&& !((*cell).status is Pending) ==> (*final(cell)).status == (*cell).status
            },
{
}

/// The poll helper goes on exactly while a result is awaited, and stops for good with an unknown
/// submission, which it reports to a waiting cell with both indices.
pub proof fn law_polling_goes_on_while_waiting<W>(outcome: NativePollOutcome)
    ensures
        forall|cell: &mut ReadbackCompletion<W>, out: (NativePollAction, Option<W>)| #[trigger]
            call_ensures(handle_native_poll_result::<W>, (cell, outcome), out) ==> {
                &&& out.0 is Continue <==> (*cell).status is Pending && !(
                outcome is WrongSubmissionIndex)
                &&& outcome matches NativePollOutcome::WrongSubmissionIndex {
                    requested,
                    successful,
                } ==> ((*cell).status is Pending ==> (*final(cell)).status
                    == ReadbackCompletionStatus::<W>::Ready(
                    (ReadbackCompletionResult::PollFailure { requested, successful }),
                ))
                &&& !(outcome is WrongSubmissionIndex) || !((*cell).status is Pending)
                    ==> (*final(cell)).status == (*cell).status
            },
{
}

/// A cell waits, is canceled or holds a result, and says which: never both of the first two.
pub proof fn law_cells_say_what_they_wait_for<W>(
    cell: &ReadbackCompletion<W>,
    canceled: bool,
    pending: bool,
)
    requires
        call_ensures(ReadbackCompletion::<W>::is_canceled, (cell,), canceled),
        call_ensures(ReadbackCompletion::<W>::is_pending, (cell,), pending),
    ensures
        !(canceled && pending),
        canceled <==> cell.status is Canceled,
        pending <==> cell.status is Pending,
{
}

} // verus!

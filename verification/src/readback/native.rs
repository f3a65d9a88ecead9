//! One map request, from its start to published bytes.

use vstd::prelude::*;

use std::ops::Range;

use crate::error::{Error, ReadbackFailure};
use crate::geometry::PhysicalSize;
use crate::image::ImageBuffer;
use crate::readback::completion::{
    answered, completion_failure, completion_result, handle_native_poll_result,
    map_completion_callback, map_result, status_after, CompletionEvent, NativePollAction,
    NativePollOutcome, ReadbackCompletion, ReadbackCompletionResult, ReadbackCompletionStatus,
};
use crate::readback::layout::{
    decode_padded_rows, decoded_rows, first_row_failure, law_decoded_rows_are_the_pixels,
    staging_bytes, ReadbackLayout,
};
use crate::readback::lifecycle::{
    gives_up, phase_after, released, ReadbackEvent, ReadbackOwner, ReadbackPhase, ReadbackStagingDisposition,
    ReadbackStagingMapState, ReleasedStaging,
};

verus! {

/// What polling a map request found.
pub enum MapPoll<S> {
    /// No result yet; the waker is kept.
    Pending,
    /// The request failed and the staging buffer is given up.
    Failed { error: Error, cleanup: ReleasedStaging<S> },
    /// The bytes of `range` are mapped and can be decoded.
    Mapped { range: Range<u64> },
}

/// A map request in flight: the completion cell, the mapping state and the owner that both
/// serve. Callback, poll helper and reader act on it one at a time.
pub struct ReadbackMapFuture<I, S, W> {
    completion: ReadbackCompletion<W>,
    staging_map: ReadbackStagingMapState,
    owner: ReadbackOwner<I, S>,
}

impl<I, S, W> ReadbackMapFuture<I, S, W> {
    pub closed spec fn status(&self) -> ReadbackCompletionStatus<W> {
        self.completion.status
    }

    pub closed spec fn disposition(&self) -> ReadbackStagingDisposition {
        self.staging_map.disposition
    }

    pub closed spec fn phase(&self) -> ReadbackPhase<I> {
        self.owner.phase()
    }

    pub closed spec fn staging(&self) -> Option<S> {
        self.owner.spec_staging()
    }

    pub closed spec fn size(&self) -> PhysicalSize {
        self.owner.size()
    }

    closed spec fn owner_agrees(&self) -> bool {
        self.owner.agrees_with(self.staging_map.disposition)
    }

    /// The cell, the mapping and the phase tell one story.
    pub closed spec fn wf(&self) -> bool {
        &&& self.owner_agrees()
        &&& match self.status() {
            ReadbackCompletionStatus::Pending { .. } => self.phase() is MapPending
                && self.disposition() == ReadbackStagingDisposition::MapPending,
            ReadbackCompletionStatus::Ready(ReadbackCompletionResult::Mapped) => self.phase() is MapPending
                && self.disposition() == ReadbackStagingDisposition::MappedActive,
            ReadbackCompletionStatus::Ready(_) => self.phase() is MapPending,
            ReadbackCompletionStatus::Consumed => self.phase() is Mapped
                || !self.phase().uncertain(),
            ReadbackCompletionStatus::Canceled => !self.phase().uncertain(),
        }
    }

    /// Requests the map of a submitted copy.
    pub fn start(owner: ReadbackOwner<I, S>, staging_map: ReadbackStagingMapState) -> (future: Self)
        requires
            owner.phase() is CopySubmitted,
            owner.agrees_with(staging_map.disposition),
        ensures
            future.wf(),
            future.status() is Pending,
            future.phase() is MapPending,
            future.disposition() == ReadbackStagingDisposition::MapPending,
            future.staging() == owner.spec_staging(),
            future.size() == owner.size(),
    {
        let completion = ReadbackCompletion::new();
        let mut owner = owner;
        let mut staging_map = staging_map;
        owner.map_pending(&mut staging_map);
        Self { completion, staging_map, owner }
    }

    /// The staging buffer of a request in flight.
    pub fn staging_buffer(&self) -> (staging: &S)
        requires
            self.staging() is Some,
        ensures
            Some(*staging) == self.staging(),
    {
        self.owner.staging()
    }

    /// The bytes of the staging buffer to map.
    pub fn mapped_range(&self) -> (range: Range<u64>)
        requires
            self.wf(),
        ensures
            range.start == 0,
            range.end == staging_bytes(self.size()),
    {
        self.owner.mapped_range()
    }

    /// Gives up the request because its progress helper could not be started.
    pub fn helper_not_started(&mut self) -> (out: (Error, ReleasedStaging<S>))
        requires
            old(self).wf(),
        ensures
            final(self).wf(),
            out.0 == Error::Readback(ReadbackFailure::HelperNotStarted),
            out.1 == released(old(self).staging(), old(self).disposition()),
            final(self).status() == status_after(old(self).status(), CompletionEvent::<W>::Cancel),
            Some(final(self).phase()) == phase_after(old(self).phase(), ReadbackEvent::Fail),
            final(self).staging() is None,
            final(self).disposition() == ReadbackStagingDisposition::Released,
    {
        self.completion.cancel();
        let cleanup = self.owner.fail(&mut self.staging_map);
        (Error::Readback(ReadbackFailure::HelperNotStarted), cleanup)
    }

    /// Delivers the answer to the map request. An answer to a request that was given up changes
    /// nothing but is harmless.
    pub fn map_callback(&mut self, succeeded: bool) -> (waker: Option<W>)
        requires
            old(self).wf(),
            old(self).disposition() == ReadbackStagingDisposition::MapPending || old(
                self,
            ).disposition() == ReadbackStagingDisposition::Released,
        ensures
            final(self).wf(),
            final(self).phase() == old(self).phase(),
            final(self).staging() == old(self).staging(),
            final(self).size() == old(self).size(),
            final(self).status() == status_after(
                old(self).status(),
                CompletionEvent::Complete(map_result(succeeded)),
            ),
            final(self).disposition() == answered(old(self).disposition(), succeeded),
            waker == match old(self).status() {
                ReadbackCompletionStatus::Pending { waker } => waker,
                _ => None,
            },
    {
        map_completion_callback(&mut self.completion, &mut self.staging_map, succeeded)
    }

    /// Whether the poll helper still has something to wait for.
    pub fn is_pending(&self) -> (pending: bool)
        ensures
            pending == self.status() is Pending,
    {
        self.completion.is_pending()
    }

    /// Hands the outcome of one polling slice to the cell.
    pub fn poll_slice(&mut self, outcome: NativePollOutcome) -> (out: (NativePollAction, Option<W>))
        requires
            old(self).wf(),
        ensures
            final(self).wf(),
            final(self).phase() == old(self).phase(),
            final(self).staging() == old(self).staging(),
            final(self).size() == old(self).size(),
            final(self).disposition() == old(self).disposition(),
            final(self).status() == match outcome {
                NativePollOutcome::WrongSubmissionIndex { requested, successful } => status_after(
                    old(self).status(),
                    CompletionEvent::Complete(
                        (ReadbackCompletionResult::PollFailure { requested, successful }),
                    ),
                ),
                _ => old(self).status(),
            },
            out.0 is Continue == (outcome !is WrongSubmissionIndex && old(self).status() is Pending),
            out.1 == match (outcome, old(self).status()) {
                (
                    NativePollOutcome::WrongSubmissionIndex { .. },
                    ReadbackCompletionStatus::Pending { waker },
                ) => waker,
                _ => None,
            },
    {
        handle_native_poll_result(&mut self.completion, outcome)
    }

    /// Reads the result if there is one. A failure ends the readback; a success leaves it mapped.
    pub fn poll(&mut self, waker: W) -> (poll: MapPoll<S>)
        requires
            old(self).wf(),
            old(self).status() is Pending || old(self).status() is Ready,
        ensures
            final(self).wf(),
            final(self).size() == old(self).size(),
            final(self).status() == status_after(old(self).status(), CompletionEvent::Poll(waker)),
            match old(self).status() {
                ReadbackCompletionStatus::Ready(result) => match completion_failure(result) {
                    Some(failure) => {
                        &&& final(self).phase() is Failed
                        &&& final(self).staging() is None
                        &&& final(self).disposition() == ReadbackStagingDisposition::Released
                        &&& poll matches MapPoll::Failed { error, cleanup } && error
                            == Error::Readback(failure) && cleanup == released(
                            old(self).staging(),
                            old(self).disposition(),
                        )
                    },
                    None => {
                        &&& final(self).phase() is Mapped
                        &&& final(self).staging() == old(self).staging()
                        &&& final(self).disposition() == old(self).disposition()
                        &&& poll matches MapPoll::Mapped { range } && range.start == 0 && range.end
                            == staging_bytes(old(self).size())
                    },
                },
                _ => poll is Pending && final(self).phase() == old(self).phase()
                    && final(self).staging() == old(self).staging()
                    && final(self).disposition() == old(self).disposition(),
            },
    {
        match self.completion.poll(waker) {
            None => MapPoll::Pending,
            Some(result) => match completion_result(result) {
                Err(error) => {
                    let cleanup = self.owner.fail(&mut self.staging_map);
                    MapPoll::Failed { error, cleanup }
                },
                Ok(()) => {
                    self.owner.mapped(&self.staging_map);
                    MapPoll::Mapped { range: self.owner.mapped_range() }
                },
            },
        }
    }

    /// Decodes the mapped bytes and publishes them, or fails the readback. The staging buffer is
    /// given up either way.
    pub fn finish(&mut self, mapped: &[u8]) -> (out: (
        Result<ImageBuffer, Error>,
        ReleasedStaging<S>,
    ))
        requires
            old(self).wf(),
            old(self).phase() is Mapped,
        ensures
            final(self).wf(),
            final(self).status() == old(self).status(),
            final(self).staging() is None,
            final(self).disposition() == ReadbackStagingDisposition::Released,
            out.1 is UnmapThenDrop,
            old(self).staging() == Some(out.1->UnmapThenDrop_0),
            match out.0 {
                Ok(image) => {
                    &&& first_row_failure(old(self).size(), 0, mapped@.len() as int) is None
                    &&& image.spec_size() == old(self).size()
                    &&& image.spec_rgba() == decoded_rows(old(self).size(), mapped@)
                    &&& final(self).phase() is PublishedBytes
                },
                Err(error) => {
                    &&& first_row_failure(old(self).size(), 0, mapped@.len() as int) matches Some(
                        failure,
                    ) && error == Error::Readback(failure)
                    &&& final(self).phase() is Failed
                },
            },
    {
        match decode_padded_rows(self.owner.layout(), mapped) {
            Ok(rgba) => {
                proof {
                    self.size().lemma_area_bounds();
                }
                self.owner.publish_mapped(&mut self.staging_map, rgba)
            },
            Err(error) => {
                let cleanup = self.owner.fail(&mut self.staging_map);
                (Err(error), cleanup)
            },
        }
    }

    /// Abandons the request: an open readback is canceled and gives up its staging buffer.
    pub fn abandon(&mut self) -> (cleanup: ReleasedStaging<S>)
        requires
            old(self).wf(),
        ensures
            final(self).wf(),
            final(self).status() == (if old(self).phase().uncertain() {
                status_after(old(self).status(), CompletionEvent::<W>::Cancel)
            } else {
                old(self).status()
            }),
            Some(final(self).phase()) == phase_after(old(self).phase(), ReadbackEvent::Cancel),
            final(self).staging() is None,
            final(self).disposition() == ReadbackStagingDisposition::Released,
            cleanup == released(old(self).staging(), old(self).disposition()),
            cleanup is Nothing == !old(self).phase().uncertain(),
    {
        if self.owner.is_open() {
            self.completion.cancel();
        }
        self.owner.cancel(&mut self.staging_map)
    }
}

/// How a blocking wait for a map request ended.
#[derive(Clone, Copy, Debug, PartialEq, Eq, Structural)]
pub enum BlockingMapOutcome {
    WaitFailed,
    CallbackDropped,
    MapFailed,
    Mapped,
}

/// The failure of a blocking wait, if it failed.
pub open spec fn blocking_failure(outcome: BlockingMapOutcome) -> Option<ReadbackFailure> {
    match outcome {
        BlockingMapOutcome::WaitFailed => Some(ReadbackFailure::WaitFailed),
        BlockingMapOutcome::CallbackDropped => Some(ReadbackFailure::CallbackDropped),
        BlockingMapOutcome::MapFailed => Some(ReadbackFailure::MapFailed),
        BlockingMapOutcome::Mapped => None,
    }
}

/// Decodes the bytes of a staging buffer that was mapped by waiting for it.
pub fn map_and_decode(outcome: BlockingMapOutcome, layout: &ReadbackLayout, mapped: &[u8]) -> (result:
    Result<Vec<u8>, Error>)
    ensures
        match blocking_failure(outcome) {
            Some(failure) => result == Err::<Vec<u8>, Error>(Error::Readback(failure)),
            None => match result {
                Ok(rgba) => {
                    &&& first_row_failure(layout.size(), 0, mapped@.len() as int) is None
                    &&& rgba@ == decoded_rows(layout.size(), mapped@)
                },
                Err(error) => first_row_failure(layout.size(), 0, mapped@.len() as int) matches Some(
                    failure,
                ) && error == Error::Readback(failure),
            },
        },
{
    match outcome {
        BlockingMapOutcome::WaitFailed => Err(Error::Readback(ReadbackFailure::WaitFailed)),
        BlockingMapOutcome::CallbackDropped => Err(
            Error::Readback(ReadbackFailure::CallbackDropped),
        ),
        BlockingMapOutcome::MapFailed => Err(Error::Readback(ReadbackFailure::MapFailed)),
        BlockingMapOutcome::Mapped => decode_padded_rows(layout, mapped),
    }
}

/// A finished map request publishes the image of its size whose pixels are those of the mapped rows,
/// channel by channel and without the padding, or fails; the staging buffer is unmapped and dropped.
pub proof fn law_finished_requests_publish_the_mapped_pixels<I, S, W>(
    mapped: &[u8],
    layout: &ReadbackLayout,
    padded: u32,
    x: int,
    y: int,
    channel: int,
)
    requires
        call_ensures(ReadbackLayout::padded_bytes_per_row, (layout,), padded),
        0 <= x < layout.size().width,
        0 <= y < layout.size().height,
        0 <= channel < 4,
    ensures
        forall|
            future: &mut ReadbackMapFuture<I, S, W>,
            out: (Result<ImageBuffer, Error>, ReleasedStaging<S>),
        | #[trigger]
            call_ensures(ReadbackMapFuture::<I, S, W>::finish, (future, mapped), out)
                && (*future).wf() && (*future).phase() is Mapped && (*future).size()
                == layout.size() ==> {
                &&& out.0 matches Ok(image) ==> {
                    &&& image.spec_size().width == layout.size().width
                    &&& image.spec_size().height == layout.size().height
                    &&& image.spec_rgba()[4 * (y * layout.size().width + x) + channel] == mapped@[y
                        * padded + 4 * x + channel]
                    &&& (*final(future)).phase() is PublishedBytes
                }
                &&& out.0 is Err ==> (*final(future)).phase() is Failed
                &&& out.1 is UnmapThenDrop
                &&& (*future).staging() == Some(out.1->UnmapThenDrop_0)
            },
{
    law_decoded_rows_are_the_pixels(layout.size(), mapped@, x, y, channel);
}

/// Abandoning an open request cancels it and gives up its staging buffer, to be unmapped first if it may
/// be mapped; a finished request stays as it ended.
pub proof fn law_abandoned_requests_are_canceled<I, S, W>()
    ensures
        forall|future: &mut ReadbackMapFuture<I, S, W>, cleanup: ReleasedStaging<S>| #[trigger]
            call_ensures(ReadbackMapFuture::<I, S, W>::abandon, (future,), cleanup)
                && (*future).wf() ==> {
                &&& (*future).phase().uncertain() ==> (*final(future)).phase() is Canceled
                &&& !(*future).phase().uncertain() ==> (*final(future)).phase() == (*future).phase()
                    && cleanup is Nothing
                &&& gives_up((*future).staging(), (*future).disposition(), cleanup)
                &&& (*final(future)).staging() is None
            },
{
}

/// A blocking wait that failed is reported as it failed: the wait, the dropped callback or the map.
pub proof fn law_blocking_failures_are_reported(
    outcome: BlockingMapOutcome,
    layout: &ReadbackLayout,
    mapped: &[u8],
    result: Result<Vec<u8>, Error>,
)
    requires
        call_ensures(map_and_decode, (outcome, layout, mapped), result),
    ensures
        outcome is WaitFailed ==> result == Err::<Vec<u8>, Error>(
            Error::Readback(ReadbackFailure::WaitFailed),
        ),
        outcome is CallbackDropped ==> result == Err::<Vec<u8>, Error>(
            Error::Readback(ReadbackFailure::CallbackDropped),
        ),
        outcome is MapFailed ==> result == Err::<Vec<u8>, Error>(
            Error::Readback(ReadbackFailure::MapFailed),
        ),
        result is Ok ==> outcome is Mapped,
{
}

/// A request whose helper could not be started fails with that error and gives up its staging buffer;
/// the answer to a map request changes the map state alone, by whether it succeeded; and a polling slice
/// keeps the request, going on exactly while a result is awaited.
pub proof fn law_requests_end_by_what_happened<I, S, W>(
    succeeded: bool,
    outcome: NativePollOutcome,
)
    ensures
        forall|request: &mut ReadbackMapFuture<I, S, W>, out: (Error, ReleasedStaging<S>)| #[trigger]
            call_ensures(ReadbackMapFuture::<I, S, W>::helper_not_started, (request,), out) ==> {
                &&& out.0 == Error::Readback(ReadbackFailure::HelperNotStarted)
                &&& (*final(request)).staging() is None
                &&& (*final(request)).disposition() is Released
                &&& (*request).status() is Pending ==> (*final(request)).status() is Canceled
                &&& (*request).phase() is MapPending ==> (*final(request)).phase() is Failed
            },
        forall|request: &mut ReadbackMapFuture<I, S, W>, waker: Option<W>| #[trigger]
            call_ensures(ReadbackMapFuture::<I, S, W>::map_callback, (request, succeeded), waker)
                ==> {
                &&& (*final(request)).staging() == (*request).staging()
                &&& (*final(request)).phase() == (*request).phase()
                &&& (*request).disposition() is Released ==> (*final(request)).disposition()
                    is Released
                &&& (*request).disposition() is MapPending ==> {
                    &&& succeeded ==> (*final(request)).disposition() is MappedActive
                    &&& !succeeded ==> (*final(request)).disposition() is Idle
                }
                &&& (*request).status() is Pending ==> {
                    &&& waker == (*request).status()->waker
                    &&& succeeded ==> (*final(request)).status() == ReadbackCompletionStatus::<
                        W,
                    >::Ready(ReadbackCompletionResult::Mapped)
                    &&& !succeeded ==> (*final(request)).status() == ReadbackCompletionStatus::<
                        W,
                    >::Ready(ReadbackCompletionResult::MapFailed)
                }
                &&& !((*request).status() is Pending) ==> waker is None
                    && (*final(request)).status() == (*request).status()
            },
        forall|request: &mut ReadbackMapFuture<I, S, W>, out: (NativePollAction, Option<W>)|
         #[trigger]
            call_ensures(ReadbackMapFuture::<I, S, W>::poll_slice, (request, outcome), out) ==> {
                &&& (*final(request)).staging() == (*request).staging()
                &&& (*final(request)).disposition() == (*request).disposition()
                &&& out.0 is Continue <==> (*request).status() is Pending && !(
                outcome is WrongSubmissionIndex)
                &&& outcome matches NativePollOutcome::WrongSubmissionIndex {
                    requested,
                    successful,
                } ==> ((*request).status() is Pending ==> (*final(request)).status()
                    == ReadbackCompletionStatus::<W>::Ready(
                    (ReadbackCompletionResult::PollFailure { requested, successful }),
                ))
                &&& !(outcome is WrongSubmissionIndex) ==> out.1 is None && (*final(request)).status() == (*request).status()
            },
{
}

} // verus!

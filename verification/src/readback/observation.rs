//! Readbacks whose phases, cleanup and results can be watched.

use vstd::prelude::*;

use crate::error::{Error, ReadbackFailure};
use crate::geometry::PhysicalSize;
use crate::image::ImageBuffer;
use crate::readback::completion::{
    answered, completion_failure, completion_result, handle_native_poll_result,
    map_completion_callback, map_result, status_after, CompletionEvent, NativePollAction,
    NativePollOutcome, ReadbackCompletion, ReadbackCompletionResult, ReadbackCompletionStatus,
};
use crate::readback::layout::{
    decode_padded_rows, decoded_rows, first_row_failure, law_decoded_rows_are_the_pixels,
    layout_failure, ReadbackLayout,
};
use crate::readback::lifecycle::{
    cleanup_action, phase_after, ReadbackEvent, ReadbackLifecycle, ReadbackPhase,
    ReadbackStagingCleanupAction, ReadbackStagingDisposition, ReadbackStagingMapState,
};

verus! {

/// How a readback ended.
#[derive(Clone, Copy, Debug, PartialEq, Eq, Structural)]
pub enum ReadbackTerminal {
    PublishedBytes,
    Failed,
    Canceled,
}

/// One observable step of giving a readback up or publishing it.
#[derive(Clone, Copy, Debug, PartialEq, Eq, Structural)]
pub enum ReadbackCleanupEvent {
    MappedViewDropped,
    StagingUnmapped,
    StagingDropped,
    PublishedBytes,
}

pub open spec fn terminal_of(phase: ReadbackPhase<u64>) -> Option<ReadbackTerminal> {
    match phase {
        ReadbackPhase::PublishedBytes => Some(ReadbackTerminal::PublishedBytes),
        ReadbackPhase::Failed => Some(ReadbackTerminal::Failed),
        ReadbackPhase::Canceled => Some(ReadbackTerminal::Canceled),
        _ => None,
    }
}

/// The events of releasing a staging buffer.
pub open spec fn release_events(disposition: ReadbackStagingDisposition) -> Seq<ReadbackCleanupEvent> {
    match cleanup_action(disposition) {
        ReadbackStagingCleanupAction::Drop => seq![ReadbackCleanupEvent::StagingDropped],
        ReadbackStagingCleanupAction::UnmapThenDrop => seq![
            ReadbackCleanupEvent::StagingUnmapped,
            ReadbackCleanupEvent::StagingDropped,
        ],
        ReadbackStagingCleanupAction::Nothing => Seq::empty(),
    }
}

/// A readback that records its cleanup.
pub struct ObservedReadback {
    pub lifecycle: ReadbackLifecycle<u64>,
    pub staging_map: ReadbackStagingMapState,
    pub terminal: Option<ReadbackTerminal>,
    pub cleanup: Vec<ReadbackCleanupEvent>,
}

impl ObservedReadback {
    pub open spec fn phase(&self) -> ReadbackPhase<u64> {
        self.lifecycle.phase
    }

    pub open spec fn disposition(&self) -> ReadbackStagingDisposition {
        self.staging_map.disposition
    }

    /// An open readback has cleaned nothing up. A published one dropped the mapped view, then
    /// unmapped, then dropped its staging buffer, and only then published.
    pub open spec fn wf(&self) -> bool {
        &&& self.terminal == terminal_of(self.phase())
        &&& match self.phase() {
            ReadbackPhase::Allocated | ReadbackPhase::CopySubmitted { .. } => self.disposition()
                == ReadbackStagingDisposition::Idle && self.cleanup@.len() == 0,
            ReadbackPhase::MapPending => self.disposition() != ReadbackStagingDisposition::Released
                && self.cleanup@.len() == 0,
            ReadbackPhase::Mapped => self.disposition() == ReadbackStagingDisposition::MappedActive
                && self.cleanup@.len() == 0,
            ReadbackPhase::PublishedBytes => {
                &&& self.disposition() == ReadbackStagingDisposition::Released
                &&& self.cleanup@ == seq![
                    ReadbackCleanupEvent::MappedViewDropped,
                    ReadbackCleanupEvent::StagingUnmapped,
                    ReadbackCleanupEvent::StagingDropped,
                    ReadbackCleanupEvent::PublishedBytes,
                ]
            },
            ReadbackPhase::Failed | ReadbackPhase::Canceled => {
                &&& self.disposition() == ReadbackStagingDisposition::Released
                &&& self.cleanup@.len() > 0
                &&& self.cleanup@.last() == ReadbackCleanupEvent::StagingDropped
            },
        }
    }

    pub fn allocated() -> (readback: Self)
        ensures
            readback.wf(),
            readback.phase() is Allocated,
    {
        Self {
            lifecycle: ReadbackLifecycle::allocated(),
            staging_map: ReadbackStagingMapState::idle(),
            terminal: None,
            cleanup: Vec::new(),
        }
    }

    pub fn copy_submitted(&mut self, submission_index: u64)
        requires
            old(self).wf(),
            old(self).phase() is Allocated,
        ensures
            final(self).wf(),
            final(self).phase() == (ReadbackPhase::CopySubmitted { submission_index }),
    {
        self.lifecycle.copy_submitted(submission_index);
    }

    pub fn map_pending(&mut self)
        requires
            old(self).wf(),
            old(self).phase() is CopySubmitted,
        ensures
            final(self).wf(),
            final(self).phase() is MapPending,
            final(self).disposition() == ReadbackStagingDisposition::MapPending,
    {
        self.lifecycle.map_pending();
        self.staging_map.map_pending();
    }

    /// Delivers the answer to the map request, which changes nothing after release.
    pub fn map_callback(&mut self, succeeded: bool)
        requires
            old(self).wf(),
            old(self).disposition() == ReadbackStagingDisposition::MapPending || old(
                self,
            ).disposition() == ReadbackStagingDisposition::Released,
        ensures
            final(self).wf(),
            final(self).phase() == old(self).phase(),
            final(self).cleanup@ == old(self).cleanup@,
            final(self).disposition() == (if old(self).disposition()
                == ReadbackStagingDisposition::Released {
                ReadbackStagingDisposition::Released
            } else if succeeded {
                ReadbackStagingDisposition::MappedActive
            } else {
                ReadbackStagingDisposition::Idle
            }),
    {
        self.staging_map.map_callback_completed(succeeded);
    }

    pub fn mapped(&mut self)
        requires
            old(self).wf(),
            old(self).phase() is MapPending,
            old(self).disposition() == ReadbackStagingDisposition::MappedActive,
        ensures
            final(self).wf(),
            final(self).phase() is Mapped,
    {
        self.lifecycle.mapped();
    }

    /// Ends an open readback as failed and records its cleanup.
    pub fn fail(&mut self)
        requires
            old(self).wf(),
        ensures
            final(self).wf(),
            Some(final(self).phase()) == phase_after(old(self).phase(), ReadbackEvent::Fail),
            final(self).cleanup@ == old(self).cleanup@ + release_events(old(self).disposition()),
    {
        if self.lifecycle.fail() {
            self.terminal = Some(ReadbackTerminal::Failed);
            self.release_staging();
        }
    }

    /// Ends an open readback as canceled and records its cleanup.
    pub fn cancel(&mut self)
        requires
            old(self).wf(),
        ensures
            final(self).wf(),
            Some(final(self).phase()) == phase_after(old(self).phase(), ReadbackEvent::Cancel),
            final(self).cleanup@ == old(self).cleanup@ + release_events(old(self).disposition()),
    {
        if self.lifecycle.cancel() {
            self.terminal = Some(ReadbackTerminal::Canceled);
            self.release_staging();
        }
    }

    /// Decodes the mapped bytes of a texture of `size` and publishes them. A size without layout
    /// is refused and leaves the readback mapped.
    pub fn finish_mapped(&mut self, size: PhysicalSize, mapped: &[u8]) -> (result: Result<
        ImageBuffer,
        Error,
    >)
        requires
            old(self).wf(),
            old(self).phase() is Mapped,
        ensures
            final(self).wf(),
            match layout_failure(size) {
                Some(failure) => {
                    &&& result == Err::<ImageBuffer, Error>(Error::Readback(failure))
                    &&& *final(self) == *old(self)
                },
                None => match first_row_failure(size, 0, mapped@.len() as int) {
                    Some(failure) => {
                        &&& result == Err::<ImageBuffer, Error>(Error::Readback(failure))
                        &&& final(self).phase() is Failed
                        &&& final(self).cleanup@ == seq![
                            ReadbackCleanupEvent::MappedViewDropped,
                            ReadbackCleanupEvent::StagingUnmapped,
                            ReadbackCleanupEvent::StagingDropped,
                        ]
                    },
                    None => {
                        &&& result matches Ok(image) && image.spec_size() == size
                            && image.spec_rgba() == decoded_rows(size, mapped@)
                        &&& final(self).phase() is PublishedBytes
                    },
                },
            },
    {
        let layout = match ReadbackLayout::try_new(size) {
            Ok(layout) => layout,
            Err(error) => {
                return Err(error);
            },
        };
        let decoded = decode_padded_rows(&layout, mapped);
        self.cleanup.push(ReadbackCleanupEvent::MappedViewDropped);
        let rgba = match decoded {
            Ok(rgba) => rgba,
            Err(error) => {
                let failed = self.lifecycle.fail();
                assert(failed);
                self.terminal = Some(ReadbackTerminal::Failed);
                self.release_staging();
                return Err(error);
            },
        };
        self.release_staging();
        proof {
            size.lemma_area_bounds();
        }
        match ImageBuffer::try_new(size, rgba) {
            Ok(image) => {
                self.lifecycle.published();
                self.terminal = Some(ReadbackTerminal::PublishedBytes);
                self.cleanup.push(ReadbackCleanupEvent::PublishedBytes);
                assert(self.cleanup@ =~= seq![
                    ReadbackCleanupEvent::MappedViewDropped,
                    ReadbackCleanupEvent::StagingUnmapped,
                    ReadbackCleanupEvent::StagingDropped,
                    ReadbackCleanupEvent::PublishedBytes,
                ]);
                Ok(image)
            },
            Err(_) => Err(Error::Readback(ReadbackFailure::ImageInvalid)),
        }
    }

    fn release_staging(&mut self)
        ensures
            final(self).lifecycle == old(self).lifecycle,
            final(self).terminal == old(self).terminal,
            final(self).disposition() == ReadbackStagingDisposition::Released,
            final(self).cleanup@ == old(self).cleanup@ + release_events(old(self).disposition()),
    {
        match self.staging_map.take_cleanup_action() {
            ReadbackStagingCleanupAction::Drop => {
                self.cleanup.push(ReadbackCleanupEvent::StagingDropped);
            },
            ReadbackStagingCleanupAction::UnmapThenDrop => {
                self.cleanup.push(ReadbackCleanupEvent::StagingUnmapped);
                self.cleanup.push(ReadbackCleanupEvent::StagingDropped);
            },
            ReadbackStagingCleanupAction::Nothing => {},
        }
    }
}

/// A completion cell that counts what it accepted and what it discarded.
pub struct ObservedCompletion<W> {
    pub completion: ReadbackCompletion<W>,
    pub staging_map: ReadbackStagingMapState,
    pub accepted: usize,
    pub discarded: usize,
}

impl<W> ObservedCompletion<W> {
    /// A cell that still waits has accepted nothing; no cell accepts twice.
    pub open spec fn wf(&self) -> bool {
        &&& self.accepted <= 1
        &&& self.completion.status is Pending ==> self.accepted == 0
    }

    /// The counts after a result met `status`.
    pub open spec fn counted(&self, status: ReadbackCompletionStatus<W>) -> (usize, usize) {
        if status is Pending {
            ((self.accepted + 1) as usize, self.discarded)
        } else if self.discarded == usize::MAX {
            (self.accepted, self.discarded)
        } else {
            (self.accepted, (self.discarded + 1) as usize)
        }
    }

    pub fn new() -> (observed: Self)
        ensures
            observed.wf(),
            observed.completion.status is Pending,
            observed.staging_map.disposition == ReadbackStagingDisposition::MapPending,
            observed.accepted == 0,
            observed.discarded == 0,
    {
        let mut staging_map = ReadbackStagingMapState::idle();
        staging_map.map_pending();
        Self { completion: ReadbackCompletion::new(), staging_map, accepted: 0, discarded: 0 }
    }

    pub fn poll(&mut self, waker: W) -> (result: Option<Result<(), Error>>)
        requires
            old(self).wf(),
            old(self).completion.status is Pending || old(self).completion.status is Ready,
        ensures
            final(self).wf(),
            final(self).completion.status == status_after(
                old(self).completion.status,
                CompletionEvent::Poll(waker),
            ),
            final(self).accepted == old(self).accepted,
            final(self).discarded == old(self).discarded,
            final(self).staging_map == old(self).staging_map,
            result == match old(self).completion.status {
                ReadbackCompletionStatus::Ready(ready) => Some(
                    match completion_failure(ready) {
                        None => Ok(()),
                        Some(failure) => Err(Error::Readback(failure)),
                    },
                ),
                _ => None,
            },
    {
        match self.completion.poll(waker) {
            None => None,
            Some(ready) => Some(completion_result(ready)),
        }
    }

    /// Runs the map callback.
    pub fn invoke_map_callback(&mut self, succeeded: bool) -> (waker: Option<W>)
        requires
            old(self).wf(),
            old(self).staging_map.disposition == ReadbackStagingDisposition::MapPending || old(
                self,
            ).staging_map.disposition == ReadbackStagingDisposition::Released,
        ensures
            final(self).wf(),
            final(self).completion.status == status_after(
                old(self).completion.status,
                CompletionEvent::Complete(map_result(succeeded)),
            ),
            (final(self).accepted, final(self).discarded) == old(self).counted(
                old(self).completion.status,
            ),
            final(self).staging_map.disposition == answered(
                old(self).staging_map.disposition,
                succeeded,
            ),
            waker == match old(self).completion.status {
                ReadbackCompletionStatus::Pending { waker } => waker,
                _ => None,
            },
    {
        let accepted = self.completion.is_pending();
        let waker = map_completion_callback(&mut self.completion, &mut self.staging_map, succeeded);
        self.record_result(accepted);
        waker
    }

    /// Delivers a map result that the callback did not carry.
    pub fn deliver_late_map_result(&mut self, succeeded: bool) -> (waker: Option<W>)
        requires
            old(self).wf(),
        ensures
            final(self).wf(),
            final(self).completion.status == status_after(
                old(self).completion.status,
                CompletionEvent::Complete(map_result(succeeded)),
            ),
            (final(self).accepted, final(self).discarded) == old(self).counted(
                old(self).completion.status,
            ),
            final(self).staging_map == old(self).staging_map,
            waker == match old(self).completion.status {
                ReadbackCompletionStatus::Pending { waker } => waker,
                _ => None,
            },
    {
        let accepted = self.completion.is_pending();
        let result = if succeeded {
            ReadbackCompletionResult::Mapped
        } else {
            ReadbackCompletionResult::MapFailed
        };
        let waker = self.completion.complete(result);
        self.record_result(accepted);
        waker
    }

    pub fn cancel(&mut self)
        requires
            old(self).wf(),
        ensures
            final(self).wf(),
            final(self).completion.status == status_after(
                old(self).completion.status,
                CompletionEvent::<W>::Cancel,
            ),
            final(self).accepted == old(self).accepted,
            final(self).discarded == old(self).discarded,
            final(self).staging_map == old(self).staging_map,
    {
        self.completion.cancel();
    }

    /// Runs one polling slice that timed out and says whether the helper goes on.
    pub fn timeout_slice(&mut self) -> (goes_on: bool)
        ensures
            *final(self) == *old(self),
            goes_on == old(self).completion.status is Pending,
    {
        let (action, _) = handle_native_poll_result(&mut self.completion, NativePollOutcome::TimedOut);
        action == NativePollAction::Continue
    }

    /// Runs one polling slice that met an unknown submission.
    pub fn wrong_submission_index(&mut self, requested: u64, successful: u64) -> (waker: Option<W>)
        requires
            old(self).wf(),
        ensures
            final(self).wf(),
            final(self).completion.status == status_after(
                old(self).completion.status,
                CompletionEvent::Complete(
                    (ReadbackCompletionResult::PollFailure { requested, successful }),
                ),
            ),
            (final(self).accepted, final(self).discarded) == old(self).counted(
                old(self).completion.status,
            ),
            final(self).staging_map == old(self).staging_map,
            waker == match old(self).completion.status {
                ReadbackCompletionStatus::Pending { waker } => waker,
                _ => None,
            },
    {
        let accepted = self.completion.is_pending();
        let (_, waker) = handle_native_poll_result(
            &mut self.completion,
            NativePollOutcome::WrongSubmissionIndex { requested, successful },
        );
        self.record_result(accepted);
        waker
    }

    fn record_result(&mut self, accepted: bool)
        requires
            accepted ==> old(self).accepted == 0,
        ensures
            final(self).completion == old(self).completion,
            final(self).staging_map == old(self).staging_map,
            accepted ==> final(self).accepted == old(self).accepted + 1 && final(self).discarded
                == old(self).discarded,
            !accepted ==> final(self).accepted == old(self).accepted && final(self).discarded == (
            if old(self).discarded == usize::MAX {
                usize::MAX as int
            } else {
                old(self).discarded + 1
            }),
    {
        if accepted {
            self.accepted = self.accepted.saturating_add(1);
        } else {
            self.discarded = self.discarded.saturating_add(1);
        }
    }
}

/// The phases that an instrumented readback reports.
#[derive(Clone, Copy, Debug, PartialEq, Eq, Structural)]
pub enum NativeReadbackPhase {
    Allocated,
    CopySubmitted,
    MapPending,
    Mapped,
    PublishedBytes,
    Failed,
    Canceled,
}

/// What is seen of the staging state of an instrumented readback.
#[derive(Clone, Copy, Debug, PartialEq, Eq, Structural)]
pub enum WatchedStaging {
    /// No readback is attached yet.
    Unattached,
    Held { disposition: ReadbackStagingDisposition },
    Dropped,
}

/// What the helper of an instrumented readback does next.
#[derive(Clone, Copy, Debug, PartialEq, Eq, Structural)]
pub enum HelperStep {
    /// It polls the device until the readback completes.
    Poll,
    WaitForCancellation,
    /// It ends without polling.
    Exit,
}

/// Everything that one instrumented readback reported so far. `I` identifies a submission.
pub struct NativeReadbackObservation<I> {
    /// Whether the helper is held back until the readback is canceled.
    pub holds_helper: bool,
    pub phase_history: Vec<NativeReadbackPhase>,
    pub submission_index: Option<I>,
    pub staging: WatchedStaging,
    pub helper_started: usize,
    pub helper_exited: usize,
    pub callback_invoked: usize,
    pub callback_released: usize,
    pub callback_succeeded: Option<bool>,
    pub accepted_results: usize,
    pub discarded_results: usize,
}

/// One more, up to the largest count.
pub open spec fn counted_up(count: usize) -> usize {
    if count == usize::MAX {
        count
    } else {
        (count + 1) as usize
    }
}

impl<I> NativeReadbackObservation<I> {
    pub fn new(holds_helper: bool) -> (observation: Self)
        ensures
            observation.holds_helper == holds_helper,
            observation.phase_history@.len() == 0,
            observation.submission_index is None,
            observation.staging == WatchedStaging::Unattached,
            observation.helper_started == 0,
            observation.helper_exited == 0,
            observation.callback_invoked == 0,
            observation.callback_released == 0,
            observation.callback_succeeded is None,
            observation.accepted_results == 0,
            observation.discarded_results == 0,
    {
        Self {
            holds_helper,
            phase_history: Vec::new(),
            submission_index: None,
            staging: WatchedStaging::Unattached,
            helper_started: 0,
            helper_exited: 0,
            callback_invoked: 0,
            callback_released: 0,
            callback_succeeded: None,
            accepted_results: 0,
            discarded_results: 0,
        }
    }

    /// The phase reported last.
    pub open spec fn spec_phase(&self) -> Option<NativeReadbackPhase> {
        if self.phase_history@.len() == 0 {
            None
        } else {
            Some(self.phase_history@.last())
        }
    }

    pub fn phase(&self) -> (phase: Option<NativeReadbackPhase>)
        ensures
            phase == self.spec_phase(),
    {
        let count: usize = self.phase_history.len();
        if count == 0 {
            None
        } else {
            Some(self.phase_history[count - 1])
        }
    }

    /// What the helper does next: a held one polls nothing, and ends once the readback is canceled.
    pub fn helper_step(&self) -> (step: HelperStep)
        ensures
            step == (if !self.holds_helper {
                HelperStep::Poll
            } else if self.spec_phase() == Some(NativeReadbackPhase::Canceled) {
                HelperStep::Exit
            } else {
                HelperStep::WaitForCancellation
            }),
    {
        if !self.holds_helper {
            HelperStep::Poll
        } else if self.phase_is(NativeReadbackPhase::Canceled) {
            HelperStep::Exit
        } else {
            HelperStep::WaitForCancellation
        }
    }

    /// Attaches the observation to the one readback that it watches.
    pub fn attach_staging(&mut self, disposition: ReadbackStagingDisposition)
        requires
            old(self).spec_phase() is None,
        ensures
            *final(self) == (Self {
                phase_history: final(self).phase_history,
                staging: WatchedStaging::Held { disposition },
                ..*old(self)
            }),
            final(self).phase_history@ == seq![NativeReadbackPhase::Allocated],
    {
        self.staging = WatchedStaging::Held { disposition };
        self.record_phase(NativeReadbackPhase::Allocated);
    }

    /// Takes in what became of the staging state: its disposition, or that it was dropped.
    pub fn watch_staging(&mut self, disposition: Option<ReadbackStagingDisposition>)
        requires
            old(self).staging !is Unattached,
        ensures
            *final(self) == (Self {
                staging: match disposition {
                    Some(disposition) => WatchedStaging::Held { disposition },
                    None => WatchedStaging::Dropped,
                },
                ..*old(self)
            }),
    {
        self.staging =
        match disposition {
            Some(disposition) => WatchedStaging::Held { disposition },
            None => WatchedStaging::Dropped,
        };
    }

    /// The disposition of the staging state, while that is held.
    pub fn staging_disposition(&self) -> (disposition: Option<ReadbackStagingDisposition>)
        ensures
            disposition == match self.staging {
                WatchedStaging::Held { disposition } => Some(disposition),
                _ => None,
            },
    {
        match self.staging {
            WatchedStaging::Held { disposition } => Some(disposition),
            _ => None,
        }
    }

    /// Whether the staging state was attached and is dropped.
    pub fn staging_state_dropped(&self) -> (dropped: bool)
        ensures
            dropped == (self.staging is Dropped),
    {
        match self.staging {
            WatchedStaging::Dropped => true,
            _ => false,
        }
    }

    /// Records the submission of the copy.
    pub fn record_copy_submitted(&mut self, submission_index: I)
        ensures
            *final(self) == (Self {
                phase_history: final(self).phase_history,
                submission_index: Some(submission_index),
                ..*old(self)
            }),
            final(self).phase_history@ == old(self).phase_history@.push(
                NativeReadbackPhase::CopySubmitted,
            ),
    {
        self.submission_index = Some(submission_index);
        self.record_phase(NativeReadbackPhase::CopySubmitted);
    }

    pub fn record_phase(&mut self, phase: NativeReadbackPhase)
        ensures
            *final(self) == (Self { phase_history: final(self).phase_history, ..*old(self) }),
            final(self).phase_history@ == old(self).phase_history@.push(phase),
    {
        self.phase_history.push(phase);
    }

    pub fn record_helper_started(&mut self)
        ensures
            *final(self) == (Self {
                helper_started: counted_up(old(self).helper_started),
                ..*old(self)
            }),
    {
        self.helper_started = self.helper_started.saturating_add(1);
    }

    pub fn record_helper_exited(&mut self)
        ensures
            *final(self) == (Self {
                helper_exited: counted_up(old(self).helper_exited),
                ..*old(self)
            }),
    {
        self.helper_exited = self.helper_exited.saturating_add(1);
    }

    pub fn record_callback_invoked(&mut self, succeeded: bool)
        ensures
            *final(self) == (Self {
                callback_invoked: counted_up(old(self).callback_invoked),
                callback_succeeded: Some(succeeded),
                ..*old(self)
            }),
    {
        self.callback_invoked = self.callback_invoked.saturating_add(1);
        self.callback_succeeded = Some(succeeded);
    }

    pub fn record_callback_released(&mut self)
        ensures
            *final(self) == (Self {
                callback_released: counted_up(old(self).callback_released),
                ..*old(self)
            }),
    {
        self.callback_released = self.callback_released.saturating_add(1);
    }

    pub fn record_completion_result(&mut self, accepted: bool)
        ensures
            *final(self) == (if accepted {
                (Self { accepted_results: counted_up(old(self).accepted_results), ..*old(self) })
            } else {
                (Self { discarded_results: counted_up(old(self).discarded_results), ..*old(self) })
            }),
    {
        if accepted {
            self.accepted_results = self.accepted_results.saturating_add(1);
        } else {
            self.discarded_results = self.discarded_results.saturating_add(1);
        }
    }

    /// Whether a published readback has wound down: its helper and callback are gone, one result
    /// was accepted and the staging state is dropped.
    pub fn published_cleanup_is_complete(&self) -> (complete: bool)
        ensures
            complete == {
                &&& self.spec_phase() == Some(NativeReadbackPhase::PublishedBytes)
                &&& self.helper_started == 1
                &&& self.helper_exited == 1
                &&& self.callback_invoked == 1
                &&& self.callback_released == 1
                &&& self.accepted_results == 1
                &&& self.staging is Dropped
            },
    {
        self.phase_is(NativeReadbackPhase::PublishedBytes) && self.helper_started == 1
            && self.helper_exited == 1 && self.callback_invoked == 1 && self.callback_released == 1
            && self.accepted_results == 1 && self.staging_state_dropped()
    }

    /// Whether the helper of a canceled readback is gone.
    pub fn canceled_helper_cleanup_is_complete(&self) -> (complete: bool)
        ensures
            complete == {
                &&& self.spec_phase() == Some(NativeReadbackPhase::Canceled)
                &&& self.helper_started == 1
                &&& self.helper_exited == 1
            },
    {
        self.phase_is(NativeReadbackPhase::Canceled) && self.helper_started == 1
            && self.helper_exited == 1
    }

    /// Whether the callback of a canceled readback ran late, was discarded and is gone.
    pub fn late_callback_cleanup_is_complete(&self) -> (complete: bool)
        ensures
            complete == {
                &&& self.spec_phase() == Some(NativeReadbackPhase::Canceled)
                &&& self.callback_invoked == 1
                &&& self.callback_released == 1
                &&& self.accepted_results == 0
                &&& self.discarded_results == 1
                &&& self.staging is Dropped
            },
    {
        self.phase_is(NativeReadbackPhase::Canceled) && self.callback_invoked == 1
            && self.callback_released == 1 && self.accepted_results == 0
            && self.discarded_results == 1 && self.staging_state_dropped()
    }

    fn phase_is(&self, phase: NativeReadbackPhase) -> (equal: bool)
        ensures
            equal == (self.spec_phase() == Some(phase)),
    {
        match self.phase() {
            Some(last) => last == phase,
            None => false,
        }
    }
}

/// A readback that fails or is canceled records what was done with its staging buffer: dropped if it was
/// idle, unmapped and then dropped if it may have been mapped, and nothing if it was released before.
pub proof fn law_given_up_readbacks_record_their_cleanup()
    ensures
        forall|readback: &mut ObservedReadback| #[trigger]
            call_ensures(ObservedReadback::fail, (readback,), ()) && (*readback).wf() ==> {
                &&& records_release((*readback), (*final(readback)))
                &&& (*readback).terminal is None ==> (*final(readback)).terminal == Some(
                    ReadbackTerminal::Failed,
                )
                &&& (*readback).terminal is Some ==> (*final(readback)).terminal
                    == (*readback).terminal
            },
        forall|readback: &mut ObservedReadback| #[trigger]
            call_ensures(ObservedReadback::cancel, (readback,), ()) && (*readback).wf() ==> {
                &&& records_release((*readback), (*final(readback)))
                &&& (*readback).terminal is None ==> (*final(readback)).terminal == Some(
                    ReadbackTerminal::Canceled,
                )
                &&& (*readback).terminal is Some ==> (*final(readback)).terminal
                    == (*readback).terminal
            },
{
    let unmapped = ReadbackCleanupEvent::StagingUnmapped;
    let dropped = ReadbackCleanupEvent::StagingDropped;
    assert forall|events: Seq<ReadbackCleanupEvent>, disposition: ReadbackStagingDisposition|
        true implies #[trigger] (events + release_events(disposition)) == match disposition {
        ReadbackStagingDisposition::Idle => events.push(dropped),
        ReadbackStagingDisposition::Released => events,
        _ => events.push(unmapped).push(dropped),
    } by {
        let after = events + release_events(disposition);
        match disposition {
            ReadbackStagingDisposition::Idle => assert(after =~= events.push(dropped)),
            ReadbackStagingDisposition::Released => assert(after =~= events),
            _ => assert(after =~= events.push(unmapped).push(dropped)),
        }
    }
}

/// Whether the cleanup of a readback grew by what its staging buffer called for.
pub open spec fn records_release(before: ObservedReadback, after: ObservedReadback) -> bool {
    let dropped = ReadbackCleanupEvent::StagingDropped;
    match before.staging_map.disposition {
        ReadbackStagingDisposition::Idle => after.cleanup@ == before.cleanup@.push(dropped),
        ReadbackStagingDisposition::MapPending | ReadbackStagingDisposition::MappedActive => {
            after.cleanup@ == before.cleanup@.push(ReadbackCleanupEvent::StagingUnmapped).push(
                dropped,
            )
        },
        ReadbackStagingDisposition::Released => after.cleanup@ == before.cleanup@,
    }
}

/// A published readback published last of all: after the mapped view was dropped and the staging buffer
/// unmapped and dropped.
pub proof fn law_publication_comes_after_cleanup(readback: &ObservedReadback)
    requires
        readback.wf(),
    ensures
        readback.terminal == Some(ReadbackTerminal::PublishedBytes) ==> {
            &&& readback.cleanup@.len() == 4
            &&& readback.cleanup@[0] is MappedViewDropped
            &&& readback.cleanup@[1] is StagingUnmapped
            &&& readback.cleanup@[2] is StagingDropped
            &&& readback.cleanup@[3] is PublishedBytes
        },
        readback.cleanup@.contains(ReadbackCleanupEvent::PublishedBytes) && readback.terminal
            is None ==> false,
        readback.terminal is None <==> !(readback.phase() is PublishedBytes || readback.phase()
            is Failed || readback.phase() is Canceled),
{
}

/// The counts of a cell: a result that a waiting cell took is accepted, any other is discarded, and
/// reading or canceling counts nothing.
pub proof fn law_observed_results_are_counted<W>(succeeded: bool, waker: W)
    ensures
        forall|cell: &mut ObservedCompletion<W>, woken: Option<W>| #[trigger]
            call_ensures(
                ObservedCompletion::<W>::deliver_late_map_result,
                (cell, succeeded),
                woken,
            ) && (*cell).wf() ==> {
                &&& (*cell).completion.status is Pending ==> (*final(cell)).accepted
                    == (*cell).accepted + 1 && (*final(cell)).discarded == (*cell).discarded
                &&& !((*cell).completion.status is Pending) && (*cell).discarded < usize::MAX
                    ==> (*final(cell)).accepted == (*cell).accepted && (*final(cell)).discarded
                    == (*cell).discarded + 1
            },
        forall|cell: &mut ObservedCompletion<W>, result: Option<Result<(), Error>>| #[trigger]
            call_ensures(ObservedCompletion::<W>::poll, (cell, waker), result) ==> {
                &&& (*final(cell)).accepted == (*cell).accepted
                &&& (*final(cell)).discarded == (*cell).discarded
            },
        forall|cell: &mut ObservedCompletion<W>, goes_on: bool| #[trigger]
            call_ensures(ObservedCompletion::<W>::timeout_slice, (cell,), goes_on) ==> (goes_on
                <==> (*cell).completion.status is Pending),
{
}

/// The helper of a readback that is not held polls; one that is held waits until the readback was
/// canceled, and then ends without polling.
pub proof fn law_held_helpers_wait_for_cancellation<I>(
    observation: &NativeReadbackObservation<I>,
    step: HelperStep,
)
    requires
        call_ensures(NativeReadbackObservation::<I>::helper_step, (observation,), step),
    ensures
        step is Poll <==> !observation.holds_helper,
        step is Exit <==> observation.holds_helper && observation.phase_history@.len() > 0
            && observation.phase_history@.last() is Canceled,
{
}

/// What is recorded is counted under its own name and once; phases are kept in the order in which they
/// came.
pub proof fn law_records_are_kept_apart<I>(phase: NativeReadbackPhase, accepted: bool)
    ensures
        forall|seen: &mut NativeReadbackObservation<I>| #[trigger]
            call_ensures(NativeReadbackObservation::<I>::record_phase, (seen, phase), ()) ==> {
                &&& (*final(seen)).phase_history@ == (*seen).phase_history@.push(phase)
                &&& (*final(seen)).spec_phase() == Some(phase)
                &&& (*final(seen)).helper_started == (*seen).helper_started
            },
        forall|seen: &mut NativeReadbackObservation<I>| #[trigger]
            call_ensures(NativeReadbackObservation::<I>::record_helper_started, (seen,), ())
                && (*seen).helper_started < usize::MAX ==> {
                &&& (*final(seen)).helper_started == (*seen).helper_started + 1
                &&& (*final(seen)).helper_exited == (*seen).helper_exited
                &&& (*final(seen)).callback_invoked == (*seen).callback_invoked
                &&& (*final(seen)).callback_released == (*seen).callback_released
            },
        forall|seen: &mut NativeReadbackObservation<I>| #[trigger]
            call_ensures(NativeReadbackObservation::<I>::record_helper_exited, (seen,), ())
                && (*seen).helper_exited < usize::MAX ==> {
                &&& (*final(seen)).helper_exited == (*seen).helper_exited + 1
                &&& (*final(seen)).helper_started == (*seen).helper_started
                &&& (*final(seen)).callback_invoked == (*seen).callback_invoked
                &&& (*final(seen)).callback_released == (*seen).callback_released
            },
        forall|seen: &mut NativeReadbackObservation<I>| #[trigger]
            call_ensures(
                NativeReadbackObservation::<I>::record_callback_invoked,
                (seen, accepted),
                (),
            ) && (*seen).callback_invoked < usize::MAX ==> {
                &&& (*final(seen)).callback_invoked == (*seen).callback_invoked + 1
                &&& (*final(seen)).callback_succeeded == Some(accepted)
                &&& (*final(seen)).callback_released == (*seen).callback_released
            },
        forall|seen: &mut NativeReadbackObservation<I>| #[trigger]
            call_ensures(NativeReadbackObservation::<I>::record_callback_released, (seen,), ())
                && (*seen).callback_released < usize::MAX ==> {
                &&& (*final(seen)).callback_released == (*seen).callback_released + 1
                &&& (*final(seen)).callback_invoked == (*seen).callback_invoked
            },
        forall|seen: &mut NativeReadbackObservation<I>| #[trigger]
            call_ensures(
                NativeReadbackObservation::<I>::record_completion_result,
                (seen, accepted),
                (),
            ) && (*seen).accepted_results < usize::MAX && (*seen).discarded_results < usize::MAX ==> {
                &&& (*final(seen)).accepted_results == (*seen).accepted_results + (if accepted {
                    1int
                } else {
                    0
                })
                &&& (*final(seen)).discarded_results == (*seen).discarded_results + (if accepted {
                    0int
                } else {
                    1
                })
            },
{
}

/// A readback has wound down after publication exactly if it published last, its helper and its callback
/// came and went once, one result was accepted and the staging state is dropped; after cancellation, if
/// it was canceled last and its helper, or its late and discarded callback, came and went.
pub proof fn law_wound_down_readbacks<I>(
    seen: &NativeReadbackObservation<I>,
    published: bool,
    canceled: bool,
    late: bool,
)
    requires
        call_ensures(
            NativeReadbackObservation::<I>::published_cleanup_is_complete,
            (seen,),
            published,
        ),
        call_ensures(
            NativeReadbackObservation::<I>::canceled_helper_cleanup_is_complete,
            (seen,),
            canceled,
        ),
        call_ensures(
            NativeReadbackObservation::<I>::late_callback_cleanup_is_complete,
            (seen,),
            late,
        ),
    ensures
        published ==> seen.phase_history@.last() is PublishedBytes && seen.helper_started == 1
            && seen.helper_exited == 1 && seen.callback_invoked == 1 && seen.callback_released == 1
            && seen.accepted_results == 1 && seen.staging is Dropped,
        seen.phase_history@.len() > 0 && seen.phase_history@.last() is PublishedBytes
            && seen.helper_started == 1 && seen.helper_exited == 1 && seen.callback_invoked == 1
            && seen.callback_released == 1 && seen.accepted_results == 1 && seen.staging is Dropped
            ==> published,
        canceled ==> seen.phase_history@.last() is Canceled && seen.helper_started == 1
            && seen.helper_exited == 1,
        seen.phase_history@.len() > 0 && seen.phase_history@.last() is Canceled
            && seen.helper_started == 1 && seen.helper_exited == 1 ==> canceled,
        late ==> seen.phase_history@.last() is Canceled && seen.accepted_results == 0
            && seen.discarded_results == 1 && seen.callback_invoked == 1 && seen.callback_released
            == 1 && seen.staging is Dropped,
        published ==> !canceled && !late,
{
}

/// The one answer to a map request, and the one result of a polling slice with an unknown submission,
/// are accepted by a waiting cell and discarded by any other, and are counted so.
pub proof fn law_observed_answers_are_counted<W>(succeeded: bool, requested: u64, successful: u64)
    ensures
        forall|cell: &mut ObservedCompletion<W>, woken: Option<W>| #[trigger]
            call_ensures(ObservedCompletion::<W>::invoke_map_callback, (cell, succeeded), woken)
                && (*cell).wf() ==> {
                &&& (*cell).completion.status is Pending ==> {
                    &&& woken == (*cell).completion.status->waker
                    &&& (*final(cell)).accepted == (*cell).accepted + 1
                    &&& (*final(cell)).discarded == (*cell).discarded
                    &&& succeeded ==> (*final(cell)).completion.status
                        == ReadbackCompletionStatus::<W>::Ready(ReadbackCompletionResult::Mapped)
                    &&& !succeeded ==> (*final(cell)).completion.status
                        == ReadbackCompletionStatus::<W>::Ready(ReadbackCompletionResult::MapFailed)
                }
                &&& !((*cell).completion.status is Pending) && (*cell).discarded < usize::MAX ==> {
                    &&& (*final(cell)).accepted == (*cell).accepted
                    &&& (*final(cell)).discarded == (*cell).discarded + 1
                    &&& (*final(cell)).completion.status == (*cell).completion.status
                }
                &&& (*cell).staging_map.disposition is Released ==> (*final(cell)).staging_map.disposition is Released
                &&& (*cell).staging_map.disposition is MapPending ==> {
                    &&& succeeded ==> (*final(cell)).staging_map.disposition is MappedActive
                    &&& !succeeded ==> (*final(cell)).staging_map.disposition is Idle
                }
            },
        forall|cell: &mut ObservedCompletion<W>, woken: Option<W>| #[trigger]
            call_ensures(
                ObservedCompletion::<W>::wrong_submission_index,
                (cell, requested, successful),
                woken,
            ) && (*cell).wf() ==> {
                &&& (*cell).completion.status is Pending ==> {
                    &&& woken == (*cell).completion.status->waker
                    &&& (*final(cell)).accepted == (*cell).accepted + 1
                    &&& (*final(cell)).discarded == (*cell).discarded
                    &&& (*final(cell)).completion.status == ReadbackCompletionStatus::<W>::Ready(
                        (ReadbackCompletionResult::PollFailure { requested, successful }),
                    )
                }
                &&& !((*cell).completion.status is Pending) && (*cell).discarded < usize::MAX ==> {
                    &&& (*final(cell)).accepted == (*cell).accepted
                    &&& (*final(cell)).discarded == (*cell).discarded + 1
                    &&& (*final(cell)).completion.status == (*cell).completion.status
                }
                &&& (*final(cell)).staging_map == (*cell).staging_map
            },
{
}

/// An observation starts with the allocation of its readback and follows its staging state: held with
/// the disposition that was last seen, or dropped. A submitted copy is recorded with its index.
pub proof fn law_observations_follow_their_staging<I>(
    held: ReadbackStagingDisposition,
    seen: Option<ReadbackStagingDisposition>,
    submission_index: I,
    watched: &NativeReadbackObservation<I>,
    disposition: Option<ReadbackStagingDisposition>,
    dropped: bool,
)
    requires
        call_ensures(
            NativeReadbackObservation::<I>::staging_disposition,
            (watched,),
            disposition,
        ),
        call_ensures(NativeReadbackObservation::<I>::staging_state_dropped, (watched,), dropped),
    ensures
        dropped ==> disposition is None,
        disposition matches Some(disposition) ==> watched.staging == (WatchedStaging::Held {
            disposition,
        }),
        watched.staging is Held ==> disposition is Some,
        dropped <==> watched.staging is Dropped,
        forall|record: &mut NativeReadbackObservation<I>| #[trigger]
            call_ensures(NativeReadbackObservation::<I>::attach_staging, (record, held), ()) ==> {
                &&& (*final(record)).staging == (WatchedStaging::Held { disposition: held })
                &&& (*final(record)).phase_history@.len() == 1
                &&& (*final(record)).phase_history@[0] is Allocated
            },
        forall|record: &mut NativeReadbackObservation<I>| #[trigger]
            call_ensures(NativeReadbackObservation::<I>::watch_staging, (record, seen), ()) ==> {
                &&& seen is None ==> (*final(record)).staging is Dropped
                &&& seen matches Some(disposition) ==> (*final(record)).staging
                    == (WatchedStaging::Held { disposition })
                &&& (*final(record)).phase_history == (*record).phase_history
            },
        forall|record: &mut NativeReadbackObservation<I>| #[trigger]
            call_ensures(
                NativeReadbackObservation::<I>::record_copy_submitted,
                (record, submission_index),
                (),
            ) ==> {
                &&& (*final(record)).submission_index == Some(submission_index)
                &&& (*final(record)).phase_history@.len() == (*record).phase_history@.len() + 1
                &&& (*final(record)).phase_history@.last() is CopySubmitted
                &&& (*final(record)).staging == (*record).staging
            },
{
}

/// A mapped readback that is finished publishes the pixels of its mapped rows, each channel from its
/// place, and ends as published; or it fails and ends as failed, with its view dropped and its staging
/// buffer unmapped and dropped; or, where its size has no layout, nothing changes.
pub proof fn law_finished_readbacks_show_the_mapped_pixels(
    size: PhysicalSize,
    mapped: &[u8],
    x: int,
    y: int,
    channel: int,
)
    requires
        0 <= x < size.width,
        0 <= y < size.height,
        0 <= channel < 4,
    ensures
        forall|readback: &mut ObservedReadback, result: Result<ImageBuffer, Error>| #[trigger]
            call_ensures(ObservedReadback::finish_mapped, (readback, size, mapped), result) ==> {
                &&& result matches Ok(image) ==> {
                    &&& image.spec_size().width == size.width
                    &&& image.spec_size().height == size.height
                    &&& image.spec_rgba()[4 * (y * size.width + x) + channel] == mapped@[y * (256
                        * ((4 * size.width + 255) / 256)) + 4 * x + channel]
                    &&& (*final(readback)).phase() is PublishedBytes
                }
                &&& result is Err ==> {
                    ||| *final(readback) == *readback
                    ||| {
                        &&& (*final(readback)).phase() is Failed
                        &&& (*final(readback)).cleanup@.len() == 3
                        &&& (*final(readback)).cleanup@[0] is MappedViewDropped
                        &&& (*final(readback)).cleanup@[1] is StagingUnmapped
                        &&& (*final(readback)).cleanup@[2] is StagingDropped
                    }
                }
            },
{
    law_decoded_rows_are_the_pixels(size, mapped@, x, y, channel);
}

/// A readback starts allocated, with an idle staging buffer and nothing ended or cleaned up.
pub proof fn law_readbacks_start_allocated(readback: ObservedReadback)
    requires
        call_ensures(ObservedReadback::allocated, (), readback),
    ensures
        readback.phase() is Allocated,
        readback.disposition() is Idle,
        readback.terminal is None,
        readback.cleanup@.len() == 0,
{
}

} // verus!

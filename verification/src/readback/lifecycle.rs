//! Phases of one readback and ownership of its staging buffer.

use vstd::prelude::*;

use std::ops::Range;

use crate::error::{Error, ReadbackFailure};
use crate::geometry::PhysicalSize;
use crate::image::{rgba_len, ImageBuffer};
use crate::readback::layout::{staging_bytes, ReadbackLayout};

verus! {

/// How far one readback has come. `I` identifies a queue submission.
pub enum ReadbackPhase<I> {
    Allocated,
    CopySubmitted { submission_index: I },
    MapPending,
    Mapped,
    PublishedBytes,
    Failed,
    Canceled,
}

impl<I> ReadbackPhase<I> {
    /// Whether the outcome of the readback is still open.
    pub open spec fn uncertain(self) -> bool {
        !(self is PublishedBytes || self is Failed || self is Canceled)
    }

    /// The position of the phase in the order that a successful readback goes through.
    pub open spec fn rank(self) -> int {
        match self {
            ReadbackPhase::Allocated => 0,
            ReadbackPhase::CopySubmitted { .. } => 1,
            ReadbackPhase::MapPending => 2,
            ReadbackPhase::Mapped => 3,
            ReadbackPhase::PublishedBytes => 4,
            ReadbackPhase::Failed => 4,
            ReadbackPhase::Canceled => 4,
        }
    }
}

/// What can happen to a readback.
pub enum ReadbackEvent<I> {
    CopySubmitted { submission_index: I },
    MapPending,
    Mapped,
    Published,
    Fail,
    Cancel,
}

/// The phase after `event`, or `None` where the event cannot happen.
pub open spec fn phase_after<I>(phase: ReadbackPhase<I>, event: ReadbackEvent<I>) -> Option<
    ReadbackPhase<I>,
> {
    match event {
        ReadbackEvent::CopySubmitted { submission_index } => if phase is Allocated {
            Some(ReadbackPhase::CopySubmitted { submission_index })
        } else {
            None
        },
        ReadbackEvent::MapPending => if phase is CopySubmitted {
            Some(ReadbackPhase::MapPending)
        } else {
            None
        },
        ReadbackEvent::Mapped => if phase is MapPending {
            Some(ReadbackPhase::Mapped)
        } else {
            None
        },
        ReadbackEvent::Published => if phase is Mapped {
            Some(ReadbackPhase::PublishedBytes)
        } else {
            None
        },
        ReadbackEvent::Fail => if phase.uncertain() {
            Some(ReadbackPhase::Failed)
        } else {
            Some(phase)
        },
        ReadbackEvent::Cancel => if phase.uncertain() {
            Some(ReadbackPhase::Canceled)
        } else {
            Some(phase)
        },
    }
}

/// The phase after a run of events, or `None` where one of them cannot happen.
pub open spec fn phase_after_all<I>(phase: ReadbackPhase<I>, events: Seq<ReadbackEvent<I>>) -> Option<
    ReadbackPhase<I>,
>
    decreases events.len(),
{
    if events.len() == 0 {
        Some(phase)
    } else {
        match phase_after_all(phase, events.drop_last()) {
            None => None,
            Some(before) => phase_after(before, events.last()),
        }
    }
}

/// A finished readback stays as it ended, whatever is asked of it afterwards.
pub proof fn law_terminal_phases_are_final<I>(phase: ReadbackPhase<I>, events: Seq<ReadbackEvent<I>>)
    requires
        !phase.uncertain(),
    ensures
        phase_after_all(phase, events) matches Some(end) ==> end == phase,
    decreases events.len(),
{
    if events.len() > 0 {
        law_terminal_phases_are_final(phase, events.drop_last());
    }
}

/// Bytes are published only by a readback that submitted its copy, asked for the map and saw it
/// mapped, in this order.
pub proof fn law_publication_follows_every_phase<I>(events: Seq<ReadbackEvent<I>>)
    requires
        phase_after_all(ReadbackPhase::Allocated, events) == Some(
            ReadbackPhase::<I>::PublishedBytes,
        ),
    ensures
        events.len() >= 4,
        events[0] is CopySubmitted,
        events[1] is MapPending,
        events[2] is Mapped,
        events[3] is Published,
    decreases events.len(),
{
    lemma_progress(events);
}

/// Until a readback ends, its events are exactly the steps up to its phase.
proof fn lemma_progress<I>(events: Seq<ReadbackEvent<I>>)
    ensures
        phase_after_all(ReadbackPhase::Allocated, events) matches Some(phase) ==> {
            let steps = phase.rank();
            &&& phase.uncertain() ==> events.len() == steps
            &&& phase is PublishedBytes ==> events.len() >= 4 && events[3] is Published
            &&& phase.uncertain() || phase is PublishedBytes ==> {
                &&& steps > 0 ==> events[0] is CopySubmitted
                &&& steps > 1 ==> events[1] is MapPending
                &&& steps > 2 ==> events[2] is Mapped
            }
        },
    decreases events.len(),
{
    if events.len() > 0 {
        lemma_progress(events.drop_last());
    }
}

/// The phase of one readback.
pub struct ReadbackLifecycle<I> {
    pub phase: ReadbackPhase<I>,
}

impl<I> ReadbackLifecycle<I> {
    pub fn allocated() -> (lifecycle: Self)
        ensures
            lifecycle.phase == ReadbackPhase::<I>::Allocated,
    {
        Self { phase: ReadbackPhase::Allocated }
    }

    /// Records the copy submission, which must follow allocation.
    pub fn copy_submitted(&mut self, submission_index: I)
        requires
            old(self).phase is Allocated,
        ensures
            Some(final(self).phase) == phase_after(
                old(self).phase,
                (ReadbackEvent::CopySubmitted { submission_index }),
            ),
    {
        self.phase = ReadbackPhase::CopySubmitted { submission_index };
    }

    /// Records the map request, which must follow copy submission.
    pub fn map_pending(&mut self)
        requires
            old(self).phase is CopySubmitted,
        ensures
            Some(final(self).phase) == phase_after(old(self).phase, ReadbackEvent::MapPending),
    {
        self.phase = ReadbackPhase::MapPending;
    }

    /// Records that the staging bytes are mapped, which must follow the map request.
    pub fn mapped(&mut self)
        requires
            old(self).phase is MapPending,
        ensures
            Some(final(self).phase) == phase_after(old(self).phase, ReadbackEvent::Mapped),
    {
        self.phase = ReadbackPhase::Mapped;
    }

    /// Records the publication, which is possible only from the mapped phase.
    pub fn published(&mut self)
        requires
            old(self).phase is Mapped,
        ensures
            Some(final(self).phase) == phase_after(old(self).phase, ReadbackEvent::Published),
    {
        self.phase = ReadbackPhase::PublishedBytes;
    }

    /// Ends an open readback as failed and says whether it was open.
    pub fn fail(&mut self) -> (changed: bool)
        ensures
            changed == old(self).phase.uncertain(),
            Some(final(self).phase) == phase_after(old(self).phase, ReadbackEvent::Fail),
    {
        if self.is_uncertain() {
            self.phase = ReadbackPhase::Failed;
            true
        } else {
            false
        }
    }

    /// Ends an open readback as canceled and says whether it was open.
    pub fn cancel(&mut self) -> (changed: bool)
        ensures
            changed == old(self).phase.uncertain(),
            Some(final(self).phase) == phase_after(old(self).phase, ReadbackEvent::Cancel),
    {
        if self.is_uncertain() {
            self.phase = ReadbackPhase::Canceled;
            true
        } else {
            false
        }
    }

    pub fn is_uncertain(&self) -> (uncertain: bool)
        ensures
            uncertain == self.phase.uncertain(),
    {
        match &self.phase {
            ReadbackPhase::Allocated
            | ReadbackPhase::CopySubmitted { .. }
            | ReadbackPhase::MapPending
            | ReadbackPhase::Mapped => true,
            ReadbackPhase::PublishedBytes | ReadbackPhase::Failed | ReadbackPhase::Canceled => false,
        }
    }
}

/// What is known of a staging buffer's mapping.
#[derive(Clone, Copy, Debug, PartialEq, Eq, Structural)]
pub enum ReadbackStagingDisposition {
    Idle,
    MapPending,
    MappedActive,
    Released,
}

/// What has to be done with a staging buffer that is given up.
#[derive(Clone, Copy, Debug, PartialEq, Eq, Structural)]
pub enum ReadbackStagingCleanupAction {
    Drop,
    UnmapThenDrop,
    Nothing,
}

/// The cleanup that a disposition calls for.
pub open spec fn cleanup_action(disposition: ReadbackStagingDisposition) -> ReadbackStagingCleanupAction {
    match disposition {
        ReadbackStagingDisposition::Idle => ReadbackStagingCleanupAction::Drop,
        ReadbackStagingDisposition::MapPending => ReadbackStagingCleanupAction::UnmapThenDrop,
        ReadbackStagingDisposition::MappedActive => ReadbackStagingCleanupAction::UnmapThenDrop,
        ReadbackStagingDisposition::Released => ReadbackStagingCleanupAction::Nothing,
    }
}

/// The mapping state that a readback shares with its map callback.
pub struct ReadbackStagingMapState {
    pub disposition: ReadbackStagingDisposition,
}

impl ReadbackStagingMapState {
    pub fn idle() -> (state: Self)
        ensures
            state.disposition == ReadbackStagingDisposition::Idle,
    {
        Self { disposition: ReadbackStagingDisposition::Idle }
    }

    /// Records a map request on known-idle staging.
    pub fn map_pending(&mut self)
        requires
            old(self).disposition == ReadbackStagingDisposition::Idle,
        ensures
            final(self).disposition == ReadbackStagingDisposition::MapPending,
    {
        self.disposition = ReadbackStagingDisposition::MapPending;
    }

    /// Records the one answer to a map request. After release the answer is ignored.
    pub fn map_callback_completed(&mut self, succeeded: bool)
        requires
            old(self).disposition == ReadbackStagingDisposition::MapPending || old(self).disposition
                == ReadbackStagingDisposition::Released,
        ensures
            final(self).disposition == (if old(self).disposition
                == ReadbackStagingDisposition::Released {
                ReadbackStagingDisposition::Released
            } else if succeeded {
                ReadbackStagingDisposition::MappedActive
            } else {
                ReadbackStagingDisposition::Idle
            }),
    {
        match self.disposition {
            ReadbackStagingDisposition::MapPending => {
                self.disposition =
                if succeeded {
                    ReadbackStagingDisposition::MappedActive
                } else {
                    ReadbackStagingDisposition::Idle
                };
            },
            ReadbackStagingDisposition::Released => {},
            ReadbackStagingDisposition::Idle | ReadbackStagingDisposition::MappedActive => {},
        }
    }

    /// Hands out the cleanup that is owed and marks the staging buffer released.
    pub fn take_cleanup_action(&mut self) -> (action: ReadbackStagingCleanupAction)
        ensures
            action == cleanup_action(old(self).disposition),
            final(self).disposition == ReadbackStagingDisposition::Released,
    {
        let previous = self.disposition;
        self.disposition = ReadbackStagingDisposition::Released;
        match previous {
            ReadbackStagingDisposition::Idle => ReadbackStagingCleanupAction::Drop,
            ReadbackStagingDisposition::MapPending | ReadbackStagingDisposition::MappedActive => {
                ReadbackStagingCleanupAction::UnmapThenDrop
            },
            ReadbackStagingDisposition::Released => ReadbackStagingCleanupAction::Nothing,
        }
    }
}

/// A staging buffer that its owner gave up, with what remains to be done with it.
pub enum ReleasedStaging<S> {
    Drop(S),
    UnmapThenDrop(S),
    Nothing,
}

/// What releasing an optional staging buffer hands out.
pub open spec fn released<S>(staging: Option<S>, disposition: ReadbackStagingDisposition) -> ReleasedStaging<
    S,
> {
    match (staging, cleanup_action(disposition)) {
        (Some(buffer), ReadbackStagingCleanupAction::Drop) => ReleasedStaging::Drop(buffer),
        (Some(buffer), ReadbackStagingCleanupAction::UnmapThenDrop) => ReleasedStaging::UnmapThenDrop(
            buffer,
        ),
        _ => ReleasedStaging::Nothing,
    }
}

/// One readback with its staging buffer `S`. The mapping state is held outside, where the map
/// callback can reach it, and is handed to each operation that touches it.
pub struct ReadbackOwner<I, S> {
    lifecycle: ReadbackLifecycle<I>,
    staging: Option<S>,
    layout: ReadbackLayout,
    physical_size: PhysicalSize,
}

impl<I, S> ReadbackOwner<I, S> {
    pub closed spec fn phase(&self) -> ReadbackPhase<I> {
        self.lifecycle.phase
    }

    pub closed spec fn spec_staging(&self) -> Option<S> {
        self.staging
    }

    pub closed spec fn size(&self) -> PhysicalSize {
        self.physical_size
    }

    pub closed spec fn layout_size(&self) -> PhysicalSize {
        self.layout.size()
    }

    /// The staging buffer is owned exactly while the readback is open, and its mapping state is
    /// one that the phase allows.
    pub open spec fn agrees_with(&self, disposition: ReadbackStagingDisposition) -> bool {
        &&& self.spec_staging() is Some == self.phase().uncertain()
        &&& self.layout_size() == self.size()
        &&& match self.phase() {
            ReadbackPhase::Allocated | ReadbackPhase::CopySubmitted { .. } => disposition
                == ReadbackStagingDisposition::Idle,
            ReadbackPhase::MapPending => disposition != ReadbackStagingDisposition::Released,
            ReadbackPhase::Mapped => disposition == ReadbackStagingDisposition::MappedActive,
            _ => disposition == ReadbackStagingDisposition::Released,
        }
    }

    /// Takes ownership of a staging buffer with the layout of its image.
    pub fn allocated(staging: S, layout: ReadbackLayout, physical_size: PhysicalSize) -> (owner: Self)
        requires
            layout.size() == physical_size,
        ensures
            owner.phase() == ReadbackPhase::<I>::Allocated,
            owner.spec_staging() == Some(staging),
            owner.size() == physical_size,
            owner.agrees_with(ReadbackStagingDisposition::Idle),
    {
        Self {
            lifecycle: ReadbackLifecycle::allocated(),
            staging: Some(staging),
            layout,
            physical_size,
        }
    }

    /// The staging buffer of an open readback.
    pub fn staging(&self) -> (staging: &S)
        requires
            self.spec_staging() is Some,
        ensures
            Some(*staging) == self.spec_staging(),
    {
        self.staging.as_ref().unwrap()
    }

    pub fn layout(&self) -> (layout: &ReadbackLayout)
        ensures
            layout.size() == self.layout_size(),
    {
        &self.layout
    }

    /// Whether the outcome of the readback is still open.
    pub fn is_open(&self) -> (open: bool)
        ensures
            open == self.phase().uncertain(),
    {
        self.lifecycle.is_uncertain()
    }

    pub fn copy_submitted(&mut self, submission_index: I)
        requires
            old(self).phase() is Allocated,
        ensures
            Some(final(self).phase()) == phase_after(
                old(self).phase(),
                (ReadbackEvent::CopySubmitted { submission_index }),
            ),
            final(self).spec_staging() == old(self).spec_staging(),
            final(self).size() == old(self).size(),
            final(self).layout_size() == old(self).layout_size(),
    {
        self.lifecycle.copy_submitted(submission_index);
    }

    pub fn map_pending(&mut self, staging_map: &mut ReadbackStagingMapState)
        requires
            old(self).phase() is CopySubmitted,
            old(self).agrees_with(old(staging_map).disposition),
        ensures
            Some(final(self).phase()) == phase_after(old(self).phase(), ReadbackEvent::MapPending),
            final(self).agrees_with(final(staging_map).disposition),
            final(staging_map).disposition == ReadbackStagingDisposition::MapPending,
            final(self).spec_staging() == old(self).spec_staging(),
            final(self).size() == old(self).size(),
    {
        self.lifecycle.map_pending();
        staging_map.map_pending();
    }

    pub fn mapped(&mut self, staging_map: &ReadbackStagingMapState)
        requires
            old(self).phase() is MapPending,
            old(self).agrees_with(staging_map.disposition),
            staging_map.disposition == ReadbackStagingDisposition::MappedActive,
        ensures
            Some(final(self).phase()) == phase_after(old(self).phase(), ReadbackEvent::Mapped),
            final(self).agrees_with(staging_map.disposition),
            final(self).spec_staging() == old(self).spec_staging(),
            final(self).size() == old(self).size(),
    {
        self.lifecycle.mapped();
    }

    pub fn mapped_range(&self) -> (range: Range<u64>)
        ensures
            range.start == 0,
            range.end == staging_bytes(self.layout_size()),
    {
        self.layout.mapped_range()
    }

    /// Ends an open readback as failed and gives up its staging buffer; a finished one stays as
    /// it is.
    pub fn fail(&mut self, staging_map: &mut ReadbackStagingMapState) -> (cleanup: ReleasedStaging<S>)
        requires
            old(self).agrees_with(old(staging_map).disposition),
        ensures
            Some(final(self).phase()) == phase_after(old(self).phase(), ReadbackEvent::Fail),
            final(self).agrees_with(final(staging_map).disposition),
            final(self).size() == old(self).size(),
            cleanup == released(old(self).spec_staging(), old(staging_map).disposition),
            cleanup is Nothing == !old(self).phase().uncertain(),
    {
        if self.lifecycle.fail() {
            self.release_staging(staging_map)
        } else {
            ReleasedStaging::Nothing
        }
    }

    /// Ends an open readback as canceled and gives up its staging buffer; a finished one stays as
    /// it is.
    pub fn cancel(&mut self, staging_map: &mut ReadbackStagingMapState) -> (cleanup: ReleasedStaging<S>)
        requires
            old(self).agrees_with(old(staging_map).disposition),
        ensures
            Some(final(self).phase()) == phase_after(old(self).phase(), ReadbackEvent::Cancel),
            final(self).agrees_with(final(staging_map).disposition),
            final(self).size() == old(self).size(),
            cleanup == released(old(self).spec_staging(), old(staging_map).disposition),
            cleanup is Nothing == !old(self).phase().uncertain(),
    {
        if self.lifecycle.cancel() {
            self.release_staging(staging_map)
        } else {
            ReleasedStaging::Nothing
        }
    }

    /// Gives up the staging buffer of a mapped readback and publishes its decoded bytes. Bytes
    /// that are not an image of the readback's size fail it instead.
    pub fn publish_mapped(&mut self, staging_map: &mut ReadbackStagingMapState, rgba: Vec<u8>) -> (out: (
        Result<ImageBuffer, Error>,
        ReleasedStaging<S>,
    ))
        requires
            old(self).phase() is Mapped,
            old(self).agrees_with(old(staging_map).disposition),
        ensures
            final(self).agrees_with(final(staging_map).disposition),
            final(self).size() == old(self).size(),
            old(self).spec_staging() == Some(out.1->UnmapThenDrop_0),
            out.1 is UnmapThenDrop,
            match out.0 {
                Ok(image) => {
                    &&& rgba@.len() == rgba_len(old(self).size())
                    &&& image.spec_size() == old(self).size()
                    &&& image.spec_rgba() == rgba@
                    &&& final(self).phase() is PublishedBytes
                },
                Err(error) => {
                    &&& rgba@.len() != rgba_len(old(self).size())
                    &&& error == Error::Readback(ReadbackFailure::ImageInvalid)
                    &&& final(self).phase() is Failed
                },
            },
    {
        let cleanup = self.release_staging(staging_map);
        match ImageBuffer::try_new(self.physical_size, rgba) {
            Ok(image) => {
                self.lifecycle.published();
                (Ok(image), cleanup)
            },
            Err(_) => {
                let _ = self.lifecycle.fail();
                (Err(Error::Readback(ReadbackFailure::ImageInvalid)), cleanup)
            },
        }
    }

    fn release_staging(&mut self, staging_map: &mut ReadbackStagingMapState) -> (cleanup: ReleasedStaging<
        S,
    >)
        ensures
            cleanup == released(old(self).spec_staging(), old(staging_map).disposition),
            final(self).spec_staging() is None,
            final(staging_map).disposition == ReadbackStagingDisposition::Released,
            final(self).phase() == old(self).phase(),
            final(self).size() == old(self).size(),
            final(self).layout_size() == old(self).layout_size(),
    {
        let action = staging_map.take_cleanup_action();
        match self.staging.take() {
            None => ReleasedStaging::Nothing,
            Some(staging) => match action {
                ReadbackStagingCleanupAction::Drop => ReleasedStaging::Drop(staging),
                ReadbackStagingCleanupAction::UnmapThenDrop => ReleasedStaging::UnmapThenDrop(
                    staging,
                ),
                ReadbackStagingCleanupAction::Nothing => ReleasedStaging::Nothing,
            },
        }
    }
}

/// What becomes of a staging buffer that is given up: one that was never mapped is dropped, one whose
/// map is pending or active is unmapped first, and one that was released leaves nothing to do. It is
/// handed out once.
pub proof fn law_staging_is_cleaned_up_once()
    ensures
        forall|state: &mut ReadbackStagingMapState, action: ReadbackStagingCleanupAction| #[trigger]
            call_ensures(ReadbackStagingMapState::take_cleanup_action, (state,), action) ==> {
                &&& (*final(state)).disposition is Released
                &&& action is Drop <==> (*state).disposition is Idle
                &&& action is UnmapThenDrop <==> (*state).disposition is MapPending
                    || (*state).disposition is MappedActive
                &&& action is Nothing <==> (*state).disposition is Released
            },
        forall|state: &mut ReadbackStagingMapState, succeeded: bool| #[trigger]
            call_ensures(
                ReadbackStagingMapState::map_callback_completed,
                (state, succeeded),
                (),
            ) && (*state).disposition is MapPending ==> {
                &&& (*final(state)).disposition is MappedActive <==> succeeded
                &&& (*final(state)).disposition is Idle <==> !succeeded
            },
        forall|state: &mut ReadbackStagingMapState, succeeded: bool| #[trigger]
            call_ensures(
                ReadbackStagingMapState::map_callback_completed,
                (state, succeeded),
                (),
            ) && (*state).disposition is Released ==> (*final(state)).disposition is Released,
{
}

/// A phase is open until the readback published, failed or was canceled.
pub proof fn law_open_phases<I>(lifecycle: &ReadbackLifecycle<I>, open: bool)
    requires
        call_ensures(ReadbackLifecycle::<I>::is_uncertain, (lifecycle,), open),
    ensures
        open <==> lifecycle.phase is Allocated || lifecycle.phase is CopySubmitted
            || lifecycle.phase is MapPending || lifecycle.phase is Mapped,
{
}

/// Each event moves a readback to its own phase: submission keeps the index, the map request, the map
/// and the publication follow one another; failing or canceling ends an open readback and says so, and
/// leaves a finished one as it ended.
pub proof fn law_events_move_to_their_phase<I>(submission_index: I)
    ensures
        forall|lifecycle: &mut ReadbackLifecycle<I>| #[trigger]
            call_ensures(
                ReadbackLifecycle::<I>::copy_submitted,
                (lifecycle, submission_index),
                (),
            ) && (*lifecycle).phase is Allocated ==> (*final(lifecycle)).phase
                == (ReadbackPhase::CopySubmitted { submission_index }),
        forall|lifecycle: &mut ReadbackLifecycle<I>| #[trigger]
            call_ensures(ReadbackLifecycle::<I>::map_pending, (lifecycle,), ())
                && (*lifecycle).phase is CopySubmitted ==> (*final(lifecycle)).phase is MapPending,
        forall|lifecycle: &mut ReadbackLifecycle<I>| #[trigger]
            call_ensures(ReadbackLifecycle::<I>::mapped, (lifecycle,), ())
                && (*lifecycle).phase is MapPending ==> (*final(lifecycle)).phase is Mapped,
        forall|lifecycle: &mut ReadbackLifecycle<I>| #[trigger]
            call_ensures(ReadbackLifecycle::<I>::published, (lifecycle,), ())
                && (*lifecycle).phase is Mapped ==> (*final(lifecycle)).phase is PublishedBytes,
        forall|lifecycle: &mut ReadbackLifecycle<I>, changed: bool| #[trigger]
            call_ensures(ReadbackLifecycle::<I>::fail, (lifecycle,), changed) ==> {
                &&& changed <==> !((*lifecycle).phase is PublishedBytes
                    || (*lifecycle).phase is Failed || (*lifecycle).phase is Canceled)
                &&& changed ==> (*final(lifecycle)).phase is Failed
                &&& !changed ==> (*final(lifecycle)).phase == (*lifecycle).phase
            },
        forall|lifecycle: &mut ReadbackLifecycle<I>, changed: bool| #[trigger]
            call_ensures(ReadbackLifecycle::<I>::cancel, (lifecycle,), changed) ==> {
                &&& changed <==> !((*lifecycle).phase is PublishedBytes
                    || (*lifecycle).phase is Failed || (*lifecycle).phase is Canceled)
                &&& changed ==> (*final(lifecycle)).phase is Canceled
                &&& !changed ==> (*final(lifecycle)).phase == (*lifecycle).phase
            },
{
}

/// A readback that fails or is canceled while open gives up the very staging buffer that it owns, to be
/// unmapped first if it may be mapped; a finished one gives up nothing.
pub proof fn law_ended_readbacks_give_up_their_staging<I, S>()
    ensures
        forall|
            owner: &mut ReadbackOwner<I, S>,
            map: &mut ReadbackStagingMapState,
            cleanup: ReleasedStaging<S>,
        | #[trigger]
            call_ensures(ReadbackOwner::<I, S>::fail, (owner, map), cleanup)
                && (*owner).agrees_with((*map).disposition) ==> {
                &&& gives_up((*owner).spec_staging(), (*map).disposition, cleanup)
                &&& (*owner).phase().uncertain() ==> (*final(owner)).phase() is Failed
                &&& !(*owner).phase().uncertain() ==> (*final(owner)).phase() == (*owner).phase()
                &&& (*final(owner)).spec_staging() is None
            },
        forall|
            owner: &mut ReadbackOwner<I, S>,
            map: &mut ReadbackStagingMapState,
            cleanup: ReleasedStaging<S>,
        | #[trigger]
            call_ensures(ReadbackOwner::<I, S>::cancel, (owner, map), cleanup)
                && (*owner).agrees_with((*map).disposition) ==> {
                &&& gives_up((*owner).spec_staging(), (*map).disposition, cleanup)
                &&& (*owner).phase().uncertain() ==> (*final(owner)).phase() is Canceled
                &&& !(*owner).phase().uncertain() ==> (*final(owner)).phase() == (*owner).phase()
                &&& (*final(owner)).spec_staging() is None
            },
{
}

/// Whether a cleanup is that of an optional staging buffer with a mapping state.
pub open spec fn gives_up<S>(
    staging: Option<S>,
    disposition: ReadbackStagingDisposition,
    cleanup: ReleasedStaging<S>,
) -> bool {
    &&& staging is None ==> cleanup is Nothing
    &&& staging matches Some(buffer) ==> {
        &&& disposition is Idle ==> cleanup == ReleasedStaging::Drop(buffer)
        &&& disposition is MapPending || disposition is MappedActive ==> cleanup
            == ReleasedStaging::UnmapThenDrop(buffer)
        &&& disposition is Released ==> cleanup is Nothing
    }
}

/// A mapped readback publishes its bytes as an image of its size if there are four for each pixel, and
/// fails otherwise; its staging buffer is unmapped and dropped either way.
pub proof fn law_mapped_readbacks_publish_their_bytes<I, S>(rgba: Vec<u8>)
    ensures
        forall|
            owner: &mut ReadbackOwner<I, S>,
            map: &mut ReadbackStagingMapState,
            out: (Result<ImageBuffer, Error>, ReleasedStaging<S>),
        | #[trigger]
            call_ensures(ReadbackOwner::<I, S>::publish_mapped, (owner, map, rgba), out)
                && (*owner).phase() is Mapped && (*owner).agrees_with((*map).disposition) ==> {
                let size = (*owner).size();
                &&& out.0 is Ok <==> rgba@.len() == 4 * (size.width * size.height)
                &&& out.0 matches Ok(image) ==> image.spec_rgba() == rgba@
                    && image.spec_size().width == size.width && image.spec_size().height
                    == size.height && (*final(owner)).phase() is PublishedBytes
                &&& out.0 is Err ==> (*final(owner)).phase() is Failed
                &&& out.1 is UnmapThenDrop
                &&& (*owner).spec_staging() == Some(out.1->UnmapThenDrop_0)
            },
{
}

/// A readback owns the staging buffer that it was allocated with, at the size of its image, and is open
/// until it published, failed or was canceled.
pub proof fn law_allocated_readbacks_own_their_staging<I, S>(
    staging: S,
    layout: ReadbackLayout,
    size: PhysicalSize,
    owner: ReadbackOwner<I, S>,
    open: bool,
)
    requires
        layout.size() == size,
        call_ensures(ReadbackOwner::<I, S>::allocated, (staging, layout, size), owner),
        call_ensures(ReadbackOwner::<I, S>::is_open, (&owner,), open),
    ensures
        owner.phase() is Allocated,
        owner.spec_staging() == Some(staging),
        owner.size().width == size.width,
        owner.size().height == size.height,
        open,
{
}

} // verus!

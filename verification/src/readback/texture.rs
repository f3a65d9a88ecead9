//! The decisions of a texture readback between its GPU operations.

use vstd::prelude::*;

use crate::error::Error;
use crate::geometry::PhysicalSize;
use crate::image::ImageBuffer;
use crate::readback::layout::{layout_failure, ReadbackLayout};
use crate::readback::lifecycle::{
    ReadbackOwner, ReadbackStagingDisposition, ReadbackStagingMapState, ReleasedStaging,
};
use crate::readback::native::ReadbackMapFuture;

verus! {

/// What a readback does next, with what it needs for it. `I` identifies a submission, `S` is a
/// staging buffer, `W` wakes the reader.
pub enum TextureReadStep<I, S, W> {
    /// Begin a scoped GPU operation, then call [`TextureRead::began`].
    BeginOperation,
    /// Finish the scope, observe the device, then call [`finish_rejected_layout`].
    FinishScope { error: Error },
    /// Get the queue, allocate a staging buffer of the layout's size, submit the copy into it,
    /// then call [`TextureRead::copy_submitted`].
    SubmitCopy { layout: ReadbackLayout },
    /// Finish the submission and observe the device, then call
    /// [`PendingTextureCopy::submission_finished`].
    FinishSubmission { copy: PendingTextureCopy<I, S> },
    /// Get the device again, then call [`PendingTextureCopy::device_acquired`].
    AcquireDevice { copy: PendingTextureCopy<I, S> },
    /// Start the map and wait for it.
    AwaitMap { future: ReadbackMapFuture<I, S, W> },
    /// Dispose of the staging buffer and report the error.
    Abort { error: Error, cleanup: ReleasedStaging<S> },
    /// Report the result without further GPU work.
    Done { result: Result<ImageBuffer, Error> },
}

/// A readback of a texture of one size.
pub struct TextureRead {
    pub size: PhysicalSize,
}

impl TextureRead {
    /// Starts a readback. A texture without pixels is an empty image and needs no GPU work.
    pub fn start<I, S, W>(size: PhysicalSize) -> (out: (Self, TextureReadStep<I, S, W>))
        ensures
            out.0.size == size,
            if size.area() == 0 {
                out.1 matches TextureReadStep::Done { result: Ok(image) } && image.spec_size() == size
                    && image.spec_rgba() == Seq::<u8>::empty()
            } else {
                out.1 is BeginOperation
            },
    {
        let read = Self { size };
        if size.is_empty() {
            (read, TextureReadStep::Done { result: ImageBuffer::try_new(size, Vec::new()) })
        } else {
            (read, TextureReadStep::BeginOperation)
        }
    }

    /// Goes on once the scoped operation began, or reports why it did not.
    pub fn began<I, S, W>(&self, begun: Result<(), Error>) -> (step: TextureReadStep<I, S, W>)
        ensures
            match begun {
                Err(error) => step == (TextureReadStep::<I, S, W>::Done { result: Err(error) }),
                Ok(()) => match layout_failure(self.size) {
                    Some(failure) => step == (TextureReadStep::<I, S, W>::FinishScope {
                        error: Error::Readback(failure),
                    }),
                    None => step matches TextureReadStep::SubmitCopy { layout } && layout.size()
                        == self.size,
                },
            },
    {
        match begun {
            Err(error) => TextureReadStep::Done { result: Err(error) },
            Ok(()) => match ReadbackLayout::try_new(self.size) {
                Ok(layout) => TextureReadStep::SubmitCopy { layout },
                Err(error) => TextureReadStep::FinishScope { error },
            },
        }
    }

    /// Takes ownership of the staging buffer and the submission of its copy, or reports why the
    /// device could not take one.
    pub fn copy_submitted<I, S, W>(
        &self,
        layout: ReadbackLayout,
        submitted: Result<(S, I), Error>,
    ) -> (step: TextureReadStep<I, S, W>)
        requires
            layout.size() == self.size,
        ensures
            match submitted {
                Err(error) => step == (TextureReadStep::<I, S, W>::Done { result: Err(error) }),
                Ok((staging, submission_index)) => step matches TextureReadStep::FinishSubmission {
                    copy,
                } && copy.wf() && copy.size() == self.size && copy.staging() == Some(staging)
                    && copy.submission_index() == submission_index,
            },
    {
        match submitted {
            Err(error) => TextureReadStep::Done { result: Err(error) },
            Ok((staging, submission_index)) => {
                let mut owner = ReadbackOwner::allocated(staging, layout, self.size);
                owner.copy_submitted(submission_index);
                TextureReadStep::FinishSubmission {
                    copy: PendingTextureCopy { owner, staging_map: ReadbackStagingMapState::idle() },
                }
            },
        }
    }
}

/// The error of a readback whose size has no layout: a failed scope comes first.
pub fn finish_rejected_layout(scope: Result<(), Error>, layout_error: Error) -> (error: Error)
    ensures
        error == match scope {
            Err(scope_error) => scope_error,
            Ok(()) => layout_error,
        },
{
    match scope {
        Err(scope_error) => scope_error,
        Ok(()) => layout_error,
    }
}

/// A copy that was submitted and is not mapped yet.
pub struct PendingTextureCopy<I, S> {
    owner: ReadbackOwner<I, S>,
    staging_map: ReadbackStagingMapState,
}

impl<I, S> PendingTextureCopy<I, S> {
    pub closed spec fn wf(&self) -> bool {
        &&& self.owner.phase() is CopySubmitted
        &&& self.owner.agrees_with(self.staging_map.disposition)
    }

    pub closed spec fn size(&self) -> PhysicalSize {
        self.owner.size()
    }

    pub closed spec fn staging(&self) -> Option<S> {
        self.owner.spec_staging()
    }

    /// The submission that holds the copy.
    pub closed spec fn submission_index(&self) -> I {
        self.owner.phase()->CopySubmitted_submission_index
    }

    /// Goes on once the submission finished cleanly; otherwise the staging buffer, which was
    /// never mapped, is dropped.
    pub fn submission_finished<W>(self, finished: Result<(), Error>) -> (step: TextureReadStep<I, S, W>)
        requires
            self.wf(),
        ensures
            match finished {
                Ok(()) => step == (TextureReadStep::<I, S, W>::AcquireDevice { copy: self }),
                Err(error) => step matches TextureReadStep::Abort { error: reported, cleanup }
                    && reported == error && cleanup is Drop && self.staging() == Some(
                    cleanup->Drop_0,
                ),
            },
    {
        match finished {
            Ok(()) => TextureReadStep::AcquireDevice { copy: self },
            Err(error) => {
                let mut owner = self.owner;
                let mut staging_map = self.staging_map;
                let cleanup = owner.fail(&mut staging_map);
                TextureReadStep::Abort { error, cleanup }
            },
        }
    }

    /// Requests the map once the device is at hand; otherwise the staging buffer is dropped.
    pub fn device_acquired<W>(self, acquired: Result<(), Error>) -> (step: TextureReadStep<I, S, W>)
        requires
            self.wf(),
        ensures
            match acquired {
                Ok(()) => step matches TextureReadStep::AwaitMap { future } && future.wf()
                    && future.status() is Pending && future.staging() == self.staging()
                    && future.size() == self.size() && future.disposition()
                    == ReadbackStagingDisposition::MapPending,
                Err(error) => step matches TextureReadStep::Abort { error: reported, cleanup }
                    && reported == error && cleanup is Drop && self.staging() == Some(
                    cleanup->Drop_0,
                ),
            },
    {
        match acquired {
            Ok(()) => TextureReadStep::AwaitMap {
                future: ReadbackMapFuture::start(self.owner, self.staging_map),
            },
            Err(error) => {
                let mut owner = self.owner;
                let mut staging_map = self.staging_map;
                let cleanup = owner.fail(&mut staging_map);
                TextureReadStep::Abort { error, cleanup }
            },
        }
    }
}

/// The result of a readback whose map has ended: an error that ended the device comes first.
pub fn finish_texture_read(terminal: Option<Error>, readback: Result<ImageBuffer, Error>) -> (result:
    Result<ImageBuffer, Error>)
    ensures
        result == match terminal {
            Some(error) => Err(error),
            None => readback,
        },
{
    match terminal {
        Some(error) => Err(error),
        None => readback,
    }
}

/// A texture without pixels is read without GPU work, as an empty image of its width and height; any
/// other begins a GPU operation.
pub proof fn law_empty_textures_need_no_work<I, S, W>(
    size: PhysicalSize,
    out: (TextureRead, TextureReadStep<I, S, W>),
)
    requires
        call_ensures(TextureRead::start::<I, S, W>, (size,), out),
    ensures
        out.0.size.width == size.width,
        out.0.size.height == size.height,
        out.1 is BeginOperation <==> size.width > 0 && size.height > 0,
        size.width == 0 || size.height == 0 ==> (out.1 matches TextureReadStep::Done {
            result: Ok(image),
        } && image.spec_size().width == size.width && image.spec_size().height == size.height
            && image.spec_rgba().len() == 0),
{
    size.lemma_area_bounds();
}

/// An operation that did not begin ends the readback with its error; one that began submits a copy laid
/// out for the texture's own size, or finishes its scope where the size has no layout.
pub proof fn law_copies_are_laid_out_for_the_texture<I, S, W>(
    read: &TextureRead,
    begun: Result<(), Error>,
    step: TextureReadStep<I, S, W>,
)
    requires
        call_ensures(TextureRead::began::<I, S, W>, (read, begun), step),
    ensures
        begun matches Err(error) ==> (step matches TextureReadStep::Done { result: Err(reported) }
            && reported == error),
        begun is Ok ==> step is SubmitCopy || step is FinishScope,
        step matches TextureReadStep::SubmitCopy { layout } ==> layout.size().width
            == read.size.width && layout.size().height == read.size.height,
        step is FinishScope ==> layout_failure(read.size) is Some,
        begun is Ok && layout_failure(read.size) is None ==> step is SubmitCopy,
{
}

/// A failed scope is reported before a size without layout, and an ended device before what was read.
pub proof fn law_scopes_and_devices_come_first(
    scope: Result<(), Error>,
    layout_error: Error,
    error: Error,
    terminal: Option<Error>,
    readback: Result<ImageBuffer, Error>,
    result: Result<ImageBuffer, Error>,
)
    requires
        call_ensures(finish_rejected_layout, (scope, layout_error), error),
        call_ensures(finish_texture_read, (terminal, readback), result),
    ensures
        scope is Ok ==> error == layout_error,
        scope is Err ==> error == scope->Err_0,
        terminal is None ==> result == readback,
        terminal is Some ==> (result matches Err(reported) && reported == terminal->0),
{
}

/// A submitted copy is mapped once its submission finished and the device is at hand: with the staging
/// buffer and the size that it was submitted with. A failure on the way is reported, and the buffer,
/// which was never mapped, is dropped.
pub proof fn law_submitted_copies_are_mapped_or_dropped<I, S, W>(
    copy: PendingTextureCopy<I, S>,
    finished: Result<(), Error>,
    acquired: Result<(), Error>,
    after_finish: TextureReadStep<I, S, W>,
    after_acquire: TextureReadStep<I, S, W>,
)
    requires
        copy.wf(),
        call_ensures(
            PendingTextureCopy::<I, S>::submission_finished::<W>,
            (copy, finished),
            after_finish,
        ),
        call_ensures(
            PendingTextureCopy::<I, S>::device_acquired::<W>,
            (copy, acquired),
            after_acquire,
        ),
    ensures
        after_finish is AcquireDevice <==> finished is Ok,
        after_finish matches TextureReadStep::AcquireDevice { copy: kept } ==> kept == copy,
        after_finish is Abort <==> finished is Err,
        after_finish matches TextureReadStep::Abort { error, cleanup } ==> error
            == finished->Err_0 && (cleanup matches ReleasedStaging::Drop(staging)
            && copy.staging() == Some(staging)),
        after_acquire is AwaitMap <==> acquired is Ok,
        after_acquire matches TextureReadStep::AwaitMap { future } ==> future.staging()
            == copy.staging() && future.size() == copy.size(),
        after_acquire matches TextureReadStep::Abort { error, cleanup } ==> error
            == acquired->Err_0 && (cleanup matches ReleasedStaging::Drop(staging)
            && copy.staging() == Some(staging)),
{
}

} // verus!

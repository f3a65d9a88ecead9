use surgeist_render::error::{Error, ErrorCode, ReadbackFailure};
use surgeist_render::geometry::PhysicalSize;
use surgeist_render::image::{validate_image_buffer_rgba_len, ImageBuffer};
use surgeist_render::readback::completion::{
    completion_result, handle_native_poll_result, map_completion_callback, NativePollAction,
    NativePollOutcome, ReadbackCompletion, ReadbackCompletionResult,
};
use surgeist_render::readback::layout::{decode_padded_rows, ReadbackLayout};
use surgeist_render::readback::lifecycle::{
    ReadbackLifecycle, ReadbackPhase, ReadbackStagingCleanupAction, ReadbackStagingDisposition,
    ReadbackStagingMapState, ReleasedStaging,
};
use surgeist_render::readback::native::{map_and_decode, BlockingMapOutcome, MapPoll};
use surgeist_render::readback::observation::{
    HelperStep, NativeReadbackObservation, NativeReadbackPhase, ObservedCompletion, ObservedReadback,
    ReadbackCleanupEvent, ReadbackTerminal,
};
use surgeist_render::readback::texture::{
    finish_rejected_layout, finish_texture_read, TextureRead, TextureReadStep,
};

type Step = TextureReadStep<u64, &'static str, u32>;

fn padded(size: PhysicalSize, rows: &[&[u8]], fill: u8) -> Vec<u8> {
    let layout = ReadbackLayout::try_new(size).unwrap();
    let stride = layout.padded_bytes_per_row() as usize;
    let mut mapped = Vec::new();
    for row in rows {
        let mut bytes = row.to_vec();
        bytes.resize(stride, fill);
        mapped.extend(bytes);
    }
    mapped
}

#[test]
fn layout_pads_rows_to_the_copy_alignment() {
    let layout = ReadbackLayout::try_new(PhysicalSize::new(3, 2)).unwrap();
    assert_eq!((layout.width(), layout.height()), (3, 2));
    assert_eq!(layout.padded_bytes_per_row(), 256);
    assert_eq!(layout.buffer_size(), 512);
    assert_eq!(layout.mapped_range(), 0..512);

    let exact = ReadbackLayout::try_new(PhysicalSize::new(64, 5)).unwrap();
    assert_eq!(exact.padded_bytes_per_row(), 256);
    assert_eq!(exact.buffer_size(), 1280);
    let wider = ReadbackLayout::try_new(PhysicalSize::new(65, 1)).unwrap();
    assert_eq!(wider.padded_bytes_per_row(), 512);
}

#[test]
fn layout_checks_the_alignments_of_the_gpu_library() {
    // The mapped range starts at a multiple of eight and is a multiple of four bytes long.
    assert_eq!(wgpu::MAP_ALIGNMENT, 8);
    assert_eq!(wgpu::COPY_BUFFER_ALIGNMENT, 4);
    assert_eq!(u64::from(wgpu::COPY_BYTES_PER_ROW_ALIGNMENT), 256);
    let layout = ReadbackLayout::try_new(PhysicalSize::new(1, 1)).unwrap();
    assert_eq!(layout.mapped_range().start % wgpu::MAP_ALIGNMENT, 0);
    assert_eq!(layout.buffer_size() % wgpu::COPY_BUFFER_ALIGNMENT, 0);
}

#[test]
fn layout_refuses_rows_that_exceed_the_copy_limit() {
    let widest = 0xffff_ff00_u32 / 4;
    assert!(ReadbackLayout::try_new(PhysicalSize::new(widest, 1)).is_ok());
    let error = ReadbackLayout::try_new(PhysicalSize::new(widest + 1, 1)).err().unwrap();
    assert_eq!(
        error,
        Error::Readback(ReadbackFailure::AlignedRowByteCountExceedsLimits)
    );
    assert_eq!(error.code(), ErrorCode::ReadbackFailed);
    assert_eq!(
        ReadbackFailure::AlignedRowByteCountExceedsLimits.message(),
        "aligned readback row byte count exceeds WGPU limits"
    );
}

#[test]
fn layout_refuses_sizes_without_pixels() {
    for size in [PhysicalSize::new(0, 4), PhysicalSize::new(4, 0), PhysicalSize::new(0, 0)] {
        assert_eq!(
            ReadbackLayout::try_new(size).err(),
            Some(Error::Readback(ReadbackFailure::MappedRangeEmpty))
        );
    }
}

#[test]
fn decoding_undoes_row_padding() {
    let size = PhysicalSize::new(2, 2);
    let rows: [&[u8]; 2] = [&[1, 2, 3, 4, 5, 6, 7, 8], &[9, 10, 11, 12, 13, 14, 15, 16]];
    let mapped = padded(size, &rows, 0xee);
    let layout = ReadbackLayout::try_new(size).unwrap();
    assert_eq!(
        decode_padded_rows(&layout, &mapped).unwrap(),
        (1..=16).collect::<Vec<u8>>()
    );
}

#[test]
fn decoding_refuses_incomplete_rows() {
    let size = PhysicalSize::new(2, 2);
    let layout = ReadbackLayout::try_new(size).unwrap();
    let enough = vec![7; 256 + 8];
    assert!(decode_padded_rows(&layout, &enough).is_ok());
    assert_eq!(
        decode_padded_rows(&layout, &enough[..256 + 7]).err(),
        Some(Error::Readback(ReadbackFailure::RowIncomplete))
    );
    assert_eq!(
        decode_padded_rows(&layout, &[]).err(),
        Some(Error::Readback(ReadbackFailure::RowIncomplete))
    );
}

#[test]
fn image_buffers_hold_exactly_their_pixels() {
    let size = PhysicalSize::new(2, 1);
    assert!(validate_image_buffer_rgba_len(size, 8).is_ok());
    let error = validate_image_buffer_rgba_len(size, 7).err().unwrap();
    assert_eq!(error.code(), ErrorCode::InvalidInput);
    let image = ImageBuffer::try_new(size, vec![1, 2, 3, 4, 5, 6, 7, 8]).unwrap();
    assert_eq!(image.size(), size);
    assert_eq!(image.rgba(), &[1, 2, 3, 4, 5, 6, 7, 8]);
    assert_eq!(ImageBuffer::try_new(size, vec![0; 9]).err().map(|e| e.code()), Some(ErrorCode::InvalidInput));
    assert!(ImageBuffer::try_new(PhysicalSize::new(0, 9), Vec::new()).is_ok());
}

#[test]
fn lifecycle_passes_through_every_phase() {
    let mut lifecycle = ReadbackLifecycle::<u64>::allocated();
    assert!(matches!(lifecycle.phase, ReadbackPhase::Allocated));
    lifecycle.copy_submitted(41);
    assert!(matches!(lifecycle.phase, ReadbackPhase::CopySubmitted { submission_index: 41 }));
    lifecycle.map_pending();
    lifecycle.mapped();
    assert!(lifecycle.is_uncertain());
    lifecycle.published();
    assert!(matches!(lifecycle.phase, ReadbackPhase::PublishedBytes));
    assert!(!lifecycle.is_uncertain());
}

#[test]
fn terminal_phases_are_final() {
    let mut lifecycle = ReadbackLifecycle::<u64>::allocated();
    assert!(lifecycle.cancel());
    assert!(matches!(lifecycle.phase, ReadbackPhase::Canceled));
    assert!(!lifecycle.fail());
    assert!(!lifecycle.cancel());
    assert!(matches!(lifecycle.phase, ReadbackPhase::Canceled));

    let mut failed = ReadbackLifecycle::<u64>::allocated();
    failed.copy_submitted(1);
    assert!(failed.fail());
    assert!(!failed.cancel());
    assert!(matches!(failed.phase, ReadbackPhase::Failed));
}

#[test]
fn staging_is_unmapped_only_while_it_may_be_mapped() {
    let mut idle = ReadbackStagingMapState::idle();
    assert!(matches!(idle.take_cleanup_action(), ReadbackStagingCleanupAction::Drop));
    assert!(matches!(idle.take_cleanup_action(), ReadbackStagingCleanupAction::Nothing));

    let mut pending = ReadbackStagingMapState::idle();
    pending.map_pending();
    assert!(matches!(pending.take_cleanup_action(), ReadbackStagingCleanupAction::UnmapThenDrop));

    let mut mapped = ReadbackStagingMapState::idle();
    mapped.map_pending();
    mapped.map_callback_completed(true);
    assert!(matches!(mapped.disposition, ReadbackStagingDisposition::MappedActive));
    assert!(matches!(mapped.take_cleanup_action(), ReadbackStagingCleanupAction::UnmapThenDrop));

    let mut refused = ReadbackStagingMapState::idle();
    refused.map_pending();
    refused.map_callback_completed(false);
    assert!(matches!(refused.take_cleanup_action(), ReadbackStagingCleanupAction::Drop));

    let mut late = ReadbackStagingMapState::idle();
    late.map_pending();
    late.take_cleanup_action();
    late.map_callback_completed(true);
    assert!(matches!(late.disposition, ReadbackStagingDisposition::Released));
}

#[test]
fn completion_accepts_the_first_result_only() {
    let mut completion = ReadbackCompletion::<u32>::new();
    assert_eq!(completion.poll(7), None);
    assert!(completion.is_pending());
    assert_eq!(completion.complete(ReadbackCompletionResult::Mapped), Some(7));
    assert_eq!(completion.complete(ReadbackCompletionResult::MapFailed), None);
    assert_eq!(completion.poll(8), Some(ReadbackCompletionResult::Mapped));
    assert!(!completion.is_pending());
}

#[test]
fn canceled_completions_stay_canceled() {
    let mut completion = ReadbackCompletion::<u32>::new();
    completion.cancel();
    assert!(completion.is_canceled());
    assert_eq!(completion.complete(ReadbackCompletionResult::Mapped), None);
    assert!(completion.is_canceled());
}

#[test]
fn completion_results_report_their_failures() {
    assert_eq!(completion_result(ReadbackCompletionResult::Mapped), Ok(()));
    assert_eq!(
        completion_result(ReadbackCompletionResult::MapFailed),
        Err(Error::Readback(ReadbackFailure::MapFailed))
    );
    assert_eq!(
        completion_result(ReadbackCompletionResult::PollFailure { requested: 9, successful: 4 }),
        Err(Error::Readback(ReadbackFailure::WrongSubmissionIndex))
    );
}

#[test]
fn poll_slices_continue_until_a_result() {
    let mut completion = ReadbackCompletion::<u32>::new();
    let (action, waker) = handle_native_poll_result(&mut completion, NativePollOutcome::TimedOut);
    assert_eq!((action, waker), (NativePollAction::Continue, None));
    completion.poll(3);
    let (action, waker) = handle_native_poll_result(
        &mut completion,
        NativePollOutcome::WrongSubmissionIndex { requested: 5, successful: 2 },
    );
    assert_eq!((action, waker), (NativePollAction::Stop, Some(3)));
    assert_eq!(
        completion.poll(4),
        Some(ReadbackCompletionResult::PollFailure { requested: 5, successful: 2 })
    );
}

#[test]
fn map_callbacks_update_the_staging_and_the_completion() {
    let mut completion = ReadbackCompletion::<u32>::new();
    let mut staging = ReadbackStagingMapState::idle();
    staging.map_pending();
    completion.poll(6);
    assert_eq!(map_completion_callback(&mut completion, &mut staging, true), Some(6));
    assert!(matches!(staging.disposition, ReadbackStagingDisposition::MappedActive));
    assert_eq!(completion.poll(6), Some(ReadbackCompletionResult::Mapped));
}

#[test]
fn blocking_maps_report_their_failures_in_order() {
    let size = PhysicalSize::new(1, 1);
    let layout = ReadbackLayout::try_new(size).unwrap();
    let mapped = padded(size, &[&[1, 2, 3, 4]], 0);
    assert_eq!(
        map_and_decode(BlockingMapOutcome::Mapped, &layout, &mapped).unwrap(),
        vec![1, 2, 3, 4]
    );
    for (outcome, failure, text) in [
        (
            BlockingMapOutcome::WaitFailed,
            ReadbackFailure::WaitFailed,
            "failed while waiting for the texture readback copy",
        ),
        (
            BlockingMapOutcome::CallbackDropped,
            ReadbackFailure::CallbackDropped,
            "texture readback map callback was dropped",
        ),
        (
            BlockingMapOutcome::MapFailed,
            ReadbackFailure::MapFailed,
            "failed to map the texture readback staging buffer",
        ),
    ] {
        assert_eq!(failure.message(), text);
        assert_eq!(
            map_and_decode(outcome, &layout, &mapped).err(),
            Some(Error::Readback(failure))
        );
    }
}

#[test]
fn textures_are_read_step_by_step() {
    let size = PhysicalSize::new(1, 2);
    let (read, first): (TextureRead, Step) = TextureRead::start(size);
    assert!(matches!(first, TextureReadStep::BeginOperation));
    let layout = match read.began(Ok(())) {
        Step::SubmitCopy { layout } => layout,
        _ => panic!("a begun operation submits its copy"),
    };
    assert_eq!(layout.buffer_size(), 512);
    let copy = match read.copy_submitted::<u64, &'static str, u32>(layout, Ok(("staging", 17))) {
        TextureReadStep::FinishSubmission { copy } => copy,
        _ => panic!("a submitted copy finishes its scope"),
    };
    let copy = match copy.submission_finished::<u32>(Ok(())) {
        TextureReadStep::AcquireDevice { copy } => copy,
        _ => panic!("a finished submission needs the device"),
    };
    let mut future = match copy.device_acquired::<u32>(Ok(())) {
        TextureReadStep::AwaitMap { future } => future,
        _ => panic!("an acquired device maps the staging buffer"),
    };
    assert_eq!(*future.staging_buffer(), "staging");
    assert_eq!(future.mapped_range(), 0..512);
    assert!(future.is_pending());
    assert!(matches!(future.poll(1), MapPoll::Pending));
    assert_eq!(future.map_callback(true), Some(1));
    assert!(matches!(future.poll(2), MapPoll::Mapped { .. }));
    let mapped = padded(size, &[&[1, 2, 3, 4], &[5, 6, 7, 8]], 9);
    let (image, cleanup) = future.finish(&mapped);
    let image = image.unwrap();
    assert_eq!(image.size(), size);
    assert_eq!(image.rgba(), &[1, 2, 3, 4, 5, 6, 7, 8]);
    assert!(matches!(cleanup, ReleasedStaging::UnmapThenDrop("staging")));
    assert!(finish_texture_read(None, Ok(image)).is_ok());
}

#[test]
fn empty_textures_are_read_without_the_gpu() {
    let (_, step): (TextureRead, Step) = TextureRead::start(PhysicalSize::new(0, 3));
    match step {
        TextureReadStep::Done { result } => {
            let image = result.unwrap();
            assert_eq!(image.size(), PhysicalSize::new(0, 3));
            assert!(image.rgba().is_empty());
        }
        _ => panic!("an empty texture needs no operation"),
    }
}

#[test]
fn failed_steps_give_up_the_staging_buffer() {
    let size = PhysicalSize::new(1, 1);
    let lost = Error::Readback(ReadbackFailure::WaitFailed);
    let (read, _): (TextureRead, Step) = TextureRead::start(size);
    assert!(matches!(
        read.began::<u64, &'static str, u32>(Err(lost)),
        TextureReadStep::Done { result: Err(error) } if error == lost
    ));
    let layout = ReadbackLayout::try_new(size).unwrap();
    let copy = match read.copy_submitted::<u64, &'static str, u32>(layout, Ok(("staging", 1))) {
        TextureReadStep::FinishSubmission { copy } => copy,
        _ => panic!("a submitted copy finishes its scope"),
    };
    match copy.submission_finished::<u32>(Err(lost)) {
        TextureReadStep::Abort { error, cleanup } => {
            assert_eq!(error, lost);
            assert!(matches!(cleanup, ReleasedStaging::Drop("staging")));
        }
        _ => panic!("a failed submission aborts"),
    }
    let terminal = Error::Readback(ReadbackFailure::MapFailed);
    assert_eq!(finish_texture_read(Some(terminal), Err(lost)).err(), Some(terminal));
    assert_eq!(finish_rejected_layout(Ok(()), lost), lost);
    assert_eq!(finish_rejected_layout(Err(terminal), lost), terminal);
}

#[test]
fn abandoned_maps_unmap_their_staging() {
    let size = PhysicalSize::new(1, 1);
    let (read, _): (TextureRead, Step) = TextureRead::start(size);
    let layout = ReadbackLayout::try_new(size).unwrap();
    let copy = match read.copy_submitted::<u64, &'static str, u32>(layout, Ok(("staging", 1))) {
        TextureReadStep::FinishSubmission { copy } => copy,
        _ => panic!("a submitted copy finishes its scope"),
    };
    let copy = match copy.submission_finished::<u32>(Ok(())) {
        TextureReadStep::AcquireDevice { copy } => copy,
        _ => panic!("a finished submission needs the device"),
    };
    let mut future = match copy.device_acquired::<u32>(Ok(())) {
        TextureReadStep::AwaitMap { future } => future,
        _ => panic!("an acquired device maps the staging buffer"),
    };
    assert!(matches!(future.abandon(), ReleasedStaging::UnmapThenDrop("staging")));
    assert!(matches!(future.abandon(), ReleasedStaging::Nothing));
}

#[test]
fn observed_readbacks_record_their_cleanup() {
    let size = PhysicalSize::new(1, 1);
    let mut readback = ObservedReadback::allocated();
    readback.copy_submitted(3);
    readback.map_pending();
    readback.map_callback(true);
    readback.mapped();
    let mapped = padded(size, &[&[9, 8, 7, 6]], 0);
    let image = readback.finish_mapped(size, &mapped).unwrap();
    assert_eq!(image.rgba(), &[9, 8, 7, 6]);
    assert_eq!(readback.terminal, Some(ReadbackTerminal::PublishedBytes));
    assert_eq!(
        readback.cleanup,
        vec![
            ReadbackCleanupEvent::MappedViewDropped,
            ReadbackCleanupEvent::StagingUnmapped,
            ReadbackCleanupEvent::StagingDropped,
            ReadbackCleanupEvent::PublishedBytes,
        ]
    );

    let mut canceled = ObservedReadback::allocated();
    canceled.cancel();
    canceled.fail();
    assert_eq!(canceled.terminal, Some(ReadbackTerminal::Canceled));
    assert_eq!(canceled.cleanup, vec![ReadbackCleanupEvent::StagingDropped]);
}

#[test]
fn observed_completions_count_accepted_and_discarded_results() {
    let mut completion = ObservedCompletion::<u32>::new();
    assert!(completion.timeout_slice());
    assert!(completion.poll(1).is_none());
    assert_eq!(completion.invoke_map_callback(true), Some(1));
    assert_eq!(completion.staging_map.disposition, ReadbackStagingDisposition::MappedActive);
    assert_eq!(completion.deliver_late_map_result(false), None);
    assert_eq!((completion.accepted, completion.discarded), (1, 1));
    assert_eq!(completion.poll(2), Some(Ok(())));

    let mut wrong = ObservedCompletion::<u32>::new();
    assert!(wrong.poll(5).is_none());
    assert_eq!(wrong.wrong_submission_index(8, 3), Some(5));
    assert_eq!(wrong.staging_map.disposition, ReadbackStagingDisposition::MapPending);
    assert_eq!((wrong.accepted, wrong.discarded), (1, 0));
    assert_eq!(
        wrong.poll(1),
        Some(Err(Error::Readback(ReadbackFailure::WrongSubmissionIndex)))
    );

    let mut failed = ObservedCompletion::<u32>::new();
    assert!(failed.poll(4).is_none());
    assert_eq!(failed.invoke_map_callback(false), Some(4));
    assert_eq!(failed.staging_map.disposition, ReadbackStagingDisposition::Idle);

    let mut late = ObservedCompletion::<u32>::new();
    assert!(late.poll(6).is_none());
    assert_eq!(late.deliver_late_map_result(true), Some(6));
    assert_eq!(late.poll(6), Some(Ok(())));
}

#[test]
fn native_observations_tell_when_cleanup_is_complete() {
    let mut observation = NativeReadbackObservation::<u64>::new(false);
    assert_eq!(observation.helper_step(), HelperStep::Poll);
    assert_eq!(observation.phase(), None);
    assert_eq!(observation.staging_disposition(), None);
    observation.attach_staging(ReadbackStagingDisposition::Idle);
    assert_eq!(observation.phase(), Some(NativeReadbackPhase::Allocated));
    assert_eq!(observation.staging_disposition(), Some(ReadbackStagingDisposition::Idle));
    observation.record_copy_submitted(9);
    assert_eq!(observation.submission_index, Some(9));
    assert_eq!(observation.phase(), Some(NativeReadbackPhase::CopySubmitted));
    observation.watch_staging(Some(ReadbackStagingDisposition::MapPending));
    observation.record_phase(NativeReadbackPhase::MapPending);
    observation.record_helper_started();
    observation.record_callback_invoked(true);
    observation.record_callback_released();
    observation.record_completion_result(true);
    observation.record_helper_exited();
    observation.record_phase(NativeReadbackPhase::PublishedBytes);
    assert_eq!(observation.phase(), Some(NativeReadbackPhase::PublishedBytes));
    assert!(!observation.published_cleanup_is_complete());
    assert!(!observation.staging_state_dropped());
    observation.watch_staging(None);
    assert!(observation.staging_state_dropped());
    assert_eq!(observation.staging_disposition(), None);
    assert!(observation.published_cleanup_is_complete());
}

#[test]
fn canceled_readbacks_wind_down_with_or_without_their_callback() {
    let mut held = NativeReadbackObservation::<u64>::new(true);
    held.attach_staging(ReadbackStagingDisposition::Idle);
    held.record_helper_started();
    assert_eq!(held.helper_step(), HelperStep::WaitForCancellation);
    held.record_phase(NativeReadbackPhase::Canceled);
    assert_eq!(held.helper_step(), HelperStep::Exit);
    assert!(!held.canceled_helper_cleanup_is_complete());
    held.record_helper_exited();
    assert!(held.canceled_helper_cleanup_is_complete());
    assert!(!held.late_callback_cleanup_is_complete());
    held.record_callback_invoked(true);
    held.record_callback_released();
    held.record_completion_result(false);
    assert!(!held.late_callback_cleanup_is_complete());
    held.watch_staging(None);
    assert!(held.late_callback_cleanup_is_complete());
    assert!(!held.published_cleanup_is_complete());
}

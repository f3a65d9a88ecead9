use std::collections::HashSet;

use surgeist_render::dispatch::{
    capture_grids_match, classify_frame_dispatch, future_graph_diagnostic,
    reject_future_graph_with_typed_diagnostic, CaptureGrid, DispatchObservation,
    ExactSurfaceGraph, ExecutableGraphDispatchEligibility, FramePlan, GraphLoweringCompositeKind,
    GraphLoweringPassKind, RendererFrameDispatch,
};
use surgeist_render::error::{
    Error, ErrorCode, PrimitiveFamily, PrimitiveOperation, RenderFailure, SurfaceFailure,
    UnsupportedPrimitive,
};
use surgeist_render::geometry::PhysicalSize;
use surgeist_render::options::{Antialiasing, EffectQualityPolicy, Options, ResourceCacheBudget};
use surgeist_render::renderer::{
    failed_frame_error, replace_recreated_surface, CollectedStats, HeadlessReadback,
    PreparedExecution, PresentedResumeAction, RenderRoute, Renderer, ResumeStep, Stats,
    SurfaceCreation, SurfaceFrameCommit,
};
use surgeist_render::runtime::{
    Backend, DeviceCapabilities, DeviceLossReason, DeviceSlot, DeviceSlotIdentity, Format,
    GpuFaultKind, RenderSurfaceAvailability, RuntimeCapabilities, RuntimeCapabilityUnavailable,
    RuntimeCapabilityUnavailableReason, RuntimeOperation, SurfaceIdentityMismatchKind,
    WorkingFormat,
};
use surgeist_render::scalar::Scalar;
use surgeist_render::surface::{
    Attachment, HeadlessResources, NativeFormat, Parameters, PresentMode, PresentedLifecycle,
    RendererIdentity, ResizeState, Surface, SurfaceBackend, SurfaceOptions,
};

const DEVICE: DeviceSlotIdentity = DeviceSlotIdentity { slot: 0, generation: 3 };
const LOST: RuntimeCapabilityUnavailableReason =
    RuntimeCapabilityUnavailableReason::DeviceLost { reason: DeviceLossReason::Unknown };

fn scalar(value: f64) -> Scalar {
    Scalar::from_bits(value.to_bits())
}

fn capabilities() -> DeviceCapabilities {
    DeviceCapabilities { high_precision: true, reduced_precision: true, max_texture_dimension: 8192 }
}

fn backend() -> Backend {
    Backend {
        devices: vec![DeviceSlot {
            identity: DEVICE,
            signal: None,
            terminal: None,
            capabilities: Some(capabilities()),
        }],
    }
}

fn renderer() -> Renderer {
    Renderer::new(RendererIdentity { id: 7 }, Options::new(), backend(), Ok(Some(DEVICE))).unwrap()
}

fn surface_options(format: Format) -> SurfaceOptions {
    SurfaceOptions {
        width: scalar(4.0),
        height: scalar(2.0),
        scale: scalar(1.0),
        format,
        present_mode: PresentMode::Fifo,
    }
}

fn parameters(debug: bool) -> Parameters {
    Parameters {
        base_red: scalar(0.0),
        base_green: scalar(0.0),
        base_blue: scalar(0.0),
        base_alpha: scalar(1.0),
        debug,
    }
}

fn headless(renderer: &mut Renderer) -> Surface<&'static str> {
    renderer
        .create_headless_surface(surface_options(Format::Rgba8), Ok(()), Ok(PhysicalSize::new(4, 2)))
        .unwrap()
}

fn presented(renderer: &mut Renderer) -> Surface<&'static str> {
    renderer
        .presented_surface_created(
            Attachment::Window { handle: 1 },
            surface_options(Format::Rgba8),
            PhysicalSize::new(4, 2),
            DEVICE,
            NativeFormat::Other,
            RuntimeOperation::AdapterSelection,
        )
        .unwrap()
}

fn unavailable(operation: RuntimeOperation, reason: RuntimeCapabilityUnavailableReason) -> Error {
    Error::Unavailable(RuntimeCapabilityUnavailable { operation, reason })
}

fn mismatch(kind: SurfaceIdentityMismatchKind) -> RuntimeCapabilityUnavailableReason {
    RuntimeCapabilityUnavailableReason::SurfaceIdentityMismatch { kind }
}

fn publish(renderer: &mut Renderer, surface: &mut Surface<&'static str>, texture: &'static str) -> Stats {
    let stats = renderer.frame_stats(
        PreparedExecution::DirectVello,
        CollectedStats { commands: 3, image_uploads: 1, cache_hits: 5 },
        parameters(false),
        11,
    );
    renderer
        .conclude_frame(
            surface,
            DEVICE,
            Ok(SurfaceFrameCommit { texture: Some(texture), render_time: 12, present_time: 13 }),
            stats,
            HashSet::from([9]),
            parameters(false),
            14,
        )
        .unwrap()
}

#[test]
fn options_start_with_defaults_and_can_be_replaced() {
    let options = Options::new();
    assert_eq!(options.antialiasing(), Antialiasing::default());
    assert!(!options.debug());
    assert_eq!(options.effect_quality_policy(), EffectQualityPolicy::default());
    assert_eq!(options.resource_cache_budget().bytes(), 64 * 1024 * 1024);
    let changed = options
        .with_debug(true)
        .with_antialiasing(Antialiasing::Msaa16)
        .with_effect_quality_policy(EffectQualityPolicy::AllowReducedPrecision)
        .with_resource_cache_budget(ResourceCacheBudget::disabled());
    assert!(changed.debug());
    assert_eq!(changed.antialiasing(), Antialiasing::Msaa16);
    assert_eq!(changed.effect_quality_policy(), EffectQualityPolicy::AllowReducedPrecision);
    assert_eq!(changed.resource_cache_budget().bytes(), 0);
    assert_eq!(ResourceCacheBudget::new(5).bytes(), 5);
}

#[test]
fn working_formats_follow_the_quality_policy() {
    let only_reduced = DeviceCapabilities { high_precision: false, ..capabilities() };
    let neither = DeviceCapabilities { reduced_precision: false, ..only_reduced };
    let strict = EffectQualityPolicy::RequireHighPrecision;
    let relaxed = EffectQualityPolicy::AllowReducedPrecision;
    assert_eq!(
        capabilities().resolve_effect_working_format(strict),
        Ok(WorkingFormat::HighPrecision)
    );
    assert_eq!(
        capabilities().resolve_effect_working_format(relaxed),
        Ok(WorkingFormat::HighPrecision)
    );
    assert_eq!(
        only_reduced.resolve_effect_working_format(relaxed),
        Ok(WorkingFormat::ReducedPrecision)
    );
    for (device, policy) in [(only_reduced, strict), (neither, relaxed)] {
        assert_eq!(
            device.resolve_effect_working_format(policy),
            Err(unavailable(
                RuntimeOperation::EffectRendering,
                RuntimeCapabilityUnavailableReason::EffectPrecisionUnavailable { policy }
            ))
        );
    }
}

#[test]
fn renderers_without_an_adapter_serve_the_contract() {
    let mut renderer =
        Renderer::new(RendererIdentity { id: 1 }, Options::new(), backend(), Ok(None)).unwrap();
    assert!(renderer.backend.is_none());
    let surface = headless(&mut renderer);
    assert!(matches!(surface.backend, SurfaceBackend::ContractOnly { .. }));
    assert_eq!(
        renderer.render_device_identity(&surface),
        Err(unavailable(
            RuntimeOperation::SurfaceRendering,
            RuntimeCapabilityUnavailableReason::AdapterUnavailable
        ))
    );
    assert_eq!(
        renderer.runtime_capabilities(&surface),
        RuntimeCapabilities::Unavailable(RuntimeCapabilityUnavailableReason::AdapterUnavailable)
    );
    assert_eq!(
        Renderer::new(RendererIdentity { id: 1 }, Options::new(), backend(), Err(Error::SurfaceOutdated))
            .err(),
        Some(Error::SurfaceOutdated)
    );
}

#[test]
fn surfaces_come_into_being_by_their_attachment() {
    let mut renderer = renderer();
    let options = surface_options(Format::Rgba8);
    let size = Ok(PhysicalSize::new(4, 2));
    assert!(matches!(
        renderer.create_surface::<u32>(Attachment::Headless, options, Ok(()), size),
        Ok(SurfaceCreation::Created(Surface {
            backend: SurfaceBackend::Headless { resources: HeadlessResources::Pending, .. },
            ..
        }))
    ));
    assert!(matches!(
        renderer.create_surface::<u32>(Attachment::Headless, options, Ok(()), Ok(PhysicalSize::new(4, 0))),
        Ok(SurfaceCreation::Created(Surface {
            backend: SurfaceBackend::Headless { resources: HeadlessResources::Empty, .. },
            ..
        }))
    ));
    assert!(matches!(
        renderer.create_surface::<u32>(Attachment::Window { handle: 5 }, options, Ok(()), size),
        Ok(SurfaceCreation::CreatePresented { physical_size }) if physical_size == PhysicalSize::new(4, 2)
    ));
    let canvas = renderer
        .create_surface::<u32>(Attachment::WebCanvas { id: 5 }, options, Ok(()), size)
        .err()
        .unwrap();
    assert_eq!(
        canvas,
        Error::UnsupportedPrimitive(UnsupportedPrimitive {
            family: PrimitiveFamily::Surfaces,
            operation: PrimitiveOperation::WebCanvasSurface
        })
    );
    assert_eq!(canvas.code(), ErrorCode::UnsupportedPrimitive);
    let wrong_order = renderer
        .create_surface::<u32>(Attachment::Headless, surface_options(Format::Bgra8), Ok(()), size)
        .err()
        .unwrap();
    assert_eq!(wrong_order, Error::Surface(SurfaceFailure::HeadlessFormat));
    assert_eq!(wrong_order.code(), ErrorCode::SurfaceCreateFailed);
    assert_eq!(
        SurfaceFailure::HeadlessFormat.message(),
        "headless surfaces require Rgba8 format for Vello storage rendering"
    );
    assert_eq!(
        renderer
            .create_surface::<u32>(Attachment::Headless, options, Err(Error::UnsupportedBackend), size)
            .err(),
        Some(Error::UnsupportedBackend)
    );
}

#[test]
fn clean_frames_are_published_whole() {
    let mut renderer = renderer();
    let mut surface = headless(&mut renderer);
    let published = publish(&mut renderer, &mut surface, "first");
    assert_eq!(published.route, Some(RenderRoute::DirectVello));
    assert_eq!((published.commands, published.image_uploads, published.cache_hits), (3, 1, 5));
    assert_eq!(
        (published.encode_time, published.render_time, published.present_time, published.frame_time),
        (11, 12, 13, 14)
    );
    assert_eq!(renderer.stats(), published);
    assert_eq!(renderer.uploaded_images, HashSet::from([9]));
    assert_eq!(surface.last_parameters, Some(parameters(false)));
    assert!(matches!(
        renderer.read_headless(&surface),
        Ok(HeadlessReadback::Texture { texture: &"first", device_identity: DEVICE, .. })
    ));
}

#[test]
fn failed_frames_keep_the_previous_publication() {
    let mut renderer = renderer();
    let mut surface = headless(&mut renderer);
    let published = publish(&mut renderer, &mut surface, "first");
    let failed = renderer.conclude_frame(
        &mut surface,
        DEVICE,
        Err(Error::Render(RenderFailure::MalformedGraph)),
        Stats::default(),
        HashSet::new(),
        parameters(true),
        99,
    );
    assert_eq!(failed, Err(Error::Render(RenderFailure::MalformedGraph)));
    assert_eq!(renderer.stats(), published);
    assert_eq!(renderer.uploaded_images, HashSet::from([9]));
    assert_eq!(surface.last_parameters, Some(parameters(false)));
    assert!(matches!(
        renderer.read_headless(&surface),
        Ok(HeadlessReadback::Texture { texture: &"first", .. })
    ));
}

#[test]
fn frames_report_their_one_route() {
    let mut renderer = renderer();
    let mut surface = headless(&mut renderer);
    publish(&mut renderer, &mut surface, "first");
    let collected = CollectedStats { commands: 1, image_uploads: 0, cache_hits: u64::MAX - 2 };
    let graph = renderer.frame_stats(
        PreparedExecution::ExactGraph { working_format: WorkingFormat::ReducedPrecision },
        collected,
        parameters(false),
        0,
    );
    assert_eq!(graph.route, Some(RenderRoute::GpuGraph));
    assert_eq!(graph.effect_precision, Some(WorkingFormat::ReducedPrecision));
    assert_eq!((graph.vello_passes, graph.cache_hits), (0, u64::MAX - 2));
    let debug = renderer.frame_stats(PreparedExecution::DirectVello, collected, parameters(true), 0);
    assert_eq!(debug.effect_precision, None);
    assert_eq!((debug.vello_passes, debug.cache_hits), (1, u64::MAX));
}

#[test]
fn unpublished_headless_surfaces_have_nothing_to_read() {
    let mut renderer = renderer();
    let surface = headless(&mut renderer);
    assert_eq!(
        renderer.read_headless(&surface).err(),
        Some(unavailable(
            RuntimeOperation::SurfaceReadback,
            RuntimeCapabilityUnavailableReason::SurfaceUnavailable {
                state: RenderSurfaceAvailability::Uninitialized
            }
        ))
    );
    let empty: Surface<u32> = renderer
        .create_headless_surface(surface_options(Format::Rgba8), Ok(()), Ok(PhysicalSize::new(0, 2)))
        .unwrap();
    assert!(matches!(
        renderer.read_headless(&empty),
        Ok(HeadlessReadback::Empty(image)) if image.size() == PhysicalSize::new(0, 2)
    ));
    let shown = presented(&mut renderer);
    assert_eq!(renderer.read_headless(&shown).err(), Some(Error::UnsupportedBackend));
}

#[test]
fn foreign_and_stale_surfaces_are_refused() {
    let mut renderer = renderer();
    let mut foreign = headless(&mut renderer);
    foreign.renderer_identity = RendererIdentity { id: 8 };
    assert_eq!(
        renderer.render_device_identity(&foreign),
        Err(unavailable(
            RuntimeOperation::SurfaceRendering,
            mismatch(SurfaceIdentityMismatchKind::ForeignRenderer)
        ))
    );
    assert_eq!(
        renderer.runtime_capabilities(&foreign),
        RuntimeCapabilities::Unavailable(mismatch(SurfaceIdentityMismatchKind::ForeignRenderer))
    );
    let mut stale = headless(&mut renderer);
    stale.backend = SurfaceBackend::Headless {
        device_identity: DeviceSlotIdentity { slot: 0, generation: 2 },
        resources: HeadlessResources::Pending,
        physical_size: PhysicalSize::new(4, 2),
    };
    assert_eq!(
        renderer.read_headless(&stale).err(),
        Some(unavailable(
            RuntimeOperation::SurfaceReadback,
            mismatch(SurfaceIdentityMismatchKind::StaleDeviceGeneration)
        ))
    );
    assert_eq!(
        renderer.runtime_capabilities(&stale),
        RuntimeCapabilities::Unavailable(mismatch(SurfaceIdentityMismatchKind::StaleDeviceGeneration))
    );
    assert_eq!(
        renderer.dispatch_capabilities(DeviceSlotIdentity { slot: 0, generation: 2 }),
        Err(Error::Render(RenderFailure::CapabilitiesLost))
    );
    assert_eq!(renderer.dispatch_capabilities(DEVICE), Ok(capabilities()));
}

#[test]
fn ended_devices_end_every_operation() {
    let mut renderer = renderer();
    let mut surface = headless(&mut renderer);
    publish(&mut renderer, &mut surface, "first");
    assert_eq!(renderer.render_device_identity(&surface), Ok(DEVICE));
    let devices = renderer.backend.as_mut().unwrap();
    devices.signal_device_terminal(DEVICE, LOST);
    devices.signal_device_terminal(
        DEVICE,
        RuntimeCapabilityUnavailableReason::GpuFault { fault: GpuFaultKind::OutOfMemory },
    );
    assert_eq!(
        renderer.render_device_identity(&surface),
        Err(unavailable(RuntimeOperation::SurfaceRendering, LOST))
    );
    assert_eq!(
        renderer.read_headless(&surface).err(),
        Some(unavailable(RuntimeOperation::SurfaceReadback, LOST))
    );
    assert_eq!(renderer.runtime_capabilities(&surface), RuntimeCapabilities::Unavailable(LOST));
    assert_eq!(
        renderer
            .create_headless_surface::<u32>(
                surface_options(Format::Rgba8),
                Ok(()),
                Ok(PhysicalSize::new(1, 1))
            )
            .err(),
        Some(unavailable(RuntimeOperation::AdapterSelection, LOST))
    );
}

#[test]
fn observing_a_signal_changes_no_answer() {
    let mut devices = backend();
    devices.signal_device_terminal(DEVICE, LOST);
    assert!(devices.devices[0].terminal.is_none());
    devices.observe_device_terminal(DEVICE);
    assert_eq!(devices.devices[0].terminal, Some(LOST));
    assert_eq!(devices.terminal_reason(DEVICE), Some(LOST));
    assert!(devices.has_device_slot(DEVICE));
    assert_eq!(devices.device_capabilities(DEVICE), Some(capabilities()));
}

#[test]
fn available_capabilities_name_the_output_format() {
    let mut renderer = renderer();
    let mut surface = presented(&mut renderer);
    renderer
        .commit_presented_configuration(
            &mut surface,
            RuntimeOperation::SurfaceRendering,
            NativeFormat::Bgra8Unorm,
        )
        .unwrap();
    let report = match renderer.runtime_capabilities(&surface) {
        RuntimeCapabilities::Available(report) => report,
        RuntimeCapabilities::Unavailable(_) => panic!("a configured surface is available"),
    };
    assert_eq!(report.output_format, Format::Bgra8);
    assert_eq!(report.max_effect_texture_dimension, 8192);
}

#[test]
fn presented_surfaces_are_configured_before_use() {
    let mut renderer = renderer();
    let mut surface = presented(&mut renderer);
    let wanted = renderer
        .presented_configuration(&surface, RuntimeOperation::SurfaceRendering)
        .unwrap()
        .unwrap();
    assert_eq!(wanted.physical_size, PhysicalSize::new(4, 2));
    assert_eq!(wanted.present_mode, PresentMode::Fifo);
    renderer.set_surface_resizing(&mut surface, true).unwrap();
    renderer
        .commit_presented_configuration(
            &mut surface,
            RuntimeOperation::SurfaceRendering,
            NativeFormat::Rgba8Unorm,
        )
        .unwrap();
    assert!(matches!(
        &surface.backend,
        SurfaceBackend::Presented { state, .. }
            if state.lifecycle == (PresentedLifecycle::Ready { resize: ResizeState::Resizing })
    ));
    assert_eq!(
        renderer.presented_configuration(&surface, RuntimeOperation::SurfaceRendering),
        Ok(None)
    );
}

#[test]
fn resizing_again_changes_nothing() {
    let mut renderer = renderer();
    let mut surface = presented(&mut renderer);
    let lifecycle = |surface: &Surface<&'static str>| match &surface.backend {
        SurfaceBackend::Presented { state, .. } => state.lifecycle,
        _ => panic!("the surface is presented"),
    };
    let idle = lifecycle(&surface);
    for (resizing, wanted) in [(true, ResizeState::Resizing), (false, ResizeState::Idle)] {
        renderer.set_surface_resizing(&mut surface, resizing).unwrap();
        let once = lifecycle(&surface);
        assert_eq!(once.resize_state(), wanted);
        renderer.set_surface_resizing(&mut surface, resizing).unwrap();
        assert_eq!(lifecycle(&surface), once);
    }
    assert_eq!(lifecycle(&surface), idle);
}

#[test]
fn resuming_takes_what_the_surface_needs() {
    let mut renderer = renderer();
    let surface = presented(&mut renderer);
    assert_eq!(
        renderer.resume_surface(&surface, PresentedResumeAction::NoOp, Ok(())),
        Ok(ResumeStep::Done)
    );
    assert_eq!(
        renderer.resume_surface(&surface, PresentedResumeAction::ConfigureExisting, Ok(())),
        Ok(ResumeStep::ConfigureExisting)
    );
    for (action, preserve_renderer_identity) in
        [(PresentedResumeAction::Configure, true), (PresentedResumeAction::Recreate, false)]
    {
        assert_eq!(
            renderer.resume_surface(&surface, action, Ok(())),
            Ok(ResumeStep::Recreate {
                options: surface.options,
                preferred_device: DEVICE,
                resizing: ResizeState::Idle,
                preserve_renderer_identity
            })
        );
    }
    let quiet = headless(&mut renderer);
    assert_eq!(
        renderer.resume_surface(&quiet, PresentedResumeAction::NoOp, Ok(())),
        Err(Error::UnsupportedBackend)
    );
}

#[test]
fn recreated_surfaces_keep_what_the_application_said() {
    let mut renderer = renderer();
    let mut surface = presented(&mut renderer);
    surface.last_parameters = Some(parameters(true));
    let mut next = presented(&mut renderer);
    next.renderer_identity = RendererIdentity { id: 70 };
    let options = surface.options;
    next.options.width = scalar(99.0);
    next.options.present_mode = PresentMode::Mailbox;
    replace_recreated_surface(&mut surface, next, ResizeState::Resizing, true);
    assert_eq!(surface.last_parameters, Some(parameters(true)));
    assert_eq!(surface.renderer_identity, RendererIdentity { id: 7 });
    assert_eq!(surface.options, options);
    assert!(matches!(
        &surface.backend,
        SurfaceBackend::Presented { state, .. } if state.lifecycle.resize_state() == ResizeState::Resizing
    ));
}

#[test]
fn outdated_frames_report_a_failed_configuration() {
    assert_eq!(failed_frame_error(Error::SurfaceOutdated, Ok(())), Error::SurfaceOutdated);
    assert_eq!(
        failed_frame_error(Error::SurfaceOutdated, Err(Error::UnsupportedBackend)),
        Error::UnsupportedBackend
    );
    assert_eq!(
        failed_frame_error(
            Error::Render(RenderFailure::MalformedGraph),
            Err(Error::UnsupportedBackend)
        ),
        Error::Render(RenderFailure::MalformedGraph)
    );
}

#[test]
fn frames_take_exactly_one_route() {
    let mut observation = DispatchObservation::new();
    let direct: Result<RendererFrameDispatch<u32, u32>, Error> = classify_frame_dispatch(
        &mut observation,
        FramePlan::<u32, u8>::DirectVello(4),
        Err(Error::UnsupportedBackend),
    );
    assert!(matches!(direct, Ok(RendererFrameDispatch::DirectVello(4))));
    let graph: Result<RendererFrameDispatch<u32, u32>, Error> = classify_frame_dispatch(
        &mut observation,
        FramePlan::GpuGraph(vec![GraphLoweringPassKind::ClearRoot], 9u8),
        Ok(ExecutableGraphDispatchEligibility::ExactC09(6)),
    );
    assert!(matches!(graph, Ok(RendererFrameDispatch::ExactGraph(ExactSurfaceGraph::C09(6)))));
    let future: Result<RendererFrameDispatch<u32, u32>, Error> = classify_frame_dispatch(
        &mut observation,
        FramePlan::GpuGraph(vec![GraphLoweringPassKind::CopyBackdrop], 9u8),
        Ok(ExecutableGraphDispatchEligibility::FuturePasses),
    );
    assert_eq!(future.err().map(|error| error.code()), Some(ErrorCode::UnsupportedPrimitive));
    assert_eq!(
        observation,
        DispatchObservation {
            boundary_invocations: 3,
            direct_vello_routes: 1,
            exact_c08_graph_routes: 0,
            exact_c09_graph_routes: 1,
            exact_c10_fixture_routes: 0,
            exact_c11_fixture_routes: 0,
            exact_c12_graph_routes: 0,
            exact_c12_fixture_routes: 0,
            future_pass_rejections: 1,
        }
    );
}

#[test]
fn future_graphs_name_their_broadest_operation() {
    let color = GraphLoweringPassKind::ColorFilter { has_payload: true };
    let blur = GraphLoweringPassKind::BlurVertical { has_payload: true };
    let shadow =
        GraphLoweringPassKind::Composite { kind: Some(GraphLoweringCompositeKind::DropShadow) };
    let backdrop = GraphLoweringPassKind::CopyBackdrop;
    let broken = GraphLoweringPassKind::VelloCapture { has_payload: false };
    let unsupported =
        |family, operation| Error::UnsupportedPrimitive(UnsupportedPrimitive { family, operation });
    for (passes, error) in [
        (
            vec![color],
            unsupported(PrimitiveFamily::Filters, PrimitiveOperation::GpuColorFilterExecution),
        ),
        (
            vec![color, blur],
            unsupported(PrimitiveFamily::Filters, PrimitiveOperation::GpuBlurFilterExecution),
        ),
        (
            vec![color, blur, shadow],
            unsupported(PrimitiveFamily::Filters, PrimitiveOperation::GpuDropShadowFilterExecution),
        ),
        (
            vec![backdrop, shadow, color],
            unsupported(
                PrimitiveFamily::OffscreenPipeline,
                PrimitiveOperation::BroadBackdropExecution,
            ),
        ),
        (vec![backdrop, broken], Error::Render(RenderFailure::MalformedGraph)),
        (vec![GraphLoweringPassKind::Present], Error::Render(RenderFailure::NoUnavailablePass)),
    ] {
        assert_eq!(reject_future_graph_with_typed_diagnostic(&passes), error);
    }
    assert_eq!(
        RenderFailure::MalformedGraph.message(),
        "a malformed GPU graph reached production dispatch"
    );
    let closed: Result<ExecutableGraphDispatchEligibility<u32>, Error> =
        Ok(ExecutableGraphDispatchEligibility::ExactC08(1));
    assert_eq!(future_graph_diagnostic(&[color], closed), Ok(None));
    let open: Result<ExecutableGraphDispatchEligibility<u32>, Error> =
        Ok(ExecutableGraphDispatchEligibility::FuturePasses);
    assert_eq!(
        future_graph_diagnostic(&[blur], open),
        Ok(Some(UnsupportedPrimitive {
            family: PrimitiveFamily::Filters,
            operation: PrimitiveOperation::GpuBlurFilterExecution
        }))
    );
}

#[test]
fn capture_grids_match_field_by_field() {
    let grid = CaptureGrid {
        texel_origin_x: scalar(0.0),
        texel_origin_y: scalar(-0.5),
        extent: PhysicalSize::new(4, 4),
        raster_scale: scalar(1.0),
    };
    let negative_zero = CaptureGrid { texel_origin_x: scalar(-0.0), ..grid };
    let larger = CaptureGrid { extent: PhysicalSize::new(4, 5), ..grid };
    assert!(capture_grids_match(&[grid], &[grid]));
    assert!(!capture_grids_match(&[grid], &[larger]));
    assert!(!capture_grids_match(&[grid], &[grid, grid]));
    assert!(capture_grids_match(&[], &[]));
    assert!(capture_grids_match(&[grid], &[negative_zero]));
}

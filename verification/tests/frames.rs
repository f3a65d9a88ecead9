use std::collections::HashSet;

use surgeist_render::dispatch::{
    classify_fixture_dispatch, CaptureGrid, DispatchObservation, ExactSurfaceGraph,
    ExecutableGraphDispatchEligibility, ExecutableGraphWorkingFormatRequest, FrameFixture,
    FramePlan, GraphLoweringPassKind, RendererFrameDispatch,
};
use surgeist_render::error::{Error, ErrorCode, ExactGraph, PreparationFailure, RenderFailure};
use surgeist_render::fixture::{C08PreparableGraph, PlannedSpine};
use surgeist_render::frame::{
    FrameConclusion, FrameContext, FrameExecutor, FrameIngress, FrameRun, FrameStep,
    PreparedRender,
};
use surgeist_render::geometry::PhysicalSize;
use surgeist_render::options::{Antialiasing, EffectQualityPolicy, Options};
use surgeist_render::pass::c08::{C08ExecutionFacts, ExecutableVelloCaptureFacts};
use surgeist_render::pass::c08_malformed::identity;
use surgeist_render::pass::closed::{
    BackdropFacts, BlurFacts, ClosedExecutableGraph, ColorFilterFacts,
};
use surgeist_render::pass::model::{
    LoweredGraphPlan, Rect, RuntimeBlur, RuntimeBlurAxis, RuntimeBlurInput, RuntimePassId,
    RuntimeResourceFormat, RuntimeResourceId, RuntimeResourceProducer, RuntimeResourceRequest,
    RuntimeResourceRole, RuntimeSamplingEdge, RuntimeSpatialDescriptor, RuntimeSpatialMapping,
};
use surgeist_render::renderer::{
    CollectedStats, PreparedExecution, RenderRoute, Renderer, Stats, SurfaceFrameCommit,
};
use surgeist_render::runtime::{
    Backend, DeviceCapabilities, DeviceLossReason, DeviceSlot, DeviceSlotIdentity, Format,
    RuntimeCapabilityUnavailable, RuntimeCapabilityUnavailableReason, RuntimeOperation,
    WorkingFormat,
};
use surgeist_render::scalar::Scalar;
use surgeist_render::surface::{
    Attachment, HeadlessResources, NativeFormat, Parameters, PresentMode, RendererIdentity,
    Surface, SurfaceBackend, SurfaceOptions,
};

const DEVICE: DeviceSlotIdentity = DeviceSlotIdentity { slot: 2, generation: 9 };

const HIGH: WorkingFormat = WorkingFormat::HighPrecision;

type Eligible<P> = Result<ExecutableGraphDispatchEligibility<P>, Error>;
type Bound = Result<(RendererFrameDispatch<u8, u8>, PreparedExecution), Error>;
type Request = ExecutableGraphWorkingFormatRequest;

fn scalar(value: f64) -> Scalar {
    Scalar::from_bits(value.to_bits())
}

fn capable(options: Options, high_precision: bool, reduced_precision: bool) -> Renderer {
    let backend = Backend {
        devices: vec![DeviceSlot {
            identity: DEVICE,
            signal: None,
            terminal: None,
            capabilities: Some(DeviceCapabilities {
                high_precision,
                reduced_precision,
                max_texture_dimension: 4096,
            }),
        }],
    };
    Renderer::new(RendererIdentity { id: 1 }, options, backend, Ok(Some(DEVICE))).unwrap()
}

fn renderer() -> Renderer {
    capable(Options::new(), true, true)
}

/// A frame of one graph, which is numbered four.
fn numbered(_: FrameContext) -> Result<FramePlan<u8, u32>, Error> {
    Ok(FramePlan::GpuGraph(vec![GraphLoweringPassKind::ClearRoot], 4))
}

fn accepted(
    _: &u32,
    _: Format,
    _: Request,
    _: DeviceCapabilities,
) -> Result<ExecutableGraphDispatchEligibility<u8>, Error> {
    Ok(ExecutableGraphDispatchEligibility::ExactC09(3))
}

fn options() -> SurfaceOptions {
    SurfaceOptions {
        width: scalar(4.0),
        height: scalar(4.0),
        scale: scalar(1.0),
        format: Format::Rgba8,
        present_mode: PresentMode::Mailbox,
    }
}

fn headless(renderer: &mut Renderer) -> Surface<u32> {
    renderer.create_headless_surface(options(), Ok(()), Ok(PhysicalSize::new(4, 4))).unwrap()
}

fn presented(renderer: &mut Renderer) -> Surface<u32> {
    renderer
        .presented_surface_created(
            Attachment::Window { handle: 3 },
            options(),
            PhysicalSize::new(4, 4),
            DEVICE,
            NativeFormat::Other,
            RuntimeOperation::SurfaceRendering,
        )
        .unwrap()
}

fn parameters() -> Parameters {
    Parameters {
        base_red: scalar(1.0),
        base_green: scalar(0.0),
        base_blue: scalar(0.0),
        base_alpha: scalar(1.0),
        debug: true,
    }
}

fn run(ingress: FrameIngress, graph: bool) -> FrameRun {
    FrameRun {
        ingress,
        device_identity: DEVICE,
        execution: if graph {
            PreparedExecution::ExactGraph { working_format: WorkingFormat::HighPrecision }
        } else {
            PreparedExecution::DirectVello
        },
        parameters: parameters(),
    }
}

const COLLECTED: CollectedStats = CollectedStats { commands: 2, image_uploads: 1, cache_hits: 4 };

#[test]
fn scenes_are_rendered_in_one_run() {
    let mut renderer = renderer();
    let mut surface = headless(&mut renderer);
    let mut observation = DispatchObservation::new();
    let prepared: PreparedRender<&str, u8> = renderer
        .render(
            &mut observation,
            &surface,
            parameters(),
            |context| {
                assert_eq!(context.width, scalar(4.0));
                assert_eq!(context.antialiasing, Antialiasing::Area);
                assert_eq!((context.base_red, context.base_green), (scalar(1.0), scalar(0.0)));
                Ok::<FramePlan<&str, ()>, Error>(FramePlan::DirectVello("commands"))
            },
            |_, _, _, _| Err(Error::UnsupportedBackend),
        )
        .unwrap();
    assert!(matches!(prepared.dispatch, RendererFrameDispatch::DirectVello("commands")));
    let run = prepared.run();
    assert_eq!(run, self::run(FrameIngress::Scene, false));
    assert_eq!(
        run.start(&renderer, &surface),
        FrameStep::Execute { executor: FrameExecutor::DirectVello }
    );
    let conclusion = run.executed(
        &mut renderer,
        &mut surface,
        Ok(SurfaceFrameCommit { texture: Some(21), render_time: 8, present_time: 9 }),
        COLLECTED,
        7,
        HashSet::from([5]),
        10,
    );
    let published = match conclusion {
        FrameConclusion::Published { stats } => stats,
        _ => panic!("a clean frame is published"),
    };
    assert_eq!(published.route, Some(RenderRoute::DirectVello));
    assert_eq!((published.encode_time, published.frame_time), (7, 10));
    assert_eq!(renderer.stats(), published);
    assert!(matches!(
        surface.backend,
        SurfaceBackend::Headless { resources: HeadlessResources::Ready { texture: 21 }, .. }
    ));
}

#[test]
fn frames_are_refused_before_they_are_planned() {
    let mut renderer = renderer();
    let mut surface = headless(&mut renderer);
    let mut observation = DispatchObservation::new();
    let failed: Result<PreparedRender<u8, u8>, Error> = renderer.render(
        &mut observation,
        &surface,
        parameters(),
        |_| Err::<FramePlan<u8, u32>, Error>(Error::SurfaceOutdated),
        accepted,
    );
    assert_eq!(failed.err(), Some(Error::SurfaceOutdated));
    let graph =
        renderer.render(&mut observation, &surface, parameters(), numbered, accepted).ok().unwrap();
    assert_eq!(graph.run(), run(FrameIngress::Scene, true));
    assert_eq!(observation.boundary_invocations, 1);
    surface.renderer_identity.id += 1;
    let foreign: Result<PreparedRender<u8, u8>, Error> = renderer.render(
        &mut observation,
        &surface,
        parameters(),
        |_| -> Result<FramePlan<u8, u32>, Error> { panic!("a refused frame is not planned") },
        accepted,
    );
    assert_eq!(foreign.err().map(Error::code), Some(ErrorCode::RuntimeUnavailable));
    assert_eq!(observation.boundary_invocations, 1);
}

fn precision_unavailable(policy: EffectQualityPolicy) -> Error {
    Error::Unavailable(RuntimeCapabilityUnavailable {
        operation: RuntimeOperation::EffectRendering,
        reason: RuntimeCapabilityUnavailableReason::EffectPrecisionUnavailable { policy },
    })
}

#[test]
fn required_precision_refuses_devices_without_it() {
    let mut renderer = capable(Options::new(), false, true);
    let surface = headless(&mut renderer);
    let mut observation = DispatchObservation::new();
    let before = renderer.stats();
    let refused = renderer.render(&mut observation, &surface, parameters(), numbered, accepted);
    let policy = EffectQualityPolicy::RequireHighPrecision;
    assert_eq!(refused.err(), Some(precision_unavailable(policy)));
    assert_eq!(renderer.stats(), before);
    assert_eq!(observation.exact_c09_graph_routes, 0);
    // A raster pass has no working format.
    let direct = renderer.render(
        &mut observation,
        &surface,
        parameters(),
        |_| Ok(FramePlan::DirectVello(1u8)),
        accepted,
    );
    assert_eq!(direct.ok().unwrap().execution, PreparedExecution::DirectVello);
    // What the classifier says comes first.
    let outside = renderer.render(
        &mut observation,
        &surface,
        parameters(),
        numbered,
        |_, _, _, _| -> Eligible<u8> { Err(Error::UnsupportedBackend) },
    );
    assert_eq!(outside.err(), Some(Error::UnsupportedBackend));
}

#[test]
fn allowed_precision_is_reduced_only_where_it_must_be() {
    let policy = EffectQualityPolicy::AllowReducedPrecision;
    for (high, reduced, expected) in [
        (true, true, Some(WorkingFormat::HighPrecision)),
        (true, false, Some(WorkingFormat::HighPrecision)),
        (false, true, Some(WorkingFormat::ReducedPrecision)),
        (false, false, None),
    ] {
        let options = Options::new().with_effect_quality_policy(policy);
        let mut renderer = capable(options, high, reduced);
        let mut surface = headless(&mut renderer);
        let mut observation = DispatchObservation::new();
        let prepared = renderer.render(
            &mut observation,
            &surface,
            parameters(),
            numbered,
            |graph, format, request, capabilities| -> Eligible<u8> {
                assert_eq!((*graph, format), (4, Format::Rgba8));
                assert_eq!(request, Request::ConfiguredPolicy(policy));
                assert_eq!(capabilities.high_precision, high);
                Ok(ExecutableGraphDispatchEligibility::ExactC09(3))
            },
        );
        let Some(working_format) = expected else {
            assert_eq!(prepared.err(), Some(precision_unavailable(policy)));
            continue;
        };
        let run = prepared.ok().unwrap().run();
        assert_eq!(run.execution, PreparedExecution::ExactGraph { working_format });
        run.executed(
            &mut renderer,
            &mut surface,
            Ok(SurfaceFrameCommit { texture: Some(1), render_time: 0, present_time: 0 }),
            COLLECTED,
            0,
            HashSet::new(),
            0,
        );
        assert_eq!(renderer.stats().route, Some(RenderRoute::GpuGraph));
        assert_eq!(renderer.stats().effect_precision, Some(working_format));
    }
}

#[test]
fn exact_formats_are_taken_as_they_are_asked_for() {
    let none = DeviceCapabilities {
        high_precision: false,
        reduced_precision: false,
        max_texture_dimension: 1,
    };
    assert_eq!(Request::Exact(WorkingFormat::ReducedPrecision).resolve(none), Ok(WorkingFormat::ReducedPrecision));
    let policy = EffectQualityPolicy::AllowReducedPrecision;
    assert_eq!(Request::ConfiguredPolicy(policy).resolve(none), Err(precision_unavailable(policy)));
}

#[test]
fn headless_surfaces_take_their_size_and_scale() {
    let mut renderer = renderer();
    let number = |value: f64| Scalar::from_bits(value.to_bits());
    let surface: Surface<u32> = renderer
        .create_headless(
            number(2.0),
            number(3.0),
            number(1.5),
            options(),
            Ok(()),
            Ok(PhysicalSize::new(3, 5)),
        )
        .unwrap();
    assert_eq!(surface.options.width, number(2.0));
    assert_eq!(surface.options.scale, number(1.5));
    assert_eq!(surface.options.format, options().format);
    let refused: Result<Surface<u32>, Error> = renderer.create_headless(
        number(2.0),
        number(3.0),
        number(0.0),
        options(),
        Err(Error::UnsupportedBackend),
        Ok(PhysicalSize::new(3, 5)),
    );
    assert_eq!(refused.err(), Some(Error::UnsupportedBackend));
}

#[test]
fn planning_failures_come_in_order() {
    let mut renderer = renderer();
    let surface = headless(&mut renderer);
    let mut observation = DispatchObservation::new();
    let failed: Bound = renderer.prepare_render_execution(
        &mut observation,
        &surface,
        parameters(),
        DeviceSlotIdentity { slot: 2, generation: 8 },
        |_| Err::<FramePlan<u8, u32>, Error>(Error::SurfaceOutdated),
        accepted,
    );
    assert_eq!(failed.err(), Some(Error::SurfaceOutdated));
    let lost: Bound = renderer.prepare_render_execution(
        &mut observation,
        &surface,
        parameters(),
        DeviceSlotIdentity { slot: 2, generation: 8 },
        numbered,
        accepted,
    );
    assert_eq!(lost.err(), Some(Error::Render(RenderFailure::CapabilitiesLost)));
    assert_eq!(observation, DispatchObservation::new());
    let graph: Bound = renderer.prepare_render_execution(
        &mut observation,
        &surface,
        parameters(),
        DEVICE,
        numbered,
        |_, _, _, capabilities| {
            assert_eq!(capabilities.max_texture_dimension, 4096);
            Ok(ExecutableGraphDispatchEligibility::ExactC08(6))
        },
    );
    assert!(matches!(
        graph,
        Ok((
            RendererFrameDispatch::ExactGraph(ExactSurfaceGraph::C08(6)),
            PreparedExecution::ExactGraph { working_format: WorkingFormat::HighPrecision }
        ))
    ));
    assert_eq!(observation.exact_c08_graph_routes, 1);
}

#[test]
fn presented_frames_are_configured_first() {
    let mut renderer = renderer();
    let mut surface = presented(&mut renderer);
    let run = run(FrameIngress::Scene, true);
    assert!(matches!(
        run.start(&renderer, &surface),
        FrameStep::Configure { configuration } if configuration.physical_size == PhysicalSize::new(4, 4)
    ));
    assert_eq!(
        run.configured(&mut renderer, &mut surface, Err(Error::UnsupportedBackend)),
        FrameStep::Failed { error: Error::UnsupportedBackend }
    );
    assert_eq!(
        run.configured(&mut renderer, &mut surface, Ok(NativeFormat::Bgra8Unorm)),
        FrameStep::Execute { executor: FrameExecutor::PresentedGraph }
    );
    assert_eq!(
        run.start(&renderer, &surface),
        FrameStep::Execute { executor: FrameExecutor::PresentedGraph }
    );
}

#[test]
fn devices_that_end_meanwhile_stop_the_frame() {
    let mut renderer = renderer();
    let mut surface = presented(&mut renderer);
    let lost = RuntimeCapabilityUnavailableReason::DeviceLost { reason: DeviceLossReason::Destroyed };
    renderer.backend.as_mut().unwrap().signal_device_terminal(DEVICE, lost);
    let expected = Error::Unavailable(RuntimeCapabilityUnavailable {
        operation: RuntimeOperation::SurfaceRendering,
        reason: lost,
    });
    assert_eq!(
        run(FrameIngress::Scene, true).configured(
            &mut renderer,
            &mut surface,
            Ok(NativeFormat::Rgba8Unorm)
        ),
        FrameStep::Failed { error: expected }
    );
    assert!(matches!(
        surface.backend,
        SurfaceBackend::Presented { state, .. } if state.needs_configuration
    ));
}

#[test]
fn failures_anywhere_keep_the_last_publication() {
    let mut renderer = renderer();
    let mut surface = headless(&mut renderer);
    let run = run(FrameIngress::Scene, false);
    run.executed(
        &mut renderer,
        &mut surface,
        Ok(SurfaceFrameCommit { texture: Some(1), render_time: 0, present_time: 0 }),
        COLLECTED,
        1,
        HashSet::from([1]),
        2,
    );
    let before = renderer.stats();
    let conclusion = run.executed(
        &mut renderer,
        &mut surface,
        Err(Error::Render(RenderFailure::MalformedGraph)),
        COLLECTED,
        1,
        HashSet::new(),
        3,
    );
    assert_eq!(
        conclusion,
        FrameConclusion::Failed { error: Error::Render(RenderFailure::MalformedGraph) }
    );
    assert_eq!(
        run.configured(&mut renderer, &mut surface, Err(Error::UnsupportedBackend)),
        FrameStep::Failed { error: Error::UnsupportedBackend }
    );
    assert_eq!(renderer.stats(), before);
    assert_eq!(renderer.uploaded_images, HashSet::from([1]));
    assert!(matches!(
        surface.backend,
        SurfaceBackend::Headless { resources: HeadlessResources::Ready { texture: 1 }, .. }
    ));
}

#[test]
fn outdated_surfaces_are_configured_again() {
    let mut renderer = renderer();
    let mut surface = presented(&mut renderer);
    let outdated = || Err(Error::SurfaceOutdated);
    let continuous = run(FrameIngress::ColorFilters, true);
    assert!(matches!(
        continuous.executed(
            &mut renderer,
            &mut surface,
            outdated(),
            COLLECTED,
            0,
            HashSet::new(),
            0
        ),
        FrameConclusion::Reconfigure { error: Error::SurfaceOutdated, .. }
    ));
    assert_eq!(
        continuous.reconfigured(
            &mut renderer,
            &mut surface,
            Error::SurfaceOutdated,
            Err(Error::UnsupportedBackend)
        ),
        Error::UnsupportedBackend
    );
    assert_eq!(
        continuous.reconfigured(
            &mut renderer,
            &mut surface,
            Error::SurfaceOutdated,
            Ok(NativeFormat::Rgba8Unorm)
        ),
        Error::SurfaceOutdated
    );
    // The surface is configured now, so there is nothing left to do before the error.
    assert_eq!(
        continuous.executed(
            &mut renderer,
            &mut surface,
            outdated(),
            COLLECTED,
            0,
            HashSet::new(),
            0
        ),
        FrameConclusion::Failed { error: Error::SurfaceOutdated }
    );
    let mut other = presented(&mut renderer);
    assert_eq!(
        run(FrameIngress::SpatialFilters, true).executed(
            &mut renderer,
            &mut other,
            outdated(),
            COLLECTED,
            0,
            HashSet::new(),
            0
        ),
        FrameConclusion::Failed { error: Error::SurfaceOutdated }
    );
}

#[test]
fn ingress_decides_executor_and_cache_hits() {
    let mut renderer = renderer();
    let surface = headless(&mut renderer);
    let shown = presented(&mut renderer);
    renderer.stats.cache_hits = 100;
    assert_eq!(run(FrameIngress::Scene, true).stats(&renderer, COLLECTED, 0).cache_hits, 104);
    assert_eq!(run(FrameIngress::Backdrop, true).stats(&renderer, COLLECTED, 0).cache_hits, 4);
    assert_eq!(
        run(FrameIngress::Scene, true).start(&renderer, &surface),
        FrameStep::Execute { executor: FrameExecutor::HeadlessGraph }
    );
    let mut shown = shown;
    assert_eq!(
        run(FrameIngress::Backdrop, true).configured(
            &mut renderer,
            &mut shown,
            Ok(NativeFormat::Rgba8Unorm)
        ),
        FrameStep::Execute { executor: FrameExecutor::HeadlessGraph }
    );
}

#[test]
fn fixtures_take_their_own_route() {
    let mut observation = DispatchObservation::new();
    for (fixture, expected) in [
        (FrameFixture::ColorFilters, "C10(1)"),
        (FrameFixture::SpatialFilters, "C11(1)"),
        (FrameFixture::Backdrop, "C12(1)"),
    ] {
        let graph = classify_fixture_dispatch(&mut observation, fixture, Ok(1u8)).unwrap();
        assert_eq!(format!("{:?}", graph), expected);
    }
    let refused: Result<ExactSurfaceGraph<u8>, Error> = classify_fixture_dispatch(
        &mut observation,
        FrameFixture::Backdrop,
        Err(Error::UnsupportedBackend),
    );
    assert_eq!(refused.err(), Some(Error::UnsupportedBackend));
    assert_eq!(observation.boundary_invocations, 4);
    assert_eq!(
        (
            observation.exact_c10_fixture_routes,
            observation.exact_c11_fixture_routes,
            observation.exact_c12_fixture_routes
        ),
        (1, 1, 1)
    );
}

fn spatial(x: i32) -> RuntimeSpatialDescriptor {
    RuntimeSpatialDescriptor {
        logical_bounds: Rect {
            x: scalar(0.0),
            y: scalar(0.0),
            width: scalar(1.0),
            height: scalar(1.0),
        },
        device_x: x,
        device_y: 0,
        device_extent: PhysicalSize::new(16, 8),
        texel_x: scalar(0.0),
        texel_y: scalar(0.5),
        raster_scale: scalar(2.0),
    }
}

fn root(id: u64, x: i32) -> RuntimeResourceRequest {
    RuntimeResourceRequest {
        id: RuntimeResourceId(id),
        role: RuntimeResourceRole::RootWorkingImage,
        format: RuntimeResourceFormat::Working(WorkingFormat::HighPrecision),
        producer: RuntimeResourceProducer::Pass(RuntimePassId(0)),
        expected_reads: 1,
        last_use: RuntimePassId(1),
        spatial: spatial(x),
        import: None,
    }
}

fn closed() -> ClosedExecutableGraph {
    ClosedExecutableGraph {
        lowered: LoweredGraphPlan {
            passes: Vec::new(),
            resources: vec![root(0, 0), root(1, 1), root(2, 2)],
            root_working_image: RuntimeResourceId(0),
            final_present: RuntimePassId(1),
            working_format: WorkingFormat::HighPrecision,
            output_format: Format::Rgba8,
        },
        layer_compositions: Vec::new(),
        color_filters: Vec::new(),
        blurs: Vec::new(),
        drop_shadows: Vec::new(),
        filter_steps: Vec::new(),
        backdrops: Vec::new(),
    }
}

fn graph_plan() -> Result<FramePlan<u8, u32>, Error> {
    Ok(FramePlan::GpuGraph(vec![GraphLoweringPassKind::ClearRoot], 4))
}

fn planned_spine(height: u32) -> Result<PlannedSpine<u32>, Error> {
    Ok(PlannedSpine {
        passes: vec![GraphLoweringPassKind::ClearRoot],
        graph: 4,
        captures: vec![grid(height)],
    })
}

fn grid(height: u32) -> CaptureGrid {
    CaptureGrid {
        texel_origin_x: scalar(0.0),
        texel_origin_y: scalar(0.5),
        extent: PhysicalSize::new(16, height),
        raster_scale: scalar(2.0),
    }
}

fn spine_graph() -> C08PreparableGraph {
    C08PreparableGraph {
        closed: closed(),
        execution: C08ExecutionFacts {
            working_format: WorkingFormat::HighPrecision,
            output_format: Format::Rgba8,
            captures: vec![ExecutableVelloCaptureFacts {
                pass: RuntimePassId(1),
                target: RuntimeResourceId(1),
                antialiasing: Antialiasing::Area,
                target_extent: PhysicalSize::new(16, 8),
                texel_x: scalar(0.0),
                texel_y: scalar(0.5),
                raster_scale: scalar(2.0),
                initial_transform: identity(),
            }],
        },
    }
}

#[test]
fn forced_spines_keep_their_capture_grids() {
    let mut renderer = renderer();
    let surface = headless(&mut renderer);
    let mut observation = DispatchObservation::new();
    let exact = |graph: &u32,
                 format: Format,
                 request: Request,
                 _: DeviceCapabilities|
     -> Eligible<C08PreparableGraph> {
        assert_eq!((*graph, format), (4, Format::Rgba8));
        assert_eq!(request, Request::Exact(WorkingFormat::ReducedPrecision));
        Ok(ExecutableGraphDispatchEligibility::ExactC08(spine_graph()))
    };
    let reduced = WorkingFormat::ReducedPrecision;
    let prepared = renderer
        .prepare_forced_c08_graph(
            &mut observation,
            &surface,
            parameters(),
            reduced,
            |context| {
                assert_eq!(context.height, scalar(4.0));
                planned_spine(8)
            },
            exact,
        )
        .unwrap();
    assert_eq!(prepared.device_identity, DEVICE);
    assert_eq!(prepared.output_extent, PhysicalSize::new(16, 8));
    let frame = prepared.run();
    assert_eq!(frame.ingress, FrameIngress::ForcedSpine);
    assert_eq!(frame.execution, PreparedExecution::ExactGraph { working_format: reduced });
    assert_eq!(frame.parameters, parameters());
    let render = prepared.rendered(Stats::default());
    assert_eq!(render.captures, vec![grid(8)]);
    assert_eq!(render.working_format, reduced);
    assert_eq!(observation.exact_c08_graph_routes, 1);
    let differs = renderer.prepare_forced_c08_graph(
        &mut observation,
        &surface,
        parameters(),
        reduced,
        |_| planned_spine(9),
        exact,
    );
    assert_eq!(differs.err(), Some(Error::Render(RenderFailure::CaptureGridDiffers)));
    let outside = renderer.prepare_forced_c08_graph(
        &mut observation,
        &surface,
        parameters(),
        reduced,
        |_| planned_spine(8),
        |_, _, _, _| Ok(ExecutableGraphDispatchEligibility::ExactC09(spine_graph())),
    );
    assert_eq!(outside.err(), Some(Error::Render(RenderFailure::OutsideForcedSpine)));
    let rootless = renderer.prepare_forced_c08_graph(
        &mut observation,
        &surface,
        parameters(),
        reduced,
        |_| planned_spine(8),
        |_, _, _, _| {
            let mut graph = spine_graph();
            graph.closed.lowered.resources.clear();
            Ok(ExecutableGraphDispatchEligibility::ExactC08(graph))
        },
    );
    assert_eq!(
        rootless.err(),
        Some(Error::Preparation(PreparationFailure::RootOutputMissing { graph: ExactGraph::C08 }))
    );
}

#[test]
fn fixtures_report_where_they_read_and_write() {
    let mut renderer = renderer();
    let surface = headless(&mut renderer);
    let mut observation = DispatchObservation::new();
    let mapping = RuntimeSpatialMapping { source: spatial(4), result: spatial(5) };
    let color = renderer
        .prepare_fixture(
            &mut observation,
            &surface,
            parameters(),
            WorkingFormat::ReducedPrecision,
            FrameFixture::ColorFilters,
            |_| graph_plan(),
            |_, _, _, _| {
                let mut graph = closed();
                graph.color_filters.push(ColorFilterFacts {
                    pass: RuntimePassId(2),
                    spatial: mapping,
                    operations: Vec::new(),
                });
                Ok(graph)
            },
        )
        .unwrap();
    assert_eq!((color.source, color.target), (spatial(4), None));
    assert_eq!(
        color.run(),
        FrameRun {
            ingress: FrameIngress::ColorFilters,
            device_identity: DEVICE,
            execution: PreparedExecution::ExactGraph {
                working_format: WorkingFormat::ReducedPrecision
            },
            parameters: parameters(),
        }
    );
    let blur = renderer
        .prepare_fixture(
            &mut observation,
            &surface,
            parameters(),
            HIGH,
            FrameFixture::SpatialFilters,
            |_| graph_plan(),
            |_, _, _, _| {
                let mut graph = closed();
                graph.blurs.push(BlurFacts {
                    horizontal: RuntimePassId(2),
                    vertical: RuntimePassId(3),
                    source: RuntimeResourceId(0),
                    intermediate: RuntimeResourceId(1),
                    result: RuntimeResourceId(2),
                    blur: RuntimeBlur {
                        axis: RuntimeBlurAxis::Horizontal,
                        input: RuntimeBlurInput::Rgba,
                        edge: RuntimeSamplingEdge::TransparentBlack,
                        standard_deviation: scalar(1.0),
                        spatial: mapping,
                    },
                });
                Ok(graph)
            },
        )
        .unwrap();
    assert_eq!((blur.source, blur.target), (spatial(4), Some(spatial(5))));
    let backdrop = renderer
        .prepare_fixture(
            &mut observation,
            &surface,
            parameters(),
            HIGH,
            FrameFixture::Backdrop,
            |_| graph_plan(),
            |_, _, _, _| {
                let mut graph = closed();
                graph.backdrops.push(BackdropFacts {
                    copy: RuntimePassId(2),
                    backdrop_composite: RuntimePassId(3),
                    foreground_composite: None,
                    outer_composite: RuntimePassId(4),
                    completed_parent: RuntimeResourceId(1),
                    copied: RuntimeResourceId(2),
                    result: RuntimeResourceId(2),
                    filter_passes: Vec::new(),
                });
                Ok(graph)
            },
        )
        .unwrap();
    assert_eq!((backdrop.source, backdrop.target), (spatial(1), Some(spatial(2))));
    let render = backdrop.rendered(Stats::default());
    assert_eq!(render.output_extent, PhysicalSize::new(16, 8));
    assert_eq!(render.working_format, HIGH);
}

#[test]
fn fixtures_name_what_they_lost() {
    let mut renderer = renderer();
    let surface = headless(&mut renderer);
    let mut observation = DispatchObservation::new();
    for (fixture, failure) in [
        (FrameFixture::ColorFilters, RenderFailure::ColorFixtureSourceLost),
        (FrameFixture::SpatialFilters, RenderFailure::SpatialFixtureMappingLost),
        (FrameFixture::Backdrop, RenderFailure::BackdropFixtureMappingLost),
    ] {
        let lost = renderer.prepare_fixture(
            &mut observation,
            &surface,
            parameters(),
            HIGH,
            fixture,
            |_| graph_plan(),
            |graph, format, working_format, _| {
                assert_eq!((*graph, format, working_format), (4, Format::Rgba8, HIGH));
                Ok(closed())
            },
        );
        assert_eq!(lost.err(), Some(Error::Render(failure)));
    }
    let direct = renderer.prepare_fixture(
        &mut observation,
        &surface,
        parameters(),
        HIGH,
        FrameFixture::Backdrop,
        |_| Ok(FramePlan::<u8, u32>::DirectVello(1)),
        |_, _, _, _| Ok(closed()),
    );
    assert_eq!(
        direct.err(),
        Some(Error::Render(RenderFailure::BackdropFixtureNotPlanned))
    );
    renderer.backend.as_mut().unwrap().devices[0].capabilities = None;
    for (fixture, failure) in [
        (FrameFixture::ColorFilters, RenderFailure::ColorFixtureCapabilitiesLost),
        (FrameFixture::SpatialFilters, RenderFailure::SpatialFixtureCapabilitiesLost),
        (FrameFixture::Backdrop, RenderFailure::BackdropFixtureCapabilitiesLost),
    ] {
        let lost = renderer.prepare_fixture(
            &mut observation,
            &surface,
            parameters(),
            HIGH,
            fixture,
            |_| graph_plan(),
            |graph, format, working_format, _| {
                assert_eq!((*graph, format, working_format), (4, Format::Rgba8, HIGH));
                Ok(closed())
            },
        );
        assert_eq!(lost.err(), Some(Error::Render(failure)));
    }
    let forced = renderer.prepare_forced_c08_graph(
        &mut observation,
        &surface,
        parameters(),
        HIGH,
        |_| planned_spine(8),
        |_, _, _, _| Ok(ExecutableGraphDispatchEligibility::FuturePasses),
    );
    assert_eq!(
        forced.err(),
        Some(Error::Render(RenderFailure::ForcedSpineCapabilitiesLost))
    );
    assert_eq!(
        RenderFailure::OutsideForcedSpine.message(),
        "the private forced graph is outside the exact executable C08 subset"
    );
}

#[test]
fn resources_are_prepared_for_the_default_device() {
    let mut renderer = renderer();
    assert_eq!(
        renderer.resource_preparation_target(graph_plan()),
        Ok((DEVICE, WorkingFormat::HighPrecision))
    );
    assert_eq!(
        renderer.resource_preparation_target(Ok(FramePlan::<u8, u32>::DirectVello(1))),
        Err(Error::Render(RenderFailure::PreparationNotPlanned))
    );
    let slot = &mut renderer.backend.as_mut().unwrap().devices[0];
    slot.capabilities = Some(DeviceCapabilities {
        high_precision: false,
        reduced_precision: true,
        max_texture_dimension: 64,
    });
    assert_eq!(
        renderer.resource_preparation_target(graph_plan()),
        Err(precision_unavailable(EffectQualityPolicy::RequireHighPrecision))
    );
    renderer.backend.as_mut().unwrap().devices[0].capabilities = None;
    assert_eq!(
        renderer.resource_preparation_target(graph_plan()),
        Err(Error::Render(RenderFailure::PreparationCapabilitiesLost))
    );
    renderer.backend = None;
    assert_eq!(
        renderer.resource_preparation_target(graph_plan()),
        Err(Error::Unavailable(RuntimeCapabilityUnavailable {
            operation: RuntimeOperation::EffectRendering,
            reason: RuntimeCapabilityUnavailableReason::AdapterUnavailable
        }))
    );
}

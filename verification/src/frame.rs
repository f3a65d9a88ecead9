//! One frame, from the surface that it is rendered into to its publication.

use vstd::prelude::*;

use std::collections::HashSet;

use crate::dispatch::{
    classify_frame_dispatch, dispatch_of, DispatchObservation, ExactSurfaceGraph,
    ExecutableGraphDispatchEligibility, ExecutableGraphWorkingFormatRequest, FramePlan,
    RendererFrameDispatch,
};
use crate::error::Error;
use crate::options::{Antialiasing, EffectQualityPolicy};
use crate::renderer::{
    committed, configured, failed_frame_error, CollectedStats, HeadlessReadback,
    PreparedExecution, PresentedConfiguration, RenderRoute, Renderer, Stats, SurfaceFrameCommit,
};
use crate::runtime::{
    law_observation_keeps_answers, DeviceCapabilities, DeviceSlotIdentity, Format,
    RuntimeOperation, WorkingFormat,
};
use crate::scalar::Scalar;
use crate::surface::{
    runtime_surface_format, surface_format, HeadlessResources, NativeFormat, Parameters, Surface,
    SurfaceBackend,
};

verus! {

/// How a frame came to the renderer.
#[derive(Clone, Copy, Debug, PartialEq, Eq, Structural)]
pub enum FrameIngress {
    /// A scene of the application.
    Scene,
    /// Ordinary commands, forced through the base spine.
    ForcedSpine,
    /// A fixture with authored color filters.
    ColorFilters,
    /// A fixture with authored blurs and drop shadows.
    SpatialFilters,
    /// A fixture with a bounded backdrop.
    Backdrop,
}

impl FrameIngress {
    /// Whether cache hits add up over published frames in debug, and an outdated surface is
    /// configured again.
    pub open spec fn spec_is_continuous(self) -> bool {
        match self {
            FrameIngress::Scene | FrameIngress::ForcedSpine | FrameIngress::ColorFilters => true,
            FrameIngress::SpatialFilters | FrameIngress::Backdrop => false,
        }
    }

    pub fn is_continuous(self) -> (continuous: bool)
        ensures
            continuous == self.spec_is_continuous(),
    {
        match self {
            FrameIngress::Scene | FrameIngress::ForcedSpine | FrameIngress::ColorFilters => true,
            FrameIngress::SpatialFilters | FrameIngress::Backdrop => false,
        }
    }
}

/// The executor that draws a frame.
#[derive(Clone, Copy, Debug, PartialEq, Eq, Structural)]
pub enum FrameExecutor {
    /// One raster pass.
    DirectVello,
    /// A graph that ends in a texture.
    HeadlessGraph,
    /// A graph that ends on a presented surface.
    PresentedGraph,
}

/// A frame that was prepared and is about to be configured, executed and published.
#[derive(Clone, Copy, Debug, PartialEq, Eq, Structural)]
pub struct FrameRun {
    pub ingress: FrameIngress,
    pub device_identity: DeviceSlotIdentity,
    pub execution: PreparedExecution,
    pub parameters: Parameters,
}

/// What a frame needs next.
#[derive(Clone, Copy, Debug, PartialEq, Eq, Structural)]
pub enum FrameStep {
    /// The surface has to be configured first.
    Configure { configuration: PresentedConfiguration },
    /// The frame is to be executed.
    Execute { executor: FrameExecutor },
    /// The frame is over.
    Failed { error: Error },
}

/// How an executed frame ends.
#[derive(Clone, Copy, Debug, PartialEq, Eq, Structural)]
pub enum FrameConclusion {
    Published { stats: Stats },
    /// The surface was outdated: it has to be configured again before the error is reported.
    Reconfigure { configuration: PresentedConfiguration, error: Error },
    Failed { error: Error },
}

/// What a surface shows: the texture of its last publication and the parameters of it.
pub open spec fn publication_of<T>(surface: &Surface<T>) -> (
    Option<HeadlessResources<T>>,
    Option<Parameters>,
) {
    (
        match surface.backend {
            SurfaceBackend::Headless { resources, .. } => Some(resources),
            _ => None,
        },
        surface.last_parameters,
    )
}

/// Configuring a surface changes nothing of what it shows.
pub proof fn law_configuration_keeps_the_publication<T>(surface: Surface<T>, format: NativeFormat)
    ensures
        publication_of(
            &(Surface { backend: configured(surface.backend, format), ..surface }),
        ) == publication_of(&surface),
{
}

/// Whether what was published before is what is published after: the statistics, the uploaded
/// images, and what the surface shows.
pub open spec fn keeps_publication<T>(
    renderer: &Renderer,
    surface: &Surface<T>,
    next_renderer: &Renderer,
    next_surface: &Surface<T>,
) -> bool {
    &&& next_renderer.unchanged(renderer)
    &&& publication_of(next_surface) == publication_of(surface)
}

/// Whether a step of a run keeps what was published.
pub open spec fn step_keeps<T>(run: Seq<(Renderer, Surface<T>)>, i: int) -> bool {
    keeps_publication(&run[i].0, &run[i].1, &run[i + 1].0, &run[i + 1].1)
}

/// A frame that fails anywhere is failure-atomic: over any run of steps none of which publishes,
/// the last successful statistics, the uploaded images and the last complete publication stay as
/// they were.
pub proof fn law_unpublished_frames_keep_the_publication<T>(run: Seq<(Renderer, Surface<T>)>)
    requires
        run.len() > 0,
        forall|i: int| 0 <= i < run.len() - 1 ==> #[trigger] step_keeps(run, i),
    ensures
        run.last().0.stats == run[0].0.stats,
        run.last().0.uploaded_images == run[0].0.uploaded_images,
        publication_of(&run.last().1) == publication_of(&run[0].1),
    decreases run.len(),
{
    if run.len() > 1 {
        let before = run.drop_last();
        assert forall|i: int| 0 <= i < before.len() - 1 implies #[trigger] step_keeps(before, i) by {
            assert(step_keeps(run, i));
        }
        law_unpublished_frames_keep_the_publication(before);
        assert(step_keeps(run, run.len() - 2));
    }
}

/// A read of a headless surface gives back the texture of the frame that was published last.
pub proof fn law_reads_give_back_the_publication<'a, T>(
    renderer: &Renderer,
    before: Surface<T>,
    surface: &'a Surface<T>,
    texture: T,
    parameters: Parameters,
    result: Result<HeadlessReadback<'a, T>, Error>,
)
    requires
        before.backend is Headless,
        *surface == (Surface {
            backend: committed(before.backend, Some(texture)),
            last_parameters: Some(parameters),
            ..before
        }),
        renderer.usage_failure(surface, RuntimeOperation::SurfaceReadback) is None,
        renderer.terminal_failure(surface, RuntimeOperation::SurfaceReadback) is None,
        renderer.is_read_of(surface, result),
    ensures
        result matches Ok(HeadlessReadback::Texture { texture: read, .. }) && *read == texture,
        result matches Ok(HeadlessReadback::Texture { device_identity, physical_size, .. }) && {
            &&& device_identity == before.backend->Headless_device_identity
            &&& physical_size.width == before.backend->Headless_physical_size.width
            &&& physical_size.height == before.backend->Headless_physical_size.height
        },
{
}

/// A step that publishes nothing changes no read.
pub proof fn law_unpublished_frames_keep_reads<'a, T>(
    renderer: &Renderer,
    next_renderer: &Renderer,
    surface: &'a Surface<T>,
    result: Result<HeadlessReadback<'a, T>, Error>,
)
    requires
        next_renderer.unchanged(renderer),
    ensures
        next_renderer.is_read_of(surface, result) == renderer.is_read_of(surface, result),
{
    if let (Some(identity), Some(next), Some(before)) = (
        surface.spec_device_identity(),
        next_renderer.backend,
        renderer.backend,
    ) {
        law_observation_keeps_answers(&next, &before, identity);
    }
}

/// What a scene is planned for: the size and scale of its surface, the renderer's antialiasing and
/// the base color of the frame.
#[derive(Clone, Copy, Debug, PartialEq, Eq, Structural)]
pub struct FrameContext {
    pub width: Scalar,
    pub height: Scalar,
    pub scale: Scalar,
    pub antialiasing: Antialiasing,
    pub base_red: Scalar,
    pub base_green: Scalar,
    pub base_blue: Scalar,
    pub base_alpha: Scalar,
}

/// What classification said of a graph, once the graph has a working format: without one no
/// executor takes it.
pub open spec fn in_format<P>(
    eligibility: Result<ExecutableGraphDispatchEligibility<P>, Error>,
    format: Result<WorkingFormat, Error>,
) -> Result<ExecutableGraphDispatchEligibility<P>, Error> {
    match (eligibility, format) {
        (Err(error), _) => Err(error),
        (Ok(ExecutableGraphDispatchEligibility::FuturePasses), _) => eligibility,
        (Ok(_), Err(error)) => Err(error),
        (Ok(_), Ok(_)) => eligibility,
    }
}

fn restrict_to_format<P>(
    eligibility: Result<ExecutableGraphDispatchEligibility<P>, Error>,
    format: Result<WorkingFormat, Error>,
) -> (restricted: Result<ExecutableGraphDispatchEligibility<P>, Error>)
    ensures
        restricted == in_format(eligibility, format),
{
    match (eligibility, format) {
        (Err(error), _) => Err(error),
        (Ok(ExecutableGraphDispatchEligibility::FuturePasses), _) => Ok(
            ExecutableGraphDispatchEligibility::FuturePasses,
        ),
        (Ok(_), Err(error)) => Err(error),
        (Ok(eligible), Ok(_)) => Ok(eligible),
    }
}

/// How a bound frame is executed: a graph in its working format.
pub open spec fn execution_of<C, P>(
    dispatch: RendererFrameDispatch<C, P>,
    format: Result<WorkingFormat, Error>,
) -> PreparedExecution {
    match dispatch {
        RendererFrameDispatch::DirectVello(_) => PreparedExecution::DirectVello,
        RendererFrameDispatch::ExactGraph(_) => PreparedExecution::ExactGraph {
            working_format: format->Ok_0,
        },
    }
}

/// Whether a planned frame was bound to its route, or refused, as classification and the working
/// format say.
pub open spec fn is_bound<C, G, P>(
    result: Result<(RendererFrameDispatch<C, P>, PreparedExecution), Error>,
    plan: FramePlan<C, G>,
    eligibility: Result<ExecutableGraphDispatchEligibility<P>, Error>,
    format: Result<WorkingFormat, Error>,
) -> bool {
    match dispatch_of(plan, in_format(eligibility, format)) {
        Err(error) => result == Err::<(RendererFrameDispatch<C, P>, PreparedExecution), Error>(
            error,
        ),
        Ok(dispatch) => result == Ok::<(RendererFrameDispatch<C, P>, PreparedExecution), Error>(
            (dispatch, execution_of(dispatch, format)),
        ),
    }
}

/// Whether a frame was bound, and counted, on a device: a failed plan comes before lost
/// capabilities, and a planned graph is classified for the output format, the requested working
/// format and the device.
pub open spec fn is_prepared<
    C,
    G,
    P,
    F: FnOnce(&G, Format, ExecutableGraphWorkingFormatRequest, DeviceCapabilities) -> Result<
        ExecutableGraphDispatchEligibility<P>,
        Error,
    >,
>(
    result: Result<(RendererFrameDispatch<C, P>, PreparedExecution), Error>,
    before: DispatchObservation,
    after: DispatchObservation,
    planned: Result<FramePlan<C, G>, Error>,
    classify: F,
    output_format: Format,
    request: ExecutableGraphWorkingFormatRequest,
    capabilities: Result<DeviceCapabilities, Error>,
) -> bool {
    match (planned, capabilities) {
        (Err(error), _) => {
            &&& result == Err::<(RendererFrameDispatch<C, P>, PreparedExecution), Error>(error)
            &&& after == before
        },
        (Ok(_), Err(error)) => {
            &&& result == Err::<(RendererFrameDispatch<C, P>, PreparedExecution), Error>(error)
            &&& after == before
        },
        (Ok(plan), Ok(capabilities)) => exists|
            eligibility: Result<ExecutableGraphDispatchEligibility<P>, Error>,
        |
            {
                &&& plan matches FramePlan::GpuGraph(_, graph) ==> call_ensures(
                    classify,
                    (&graph, output_format, request, capabilities),
                    eligibility,
                )
                &&& #[trigger] is_bound(
                    result,
                    plan,
                    eligibility,
                    request.spec_resolve(capabilities),
                )
                &&& after == before.counted(
                    plan,
                    in_format(eligibility, request.spec_resolve(capabilities)),
                )
            },
    }
}

/// A graph of the application is bound only in the working format that the policy gives on its
/// device: one that requires high precision refuses a device without it, and reduced precision is
/// taken exactly where high precision is unavailable.
pub proof fn law_graphs_are_bound_in_the_format_of_the_policy<
    C,
    G,
    P,
    F: FnOnce(&G, Format, ExecutableGraphWorkingFormatRequest, DeviceCapabilities) -> Result<
        ExecutableGraphDispatchEligibility<P>,
        Error,
    >,
>(
    result: Result<(RendererFrameDispatch<C, P>, PreparedExecution), Error>,
    before: DispatchObservation,
    after: DispatchObservation,
    plan: FramePlan<C, G>,
    classify: F,
    output_format: Format,
    policy: EffectQualityPolicy,
    capabilities: DeviceCapabilities,
)
    requires
        plan is GpuGraph,
        is_prepared(
            result,
            before,
            after,
            Ok(plan),
            classify,
            output_format,
            ExecutableGraphWorkingFormatRequest::ConfiguredPolicy(policy),
            Ok(capabilities),
        ),
    ensures
        result matches Ok((dispatch, execution)) ==> {
            &&& dispatch is ExactGraph
            &&& execution matches PreparedExecution::ExactGraph { working_format } && {
                &&& capabilities.spec_working_format(policy) == Ok::<WorkingFormat, Error>(
                    working_format,
                )
                &&& working_format == WorkingFormat::ReducedPrecision
                    <==> !capabilities.high_precision
            }
        },
        policy is RequireHighPrecision && !capabilities.high_precision ==> result is Err,
        !capabilities.high_precision && !capabilities.reduced_precision ==> result is Err,
{
}

/// A frame of the application that is admitted to its surface's device and bound to its route.
pub struct PreparedRender<C, P> {
    pub device_identity: DeviceSlotIdentity,
    pub dispatch: RendererFrameDispatch<C, P>,
    pub execution: PreparedExecution,
    pub parameters: Parameters,
}

/// The route and the execution of an admitted frame.
pub open spec fn bound_parts<C, P>(result: Result<PreparedRender<C, P>, Error>) -> Result<
    (RendererFrameDispatch<C, P>, PreparedExecution),
    Error,
> {
    match result {
        Ok(prepared) => Ok((prepared.dispatch, prepared.execution)),
        Err(error) => Err(error),
    }
}

impl<C, P> PreparedRender<C, P> {
    /// The run of this frame.
    pub open spec fn spec_run(self) -> FrameRun {
        FrameRun {
            ingress: FrameIngress::Scene,
            device_identity: self.device_identity,
            execution: self.execution,
            parameters: self.parameters,
        }
    }

    pub fn run(&self) -> (run: FrameRun)
        ensures
            run == self.spec_run(),
    {
        FrameRun {
            ingress: FrameIngress::Scene,
            device_identity: self.device_identity,
            execution: self.execution,
            parameters: self.parameters,
        }
    }
}

/// A published frame of the application reports the route that it was bound to, and of a graph the
/// precision that the policy gives on its device: reduced exactly where high precision is
/// unavailable.
pub proof fn law_published_frames_report_their_precision<
    C,
    G,
    P,
    F: FnOnce(&G, Format, ExecutableGraphWorkingFormatRequest, DeviceCapabilities) -> Result<
        ExecutableGraphDispatchEligibility<P>,
        Error,
    >,
>(
    prepared: PreparedRender<C, P>,
    before: DispatchObservation,
    after: DispatchObservation,
    plan: FramePlan<C, G>,
    classify: F,
    output_format: Format,
    policy: EffectQualityPolicy,
    capabilities: DeviceCapabilities,
    renderer: &Renderer,
    collected: CollectedStats,
    encode_time: u64,
    render_time: u64,
    present_time: u64,
    frame_time: u64,
)
    requires
        is_prepared(
            bound_parts(Ok(prepared)),
            before,
            after,
            Ok(plan),
            classify,
            output_format,
            ExecutableGraphWorkingFormatRequest::ConfiguredPolicy(policy),
            Ok(capabilities),
        ),
    ensures
        ({
            let stats = prepared.spec_run().published_stats(
                renderer,
                collected,
                encode_time,
                render_time,
                present_time,
                frame_time,
            );
            &&& plan is DirectVello ==> stats.route == Some(RenderRoute::DirectVello)
                && stats.effect_precision is None
            &&& plan is GpuGraph ==> stats.route == Some(RenderRoute::GpuGraph)
            &&& plan is GpuGraph ==> (stats.effect_precision matches Some(precision) && {
                &&& capabilities.spec_working_format(policy) == Ok::<WorkingFormat, Error>(
                    precision,
                )
                &&& precision == WorkingFormat::ReducedPrecision <==> !capabilities.high_precision
            })
        }),
{
}

impl Renderer {
    /// What a scene is planned for on a surface.
    pub open spec fn spec_frame_context<T>(
        &self,
        surface: &Surface<T>,
        parameters: Parameters,
    ) -> FrameContext {
        FrameContext {
            width: surface.options.width,
            height: surface.options.height,
            scale: surface.options.scale,
            antialiasing: self.options@.antialiasing,
            base_red: parameters.base_red,
            base_green: parameters.base_green,
            base_blue: parameters.base_blue,
            base_alpha: parameters.base_alpha,
        }
    }

    pub fn frame_context<T>(&self, surface: &Surface<T>, parameters: Parameters) -> (context:
        FrameContext)
        ensures
            context == self.spec_frame_context(surface, parameters),
            context.width == surface.options.width,
            context.height == surface.options.height,
            context.scale == surface.options.scale,
            context.antialiasing == self.options@.antialiasing,
    {
        FrameContext {
            width: surface.options.width,
            height: surface.options.height,
            scale: surface.options.scale,
            antialiasing: self.options.antialiasing(),
            base_red: parameters.base_red,
            base_green: parameters.base_green,
            base_blue: parameters.base_blue,
            base_alpha: parameters.base_alpha,
        }
    }

    /// Takes a frame of the application: the surface has to be usable, renderable and on a device
    /// that has not ended; then the scene is planned for the surface and bound to its route there.
    /// Nothing that was published changes.
    pub fn render<
        C,
        G,
        P,
        T,
        L: FnOnce(FrameContext) -> Result<FramePlan<C, G>, Error>,
        F: FnOnce(&G, Format, ExecutableGraphWorkingFormatRequest, DeviceCapabilities) -> Result<
            ExecutableGraphDispatchEligibility<P>,
            Error,
        >,
    >(
        &mut self,
        observation: &mut DispatchObservation,
        surface: &Surface<T>,
        parameters: Parameters,
        plan: L,
        classify: F,
    ) -> (result: Result<PreparedRender<C, P>, Error>)
        requires
            forall|context: FrameContext| #[trigger] call_requires(plan, (context,)),
            forall|
                graph: &G,
                format: Format,
                request: ExecutableGraphWorkingFormatRequest,
                capabilities: DeviceCapabilities,
            | #[trigger]
                call_requires(classify, (graph, format, request, capabilities)),
        ensures
            final(self).unchanged(old(self)),
            match old(self).render_failure(surface) {
                Some(error) => {
                    &&& result == Err::<PreparedRender<C, P>, Error>(error)
                    &&& *final(observation) == *old(observation)
                },
                None => exists|planned: Result<FramePlan<C, G>, Error>|
                    {
                        &&& #[trigger] call_ensures(
                            plan,
                            (old(self).spec_frame_context(surface, parameters),),
                            planned,
                        )
                        &&& is_prepared(
                            bound_parts(result),
                            *old(observation),
                            *final(observation),
                            planned,
                            classify,
                            surface_format(surface),
                            ExecutableGraphWorkingFormatRequest::ConfiguredPolicy(
                                old(self).options@.effect_quality_policy,
                            ),
                            old(self).spec_dispatch_capabilities(
                                surface.spec_device_identity()->0,
                            ),
                        )
                    },
            },
            result matches Ok(prepared) ==> prepared.parameters == parameters && Some(
                prepared.device_identity,
            ) == surface.spec_device_identity(),
            old(self).render_failure(surface) is None ==> exists|
                context: FrameContext,
                planned: Result<FramePlan<C, G>, Error>,
            |
                {
                    &&& #[trigger] call_ensures(plan, (context,), planned)
                    &&& context.width == surface.options.width
                    &&& context.height == surface.options.height
                    &&& context.scale == surface.options.scale
                    &&& result is Ok ==> planned is Ok
                },
    {
        let device_identity = match self.render_device_identity(surface) {
            Ok(device_identity) => device_identity,
            Err(error) => return Err(error),
        };
        proof {
            self.lemma_unchanged_capabilities(old(self), device_identity);
        }
        match self.prepare_render_execution(
            observation,
            surface,
            parameters,
            device_identity,
            plan,
            classify,
        ) {
            Ok((dispatch, execution)) => Ok(
                PreparedRender { device_identity, dispatch, execution, parameters },
            ),
            Err(error) => Err(error),
        }
    }

    /// Plans a scene for a surface and binds it to its route on the device. `classify` says, of the
    /// graph, the output format, the configured policy and the device, which executor takes the
    /// graph; a raster pass needs none.
    pub fn prepare_render_execution<
        C,
        G,
        P,
        T,
        L: FnOnce(FrameContext) -> Result<FramePlan<C, G>, Error>,
        F: FnOnce(&G, Format, ExecutableGraphWorkingFormatRequest, DeviceCapabilities) -> Result<
            ExecutableGraphDispatchEligibility<P>,
            Error,
        >,
    >(
        &self,
        observation: &mut DispatchObservation,
        surface: &Surface<T>,
        parameters: Parameters,
        device_identity: DeviceSlotIdentity,
        plan: L,
        classify: F,
    ) -> (result: Result<(RendererFrameDispatch<C, P>, PreparedExecution), Error>)
        requires
            forall|context: FrameContext| #[trigger] call_requires(plan, (context,)),
            forall|
                graph: &G,
                format: Format,
                request: ExecutableGraphWorkingFormatRequest,
                capabilities: DeviceCapabilities,
            | #[trigger]
                call_requires(classify, (graph, format, request, capabilities)),
        ensures
            exists|planned: Result<FramePlan<C, G>, Error>|
                {
                    &&& #[trigger] call_ensures(
                        plan,
                        (self.spec_frame_context(surface, parameters),),
                        planned,
                    )
                    &&& is_prepared(
                        result,
                        *old(observation),
                        *final(observation),
                        planned,
                        classify,
                        surface_format(surface),
                        ExecutableGraphWorkingFormatRequest::ConfiguredPolicy(
                            self.options@.effect_quality_policy,
                        ),
                        self.spec_dispatch_capabilities(device_identity),
                    )
                },
    {
        let planned = plan(self.frame_context(surface, parameters));
        let plan = match planned {
            Ok(plan) => plan,
            Err(error) => return Err(error),
        };
        let capabilities = match self.dispatch_capabilities(device_identity) {
            Ok(capabilities) => capabilities,
            Err(error) => return Err(error),
        };
        let request = ExecutableGraphWorkingFormatRequest::ConfiguredPolicy(
            self.options.effect_quality_policy(),
        );
        let format = request.resolve(capabilities);
        let output_format = runtime_surface_format(surface);
        let ghost ghost_plan = plan;
        let eligibility = match &plan {
            FramePlan::DirectVello(_) => Ok(ExecutableGraphDispatchEligibility::FuturePasses),
            FramePlan::GpuGraph(_, graph) => classify(graph, output_format, request, capabilities),
        };
        let ghost said = eligibility;
        let restricted = restrict_to_format(eligibility, format);
        let result = match classify_frame_dispatch(observation, plan, restricted) {
            Err(error) => Err(error),
            Ok(RendererFrameDispatch::DirectVello(commands)) => Ok(
                (RendererFrameDispatch::DirectVello(commands), PreparedExecution::DirectVello),
            ),
            Ok(RendererFrameDispatch::ExactGraph(graph)) => match format {
                Ok(working_format) => Ok(
                    (
                        RendererFrameDispatch::ExactGraph(graph),
                        PreparedExecution::ExactGraph { working_format },
                    ),
                ),
                Err(error) => Err(error),
            },
        };
        proof {
            assert(is_bound(result, ghost_plan, said, format));
        }
        result
    }
}

impl FrameRun {
    /// The executor of this frame on a surface.
    pub open spec fn executor_for<T>(self, surface: &Surface<T>) -> FrameExecutor {
        match self.execution {
            PreparedExecution::DirectVello => FrameExecutor::DirectVello,
            PreparedExecution::ExactGraph { .. } => if surface.backend is Presented && self.ingress
                != FrameIngress::Backdrop {
                FrameExecutor::PresentedGraph
            } else {
                FrameExecutor::HeadlessGraph
            },
        }
    }

    fn executor<T>(self, surface: &Surface<T>) -> (executor: FrameExecutor)
        ensures
            executor == self.executor_for(surface),
    {
        match self.execution {
            PreparedExecution::DirectVello => FrameExecutor::DirectVello,
            PreparedExecution::ExactGraph { .. } => {
                let presented = match &surface.backend {
                    SurfaceBackend::Presented { .. } => true,
                    _ => false,
                };
                if presented && self.ingress != FrameIngress::Backdrop {
                    FrameExecutor::PresentedGraph
                } else {
                    FrameExecutor::HeadlessGraph
                }
            },
        }
    }

    /// What the prepared frame needs first: a configuration, if the surface lacks one.
    pub fn start<T>(self, renderer: &Renderer, surface: &Surface<T>) -> (step: FrameStep)
        ensures
            step == (match renderer.spec_presented_configuration(
                surface,
                RuntimeOperation::SurfaceRendering,
            ) {
                Err(error) => FrameStep::Failed { error },
                Ok(Some(configuration)) => FrameStep::Configure { configuration },
                Ok(None) => FrameStep::Execute { executor: self.executor_for(surface) },
            }),
    {
        match renderer.presented_configuration(surface, RuntimeOperation::SurfaceRendering) {
            Err(error) => FrameStep::Failed { error },
            Ok(Some(configuration)) => FrameStep::Configure { configuration },
            Ok(None) => FrameStep::Execute { executor: self.executor(surface) },
        }
    }

    /// Goes on after the surface was configured, unless that failed or the device ended meanwhile.
    pub fn configured<T>(
        self,
        renderer: &mut Renderer,
        surface: &mut Surface<T>,
        native_format: Result<NativeFormat, Error>,
    ) -> (step: FrameStep)
        ensures
            keeps_publication(old(renderer), old(surface), final(renderer), final(surface)),
            match native_format {
                Err(error) => {
                    &&& step == (FrameStep::Failed { error })
                    &&& *final(surface) == *old(surface)
                },
                Ok(format) => match old(renderer).terminal_failure(
                    old(surface),
                    RuntimeOperation::SurfaceRendering,
                ) {
                    Some(error) => {
                        &&& step == (FrameStep::Failed { error })
                        &&& *final(surface) == *old(surface)
                    },
                    None => {
                        &&& step == (FrameStep::Execute { executor: self.executor_for(final(surface)) })
                        &&& *final(surface) == (Surface {
                            backend: configured(old(surface).backend, format),
                            ..*old(surface)
                        })
                    },
                },
            },
    {
        let format = match native_format {
            Ok(format) => format,
            Err(error) => return FrameStep::Failed { error },
        };
        match renderer.commit_presented_configuration(
            surface,
            RuntimeOperation::SurfaceRendering,
            format,
        ) {
            Ok(()) => FrameStep::Execute { executor: self.executor(surface) },
            Err(error) => FrameStep::Failed { error },
        }
    }

    /// Everything that is known of the statistics before the frame is executed.
    pub open spec fn spec_stats(
        self,
        renderer: &Renderer,
        collected: CollectedStats,
        encode_time: u64,
    ) -> Stats {
        let stats = renderer.spec_frame_stats(
            self.execution,
            collected,
            self.parameters,
            encode_time,
        );
        if self.ingress.spec_is_continuous() {
            stats
        } else {
            Stats { cache_hits: collected.cache_hits, ..stats }
        }
    }

    pub fn stats(
        self,
        renderer: &Renderer,
        collected: CollectedStats,
        encode_time: u64,
    ) -> (stats: Stats)
        ensures
            stats == self.spec_stats(renderer, collected, encode_time),
    {
        let mut stats = renderer.frame_stats(
            self.execution,
            collected,
            self.parameters,
            encode_time,
        );
        if !self.ingress.is_continuous() {
            stats.cache_hits = collected.cache_hits;
        }
        stats
    }

    /// The statistics that the frame is published with, once its times are known.
    pub open spec fn published_stats(
        self,
        renderer: &Renderer,
        collected: CollectedStats,
        encode_time: u64,
        render_time: u64,
        present_time: u64,
        frame_time: u64,
    ) -> Stats {
        Stats {
            render_time,
            present_time,
            frame_time,
            ..self.spec_stats(renderer, collected, encode_time)
        }
    }

    /// Concludes an executed frame. A clean one is published whole; a failed one leaves the last
    /// publication as it was, and asks for a configuration where the surface was outdated.
    pub fn executed<T>(
        self,
        renderer: &mut Renderer,
        surface: &mut Surface<T>,
        frame: Result<SurfaceFrameCommit<T>, Error>,
        collected: CollectedStats,
        encode_time: u64,
        uploaded_images: HashSet<u64>,
        frame_time: u64,
    ) -> (conclusion: FrameConclusion)
        ensures
            match frame {
                Ok(commit) => {
                    let published = self.published_stats(
                        old(renderer),
                        collected,
                        encode_time,
                        commit.render_time,
                        commit.present_time,
                        frame_time,
                    );
                    &&& conclusion == (FrameConclusion::Published { stats: published })
                    &&& final(renderer).stats == published
                    &&& final(renderer).uploaded_images == uploaded_images
                    &&& final(renderer).keeps_devices(old(renderer))
                    &&& *final(surface) == (Surface {
                        backend: committed(old(surface).backend, commit.texture),
                        last_parameters: Some(self.parameters),
                        ..*old(surface)
                    })
                },
                Err(error) => {
                    &&& keeps_publication(old(renderer), old(surface), final(renderer), final(surface))
                    &&& *final(surface) == *old(surface)
                    &&& conclusion == (if error == Error::SurfaceOutdated
                        && self.ingress.spec_is_continuous() {
                        match old(renderer).spec_presented_configuration(
                            old(surface),
                            RuntimeOperation::SurfaceRendering,
                        ) {
                            Err(error) => FrameConclusion::Failed { error },
                            Ok(Some(configuration)) => FrameConclusion::Reconfigure {
                                configuration,
                                error,
                            },
                            Ok(None) => FrameConclusion::Failed { error },
                        }
                    } else {
                        FrameConclusion::Failed { error }
                    })
                },
            },
    {
        let stats = self.stats(renderer, collected, encode_time);
        match renderer.conclude_frame(
            surface,
            self.device_identity,
            frame,
            stats,
            uploaded_images,
            self.parameters,
            frame_time,
        ) {
            Ok(stats) => FrameConclusion::Published { stats },
            Err(error) => {
                let outdated = match error {
                    Error::SurfaceOutdated => true,
                    _ => false,
                };
                if !outdated || !self.ingress.is_continuous() {
                    return FrameConclusion::Failed { error };
                }
                match renderer.presented_configuration(
                    surface,
                    RuntimeOperation::SurfaceRendering,
                ) {
                    Err(error) => FrameConclusion::Failed { error },
                    Ok(Some(configuration)) => FrameConclusion::Reconfigure { configuration, error },
                    Ok(None) => FrameConclusion::Failed { error },
                }
            },
        }
    }

    /// The error of a frame whose outdated surface was configured again: a failure of that comes
    /// first.
    pub fn reconfigured<T>(
        self,
        renderer: &mut Renderer,
        surface: &mut Surface<T>,
        error: Error,
        native_format: Result<NativeFormat, Error>,
    ) -> (reported: Error)
        requires
            error == Error::SurfaceOutdated,
        ensures
            keeps_publication(old(renderer), old(surface), final(renderer), final(surface)),
            match native_format {
                Err(failed) => reported == failed && *final(surface) == *old(surface),
                Ok(format) => match old(renderer).terminal_failure(
                    old(surface),
                    RuntimeOperation::SurfaceRendering,
                ) {
                    Some(failed) => reported == failed && *final(surface) == *old(surface),
                    None => {
                        &&& reported == error
                        &&& *final(surface) == (Surface {
                            backend: configured(old(surface).backend, format),
                            ..*old(surface)
                        })
                    },
                },
            },
    {
        let reconfigured = match native_format {
            Ok(format) => renderer.commit_presented_configuration(
                surface,
                RuntimeOperation::SurfaceRendering,
                format,
            ),
            Err(failed) => Err(failed),
        };
        failed_frame_error(error, reconfigured)
    }
}

/// What a scene is planned for is what its surface and its frame say: the width, the height and the
/// scale of the surface's options, the renderer's antialiasing, and the base color of the frame,
/// channel by channel.
pub proof fn law_contexts_describe_their_surface<T>(
    renderer: &Renderer,
    surface: &Surface<T>,
    parameters: Parameters,
    context: FrameContext,
)
    requires
        call_ensures(Renderer::frame_context::<T>, (renderer, surface, parameters), context),
    ensures
        context.width == surface.options.width,
        context.height == surface.options.height,
        context.scale == surface.options.scale,
        context.antialiasing == renderer.options@.antialiasing,
        context.base_red == parameters.base_red,
        context.base_green == parameters.base_green,
        context.base_blue == parameters.base_blue,
        context.base_alpha == parameters.base_alpha,
{
}

/// The planner of a rendered frame is called for the surface that the frame is rendered into: with the
/// width, the height and the scale of its options, the renderer's antialiasing and the frame's base
/// color; and what it planned is bound in the surface's output format, under the renderer's policy and
/// on the surface's device.
pub proof fn law_scenes_are_planned_for_their_surface<
    C,
    G,
    P,
    T,
    L: FnOnce(FrameContext) -> Result<FramePlan<C, G>, Error>,
    F: FnOnce(&G, Format, ExecutableGraphWorkingFormatRequest, DeviceCapabilities) -> Result<
        ExecutableGraphDispatchEligibility<P>,
        Error,
    >,
>(surface: &Surface<T>, parameters: Parameters, plan: L, classify: F)
    ensures
        forall|
            renderer: &mut Renderer,
            observation: &mut DispatchObservation,
            result: Result<PreparedRender<C, P>, Error>,
        | #[trigger]
            call_ensures(
                Renderer::render::<C, G, P, T, L, F>,
                (renderer, observation, surface, parameters, plan, classify),
                result,
            ) && (*renderer).render_failure(surface) is None ==> exists|
                context: FrameContext,
                planned: Result<FramePlan<C, G>, Error>,
            |
                {
                    &&& #[trigger] call_ensures(plan, (context,), planned)
                    &&& context.width == surface.options.width
                    &&& context.height == surface.options.height
                    &&& context.scale == surface.options.scale
                    &&& context.antialiasing == (*renderer).options@.antialiasing
                    &&& context.base_red == parameters.base_red
                    &&& context.base_green == parameters.base_green
                    &&& context.base_blue == parameters.base_blue
                    &&& context.base_alpha == parameters.base_alpha
                    &&& planned matches Err(error) ==> result == Err::<
                        PreparedRender<C, P>,
                        Error,
                    >(error) && *final(observation) == *observation
                    &&& planned is Ok && result is Ok ==> is_prepared(
                        bound_parts(result),
                        *observation,
                        *final(observation),
                        planned,
                        classify,
                        surface_format(surface),
                        ExecutableGraphWorkingFormatRequest::ConfiguredPolicy(
                            (*renderer).options@.effect_quality_policy,
                        ),
                        (*renderer).spec_dispatch_capabilities(surface.spec_device_identity()->0),
                    )
                },
        forall|
            renderer: &mut Renderer,
            observation: &mut DispatchObservation,
            result: Result<PreparedRender<C, P>, Error>,
        | #[trigger]
            call_ensures(
                Renderer::render::<C, G, P, T, L, F>,
                (renderer, observation, surface, parameters, plan, classify),
                result,
            ) ==> {
                &&& (*renderer).render_failure(surface) matches Some(error) ==> result == Err::<
                    PreparedRender<C, P>,
                    Error,
                >(error) && *final(observation) == *observation
                &&& result matches Ok(prepared) ==> {
                    &&& prepared.parameters == parameters
                    &&& surface.backend is Headless ==> prepared.device_identity
                        == surface.backend->Headless_device_identity
                    &&& surface.backend is Presented ==> prepared.device_identity
                        == surface.backend->Presented_device_identity
                }
                &&& (*final(renderer)).stats == (*renderer).stats
                &&& (*final(renderer)).uploaded_images == (*renderer).uploaded_images
            },
{
    assert forall|
        renderer: &mut Renderer,
        observation: &mut DispatchObservation,
        result: Result<PreparedRender<C, P>, Error>,
    | #[trigger]
        call_ensures(
            Renderer::render::<C, G, P, T, L, F>,
            (renderer, observation, surface, parameters, plan, classify),
            result,
        ) && (*renderer).render_failure(surface) is None implies exists|
        context: FrameContext,
        planned: Result<FramePlan<C, G>, Error>,
    |
        {
            &&& #[trigger] call_ensures(plan, (context,), planned)
            &&& context.width == surface.options.width
            &&& context.height == surface.options.height
            &&& context.scale == surface.options.scale
            &&& context.antialiasing == (*renderer).options@.antialiasing
            &&& context.base_red == parameters.base_red
            &&& context.base_green == parameters.base_green
            &&& context.base_blue == parameters.base_blue
            &&& context.base_alpha == parameters.base_alpha
            &&& planned matches Err(error) ==> result == Err::<PreparedRender<C, P>, Error>(error)
                && *final(observation) == *observation
            &&& planned is Ok && result is Ok ==> is_prepared(
                bound_parts(result),
                *observation,
                *final(observation),
                planned,
                classify,
                surface_format(surface),
                ExecutableGraphWorkingFormatRequest::ConfiguredPolicy(
                    (*renderer).options@.effect_quality_policy,
                ),
                (*renderer).spec_dispatch_capabilities(surface.spec_device_identity()->0),
            )
        } by {
        let context = (*renderer).spec_frame_context(surface, parameters);
        let planned = choose|planned: Result<FramePlan<C, G>, Error>|
            {
                &&& #[trigger] call_ensures(
                    plan,
                    ((*renderer).spec_frame_context(surface, parameters),),
                    planned,
                )
                &&& is_prepared(
                    bound_parts(result),
                    *observation,
                    *final(observation),
                    planned,
                    classify,
                    surface_format(surface),
                    ExecutableGraphWorkingFormatRequest::ConfiguredPolicy(
                        (*renderer).options@.effect_quality_policy,
                    ),
                    (*renderer).spec_dispatch_capabilities(surface.spec_device_identity()->0),
                )
            };
        assert(call_ensures(plan, (context,), planned));
    }
}

/// A planned raster pass is bound as it was planned; a planned graph is bound to the executor that
/// classification names, with what it prepared, and is executed in the working format that the request
/// stands for; a graph that classification refuses, or that has no format, is refused with that error.
pub proof fn law_frames_are_bound_as_planned<C, G, P>(
    result: Result<(RendererFrameDispatch<C, P>, PreparedExecution), Error>,
    plan: FramePlan<C, G>,
    eligibility: Result<ExecutableGraphDispatchEligibility<P>, Error>,
    format: Result<WorkingFormat, Error>,
)
    requires
        is_bound(result, plan, eligibility, format),
    ensures
        plan matches FramePlan::DirectVello(commands) ==> (result matches Ok((dispatch, execution))
            && (dispatch matches RendererFrameDispatch::DirectVello(bound) && bound == commands)
            && execution is DirectVello),
        plan is GpuGraph ==> {
            &&& eligibility matches Err(error) ==> result == Err::<
                (RendererFrameDispatch<C, P>, PreparedExecution),
                Error,
            >(error)
            &&& eligibility matches Ok(ExecutableGraphDispatchEligibility::FuturePasses)
                ==> result is Err
            &&& eligibility is Ok && !(eligibility->Ok_0 is FuturePasses) ==> (
            format matches Err(error) ==> result == Err::<
                (RendererFrameDispatch<C, P>, PreparedExecution),
                Error,
            >(error))
            &&& format matches Ok(working_format) ==> {
                &&& eligibility matches Ok(ExecutableGraphDispatchEligibility::ExactC08(prepared))
                    ==> result == Ok::<(RendererFrameDispatch<C, P>, PreparedExecution), Error>(
                    (
                        RendererFrameDispatch::ExactGraph(ExactSurfaceGraph::C08(prepared)),
                        PreparedExecution::ExactGraph { working_format },
                    ),
                )
                &&& eligibility matches Ok(ExecutableGraphDispatchEligibility::ExactC09(prepared))
                    ==> result == Ok::<(RendererFrameDispatch<C, P>, PreparedExecution), Error>(
                    (
                        RendererFrameDispatch::ExactGraph(ExactSurfaceGraph::C09(prepared)),
                        PreparedExecution::ExactGraph { working_format },
                    ),
                )
                &&& eligibility matches Ok(ExecutableGraphDispatchEligibility::ExactC12(prepared))
                    ==> result == Ok::<(RendererFrameDispatch<C, P>, PreparedExecution), Error>(
                    (
                        RendererFrameDispatch::ExactGraph(ExactSurfaceGraph::C12(prepared)),
                        PreparedExecution::ExactGraph { working_format },
                    ),
                )
            }
        },
{
}

/// A raster pass is drawn by one raster pass; a graph ends on a presented surface exactly if its
/// surface is presented and it is no backdrop, and in a texture otherwise. A surface that lacks a
/// configuration is configured first, and a run keeps what it was prepared with.
pub proof fn law_frames_end_where_their_surface_shows<T>(
    run: FrameRun,
    renderer: &Renderer,
    surface: &Surface<T>,
    step: FrameStep,
)
    requires
        call_ensures(FrameRun::start::<T>, (run, renderer, surface), step),
    ensures
        step matches FrameStep::Execute { executor } ==> {
            &&& executor is DirectVello <==> run.execution is DirectVello
            &&& executor is PresentedGraph <==> run.execution is ExactGraph
                && surface.backend is Presented && !(run.ingress is Backdrop)
            &&& executor is HeadlessGraph <==> run.execution is ExactGraph && (
            !(surface.backend is Presented) || run.ingress is Backdrop)
        },
        surface.backend is Presented && surface.backend->Presented_state.needs_configuration
            ==> !(step is Execute),
        !(surface.backend is Presented) ==> step is Execute,
        step matches FrameStep::Configure { configuration } ==> surface.backend is Presented && {
            let state = surface.backend->Presented_state;
            &&& configuration.physical_size.width == state.requested_physical_size.width
            &&& configuration.physical_size.height == state.requested_physical_size.height
            &&& configuration.present_mode == surface.options.present_mode
            &&& configuration.device_identity == surface.backend->Presented_device_identity
        },
{
}

/// The run of a frame of the application has what the frame was prepared with.
pub proof fn law_runs_keep_what_was_prepared<C, P>(prepared: &PreparedRender<C, P>, run: FrameRun)
    requires
        call_ensures(PreparedRender::<C, P>::run, (prepared,), run),
    ensures
        run.ingress is Scene,
        run.device_identity == prepared.device_identity,
        run.execution == prepared.execution,
        run.parameters == prepared.parameters,
{
}

/// Frames that the application renders, forced spines and color fixtures are continuous; spatial and
/// backdrop fixtures are not.
pub proof fn law_continuous_ingress(ingress: FrameIngress, continuous: bool)
    requires
        call_ensures(FrameIngress::is_continuous, (ingress,), continuous),
    ensures
        continuous <==> !(ingress is SpatialFilters) && !(ingress is Backdrop),
{
}

/// The statistics of a run report what was counted and the time of encoding, each under its own name;
/// cache hits add up over publications only in debug and only on continuous frames.
pub proof fn law_run_stats_report_what_was_counted(
    run: FrameRun,
    renderer: &Renderer,
    collected: CollectedStats,
    encode_time: u64,
    stats: Stats,
)
    requires
        call_ensures(FrameRun::stats, (run, renderer, collected, encode_time), stats),
    ensures
        stats.commands == collected.commands,
        stats.image_uploads == collected.image_uploads,
        stats.encode_time == encode_time,
        !(run.parameters.debug || renderer.options@.debug) || run.ingress is SpatialFilters
            || run.ingress is Backdrop ==> stats.cache_hits == collected.cache_hits,
        (run.parameters.debug || renderer.options@.debug) && !(run.ingress is SpatialFilters) && !(
        run.ingress is Backdrop) && collected.cache_hits + renderer.stats.cache_hits <= u64::MAX
            ==> stats.cache_hits == collected.cache_hits + renderer.stats.cache_hits,
        run.execution is DirectVello <==> stats.route == Some(RenderRoute::DirectVello),
        run.execution matches PreparedExecution::ExactGraph { working_format }
            ==> stats.effect_precision == Some(working_format) && stats.route == Some(
            RenderRoute::GpuGraph,
        ),
{
}

/// An executed frame is published with its own times and counts, its texture, its images and its
/// parameters, and keeps the size and the device of its surface; a failed one publishes nothing and is
/// reported, after a configuration if a continuous frame found its surface outdated and in need of
/// one.
pub proof fn law_executed_frames_are_published_whole<T>(
    run: FrameRun,
    frame: Result<SurfaceFrameCommit<T>, Error>,
    collected: CollectedStats,
    encode_time: u64,
    uploaded: HashSet<u64>,
    frame_time: u64,
)
    ensures
        forall|renderer: &mut Renderer, surface: &mut Surface<T>, conclusion: FrameConclusion|
         #[trigger]
            call_ensures(
                FrameRun::executed::<T>,
                (run, renderer, surface, frame, collected, encode_time, uploaded, frame_time),
                conclusion,
            ) ==> {
                let before = *surface;
                let after = *final(surface);
                &&& conclusion is Published <==> frame is Ok
                &&& frame matches Ok(commit) ==> {
                    let stats = conclusion->Published_stats;
                    &&& stats.render_time == commit.render_time
                    &&& stats.present_time == commit.present_time
                    &&& stats.frame_time == frame_time
                    &&& stats.encode_time == encode_time
                    &&& stats.commands == collected.commands
                    &&& stats.image_uploads == collected.image_uploads
                    &&& (*final(renderer)).stats == stats
                    &&& (*final(renderer)).uploaded_images == uploaded
                    &&& after.last_parameters == Some(run.parameters)
                    &&& after.options == before.options
                    &&& before.backend is Headless && commit.texture is Some ==> {
                        &&& after.backend is Headless
                        &&& after.backend->Headless_resources
                            == (HeadlessResources::Ready { texture: commit.texture->0 })
                        &&& after.backend->Headless_physical_size
                            == before.backend->Headless_physical_size
                        &&& after.backend->Headless_device_identity
                            == before.backend->Headless_device_identity
                    }
                    &&& !(before.backend is Headless) ==> after.backend == before.backend
                }
                &&& frame matches Err(error) ==> {
                    &&& after == before
                    &&& (*final(renderer)).stats == (*renderer).stats
                    &&& (*final(renderer)).uploaded_images == (*renderer).uploaded_images
                    &&& error != Error::SurfaceOutdated || run.ingress is SpatialFilters
                        || run.ingress is Backdrop || !(before.backend is Presented)
                        || !before.backend->Presented_state.needs_configuration ==> conclusion
                        == (FrameConclusion::Failed { error })
                    &&& conclusion matches FrameConclusion::Reconfigure {
                        configuration,
                        error: kept,
                    } ==> {
                        &&& kept == error
                        &&& before.backend is Presented
                        &&& configuration.physical_size
                            == before.backend->Presented_state.requested_physical_size
                        &&& configuration.present_mode == before.options.present_mode
                        &&& configuration.device_identity
                            == before.backend->Presented_device_identity
                    }
                }
            },
{
}

/// A frame goes on after its surface was configured, in the native format that came back; a failed
/// configuration, or a device that ended meanwhile, ends it and leaves the surface as it was. Nothing is
/// published on the way.
pub proof fn law_configured_frames_go_on<T>(run: FrameRun, native: Result<NativeFormat, Error>)
    ensures
        forall|renderer: &mut Renderer, surface: &mut Surface<T>, step: FrameStep| #[trigger]
            call_ensures(FrameRun::configured::<T>, (run, renderer, surface, native), step) ==> {
                let before = *surface;
                let after = *final(surface);
                &&& !(step is Configure)
                &&& step is Execute <==> native is Ok && (*renderer).terminal_failure(
                    &before,
                    RuntimeOperation::SurfaceRendering,
                ) is None
                &&& native matches Err(error) ==> step == (FrameStep::Failed { error })
                &&& step is Failed ==> after == before
                &&& step is Execute && before.backend is Presented ==> {
                    &&& after.backend is Presented
                    &&& after.backend->Presented_native_format == native->Ok_0
                    &&& !after.backend->Presented_state.needs_configuration
                    &&& after.backend->Presented_state.requested_physical_size
                        == before.backend->Presented_state.requested_physical_size
                    &&& after.backend->Presented_device_identity
                        == before.backend->Presented_device_identity
                }
                &&& after.options == before.options
                &&& after.last_parameters == before.last_parameters
                &&& (*final(renderer)).stats == (*renderer).stats
                &&& (*final(renderer)).uploaded_images == (*renderer).uploaded_images
            },
        forall|renderer: &mut Renderer, surface: &mut Surface<T>, error: Error, reported: Error|
         #[trigger]
            call_ensures(
                FrameRun::reconfigured::<T>,
                (run, renderer, surface, error, native),
                reported,
            ) ==> {
                &&& native matches Err(failed) ==> reported == failed
                &&& native is Ok && (*renderer).terminal_failure(
                    &*surface,
                    RuntimeOperation::SurfaceRendering,
                ) is None ==> reported == error
                &&& (*final(renderer)).stats == (*renderer).stats
                &&& (*final(surface)).last_parameters == (*surface).last_parameters
                &&& (*final(surface)).options == (*surface).options
            },
{
}

/// A scene is planned for the surface that it is drawn on: for its own width, height and scale, with the
/// antialiasing of the renderer and the base color of the frame, each channel in its place. A plan that
/// fails is the failure of the whole and dispatches nothing.
pub proof fn law_executions_are_planned_for_their_surface<
    C,
    G,
    P,
    T,
    L: FnOnce(FrameContext) -> Result<FramePlan<C, G>, Error>,
    F: FnOnce(&G, Format, ExecutableGraphWorkingFormatRequest, DeviceCapabilities) -> Result<
        ExecutableGraphDispatchEligibility<P>,
        Error,
    >,
>(
    renderer: &Renderer,
    surface: &Surface<T>,
    parameters: Parameters,
    identity: DeviceSlotIdentity,
    plan: L,
    classify: F,
)
    ensures
        forall|
            observation: &mut DispatchObservation,
            result: Result<(RendererFrameDispatch<C, P>, PreparedExecution), Error>,
        | #[trigger]
            call_ensures(
                Renderer::prepare_render_execution::<C, G, P, T, L, F>,
                (renderer, observation, surface, parameters, identity, plan, classify),
                result,
            ) ==> exists|context: FrameContext, planned: Result<FramePlan<C, G>, Error>|
                {
                    &&& #[trigger] call_ensures(plan, (context,), planned)
                    &&& context.width == surface.options.width
                    &&& context.height == surface.options.height
                    &&& context.scale == surface.options.scale
                    &&& context.antialiasing == renderer.options@.antialiasing
                    &&& context.base_red == parameters.base_red
                    &&& context.base_green == parameters.base_green
                    &&& context.base_blue == parameters.base_blue
                    &&& context.base_alpha == parameters.base_alpha
                    &&& planned matches Err(error) ==> result == Err::<
                        (RendererFrameDispatch<C, P>, PreparedExecution),
                        Error,
                    >(error) && *final(observation) == *observation
                },
{
    assert forall|
        observation: &mut DispatchObservation,
        result: Result<(RendererFrameDispatch<C, P>, PreparedExecution), Error>,
    | #[trigger]
        call_ensures(
            Renderer::prepare_render_execution::<C, G, P, T, L, F>,
            (renderer, observation, surface, parameters, identity, plan, classify),
            result,
        ) implies exists|context: FrameContext, planned: Result<FramePlan<C, G>, Error>|
        {
            &&& #[trigger] call_ensures(plan, (context,), planned)
            &&& context.width == surface.options.width
            &&& context.height == surface.options.height
            &&& context.scale == surface.options.scale
            &&& context.antialiasing == renderer.options@.antialiasing
            &&& context.base_red == parameters.base_red
            &&& context.base_green == parameters.base_green
            &&& context.base_blue == parameters.base_blue
            &&& context.base_alpha == parameters.base_alpha
            &&& planned matches Err(error) ==> result == Err::<
                (RendererFrameDispatch<C, P>, PreparedExecution),
                Error,
            >(error) && *final(observation) == *observation
        } by {
        let context = renderer.spec_frame_context(surface, parameters);
        let planned = choose|planned: Result<FramePlan<C, G>, Error>|
            {
                &&& #[trigger] call_ensures(plan, (context,), planned)
                &&& is_prepared(
                    result,
                    *observation,
                    *final(observation),
                    planned,
                    classify,
                    surface_format(surface),
                    ExecutableGraphWorkingFormatRequest::ConfiguredPolicy(
                        renderer.options@.effect_quality_policy,
                    ),
                    renderer.spec_dispatch_capabilities(identity),
                )
            };
        assert(call_ensures(plan, (context,), planned));
    }
}

} // verus!

//! Graphs that are rendered past the planning of scenes: a forced base spine, authored filters and
//! a bounded backdrop.

use vstd::prelude::*;

use crate::dispatch::{
    capture_grids_match, classify_fixture_dispatch, classify_frame_dispatch, dispatch_of,
    fixture_graph, CaptureGrid, DispatchObservation, ExactSurfaceGraph,
    ExecutableGraphDispatchEligibility, ExecutableGraphWorkingFormatRequest, FrameFixture,
    FramePlan, GraphLoweringPassKind, RendererFrameDispatch,
};
use crate::error::{Error, ExactGraph, RenderFailure};
use crate::frame::{FrameContext, FrameIngress, FrameRun};
use crate::geometry::PhysicalSize;
use crate::pass::c08::C08ExecutionFacts;
use crate::pass::closed::ClosedExecutableGraph;
use crate::pass::model::RuntimeSpatialDescriptor;
use crate::renderer::{PreparedExecution, Renderer, Stats};
use crate::runtime::{
    law_observation_keeps_answers, runtime_unavailable, unavailable, DeviceCapabilities,
    DeviceSlotIdentity, Format, RuntimeCapabilityUnavailableReason, RuntimeOperation,
    WorkingFormat,
};
use crate::surface::{runtime_surface_format, surface_format, Parameters, Surface};

verus! {

/// A closed graph that is an exact base spine.
#[derive(Debug)]
pub struct C08PreparableGraph {
    pub closed: ClosedExecutableGraph,
    pub execution: C08ExecutionFacts,
}

/// A forced spine that is ready to be run.
#[derive(Debug)]
pub struct ForcedSpinePreparation {
    pub device_identity: DeviceSlotIdentity,
    pub preparable: C08PreparableGraph,
    pub working_format: WorkingFormat,
    pub parameters: Parameters,
    pub output_extent: PhysicalSize,
    pub captures: Vec<CaptureGrid>,
}

/// A graph that ordinary commands were forced into, with the kinds of its passes and the grids of
/// its captures.
#[derive(Debug)]
pub struct PlannedSpine<G> {
    pub passes: Vec<GraphLoweringPassKind>,
    pub graph: G,
    pub captures: Vec<CaptureGrid>,
}

impl<G> PlannedSpine<G> {
    /// The spine as a planned frame.
    pub open spec fn plan(self) -> FramePlan<(), G> {
        FramePlan::GpuGraph(self.passes, self.graph)
    }
}

/// Whether two runs of capture grids are numerically equal.
pub open spec fn grids_match(captures: Seq<CaptureGrid>, prepared: Seq<CaptureGrid>) -> bool {
    &&& captures.len() == prepared.len()
    &&& forall|i: int| 0 <= i < captures.len() ==> (#[trigger] captures[i]).matches(prepared[i])
}

/// The capture grids of execution facts.
pub open spec fn grids_of(facts: C08ExecutionFacts) -> Seq<CaptureGrid> {
    Seq::new(
        facts.captures@.len(),
        |i: int|
            CaptureGrid {
                texel_origin_x: facts.captures@[i].texel_x,
                texel_origin_y: facts.captures@[i].texel_y,
                extent: facts.captures@[i].target_extent,
                raster_scale: facts.captures@[i].raster_scale,
            },
    )
}

/// What a dispatched spine gives: it must be the base spine, have a root, and keep the capture
/// grids of the graph that it was lowered from.
pub open spec fn forced_outcome<C>(
    dispatch: Result<RendererFrameDispatch<C, C08PreparableGraph>, Error>,
    captures: Seq<CaptureGrid>,
) -> Result<(C08PreparableGraph, PhysicalSize), Error> {
    match dispatch {
        Err(error) => Err(error),
        Ok(RendererFrameDispatch::ExactGraph(ExactSurfaceGraph::C08(preparable))) => {
            match preparable.closed.spec_output_extent(ExactGraph::C08) {
                Err(error) => Err(error),
                Ok(extent) => if grids_match(captures, grids_of(preparable.execution)) {
                    Ok((preparable, extent))
                } else {
                    Err(Error::Render(RenderFailure::CaptureGridDiffers))
                },
            }
        },
        Ok(_) => Err(Error::Render(RenderFailure::OutsideForcedSpine)),
    }
}

/// Whether a preparation, or its failure, is what an outcome says.
pub open spec fn is_forced_preparation(
    result: Result<ForcedSpinePreparation, Error>,
    outcome: Result<(C08PreparableGraph, PhysicalSize), Error>,
    captures: Seq<CaptureGrid>,
) -> bool {
    match outcome {
        Err(error) => result == Err::<ForcedSpinePreparation, Error>(error),
        Ok((preparable, extent)) => result matches Ok(prepared) && {
            &&& prepared.preparable == preparable
            &&& prepared.output_extent == extent
            &&& prepared.captures@ == captures
        },
    }
}

/// Whether a forced spine was prepared, and counted, on a device: a failed plan comes before lost
/// capabilities, and the graph is classified for the output format, exactly the working format that
/// was asked for, and the device.
pub open spec fn is_forced<
    G,
    F: FnOnce(&G, Format, ExecutableGraphWorkingFormatRequest, DeviceCapabilities) -> Result<
        ExecutableGraphDispatchEligibility<C08PreparableGraph>,
        Error,
    >,
>(
    result: Result<ForcedSpinePreparation, Error>,
    before: DispatchObservation,
    after: DispatchObservation,
    planned: Result<PlannedSpine<G>, Error>,
    classify: F,
    output_format: Format,
    working_format: WorkingFormat,
    capabilities: Option<DeviceCapabilities>,
) -> bool {
    match (planned, capabilities) {
        (Err(error), _) => {
            &&& result == Err::<ForcedSpinePreparation, Error>(error)
            &&& after == before
        },
        (Ok(_), None) => {
            &&& result == Err::<ForcedSpinePreparation, Error>(
                Error::Render(RenderFailure::ForcedSpineCapabilitiesLost),
            )
            &&& after == before
        },
        (Ok(planned), Some(capabilities)) => exists|
            eligibility: Result<ExecutableGraphDispatchEligibility<C08PreparableGraph>, Error>,
        |
            {
                &&& #[trigger] call_ensures(
                    classify,
                    (
                        &planned.graph,
                        output_format,
                        ExecutableGraphWorkingFormatRequest::Exact(working_format),
                        capabilities,
                    ),
                    eligibility,
                )
                &&& is_forced_preparation(
                    result,
                    forced_outcome(dispatch_of(planned.plan(), eligibility), planned.captures@),
                    planned.captures@,
                )
                &&& after == before.counted(planned.plan(), eligibility)
            },
    }
}

/// Whether a fixture was prepared, and counted, on a device, for the output format and exactly the
/// working format that was asked for.
pub open spec fn is_fixture<
    C,
    G,
    F: FnOnce(&G, Format, WorkingFormat, DeviceCapabilities) -> Result<
        ClosedExecutableGraph,
        Error,
    >,
>(
    result: Result<FixturePreparation, Error>,
    before: DispatchObservation,
    after: DispatchObservation,
    fixture: FrameFixture,
    planned: Result<FramePlan<C, G>, Error>,
    classify: F,
    output_format: Format,
    working_format: WorkingFormat,
    capabilities: Option<DeviceCapabilities>,
) -> bool {
    match (planned, capabilities) {
        (Err(error), _) => {
            &&& result == Err::<FixturePreparation, Error>(error)
            &&& after == before
        },
        (Ok(FramePlan::DirectVello(_)), _) => {
            &&& result == Err::<FixturePreparation, Error>(
                Error::Render(RenderFailure::BackdropFixtureNotPlanned),
            )
            &&& after == before
        },
        (Ok(FramePlan::GpuGraph(_, _)), None) => {
            &&& result == Err::<FixturePreparation, Error>(
                Error::Render(spec_lost_capabilities(fixture)),
            )
            &&& after == before
        },
        (Ok(FramePlan::GpuGraph(_, graph)), Some(capabilities)) => exists|
            closed: Result<ClosedExecutableGraph, Error>,
        |
            {
                &&& #[trigger] call_ensures(
                    classify,
                    (&graph, output_format, working_format, capabilities),
                    closed,
                )
                &&& after == before.counted_fixture(fixture, closed is Ok)
                &&& match fixture_outcome(fixture, closed) {
                    Err(error) => result == Err::<FixturePreparation, Error>(error),
                    Ok((output_extent, source, target)) => result matches Ok(prepared) && {
                        &&& prepared.graph == fixture_graph(fixture, closed->Ok_0)
                        &&& prepared.output_extent == output_extent
                        &&& prepared.source == source
                        &&& prepared.target == target
                    },
                }
            },
    }
}

impl Renderer {
    pub(crate) proof fn lemma_unchanged_capabilities(
        &self,
        before: &Renderer,
        identity: DeviceSlotIdentity,
    )
        requires
            self.unchanged(before),
        ensures
            self.spec_dispatch_capabilities(identity) == before.spec_dispatch_capabilities(
                identity,
            ),
    {
        if let (Some(backend), Some(other)) = (self.backend, before.backend) {
            law_observation_keeps_answers(&backend, &other, identity);
        }
    }

    /// Prepares ordinary commands that are forced through the base spine, in exactly the working
    /// format that is asked for. `plan` forces the commands into a graph.
    pub fn prepare_forced_c08_graph<
        G,
        T,
        L: FnOnce(FrameContext) -> Result<PlannedSpine<G>, Error>,
        F: FnOnce(&G, Format, ExecutableGraphWorkingFormatRequest, DeviceCapabilities) -> Result<
            ExecutableGraphDispatchEligibility<C08PreparableGraph>,
            Error,
        >,
    >(
        &mut self,
        observation: &mut DispatchObservation,
        surface: &Surface<T>,
        parameters: Parameters,
        working_format: WorkingFormat,
        plan: L,
        classify: F,
    ) -> (result: Result<ForcedSpinePreparation, Error>)
        requires
            forall|context: FrameContext| #[trigger] call_requires(plan, (context,)),
            forall|
                graph: &G,
                format: Format,
                request: ExecutableGraphWorkingFormatRequest,
                capabilities: DeviceCapabilities,
            | #[trigger]
                call_requires(classify, (graph, format, request, capabilities)),
        ensures
            final(self).unchanged(old(self)),
            match old(self).render_failure(surface) {
                Some(error) => {
                    &&& result == Err::<ForcedSpinePreparation, Error>(error)
                    &&& *final(observation) == *old(observation)
                },
                None => exists|planned: Result<PlannedSpine<G>, Error>|
                    {
                        &&& #[trigger] call_ensures(
                            plan,
                            (old(self).spec_frame_context(surface, parameters),),
                            planned,
                        )
                        &&& is_forced(
                            result,
                            *old(observation),
                            *final(observation),
                            planned,
                            classify,
                            surface_format(surface),
                            working_format,
                            old(self).surface_capabilities(surface),
                        )
                    },
            },
            result matches Ok(prepared) ==> {
                &&& Some(prepared.device_identity) == surface.spec_device_identity()
                &&& prepared.working_format == working_format
                &&& prepared.parameters == parameters
            },
    {
        let device_identity = match self.render_device_identity(surface) {
            Ok(device_identity) => device_identity,
            Err(error) => return Err(error),
        };
        proof {
            self.lemma_unchanged_capabilities(old(self), device_identity);
        }
        let planned = plan(self.frame_context(surface, parameters));
        let planned = match planned {
            Ok(planned) => planned,
            Err(error) => return Err(error),
        };
        let capabilities = match self.dispatch_capabilities(device_identity) {
            Ok(capabilities) => capabilities,
            Err(_) => return Err(Error::Render(RenderFailure::ForcedSpineCapabilitiesLost)),
        };
        let eligibility = classify(
            &planned.graph,
            runtime_surface_format(surface),
            ExecutableGraphWorkingFormatRequest::Exact(working_format),
            capabilities,
        );
        let captures = planned.captures;
        let plan: FramePlan<(), G> = FramePlan::GpuGraph(planned.passes, planned.graph);
        let preparable = match classify_frame_dispatch(observation, plan, eligibility) {
            Err(error) => return Err(error),
            Ok(RendererFrameDispatch::ExactGraph(ExactSurfaceGraph::C08(preparable))) => preparable,
            Ok(_) => return Err(Error::Render(RenderFailure::OutsideForcedSpine)),
        };
        let output_extent = match preparable.closed.output_extent(ExactGraph::C08) {
            Ok(output_extent) => output_extent,
            Err(error) => return Err(error),
        };
        let prepared = preparable.execution.capture_grids();
        assert(prepared@ =~= grids_of(preparable.execution));
        if !capture_grids_match(captures.as_slice(), prepared.as_slice()) {
            return Err(Error::Render(RenderFailure::CaptureGridDiffers));
        }
        Ok(
            ForcedSpinePreparation {
                device_identity,
                preparable,
                working_format,
                parameters,
                output_extent,
                captures,
            },
        )
    }

    /// Prepares a fixture in exactly the working format that is asked for: its surface has to take
    /// a frame, its graph has to be planned, and `classify` has to close it on the surface's
    /// device.
    pub fn prepare_fixture<
        C,
        G,
        T,
        L: FnOnce(FrameContext) -> Result<FramePlan<C, G>, Error>,
        F: FnOnce(&G, Format, WorkingFormat, DeviceCapabilities) -> Result<
            ClosedExecutableGraph,
            Error,
        >,
    >(
        &mut self,
        observation: &mut DispatchObservation,
        surface: &Surface<T>,
        parameters: Parameters,
        working_format: WorkingFormat,
        fixture: FrameFixture,
        plan: L,
        classify: F,
    ) -> (result: Result<FixturePreparation, Error>)
        requires
            forall|context: FrameContext| #[trigger] call_requires(plan, (context,)),
            fixture != FrameFixture::Backdrop ==> forall|
                context: FrameContext,
                planned: Result<FramePlan<C, G>, Error>,
            | #[trigger]
                call_ensures(plan, (context,), planned) ==> !(planned matches Ok(
                    FramePlan::DirectVello(_),
                )),
            forall|
                graph: &G,
                format: Format,
                working_format: WorkingFormat,
                capabilities: DeviceCapabilities,
            | #[trigger]
                call_requires(classify, (graph, format, working_format, capabilities)),
        ensures
            final(self).unchanged(old(self)),
            match old(self).render_failure(surface) {
                Some(error) => {
                    &&& result == Err::<FixturePreparation, Error>(error)
                    &&& *final(observation) == *old(observation)
                },
                None => exists|planned: Result<FramePlan<C, G>, Error>|
                    {
                        &&& #[trigger] call_ensures(
                            plan,
                            (old(self).spec_frame_context(surface, parameters),),
                            planned,
                        )
                        &&& is_fixture(
                            result,
                            *old(observation),
                            *final(observation),
                            fixture,
                            planned,
                            classify,
                            surface_format(surface),
                            working_format,
                            old(self).surface_capabilities(surface),
                        )
                    },
            },
            result matches Ok(prepared) ==> {
                &&& Some(prepared.device_identity) == surface.spec_device_identity()
                &&& prepared.fixture == fixture
                &&& prepared.working_format == working_format
                &&& prepared.parameters == parameters
            },
    {
        let device_identity = match self.render_device_identity(surface) {
            Ok(device_identity) => device_identity,
            Err(error) => return Err(error),
        };
        proof {
            self.lemma_unchanged_capabilities(old(self), device_identity);
        }
        let planned = plan(self.frame_context(surface, parameters));
        let graph = match planned {
            Ok(FramePlan::GpuGraph(_, graph)) => graph,
            Ok(FramePlan::DirectVello(_)) => {
                return Err(Error::Render(RenderFailure::BackdropFixtureNotPlanned));
            },
            Err(error) => return Err(error),
        };
        let capabilities = match self.dispatch_capabilities(device_identity) {
            Ok(capabilities) => capabilities,
            Err(_) => return Err(Error::Render(lost_capabilities(fixture))),
        };
        let closed = classify(
            &graph,
            runtime_surface_format(surface),
            working_format,
            capabilities,
        );
        let graph = match classify_fixture_dispatch(observation, fixture, closed) {
            Ok(graph) => graph,
            Err(error) => return Err(error),
        };
        let (output_extent, source, target) = match fixture_mapping(&graph) {
            Ok(mapping) => mapping,
            Err(error) => return Err(error),
        };
        Ok(
            FixturePreparation {
                device_identity,
                fixture,
                graph,
                working_format,
                parameters,
                output_extent,
                source,
                target,
            },
        )
    }

    /// The device and the working format that a planned graph's resources are prepared for.
    pub fn resource_preparation_target<C, G>(&self, plan: Result<FramePlan<C, G>, Error>) -> (target:
        Result<(DeviceSlotIdentity, WorkingFormat), Error>)
        ensures
            target == self.spec_preparation_target(plan),
    {
        match plan {
            Ok(FramePlan::GpuGraph(_, _)) => {},
            Ok(FramePlan::DirectVello(_)) => {
                return Err(Error::Render(RenderFailure::PreparationNotPlanned));
            },
            Err(error) => return Err(error),
        }
        let no_adapter = RuntimeCapabilityUnavailableReason::AdapterUnavailable;
        let device_identity = match self.default_device {
            Some(device_identity) => device_identity,
            None => return Err(
                runtime_unavailable(RuntimeOperation::EffectRendering, no_adapter),
            ),
        };
        let backend = match &self.backend {
            Some(backend) => backend,
            None => return Err(
                runtime_unavailable(RuntimeOperation::EffectRendering, no_adapter),
            ),
        };
        let capabilities = match backend.device_capabilities(device_identity) {
            Some(capabilities) => capabilities,
            None => return Err(Error::Render(RenderFailure::PreparationCapabilitiesLost)),
        };
        match capabilities.resolve_effect_working_format(self.options.effect_quality_policy()) {
            Ok(working_format) => Ok((device_identity, working_format)),
            Err(error) => Err(error),
        }
    }

    /// A graph has to be planned, on a renderer with a default device whose capabilities are known
    /// and give the quality that is asked for.
    pub open spec fn spec_preparation_target<C, G>(
        &self,
        plan: Result<FramePlan<C, G>, Error>,
    ) -> Result<(DeviceSlotIdentity, WorkingFormat), Error> {
        let no_adapter = unavailable(
            RuntimeOperation::EffectRendering,
            RuntimeCapabilityUnavailableReason::AdapterUnavailable,
        );
        match (plan, self.default_device, self.backend) {
            (Err(error), _, _) => Err(error),
            (Ok(FramePlan::DirectVello(_)), _, _) => Err(
                Error::Render(RenderFailure::PreparationNotPlanned),
            ),
            (_, None, _) => Err(no_adapter),
            (_, _, None) => Err(no_adapter),
            (_, Some(identity), Some(backend)) => match backend.spec_device_capabilities(identity) {
                None => Err(Error::Render(RenderFailure::PreparationCapabilitiesLost)),
                Some(capabilities) => match capabilities.spec_working_format(
                    self.options@.effect_quality_policy,
                ) {
                    Ok(working_format) => Ok((identity, working_format)),
                    Err(error) => Err(error),
                },
            },
        }
    }
}

/// A fixture that is ready to be run. The source and the target are where its first filter reads
/// and writes, or where the backdrop's parent and its copy lie.
#[derive(Debug)]
pub struct FixturePreparation {
    pub device_identity: DeviceSlotIdentity,
    pub fixture: FrameFixture,
    pub graph: ExactSurfaceGraph<ClosedExecutableGraph>,
    pub working_format: WorkingFormat,
    pub parameters: Parameters,
    pub output_extent: PhysicalSize,
    pub source: RuntimeSpatialDescriptor,
    pub target: Option<RuntimeSpatialDescriptor>,
}

/// How a fixture's device without capabilities is reported.
pub open spec fn spec_lost_capabilities(fixture: FrameFixture) -> RenderFailure {
    match fixture {
        FrameFixture::ColorFilters => RenderFailure::ColorFixtureCapabilitiesLost,
        FrameFixture::SpatialFilters => RenderFailure::SpatialFixtureCapabilitiesLost,
        FrameFixture::Backdrop => RenderFailure::BackdropFixtureCapabilitiesLost,
    }
}

fn lost_capabilities(fixture: FrameFixture) -> (failure: RenderFailure)
    ensures
        failure == spec_lost_capabilities(fixture),
{
    match fixture {
        FrameFixture::ColorFilters => RenderFailure::ColorFixtureCapabilitiesLost,
        FrameFixture::SpatialFilters => RenderFailure::SpatialFixtureCapabilitiesLost,
        FrameFixture::Backdrop => RenderFailure::BackdropFixtureCapabilitiesLost,
    }
}

/// The exact graph that a fixture is bound to.
pub open spec fn spec_exact_graph(fixture: FrameFixture) -> ExactGraph {
    match fixture {
        FrameFixture::ColorFilters => ExactGraph::C10,
        FrameFixture::SpatialFilters => ExactGraph::C11,
        FrameFixture::Backdrop => ExactGraph::C12,
    }
}

/// The extent of a closed fixture and where it reads and writes; a color filter writes where it
/// reads.
pub open spec fn fixture_outcome(
    fixture: FrameFixture,
    closed: Result<ClosedExecutableGraph, Error>,
) -> Result<(PhysicalSize, RuntimeSpatialDescriptor, Option<RuntimeSpatialDescriptor>), Error> {
    match closed {
        Err(error) => Err(error),
        Ok(closed) => match closed.spec_output_extent(spec_exact_graph(fixture)) {
            Err(error) => Err(error),
            Ok(extent) => match fixture {
                FrameFixture::ColorFilters => match closed.spec_first_color_spatial() {
                    Some(source) => Ok((extent, source, None)),
                    None => Err(Error::Render(RenderFailure::ColorFixtureSourceLost)),
                },
                FrameFixture::SpatialFilters => match closed.spec_first_filter_spatial() {
                    Some((source, target)) => Ok((extent, source, Some(target))),
                    None => Err(Error::Render(RenderFailure::SpatialFixtureMappingLost)),
                },
                FrameFixture::Backdrop => match closed.spec_backdrop_spatial() {
                    Some((parent, copied)) => Ok((extent, parent, Some(copied))),
                    None => Err(Error::Render(RenderFailure::BackdropFixtureMappingLost)),
                },
            },
        },
    }
}

/// The mapping of a graph that a fixture is bound to.
fn fixture_mapping(graph: &ExactSurfaceGraph<ClosedExecutableGraph>) -> (mapping: Result<
    (PhysicalSize, RuntimeSpatialDescriptor, Option<RuntimeSpatialDescriptor>),
    Error,
>)
    requires
        graph is C10 || graph is C11 || graph is C12,
    ensures
        match *graph {
            ExactSurfaceGraph::C10(closed) => mapping == fixture_outcome(
                FrameFixture::ColorFilters,
                Ok(closed),
            ),
            ExactSurfaceGraph::C11(closed) => mapping == fixture_outcome(
                FrameFixture::SpatialFilters,
                Ok(closed),
            ),
            ExactSurfaceGraph::C12(closed) => mapping == fixture_outcome(
                FrameFixture::Backdrop,
                Ok(closed),
            ),
            _ => true,
        },
{
    let (closed, exact) = match graph {
        ExactSurfaceGraph::C08(closed) => (closed, ExactGraph::C08),
        ExactSurfaceGraph::C09(closed) => (closed, ExactGraph::C09),
        ExactSurfaceGraph::C10(closed) => (closed, ExactGraph::C10),
        ExactSurfaceGraph::C11(closed) => (closed, ExactGraph::C11),
        ExactSurfaceGraph::C12(closed) => (closed, ExactGraph::C12),
    };
    let extent = match closed.output_extent(exact) {
        Ok(extent) => extent,
        Err(error) => return Err(error),
    };
    match graph {
        ExactSurfaceGraph::C10(closed) => match closed.first_color_spatial() {
            Some(source) => Ok((extent, source, None)),
            None => Err(Error::Render(RenderFailure::ColorFixtureSourceLost)),
        },
        ExactSurfaceGraph::C11(closed) => match closed.first_filter_spatial() {
            Some((source, target)) => Ok((extent, source, Some(target))),
            None => Err(Error::Render(RenderFailure::SpatialFixtureMappingLost)),
        },
        _ => match closed.backdrop_spatial() {
            Some((parent, copied)) => Ok((extent, parent, Some(copied))),
            None => Err(Error::Render(RenderFailure::BackdropFixtureMappingLost)),
        },
    }
}

/// A rendered spine.
#[derive(Debug)]
pub struct ForcedSpineRender {
    pub stats: Stats,
    pub working_format: WorkingFormat,
    pub output_extent: PhysicalSize,
    pub captures: Vec<CaptureGrid>,
}

impl ForcedSpinePreparation {
    /// The run of this frame.
    pub fn run(&self) -> (run: FrameRun)
        ensures
            run == (FrameRun {
                ingress: FrameIngress::ForcedSpine,
                device_identity: self.device_identity,
                execution: PreparedExecution::ExactGraph { working_format: self.working_format },
                parameters: self.parameters,
            }),
    {
        FrameRun {
            ingress: FrameIngress::ForcedSpine,
            device_identity: self.device_identity,
            execution: PreparedExecution::ExactGraph { working_format: self.working_format },
            parameters: self.parameters,
        }
    }

    /// What is reported of this frame once it was published.
    pub fn rendered(self, stats: Stats) -> (render: ForcedSpineRender)
        ensures
            render.stats == stats,
            render.working_format == self.working_format,
            render.output_extent == self.output_extent,
            render.captures == self.captures,
    {
        ForcedSpineRender {
            stats,
            working_format: self.working_format,
            output_extent: self.output_extent,
            captures: self.captures,
        }
    }
}

/// A rendered fixture.
#[derive(Debug)]
pub struct FixtureRender {
    pub stats: Stats,
    pub working_format: WorkingFormat,
    pub output_extent: PhysicalSize,
    pub source: RuntimeSpatialDescriptor,
    pub target: Option<RuntimeSpatialDescriptor>,
}

impl FixturePreparation {
    /// The run of this frame.
    pub fn run(&self) -> (run: FrameRun)
        ensures
            run == (FrameRun {
                ingress: match self.fixture {
                    FrameFixture::ColorFilters => FrameIngress::ColorFilters,
                    FrameFixture::SpatialFilters => FrameIngress::SpatialFilters,
                    FrameFixture::Backdrop => FrameIngress::Backdrop,
                },
                device_identity: self.device_identity,
                execution: PreparedExecution::ExactGraph { working_format: self.working_format },
                parameters: self.parameters,
            }),
    {
        FrameRun {
            ingress: match self.fixture {
                FrameFixture::ColorFilters => FrameIngress::ColorFilters,
                FrameFixture::SpatialFilters => FrameIngress::SpatialFilters,
                FrameFixture::Backdrop => FrameIngress::Backdrop,
            },
            device_identity: self.device_identity,
            execution: PreparedExecution::ExactGraph { working_format: self.working_format },
            parameters: self.parameters,
        }
    }

    /// What is reported of this frame once it was published.
    pub fn rendered(&self, stats: Stats) -> (render: FixtureRender)
        ensures
            render == (FixtureRender {
                stats,
                working_format: self.working_format,
                output_extent: self.output_extent,
                source: self.source,
                target: self.target,
            }),
    {
        FixtureRender {
            stats,
            working_format: self.working_format,
            output_extent: self.output_extent,
            source: self.source,
            target: self.target,
        }
    }
}

/// The planner of a forced spine, and that of a fixture, is called for the surface that the frame is
/// rendered into: with the width, the height and the scale of its options, the renderer's antialiasing
/// and the frame's base color.
pub proof fn law_fixtures_are_planned_for_their_surface<
    C,
    G,
    T,
    LS: FnOnce(FrameContext) -> Result<PlannedSpine<G>, Error>,
    FS: FnOnce(&G, Format, ExecutableGraphWorkingFormatRequest, DeviceCapabilities) -> Result<
        ExecutableGraphDispatchEligibility<C08PreparableGraph>,
        Error,
    >,
    LF: FnOnce(FrameContext) -> Result<FramePlan<C, G>, Error>,
    FF: FnOnce(&G, Format, WorkingFormat, DeviceCapabilities) -> Result<
        ClosedExecutableGraph,
        Error,
    >,
>(
    surface: &Surface<T>,
    parameters: Parameters,
    working_format: WorkingFormat,
    fixture: FrameFixture,
    plan_spine: LS,
    classify_spine: FS,
    plan_fixture: LF,
    classify_fixture: FF,
)
    ensures
        forall|
            renderer: &mut Renderer,
            observation: &mut DispatchObservation,
            result: Result<ForcedSpinePreparation, Error>,
        | #[trigger]
            call_ensures(
                Renderer::prepare_forced_c08_graph::<G, T, LS, FS>,
                (
                    renderer,
                    observation,
                    surface,
                    parameters,
                    working_format,
                    plan_spine,
                    classify_spine,
                ),
                result,
            ) ==> {
                &&& (*renderer).render_failure(surface) is None ==> exists|
                    context: FrameContext,
                    planned: Result<PlannedSpine<G>, Error>,
                | #[trigger]
                    call_ensures(plan_spine, (context,), planned) && describes(
                        context,
                        &*renderer,
                        surface,
                        parameters,
                    )
                &&& (*renderer).render_failure(surface) matches Some(error) ==> result == Err::<
                    ForcedSpinePreparation,
                    Error,
                >(error)
                &&& result matches Ok(prepared) ==> prepared.working_format == working_format
                    && prepared.parameters == parameters && Some(prepared.device_identity)
                    == surface.spec_device_identity()
            },
        forall|
            renderer: &mut Renderer,
            observation: &mut DispatchObservation,
            result: Result<FixturePreparation, Error>,
        | #[trigger]
            call_ensures(
                Renderer::prepare_fixture::<C, G, T, LF, FF>,
                (
                    renderer,
                    observation,
                    surface,
                    parameters,
                    working_format,
                    fixture,
                    plan_fixture,
                    classify_fixture,
                ),
                result,
            ) ==> {
                &&& (*renderer).render_failure(surface) is None ==> exists|
                    context: FrameContext,
                    planned: Result<FramePlan<C, G>, Error>,
                | #[trigger]
                    call_ensures(plan_fixture, (context,), planned) && describes(
                        context,
                        &*renderer,
                        surface,
                        parameters,
                    )
                &&& (*renderer).render_failure(surface) matches Some(error) ==> result == Err::<
                    FixturePreparation,
                    Error,
                >(error)
                &&& result matches Ok(prepared) ==> prepared.working_format == working_format
                    && prepared.parameters == parameters && prepared.fixture == fixture && Some(
                    prepared.device_identity,
                ) == surface.spec_device_identity()
            },
{
}

/// Whether a context is that of a surface, a renderer and a frame.
pub open spec fn describes<T>(
    context: FrameContext,
    renderer: &Renderer,
    surface: &Surface<T>,
    parameters: Parameters,
) -> bool {
    &&& context.width == surface.options.width
    &&& context.height == surface.options.height
    &&& context.scale == surface.options.scale
    &&& context.antialiasing == renderer.options@.antialiasing
    &&& context.base_red == parameters.base_red
    &&& context.base_green == parameters.base_green
    &&& context.base_blue == parameters.base_blue
    &&& context.base_alpha == parameters.base_alpha
}

/// The run of a forced spine or a fixture enters as what it is, on the device, in the working format and
/// with the parameters that it was prepared with, and what was rendered is reported with them.
pub proof fn law_fixture_runs_keep_what_was_prepared(
    spine: ForcedSpinePreparation,
    spine_run: FrameRun,
    fixture: &FixturePreparation,
    fixture_run: FrameRun,
    stats: Stats,
    spine_render: ForcedSpineRender,
    fixture_render: FixtureRender,
)
    requires
        call_ensures(ForcedSpinePreparation::run, (&spine,), spine_run),
        call_ensures(FixturePreparation::run, (fixture,), fixture_run),
        call_ensures(ForcedSpinePreparation::rendered, (spine, stats), spine_render),
        call_ensures(FixturePreparation::rendered, (fixture, stats), fixture_render),
    ensures
        spine_run.ingress is ForcedSpine,
        spine_run.device_identity == spine.device_identity,
        spine_run.parameters == spine.parameters,
        spine_run.execution == (PreparedExecution::ExactGraph {
            working_format: spine.working_format,
        }),
        fixture_run.ingress is ColorFilters <==> fixture.fixture is ColorFilters,
        fixture_run.ingress is SpatialFilters <==> fixture.fixture is SpatialFilters,
        fixture_run.ingress is Backdrop <==> fixture.fixture is Backdrop,
        fixture_run.device_identity == fixture.device_identity,
        fixture_run.parameters == fixture.parameters,
        fixture_run.execution == (PreparedExecution::ExactGraph {
            working_format: fixture.working_format,
        }),
        spine_render.stats == stats,
        spine_render.working_format == spine.working_format,
        spine_render.output_extent.width == spine.output_extent.width,
        spine_render.output_extent.height == spine.output_extent.height,
        spine_render.captures@ == spine.captures@,
        fixture_render.stats == stats,
        fixture_render.working_format == fixture.working_format,
        fixture_render.output_extent.width == fixture.output_extent.width,
        fixture_render.output_extent.height == fixture.output_extent.height,
        fixture_render.source == fixture.source,
        fixture_render.target == fixture.target,
{
}

/// The capture grids of a spine have, capture by capture, the origin of its texels, its target's extent
/// and its raster scale.
pub proof fn law_grids_are_those_of_the_captures(facts: C08ExecutionFacts, i: int)
    requires
        0 <= i < facts.captures@.len(),
    ensures
        grids_of(facts).len() == facts.captures@.len(),
        grids_of(facts)[i].texel_origin_x == facts.captures@[i].texel_x,
        grids_of(facts)[i].texel_origin_y == facts.captures@[i].texel_y,
        grids_of(facts)[i].extent.width == facts.captures@[i].target_extent.width,
        grids_of(facts)[i].extent.height == facts.captures@[i].target_extent.height,
        grids_of(facts)[i].raster_scale == facts.captures@[i].raster_scale,
{
}

/// Resources are prepared on the renderer's default device, in the working format that its policy gives
/// there, exactly for a planned graph.
pub proof fn law_resources_are_prepared_on_the_default_device<C, G>(
    renderer: &Renderer,
    plan: Result<FramePlan<C, G>, Error>,
    target: Result<(DeviceSlotIdentity, WorkingFormat), Error>,
)
    requires
        call_ensures(
            Renderer::resource_preparation_target::<C, G>,
            (renderer, plan),
            target,
        ),
    ensures
        target matches Ok((identity, format)) ==> {
            &&& plan is Ok
            &&& plan->Ok_0 is GpuGraph
            &&& renderer.default_device == Some(identity)
            &&& renderer.backend matches Some(backend) && (backend.spec_device_capabilities(
                identity,
            ) matches Some(capabilities) && {
                &&& format is HighPrecision <==> capabilities.high_precision
                &&& format is ReducedPrecision ==> capabilities.reduced_precision
                    && renderer.options@.effect_quality_policy is AllowReducedPrecision
            })
        },
        plan matches Err(error) ==> (target matches Err(reported) && reported == error),
        plan matches Ok(FramePlan::DirectVello(_)) ==> target is Err,
        renderer.default_device is None ==> target is Err,
{
}

} // verus!

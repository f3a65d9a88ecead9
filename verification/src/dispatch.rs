//! The one place where a planned frame is bound to an execution route.

use vstd::prelude::*;

use crate::error::{
    Error, PrimitiveFamily, PrimitiveOperation, RenderFailure, UnsupportedPrimitive,
};
use crate::geometry::PhysicalSize;
use crate::options::EffectQualityPolicy;
use crate::runtime::{DeviceCapabilities, WorkingFormat};
use crate::scalar::Scalar;

verus! {

/// What a composite pass composes.
#[derive(Clone, Copy, Debug, PartialEq, Eq, Structural)]
pub enum GraphLoweringCompositeKind {
    SpanSourceOver,
    Layer,
    DropShadow,
}

/// One pass of a validated graph, as far as its executor depends on it. A pass that needs a
/// payload says whether it has one.
#[derive(Clone, Copy, Debug, PartialEq, Eq, Structural)]
pub enum GraphLoweringPassKind {
    ClearRoot,
    VelloCapture { has_payload: bool },
    CanonicalizeCapture,
    CopyBackdrop,
    ColorFilter { has_payload: bool },
    BlurHorizontal { has_payload: bool },
    BlurVertical { has_payload: bool },
    DropShadowColorize { has_payload: bool },
    Composite { kind: Option<GraphLoweringCompositeKind> },
    Present,
}

impl GraphLoweringPassKind {
    /// Whether the pass lacks the payload that it needs.
    pub open spec fn malformed(self) -> bool {
        match self {
            GraphLoweringPassKind::VelloCapture { has_payload } => !has_payload,
            GraphLoweringPassKind::ColorFilter { has_payload } => !has_payload,
            GraphLoweringPassKind::BlurHorizontal { has_payload } => !has_payload,
            GraphLoweringPassKind::BlurVertical { has_payload } => !has_payload,
            GraphLoweringPassKind::DropShadowColorize { has_payload } => !has_payload,
            GraphLoweringPassKind::Composite { kind } => kind is None,
            _ => false,
        }
    }

    /// The operation of the pass that has no executor of its own, if it has one.
    pub open spec fn future_operation(self) -> Option<PrimitiveOperation> {
        match self {
            GraphLoweringPassKind::CopyBackdrop => Some(PrimitiveOperation::BroadBackdropExecution),
            GraphLoweringPassKind::DropShadowColorize { .. } => Some(
                PrimitiveOperation::GpuDropShadowFilterExecution,
            ),
            GraphLoweringPassKind::Composite {
                kind: Some(GraphLoweringCompositeKind::DropShadow),
            } => Some(PrimitiveOperation::GpuDropShadowFilterExecution),
            GraphLoweringPassKind::BlurHorizontal { .. } => Some(
                PrimitiveOperation::GpuBlurFilterExecution,
            ),
            GraphLoweringPassKind::BlurVertical { .. } => Some(
                PrimitiveOperation::GpuBlurFilterExecution,
            ),
            GraphLoweringPassKind::ColorFilter { .. } => Some(
                PrimitiveOperation::GpuColorFilterExecution,
            ),
            _ => None,
        }
    }
}

pub open spec fn has_malformed_pass(passes: Seq<GraphLoweringPassKind>) -> bool {
    exists|i: int| 0 <= i < passes.len() && (#[trigger] passes[i]).malformed()
}

pub open spec fn has_future_operation(
    passes: Seq<GraphLoweringPassKind>,
    operation: PrimitiveOperation,
) -> bool {
    exists|i: int|
        0 <= i < passes.len() && (#[trigger] passes[i]).future_operation() == Some(operation)
}

/// The diagnostic of a graph that no executor takes: a malformed pass first, then the broadest
/// operation that lacks an executor.
pub open spec fn future_graph_error(passes: Seq<GraphLoweringPassKind>) -> Error {
    if has_malformed_pass(passes) {
        Error::Render(RenderFailure::MalformedGraph)
    } else if has_future_operation(passes, PrimitiveOperation::BroadBackdropExecution) {
        Error::UnsupportedPrimitive(
            UnsupportedPrimitive {
                family: PrimitiveFamily::OffscreenPipeline,
                operation: PrimitiveOperation::BroadBackdropExecution,
            },
        )
    } else if has_future_operation(passes, PrimitiveOperation::GpuDropShadowFilterExecution) {
        Error::UnsupportedPrimitive(
            UnsupportedPrimitive {
                family: PrimitiveFamily::Filters,
                operation: PrimitiveOperation::GpuDropShadowFilterExecution,
            },
        )
    } else if has_future_operation(passes, PrimitiveOperation::GpuBlurFilterExecution) {
        Error::UnsupportedPrimitive(
            UnsupportedPrimitive {
                family: PrimitiveFamily::Filters,
                operation: PrimitiveOperation::GpuBlurFilterExecution,
            },
        )
    } else if has_future_operation(passes, PrimitiveOperation::GpuColorFilterExecution) {
        Error::UnsupportedPrimitive(
            UnsupportedPrimitive {
                family: PrimitiveFamily::Filters,
                operation: PrimitiveOperation::GpuColorFilterExecution,
            },
        )
    } else {
        Error::Render(RenderFailure::NoUnavailablePass)
    }
}

/// Names why a graph that no executor takes cannot run.
pub fn reject_future_graph_with_typed_diagnostic(passes: &[GraphLoweringPassKind]) -> (error: Error)
    ensures
        error == future_graph_error(passes@),
{
    let mut has_copy_backdrop: bool = false;
    let mut has_color_filter: bool = false;
    let mut has_blur: bool = false;
    let mut has_drop_shadow: bool = false;
    let mut i: usize = 0;
    while i < passes.len()
        invariant
            i <= passes@.len(),
            forall|j: int| 0 <= j < i ==> !(#[trigger] passes@[j]).malformed(),
            has_copy_backdrop == exists|j: int|
                0 <= j < i && (#[trigger] passes@[j]).future_operation() == Some(
                    PrimitiveOperation::BroadBackdropExecution,
                ),
            has_drop_shadow == exists|j: int|
                0 <= j < i && (#[trigger] passes@[j]).future_operation() == Some(
                    PrimitiveOperation::GpuDropShadowFilterExecution,
                ),
            has_blur == exists|j: int|
                0 <= j < i && (#[trigger] passes@[j]).future_operation() == Some(
                    PrimitiveOperation::GpuBlurFilterExecution,
                ),
            has_color_filter == exists|j: int|
                0 <= j < i && (#[trigger] passes@[j]).future_operation() == Some(
                    PrimitiveOperation::GpuColorFilterExecution,
                ),
        decreases passes@.len() - i,
    {
        let ghost at = i as int;
        match passes[i] {
            GraphLoweringPassKind::ClearRoot
            | GraphLoweringPassKind::VelloCapture { has_payload: true }
            | GraphLoweringPassKind::CanonicalizeCapture
            | GraphLoweringPassKind::Present => {},
            GraphLoweringPassKind::CopyBackdrop => {
                has_copy_backdrop = true;
            },
            GraphLoweringPassKind::ColorFilter { has_payload: true } => {
                has_color_filter = true;
            },
            GraphLoweringPassKind::BlurHorizontal { has_payload: true }
            | GraphLoweringPassKind::BlurVertical { has_payload: true } => {
                has_blur = true;
            },
            GraphLoweringPassKind::DropShadowColorize { has_payload: true } => {
                has_drop_shadow = true;
            },
            GraphLoweringPassKind::Composite { kind: Some(kind) } => match kind {
                GraphLoweringCompositeKind::SpanSourceOver => {},
                GraphLoweringCompositeKind::Layer => {},
                GraphLoweringCompositeKind::DropShadow => {
                    has_drop_shadow = true;
                },
            },
            GraphLoweringPassKind::VelloCapture { has_payload: false }
            | GraphLoweringPassKind::ColorFilter { has_payload: false }
            | GraphLoweringPassKind::BlurHorizontal { has_payload: false }
            | GraphLoweringPassKind::BlurVertical { has_payload: false }
            | GraphLoweringPassKind::DropShadowColorize { has_payload: false }
            | GraphLoweringPassKind::Composite { kind: None } => {
                assert(passes@[at].malformed());
                return Error::Render(RenderFailure::MalformedGraph);
            },
        }
        assert(!passes@[at].malformed());
        i = i + 1;
    }
    if has_copy_backdrop {
        Error::UnsupportedPrimitive(
            UnsupportedPrimitive {
                family: PrimitiveFamily::OffscreenPipeline,
                operation: PrimitiveOperation::BroadBackdropExecution,
            },
        )
    } else if has_drop_shadow {
        Error::UnsupportedPrimitive(
            UnsupportedPrimitive {
                family: PrimitiveFamily::Filters,
                operation: PrimitiveOperation::GpuDropShadowFilterExecution,
            },
        )
    } else if has_blur {
        Error::UnsupportedPrimitive(
            UnsupportedPrimitive {
                family: PrimitiveFamily::Filters,
                operation: PrimitiveOperation::GpuBlurFilterExecution,
            },
        )
    } else if has_color_filter {
        Error::UnsupportedPrimitive(
            UnsupportedPrimitive {
                family: PrimitiveFamily::Filters,
                operation: PrimitiveOperation::GpuColorFilterExecution,
            },
        )
    } else {
        Error::Render(RenderFailure::NoUnavailablePass)
    }
}

/// A planned frame: commands for one raster pass, or a graph with the kinds of its passes.
pub enum FramePlan<C, G> {
    DirectVello(C),
    GpuGraph(Vec<GraphLoweringPassKind>, G),
}

/// The working format that a graph is to be executed in: one exactly, or what a policy gives on
/// the device.
#[derive(Clone, Copy, Debug, PartialEq, Eq, Structural)]
pub enum ExecutableGraphWorkingFormatRequest {
    Exact(WorkingFormat),
    ConfiguredPolicy(EffectQualityPolicy),
}

impl ExecutableGraphWorkingFormatRequest {
    /// The format that a request stands for on a device.
    pub open spec fn spec_resolve(self, capabilities: DeviceCapabilities) -> Result<
        WorkingFormat,
        Error,
    > {
        match self {
            ExecutableGraphWorkingFormatRequest::Exact(format) => Ok(format),
            ExecutableGraphWorkingFormatRequest::ConfiguredPolicy(policy) => {
                capabilities.spec_working_format(policy)
            },
        }
    }

    pub fn resolve(self, capabilities: DeviceCapabilities) -> (format: Result<WorkingFormat, Error>)
        ensures
            format == self.spec_resolve(capabilities),
    {
        match self {
            ExecutableGraphWorkingFormatRequest::Exact(format) => Ok(format),
            ExecutableGraphWorkingFormatRequest::ConfiguredPolicy(policy) => {
                capabilities.resolve_effect_working_format(policy)
            },
        }
    }
}

/// The executor that takes a graph, with what it prepared.
pub enum ExecutableGraphDispatchEligibility<P> {
    ExactC08(P),
    ExactC09(P),
    ExactC12(P),
    FuturePasses,
}

/// A graph bound to its executor.
#[derive(Debug)]
pub enum ExactSurfaceGraph<P> {
    C08(P),
    C09(P),
    C10(P),
    C11(P),
    C12(P),
}

/// A frame bound to exactly one route.
pub enum RendererFrameDispatch<C, P> {
    DirectVello(C),
    ExactGraph(ExactSurfaceGraph<P>),
}

/// How often each outcome of the dispatch boundary came up.
#[derive(Clone, Copy, Debug, PartialEq, Eq, Structural)]
pub struct DispatchObservation {
    pub boundary_invocations: usize,
    pub direct_vello_routes: usize,
    pub exact_c08_graph_routes: usize,
    pub exact_c09_graph_routes: usize,
    pub exact_c10_fixture_routes: usize,
    pub exact_c11_fixture_routes: usize,
    pub exact_c12_graph_routes: usize,
    pub exact_c12_fixture_routes: usize,
    pub future_pass_rejections: usize,
}

/// A graph that enters by a route of its own, past the classification of scenes.
#[derive(Clone, Copy, Debug, PartialEq, Eq, Structural)]
pub enum FrameFixture {
    /// Authored color filters.
    ColorFilters,
    /// Authored blurs and drop shadows.
    SpatialFilters,
    /// A bounded backdrop.
    Backdrop,
}

/// One more, up to the largest count.
pub open spec fn one_more(count: usize) -> usize {
    if count == usize::MAX {
        count
    } else {
        (count + 1) as usize
    }
}

impl DispatchObservation {
    pub fn new() -> (observation: Self)
        ensures
            observation.total() == 0,
            observation.boundary_invocations == 0,
    {
        Self {
            boundary_invocations: 0,
            direct_vello_routes: 0,
            exact_c08_graph_routes: 0,
            exact_c09_graph_routes: 0,
            exact_c10_fixture_routes: 0,
            exact_c11_fixture_routes: 0,
            exact_c12_graph_routes: 0,
            exact_c12_fixture_routes: 0,
            future_pass_rejections: 0,
        }
    }

    /// The routes and rejections that were counted.
    pub open spec fn total(self) -> int {
        self.direct_vello_routes + self.exact_c08_graph_routes + self.exact_c09_graph_routes
            + self.exact_c10_fixture_routes + self.exact_c11_fixture_routes
            + self.exact_c12_graph_routes + self.exact_c12_fixture_routes
            + self.future_pass_rejections
    }

    /// Every invocation of the boundary had at most one outcome, as long as the count lasts.
    pub open spec fn wf(self) -> bool {
        self.total() <= self.boundary_invocations || self.boundary_invocations == usize::MAX
    }

    /// The counts after one more frame: the invocation, and the one route or rejection it had.
    pub open spec fn counted<C, G, P>(
        self,
        plan: FramePlan<C, G>,
        eligibility: Result<ExecutableGraphDispatchEligibility<P>, Error>,
    ) -> DispatchObservation {
        let invoked = DispatchObservation {
            boundary_invocations: one_more(self.boundary_invocations),
            ..self
        };
        match plan {
            FramePlan::DirectVello(_) => DispatchObservation {
                direct_vello_routes: one_more(self.direct_vello_routes),
                ..invoked
            },
            FramePlan::GpuGraph(_, _) => match eligibility {
                Err(_) => invoked,
                Ok(ExecutableGraphDispatchEligibility::ExactC08(_)) => DispatchObservation {
                    exact_c08_graph_routes: one_more(self.exact_c08_graph_routes),
                    ..invoked
                },
                Ok(ExecutableGraphDispatchEligibility::ExactC09(_)) => DispatchObservation {
                    exact_c09_graph_routes: one_more(self.exact_c09_graph_routes),
                    ..invoked
                },
                Ok(ExecutableGraphDispatchEligibility::ExactC12(_)) => DispatchObservation {
                    exact_c12_graph_routes: one_more(self.exact_c12_graph_routes),
                    ..invoked
                },
                Ok(ExecutableGraphDispatchEligibility::FuturePasses) => DispatchObservation {
                    future_pass_rejections: one_more(self.future_pass_rejections),
                    ..invoked
                },
            },
        }
    }

    /// The counts after one more fixture, which was accepted or not.
    pub open spec fn counted_fixture(self, fixture: FrameFixture, accepted: bool) -> DispatchObservation {
        let invoked = DispatchObservation {
            boundary_invocations: one_more(self.boundary_invocations),
            ..self
        };
        if !accepted {
            invoked
        } else {
            match fixture {
                FrameFixture::ColorFilters => DispatchObservation {
                    exact_c10_fixture_routes: one_more(self.exact_c10_fixture_routes),
                    ..invoked
                },
                FrameFixture::SpatialFilters => DispatchObservation {
                    exact_c11_fixture_routes: one_more(self.exact_c11_fixture_routes),
                    ..invoked
                },
                FrameFixture::Backdrop => DispatchObservation {
                    exact_c12_fixture_routes: one_more(self.exact_c12_fixture_routes),
                    ..invoked
                },
            }
        }
    }
}

/// Every fixture is counted under at most one route.
pub proof fn law_each_fixture_has_one_outcome(
    observation: DispatchObservation,
    fixture: FrameFixture,
    accepted: bool,
)
    requires
        observation.wf(),
    ensures
        observation.counted_fixture(fixture, accepted).wf(),
        observation.counted_fixture(fixture, accepted).total() <= observation.total() + 1,
        !accepted ==> observation.counted_fixture(fixture, accepted).total()
            == observation.total(),
{
}

/// Every frame is counted under at most one route or rejection.
pub proof fn law_each_frame_has_one_outcome<C, G, P>(
    observation: DispatchObservation,
    plan: FramePlan<C, G>,
    eligibility: Result<ExecutableGraphDispatchEligibility<P>, Error>,
)
    requires
        observation.wf(),
    ensures
        observation.counted(plan, eligibility).wf(),
        observation.boundary_invocations < usize::MAX ==> observation.counted(
            plan,
            eligibility,
        ).total() <= observation.total() + 1,
{
}

/// The route of a frame, given what classification said of its graph.
pub open spec fn dispatch_of<C, G, P>(
    plan: FramePlan<C, G>,
    eligibility: Result<ExecutableGraphDispatchEligibility<P>, Error>,
) -> Result<RendererFrameDispatch<C, P>, Error> {
    match plan {
        FramePlan::DirectVello(commands) => Ok(RendererFrameDispatch::DirectVello(commands)),
        FramePlan::GpuGraph(passes, _) => match eligibility {
            Err(error) => Err(error),
            Ok(ExecutableGraphDispatchEligibility::ExactC08(prepared)) => Ok(
                RendererFrameDispatch::ExactGraph(ExactSurfaceGraph::C08(prepared)),
            ),
            Ok(ExecutableGraphDispatchEligibility::ExactC09(prepared)) => Ok(
                RendererFrameDispatch::ExactGraph(ExactSurfaceGraph::C09(prepared)),
            ),
            Ok(ExecutableGraphDispatchEligibility::ExactC12(prepared)) => Ok(
                RendererFrameDispatch::ExactGraph(ExactSurfaceGraph::C12(prepared)),
            ),
            Ok(ExecutableGraphDispatchEligibility::FuturePasses) => Err(future_graph_error(passes@)),
        },
    }
}

/// Binds a planned frame to its route, or says why it has none. Classification is consulted for
/// graphs alone.
pub fn classify_frame_dispatch<C, G, P>(
    observation: &mut DispatchObservation,
    plan: FramePlan<C, G>,
    eligibility: Result<ExecutableGraphDispatchEligibility<P>, Error>,
) -> (result: Result<RendererFrameDispatch<C, P>, Error>)
    ensures
        result == dispatch_of(plan, eligibility),
        *final(observation) == old(observation).counted(plan, eligibility),
{
    observation.boundary_invocations = observation.boundary_invocations.saturating_add(1);
    match plan {
        FramePlan::DirectVello(commands) => {
            observation.direct_vello_routes = observation.direct_vello_routes.saturating_add(1);
            Ok(RendererFrameDispatch::DirectVello(commands))
        },
        FramePlan::GpuGraph(passes, _) => match eligibility {
            Err(error) => Err(error),
            Ok(ExecutableGraphDispatchEligibility::ExactC08(prepared)) => {
                observation.exact_c08_graph_routes = observation.exact_c08_graph_routes.saturating_add(1);
                Ok(RendererFrameDispatch::ExactGraph(ExactSurfaceGraph::C08(prepared)))
            },
            Ok(ExecutableGraphDispatchEligibility::ExactC09(prepared)) => {
                observation.exact_c09_graph_routes = observation.exact_c09_graph_routes.saturating_add(1);
                Ok(RendererFrameDispatch::ExactGraph(ExactSurfaceGraph::C09(prepared)))
            },
            Ok(ExecutableGraphDispatchEligibility::ExactC12(prepared)) => {
                observation.exact_c12_graph_routes = observation.exact_c12_graph_routes.saturating_add(1);
                Ok(RendererFrameDispatch::ExactGraph(ExactSurfaceGraph::C12(prepared)))
            },
            Ok(ExecutableGraphDispatchEligibility::FuturePasses) => {
                observation.future_pass_rejections = observation.future_pass_rejections.saturating_add(1);
                Err(reject_future_graph_with_typed_diagnostic(passes.as_slice()))
            },
        },
    }
}

/// The executor that a fixture's graph is bound to.
pub open spec fn fixture_graph<P>(fixture: FrameFixture, prepared: P) -> ExactSurfaceGraph<P> {
    match fixture {
        FrameFixture::ColorFilters => ExactSurfaceGraph::C10(prepared),
        FrameFixture::SpatialFilters => ExactSurfaceGraph::C11(prepared),
        FrameFixture::Backdrop => ExactSurfaceGraph::C12(prepared),
    }
}

/// Binds a fixture's graph to its executor, or reports why it cannot be prepared.
pub fn classify_fixture_dispatch<P>(
    observation: &mut DispatchObservation,
    fixture: FrameFixture,
    preparable: Result<P, Error>,
) -> (result: Result<ExactSurfaceGraph<P>, Error>)
    ensures
        result == (match preparable {
            Ok(prepared) => Ok(fixture_graph(fixture, prepared)),
            Err(error) => Err(error),
        }),
        *final(observation) == old(observation).counted_fixture(fixture, preparable is Ok),
{
    observation.boundary_invocations = observation.boundary_invocations.saturating_add(1);
    let prepared = match preparable {
        Ok(prepared) => prepared,
        Err(error) => return Err(error),
    };
    match fixture {
        FrameFixture::ColorFilters => {
            observation.exact_c10_fixture_routes = observation.exact_c10_fixture_routes.saturating_add(1);
            Ok(ExactSurfaceGraph::C10(prepared))
        },
        FrameFixture::SpatialFilters => {
            observation.exact_c11_fixture_routes = observation.exact_c11_fixture_routes.saturating_add(1);
            Ok(ExactSurfaceGraph::C11(prepared))
        },
        FrameFixture::Backdrop => {
            observation.exact_c12_fixture_routes = observation.exact_c12_fixture_routes.saturating_add(1);
            Ok(ExactSurfaceGraph::C12(prepared))
        },
    }
}

/// The unsupported primitive of a graph, if that is what keeps it from running.
pub fn future_graph_diagnostic<P>(
    passes: &[GraphLoweringPassKind],
    eligibility: Result<ExecutableGraphDispatchEligibility<P>, Error>,
) -> (result: Result<Option<UnsupportedPrimitive>, Error>)
    ensures
        result == match eligibility {
            Err(error) => Err(error),
            Ok(ExecutableGraphDispatchEligibility::FuturePasses) => Ok(
                match future_graph_error(passes@) {
                    Error::UnsupportedPrimitive(primitive) => Some(primitive),
                    _ => None,
                },
            ),
            Ok(_) => Ok(None),
        },
{
    match eligibility {
        Err(error) => Err(error),
        Ok(ExecutableGraphDispatchEligibility::FuturePasses) => {
            match reject_future_graph_with_typed_diagnostic(passes) {
                Error::UnsupportedPrimitive(primitive) => Ok(Some(primitive)),
                _ => Ok(None),
            }
        },
        Ok(_) => Ok(None),
    }
}

/// The pixel grid of a capture.
#[derive(Clone, Copy, Debug, PartialEq, Eq, Structural)]
pub struct CaptureGrid {
    pub texel_origin_x: Scalar,
    pub texel_origin_y: Scalar,
    pub extent: PhysicalSize,
    pub raster_scale: Scalar,
}

impl CaptureGrid {
    /// Numeric equality of two grids.
    pub open spec fn matches(self, other: CaptureGrid) -> bool {
        &&& self.texel_origin_x.spec_equals(other.texel_origin_x)
        &&& self.texel_origin_y.spec_equals(other.texel_origin_y)
        &&& self.extent == other.extent
        &&& self.raster_scale.spec_equals(other.raster_scale)
    }
}

/// Whether the prepared capture grids are those of the validated graph.
pub fn capture_grids_match(captures: &[CaptureGrid], prepared: &[CaptureGrid]) -> (same: bool)
    ensures
        same == {
            &&& captures@.len() == prepared@.len()
            &&& forall|i: int|
                0 <= i < captures@.len() ==> (#[trigger] captures@[i]).matches(prepared@[i])
        },
{
    if captures.len() != prepared.len() {
        return false;
    }
    let mut i: usize = 0;
    while i < captures.len()
        invariant
            captures@.len() == prepared@.len(),
            i <= captures@.len(),
            forall|j: int| 0 <= j < i ==> (#[trigger] captures@[j]).matches(prepared@[j]),
        decreases captures@.len() - i,
    {
        let capture = captures[i];
        let grid = prepared[i];
        if !(capture.texel_origin_x.equals(grid.texel_origin_x) && capture.texel_origin_y.equals(
            grid.texel_origin_y,
        ) && capture.extent == grid.extent && capture.raster_scale.equals(grid.raster_scale)) {
            assert(!captures@[i as int].matches(prepared@[i as int]));
            return false;
        }
        i = i + 1;
    }
    true
}

/// Why a graph that no executor takes cannot run: a pass without its payload, or a composite without
/// its kind, makes it malformed before all else; then comes a copied backdrop, then a drop shadow,
/// colorized or composed, then a blur in either direction, then a color filter; and a graph without any
/// of these has nothing that is unavailable.
pub proof fn law_refusals_name_the_broadest_operation(
    passes: &[GraphLoweringPassKind],
    error: Error,
)
    requires
        call_ensures(reject_future_graph_with_typed_diagnostic, (passes,), error),
    ensures
        ({
            let has = |kind: GraphLoweringPassKind| passes@.contains(kind);
            let malformed = has(GraphLoweringPassKind::VelloCapture { has_payload: false }) || has(
                GraphLoweringPassKind::ColorFilter { has_payload: false },
            ) || has(GraphLoweringPassKind::BlurHorizontal { has_payload: false }) || has(
                GraphLoweringPassKind::BlurVertical { has_payload: false },
            ) || has(GraphLoweringPassKind::DropShadowColorize { has_payload: false }) || has(
                GraphLoweringPassKind::Composite { kind: None },
            );
            let backdrop = has(GraphLoweringPassKind::CopyBackdrop);
            let shadow = has(GraphLoweringPassKind::DropShadowColorize { has_payload: true })
                || has(
                GraphLoweringPassKind::Composite {
                    kind: Some(GraphLoweringCompositeKind::DropShadow),
                },
            );
            let blur = has(GraphLoweringPassKind::BlurHorizontal { has_payload: true }) || has(
                GraphLoweringPassKind::BlurVertical { has_payload: true },
            );
            let color = has(GraphLoweringPassKind::ColorFilter { has_payload: true });
            if malformed {
                error == Error::Render(RenderFailure::MalformedGraph)
            } else if backdrop {
                error matches Error::UnsupportedPrimitive(primitive)
                    && primitive.family is OffscreenPipeline
                    && primitive.operation is BroadBackdropExecution
            } else if shadow {
                error matches Error::UnsupportedPrimitive(primitive) && primitive.family is Filters
                    && primitive.operation is GpuDropShadowFilterExecution
            } else if blur {
                error matches Error::UnsupportedPrimitive(primitive) && primitive.family is Filters
                    && primitive.operation is GpuBlurFilterExecution
            } else if color {
                error matches Error::UnsupportedPrimitive(primitive) && primitive.family is Filters
                    && primitive.operation is GpuColorFilterExecution
            } else {
                error == Error::Render(RenderFailure::NoUnavailablePass)
            }
        }),
{
    let kinds = passes@;
    assert forall|kind: GraphLoweringPassKind| kinds.contains(kind) && kind.malformed() implies
        has_malformed_pass(kinds) by {
        let i = choose|i: int| 0 <= i < kinds.len() && kinds[i] == kind;
        assert(kinds[i].malformed());
    }
    assert forall|kind: GraphLoweringPassKind, operation: PrimitiveOperation|
        kinds.contains(kind) && #[trigger] kind.future_operation() == Some(operation) implies
        #[trigger] has_future_operation(kinds, operation) by {
        let i = choose|i: int| 0 <= i < kinds.len() && kinds[i] == kind;
        assert(kinds[i].future_operation() == Some(operation));
    }
    if has_malformed_pass(kinds) {
        let i = choose|i: int| 0 <= i < kinds.len() && (#[trigger] kinds[i]).malformed();
        assert(kinds.contains(kinds[i]));
    }
    assert forall|operation: PrimitiveOperation|
        #[trigger] has_future_operation(kinds, operation) implies exists|
        kind: GraphLoweringPassKind,
    | #[trigger] kinds.contains(kind) && kind.future_operation() == Some(operation) by {
        let i = choose|i: int|
            0 <= i < kinds.len() && (#[trigger] kinds[i]).future_operation() == Some(operation);
        assert(kinds.contains(kinds[i]));
    }
    let colors = GraphLoweringPassKind::ColorFilter { has_payload: true };
    let across = GraphLoweringPassKind::BlurHorizontal { has_payload: true };
    let down = GraphLoweringPassKind::BlurVertical { has_payload: true };
    let colorized = GraphLoweringPassKind::DropShadowColorize { has_payload: true };
    let composed = GraphLoweringPassKind::Composite {
        kind: Some(GraphLoweringCompositeKind::DropShadow),
    };
    assert(colors.future_operation() is Some);
    assert(across.future_operation() is Some);
    assert(down.future_operation() is Some);
    assert(colorized.future_operation() is Some);
    assert(composed.future_operation() is Some);
    assert(GraphLoweringPassKind::CopyBackdrop.future_operation() is Some);
}

/// Every call of the boundary is counted once, and under the one outcome that it had: the route of the
/// executor that took the frame, or the rejection; classification that failed is counted under none. No
/// other count moves.
pub proof fn law_routes_are_counted_under_their_name<C, G, P>(
    plan: FramePlan<C, G>,
    eligibility: Result<ExecutableGraphDispatchEligibility<P>, Error>,
)
    ensures
        forall|
            observation: &mut DispatchObservation,
            result: Result<RendererFrameDispatch<C, P>, Error>,
        | #[trigger]
            call_ensures(
                classify_frame_dispatch::<C, G, P>,
                (observation, plan, eligibility),
                result,
            ) ==> {
                let before = *observation;
                let after = *final(observation);
                &&& counts(before.boundary_invocations, after.boundary_invocations, true)
                &&& counts(
                    before.direct_vello_routes,
                    after.direct_vello_routes,
                    result matches Ok(RendererFrameDispatch::DirectVello(_)),
                )
                &&& counts(
                    before.exact_c08_graph_routes,
                    after.exact_c08_graph_routes,
                    result matches Ok(RendererFrameDispatch::ExactGraph(ExactSurfaceGraph::C08(_))),
                )
                &&& counts(
                    before.exact_c09_graph_routes,
                    after.exact_c09_graph_routes,
                    result matches Ok(RendererFrameDispatch::ExactGraph(ExactSurfaceGraph::C09(_))),
                )
                &&& counts(
                    before.exact_c12_graph_routes,
                    after.exact_c12_graph_routes,
                    result matches Ok(RendererFrameDispatch::ExactGraph(ExactSurfaceGraph::C12(_))),
                )
                &&& counts(
                    before.future_pass_rejections,
                    after.future_pass_rejections,
                    result is Err && eligibility is Ok,
                )
                &&& counts(before.exact_c10_fixture_routes, after.exact_c10_fixture_routes, false)
                &&& counts(before.exact_c11_fixture_routes, after.exact_c11_fixture_routes, false)
                &&& counts(before.exact_c12_fixture_routes, after.exact_c12_fixture_routes, false)
            },
{
}

/// Whether a count went up by one, as far as it can, or stayed.
pub open spec fn counts(before: usize, after: usize, counted: bool) -> bool {
    if counted && before < usize::MAX {
        after == before + 1
    } else {
        after == before
    }
}

/// A frame takes the route of its plan: a raster pass takes its commands along, a graph goes to the
/// executor that classification names with what that prepared, and a graph that no executor takes is
/// refused.
pub proof fn law_frames_take_the_route_of_their_plan<C, G, P>(
    plan: FramePlan<C, G>,
    eligibility: Result<ExecutableGraphDispatchEligibility<P>, Error>,
)
    ensures
        forall|
            observation: &mut DispatchObservation,
            result: Result<RendererFrameDispatch<C, P>, Error>,
        | #[trigger]
            call_ensures(
                classify_frame_dispatch::<C, G, P>,
                (observation, plan, eligibility),
                result,
            ) ==> {
                &&& plan matches FramePlan::DirectVello(commands) ==> result == Ok::<
                    RendererFrameDispatch<C, P>,
                    Error,
                >(RendererFrameDispatch::DirectVello(commands))
                &&& plan is GpuGraph && eligibility is Err ==> (result matches Err(error) && error
                    == eligibility->Err_0)
                &&& plan is GpuGraph ==> match eligibility {
                    Ok(ExecutableGraphDispatchEligibility::ExactC08(prepared)) => result == Ok::<
                        RendererFrameDispatch<C, P>,
                        Error,
                    >(RendererFrameDispatch::ExactGraph(ExactSurfaceGraph::C08(prepared))),
                    Ok(ExecutableGraphDispatchEligibility::ExactC09(prepared)) => result == Ok::<
                        RendererFrameDispatch<C, P>,
                        Error,
                    >(RendererFrameDispatch::ExactGraph(ExactSurfaceGraph::C09(prepared))),
                    Ok(ExecutableGraphDispatchEligibility::ExactC12(prepared)) => result == Ok::<
                        RendererFrameDispatch<C, P>,
                        Error,
                    >(RendererFrameDispatch::ExactGraph(ExactSurfaceGraph::C12(prepared))),
                    _ => result is Err,
                }
            },
{
}

/// A fixture that can be prepared goes to the executor of its own filters and is counted there; one
/// that cannot is reported and counted nowhere.
pub proof fn law_fixtures_take_their_own_route<P>(
    fixture: FrameFixture,
    preparable: Result<P, Error>,
)
    ensures
        forall|observation: &mut DispatchObservation, result: Result<ExactSurfaceGraph<P>, Error>|
         #[trigger]
            call_ensures(
                classify_fixture_dispatch::<P>,
                (observation, fixture, preparable),
                result,
            ) ==> {
                let before = *observation;
                let after = *final(observation);
                &&& preparable matches Err(error) ==> result == Err::<ExactSurfaceGraph<P>, Error>(
                    error,
                )
                &&& preparable matches Ok(prepared) ==> {
                    &&& fixture is ColorFilters ==> result == Ok::<ExactSurfaceGraph<P>, Error>(
                        ExactSurfaceGraph::C10(prepared),
                    )
                    &&& fixture is SpatialFilters ==> result == Ok::<ExactSurfaceGraph<P>, Error>(
                        ExactSurfaceGraph::C11(prepared),
                    )
                    &&& fixture is Backdrop ==> result == Ok::<ExactSurfaceGraph<P>, Error>(
                        ExactSurfaceGraph::C12(prepared),
                    )
                }
                &&& counts(before.boundary_invocations, after.boundary_invocations, true)
                &&& counts(
                    before.exact_c10_fixture_routes,
                    after.exact_c10_fixture_routes,
                    result matches Ok(ExactSurfaceGraph::C10(_)),
                )
                &&& counts(
                    before.exact_c11_fixture_routes,
                    after.exact_c11_fixture_routes,
                    result matches Ok(ExactSurfaceGraph::C11(_)),
                )
                &&& counts(
                    before.exact_c12_fixture_routes,
                    after.exact_c12_fixture_routes,
                    result matches Ok(ExactSurfaceGraph::C12(_)),
                )
                &&& after.exact_c12_graph_routes == before.exact_c12_graph_routes
                &&& after.exact_c08_graph_routes == before.exact_c08_graph_routes
                &&& after.exact_c09_graph_routes == before.exact_c09_graph_routes
                &&& after.direct_vello_routes == before.direct_vello_routes
                &&& after.future_pass_rejections == before.future_pass_rejections
            },
{
}

/// A request for one format stands for that format on every device; a request by policy stands for what
/// the policy gives there.
pub proof fn law_requests_stand_for_formats(
    request: ExecutableGraphWorkingFormatRequest,
    capabilities: DeviceCapabilities,
    format: Result<WorkingFormat, Error>,
)
    requires
        call_ensures(
            ExecutableGraphWorkingFormatRequest::resolve,
            (request, capabilities),
            format,
        ),
    ensures
        request matches ExecutableGraphWorkingFormatRequest::Exact(exact) ==> format == Ok::<
            WorkingFormat,
            Error,
        >(exact),
        request is ConfiguredPolicy ==> (format matches Ok(WorkingFormat::HighPrecision)
            <==> capabilities.high_precision),
        request matches ExecutableGraphWorkingFormatRequest::ConfiguredPolicy(policy) ==> (
        format matches Ok(WorkingFormat::ReducedPrecision) <==> !capabilities.high_precision
            && capabilities.reduced_precision && policy is AllowReducedPrecision),
{
}

/// Capture grids match exactly if they are as many and each has the other's origin in both axes, its
/// extent in both, and its scale.
pub proof fn law_matching_grids(captures: &[CaptureGrid], prepared: &[CaptureGrid], same: bool)
    requires
        call_ensures(capture_grids_match, (captures, prepared), same),
    ensures
        same ==> captures@.len() == prepared@.len() && forall|i: int|
            0 <= i < captures@.len() ==> {
                let a = #[trigger] captures@[i];
                let b = prepared@[i];
                &&& a.texel_origin_x.spec_equals(b.texel_origin_x)
                &&& a.texel_origin_y.spec_equals(b.texel_origin_y)
                &&& a.extent.width == b.extent.width
                &&& a.extent.height == b.extent.height
                &&& a.raster_scale.spec_equals(b.raster_scale)
            },
        captures@.len() == prepared@.len() && (forall|i: int|
            0 <= i < captures@.len() ==> {
                let a = #[trigger] captures@[i];
                let b = prepared@[i];
                &&& a.texel_origin_x.spec_equals(b.texel_origin_x)
                &&& a.texel_origin_y.spec_equals(b.texel_origin_y)
                &&& a.extent.width == b.extent.width
                &&& a.extent.height == b.extent.height
                &&& a.raster_scale.spec_equals(b.raster_scale)
            }) ==> same,
{
    if same {
        assert forall|i: int| 0 <= i < captures@.len() implies ({
            let a = #[trigger] captures@[i];
            let b = prepared@[i];
            &&& a.texel_origin_x.spec_equals(b.texel_origin_x)
            &&& a.texel_origin_y.spec_equals(b.texel_origin_y)
            &&& a.extent.width == b.extent.width
            &&& a.extent.height == b.extent.height
            &&& a.raster_scale.spec_equals(b.raster_scale)
        }) by {
            assert(captures@[i].matches(prepared@[i]));
        }
    }
}

/// Nothing is counted at first.
pub proof fn law_nothing_is_counted_at_first(observation: DispatchObservation)
    requires
        call_ensures(DispatchObservation::new, (), observation),
    ensures
        observation.boundary_invocations == 0,
        observation.direct_vello_routes == 0,
        observation.exact_c08_graph_routes == 0,
        observation.exact_c09_graph_routes == 0,
        observation.exact_c10_fixture_routes == 0,
        observation.exact_c11_fixture_routes == 0,
        observation.exact_c12_graph_routes == 0,
        observation.exact_c12_fixture_routes == 0,
        observation.future_pass_rejections == 0,
{
}

/// A graph has an unsupported primitive exactly where an executor was looked for in vain and its
/// refusal is one, and then it is that of the refusal; an error stays what it is.
pub proof fn law_diagnostics_are_those_of_the_refusal<P>(
    passes: &[GraphLoweringPassKind],
    eligibility: Result<ExecutableGraphDispatchEligibility<P>, Error>,
    result: Result<Option<UnsupportedPrimitive>, Error>,
    refusal: Error,
)
    requires
        call_ensures(future_graph_diagnostic::<P>, (passes, eligibility), result),
        call_ensures(reject_future_graph_with_typed_diagnostic, (passes,), refusal),
    ensures
        eligibility matches Err(error) ==> result == Err::<Option<UnsupportedPrimitive>, Error>(error),
        eligibility is Ok ==> result is Ok,
        eligibility is Ok && !(eligibility->Ok_0 is FuturePasses) ==> result->Ok_0 is None,
        eligibility is Ok && eligibility->Ok_0 is FuturePasses ==> {
            &&& result->Ok_0 is Some <==> refusal is UnsupportedPrimitive
            &&& result->Ok_0 matches Some(primitive) ==> refusal == Error::UnsupportedPrimitive(
                primitive,
            )
        },
{
}

} // verus!

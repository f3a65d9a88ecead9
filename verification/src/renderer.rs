//! The renderer: surface admission, frame publication, readback and resume decisions.

use vstd::prelude::*;

use std::collections::HashSet;

use crate::error::{
    Error, InvalidValue, PrimitiveFamily, PrimitiveOperation, RenderFailure, SurfaceFailure,
    UnsupportedPrimitive,
};
use crate::geometry::PhysicalSize;
use crate::image::ImageBuffer;
use crate::options::Options;
use crate::runtime::{
    find_slot, lemma_first_slot, observed_devices, runtime_unavailable, surface_identity_mismatch,
    unavailable, Backend,
    DeviceCapabilities, DeviceSlotIdentity, Format, RenderSurfaceAvailability,
    RuntimeCapabilities, RuntimeCapabilityUnavailableReason, RuntimeOperation,
    SurfaceIdentityMismatchKind, WorkingFormat,
};
use crate::scalar::Scalar;
use crate::surface::{
    runtime_surface_format, runtime_surface_unavailable_reason, surface_format,
    surface_unavailable_reason, Attachment, HeadlessResources, NativeFormat, Parameters,
    PresentMode, PresentedLifecycle, PresentedSurfaceState, RendererIdentity, ResizeState, Surface,
    SurfaceBackend, SurfaceOptions,
};

verus! {

/// The public route of a frame.
#[derive(Clone, Copy, Debug, PartialEq, Eq, Structural)]
pub enum RenderRoute {
    DirectVello,
    GpuGraph,
}

/// The statistics of a published frame. Times are in nanoseconds.
#[derive(Clone, Copy, Debug, PartialEq, Eq, Structural)]
pub struct Stats {
    pub route: Option<RenderRoute>,
    pub effect_precision: Option<WorkingFormat>,
    pub vello_passes: u64,
    pub commands: u64,
    pub image_uploads: u64,
    pub cache_hits: u64,
    pub encode_time: u64,
    pub render_time: u64,
    pub present_time: u64,
    pub frame_time: u64,
}

impl Default for Stats {
    fn default() -> (stats: Self)
        ensures
            stats == no_stats(),
    {
        Stats {
            route: None,
            effect_precision: None,
            vello_passes: 0,
            commands: 0,
            image_uploads: 0,
            cache_hits: 0,
            encode_time: 0,
            render_time: 0,
            present_time: 0,
            frame_time: 0,
        }
    }
}

/// The statistics of a renderer that has published nothing.
pub open spec fn no_stats() -> Stats {
    Stats {
        route: None,
        effect_precision: None,
        vello_passes: 0,
        commands: 0,
        image_uploads: 0,
        cache_hits: 0,
        encode_time: 0,
        render_time: 0,
        present_time: 0,
        frame_time: 0,
    }
}

/// The execution that a frame was prepared for.
#[derive(Clone, Copy, Debug, PartialEq, Eq, Structural)]
pub enum PreparedExecution {
    DirectVello,
    ExactGraph { working_format: WorkingFormat },
}

/// What walking the commands of a frame counted.
#[derive(Clone, Copy, Debug, PartialEq, Eq, Structural)]
pub struct CollectedStats {
    pub commands: u64,
    pub image_uploads: u64,
    pub cache_hits: u64,
}

/// Semantic support for authored operations.
#[derive(Clone, Copy, Debug, PartialEq, Eq, Structural)]
pub struct Capabilities {
    pub web_canvas_surfaces: bool,
}

impl Capabilities {
    /// The support of this build.
    pub fn current() -> (capabilities: Self)
        ensures
            capabilities == (Capabilities { web_canvas_surfaces: false }),
    {
        Self { web_canvas_surfaces: false }
    }

    /// Refuses a primitive that is not supported.
    pub fn ensure_supported(self, primitive: UnsupportedPrimitive) -> (result: Result<(), Error>)
        ensures
            result == (if primitive.operation == PrimitiveOperation::WebCanvasSurface
                && !self.web_canvas_surfaces {
                Err(Error::UnsupportedPrimitive(primitive))
            } else {
                Ok(())
            }),
    {
        match primitive.operation {
            PrimitiveOperation::WebCanvasSurface if !self.web_canvas_surfaces => Err(
                Error::UnsupportedPrimitive(primitive),
            ),
            _ => Ok(()),
        }
    }
}

/// A renderer with its last published statistics and its devices.
pub struct Renderer {
    pub identity: RendererIdentity,
    pub options: Options,
    pub stats: Stats,
    pub uploaded_images: HashSet<u64>,
    pub backend: Option<Backend>,
    pub default_device: Option<DeviceSlotIdentity>,
}

/// A finished frame that is ready to be published. `T` is a texture.
pub struct SurfaceFrameCommit<T> {
    /// The texture of a headless frame.
    pub texture: Option<T>,
    pub render_time: u64,
    pub present_time: u64,
}

/// Everything that publishing a frame changes.
pub struct RenderPublication<T> {
    pub frame: SurfaceFrameCommit<T>,
    pub stats: Stats,
    pub uploaded_images: HashSet<u64>,
    pub parameters: Parameters,
}

/// What a surface holds after a frame was committed to it.
pub open spec fn committed<T>(backend: SurfaceBackend<T>, texture: Option<T>) -> SurfaceBackend<T> {
    match (backend, texture) {
        (SurfaceBackend::Headless { device_identity, physical_size, .. }, Some(texture)) => {
            SurfaceBackend::Headless {
                device_identity,
                resources: HeadlessResources::Ready { texture },
                physical_size,
            }
        },
        _ => backend,
    }
}

impl<T> RenderPublication<T> {
    /// Publishes a frame: its texture, its statistics, its images and its parameters, together.
    pub fn commit(self, renderer: &mut Renderer, surface: &mut Surface<T>) -> (stats: Stats)
        ensures
            stats == self.stats,
            final(renderer).stats == self.stats,
            final(renderer).uploaded_images == self.uploaded_images,
            final(renderer).identity == old(renderer).identity,
            final(renderer).options == old(renderer).options,
            final(renderer).backend == old(renderer).backend,
            final(renderer).default_device == old(renderer).default_device,
            *final(surface) == (Surface {
                backend: committed(old(surface).backend, self.frame.texture),
                last_parameters: Some(self.parameters),
                ..*old(surface)
            }),
    {
        if let SurfaceBackend::Headless { resources, .. } = &mut surface.backend {
            if let Some(texture) = self.frame.texture {
                *resources = HeadlessResources::Ready { texture };
            }
        }
        renderer.stats = self.stats;
        renderer.uploaded_images = self.uploaded_images;
        surface.last_parameters = Some(self.parameters);
        self.stats
    }
}

/// What a presented surface has to be configured to.
#[derive(Clone, Copy, Debug, PartialEq, Eq, Structural)]
pub struct PresentedConfiguration {
    pub device_identity: DeviceSlotIdentity,
    pub physical_size: PhysicalSize,
    pub present_mode: PresentMode,
}

/// How a surface comes into being.
pub enum SurfaceCreation<T> {
    /// The surface is complete.
    Created(Surface<T>),
    /// A presented surface of this size has to be created on a device first.
    CreatePresented { physical_size: PhysicalSize },
}

/// Where the pixels of a headless surface are.
pub enum HeadlessReadback<'a, T> {
    /// The surface covers no pixel.
    Empty(ImageBuffer),
    /// The texture of the current complete publication.
    Texture { device_identity: DeviceSlotIdentity, texture: &'a T, physical_size: PhysicalSize },
}

/// What resuming a presented surface takes.
#[derive(Clone, Copy, Debug, PartialEq, Eq, Structural)]
pub enum PresentedResumeAction {
    NoOp,
    ConfigureExisting,
    Configure,
    Recreate,
}

/// What a resume does next.
#[derive(Clone, Copy, Debug, PartialEq, Eq, Structural)]
pub enum ResumeStep {
    Done,
    ConfigureExisting,
    /// A surface with the same options has to be created anew.
    Recreate {
        options: SurfaceOptions,
        preferred_device: DeviceSlotIdentity,
        resizing: ResizeState,
        preserve_renderer_identity: bool,
    },
}

/// Whether two optional backends know the same of every device.
pub open spec fn same_backend(a: Option<Backend>, b: Option<Backend>) -> bool {
    match (a, b) {
        (Some(a), Some(b)) => a.same_devices(&b),
        (None, None) => true,
        _ => false,
    }
}

/// Why the kind of a surface does not serve an operation, if it does not.
pub open spec fn operation_failure<T>(surface: &Surface<T>, operation: RuntimeOperation) -> Option<
    Error,
> {
    let supported = match operation {
        RuntimeOperation::SurfaceReadback => !(surface.backend is Presented),
        RuntimeOperation::SurfaceResume => surface.backend is Presented,
        _ => true,
    };
    if supported {
        None
    } else {
        Some(Error::UnsupportedBackend)
    }
}

impl Renderer {
    /// Everything but observed device signals is as before.
    pub open spec fn unchanged(&self, before: &Renderer) -> bool {
        &&& self.identity == before.identity
        &&& self.options == before.options
        &&& self.stats == before.stats
        &&& self.uploaded_images == before.uploaded_images
        &&& self.default_device == before.default_device
        &&& same_backend(self.backend, before.backend)
    }

    /// Whether the renderer is the same but for what its last publication left.
    pub open spec fn keeps_devices(&self, before: &Renderer) -> bool {
        &&& self.identity == before.identity
        &&& self.options == before.options
        &&& self.default_device == before.default_device
        &&& same_backend(self.backend, before.backend)
    }

    /// Whether the pending signal of a device was observed, and of no other.
    pub open spec fn has_observed(&self, before: &Renderer, identity: DeviceSlotIdentity) -> bool {
        match (self.backend, before.backend) {
            (Some(after), Some(before)) => after.devices@ == observed_devices(
                before.devices@,
                identity,
            ),
            (None, None) => true,
            _ => false,
        }
    }

    /// Whether the renderer still has a device.
    pub open spec fn has_device(&self, identity: DeviceSlotIdentity) -> bool {
        self.backend matches Some(backend) && backend.slot(identity) is Some
    }

    /// Why a device ended, if it has.
    pub open spec fn device_terminal(&self, identity: DeviceSlotIdentity) -> Option<
        RuntimeCapabilityUnavailableReason,
    > {
        match self.backend {
            Some(backend) => backend.spec_terminal_reason(identity),
            None => None,
        }
    }

    /// Why a surface is not admitted to an operation, if it is not: a foreign renderer first, then
    /// a kind of surface that does not serve it, then a device that is gone.
    pub open spec fn admission_failure<T>(&self, surface: &Surface<T>, operation: RuntimeOperation) -> Option<
        Error,
    > {
        if self.identity != surface.renderer_identity {
            Some(
                unavailable(
                    operation,
                    RuntimeCapabilityUnavailableReason::SurfaceIdentityMismatch {
                        kind: SurfaceIdentityMismatchKind::ForeignRenderer,
                    },
                ),
            )
        } else if operation_failure(surface, operation) is Some {
            operation_failure(surface, operation)
        } else {
            match surface.spec_device_identity() {
                Some(identity) if !self.has_device(identity) => Some(
                    unavailable(
                        operation,
                        RuntimeCapabilityUnavailableReason::SurfaceIdentityMismatch {
                            kind: SurfaceIdentityMismatchKind::StaleDeviceGeneration,
                        },
                    ),
                ),
                _ => None,
            }
        }
    }

    /// Why a surface cannot serve an operation at present, if it cannot.
    pub open spec fn usage_failure<T>(&self, surface: &Surface<T>, operation: RuntimeOperation) -> Option<
        Error,
    > {
        match self.admission_failure(surface, operation) {
            Some(error) => Some(error),
            None => match surface.unavailable {
                Some(state) => Some(
                    unavailable(
                        operation,
                        RuntimeCapabilityUnavailableReason::SurfaceUnavailable { state },
                    ),
                ),
                None => None,
            },
        }
    }

    /// The diagnostic of an operation on a surface whose device has ended.
    pub open spec fn terminal_failure<T>(&self, surface: &Surface<T>, operation: RuntimeOperation) -> Option<
        Error,
    > {
        match surface.spec_device_identity() {
            Some(identity) => match self.device_terminal(identity) {
                Some(reason) => Some(unavailable(operation, reason)),
                None => None,
            },
            None => None,
        }
    }

    /// A renderer over the device that was selected, or over none where no adapter is available.
    pub fn new(
        identity: RendererIdentity,
        options: Options,
        backend: Backend,
        selected: Result<Option<DeviceSlotIdentity>, Error>,
    ) -> (result: Result<Self, Error>)
        ensures
            match (result, selected) {
                (Ok(renderer), Ok(device)) => {
                    &&& renderer.identity == identity
                    &&& renderer.options == options
                    &&& renderer.stats == no_stats()
                    &&& renderer.uploaded_images@ == Set::<u64>::empty()
                    &&& renderer.default_device == device
                    &&& renderer.backend == match device {
                        Some(_) => Some(backend),
                        None => None,
                    }
                },
                (Err(error), Err(reported)) => error == reported,
                _ => false,
            },
    {
        match selected {
            Err(error) => Err(error),
            Ok(device) => {
                let backend = match device {
                    Some(_) => Some(backend),
                    None => None,
                };
                Ok(
                    Self {
                        identity,
                        options,
                        stats: Stats::default(),
                        uploaded_images: HashSet::new(),
                        backend,
                        default_device: device,
                    },
                )
            },
        }
    }

    /// The statistics of the last successfully published frame.
    pub fn stats(&self) -> (stats: Stats)
        ensures
            stats == self.stats,
    {
        self.stats
    }

    pub fn options(&self) -> (options: Options)
        ensures
            options == self.options,
    {
        self.options
    }

    /// Semantic support for authored rendering operations.
    pub fn capabilities(&self) -> (capabilities: Capabilities)
        ensures
            capabilities == (Capabilities { web_canvas_surfaces: false }),
    {
        Capabilities::current()
    }

    fn validate_surface_renderer_identity<T>(
        &self,
        surface: &Surface<T>,
        operation: RuntimeOperation,
    ) -> (result: Result<(), Error>)
        ensures
            result == (if self.identity == surface.renderer_identity {
                Ok(())
            } else {
                Err(
                    unavailable(
                        operation,
                        (RuntimeCapabilityUnavailableReason::SurfaceIdentityMismatch {
                            kind: SurfaceIdentityMismatchKind::ForeignRenderer,
                        }),
                    ),
                )
            }),
    {
        if self.identity.matches(surface.renderer_identity) {
            return Ok(());
        }
        Err(
            surface_identity_mismatch(operation, SurfaceIdentityMismatchKind::ForeignRenderer),
        )
    }

    fn validate_surface_operation_backend<T>(
        &self,
        surface: &Surface<T>,
        operation: RuntimeOperation,
    ) -> (result: Result<(), Error>)
        ensures
            result == match operation_failure(surface, operation) {
                None => Ok(()),
                Some(error) => Err(error),
            },
    {
        let presented = match &surface.backend {
            SurfaceBackend::Presented { .. } => true,
            _ => false,
        };
        let supported = match operation {
            RuntimeOperation::SurfaceReadback => !presented,
            RuntimeOperation::SurfaceResume => presented,
            _ => true,
        };
        if supported {
            Ok(())
        } else {
            Err(Error::UnsupportedBackend)
        }
    }

    fn validate_surface_device_identity<T>(
        &self,
        surface: &Surface<T>,
        operation: RuntimeOperation,
    ) -> (result: Result<(), Error>)
        ensures
            result == match surface.spec_device_identity() {
                Some(identity) if !self.has_device(identity) => Err(
                    unavailable(
                        operation,
                        (RuntimeCapabilityUnavailableReason::SurfaceIdentityMismatch {
                            kind: SurfaceIdentityMismatchKind::StaleDeviceGeneration,
                        }),
                    ),
                ),
                _ => Ok(()),
            },
    {
        let identity = match surface.device_identity() {
            Some(identity) => identity,
            None => {
                return Ok(());
            },
        };
        if let Some(backend) = &self.backend {
            if backend.has_device_slot(identity) {
                return Ok(());
            }
        }
        Err(
            surface_identity_mismatch(operation, SurfaceIdentityMismatchKind::StaleDeviceGeneration),
        )
    }

    fn validate_surface_device_terminal<T>(
        &mut self,
        surface: &Surface<T>,
        operation: RuntimeOperation,
    ) -> (result: Result<(), Error>)
        ensures
            result == match old(self).terminal_failure(surface, operation) {
                None => Ok(()),
                Some(error) => Err(error),
            },
            final(self).unchanged(old(self)),
    {
        let identity = match surface.device_identity() {
            Some(identity) => identity,
            None => {
                return Ok(());
            },
        };
        if let Some(backend) = &mut self.backend {
            if let Some(error) = backend.terminal_error(identity, operation) {
                return Err(error);
            }
        }
        Ok(())
    }

    /// Admits a surface to an operation.
    fn ensure_admissible<T>(&self, surface: &Surface<T>, operation: RuntimeOperation) -> (result: Result<
        (),
        Error,
    >)
        ensures
            result == match self.admission_failure(surface, operation) {
                None => Ok(()),
                Some(error) => Err(error),
            },
    {
        match self.validate_surface_renderer_identity(surface, operation) {
            Ok(()) => {},
            Err(error) => {
                return Err(error);
            },
        }
        match self.validate_surface_operation_backend(surface, operation) {
            Ok(()) => {},
            Err(error) => {
                return Err(error);
            },
        }
        self.validate_surface_device_identity(surface, operation)
    }

    /// Admits a surface that can be used at present.
    fn ensure_usable<T>(&self, surface: &Surface<T>, operation: RuntimeOperation) -> (result: Result<
        (),
        Error,
    >)
        ensures
            result == match self.usage_failure(surface, operation) {
                None => Ok(()),
                Some(error) => Err(error),
            },
    {
        match self.ensure_admissible(surface, operation) {
            Ok(()) => surface.ensure_available(operation),
            Err(error) => Err(error),
        }
    }

    /// Says whether a presented surface is being resized. Other surfaces take no notice.
    pub fn set_surface_resizing<T>(&mut self, surface: &mut Surface<T>, resizing: bool) -> (result:
        Result<(), Error>)
        ensures
            *final(self) == *old(self),
            match old(self).usage_failure(old(surface), RuntimeOperation::SurfaceRendering) {
                Some(error) => result == Err::<(), Error>(error) && *final(surface) == *old(surface),
                None => {
                    &&& result == Ok::<(), Error>(())
                    &&& *final(surface) == (Surface {
                        backend: with_resizing(old(surface).backend, resizing),
                        ..*old(surface)
                    })
                },
            },
    {
        match self.ensure_usable(surface, RuntimeOperation::SurfaceRendering) {
            Ok(()) => {},
            Err(error) => {
                return Err(error);
            },
        }
        if let SurfaceBackend::Presented { state, .. } = &mut surface.backend {
            let next = if resizing {
                ResizeState::Resizing
            } else {
                ResizeState::Idle
            };
            if state.lifecycle.resize_state() == next {
                return Ok(());
            }
            state.set_resizing(next);
        }
        Ok(())
    }

    /// Why a frame cannot be rendered into a surface, if it cannot.
    pub open spec fn render_failure<T>(&self, surface: &Surface<T>) -> Option<Error> {
        let operation = RuntimeOperation::SurfaceRendering;
        match self.usage_failure(surface, operation) {
            Some(error) => Some(error),
            None => match surface_unavailable_reason(surface) {
                Some(reason) => Some(unavailable(operation, reason)),
                None => match self.terminal_failure(surface, operation) {
                    Some(error) => Some(error),
                    None => if surface.spec_device_identity() is None || self.backend is None {
                        Some(
                            unavailable(
                                operation,
                                RuntimeCapabilityUnavailableReason::AdapterUnavailable,
                            ),
                        )
                    } else {
                        None
                    },
                },
            },
        }
    }

    /// The device that a frame is rendered on, or why no frame can be rendered.
    pub fn render_device_identity<T>(&mut self, surface: &Surface<T>) -> (result: Result<
        DeviceSlotIdentity,
        Error,
    >)
        ensures
            match old(self).render_failure(surface) {
                Some(error) => result == Err::<DeviceSlotIdentity, Error>(error),
                None => result matches Ok(identity) && surface.spec_device_identity() == Some(
                    identity,
                ),
            },
            final(self).unchanged(old(self)),
    {
        match self.ensure_usable(surface, RuntimeOperation::SurfaceRendering) {
            Ok(()) => {},
            Err(error) => {
                return Err(error);
            },
        }
        match surface.ensure_renderable() {
            Ok(()) => {},
            Err(error) => {
                return Err(error);
            },
        }
        match self.validate_surface_device_terminal(surface, RuntimeOperation::SurfaceRendering) {
            Ok(()) => {},
            Err(error) => {
                return Err(error);
            },
        }
        match surface.device_identity() {
            Some(identity) if self.backend.is_some() => Ok(identity),
            _ => Err(
                runtime_unavailable(
                    RuntimeOperation::SurfaceRendering,
                    RuntimeCapabilityUnavailableReason::AdapterUnavailable,
                ),
            ),
        }
    }

    /// The facts of the device that a planned frame is dispatched against.
    pub open spec fn spec_dispatch_capabilities(&self, identity: DeviceSlotIdentity) -> Result<
        DeviceCapabilities,
        Error,
    > {
        match self.backend {
            Some(backend) => match backend.spec_device_capabilities(identity) {
                Some(capabilities) => Ok(capabilities),
                None => Err(Error::Render(RenderFailure::CapabilitiesLost)),
            },
            None => Err(Error::Render(RenderFailure::CapabilitiesLost)),
        }
    }

    /// The facts of the device of a surface, if it has any.
    pub open spec fn surface_capabilities<T>(&self, surface: &Surface<T>) -> Option<
        DeviceCapabilities,
    > {
        match (surface.spec_device_identity(), self.backend) {
            (Some(identity), Some(backend)) => backend.spec_device_capabilities(identity),
            _ => None,
        }
    }

    pub fn dispatch_capabilities(&self, identity: DeviceSlotIdentity) -> (result: Result<
        DeviceCapabilities,
        Error,
    >)
        ensures
            result == self.spec_dispatch_capabilities(identity),
    {
        if let Some(backend) = &self.backend {
            if let Some(capabilities) = backend.device_capabilities(identity) {
                return Ok(capabilities);
            }
        }
        Err(Error::Render(RenderFailure::CapabilitiesLost))
    }

    /// Everything that is known of a frame's statistics before it is executed. In debug, cache
    /// hits add up over published frames.
    pub open spec fn spec_frame_stats(
        &self,
        execution: PreparedExecution,
        collected: CollectedStats,
        parameters: Parameters,
        encode_time: u64,
    ) -> Stats {
        let hits = if parameters.debug || self.options@.debug {
            let sum = collected.cache_hits + self.stats.cache_hits;
            if sum > u64::MAX {
                u64::MAX
            } else {
                sum as u64
            }
        } else {
            collected.cache_hits
        };
        Stats {
            route: Some(
                match execution {
                    PreparedExecution::DirectVello => RenderRoute::DirectVello,
                    PreparedExecution::ExactGraph { .. } => RenderRoute::GpuGraph,
                },
            ),
            effect_precision: match execution {
                PreparedExecution::DirectVello => None,
                PreparedExecution::ExactGraph { working_format } => Some(working_format),
            },
            vello_passes: match execution {
                PreparedExecution::DirectVello => 1,
                PreparedExecution::ExactGraph { .. } => 0,
            },
            commands: collected.commands,
            image_uploads: collected.image_uploads,
            cache_hits: hits,
            encode_time,
            render_time: 0,
            present_time: 0,
            frame_time: 0,
        }
    }

    pub fn frame_stats(
        &self,
        execution: PreparedExecution,
        collected: CollectedStats,
        parameters: Parameters,
        encode_time: u64,
    ) -> (stats: Stats)
        ensures
            stats == self.spec_frame_stats(execution, collected, parameters, encode_time),
    {
        let mut stats = Stats::default();
        match execution {
            PreparedExecution::DirectVello => {
                stats.route = Some(RenderRoute::DirectVello);
                stats.vello_passes = 1;
            },
            PreparedExecution::ExactGraph { working_format } => {
                stats.route = Some(RenderRoute::GpuGraph);
                stats.effect_precision = Some(working_format);
            },
        }
        stats.commands = collected.commands;
        stats.image_uploads = collected.image_uploads;
        stats.cache_hits = collected.cache_hits;
        stats.encode_time = encode_time;
        if parameters.debug || self.options.debug() {
            stats.cache_hits = stats.cache_hits.saturating_add(self.stats.cache_hits);
        }
        stats
    }

    /// Concludes a frame. A clean frame is published whole, with its final times; a failed one
    /// leaves the previous publication and statistics as they were.
    pub fn conclude_frame<T>(
        &mut self,
        surface: &mut Surface<T>,
        device_identity: DeviceSlotIdentity,
        frame: Result<SurfaceFrameCommit<T>, Error>,
        stats: Stats,
        uploaded_images: HashSet<u64>,
        parameters: Parameters,
        frame_time: u64,
    ) -> (result: Result<Stats, Error>)
        ensures
            final(self).has_observed(old(self), device_identity),
            concluded(old(self), final(self), match result {
                Ok(published) => Some(published),
                Err(_) => None,
            }),
            match frame {
                Err(error) => {
                    &&& result == Err::<Stats, Error>(error)
                    &&& final(self).unchanged(old(self))
                    &&& *final(surface) == *old(surface)
                },
                Ok(commit) => {
                    let published = Stats {
                        render_time: commit.render_time,
                        present_time: commit.present_time,
                        frame_time,
                        ..stats
                    };
                    &&& result == Ok::<Stats, Error>(published)
                    &&& final(self).stats == published
                    &&& final(self).uploaded_images == uploaded_images
                    &&& final(self).keeps_devices(old(self))
                    &&& *final(surface) == (Surface {
                        backend: committed(old(surface).backend, commit.texture),
                        last_parameters: Some(parameters),
                        ..*old(surface)
                    })
                },
            },
    {
        match frame {
            Err(error) => {
                self.observe_device_terminal(device_identity);
                Err(error)
            },
            Ok(commit) => {
                let mut published = stats;
                published.render_time = commit.render_time;
                published.present_time = commit.present_time;
                published.frame_time = frame_time;
                let publication = RenderPublication {
                    frame: commit,
                    stats: published,
                    uploaded_images,
                    parameters,
                };
                let stats = publication.commit(self, surface);
                self.observe_device_terminal(device_identity);
                Ok(stats)
            },
        }
    }

    /// Takes over a pending terminal signal of a device.
    pub fn observe_device_terminal(&mut self, identity: DeviceSlotIdentity)
        ensures
            final(self).unchanged(old(self)),
            final(self).has_observed(old(self), identity),
    {
        if let Some(backend) = &mut self.backend {
            backend.observe_device_terminal(identity);
        }
    }

    /// What a presented surface has to be configured to before it is used, if anything.
    pub open spec fn spec_presented_configuration<T>(
        &self,
        surface: &Surface<T>,
        operation: RuntimeOperation,
    ) -> Result<Option<PresentedConfiguration>, Error> {
        match surface.backend {
            SurfaceBackend::Presented { device_identity, state, .. } => {
                if !state.needs_configuration {
                    Ok(None)
                } else if self.backend is None {
                    Err(
                        unavailable(
                            operation,
                            RuntimeCapabilityUnavailableReason::AdapterUnavailable,
                        ),
                    )
                } else {
                    Ok(
                        Some(
                            PresentedConfiguration {
                                device_identity,
                                physical_size: state.requested_physical_size,
                                present_mode: surface.options.present_mode,
                            },
                        ),
                    )
                }
            },
            _ => Ok(None),
        }
    }

    pub fn presented_configuration<T>(&self, surface: &Surface<T>, operation: RuntimeOperation) -> (result:
        Result<Option<PresentedConfiguration>, Error>)
        ensures
            result == self.spec_presented_configuration(surface, operation),
    {
        match &surface.backend {
            SurfaceBackend::Presented { device_identity, state, .. } => {
                if !state.needs_configuration {
                    return Ok(None);
                }
                if self.backend.is_none() {
                    return Err(
                        runtime_unavailable(
                            operation,
                            RuntimeCapabilityUnavailableReason::AdapterUnavailable,
                        ),
                    );
                }
                Ok(
                    Some(
                        PresentedConfiguration {
                            device_identity: *device_identity,
                            physical_size: state.requested_physical_size,
                            present_mode: surface.options.present_mode,
                        },
                    ),
                )
            },
            _ => Ok(None),
        }
    }

    /// Commits a finished configuration, unless the device ended meanwhile.
    pub fn commit_presented_configuration<T>(
        &mut self,
        surface: &mut Surface<T>,
        operation: RuntimeOperation,
        native_format: NativeFormat,
    ) -> (result: Result<(), Error>)
        ensures
            final(self).unchanged(old(self)),
            match old(self).terminal_failure(old(surface), operation) {
                Some(error) => result == Err::<(), Error>(error) && *final(surface) == *old(surface),
                None => {
                    &&& result == Ok::<(), Error>(())
                    &&& *final(surface) == (Surface {
                        backend: configured(old(surface).backend, native_format),
                        ..*old(surface)
                    })
                },
            },
    {
        match self.validate_surface_device_terminal(surface, operation) {
            Ok(()) => {},
            Err(error) => {
                return Err(error);
            },
        }
        if let SurfaceBackend::Presented { native_format: format, state, .. } = &mut surface.backend {
            *format = native_format;
            state.commit_configuration();
        }
        Ok(())
    }

    /// Decides how a surface comes into being. `validated` and `physical_size` say what the
    /// requested size amounts to.
    pub fn create_surface<T>(
        &mut self,
        attachment: Attachment,
        options: SurfaceOptions,
        validated: Result<(), Error>,
        physical_size: Result<PhysicalSize, Error>,
    ) -> (result: Result<SurfaceCreation<T>, Error>)
        ensures
            final(self).unchanged(old(self)),
            match validated {
                Err(error) => result == Err::<SurfaceCreation<T>, Error>(error),
                Ok(()) => match attachment {
                    Attachment::Headless => match old(self).headless_surface::<T>(
                        options,
                        physical_size,
                    ) {
                        Ok(surface) => result == Ok::<SurfaceCreation<T>, Error>(
                            SurfaceCreation::Created(surface),
                        ),
                        Err(error) => result == Err::<SurfaceCreation<T>, Error>(error),
                    },
                    Attachment::WebCanvas { .. } => result == Err::<SurfaceCreation<T>, Error>(
                        Error::UnsupportedPrimitive(
                            (UnsupportedPrimitive {
                                family: PrimitiveFamily::Surfaces,
                                operation: PrimitiveOperation::WebCanvasSurface,
                            }),
                        ),
                    ),
                    Attachment::Window { .. } => result == (if old(self).backend is None {
                        Err::<SurfaceCreation<T>, Error>(
                            unavailable(
                                RuntimeOperation::AdapterSelection,
                                RuntimeCapabilityUnavailableReason::AdapterUnavailable,
                            ),
                        )
                    } else {
                        match physical_size {
                            Ok(physical_size) => Ok(
                                SurfaceCreation::CreatePresented { physical_size },
                            ),
                            Err(error) => Err(error),
                        }
                    }),
                },
            },
    {
        match validated {
            Ok(()) => {},
            Err(error) => {
                return Err(error);
            },
        }
        match attachment {
            Attachment::Headless => match self.create_headless_surface(
                options,
                validated,
                physical_size,
            ) {
                Ok(surface) => Ok(SurfaceCreation::Created(surface)),
                Err(error) => Err(error),
            },
            Attachment::WebCanvas { .. } => {
                let primitive = UnsupportedPrimitive {
                    family: PrimitiveFamily::Surfaces,
                    operation: PrimitiveOperation::WebCanvasSurface,
                };
                match self.capabilities().ensure_supported(primitive) {
                    Ok(()) => Err(Error::UnsupportedPrimitive(primitive)),
                    Err(error) => Err(error),
                }
            },
            Attachment::Window { .. } => {
                if self.backend.is_none() {
                    return Err(
                        runtime_unavailable(
                            RuntimeOperation::AdapterSelection,
                            RuntimeCapabilityUnavailableReason::AdapterUnavailable,
                        ),
                    );
                }
                match physical_size {
                    Ok(physical_size) => Ok(SurfaceCreation::CreatePresented { physical_size }),
                    Err(error) => Err(error),
                }
            },
        }
    }

    /// The headless surface of valid options: it needs RGBA order and a live default device, and
    /// only serves the contract where there is no device.
    pub open spec fn headless_surface<T>(
        &self,
        options: SurfaceOptions,
        physical_size: Result<PhysicalSize, Error>,
    ) -> Result<Surface<T>, Error> {
        if options.format != Format::Rgba8 {
            Err(Error::Surface(SurfaceFailure::HeadlessFormat))
        } else {
            match physical_size {
                Err(error) => Err(error),
                Ok(physical_size) => match (self.backend, self.default_device) {
                    (Some(_), Some(device_identity)) => match self.device_terminal(device_identity) {
                        Some(reason) => Err(unavailable(RuntimeOperation::AdapterSelection, reason)),
                        None => Ok(
                            self.fresh_surface(
                                options,
                                SurfaceBackend::Headless {
                                    device_identity,
                                    resources: if physical_size.area() == 0 {
                                        HeadlessResources::Empty
                                    } else {
                                        HeadlessResources::Pending
                                    },
                                    physical_size,
                                },
                            ),
                        ),
                    },
                    _ => Ok(
                        self.fresh_surface(
                            options,
                            SurfaceBackend::ContractOnly { physical_size },
                        ),
                    ),
                },
            }
        }
    }

    pub open spec fn fresh_surface<T>(&self, options: SurfaceOptions, backend: SurfaceBackend<T>) -> Surface<
        T,
    > {
        Surface {
            renderer_identity: self.identity,
            attachment: Attachment::Headless,
            options,
            backend,
            unavailable: None,
            last_parameters: None,
        }
    }

    /// Creates a headless surface of a size and a scale that is otherwise as `defaults` say, or says
    /// why there can be none.
    pub fn create_headless<T>(
        &mut self,
        width: Scalar,
        height: Scalar,
        scale: Scalar,
        defaults: SurfaceOptions,
        validated: Result<(), Error>,
        physical_size: Result<PhysicalSize, Error>,
    ) -> (result: Result<Surface<T>, Error>)
        ensures
            final(self).unchanged(old(self)),
            result == match validated {
                Err(error) => Err(error),
                Ok(()) => old(self).headless_surface::<T>(
                    SurfaceOptions { width, height, scale, ..defaults },
                    physical_size,
                ),
            },
    {
        let options = SurfaceOptions {
            width,
            height,
            scale,
            format: defaults.format,
            present_mode: defaults.present_mode,
        };
        self.create_headless_surface(options, validated, physical_size)
    }

    /// Creates a headless surface, or says why there can be none.
    pub fn create_headless_surface<T>(
        &mut self,
        options: SurfaceOptions,
        validated: Result<(), Error>,
        physical_size: Result<PhysicalSize, Error>,
    ) -> (result: Result<Surface<T>, Error>)
        ensures
            final(self).unchanged(old(self)),
            result == match validated {
                Err(error) => Err(error),
                Ok(()) => old(self).headless_surface::<T>(options, physical_size),
            },
    {
        match validated {
            Ok(()) => {},
            Err(error) => {
                return Err(error);
            },
        }
        if options.format != Format::Rgba8 {
            return Err(Error::Surface(SurfaceFailure::HeadlessFormat));
        }
        let physical_size = match physical_size {
            Ok(physical_size) => physical_size,
            Err(error) => {
                return Err(error);
            },
        };
        let mut surface_backend = SurfaceBackend::ContractOnly { physical_size };
        if let Some(device_identity) = self.default_device {
            if let Some(backend) = &mut self.backend {
                if let Some(error) = backend.terminal_error(
                    device_identity,
                    RuntimeOperation::AdapterSelection,
                ) {
                    return Err(error);
                }
                surface_backend =
                SurfaceBackend::Headless {
                    device_identity,
                    resources: HeadlessResources::for_physical_size(physical_size),
                    physical_size,
                };
            }
        }
        Ok(Surface::with_backend(Attachment::Headless, options, surface_backend, self.identity))
    }

    /// The surface over a native one that was created on a device, unless that device has ended.
    pub fn presented_surface_created<T>(
        &mut self,
        attachment: Attachment,
        options: SurfaceOptions,
        physical_size: PhysicalSize,
        device_identity: DeviceSlotIdentity,
        native_format: NativeFormat,
        operation: RuntimeOperation,
    ) -> (result: Result<Surface<T>, Error>)
        ensures
            final(self).unchanged(old(self)),
            result == match old(self).device_terminal(device_identity) {
                Some(reason) => Err(unavailable(operation, reason)),
                None => Ok(
                    Surface::<T> {
                        renderer_identity: old(self).identity,
                        attachment,
                        options,
                        backend: SurfaceBackend::Presented {
                            device_identity,
                            native_format,
                            state: PresentedSurfaceState {
                                requested_physical_size: physical_size,
                                lifecycle: PresentedLifecycle::ResizePending {
                                    resize: ResizeState::Idle,
                                },
                                needs_configuration: true,
                            },
                        },
                        unavailable: None,
                        last_parameters: None,
                    },
                ),
            },
    {
        if let Some(backend) = &mut self.backend {
            if let Some(error) = backend.terminal_error(device_identity, operation) {
                return Err(error);
            }
        }
        Ok(
            Surface::with_backend(
                attachment,
                options,
                SurfaceBackend::Presented {
                    device_identity,
                    native_format,
                    state: PresentedSurfaceState::new(physical_size, ResizeState::Idle),
                },
                self.identity,
            ),
        )
    }

    /// Whether a result is what a read of a surface gives.
    pub open spec fn is_read_of<'a, T>(
        &self,
        surface: &'a Surface<T>,
        result: Result<HeadlessReadback<'a, T>, Error>,
    ) -> bool {
        match self.usage_failure(surface, RuntimeOperation::SurfaceReadback) {
            Some(error) => result == Err::<HeadlessReadback<'a, T>, Error>(error),
            None => match surface.backend {
                SurfaceBackend::ContractOnly { physical_size } => if physical_size.area() == 0 {
                    is_empty_readback(result, physical_size)
                } else {
                    result == Err::<HeadlessReadback<'a, T>, Error>(
                        unavailable(
                            RuntimeOperation::SurfaceReadback,
                            RuntimeCapabilityUnavailableReason::AdapterUnavailable,
                        ),
                    )
                },
                SurfaceBackend::Headless { device_identity, resources, physical_size } => {
                    match resources {
                        HeadlessResources::Empty => if physical_size.area() == 0 {
                            is_empty_readback(result, physical_size)
                        } else {
                            result == Err::<HeadlessReadback<'a, T>, Error>(
                                Error::Invalid(
                                    InvalidValue::ImageByteLength {
                                        size: physical_size,
                                        length: 0,
                                    },
                                ),
                            )
                        },
                        HeadlessResources::Pending => result == Err::<
                            HeadlessReadback<'a, T>,
                            Error,
                        >(
                            unavailable(
                                RuntimeOperation::SurfaceReadback,
                                (RuntimeCapabilityUnavailableReason::SurfaceUnavailable {
                                    state: RenderSurfaceAvailability::Uninitialized,
                                }),
                            ),
                        ),
                        HeadlessResources::Ready { texture } => match self.terminal_failure(
                            surface,
                            RuntimeOperation::SurfaceReadback,
                        ) {
                            Some(error) => result == Err::<HeadlessReadback<'a, T>, Error>(error),
                            None => result == Ok::<HeadlessReadback<'a, T>, Error>(
                                (HeadlessReadback::Texture {
                                    device_identity,
                                    texture: &texture,
                                    physical_size,
                                }),
                            ),
                        },
                    }
                },
                SurfaceBackend::Presented { .. } => result == Err::<
                    HeadlessReadback<'a, T>,
                    Error,
                >(Error::UnsupportedBackend),
            },
        }
    }

    /// Where the pixels of a headless surface are, or why there are none to read.
    pub fn read_headless<'a, T>(&mut self, surface: &'a Surface<T>) -> (result: Result<
        HeadlessReadback<'a, T>,
        Error,
    >)
        ensures
            final(self).unchanged(old(self)),
            old(self).is_read_of(surface, result),
    {
        match self.ensure_usable(surface, RuntimeOperation::SurfaceReadback) {
            Ok(()) => {},
            Err(error) => {
                return Err(error);
            },
        }
        match &surface.backend {
            SurfaceBackend::ContractOnly { physical_size } => {
                if physical_size.is_empty() {
                    return empty_readback(*physical_size);
                }
                Err(
                    runtime_unavailable(
                        RuntimeOperation::SurfaceReadback,
                        RuntimeCapabilityUnavailableReason::AdapterUnavailable,
                    ),
                )
            },
            SurfaceBackend::Headless { device_identity, resources, physical_size } => {
                match resources {
                    HeadlessResources::Empty => empty_readback(*physical_size),
                    HeadlessResources::Pending => Err(
                        runtime_unavailable(
                            RuntimeOperation::SurfaceReadback,
                            RuntimeCapabilityUnavailableReason::SurfaceUnavailable {
                                state: RenderSurfaceAvailability::Uninitialized,
                            },
                        ),
                    ),
                    HeadlessResources::Ready { texture } => {
                        match self.validate_surface_device_terminal(
                            surface,
                            RuntimeOperation::SurfaceReadback,
                        ) {
                            Ok(()) => {},
                            Err(error) => {
                                return Err(error);
                            },
                        }
                        if self.backend.is_none() {
                            return Err(
                                runtime_unavailable(
                                    RuntimeOperation::SurfaceReadback,
                                    RuntimeCapabilityUnavailableReason::AdapterUnavailable,
                                ),
                            );
                        }
                        Ok(
                            HeadlessReadback::Texture {
                                device_identity: *device_identity,
                                texture,
                                physical_size: *physical_size,
                            },
                        )
                    },
                }
            },
            SurfaceBackend::Presented { .. } => Err(Error::UnsupportedBackend),
        }
    }

    /// The answer to a capability query.
    pub open spec fn spec_runtime_capabilities<T>(&self, surface: &Surface<T>) -> RuntimeCapabilities {
        let stale = RuntimeCapabilities::Unavailable(
            RuntimeCapabilityUnavailableReason::SurfaceIdentityMismatch {
                kind: SurfaceIdentityMismatchKind::StaleDeviceGeneration,
            },
        );
        if self.identity != surface.renderer_identity {
            RuntimeCapabilities::Unavailable(
                RuntimeCapabilityUnavailableReason::SurfaceIdentityMismatch {
                    kind: SurfaceIdentityMismatchKind::ForeignRenderer,
                },
            )
        } else {
            match (surface.spec_device_identity(), self.backend) {
                (None, _) => RuntimeCapabilities::Unavailable(
                    RuntimeCapabilityUnavailableReason::AdapterUnavailable,
                ),
                (Some(_), None) => stale,
                (Some(identity), Some(backend)) => match backend.slot(identity) {
                    None => stale,
                    Some(slot) => match (slot.terminal, surface_unavailable_reason(surface)) {
                        (Some(reason), _) => RuntimeCapabilities::Unavailable(reason),
                        (None, Some(reason)) => RuntimeCapabilities::Unavailable(reason),
                        (None, None) => match slot.capabilities {
                            Some(capabilities) => RuntimeCapabilities::Available(
                                capabilities.spec_runtime_report(surface_format(surface)),
                            ),
                            None => stale,
                        },
                    },
                },
            }
        }
    }

    /// Projects the immutable capabilities of the device of a surface.
    pub fn runtime_capabilities<T>(&mut self, surface: &Surface<T>) -> (capabilities: RuntimeCapabilities)
        ensures
            capabilities == old(self).spec_runtime_capabilities(surface),
            final(self).unchanged(old(self)),
    {
        if !self.identity.matches(surface.renderer_identity) {
            return RuntimeCapabilities::Unavailable(
                RuntimeCapabilityUnavailableReason::SurfaceIdentityMismatch {
                    kind: SurfaceIdentityMismatchKind::ForeignRenderer,
                },
            );
        }
        let device_identity = match surface.device_identity() {
            Some(device_identity) => device_identity,
            None => {
                return RuntimeCapabilities::Unavailable(
                    RuntimeCapabilityUnavailableReason::AdapterUnavailable,
                );
            },
        };
        if let Some(backend) = &mut self.backend {
            if backend.has_device_slot(device_identity) {
                let ghost before = *backend;
                if let Some(reason) = backend.terminal_reason(device_identity) {
                    return RuntimeCapabilities::Unavailable(reason);
                }
                if let Some(reason) = runtime_surface_unavailable_reason(surface) {
                    return RuntimeCapabilities::Unavailable(reason);
                }
                proof {
                    crate::runtime::law_observation_keeps_answers(
                        &*backend,
                        &before,
                        device_identity,
                    );
                }
                if let Some(capabilities) = backend.device_capabilities(device_identity) {
                    return RuntimeCapabilities::Available(
                        capabilities.runtime_report(runtime_surface_format(surface)),
                    );
                }
            }
        }
        RuntimeCapabilities::Unavailable(
            RuntimeCapabilityUnavailableReason::SurfaceIdentityMismatch {
                kind: SurfaceIdentityMismatchKind::StaleDeviceGeneration,
            },
        )
    }

    /// Decides what resuming a surface takes. `compatible` says whether the new attachment fits.
    pub fn resume_surface<T>(
        &mut self,
        surface: &Surface<T>,
        action: PresentedResumeAction,
        compatible: Result<(), Error>,
    ) -> (result: Result<ResumeStep, Error>)
        ensures
            final(self).unchanged(old(self)),
            match old(self).admission_failure(surface, RuntimeOperation::SurfaceResume) {
                Some(error) => result == Err::<ResumeStep, Error>(error),
                None => match old(self).terminal_failure(surface, RuntimeOperation::SurfaceResume) {
                    Some(error) => result == Err::<ResumeStep, Error>(error),
                    None => match compatible {
                        Err(error) => result == Err::<ResumeStep, Error>(error),
                        Ok(()) => surface.backend matches SurfaceBackend::Presented {
                            device_identity,
                            state,
                            ..
                        } && result == Ok::<ResumeStep, Error>(
                            resume_step(action, surface.options, device_identity, state),
                        ),
                    },
                },
            },
    {
        match self.ensure_admissible(surface, RuntimeOperation::SurfaceResume) {
            Ok(()) => {},
            Err(error) => {
                return Err(error);
            },
        }
        match self.validate_surface_device_terminal(surface, RuntimeOperation::SurfaceResume) {
            Ok(()) => {},
            Err(error) => {
                return Err(error);
            },
        }
        match compatible {
            Ok(()) => {},
            Err(error) => {
                return Err(error);
            },
        }
        match &surface.backend {
            SurfaceBackend::Presented { device_identity, state, .. } => {
                let resizing = state.lifecycle.resize_state();
                match action {
                    PresentedResumeAction::NoOp => Ok(ResumeStep::Done),
                    PresentedResumeAction::ConfigureExisting => Ok(ResumeStep::ConfigureExisting),
                    PresentedResumeAction::Configure => Ok(
                        ResumeStep::Recreate {
                            options: surface.options,
                            preferred_device: *device_identity,
                            resizing,
                            preserve_renderer_identity: true,
                        },
                    ),
                    PresentedResumeAction::Recreate => Ok(
                        ResumeStep::Recreate {
                            options: surface.options,
                            preferred_device: *device_identity,
                            resizing,
                            preserve_renderer_identity: false,
                        },
                    ),
                }
            },
            _ => Err(Error::UnsupportedBackend),
        }
    }
}

/// What an action amounts to on a presented surface.
pub open spec fn resume_step(
    action: PresentedResumeAction,
    options: SurfaceOptions,
    device_identity: DeviceSlotIdentity,
    state: PresentedSurfaceState,
) -> ResumeStep {
    let recreate = |preserve_renderer_identity: bool|
        ResumeStep::Recreate {
            options,
            preferred_device: device_identity,
            resizing: state.lifecycle.spec_resize_state(),
            preserve_renderer_identity,
        };
    match action {
        PresentedResumeAction::NoOp => ResumeStep::Done,
        PresentedResumeAction::ConfigureExisting => ResumeStep::ConfigureExisting,
        PresentedResumeAction::Configure => recreate(true),
        PresentedResumeAction::Recreate => recreate(false),
    }
}

/// A surface's backend with its resize state set, where it has one.
pub open spec fn with_resizing<T>(backend: SurfaceBackend<T>, resizing: bool) -> SurfaceBackend<T> {
    match backend {
        SurfaceBackend::Presented { device_identity, native_format, state } => {
            SurfaceBackend::Presented {
                device_identity,
                native_format,
                state: PresentedSurfaceState {
                    lifecycle: state.lifecycle.with_resize(
                        if resizing {
                            ResizeState::Resizing
                        } else {
                            ResizeState::Idle
                        },
                    ),
                    ..state
                },
            }
        },
        _ => backend,
    }
}

/// A surface's backend after its configuration took effect.
pub open spec fn configured<T>(backend: SurfaceBackend<T>, format: NativeFormat) -> SurfaceBackend<T> {
    match backend {
        SurfaceBackend::Presented { device_identity, state, .. } => SurfaceBackend::Presented {
            device_identity,
            native_format: format,
            state: PresentedSurfaceState {
                lifecycle: PresentedLifecycle::Ready {
                    resize: state.lifecycle.spec_resize_state(),
                },
                needs_configuration: false,
                ..state
            },
        },
        _ => backend,
    }
}

/// Whether a readback found an empty image of `size`.
pub open spec fn is_empty_readback<'a, T>(
    result: Result<HeadlessReadback<'a, T>, Error>,
    size: PhysicalSize,
) -> bool {
    result matches Ok(HeadlessReadback::Empty(image)) && image.spec_size() == size
        && image.spec_rgba() == Seq::<u8>::empty()
}

fn empty_readback<'a, T>(size: PhysicalSize) -> (result: Result<HeadlessReadback<'a, T>, Error>)
    ensures
        if size.area() == 0 {
            is_empty_readback(result, size)
        } else {
            result == Err::<HeadlessReadback<'a, T>, Error>(
                Error::Invalid(InvalidValue::ImageByteLength { size, length: 0 }),
            )
        },
{
    match ImageBuffer::try_new(size, Vec::new()) {
        Ok(image) => Ok(HeadlessReadback::Empty(image)),
        Err(error) => Err(error),
    }
}

/// A surface that was recreated for another. What the application said of that one stays: its
/// options, the parameters of its last frame, its resize state and, if asked, its renderer.
pub open spec fn recreated<T>(
    surface: Surface<T>,
    next: Surface<T>,
    resizing: ResizeState,
    preserve_renderer_identity: bool,
) -> Surface<T> {
    Surface {
        options: surface.options,
        last_parameters: surface.last_parameters,
        renderer_identity: if preserve_renderer_identity {
            surface.renderer_identity
        } else {
            next.renderer_identity
        },
        backend: with_resizing(next.backend, resizing == ResizeState::Resizing),
        ..next
    }
}

/// Replaces a surface by the one that was recreated for it.
pub fn replace_recreated_surface<T>(
    surface: &mut Surface<T>,
    next: Surface<T>,
    resizing: ResizeState,
    preserve_renderer_identity: bool,
)
    ensures
        *final(surface) == recreated(*old(surface), next, resizing, preserve_renderer_identity),
{
    let mut next = next;
    next.options = surface.options;
    next.last_parameters = surface.last_parameters;
    if preserve_renderer_identity {
        next.renderer_identity = surface.renderer_identity;
    }
    if let SurfaceBackend::Presented { state, .. } = &mut next.backend {
        state.set_resizing(resizing);
    }
    *surface = next;
}

/// A presented surface that is recreated on resume, by a presented one that is not lost, keeps its
/// options, the parameters of its last frame and its resize state; the step that asks for it
/// carries the options.
pub proof fn law_recreated_surfaces_keep_what_was_said<T>(
    surface: Surface<T>,
    next: Surface<T>,
    action: PresentedResumeAction,
)
    requires
        surface.backend is Presented,
        next.backend is Presented,
        next.backend->Presented_state.lifecycle !is Lost,
        action is Configure || action is Recreate,
    ensures
        ({
            let state = surface.backend->Presented_state;
            let step = resume_step(
                action,
                surface.options,
                surface.backend->Presented_device_identity,
                state,
            );
            step matches ResumeStep::Recreate {
                options,
                resizing,
                preserve_renderer_identity,
                ..
            } && {
                let after = recreated(surface, next, resizing, preserve_renderer_identity);
                &&& options == surface.options
                &&& after.options == surface.options
                &&& after.last_parameters == surface.last_parameters
                &&& after.backend is Presented
                &&& after.backend->Presented_state.lifecycle.spec_resize_state()
                    == state.lifecycle.spec_resize_state()
            }
        }),
{
}

/// The error of a frame that failed: an outdated surface is configured again first, and a failure
/// of that is reported instead.
pub fn failed_frame_error(error: Error, reconfigured: Result<(), Error>) -> (reported: Error)
    ensures
        reported == match (error, reconfigured) {
            (Error::SurfaceOutdated, Err(configuration_error)) => configuration_error,
            _ => error,
        },
{
    match (error, reconfigured) {
        (Error::SurfaceOutdated, Err(configuration_error)) => configuration_error,
        _ => error,
    }
}

/// Whether a renderer concluded a frame: one that was published left its statistics, and a failed
/// one changed nothing.
pub open spec fn concluded(before: &Renderer, after: &Renderer, published: Option<Stats>) -> bool {
    match published {
        Some(stats) => after.stats == stats && after.keeps_devices(before),
        None => after.unchanged(before),
    }
}

/// Whether a step of a run of frames concludes its frame.
pub open spec fn step_concludes(run: Seq<Renderer>, frames: Seq<Option<Stats>>, i: int) -> bool {
    concluded(&run[i], &run[i + 1], frames[i])
}

/// A renderer's statistics are those of the last frame that was published, whatever failed since:
/// over any run of concluded frames, those of the last published one, or those at the start.
pub proof fn law_stats_are_of_the_last_publication(
    run: Seq<Renderer>,
    frames: Seq<Option<Stats>>,
    published: int,
)
    requires
        run.len() == frames.len() + 1,
        forall|i: int| 0 <= i < frames.len() ==> #[trigger] step_concludes(run, frames, i),
        -1 <= published < frames.len(),
        published >= 0 ==> frames[published] is Some,
        forall|i: int| published < i < frames.len() ==> (#[trigger] frames[i]) is None,
    ensures
        run.last().stats == (if published >= 0 {
            frames[published]->0
        } else {
            run[0].stats
        }),
    decreases frames.len(),
{
    if frames.len() > 0 {
        let last = frames.len() - 1;
        assert(step_concludes(run, frames, last));
        if published < last {
            let before = run.drop_last();
            let earlier = frames.drop_last();
            assert forall|i: int| 0 <= i < earlier.len() implies #[trigger] step_concludes(
                before,
                earlier,
                i,
            ) by {
                assert(step_concludes(run, frames, i));
            }
            law_stats_are_of_the_last_publication(before, earlier, published);
        }
    }
}

/// Asking for the same resizing of a surface twice is the same as asking once: the surface is as
/// usable as before, it is not changed again, and a presented one that is not lost has the resize
/// state that was asked for.
pub proof fn law_resizing_twice_is_resizing_once<T>(
    renderer: &Renderer,
    surface: Surface<T>,
    resizing: bool,
)
    ensures
        ({
            let wanted = if resizing {
                ResizeState::Resizing
            } else {
                ResizeState::Idle
            };
            let once = Surface { backend: with_resizing(surface.backend, resizing), ..surface };
            let twice = Surface { backend: with_resizing(once.backend, resizing), ..once };
            &&& twice == once
            &&& renderer.usage_failure(&once, RuntimeOperation::SurfaceRendering)
                == renderer.usage_failure(&surface, RuntimeOperation::SurfaceRendering)
            &&& surface.backend matches SurfaceBackend::Presented { state, .. } ==> {
                &&& state.lifecycle !is Lost
                    ==> once.backend->Presented_state.lifecycle.spec_resize_state() == wanted
                &&& state.lifecycle.spec_resize_state() == wanted ==> once == surface
            }
        }),
{
}

/// Every frame has exactly one route: its statistics name a raster pass and no effect precision,
/// or a graph and its precision.
pub proof fn law_every_frame_has_one_route(
    renderer: &Renderer,
    execution: PreparedExecution,
    collected: CollectedStats,
    parameters: Parameters,
    encode_time: u64,
)
    ensures
        ({
            let stats = renderer.spec_frame_stats(execution, collected, parameters, encode_time);
            match stats.route {
                Some(RenderRoute::DirectVello) => stats.vello_passes == 1
                    && stats.effect_precision is None,
                Some(RenderRoute::GpuGraph) => stats.vello_passes == 0
                    && stats.effect_precision is Some,
                None => false,
            }
        }),
{
}

/// A read of a headless surface that has published names what its backend holds: the texture, the
/// device, and the physical size, width for width and height for height.
pub proof fn law_reads_name_what_the_surface_holds<'a, T>(
    surface: &'a Surface<T>,
    device: DeviceSlotIdentity,
    texture: T,
    size: PhysicalSize,
)
    requires
        surface.backend == (SurfaceBackend::Headless {
            device_identity: device,
            resources: HeadlessResources::Ready { texture },
            physical_size: size,
        }),
    ensures
        forall|renderer: &mut Renderer, result: Result<HeadlessReadback<'a, T>, Error>| #[trigger]
            call_ensures(Renderer::read_headless::<T>, (renderer, surface), result) ==> {
                &&& result is Ok <==> (*renderer).usage_failure(
                    surface,
                    RuntimeOperation::SurfaceReadback,
                ) is None && (*renderer).device_terminal(device) is None
                &&& result matches Ok(read) ==> {
                    &&& read matches HeadlessReadback::Texture {
                        device_identity: read_device,
                        texture: read_texture,
                        physical_size: read_size,
                    } && {
                        &&& *read_texture == texture
                        &&& read_device.slot == device.slot
                        &&& read_device.generation == device.generation
                        &&& read_size.width == size.width
                        &&& read_size.height == size.height
                    }
                }
            },
        forall|renderer: &Renderer, result: Result<HeadlessReadback<'a, T>, Error>|
            #[trigger] renderer.is_read_of(surface, result) ==> (result matches Ok(read) ==> {
                &&& read matches HeadlessReadback::Texture {
                    device_identity: read_device,
                    texture: read_texture,
                    physical_size: read_size,
                } && {
                    &&& *read_texture == texture
                    &&& read_device.slot == device.slot
                    &&& read_device.generation == device.generation
                    &&& read_size.width == size.width
                    &&& read_size.height == size.height
                }
            }),
{
}

/// A read of a surface without pixels gives an empty image of the surface's size; a headless surface
/// that has published nothing, and one without an adapter, give no pixels; a presented one is not
/// read.
pub proof fn law_reads_without_a_publication<'a, T>(surface: &'a Surface<T>)
    ensures
        forall|renderer: &mut Renderer, result: Result<HeadlessReadback<'a, T>, Error>| #[trigger]
            call_ensures(Renderer::read_headless::<T>, (renderer, surface), result) ==> {
                &&& surface.backend is Presented ==> result is Err
                &&& surface.backend matches SurfaceBackend::Headless {
                    resources: HeadlessResources::Pending,
                    ..
                } ==> result is Err
                &&& surface.backend matches SurfaceBackend::ContractOnly { physical_size } ==> {
                    &&& result is Ok ==> physical_size.width == 0 || physical_size.height == 0
                    &&& result matches Ok(read) ==> (read matches HeadlessReadback::Empty(image)
                        && image.spec_size().width == physical_size.width
                        && image.spec_size().height == physical_size.height
                        && image.spec_rgba().len() == 0)
                }
                &&& surface.backend matches SurfaceBackend::Headless {
                    resources: HeadlessResources::Empty,
                    physical_size,
                    ..
                } ==> (result matches Ok(read) ==> (read matches HeadlessReadback::Empty(image)
                    && image.spec_size().width == physical_size.width
                    && image.spec_size().height == physical_size.height
                    && image.spec_rgba().len() == 0))
            },
{
    if let SurfaceBackend::ContractOnly { physical_size } = surface.backend {
        physical_size.lemma_area_bounds();
    }
}

/// The statistics of a frame report what was counted, each count under its own name; in debug, of the
/// frame or of the renderer, cache hits are added to those of the last publication, up to the largest
/// count. No time but that of encoding is known yet.
pub proof fn law_stats_report_what_was_counted(
    renderer: &Renderer,
    execution: PreparedExecution,
    collected: CollectedStats,
    parameters: Parameters,
    encode_time: u64,
    stats: Stats,
)
    requires
        call_ensures(
            Renderer::frame_stats,
            (renderer, execution, collected, parameters, encode_time),
            stats,
        ),
    ensures
        stats.commands == collected.commands,
        stats.image_uploads == collected.image_uploads,
        stats.encode_time == encode_time,
        stats.render_time == 0,
        stats.present_time == 0,
        stats.frame_time == 0,
        !parameters.debug && !renderer.options@.debug ==> stats.cache_hits == collected.cache_hits,
        parameters.debug || renderer.options@.debug ==> {
            &&& collected.cache_hits + renderer.stats.cache_hits <= u64::MAX ==> stats.cache_hits
                == collected.cache_hits + renderer.stats.cache_hits
            &&& collected.cache_hits + renderer.stats.cache_hits > u64::MAX ==> stats.cache_hits
                == u64::MAX
        },
        execution is DirectVello <==> stats.route == Some(RenderRoute::DirectVello),
        execution is ExactGraph <==> stats.route == Some(RenderRoute::GpuGraph),
        execution matches PreparedExecution::ExactGraph { working_format } ==> stats.effect_precision
            == Some(working_format),
        execution is DirectVello ==> stats.effect_precision is None,
        stats.vello_passes == (if execution is DirectVello {
            1u64
        } else {
            0u64
        }),
{
}

/// A presented surface that lacks a configuration is configured on its own device, at the size and in
/// the present mode that were asked for; no other surface is.
pub proof fn law_configurations_are_what_was_asked_for<T>(
    renderer: &Renderer,
    surface: &Surface<T>,
    operation: RuntimeOperation,
    result: Result<Option<PresentedConfiguration>, Error>,
)
    requires
        call_ensures(
            Renderer::presented_configuration::<T>,
            (renderer, surface, operation),
            result,
        ),
    ensures
        result matches Ok(Some(configuration)) ==> (
        surface.backend matches SurfaceBackend::Presented { device_identity, state, .. } && {
            &&& state.needs_configuration
            &&& configuration.device_identity.slot == device_identity.slot
            &&& configuration.device_identity.generation == device_identity.generation
            &&& configuration.physical_size.width == state.requested_physical_size.width
            &&& configuration.physical_size.height == state.requested_physical_size.height
            &&& configuration.present_mode == surface.options.present_mode
        }),
        surface.backend is Presented && surface.backend->Presented_state.needs_configuration
            && renderer.backend is Some ==> (result matches Ok(Some(_))),
        surface.backend is Presented && surface.backend->Presented_state.needs_configuration
            && renderer.backend is None ==> result is Err,
        !(surface.backend is Presented && surface.backend->Presented_state.needs_configuration)
            ==> (result matches Ok(None)),
{
}

/// A configuration that took effect makes a presented surface ready in the native format that it was
/// given; its device, its size, its resize state, its options and what it published stay, and so does
/// every other surface. Nothing changes where the device ended meanwhile.
pub proof fn law_configurations_take_effect<T>(operation: RuntimeOperation, format: NativeFormat)
    ensures
        forall|renderer: &mut Renderer, surface: &mut Surface<T>, result: Result<(), Error>|
         #[trigger]
            call_ensures(
                Renderer::commit_presented_configuration::<T>,
                (renderer, surface, operation, format),
                result,
            ) ==> {
                let before = *surface;
                let after = *final(surface);
                &&& result is Err ==> after == before
                &&& result is Ok <==> (*renderer).terminal_failure(&before, operation) is None
                &&& after.options == before.options
                &&& after.attachment == before.attachment
                &&& after.renderer_identity == before.renderer_identity
                &&& after.last_parameters == before.last_parameters
                &&& after.unavailable == before.unavailable
                &&& !(before.backend is Presented) ==> after.backend == before.backend
                &&& result is Ok && before.backend is Presented ==> {
                    let was = before.backend->Presented_state;
                    let now = after.backend->Presented_state;
                    &&& after.backend is Presented
                    &&& after.backend->Presented_device_identity
                        == before.backend->Presented_device_identity
                    &&& after.backend->Presented_native_format == format
                    &&& now.requested_physical_size == was.requested_physical_size
                    &&& now.lifecycle is Ready
                    &&& !now.needs_configuration
                    &&& now.lifecycle.spec_resize_state() == was.lifecycle.spec_resize_state()
                }
            },
{
}

/// A headless surface has the options and the physical size that were asked for, belongs to its
/// renderer and lies on the renderer's default device where there is one; it needs RGBA order, a valid
/// size and a device that has not ended.
pub proof fn law_headless_surfaces_are_what_was_asked_for<T>(
    options: SurfaceOptions,
    validated: Result<(), Error>,
    physical_size: Result<PhysicalSize, Error>,
)
    ensures
        forall|renderer: &mut Renderer, result: Result<Surface<T>, Error>| #[trigger]
            call_ensures(
                Renderer::create_headless_surface::<T>,
                (renderer, options, validated, physical_size),
                result,
            ) ==> (*renderer).is_headless_creation(options, validated, physical_size, result),
        forall|renderer: &mut Renderer, result: Result<SurfaceCreation<T>, Error>| #[trigger]
            call_ensures(
                Renderer::create_surface::<T>,
                (renderer, Attachment::Headless, options, validated, physical_size),
                result,
            ) ==> match result {
                Ok(creation) => creation matches SurfaceCreation::Created(surface)
                    && (*renderer).is_headless_creation(
                    options,
                    validated,
                    physical_size,
                    Ok(surface),
                ),
                Err(error) => (*renderer).is_headless_creation::<T>(
                    options,
                    validated,
                    physical_size,
                    Err(error),
                ),
            },
        forall|renderer: &mut Renderer, defaults: SurfaceOptions, result: Result<Surface<T>, Error>|
         #[trigger]
            call_ensures(
                Renderer::create_headless::<T>,
                (
                    renderer,
                    options.width,
                    options.height,
                    options.scale,
                    defaults,
                    validated,
                    physical_size,
                ),
                result,
            ) && defaults.format == options.format && defaults.present_mode == options.present_mode
                ==> (*renderer).is_headless_creation(options, validated, physical_size, result),
{
    if let Ok(size) = physical_size {
        size.lemma_area_bounds();
    }
}

impl Renderer {
    /// Whether a result is a headless surface as it was asked for, or the first reason why there is
    /// none.
    pub open spec fn is_headless_creation<T>(
        &self,
        options: SurfaceOptions,
        validated: Result<(), Error>,
        physical_size: Result<PhysicalSize, Error>,
        result: Result<Surface<T>, Error>,
    ) -> bool {
        let on_device = self.backend is Some && self.default_device is Some;
        &&& result is Ok <==> {
            &&& validated is Ok
            &&& options.format is Rgba8
            &&& physical_size is Ok
            &&& on_device ==> self.device_terminal(self.default_device->0) is None
        }
        &&& validated matches Err(error) ==> result == Err::<Surface<T>, Error>(error)
        &&& validated is Ok && options.format is Bgra8 ==> result == Err::<Surface<T>, Error>(
            Error::Surface(SurfaceFailure::HeadlessFormat),
        )
        &&& result matches Ok(surface) ==> {
            &&& surface.renderer_identity == self.identity
            &&& surface.attachment is Headless
            &&& surface.options.width == options.width
            &&& surface.options.height == options.height
            &&& surface.options.scale == options.scale
            &&& surface.options.format == options.format
            &&& surface.options.present_mode == options.present_mode
            &&& surface.unavailable is None
            &&& surface.last_parameters is None
            &&& on_device ==> surface.backend is Headless && surface.backend->Headless_device_identity
                == self.default_device->0 && surface.backend->Headless_physical_size
                == physical_size->Ok_0 && surface.backend->Headless_resources is Empty == (
            physical_size->Ok_0.width == 0 || physical_size->Ok_0.height == 0)
                && !(surface.backend->Headless_resources is Ready)
            &&& !on_device ==> surface.backend is ContractOnly
                && surface.backend->ContractOnly_physical_size == physical_size->Ok_0
        }
    }
}

/// A canvas is not supported, a window needs an adapter and a size, and its surface is created at that
/// size.
pub proof fn law_windows_are_created_at_their_size<T>(
    attachment: Attachment,
    options: SurfaceOptions,
    size: PhysicalSize,
)
    requires
        !(attachment is Headless),
    ensures
        forall|renderer: &mut Renderer, result: Result<SurfaceCreation<T>, Error>| #[trigger]
            call_ensures(
                Renderer::create_surface::<T>,
                (
                    renderer,
                    attachment,
                    options,
                    Ok::<(), Error>(()),
                    Ok::<PhysicalSize, Error>(size),
                ),
                result,
            ) ==> {
                &&& attachment is WebCanvas ==> (result matches Err(Error::UnsupportedPrimitive(
                    primitive,
                )) && primitive.operation is WebCanvasSurface && primitive.family is Surfaces)
                &&& attachment is Window ==> (result is Ok <==> (*renderer).backend is Some)
                &&& result matches Ok(creation) ==> (
                creation matches SurfaceCreation::CreatePresented { physical_size }
                    && physical_size.width == size.width && physical_size.height == size.height)
            },
{
}

/// A presented surface is made of what it was given: it is on the device, in the native format and at
/// the size that it was created with, waits for its configuration, and has published nothing. An ended
/// device has none.
pub proof fn law_presented_surfaces_are_what_was_created<T>(
    attachment: Attachment,
    options: SurfaceOptions,
    size: PhysicalSize,
    device: DeviceSlotIdentity,
    format: NativeFormat,
    operation: RuntimeOperation,
)
    ensures
        forall|renderer: &mut Renderer, result: Result<Surface<T>, Error>| #[trigger]
            call_ensures(
                Renderer::presented_surface_created::<T>,
                (renderer, attachment, options, size, device, format, operation),
                result,
            ) ==> {
                &&& result is Ok <==> (*renderer).device_terminal(device) is None
                &&& result matches Ok(surface) ==> {
                    &&& surface.renderer_identity == (*renderer).identity
                    &&& surface.attachment == attachment
                    &&& surface.options == options
                    &&& surface.unavailable is None
                    &&& surface.last_parameters is None
                    &&& surface.backend matches SurfaceBackend::Presented {
                        device_identity,
                        native_format,
                        state,
                    } && {
                        &&& device_identity.slot == device.slot
                        &&& device_identity.generation == device.generation
                        &&& native_format == format
                        &&& state.requested_physical_size.width == size.width
                        &&& state.requested_physical_size.height == size.height
                        &&& state.needs_configuration
                        &&& state.lifecycle is ResizePending
                        &&& state.lifecycle.spec_resize_state() is Idle
                    }
                }
            },
{
}

/// Publishing a frame replaces the texture of a headless surface, the statistics, the uploaded images
/// and the parameters together, and changes nothing else of the surface: not its size, its device, its
/// options nor whom it belongs to.
pub proof fn law_publication_replaces_what_was_published<T>(publication: RenderPublication<T>)
    ensures
        forall|renderer: &mut Renderer, surface: &mut Surface<T>, stats: Stats| #[trigger]
            call_ensures(RenderPublication::<T>::commit, (publication, renderer, surface), stats)
                ==> {
                let before = *surface;
                let after = *final(surface);
                &&& stats == publication.stats
                &&& (*final(renderer)).stats == publication.stats
                &&& (*final(renderer)).uploaded_images == publication.uploaded_images
                &&& (*final(renderer)).identity == (*renderer).identity
                &&& (*final(renderer)).options == (*renderer).options
                &&& after.last_parameters == Some(publication.parameters)
                &&& after.options == before.options
                &&& after.renderer_identity == before.renderer_identity
                &&& after.attachment == before.attachment
                &&& after.unavailable == before.unavailable
                &&& after.backend is Headless <==> before.backend is Headless
                &&& !(before.backend is Headless) ==> after.backend == before.backend
                &&& before.backend is Headless ==> {
                    &&& after.backend->Headless_physical_size.width
                        == before.backend->Headless_physical_size.width
                    &&& after.backend->Headless_physical_size.height
                        == before.backend->Headless_physical_size.height
                    &&& after.backend->Headless_device_identity
                        == before.backend->Headless_device_identity
                    &&& publication.frame.texture matches Some(texture)
                        ==> after.backend->Headless_resources
                        == (HeadlessResources::Ready { texture })
                    &&& publication.frame.texture is None ==> after.backend->Headless_resources
                        == before.backend->Headless_resources
                }
            },
{
}

/// A concluded frame is published with the times of its commit, each under its own name, and with
/// everything else that was known of it; a failed one publishes nothing.
pub proof fn law_concluded_frames_report_their_times<T>(
    device: DeviceSlotIdentity,
    frame: Result<SurfaceFrameCommit<T>, Error>,
    stats: Stats,
    uploaded: HashSet<u64>,
    parameters: Parameters,
    frame_time: u64,
)
    ensures
        forall|renderer: &mut Renderer, surface: &mut Surface<T>, result: Result<Stats, Error>|
         #[trigger]
            call_ensures(
                Renderer::conclude_frame::<T>,
                (renderer, surface, device, frame, stats, uploaded, parameters, frame_time),
                result,
            ) ==> {
                &&& result is Ok <==> frame is Ok
                &&& frame matches Err(error) ==> {
                    &&& result == Err::<Stats, Error>(error)
                    &&& *final(surface) == *surface
                    &&& (*final(renderer)).stats == (*renderer).stats
                    &&& (*final(renderer)).uploaded_images == (*renderer).uploaded_images
                }
                &&& frame matches Ok(commit) ==> {
                    let published = result->Ok_0;
                    &&& published.render_time == commit.render_time
                    &&& published.present_time == commit.present_time
                    &&& published.frame_time == frame_time
                    &&& published.encode_time == stats.encode_time
                    &&& published.commands == stats.commands
                    &&& published.image_uploads == stats.image_uploads
                    &&& published.cache_hits == stats.cache_hits
                    &&& published.vello_passes == stats.vello_passes
                    &&& published.route == stats.route
                    &&& published.effect_precision == stats.effect_precision
                    &&& (*final(renderer)).stats == published
                    &&& (*final(renderer)).uploaded_images == uploaded
                    &&& (*final(surface)).last_parameters == Some(parameters)
                    &&& (*final(surface)).options == (*surface).options
                    &&& (*surface).backend is Headless ==> (commit.texture matches Some(texture)
                        ==> (*final(surface)).backend
                        == (SurfaceBackend::Headless {
                        device_identity: (*surface).backend->Headless_device_identity,
                        resources: HeadlessResources::Ready { texture },
                        physical_size: (*surface).backend->Headless_physical_size,
                    }))
                    &&& !((*surface).backend is Headless) ==> (*final(surface)).backend
                        == (*surface).backend
                }
            },
{
}

/// A surface is admitted exactly if it belongs to the renderer, its kind serves the operation, and the
/// renderer still has its device. A foreign renderer is reported before all else, an operation that the
/// kind does not serve before a device that is gone; readback is not for presented surfaces, and resume
/// is for them alone.
pub proof fn law_admission<T>(
    renderer: &Renderer,
    surface: &Surface<T>,
    operation: RuntimeOperation,
)
    ensures
        renderer.admission_failure(surface, operation) is None <==> {
            &&& surface.renderer_identity.id == renderer.identity.id
            &&& operation is SurfaceReadback ==> !(surface.backend is Presented)
            &&& operation is SurfaceResume ==> surface.backend is Presented
            &&& surface.spec_device_identity() matches Some(identity) ==> renderer.has_device(
                identity,
            )
        },
        surface.renderer_identity.id != renderer.identity.id ==> (renderer.admission_failure(
            surface,
            operation,
        ) matches Some(Error::Unavailable(diagnostic)) && diagnostic.operation == operation
            && diagnostic.reason
            == (RuntimeCapabilityUnavailableReason::SurfaceIdentityMismatch {
            kind: SurfaceIdentityMismatchKind::ForeignRenderer,
        })),
        surface.renderer_identity == renderer.identity && (operation is SurfaceReadback
            && surface.backend is Presented || operation is SurfaceResume && !(
        surface.backend is Presented)) ==> renderer.admission_failure(surface, operation) == Some(
            Error::UnsupportedBackend,
        ),
        surface.renderer_identity == renderer.identity && operation is SurfaceRendering
            && surface.spec_device_identity() is Some && !renderer.has_device(
            surface.spec_device_identity()->0,
        ) ==> (renderer.admission_failure(surface, operation) matches Some(
            Error::Unavailable(diagnostic),
        ) && diagnostic.operation == operation && diagnostic.reason
            == (RuntimeCapabilityUnavailableReason::SurfaceIdentityMismatch {
            kind: SurfaceIdentityMismatchKind::StaleDeviceGeneration,
        })),
        renderer.usage_failure(surface, operation) is None <==> renderer.admission_failure(
            surface,
            operation,
        ) is None && surface.unavailable is None,
        renderer.admission_failure(surface, operation) is Some ==> renderer.usage_failure(
            surface,
            operation,
        ) == renderer.admission_failure(surface, operation),
{
}

/// A frame is rendered on the device of its surface, and exactly if the surface is admitted and
/// available, can show a frame, has a device and that device has not ended.
pub proof fn law_frames_are_rendered_on_the_device_of_their_surface<T>(surface: &Surface<T>)
    ensures
        forall|renderer: &mut Renderer, result: Result<DeviceSlotIdentity, Error>| #[trigger]
            call_ensures(Renderer::render_device_identity::<T>, (renderer, surface), result) ==> {
                &&& result is Ok <==> {
                    &&& (*renderer).usage_failure(surface, RuntimeOperation::SurfaceRendering)
                        is None
                    &&& surface.backend is Presented ==> surface.backend->Presented_state.lifecycle
                        is Ready || surface.backend->Presented_state.lifecycle is ResizePending
                    &&& !(surface.backend is ContractOnly)
                    &&& (*renderer).backend is Some
                    &&& surface.spec_device_identity() matches Some(identity)
                        ==> (*renderer).device_terminal(identity) is None
                }
                &&& result matches Ok(identity) ==> {
                    &&& surface.backend is Headless ==> identity
                        == surface.backend->Headless_device_identity
                    &&& surface.backend is Presented ==> identity
                        == surface.backend->Presented_device_identity
                }
                &&& (*renderer).usage_failure(surface, RuntimeOperation::SurfaceRendering)
                    matches Some(error) ==> result == Err::<DeviceSlotIdentity, Error>(error)
            },
{
}

/// Capabilities are reported of the surface's own device and in its output format, exactly if the
/// surface belongs to the renderer, its device is there and has not ended, its facts are known and the
/// surface can show a frame.
pub proof fn law_capabilities_are_those_of_the_device<T>(surface: &Surface<T>)
    ensures
        forall|renderer: &mut Renderer, answer: RuntimeCapabilities| #[trigger]
            call_ensures(Renderer::runtime_capabilities::<T>, (renderer, surface), answer) ==> {
                &&& answer matches RuntimeCapabilities::Available(report) ==> {
                    &&& surface.renderer_identity == (*renderer).identity
                    &&& (*renderer).surface_capabilities(surface) matches Some(capabilities) && {
                        &&& report.output_format == surface_format(surface)
                        &&& report.high_precision == capabilities.high_precision
                        &&& report.reduced_precision == capabilities.reduced_precision
                        &&& report.max_effect_texture_dimension
                            == capabilities.max_texture_dimension
                    }
                    &&& (*renderer).terminal_failure(surface, RuntimeOperation::SurfaceRendering)
                        is None
                    &&& surface_unavailable_reason(surface) is None
                }
                &&& surface.renderer_identity.id != (*renderer).identity.id ==> answer
                    == RuntimeCapabilities::Unavailable(
                    (RuntimeCapabilityUnavailableReason::SurfaceIdentityMismatch {
                        kind: SurfaceIdentityMismatchKind::ForeignRenderer,
                    }),
                )
                &&& {
                    &&& surface.renderer_identity == (*renderer).identity
                    &&& (*renderer).surface_capabilities(surface) is Some
                    &&& (*renderer).terminal_failure(surface, RuntimeOperation::SurfaceRendering)
                        is None
                    &&& surface_unavailable_reason(surface) is None
                } ==> answer is Available
            },
{
}

/// The capabilities that a frame is dispatched against are those of the device that it is rendered on.
pub proof fn law_dispatch_capabilities_are_those_of_the_device(
    renderer: &Renderer,
    identity: DeviceSlotIdentity,
    result: Result<DeviceCapabilities, Error>,
)
    requires
        call_ensures(Renderer::dispatch_capabilities, (renderer, identity), result),
    ensures
        result matches Ok(capabilities) <==> renderer.backend is Some
            && renderer.backend->0.spec_device_capabilities(identity) is Some,
        result matches Ok(capabilities) ==> renderer.backend->0.spec_device_capabilities(identity)
            == Some(capabilities),
        result matches Err(error) ==> error == Error::Render(RenderFailure::CapabilitiesLost),
{
}

/// Saying that a presented surface is resized, or no longer, changes its resize state and nothing else;
/// other surfaces take no notice, and neither does the renderer.
pub proof fn law_resizing_changes_the_resize_state<T>(resizing: bool)
    ensures
        forall|renderer: &mut Renderer, surface: &mut Surface<T>, result: Result<(), Error>|
         #[trigger]
            call_ensures(
                Renderer::set_surface_resizing::<T>,
                (renderer, surface, resizing),
                result,
            ) ==> {
                let before = *surface;
                let after = *final(surface);
                &&& result is Ok <==> (*renderer).usage_failure(
                    &before,
                    RuntimeOperation::SurfaceRendering,
                ) is None
                &&& *final(renderer) == *renderer
                &&& result is Err || !(before.backend is Presented) ==> after == before
                &&& after.options == before.options
                &&& after.last_parameters == before.last_parameters
                &&& result is Ok && before.backend is Presented ==> {
                    let was = before.backend->Presented_state;
                    let now = after.backend->Presented_state;
                    &&& after.backend is Presented
                    &&& after.backend->Presented_device_identity
                        == before.backend->Presented_device_identity
                    &&& after.backend->Presented_native_format
                        == before.backend->Presented_native_format
                    &&& now.requested_physical_size == was.requested_physical_size
                    &&& now.needs_configuration == was.needs_configuration
                    &&& !(was.lifecycle is Lost) ==> (now.lifecycle.spec_resize_state() is Resizing
                        <==> resizing)
                    &&& was.lifecycle is Lost ==> now.lifecycle is Lost
                }
            },
{
}

/// Resuming does what the action says: nothing, a configuration, or a new surface with the same options
/// on the same device by preference, which keeps its renderer if it is only configured.
pub proof fn law_resume_steps<T>(
    surface: &Surface<T>,
    action: PresentedResumeAction,
    compatible: Result<(), Error>,
)
    ensures
        forall|renderer: &mut Renderer, result: Result<ResumeStep, Error>| #[trigger]
            call_ensures(
                Renderer::resume_surface::<T>,
                (renderer, surface, action, compatible),
                result,
            ) ==> {
                &&& result is Ok <==> {
                    &&& (*renderer).admission_failure(surface, RuntimeOperation::SurfaceResume)
                        is None
                    &&& (*renderer).terminal_failure(surface, RuntimeOperation::SurfaceResume)
                        is None
                    &&& compatible is Ok
                }
                &&& result matches Ok(step) ==> {
                    &&& surface.backend is Presented
                    &&& action is NoOp <==> step is Done
                    &&& action is ConfigureExisting <==> step is ConfigureExisting
                    &&& step matches ResumeStep::Recreate {
                        options,
                        preferred_device,
                        resizing,
                        preserve_renderer_identity,
                    } ==> {
                        &&& options == surface.options
                        &&& preferred_device == surface.backend->Presented_device_identity
                        &&& resizing
                            == surface.backend->Presented_state.lifecycle.spec_resize_state()
                        &&& preserve_renderer_identity <==> action is Configure
                    }
                }
            },
{
    let state = surface.backend->Presented_state;
    let step = resume_step(
        action,
        surface.options,
        surface.backend->Presented_device_identity,
        state,
    );
    assert(step is Recreate <==> action is Configure || action is Recreate);
}

/// A recreated surface takes its place with the new native surface behind it: its attachment, its
/// device, its format and its size are the new ones.
pub proof fn law_recreated_surfaces_take_the_new_backend<T>(
    next: Surface<T>,
    resizing: ResizeState,
    preserve: bool,
)
    requires
        next.backend is Presented,
    ensures
        forall|surface: &mut Surface<T>| #[trigger]
            call_ensures(
                replace_recreated_surface::<T>,
                (surface, next, resizing, preserve),
                (),
            ) ==> {
                let before = *surface;
                let after = *final(surface);
                &&& after.options == before.options
                &&& after.last_parameters == before.last_parameters
                &&& after.attachment == next.attachment
                &&& after.unavailable == next.unavailable
                &&& after.renderer_identity == (if preserve {
                    before.renderer_identity
                } else {
                    next.renderer_identity
                })
                &&& after.backend is Presented
                &&& after.backend->Presented_device_identity
                    == next.backend->Presented_device_identity
                &&& after.backend->Presented_native_format == next.backend->Presented_native_format
                &&& after.backend->Presented_state.requested_physical_size
                    == next.backend->Presented_state.requested_physical_size
                &&& after.backend->Presented_state.needs_configuration
                    == next.backend->Presented_state.needs_configuration
                &&& !(next.backend->Presented_state.lifecycle is Lost)
                    ==> after.backend->Presented_state.lifecycle.spec_resize_state() == resizing
            },
{
}

/// A failed frame reports its own error, unless its surface was outdated and could not be configured
/// again: then that failure.
pub proof fn law_failed_frames_report_one_error(
    error: Error,
    reconfigured: Result<(), Error>,
    reported: Error,
)
    requires
        call_ensures(failed_frame_error, (error, reconfigured), reported),
    ensures
        error != Error::SurfaceOutdated ==> reported == error,
        reconfigured is Ok ==> reported == error,
        error == Error::SurfaceOutdated && reconfigured is Err ==> reported == reconfigured->Err_0,
{
}

/// A new renderer has published nothing and has the devices of its adapter exactly if one was
/// selected.
pub proof fn law_renderers_start_unpublished(
    identity: RendererIdentity,
    options: Options,
    backend: Backend,
    selected: Result<Option<DeviceSlotIdentity>, Error>,
    result: Result<Renderer, Error>,
)
    requires
        call_ensures(Renderer::new, (identity, options, backend, selected), result),
    ensures
        result is Ok <==> selected is Ok,
        result matches Ok(renderer) ==> {
            &&& renderer.identity.id == identity.id
            &&& renderer.options == options
            &&& renderer.default_device == selected->Ok_0
            &&& renderer.backend is Some <==> selected->Ok_0 is Some
            &&& renderer.backend is Some ==> renderer.backend == Some(backend)
            &&& renderer.uploaded_images@.len() == 0
            &&& renderer.stats.route is None
            &&& renderer.stats.effect_precision is None
            &&& renderer.stats.commands == 0
            &&& renderer.stats.cache_hits == 0
            &&& renderer.stats.image_uploads == 0
            &&& renderer.stats.vello_passes == 0
            &&& renderer.stats.frame_time == 0
        },
{
}

/// Only a web canvas can be unsupported, and it is refused by name exactly where the renderer has none.
pub proof fn law_only_missing_web_canvases_are_refused(
    capabilities: Capabilities,
    primitive: UnsupportedPrimitive,
    result: Result<(), Error>,
)
    requires
        call_ensures(Capabilities::ensure_supported, (capabilities, primitive), result),
    ensures
        result is Err <==> primitive.operation is WebCanvasSurface
            && !capabilities.web_canvas_surfaces,
        result matches Err(error) ==> error == Error::UnsupportedPrimitive(primitive),
{
}

/// Observing a device through a renderer observes it in its backend, where the first reason stays, and
/// leaves the rest of the renderer alone.
pub proof fn law_renderers_observe_their_devices(identity: DeviceSlotIdentity, at: int)
    ensures
        forall|renderer: &mut Renderer| #[trigger]
            call_ensures(Renderer::observe_device_terminal, (renderer, identity), ()) ==> {
                &&& (*final(renderer)).stats == (*renderer).stats
                &&& (*final(renderer)).options == (*renderer).options
                &&& (*final(renderer)).default_device == (*renderer).default_device
                &&& (*final(renderer)).backend is Some <==> (*renderer).backend is Some
                &&& (*renderer).backend is Some ==> {
                    let before = (*renderer).backend->0.devices@;
                    let after = (*final(renderer)).backend->0.devices@;
                    &&& after.len() == before.len()
                    &&& 0 <= at < before.len() && (forall|i: int|
                        0 <= i < before.len() ==> ((#[trigger] before[i]).identity == identity <==> i
                            == at)) ==> {
                        &&& before[at].terminal is Some ==> after[at].terminal
                            == before[at].terminal
                        &&& before[at].terminal is None ==> after[at].terminal == before[at].signal
                        &&& forall|i: int|
                            0 <= i < before.len() && i != at ==> #[trigger] after[i] == before[i]
                    }
                }
            },
{
    assert forall|renderer: &mut Renderer| #[trigger]
        call_ensures(Renderer::observe_device_terminal, (renderer, identity), ())
            && (*renderer).backend is Some && 0 <= at < (*renderer).backend->0.devices@.len() && (
        forall|i: int|
            0 <= i < (*renderer).backend->0.devices@.len() ==> ((
            #[trigger] (*renderer).backend->0.devices@[i]).identity == identity <==> i == at))
        implies find_slot((*renderer).backend->0.devices@, identity) == Some(at) by {
        lemma_first_slot((*renderer).backend->0.devices@, identity, at);
    }
}

} // verus!

//! Surfaces: what they are attached to, what they hold, and when they can be used.

use vstd::prelude::*;

use crate::error::Error;
use crate::geometry::PhysicalSize;
use crate::runtime::{
    runtime_unavailable, unavailable, DeviceSlotIdentity, Format, RenderSurfaceAvailability,
    RuntimeCapabilityUnavailableReason, RuntimeOperation,
};
use crate::scalar::Scalar;

verus! {

/// The renderer that a surface belongs to.
#[derive(Clone, Copy, Debug, PartialEq, Eq, Structural)]
pub struct RendererIdentity {
    pub id: u64,
}

impl RendererIdentity {
    pub fn matches(self, other: RendererIdentity) -> (same: bool)
        ensures
            same == (self == other),
    {
        self.id == other.id
    }
}

/// What a surface draws into.
#[derive(Clone, Copy, Debug, PartialEq, Eq, Structural)]
pub enum Attachment {
    Headless,
    WebCanvas { id: u64 },
    Window { handle: u64 },
}

/// How finished frames reach the screen.
#[derive(Clone, Copy, Debug, PartialEq, Eq, Structural)]
pub enum PresentMode {
    Fifo,
    Mailbox,
    Immediate,
}

/// What a surface was asked to be.
#[derive(Clone, Copy, Debug, PartialEq, Eq, Structural)]
pub struct SurfaceOptions {
    pub width: Scalar,
    pub height: Scalar,
    pub scale: Scalar,
    pub format: Format,
    pub present_mode: PresentMode,
}

/// What a frame was asked to be.
#[derive(Clone, Copy, Debug, PartialEq, Eq, Structural)]
pub struct Parameters {
    pub base_red: Scalar,
    pub base_green: Scalar,
    pub base_blue: Scalar,
    pub base_alpha: Scalar,
    pub debug: bool,
}

/// Whether a window is being resized.
#[derive(Clone, Copy, Debug, PartialEq, Eq, Structural)]
pub enum ResizeState {
    Idle,
    Resizing,
}

/// Where a presented surface stands.
#[derive(Clone, Copy, Debug, PartialEq, Eq, Structural)]
pub enum PresentedLifecycle {
    Ready { resize: ResizeState },
    ResizePending { resize: ResizeState },
    NonRenderable { resize: ResizeState },
    Occluded { resize: ResizeState },
    Lost,
}

impl PresentedLifecycle {
    pub open spec fn spec_resize_state(self) -> ResizeState {
        match self {
            PresentedLifecycle::Ready { resize } => resize,
            PresentedLifecycle::ResizePending { resize } => resize,
            PresentedLifecycle::NonRenderable { resize } => resize,
            PresentedLifecycle::Occluded { resize } => resize,
            PresentedLifecycle::Lost => ResizeState::Idle,
        }
    }

    /// The same lifecycle with another resize state. A lost surface has none.
    pub open spec fn with_resize(self, resize: ResizeState) -> PresentedLifecycle {
        match self {
            PresentedLifecycle::Ready { .. } => PresentedLifecycle::Ready { resize },
            PresentedLifecycle::ResizePending { .. } => PresentedLifecycle::ResizePending { resize },
            PresentedLifecycle::NonRenderable { .. } => PresentedLifecycle::NonRenderable { resize },
            PresentedLifecycle::Occluded { .. } => PresentedLifecycle::Occluded { resize },
            PresentedLifecycle::Lost => PresentedLifecycle::Lost,
        }
    }

    pub fn resize_state(self) -> (resize: ResizeState)
        ensures
            resize == self.spec_resize_state(),
    {
        match self {
            PresentedLifecycle::Ready { resize }
            | PresentedLifecycle::ResizePending { resize }
            | PresentedLifecycle::NonRenderable { resize }
            | PresentedLifecycle::Occluded { resize } => resize,
            PresentedLifecycle::Lost => ResizeState::Idle,
        }
    }
}

/// The state of a presented surface.
#[derive(Clone, Copy, Debug, PartialEq, Eq, Structural)]
pub struct PresentedSurfaceState {
    pub requested_physical_size: PhysicalSize,
    pub lifecycle: PresentedLifecycle,
    pub needs_configuration: bool,
}

impl PresentedSurfaceState {
    /// A surface that has to be configured before its first frame.
    pub fn new(physical_size: PhysicalSize, resize: ResizeState) -> (state: Self)
        ensures
            state == (PresentedSurfaceState {
                requested_physical_size: physical_size,
                lifecycle: PresentedLifecycle::ResizePending { resize },
                needs_configuration: true,
            }),
    {
        Self {
            requested_physical_size: physical_size,
            lifecycle: PresentedLifecycle::ResizePending { resize },
            needs_configuration: true,
        }
    }

    pub fn set_resizing(&mut self, resize: ResizeState)
        ensures
            *final(self) == (PresentedSurfaceState {
                lifecycle: old(self).lifecycle.with_resize(resize),
                ..*old(self)
            }),
    {
        self.lifecycle = match self.lifecycle {
            PresentedLifecycle::Ready { .. } => PresentedLifecycle::Ready { resize },
            PresentedLifecycle::ResizePending { .. } => PresentedLifecycle::ResizePending { resize },
            PresentedLifecycle::NonRenderable { .. } => PresentedLifecycle::NonRenderable { resize },
            PresentedLifecycle::Occluded { .. } => PresentedLifecycle::Occluded { resize },
            PresentedLifecycle::Lost => PresentedLifecycle::Lost,
        };
    }

    /// Records that the requested configuration took effect.
    pub fn commit_configuration(&mut self)
        ensures
            *final(self) == (PresentedSurfaceState {
                lifecycle: (PresentedLifecycle::Ready {
                    resize: old(self).lifecycle.spec_resize_state(),
                }),
                needs_configuration: false,
                ..*old(self)
            }),
    {
        let resize = self.lifecycle.resize_state();
        self.lifecycle = PresentedLifecycle::Ready { resize };
        self.needs_configuration = false;
    }
}

/// The texture format of a presented surface, as far as the output format depends on it.
#[derive(Clone, Copy, Debug, PartialEq, Eq, Structural)]
pub enum NativeFormat {
    Rgba8Unorm,
    Bgra8Unorm,
    Other,
}

/// What a headless surface has published. `T` is a texture.
pub enum HeadlessResources<T> {
    /// The surface covers no pixel and never holds a texture.
    Empty,
    /// Nothing has been published yet.
    Pending,
    /// The texture of the last complete publication.
    Ready { texture: T },
}

impl<T> HeadlessResources<T> {
    pub fn for_physical_size(size: PhysicalSize) -> (resources: Self)
        ensures
            resources == (if size.area() == 0 {
                HeadlessResources::<T>::Empty
            } else {
                HeadlessResources::<T>::Pending
            }),
    {
        if size.is_empty() {
            HeadlessResources::Empty
        } else {
            HeadlessResources::Pending
        }
    }
}

/// What stands behind a surface.
pub enum SurfaceBackend<T> {
    /// No adapter is available; only the contract is served.
    ContractOnly { physical_size: PhysicalSize },
    Headless {
        device_identity: DeviceSlotIdentity,
        resources: HeadlessResources<T>,
        physical_size: PhysicalSize,
    },
    Presented {
        device_identity: DeviceSlotIdentity,
        native_format: NativeFormat,
        state: PresentedSurfaceState,
    },
}

/// A surface of one renderer.
pub struct Surface<T> {
    pub renderer_identity: RendererIdentity,
    pub attachment: Attachment,
    pub options: SurfaceOptions,
    pub backend: SurfaceBackend<T>,
    /// Why the surface cannot be used at present, if it cannot.
    pub unavailable: Option<RenderSurfaceAvailability>,
    /// The parameters of the last published frame.
    pub last_parameters: Option<Parameters>,
}

impl<T> Surface<T> {
    pub fn with_backend(
        attachment: Attachment,
        options: SurfaceOptions,
        backend: SurfaceBackend<T>,
        renderer_identity: RendererIdentity,
    ) -> (surface: Self)
        ensures
            surface == (Surface {
                renderer_identity,
                attachment,
                options,
                backend,
                unavailable: None,
                last_parameters: None,
            }),
    {
        Self {
            renderer_identity,
            attachment,
            options,
            backend,
            unavailable: None,
            last_parameters: None,
        }
    }

    pub open spec fn spec_device_identity(&self) -> Option<DeviceSlotIdentity> {
        match self.backend {
            SurfaceBackend::ContractOnly { .. } => None,
            SurfaceBackend::Headless { device_identity, .. } => Some(device_identity),
            SurfaceBackend::Presented { device_identity, .. } => Some(device_identity),
        }
    }

    /// The device that the surface was created on, if there is one.
    pub fn device_identity(&self) -> (identity: Option<DeviceSlotIdentity>)
        ensures
            identity == self.spec_device_identity(),
    {
        match &self.backend {
            SurfaceBackend::ContractOnly { .. } => None,
            SurfaceBackend::Headless { device_identity, .. } => Some(*device_identity),
            SurfaceBackend::Presented { device_identity, .. } => Some(*device_identity),
        }
    }

    /// Refuses an operation on a surface that cannot be used at present.
    pub fn ensure_available(&self, operation: RuntimeOperation) -> (result: Result<(), Error>)
        ensures
            result == match self.unavailable {
                None => Ok(()),
                Some(state) => Err(
                    unavailable(
                        operation,
                        (RuntimeCapabilityUnavailableReason::SurfaceUnavailable { state }),
                    ),
                ),
            },
    {
        match self.unavailable {
            None => Ok(()),
            Some(state) => Err(
                runtime_unavailable(
                    operation,
                    RuntimeCapabilityUnavailableReason::SurfaceUnavailable { state },
                ),
            ),
        }
    }

    /// Refuses to render into a presented surface that cannot show a frame.
    pub fn ensure_renderable(&self) -> (result: Result<(), Error>)
        ensures
            result == match surface_unavailable_reason(self) {
                None => Ok(()),
                Some(reason) => Err(unavailable(RuntimeOperation::SurfaceRendering, reason)),
            },
    {
        match runtime_surface_unavailable_reason(self) {
            None => Ok(()),
            Some(reason) => Err(runtime_unavailable(RuntimeOperation::SurfaceRendering, reason)),
        }
    }
}

/// The pixel format that a surface's frames have: that of the native surface where it is known.
pub open spec fn surface_format<T>(surface: &Surface<T>) -> Format {
    match surface.backend {
        SurfaceBackend::Presented { native_format: NativeFormat::Rgba8Unorm, .. } => Format::Rgba8,
        SurfaceBackend::Presented { native_format: NativeFormat::Bgra8Unorm, .. } => Format::Bgra8,
        _ => surface.options.format,
    }
}

pub fn runtime_surface_format<T>(surface: &Surface<T>) -> (format: Format)
    ensures
        format == surface_format(surface),
{
    if let SurfaceBackend::Presented { native_format, .. } = &surface.backend {
        return match native_format {
            NativeFormat::Rgba8Unorm => Format::Rgba8,
            NativeFormat::Bgra8Unorm => Format::Bgra8,
            NativeFormat::Other => surface.options.format,
        };
    }
    surface.options.format
}

/// Why a presented surface cannot show a frame, if it cannot.
pub open spec fn surface_unavailable_reason<T>(surface: &Surface<T>) -> Option<
    RuntimeCapabilityUnavailableReason,
> {
    match surface.backend {
        SurfaceBackend::Presented { state, .. } => match state.lifecycle {
            PresentedLifecycle::NonRenderable { .. } => Some(
                RuntimeCapabilityUnavailableReason::SurfaceUnavailable {
                    state: RenderSurfaceAvailability::NonRenderable,
                },
            ),
            PresentedLifecycle::Occluded { .. } => Some(
                RuntimeCapabilityUnavailableReason::SurfaceUnavailable {
                    state: RenderSurfaceAvailability::Occluded,
                },
            ),
            PresentedLifecycle::Lost => Some(
                RuntimeCapabilityUnavailableReason::SurfaceUnavailable {
                    state: RenderSurfaceAvailability::Lost,
                },
            ),
            _ => None,
        },
        _ => None,
    }
}

pub fn runtime_surface_unavailable_reason<T>(surface: &Surface<T>) -> (reason: Option<
    RuntimeCapabilityUnavailableReason,
>)
    ensures
        reason == surface_unavailable_reason(surface),
{
    if let SurfaceBackend::Presented { state, .. } = &surface.backend {
        let state = match state.lifecycle {
            PresentedLifecycle::NonRenderable { .. } => RenderSurfaceAvailability::NonRenderable,
            PresentedLifecycle::Occluded { .. } => RenderSurfaceAvailability::Occluded,
            PresentedLifecycle::Lost => RenderSurfaceAvailability::Lost,
            PresentedLifecycle::Ready { .. } | PresentedLifecycle::ResizePending { .. } => {
                return None;
            },
        };
        return Some(RuntimeCapabilityUnavailableReason::SurfaceUnavailable { state });
    }
    None
}

/// A presented surface's frames have the order of its native format where that is known; every other
/// surface's have the order that was asked for.
pub proof fn law_output_formats<T>(surface: &Surface<T>, format: Format)
    requires
        call_ensures(runtime_surface_format::<T>, (surface,), format),
    ensures
        surface.backend is Presented && surface.backend->Presented_native_format is Rgba8Unorm
            ==> format is Rgba8,
        surface.backend is Presented && surface.backend->Presented_native_format is Bgra8Unorm
            ==> format is Bgra8,
        surface.backend is Presented && surface.backend->Presented_native_format is Other
            ==> format == surface.options.format,
        !(surface.backend is Presented) ==> format == surface.options.format,
        surface_format(surface) == format,
{
}

/// A frame can be shown exactly on a surface that is not presented, or presented and ready or about to
/// be resized; the refusal of any other names its state and rendering.
pub proof fn law_renderable_surfaces<T>(surface: &Surface<T>, result: Result<(), Error>)
    requires
        call_ensures(Surface::<T>::ensure_renderable, (surface,), result),
    ensures
        !(surface.backend is Presented) ==> result is Ok,
        surface.backend matches SurfaceBackend::Presented { state, .. } ==> {
            &&& result is Ok <==> state.lifecycle is Ready || state.lifecycle is ResizePending
            &&& result matches Err(error) ==> (error matches Error::Unavailable(diagnostic) && {
                &&& diagnostic.operation is SurfaceRendering
                &&& diagnostic.reason matches RuntimeCapabilityUnavailableReason::SurfaceUnavailable {
                    state: named,
                } && {
                    &&& named is NonRenderable <==> state.lifecycle is NonRenderable
                    &&& named is Occluded <==> state.lifecycle is Occluded
                    &&& named is Lost <==> state.lifecycle is Lost
                }
            })
        },
{
}

/// A surface is available exactly if nothing was noted against it; the refusal names what was, and
/// the operation.
pub proof fn law_available_surfaces<T>(
    surface: &Surface<T>,
    operation: RuntimeOperation,
    result: Result<(), Error>,
)
    requires
        call_ensures(Surface::<T>::ensure_available, (surface, operation), result),
    ensures
        result is Ok <==> surface.unavailable is None,
        result matches Err(error) ==> (error matches Error::Unavailable(diagnostic)
            && diagnostic.operation == operation && (
        diagnostic.reason matches RuntimeCapabilityUnavailableReason::SurfaceUnavailable { state }
            && surface.unavailable == Some(state))),
{
}

/// A surface is on the device that its backend names, and on none without an adapter.
pub proof fn law_surfaces_are_on_their_device<T>(
    surface: &Surface<T>,
    identity: Option<DeviceSlotIdentity>,
)
    requires
        call_ensures(Surface::<T>::device_identity, (surface,), identity),
    ensures
        surface.backend is ContractOnly ==> identity is None,
        surface.backend is Headless ==> identity == Some(surface.backend->Headless_device_identity),
        surface.backend is Presented ==> identity == Some(
            surface.backend->Presented_device_identity,
        ),
{
}

/// Setting the resize state of a presented surface sets it, unless the surface is lost, and changes
/// nothing else: the size that was asked for, whether it has to be configured, and where it stands.
pub proof fn law_resizing_sets_the_resize_state(resize: ResizeState)
    ensures
        forall|state: &mut PresentedSurfaceState| #[trigger]
            call_ensures(PresentedSurfaceState::set_resizing, (state, resize), ()) ==> {
                let before = *state;
                let after = *final(state);
                &&& after.requested_physical_size == before.requested_physical_size
                &&& after.needs_configuration == before.needs_configuration
                &&& before.lifecycle is Ready <==> after.lifecycle is Ready
                &&& before.lifecycle is ResizePending <==> after.lifecycle is ResizePending
                &&& before.lifecycle is NonRenderable <==> after.lifecycle is NonRenderable
                &&& before.lifecycle is Occluded <==> after.lifecycle is Occluded
                &&& before.lifecycle is Lost <==> after.lifecycle is Lost
                &&& !(before.lifecycle is Lost) ==> after.lifecycle.spec_resize_state() == resize
            },
{
}

/// The resize state of a lifecycle is the one that it was given, and a lost surface is idle.
pub proof fn law_resize_states(resize: ResizeState, read: ResizeState, lifecycle: PresentedLifecycle)
    requires
        call_ensures(PresentedLifecycle::resize_state, (lifecycle,), read),
    ensures
        lifecycle == (PresentedLifecycle::Ready { resize }) ==> read == resize,
        lifecycle == (PresentedLifecycle::ResizePending { resize }) ==> read == resize,
        lifecycle == (PresentedLifecycle::NonRenderable { resize }) ==> read == resize,
        lifecycle == (PresentedLifecycle::Occluded { resize }) ==> read == resize,
        lifecycle is Lost ==> read is Idle,
{
}

/// A new presented surface waits for its first configuration at the size that was asked for; once
/// configured it is ready at that size, with the resize state that it had, and waits no longer.
pub proof fn law_configuration_makes_ready(
    size: PhysicalSize,
    resize: ResizeState,
    fresh: PresentedSurfaceState,
)
    requires
        call_ensures(PresentedSurfaceState::new, (size, resize), fresh),
    ensures
        fresh.requested_physical_size.width == size.width,
        fresh.requested_physical_size.height == size.height,
        fresh.needs_configuration,
        fresh.lifecycle is ResizePending,
        fresh.lifecycle.spec_resize_state() == resize,
        forall|state: &mut PresentedSurfaceState| #[trigger]
            call_ensures(PresentedSurfaceState::commit_configuration, (state,), ()) ==> {
                let before = *state;
                let after = *final(state);
                &&& after.requested_physical_size == before.requested_physical_size
                &&& !after.needs_configuration
                &&& after.lifecycle is Ready
                &&& !(before.lifecycle is Lost) ==> after.lifecycle.spec_resize_state()
                    == before.lifecycle.spec_resize_state()
            },
{
}

/// A headless surface without pixels holds nothing ever, and any other waits for its first frame.
pub proof fn law_fresh_headless_resources<T>(size: PhysicalSize, resources: HeadlessResources<T>)
    requires
        call_ensures(HeadlessResources::<T>::for_physical_size, (size,), resources),
    ensures
        resources is Empty <==> size.width == 0 || size.height == 0,
        resources is Pending <==> size.width > 0 && size.height > 0,
{
    size.lemma_area_bounds();
}

/// A surface is made of what it was given, is available, and has published nothing.
pub proof fn law_surfaces_start_unpublished<T>(
    attachment: Attachment,
    options: SurfaceOptions,
    backend: SurfaceBackend<T>,
    identity: RendererIdentity,
    surface: Surface<T>,
)
    requires
        call_ensures(
            Surface::<T>::with_backend,
            (attachment, options, backend, identity),
            surface,
        ),
    ensures
        surface.renderer_identity.id == identity.id,
        surface.attachment == attachment,
        surface.options.width == options.width,
        surface.options.height == options.height,
        surface.options.scale == options.scale,
        surface.options.format == options.format,
        surface.options.present_mode == options.present_mode,
        surface.backend == backend,
        surface.unavailable is None,
        surface.last_parameters is None,
{
}

/// A surface is unavailable exactly while it is presented and covers no renderable area, is occluded or
/// is lost, and the reason says which; a headless one never is.
pub proof fn law_unavailable_surfaces_say_why<T>(
    surface: &Surface<T>,
    reason: Option<RuntimeCapabilityUnavailableReason>,
)
    requires
        call_ensures(runtime_surface_unavailable_reason::<T>, (surface,), reason),
    ensures
        match surface.backend {
            SurfaceBackend::Presented { state, .. } => {
                &&& reason is None <==> state.lifecycle is Ready || state.lifecycle is ResizePending
                &&& reason matches Some(reason) ==> (
                reason matches RuntimeCapabilityUnavailableReason::SurfaceUnavailable { state: said }
                    && {
                    &&& said is NonRenderable <==> state.lifecycle is NonRenderable
                    &&& said is Occluded <==> state.lifecycle is Occluded
                    &&& said is Lost <==> state.lifecycle is Lost
                })
            },
            _ => reason is None,
        },
{
}

} // verus!

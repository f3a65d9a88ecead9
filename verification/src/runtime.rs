//! Runtime facts: operations, devices, and why something is unavailable.

use vstd::prelude::*;

use crate::error::Error;
use crate::options::EffectQualityPolicy;

verus! {

/// A GPU operation that a diagnostic can name.
#[derive(Clone, Copy, Debug, PartialEq, Eq, Structural)]
pub enum RuntimeOperation {
    AdapterSelection,
    SurfaceRendering,
    SurfaceResume,
    SurfaceReadback,
    EffectRendering,
}

/// Which identity of a surface did not match.
#[derive(Clone, Copy, Debug, PartialEq, Eq, Structural)]
pub enum SurfaceIdentityMismatchKind {
    ForeignRenderer,
    StaleDeviceGeneration,
}

/// Why a surface cannot serve an operation.
#[derive(Clone, Copy, Debug, PartialEq, Eq, Structural)]
pub enum RenderSurfaceAvailability {
    NonRenderable,
    Occluded,
    Lost,
    Suspended,
    Uninitialized,
}

/// How a device was lost.
#[derive(Clone, Copy, Debug, PartialEq, Eq, Structural)]
pub enum DeviceLossReason {
    Unknown,
    Destroyed,
}

/// A GPU fault that no error scope caught.
#[derive(Clone, Copy, Debug, PartialEq, Eq, Structural)]
pub enum GpuFaultKind {
    Validation,
    OutOfMemory,
    Internal,
}

/// Why a runtime capability is unavailable.
#[derive(Clone, Copy, Debug, PartialEq, Eq, Structural)]
pub enum RuntimeCapabilityUnavailableReason {
    AdapterUnavailable,
    SurfaceIdentityMismatch { kind: SurfaceIdentityMismatchKind },
    SurfaceUnavailable { state: RenderSurfaceAvailability },
    DeviceLost { reason: DeviceLossReason },
    GpuFault { fault: GpuFaultKind },
    EffectPrecisionUnavailable { policy: EffectQualityPolicy },
}

/// An unavailable capability together with the operation that needed it.
#[derive(Clone, Copy, Debug, PartialEq, Eq, Structural)]
pub struct RuntimeCapabilityUnavailable {
    pub operation: RuntimeOperation,
    pub reason: RuntimeCapabilityUnavailableReason,
}

/// The diagnostic of an unavailable capability.
pub open spec fn unavailable(
    operation: RuntimeOperation,
    reason: RuntimeCapabilityUnavailableReason,
) -> Error {
    Error::Unavailable(RuntimeCapabilityUnavailable { operation, reason })
}

pub fn runtime_unavailable(
    operation: RuntimeOperation,
    reason: RuntimeCapabilityUnavailableReason,
) -> (error: Error)
    ensures
        error == unavailable(operation, reason),
{
    Error::Unavailable(RuntimeCapabilityUnavailable { operation, reason })
}

/// The diagnostic of a surface that belongs to another renderer or device.
pub fn surface_identity_mismatch(operation: RuntimeOperation, kind: SurfaceIdentityMismatchKind) -> (error:
    Error)
    ensures
        error == unavailable(
            operation,
            (RuntimeCapabilityUnavailableReason::SurfaceIdentityMismatch { kind }),
        ),
{
    runtime_unavailable(operation, RuntimeCapabilityUnavailableReason::SurfaceIdentityMismatch { kind })
}

/// Byte order of a surface's pixels.
#[derive(Clone, Copy, Debug, PartialEq, Eq, Structural)]
pub enum Format {
    Rgba8,
    Bgra8,
}

/// The format of the textures that effects are computed in.
#[derive(Clone, Copy, Debug, PartialEq, Eq, Structural)]
pub enum WorkingFormat {
    /// Premultiplied `Rgba16Float`.
    HighPrecision,
    /// Premultiplied `Rgba8Unorm`.
    ReducedPrecision,
}

/// The immutable facts of one device.
#[derive(Clone, Copy, Debug, PartialEq, Eq, Structural)]
pub struct DeviceCapabilities {
    pub high_precision: bool,
    pub reduced_precision: bool,
    pub max_texture_dimension: u32,
}

/// What a device and a surface offer together.
#[derive(Clone, Copy, Debug, PartialEq, Eq, Structural)]
pub struct AvailableRuntimeCapabilities {
    pub output_format: Format,
    pub high_precision: bool,
    pub reduced_precision: bool,
    pub max_effect_texture_dimension: u32,
}

/// The answer to a capability query.
#[derive(Clone, Copy, Debug, PartialEq, Eq, Structural)]
pub enum RuntimeCapabilities {
    Available(AvailableRuntimeCapabilities),
    Unavailable(RuntimeCapabilityUnavailableReason),
}

impl DeviceCapabilities {
    pub open spec fn spec_runtime_report(self, output_format: Format) -> AvailableRuntimeCapabilities {
        AvailableRuntimeCapabilities {
            output_format,
            high_precision: self.high_precision,
            reduced_precision: self.reduced_precision,
            max_effect_texture_dimension: self.max_texture_dimension,
        }
    }

    pub fn runtime_report(self, output_format: Format) -> (report: AvailableRuntimeCapabilities)
        ensures
            report == self.spec_runtime_report(output_format),
    {
        AvailableRuntimeCapabilities {
            output_format,
            high_precision: self.high_precision,
            reduced_precision: self.reduced_precision,
            max_effect_texture_dimension: self.max_texture_dimension,
        }
    }

    /// Whether the device has a working format.
    pub open spec fn supports(self, working_format: WorkingFormat) -> bool {
        match working_format {
            WorkingFormat::HighPrecision => self.high_precision,
            WorkingFormat::ReducedPrecision => self.reduced_precision,
        }
    }

    /// The diagnostic of a working format that the device lacks: it names the policy that asks for
    /// that format.
    pub open spec fn format_failure(self, working_format: WorkingFormat) -> Option<Error> {
        if self.supports(working_format) {
            None
        } else {
            let policy = match working_format {
                WorkingFormat::HighPrecision => EffectQualityPolicy::RequireHighPrecision,
                WorkingFormat::ReducedPrecision => EffectQualityPolicy::AllowReducedPrecision,
            };
            Some(
                unavailable(
                    RuntimeOperation::EffectRendering,
                    RuntimeCapabilityUnavailableReason::EffectPrecisionUnavailable { policy },
                ),
            )
        }
    }

    /// Accepts a working format that the device has.
    pub fn validate_supported_working_format(self, working_format: WorkingFormat) -> (result: Result<
        (),
        Error,
    >)
        ensures
            result is Ok == match working_format {
                WorkingFormat::HighPrecision => self.high_precision,
                WorkingFormat::ReducedPrecision => self.reduced_precision,
            },
            result == match self.format_failure(working_format) {
                Some(error) => Err::<(), Error>(error),
                None => Ok(()),
            },
    {
        let (supported, policy) = match working_format {
            WorkingFormat::HighPrecision => (
                self.high_precision,
                EffectQualityPolicy::RequireHighPrecision,
            ),
            WorkingFormat::ReducedPrecision => (
                self.reduced_precision,
                EffectQualityPolicy::AllowReducedPrecision,
            ),
        };
        if supported {
            Ok(())
        } else {
            Err(
                runtime_unavailable(
                    RuntimeOperation::EffectRendering,
                    RuntimeCapabilityUnavailableReason::EffectPrecisionUnavailable { policy },
                ),
            )
        }
    }

    /// The diagnostic of a device that lacks one of the working formats: high precision comes first.
    pub open spec fn both_formats_failure(self) -> Option<Error> {
        match self.format_failure(WorkingFormat::HighPrecision) {
            Some(error) => Some(error),
            None => self.format_failure(WorkingFormat::ReducedPrecision),
        }
    }

    /// Accepts a device that has both working formats.
    pub fn validate_both_working_formats(self) -> (result: Result<(), Error>)
        ensures
            result == match self.both_formats_failure() {
                Some(error) => Err::<(), Error>(error),
                None => Ok(()),
            },
    {
        match self.validate_supported_working_format(WorkingFormat::HighPrecision) {
            Ok(_) => self.validate_supported_working_format(WorkingFormat::ReducedPrecision),
            Err(error) => Err(error),
        }
    }

    /// The precision that effects run in: high wherever the device has it, reduced only where it
    /// has not and the policy allows it.
    pub open spec fn spec_working_format(self, policy: EffectQualityPolicy) -> Result<
        WorkingFormat,
        Error,
    > {
        if self.high_precision {
            Ok(WorkingFormat::HighPrecision)
        } else if policy is AllowReducedPrecision && self.reduced_precision {
            Ok(WorkingFormat::ReducedPrecision)
        } else {
            Err(
                unavailable(
                    RuntimeOperation::EffectRendering,
                    RuntimeCapabilityUnavailableReason::EffectPrecisionUnavailable { policy },
                ),
            )
        }
    }

    pub fn resolve_effect_working_format(self, policy: EffectQualityPolicy) -> (result: Result<
        WorkingFormat,
        Error,
    >)
        ensures
            result == self.spec_working_format(policy),
    {
        if self.high_precision {
            return Ok(WorkingFormat::HighPrecision);
        }
        match policy {
            EffectQualityPolicy::AllowReducedPrecision if self.reduced_precision => Ok(
                WorkingFormat::ReducedPrecision,
            ),
            _ => Err(
                runtime_unavailable(
                    RuntimeOperation::EffectRendering,
                    RuntimeCapabilityUnavailableReason::EffectPrecisionUnavailable { policy },
                ),
            ),
        }
    }
}

/// A device slot, told apart from earlier devices in the same slot by its generation.
#[derive(Clone, Copy, Debug, PartialEq, Eq, Structural)]
pub struct DeviceSlotIdentity {
    pub slot: u32,
    pub generation: u64,
}

/// What is known of one device.
#[derive(Clone, Copy, Debug, PartialEq, Eq, Structural)]
pub struct DeviceSlot {
    pub identity: DeviceSlotIdentity,
    /// A terminal signal that the device raised and nobody has observed yet.
    pub signal: Option<RuntimeCapabilityUnavailableReason>,
    /// Why the device ended, once that has been observed.
    pub terminal: Option<RuntimeCapabilityUnavailableReason>,
    pub capabilities: Option<DeviceCapabilities>,
}

impl DeviceSlot {
    /// The slot after its pending signal was observed: the first terminal reason stays.
    pub open spec fn observed(self) -> DeviceSlot {
        if self.terminal is None {
            DeviceSlot { terminal: self.signal, ..self }
        } else {
            self
        }
    }
}

/// The devices of a renderer.
pub struct Backend {
    pub devices: Vec<DeviceSlot>,
}

/// The position of the first device with an identity.
pub open spec fn find_slot(devices: Seq<DeviceSlot>, identity: DeviceSlotIdentity) -> Option<int>
    decreases devices.len(),
{
    if devices.len() == 0 {
        None
    } else {
        match find_slot(devices.drop_last(), identity) {
            Some(index) => Some(index),
            None => if devices.last().identity == identity {
                Some(devices.len() - 1)
            } else {
                None
            },
        }
    }
}

/// The devices after the pending signal of one was observed.
pub open spec fn observed_devices(devices: Seq<DeviceSlot>, identity: DeviceSlotIdentity) -> Seq<
    DeviceSlot,
> {
    match find_slot(devices, identity) {
        Some(index) => devices.update(index, devices[index].observed()),
        None => devices,
    }
}

proof fn lemma_find_slot(devices: Seq<DeviceSlot>, identity: DeviceSlotIdentity)
    ensures
        find_slot(devices, identity) matches Some(index) ==> 0 <= index < devices.len()
            && devices[index].identity == identity,
    decreases devices.len(),
{
    if devices.len() > 0 {
        lemma_find_slot(devices.drop_last(), identity);
    }
}

impl Backend {
    /// What is known of a device once its pending signal was observed.
    pub open spec fn slot(&self, identity: DeviceSlotIdentity) -> Option<DeviceSlot> {
        match find_slot(self.devices@, identity) {
            Some(index) => Some(self.devices@[index].observed()),
            None => None,
        }
    }

    /// The terminal reason of a device, if it has ended.
    pub open spec fn spec_terminal_reason(&self, identity: DeviceSlotIdentity) -> Option<
        RuntimeCapabilityUnavailableReason,
    > {
        match self.slot(identity) {
            Some(slot) => slot.terminal,
            None => None,
        }
    }

    /// The facts of a device, if it is there and has any.
    pub open spec fn spec_device_capabilities(&self, identity: DeviceSlotIdentity) -> Option<
        DeviceCapabilities,
    > {
        match self.slot(identity) {
            Some(slot) => slot.capabilities,
            None => None,
        }
    }

    /// Whether two backends know the same of every device, observed or not.
    pub open spec fn same_devices(&self, other: &Backend) -> bool {
        &&& self.devices@.len() == other.devices@.len()
        &&& forall|i: int|
            0 <= i < self.devices@.len() ==> (#[trigger] self.devices@[i]).observed()
                == other.devices@[i].observed()
    }

    fn find(&self, identity: DeviceSlotIdentity) -> (index: Option<usize>)
        ensures
            match index {
                Some(index) => find_slot(self.devices@, identity) == Some(index as int) && index
                    < self.devices@.len(),
                None => find_slot(self.devices@, identity) is None,
            },
    {
        let mut i: usize = 0;
        let mut found: Option<usize> = None;
        assert(self.devices@.take(0) =~= Seq::empty());
        while i < self.devices.len()
            invariant
                i <= self.devices@.len(),
                match found {
                    Some(index) => find_slot(self.devices@.take(i as int), identity) == Some(
                        index as int,
                    ) && index < i,
                    None => find_slot(self.devices@.take(i as int), identity) is None,
                },
            decreases self.devices@.len() - i,
        {
            proof {
                assert(self.devices@.take(i as int + 1).drop_last() =~= self.devices@.take(
                    i as int,
                ));
            }
            if found.is_none() && self.devices[i].identity == identity {
                found = Some(i);
            }
            i = i + 1;
        }
        assert(self.devices@.take(i as int) =~= self.devices@);
        found
    }

    /// Whether a device is still in its slot.
    pub fn has_device_slot(&self, identity: DeviceSlotIdentity) -> (present: bool)
        ensures
            present == self.slot(identity) is Some,
    {
        self.find(identity).is_some()
    }

    /// Leaves a terminal signal of a device for the next observation. The first signal stays.
    pub fn signal_device_terminal(
        &mut self,
        identity: DeviceSlotIdentity,
        reason: RuntimeCapabilityUnavailableReason,
    )
        ensures
            final(self).devices@ == match find_slot(old(self).devices@, identity) {
                Some(index) => if old(self).devices@[index].signal is None {
                    old(self).devices@.update(
                        index,
                        (DeviceSlot { signal: Some(reason), ..old(self).devices@[index] }),
                    )
                } else {
                    old(self).devices@
                },
                None => old(self).devices@,
            },
    {
        if let Some(index) = self.find(identity) {
            let slot = self.devices[index];
            if slot.signal.is_none() {
                self.devices.set(index, DeviceSlot { signal: Some(reason), ..slot });
            }
        }
    }

    /// Takes over a pending terminal signal of a device. The first terminal reason stays.
    pub fn observe_device_terminal(&mut self, identity: DeviceSlotIdentity)
        ensures
            final(self).same_devices(old(self)),
            final(self).devices@ == observed_devices(old(self).devices@, identity),
    {
        if let Some(index) = self.find(identity) {
            let slot = self.devices[index];
            if slot.terminal.is_none() {
                self.devices.set(index, DeviceSlot { terminal: slot.signal, ..slot });
            } else {
                assert(self.devices@ =~= self.devices@.update(index as int, slot));
            }
        }
    }

    /// Why a device ended, if it has.
    pub fn terminal_reason(&mut self, identity: DeviceSlotIdentity) -> (reason: Option<
        RuntimeCapabilityUnavailableReason,
    >)
        ensures
            reason == old(self).spec_terminal_reason(identity),
            final(self).same_devices(old(self)),
            final(self).devices@ == observed_devices(old(self).devices@, identity),
    {
        proof {
            lemma_find_slot(self.devices@, identity);
        }
        self.observe_device_terminal(identity);
        proof {
            lemma_same_find(self.devices@, old(self).devices@, identity);
        }
        match self.find(identity) {
            Some(index) => self.devices[index].terminal,
            None => None,
        }
    }

    /// The diagnostic of an operation on a device that has ended.
    pub fn terminal_error(&mut self, identity: DeviceSlotIdentity, operation: RuntimeOperation) -> (error:
        Option<Error>)
        ensures
            error == match old(self).spec_terminal_reason(identity) {
                Some(reason) => Some(unavailable(operation, reason)),
                None => None,
            },
            final(self).same_devices(old(self)),
            final(self).devices@ == observed_devices(old(self).devices@, identity),
    {
        match self.terminal_reason(identity) {
            Some(reason) => Some(runtime_unavailable(operation, reason)),
            None => None,
        }
    }

    /// The immutable facts of a device.
    pub fn device_capabilities(&self, identity: DeviceSlotIdentity) -> (capabilities: Option<
        DeviceCapabilities,
    >)
        ensures
            capabilities == self.spec_device_capabilities(identity),
    {
        match self.find(identity) {
            Some(index) => self.devices[index].capabilities,
            None => None,
        }
    }
}

proof fn lemma_same_find(a: Seq<DeviceSlot>, b: Seq<DeviceSlot>, identity: DeviceSlotIdentity)
    requires
        a.len() == b.len(),
        forall|i: int| 0 <= i < a.len() ==> (#[trigger] a[i]).observed() == b[i].observed(),
    ensures
        find_slot(a, identity) == find_slot(b, identity),
    decreases a.len(),
{
    if a.len() > 0 {
        assert(a.last().observed() == b.last().observed());
        assert forall|i: int| 0 <= i < a.drop_last().len() implies (#[trigger] a.drop_last()[i]).observed()
            == b.drop_last()[i].observed() by {
            assert(a[i].observed() == b[i].observed());
        }
        lemma_same_find(a.drop_last(), b.drop_last(), identity);
    }
}

/// Observing signals changes no answer about any device.
pub proof fn law_observation_keeps_answers(a: &Backend, b: &Backend, identity: DeviceSlotIdentity)
    requires
        a.same_devices(b),
    ensures
        a.slot(identity) == b.slot(identity),
        a.spec_terminal_reason(identity) == b.spec_terminal_reason(identity),
        a.spec_device_capabilities(identity) == b.spec_device_capabilities(identity),
{
    lemma_same_find(a.devices@, b.devices@, identity);
    lemma_find_slot(a.devices@, identity);
}

/// What is known of a device is what the first slot with its identity says: its capabilities, and
/// the terminal reason that was observed first, or the signal that is still pending. Another slot or
/// another generation does not answer for it.
pub proof fn law_devices_are_found_by_identity(
    backend: &Backend,
    identity: DeviceSlotIdentity,
    at: int,
)
    requires
        0 <= at < backend.devices@.len(),
        backend.devices@[at].identity.slot == identity.slot,
        backend.devices@[at].identity.generation == identity.generation,
        forall|i: int|
            0 <= i < at ==> (#[trigger] backend.devices@[i]).identity.slot != identity.slot
                || backend.devices@[i].identity.generation != identity.generation,
    ensures
        forall|capabilities: Option<DeviceCapabilities>| #[trigger]
            call_ensures(Backend::device_capabilities, (backend, identity), capabilities)
                ==> capabilities == backend.devices@[at].capabilities,
        forall|present: bool| #[trigger]
            call_ensures(Backend::has_device_slot, (backend, identity), present) ==> present,
        backend.spec_terminal_reason(identity) == (match backend.devices@[at].terminal {
            Some(reason) => Some(reason),
            None => backend.devices@[at].signal,
        }),
{
    lemma_first_slot(backend.devices@, identity, at);
}

/// A device that no slot has is unknown: it has no capabilities and no terminal reason.
pub proof fn law_other_devices_are_unknown(backend: &Backend, identity: DeviceSlotIdentity)
    requires
        forall|i: int|
            0 <= i < backend.devices@.len() ==> (#[trigger] backend.devices@[i]).identity.slot
                != identity.slot || backend.devices@[i].identity.generation != identity.generation,
    ensures
        forall|capabilities: Option<DeviceCapabilities>| #[trigger]
            call_ensures(Backend::device_capabilities, (backend, identity), capabilities)
                ==> capabilities is None,
        forall|present: bool| #[trigger]
            call_ensures(Backend::has_device_slot, (backend, identity), present) ==> !present,
        backend.spec_terminal_reason(identity) is None,
{
    lemma_find_slot(backend.devices@, identity);
}

pub proof fn lemma_first_slot(devices: Seq<DeviceSlot>, identity: DeviceSlotIdentity, at: int)
    requires
        0 <= at < devices.len(),
        devices[at].identity == identity,
        forall|i: int| 0 <= i < at ==> (#[trigger] devices[i]).identity != identity,
    ensures
        find_slot(devices, identity) == Some(at),
    decreases devices.len(),
{
    if at < devices.len() - 1 {
        lemma_first_slot(devices.drop_last(), identity, at);
    } else {
        lemma_find_slot(devices.drop_last(), identity);
    }
}

/// Observing a device keeps the reason that it ended for first: one that was observed stays, one that
/// is pending is taken over, and asking gives that reason.
pub proof fn law_the_first_terminal_reason_stays(identity: DeviceSlotIdentity, at: int)
    ensures
        forall|backend: &mut Backend, reason: Option<RuntimeCapabilityUnavailableReason>|
            {
                &&& #[trigger] call_ensures(Backend::terminal_reason, (backend, identity), reason)
                &&& 0 <= at < (*backend).devices@.len()
                &&& (*backend).devices@[at].identity == identity
                &&& forall|i: int|
                    0 <= i < at ==> (#[trigger] (*backend).devices@[i]).identity != identity
            } ==> {
                let before = (*backend).devices@[at];
                let after = (*final(backend)).devices@[at];
                &&& before.terminal is Some ==> reason == before.terminal
                &&& before.terminal is None ==> reason == before.signal
                &&& after.terminal == reason
                &&& after.identity == before.identity
                &&& after.capabilities == before.capabilities
                &&& forall|i: int|
                    0 <= i < (*backend).devices@.len() && i != at ==> #[trigger] (*final(backend)).devices@[i] == (*backend).devices@[i]
            },
        forall|backend: &mut Backend, reason: RuntimeCapabilityUnavailableReason|
            {
                &&& #[trigger] call_ensures(
                    Backend::signal_device_terminal,
                    (backend, identity, reason),
                    (),
                )
                &&& 0 <= at < (*backend).devices@.len()
                &&& (*backend).devices@[at].identity == identity
                &&& forall|i: int|
                    0 <= i < at ==> (#[trigger] (*backend).devices@[i]).identity != identity
            } ==> {
                let before = (*backend).devices@[at];
                let after = (*final(backend)).devices@[at];
                &&& before.signal is Some ==> after == before
                &&& before.signal is None ==> after.signal == Some(reason)
                &&& after.terminal == before.terminal
                &&& after.capabilities == before.capabilities
                &&& forall|i: int|
                    0 <= i < (*backend).devices@.len() && i != at ==> #[trigger] (*final(backend)).devices@[i] == (*backend).devices@[i]
            },
{
    assert forall|backend: &mut Backend|
        {
            &&& 0 <= at < (*backend).devices@.len()
            &&& (*backend).devices@[at].identity == identity
            &&& forall|i: int|
                0 <= i < at ==> (#[trigger] (*backend).devices@[i]).identity != identity
        } implies #[trigger] find_slot((*backend).devices@, identity) == Some(at) by {
        lemma_first_slot((*backend).devices@, identity, at);
    }
}

/// Effects run in high precision on every device that has it, whatever the policy; in reduced
/// precision exactly on a device that has that and not high precision, under a policy that allows it;
/// and otherwise nowhere. The refusal names the policy.
pub proof fn law_effect_precision(
    capabilities: DeviceCapabilities,
    policy: EffectQualityPolicy,
    result: Result<WorkingFormat, Error>,
)
    requires
        call_ensures(
            DeviceCapabilities::resolve_effect_working_format,
            (capabilities, policy),
            result,
        ),
    ensures
        capabilities.high_precision <==> result matches Ok(WorkingFormat::HighPrecision),
        result matches Ok(WorkingFormat::ReducedPrecision) <==> capabilities.reduced_precision
            && !capabilities.high_precision && policy is AllowReducedPrecision,
        result matches Err(error) ==> (error matches Error::Unavailable(diagnostic) && {
            &&& diagnostic.operation is EffectRendering
            &&& diagnostic.reason
                == (RuntimeCapabilityUnavailableReason::EffectPrecisionUnavailable { policy })
        }),
{
}

/// A working format is accepted exactly on a device that has it; the refusal of high precision names
/// the policy that requires it, and that of reduced precision the one that allows it.
pub proof fn law_working_formats_are_checked(
    capabilities: DeviceCapabilities,
    format: WorkingFormat,
    one: Result<(), Error>,
    both: Result<(), Error>,
)
    requires
        call_ensures(
            DeviceCapabilities::validate_supported_working_format,
            (capabilities, format),
            one,
        ),
        call_ensures(DeviceCapabilities::validate_both_working_formats, (capabilities,), both),
    ensures
        format is HighPrecision ==> (one is Ok <==> capabilities.high_precision),
        format is ReducedPrecision ==> (one is Ok <==> capabilities.reduced_precision),
        both is Ok <==> capabilities.high_precision && capabilities.reduced_precision,
        one matches Err(error) ==> (error matches Error::Unavailable(diagnostic) && {
            &&& diagnostic.operation is EffectRendering
            &&& diagnostic.reason matches RuntimeCapabilityUnavailableReason::EffectPrecisionUnavailable {
                policy,
            } && (policy is RequireHighPrecision <==> format is HighPrecision)
        }),
        both matches Err(error) ==> (error matches Error::Unavailable(diagnostic) && (
        diagnostic.reason matches RuntimeCapabilityUnavailableReason::EffectPrecisionUnavailable {
            policy,
        } && (policy is RequireHighPrecision <==> !capabilities.high_precision))),
{
}

/// The report of a device and an output format says of each what it is.
pub proof fn law_reports_say_what_the_device_has(
    capabilities: DeviceCapabilities,
    format: Format,
    report: AvailableRuntimeCapabilities,
)
    requires
        call_ensures(DeviceCapabilities::runtime_report, (capabilities, format), report),
    ensures
        report.output_format == format,
        report.high_precision == capabilities.high_precision,
        report.reduced_precision == capabilities.reduced_precision,
        report.max_effect_texture_dimension == capabilities.max_texture_dimension,
{
}

/// A diagnostic names the operation that failed and the reason, and a mismatch its kind.
pub proof fn law_diagnostics_name_operation_and_reason(
    operation: RuntimeOperation,
    reason: RuntimeCapabilityUnavailableReason,
    kind: SurfaceIdentityMismatchKind,
    error: Error,
    mismatch: Error,
)
    requires
        call_ensures(runtime_unavailable, (operation, reason), error),
        call_ensures(surface_identity_mismatch, (operation, kind), mismatch),
    ensures
        error matches Error::Unavailable(diagnostic) && diagnostic.operation == operation
            && diagnostic.reason == reason,
        mismatch matches Error::Unavailable(diagnostic) && diagnostic.operation == operation
            && diagnostic.reason
            == (RuntimeCapabilityUnavailableReason::SurfaceIdentityMismatch { kind }),
{
}

/// Observing a device takes over what is pending there, and nothing else; an operation on a device that
/// has ended is refused for the first reason, naming the operation.
pub proof fn law_ended_devices_refuse_operations(
    identity: DeviceSlotIdentity,
    operation: RuntimeOperation,
    at: int,
)
    ensures
        forall|backend: &mut Backend|
            {
                &&& #[trigger] call_ensures(
                    Backend::observe_device_terminal,
                    (backend, identity),
                    (),
                )
                &&& 0 <= at < (*backend).devices@.len()
                &&& (*backend).devices@[at].identity == identity
                &&& forall|i: int|
                    0 <= i < at ==> (#[trigger] (*backend).devices@[i]).identity != identity
            } ==> {
                let before = (*backend).devices@[at];
                let after = (*final(backend)).devices@[at];
                &&& before.terminal is Some ==> after.terminal == before.terminal
                &&& before.terminal is None ==> after.terminal == before.signal
                &&& after.identity == before.identity
                &&& after.signal == before.signal
                &&& after.capabilities == before.capabilities
                &&& forall|i: int|
                    0 <= i < (*backend).devices@.len() && i != at ==> #[trigger] (*final(backend)).devices@[i] == (*backend).devices@[i]
            },
        forall|backend: &mut Backend, error: Option<Error>|
            {
                &&& #[trigger] call_ensures(
                    Backend::terminal_error,
                    (backend, identity, operation),
                    error,
                )
                &&& 0 <= at < (*backend).devices@.len()
                &&& (*backend).devices@[at].identity == identity
                &&& forall|i: int|
                    0 <= i < at ==> (#[trigger] (*backend).devices@[i]).identity != identity
            } ==> {
                let before = (*backend).devices@[at];
                &&& error is Some <==> before.terminal is Some || before.signal is Some
                &&& error matches Some(error) ==> (error matches Error::Unavailable(diagnostic) && {
                    &&& diagnostic.operation == operation
                    &&& before.terminal is Some ==> before.terminal == Some(diagnostic.reason)
                    &&& before.terminal is None ==> before.signal == Some(diagnostic.reason)
                })
            },
{
    assert forall|backend: &mut Backend|
        {
            &&& 0 <= at < (*backend).devices@.len()
            &&& (*backend).devices@[at].identity == identity
            &&& forall|i: int|
                0 <= i < at ==> (#[trigger] (*backend).devices@[i]).identity != identity
        } implies #[trigger] find_slot((*backend).devices@, identity) == Some(at) by {
        lemma_first_slot((*backend).devices@, identity, at);
    }
}

} // verus!

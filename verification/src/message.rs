//! The texts of diagnostics.

use vstd::prelude::*;

use crate::error::{
    Axis, CheckedProgram, ExactGraph, InvalidValue, LoweringFailure, PreparationFailure,
    ReadbackFailure, RenderFailure, SurfaceFailure,
};
use crate::options::EffectQualityPolicy;
use crate::runtime::{
    DeviceLossReason, GpuFaultKind, RenderSurfaceAvailability, RuntimeCapabilityUnavailable,
    RuntimeCapabilityUnavailableReason, RuntimeOperation, SurfaceIdentityMismatchKind,
};

verus! {

impl ReadbackFailure {
    pub open spec fn text(self) -> Seq<char> {
        match self {
            ReadbackFailure::AlignedRowByteCountExceedsLimits =>
                "aligned readback row byte count exceeds WGPU limits"@,
            ReadbackFailure::DecodedByteCountOverflowed => "decoded readback byte count overflowed"@,
            ReadbackFailure::MappedRangeEmpty => "readback mapped range must be nonempty"@,
            ReadbackFailure::MappedRangeOffsetUnaligned =>
                "readback mapped range offset was not map-aligned"@,
            ReadbackFailure::MappedRangeLengthUnaligned =>
                "readback mapped range length was not four-byte aligned"@,
            ReadbackFailure::RowOffsetOverflowed => "mapped readback row offset overflowed"@,
            ReadbackFailure::RowEndOverflowed => "mapped readback row end overflowed"@,
            ReadbackFailure::RowIncomplete => "mapped readback row was incomplete"@,
            ReadbackFailure::ImageInvalid =>
                "decoded readback bytes did not form a valid RGBA8 image"@,
            ReadbackFailure::MapFailed => "failed to map the texture readback staging buffer"@,
            ReadbackFailure::WrongSubmissionIndex =>
                "the readback helper received the wrong submission index"@,
            ReadbackFailure::HelperNotStarted =>
                "failed to start the native readback progress helper"@,
            ReadbackFailure::WaitFailed => "failed while waiting for the texture readback copy"@,
            ReadbackFailure::CallbackDropped => "texture readback map callback was dropped"@,
        }
    }

    pub fn message(self) -> (message: &'static str)
        ensures
            message@ == self.text(),
    {
        match self {
            ReadbackFailure::AlignedRowByteCountExceedsLimits =>
                "aligned readback row byte count exceeds WGPU limits",
            ReadbackFailure::DecodedByteCountOverflowed => "decoded readback byte count overflowed",
            ReadbackFailure::MappedRangeEmpty => "readback mapped range must be nonempty",
            ReadbackFailure::MappedRangeOffsetUnaligned =>
                "readback mapped range offset was not map-aligned",
            ReadbackFailure::MappedRangeLengthUnaligned =>
                "readback mapped range length was not four-byte aligned",
            ReadbackFailure::RowOffsetOverflowed => "mapped readback row offset overflowed",
            ReadbackFailure::RowEndOverflowed => "mapped readback row end overflowed",
            ReadbackFailure::RowIncomplete => "mapped readback row was incomplete",
            ReadbackFailure::ImageInvalid =>
                "decoded readback bytes did not form a valid RGBA8 image",
            ReadbackFailure::MapFailed => "failed to map the texture readback staging buffer",
            ReadbackFailure::WrongSubmissionIndex =>
                "the readback helper received the wrong submission index",
            ReadbackFailure::HelperNotStarted =>
                "failed to start the native readback progress helper",
            ReadbackFailure::WaitFailed => "failed while waiting for the texture readback copy",
            ReadbackFailure::CallbackDropped => "texture readback map callback was dropped",
        }
    }
}

impl SurfaceFailure {
    pub open spec fn text(self) -> Seq<char> {
        "headless surfaces require Rgba8 format for Vello storage rendering"@
    }

    pub fn message(self) -> (message: &'static str)
        ensures
            message@ == self.text(),
    {
        "headless surfaces require Rgba8 format for Vello storage rendering"
    }
}

impl RenderFailure {
    pub open spec fn text(self) -> Seq<char> {
        match self {
            RenderFailure::CapabilitiesLost =>
                "the renderer dispatch boundary lost immutable device capabilities"@,
            RenderFailure::MalformedGraph => "a malformed GPU graph reached production dispatch"@,
            RenderFailure::NoUnavailablePass =>
                "a future GPU graph had no unavailable execution pass"@,
            RenderFailure::ForcedSpineCapabilitiesLost =>
                "the private C08 forced route lost immutable device capabilities"@,
            RenderFailure::OutsideForcedSpine =>
                "the private forced graph is outside the exact executable C08 subset"@,
            RenderFailure::CaptureGridDiffers =>
                "the prepared C08 capture grid differs from the validated semantic graph"@,
            RenderFailure::ColorFixtureCapabilitiesLost =>
                "the private C10 fixture lost immutable device capabilities"@,
            RenderFailure::ColorFixtureSourceLost =>
                "the private C10 fixture lost its first exact color source"@,
            RenderFailure::SpatialFixtureCapabilitiesLost =>
                "the private C11 fixture lost immutable device capabilities"@,
            RenderFailure::SpatialFixtureMappingLost =>
                "the private C11 fixture lost its first spatial filter mapping"@,
            RenderFailure::BackdropFixtureNotPlanned =>
                "the private C12 fixture did not produce a bounded backdrop graph"@,
            RenderFailure::BackdropFixtureCapabilitiesLost =>
                "the private C12 fixture lost immutable device capabilities"@,
            RenderFailure::BackdropFixtureMappingLost =>
                "the private C12 fixture lost its exact backdrop mapping"@,
            RenderFailure::PreparationNotPlanned =>
                "the resource preparation fixture did not produce a GPU graph"@,
            RenderFailure::PreparationCapabilitiesLost =>
                "resource preparation coverage requires immutable device capabilities"@,
        }
    }

    pub fn message(self) -> (message: &'static str)
        ensures
            message@ == self.text(),
    {
        match self {
            RenderFailure::CapabilitiesLost =>
                "the renderer dispatch boundary lost immutable device capabilities",
            RenderFailure::MalformedGraph => "a malformed GPU graph reached production dispatch",
            RenderFailure::NoUnavailablePass =>
                "a future GPU graph had no unavailable execution pass",
            RenderFailure::ForcedSpineCapabilitiesLost =>
                "the private C08 forced route lost immutable device capabilities",
            RenderFailure::OutsideForcedSpine =>
                "the private forced graph is outside the exact executable C08 subset",
            RenderFailure::CaptureGridDiffers =>
                "the prepared C08 capture grid differs from the validated semantic graph",
            RenderFailure::ColorFixtureCapabilitiesLost =>
                "the private C10 fixture lost immutable device capabilities",
            RenderFailure::ColorFixtureSourceLost =>
                "the private C10 fixture lost its first exact color source",
            RenderFailure::SpatialFixtureCapabilitiesLost =>
                "the private C11 fixture lost immutable device capabilities",
            RenderFailure::SpatialFixtureMappingLost =>
                "the private C11 fixture lost its first spatial filter mapping",
            RenderFailure::BackdropFixtureNotPlanned =>
                "the private C12 fixture did not produce a bounded backdrop graph",
            RenderFailure::BackdropFixtureCapabilitiesLost =>
                "the private C12 fixture lost immutable device capabilities",
            RenderFailure::BackdropFixtureMappingLost =>
                "the private C12 fixture lost its exact backdrop mapping",
            RenderFailure::PreparationNotPlanned =>
                "the resource preparation fixture did not produce a GPU graph",
            RenderFailure::PreparationCapabilitiesLost =>
                "resource preparation coverage requires immutable device capabilities",
        }
    }
}

impl LoweringFailure {
    pub open spec fn text(self) -> Seq<char> {
        match self {
            LoweringFailure::ZeroCaptureRootClearMissing =>
                "the C08 zero-capture fixture has no root clear"@,
            LoweringFailure::ZeroCaptureRootResourceMissing =>
                "the C08 zero-capture fixture has no root resource"@,
            LoweringFailure::ZeroCaptureFinalReadMissing =>
                "the C08 zero-capture fixture has no final read"@,
            LoweringFailure::SpareCapturePassMissing =>
                "the two-capture C08 fixture has no spare capture pass identity"@,
            LoweringFailure::SpareCanonicalPassMissing =>
                "the two-capture C08 fixture has no spare canonical pass identity"@,
            LoweringFailure::SpareCompositePassMissing =>
                "the two-capture C08 fixture has no spare composite pass identity"@,
            LoweringFailure::SpareCaptureResourceMissing =>
                "the two-capture C08 fixture has no spare capture resource identity"@,
            LoweringFailure::SpareCanonicalResourceMissing =>
                "the two-capture C08 fixture has no spare canonical resource identity"@,
            LoweringFailure::SpareCompositeResourceMissing =>
                "the two-capture C08 fixture has no spare composite resource identity"@,
            LoweringFailure::NotOneCaptureSpine =>
                "the two-capture C08 fixture source is not the exact one-capture spine"@,
            LoweringFailure::CaptureTargetMissing =>
                "the two-capture C08 fixture source has no capture target"@,
            LoweringFailure::CanonicalTargetMissing =>
                "the two-capture C08 fixture source has no canonical target"@,
            LoweringFailure::CompositeTargetMissing =>
                "the two-capture C08 fixture source has no composite target"@,
            LoweringFailure::CaptureResourceLost =>
                "the two-capture C08 fixture lost its capture resource"@,
            LoweringFailure::CanonicalResourceLost =>
                "the two-capture C08 fixture lost its canonical resource"@,
            LoweringFailure::CompositeResourceLost =>
                "the two-capture C08 fixture lost its composite resource"@,
            LoweringFailure::TwoCaptureSubsetLost =>
                "the two-capture C08 fixture did not preserve the validated executable subset"@,
            LoweringFailure::DonorNotPlanned =>
                "the two-capture C08 fixture requires a graph-shaped identity donor"@,
            LoweringFailure::ExecutableKeysLost =>
                "the checked C08 cache fixture did not retain exact executable keys"@,
            LoweringFailure::CustomPassKeysMissing =>
                "the checked C08 cache fixture contains no custom pass keys"@,
            LoweringFailure::LayerCompositeKeysMissing =>
                "the C09 composite cache fixture has no layer-composite keys"@,
            LoweringFailure::NormalPathKeysLost =>
                "the C09 normal-path cache fixture lost its exact keys"@,
            LoweringFailure::CompositeVariantsMissing =>
                "the C09 composite cache fixture contains no composite variants"@,
            LoweringFailure::ColorFilterRequestNotUnique =>
                "the C10 color-filter cache fixture must contain one checked program request"@,
            LoweringFailure::BlurRequestsNotFour =>
                "the C11 blur cache fixture must contain four axis/input program requests"@,
            LoweringFailure::ShadowColorizeRepeated =>
                "the C11 fixture contains more than one drop-shadow colorize request"@,
            LoweringFailure::ShadowMergeRepeated =>
                "the C11 fixture contains more than one drop-shadow merge request"@,
            LoweringFailure::ShadowColorizeKeysLost =>
                "the C11 fixture lost its drop-shadow colorize keys"@,
            LoweringFailure::ShadowMergeKeysLost =>
                "the C11 fixture lost its drop-shadow merge keys"@,
            LoweringFailure::BackdropCopyNotUnique =>
                "the C12 backdrop-copy fixture must contain one checked copy request"@,
            LoweringFailure::BackdropCopyReadNotUnique =>
                "the C12 backdrop-copy fixture must read one completed parent"@,
            LoweringFailure::BackdropCopyResultMissing =>
                "the C12 backdrop-copy fixture must write one working resource"@,
            LoweringFailure::BackdropCopyKeysMissing =>
                "the C12 backdrop-copy cache keys are missing"@,
            LoweringFailure::MirroredBlurReadNotUnique =>
                "a C12 mirrored blur must read one filter source"@,
            LoweringFailure::MirroredBlurKeysMissing =>
                "a C12 mirrored blur has no checked cache keys"@,
            LoweringFailure::MirroredBlursNotFour =>
                "the C12 backdrop blur fixture must contain four mirrored axis/input requests"@,
            LoweringFailure::OutsideBoundedGraph =>
                "the C12 backdrop-copy fixture is outside the exact bounded graph"@,
            LoweringFailure::OutsideBoundedBlurGraph =>
                "the C12 backdrop blur fixture is outside the exact bounded graph"@,
            LoweringFailure::ColorOperationsMissing =>
                "the color-filter lowering fixture produced no runtime operations"@,
            LoweringFailure::ColorFilterRunNotUnique =>
                "the C10 operation-byte fixture must contain one color-filter run"@,
            LoweringFailure::LoweringNotPlanned =>
                "the lowering fixture did not produce a GPU graph"@,
            LoweringFailure::CompositeNotPlanned =>
                "the C09 composite cache fixture did not produce a GPU graph"@,
            LoweringFailure::ColorFilterNotPlanned =>
                "the C10 color-filter cache fixture did not produce a GPU graph"@,
            LoweringFailure::OperationBytesNotPlanned =>
                "the C10 operation-byte fixture did not produce a GPU graph"@,
            LoweringFailure::BlurNotPlanned =>
                "the C11 blur cache fixture did not produce a GPU graph"@,
            LoweringFailure::DropShadowNotPlanned =>
                "the C11 drop-shadow fixture did not produce a GPU graph"@,
            LoweringFailure::MirroredBlurNotPlanned =>
                "the C12 backdrop blur cache fixture did not produce a GPU graph"@,
            LoweringFailure::BackdropCopyNotPlanned =>
                "the C12 backdrop-copy cache fixture did not produce a GPU graph"@,
            LoweringFailure::ColorOperationsNotPlanned =>
                "the color-filter lowering fixture did not produce a GPU graph"@,
        }
    }

    pub fn message(self) -> (message: &'static str)
        ensures
            message@ == self.text(),
    {
        match self {
            LoweringFailure::ZeroCaptureRootClearMissing =>
                "the C08 zero-capture fixture has no root clear",
            LoweringFailure::ZeroCaptureRootResourceMissing =>
                "the C08 zero-capture fixture has no root resource",
            LoweringFailure::ZeroCaptureFinalReadMissing =>
                "the C08 zero-capture fixture has no final read",
            LoweringFailure::SpareCapturePassMissing =>
                "the two-capture C08 fixture has no spare capture pass identity",
            LoweringFailure::SpareCanonicalPassMissing =>
                "the two-capture C08 fixture has no spare canonical pass identity",
            LoweringFailure::SpareCompositePassMissing =>
                "the two-capture C08 fixture has no spare composite pass identity",
            LoweringFailure::SpareCaptureResourceMissing =>
                "the two-capture C08 fixture has no spare capture resource identity",
            LoweringFailure::SpareCanonicalResourceMissing =>
                "the two-capture C08 fixture has no spare canonical resource identity",
            LoweringFailure::SpareCompositeResourceMissing =>
                "the two-capture C08 fixture has no spare composite resource identity",
            LoweringFailure::NotOneCaptureSpine =>
                "the two-capture C08 fixture source is not the exact one-capture spine",
            LoweringFailure::CaptureTargetMissing =>
                "the two-capture C08 fixture source has no capture target",
            LoweringFailure::CanonicalTargetMissing =>
                "the two-capture C08 fixture source has no canonical target",
            LoweringFailure::CompositeTargetMissing =>
                "the two-capture C08 fixture source has no composite target",
            LoweringFailure::CaptureResourceLost =>
                "the two-capture C08 fixture lost its capture resource",
            LoweringFailure::CanonicalResourceLost =>
                "the two-capture C08 fixture lost its canonical resource",
            LoweringFailure::CompositeResourceLost =>
                "the two-capture C08 fixture lost its composite resource",
            LoweringFailure::TwoCaptureSubsetLost =>
                "the two-capture C08 fixture did not preserve the validated executable subset",
            LoweringFailure::DonorNotPlanned =>
                "the two-capture C08 fixture requires a graph-shaped identity donor",
            LoweringFailure::ExecutableKeysLost =>
                "the checked C08 cache fixture did not retain exact executable keys",
            LoweringFailure::CustomPassKeysMissing =>
                "the checked C08 cache fixture contains no custom pass keys",
            LoweringFailure::LayerCompositeKeysMissing =>
                "the C09 composite cache fixture has no layer-composite keys",
            LoweringFailure::NormalPathKeysLost =>
                "the C09 normal-path cache fixture lost its exact keys",
            LoweringFailure::CompositeVariantsMissing =>
                "the C09 composite cache fixture contains no composite variants",
            LoweringFailure::ColorFilterRequestNotUnique =>
                "the C10 color-filter cache fixture must contain one checked program request",
            LoweringFailure::BlurRequestsNotFour =>
                "the C11 blur cache fixture must contain four axis/input program requests",
            LoweringFailure::ShadowColorizeRepeated =>
                "the C11 fixture contains more than one drop-shadow colorize request",
            LoweringFailure::ShadowMergeRepeated =>
                "the C11 fixture contains more than one drop-shadow merge request",
            LoweringFailure::ShadowColorizeKeysLost =>
                "the C11 fixture lost its drop-shadow colorize keys",
            LoweringFailure::ShadowMergeKeysLost =>
                "the C11 fixture lost its drop-shadow merge keys",
            LoweringFailure::BackdropCopyNotUnique =>
                "the C12 backdrop-copy fixture must contain one checked copy request",
            LoweringFailure::BackdropCopyReadNotUnique =>
                "the C12 backdrop-copy fixture must read one completed parent",
            LoweringFailure::BackdropCopyResultMissing =>
                "the C12 backdrop-copy fixture must write one working resource",
            LoweringFailure::BackdropCopyKeysMissing =>
                "the C12 backdrop-copy cache keys are missing",
            LoweringFailure::MirroredBlurReadNotUnique =>
                "a C12 mirrored blur must read one filter source",
            LoweringFailure::MirroredBlurKeysMissing =>
                "a C12 mirrored blur has no checked cache keys",
            LoweringFailure::MirroredBlursNotFour =>
                "the C12 backdrop blur fixture must contain four mirrored axis/input requests",
            LoweringFailure::OutsideBoundedGraph =>
                "the C12 backdrop-copy fixture is outside the exact bounded graph",
            LoweringFailure::OutsideBoundedBlurGraph =>
                "the C12 backdrop blur fixture is outside the exact bounded graph",
            LoweringFailure::ColorOperationsMissing =>
                "the color-filter lowering fixture produced no runtime operations",
            LoweringFailure::ColorFilterRunNotUnique =>
                "the C10 operation-byte fixture must contain one color-filter run",
            LoweringFailure::LoweringNotPlanned =>
                "the lowering fixture did not produce a GPU graph",
            LoweringFailure::CompositeNotPlanned =>
                "the C09 composite cache fixture did not produce a GPU graph",
            LoweringFailure::ColorFilterNotPlanned =>
                "the C10 color-filter cache fixture did not produce a GPU graph",
            LoweringFailure::OperationBytesNotPlanned =>
                "the C10 operation-byte fixture did not produce a GPU graph",
            LoweringFailure::BlurNotPlanned =>
                "the C11 blur cache fixture did not produce a GPU graph",
            LoweringFailure::DropShadowNotPlanned =>
                "the C11 drop-shadow fixture did not produce a GPU graph",
            LoweringFailure::MirroredBlurNotPlanned =>
                "the C12 backdrop blur cache fixture did not produce a GPU graph",
            LoweringFailure::BackdropCopyNotPlanned =>
                "the C12 backdrop-copy cache fixture did not produce a GPU graph",
            LoweringFailure::ColorOperationsNotPlanned =>
                "the color-filter lowering fixture did not produce a GPU graph",
        }
    }
}

impl PreparationFailure {
    /// A failed scope is followed by what the device said.
    pub open spec fn text(self) -> Seq<char> {
        match self {
            PreparationFailure::OutsideColorGraph =>
                "the authored C10 fixture is outside the exact closed color graph"@,
            PreparationFailure::OutsideSpatialFilterGraph =>
                "the authored C11 fixture is outside the exact closed spatial-filter graph"@,
            PreparationFailure::OutsideBackdropGraph =>
                "the authored C12 fixture is outside the exact bounded backdrop graph"@,
            PreparationFailure::RootOutputMissing { graph } => match graph {
                ExactGraph::C08 => "the C08 root output resource is missing"@,
                ExactGraph::C09 => "the C09 root output resource is missing"@,
                ExactGraph::C10 => "the C10 root output resource is missing"@,
                ExactGraph::C11 => "the C11 root output resource is missing"@,
                ExactGraph::C12 => "the C12 root output resource is missing"@,
            },
            PreparationFailure::ScopeValidationFailed { program } => match program {
                CheckedProgram::ColorFilter => "C10 checked shader realization failed validation"@,
                CheckedProgram::Blur => "C11 checked blur realization failed validation"@,
                CheckedProgram::DropShadow =>
                    "C11 checked drop-shadow realization failed validation"@,
                CheckedProgram::BackdropCopy =>
                    "C12 checked backdrop-copy realization failed validation"@,
                CheckedProgram::EdgeAwareBlur =>
                    "C12 checked edge-aware blur realization failed validation"@,
            },
            PreparationFailure::PassOutOfOrder =>
                "a prepared pass was completed or read out of order"@,
            PreparationFailure::ResourceNotBound => "a prepared pass does not bind the resource"@,
            PreparationFailure::ResourceReleased => "a prepared resource was already released"@,
            PreparationFailure::RepeatedPass => "a prepared graph repeats a pass"@,
            PreparationFailure::RepeatedLease => "a prepared graph repeats a lease"@,
            PreparationFailure::NoFirstPass => "prepared test graph has no first pass"@,
        }
    }

    pub fn message(self) -> (message: &'static str)
        ensures
            message@ == self.text(),
    {
        match self {
            PreparationFailure::OutsideColorGraph =>
                "the authored C10 fixture is outside the exact closed color graph",
            PreparationFailure::OutsideSpatialFilterGraph =>
                "the authored C11 fixture is outside the exact closed spatial-filter graph",
            PreparationFailure::OutsideBackdropGraph =>
                "the authored C12 fixture is outside the exact bounded backdrop graph",
            PreparationFailure::RootOutputMissing { graph } => match graph {
                ExactGraph::C08 => "the C08 root output resource is missing",
                ExactGraph::C09 => "the C09 root output resource is missing",
                ExactGraph::C10 => "the C10 root output resource is missing",
                ExactGraph::C11 => "the C11 root output resource is missing",
                ExactGraph::C12 => "the C12 root output resource is missing",
            },
            PreparationFailure::ScopeValidationFailed { program } => match program {
                CheckedProgram::ColorFilter => "C10 checked shader realization failed validation",
                CheckedProgram::Blur => "C11 checked blur realization failed validation",
                CheckedProgram::DropShadow =>
                    "C11 checked drop-shadow realization failed validation",
                CheckedProgram::BackdropCopy =>
                    "C12 checked backdrop-copy realization failed validation",
                CheckedProgram::EdgeAwareBlur =>
                    "C12 checked edge-aware blur realization failed validation",
            },
            PreparationFailure::PassOutOfOrder =>
                "a prepared pass was completed or read out of order",
            PreparationFailure::ResourceNotBound => "a prepared pass does not bind the resource",
            PreparationFailure::ResourceReleased => "a prepared resource was already released",
            PreparationFailure::RepeatedPass => "a prepared graph repeats a pass",
            PreparationFailure::RepeatedLease => "a prepared graph repeats a lease",
            PreparationFailure::NoFirstPass => "prepared test graph has no first pass",
        }
    }
}

impl RuntimeCapabilityUnavailable {
    pub open spec fn text(self) -> Seq<char> {
        match self.reason {
            RuntimeCapabilityUnavailableReason::AdapterUnavailable => match self.operation {
                RuntimeOperation::EffectRendering =>
                    "resource preparation coverage requires a ready default device"@,
                _ => "no compatible wgpu adapter is available"@,
            },
            RuntimeCapabilityUnavailableReason::SurfaceIdentityMismatch { kind } => match kind {
                SurfaceIdentityMismatchKind::ForeignRenderer =>
                    "the surface belongs to another renderer"@,
                SurfaceIdentityMismatchKind::StaleDeviceGeneration =>
                    "the surface belongs to an earlier device"@,
            },
            RuntimeCapabilityUnavailableReason::SurfaceUnavailable { state } => match state {
                RenderSurfaceAvailability::NonRenderable =>
                    "the surface covers no renderable area"@,
                RenderSurfaceAvailability::Occluded => "the surface is occluded"@,
                RenderSurfaceAvailability::Lost => "the surface is lost"@,
                RenderSurfaceAvailability::Suspended => "the surface is suspended"@,
                RenderSurfaceAvailability::Uninitialized =>
                    "headless surface has no published texture"@,
            },
            RuntimeCapabilityUnavailableReason::DeviceLost { reason } => match reason {
                DeviceLossReason::Unknown => "the device was lost"@,
                DeviceLossReason::Destroyed => "the device was destroyed"@,
            },
            RuntimeCapabilityUnavailableReason::GpuFault { fault } => match fault {
                GpuFaultKind::Validation => "the device raised a validation fault"@,
                GpuFaultKind::OutOfMemory => "the device ran out of memory"@,
                GpuFaultKind::Internal => "the device raised an internal fault"@,
            },
            RuntimeCapabilityUnavailableReason::EffectPrecisionUnavailable { policy } => match policy {
                EffectQualityPolicy::RequireHighPrecision =>
                    "the device cannot provide high-precision effects"@,
                EffectQualityPolicy::AllowReducedPrecision =>
                    "the device cannot provide reduced-precision effects"@,
            },
        }
    }

    pub fn message(self) -> (message: &'static str)
        ensures
            message@ == self.text(),
    {
        match self.reason {
            RuntimeCapabilityUnavailableReason::AdapterUnavailable => match self.operation {
                RuntimeOperation::EffectRendering =>
                    "resource preparation coverage requires a ready default device",
                _ => "no compatible wgpu adapter is available",
            },
            RuntimeCapabilityUnavailableReason::SurfaceIdentityMismatch { kind } => match kind {
                SurfaceIdentityMismatchKind::ForeignRenderer =>
                    "the surface belongs to another renderer",
                SurfaceIdentityMismatchKind::StaleDeviceGeneration =>
                    "the surface belongs to an earlier device",
            },
            RuntimeCapabilityUnavailableReason::SurfaceUnavailable { state } => match state {
                RenderSurfaceAvailability::NonRenderable => "the surface covers no renderable area",
                RenderSurfaceAvailability::Occluded => "the surface is occluded",
                RenderSurfaceAvailability::Lost => "the surface is lost",
                RenderSurfaceAvailability::Suspended => "the surface is suspended",
                RenderSurfaceAvailability::Uninitialized =>
                    "headless surface has no published texture",
            },
            RuntimeCapabilityUnavailableReason::DeviceLost { reason } => match reason {
                DeviceLossReason::Unknown => "the device was lost",
                DeviceLossReason::Destroyed => "the device was destroyed",
            },
            RuntimeCapabilityUnavailableReason::GpuFault { fault } => match fault {
                GpuFaultKind::Validation => "the device raised a validation fault",
                GpuFaultKind::OutOfMemory => "the device ran out of memory",
                GpuFaultKind::Internal => "the device raised an internal fault",
            },
            RuntimeCapabilityUnavailableReason::EffectPrecisionUnavailable { policy } => match policy {
                EffectQualityPolicy::RequireHighPrecision =>
                    "the device cannot provide high-precision effects",
                EffectQualityPolicy::AllowReducedPrecision =>
                    "the device cannot provide reduced-precision effects",
            },
        }
    }
}

impl InvalidValue {
    /// What was rejected.
    pub open spec fn spec_field(self) -> Seq<char> {
        match self {
            InvalidValue::ImageByteLength { .. } => "image buffer RGBA8 byte length"@,
            InvalidValue::PremultipliedRed(_) => "premultiplied red"@,
            InvalidValue::PremultipliedGreen(_) => "premultiplied green"@,
            InvalidValue::PremultipliedBlue(_) => "premultiplied blue"@,
            InvalidValue::BufferWidth(_) => "reference buffer width"@,
            InvalidValue::BufferHeight(_) => "reference buffer height"@,
            InvalidValue::BufferByteLength { .. } => "reference buffer byte length"@,
            InvalidValue::BufferPixelCount(_) => "reference buffer pixel count"@,
            InvalidValue::PixelDataLength(_) => "reference buffer pixel data length"@,
            InvalidValue::BufferX(_) => "reference buffer x"@,
            InvalidValue::BufferY(_) => "reference buffer y"@,
            InvalidValue::AlphaMaskSize(_) => "reference alpha mask size"@,
            InvalidValue::SourceOverDestinationSize(_) => "reference source-over destination size"@,
            InvalidValue::BlendDestinationSize(_) => "reference blend destination size"@,
            InvalidValue::SourceInDestinationSize(_) => "reference source-in destination size"@,
            InvalidValue::DestinationInSourceSize(_) => "reference destination-in source size"@,
            InvalidValue::ReferenceByteLength(_) => "premultiplied reference buffer byte length"@,
            InvalidValue::EmptyColorFilterPipeline => "compiled color filter pipeline"@,
            InvalidValue::EmptyMaterializedFilters => "materialized image filters"@,
            InvalidValue::BlurOutputSize(_) => "materialized blur output size"@,
            InvalidValue::ShadowOutputSize(_) => "materialized drop-shadow output size"@,
            InvalidValue::BlurOutputOrigin { .. } => "materialized blur output origin"@,
            InvalidValue::ShadowOutputOrigin { .. } => "materialized drop-shadow output origin"@,
            InvalidValue::FilteredImageId(_) => "materialized filtered image id"@,
            InvalidValue::FilteredImageSize { .. } => "materialized filtered image size"@,
            InvalidValue::ExecutionSourceNotImage => "color-filtered image execution source"@,
            InvalidValue::ExecutionSourceNotImageBuffer =>
                "color-filtered image buffer execution source"@,
            InvalidValue::ShadowOffset { axis, .. } => match axis {
                Axis::X => "filter drop-shadow offset x"@,
                Axis::Y => "filter drop-shadow offset y"@,
            },
            InvalidValue::ColorOperationCount(_) => "color filter operation count"@,
            InvalidValue::ColorOperationByteLength(_) =>
                "color filter operation buffer byte length"@,
        }
    }

    pub fn field(self) -> (field: &'static str)
        ensures
            field@ == self.spec_field(),
    {
        match self {
            InvalidValue::ImageByteLength { .. } => "image buffer RGBA8 byte length",
            InvalidValue::PremultipliedRed(_) => "premultiplied red",
            InvalidValue::PremultipliedGreen(_) => "premultiplied green",
            InvalidValue::PremultipliedBlue(_) => "premultiplied blue",
            InvalidValue::BufferWidth(_) => "reference buffer width",
            InvalidValue::BufferHeight(_) => "reference buffer height",
            InvalidValue::BufferByteLength { .. } => "reference buffer byte length",
            InvalidValue::BufferPixelCount(_) => "reference buffer pixel count",
            InvalidValue::PixelDataLength(_) => "reference buffer pixel data length",
            InvalidValue::BufferX(_) => "reference buffer x",
            InvalidValue::BufferY(_) => "reference buffer y",
            InvalidValue::AlphaMaskSize(_) => "reference alpha mask size",
            InvalidValue::SourceOverDestinationSize(_) => "reference source-over destination size",
            InvalidValue::BlendDestinationSize(_) => "reference blend destination size",
            InvalidValue::SourceInDestinationSize(_) => "reference source-in destination size",
            InvalidValue::DestinationInSourceSize(_) => "reference destination-in source size",
            InvalidValue::ReferenceByteLength(_) => "premultiplied reference buffer byte length",
            InvalidValue::EmptyColorFilterPipeline => "compiled color filter pipeline",
            InvalidValue::EmptyMaterializedFilters => "materialized image filters",
            InvalidValue::BlurOutputSize(_) => "materialized blur output size",
            InvalidValue::ShadowOutputSize(_) => "materialized drop-shadow output size",
            InvalidValue::BlurOutputOrigin { .. } => "materialized blur output origin",
            InvalidValue::ShadowOutputOrigin { .. } => "materialized drop-shadow output origin",
            InvalidValue::FilteredImageId(_) => "materialized filtered image id",
            InvalidValue::FilteredImageSize { .. } => "materialized filtered image size",
            InvalidValue::ExecutionSourceNotImage => "color-filtered image execution source",
            InvalidValue::ExecutionSourceNotImageBuffer =>
                "color-filtered image buffer execution source",
            InvalidValue::ShadowOffset { axis, .. } => match axis {
                Axis::X => "filter drop-shadow offset x",
                Axis::Y => "filter drop-shadow offset y",
            },
            InvalidValue::ColorOperationCount(_) => "color filter operation count",
            InvalidValue::ColorOperationByteLength(_) =>
                "color filter operation buffer byte length",
        }
    }
}

/// A rejected value is named after what it is: each channel by its color, each extent and each position
/// by its axis, each output by its filter, and each buffer by its part in what was asked.
pub proof fn law_rejected_values_are_named(value: InvalidValue, field: &'static str)
    requires
        call_ensures(InvalidValue::field, (value,), field),
    ensures
        value is PremultipliedRed ==> field@ == "premultiplied red"@,
        value is PremultipliedGreen ==> field@ == "premultiplied green"@,
        value is PremultipliedBlue ==> field@ == "premultiplied blue"@,
        value is ImageByteLength ==> field@ == "image buffer RGBA8 byte length"@,
        value is BufferWidth ==> field@ == "reference buffer width"@,
        value is BufferHeight ==> field@ == "reference buffer height"@,
        value is BufferX ==> field@ == "reference buffer x"@,
        value is BufferY ==> field@ == "reference buffer y"@,
        value is BufferByteLength ==> field@ == "reference buffer byte length"@,
        value is BufferPixelCount ==> field@ == "reference buffer pixel count"@,
        value is PixelDataLength ==> field@ == "reference buffer pixel data length"@,
        value is AlphaMaskSize ==> field@ == "reference alpha mask size"@,
        value is SourceOverDestinationSize ==> field@ == "reference source-over destination size"@,
        value is BlendDestinationSize ==> field@ == "reference blend destination size"@,
        value is SourceInDestinationSize ==> field@ == "reference source-in destination size"@,
        value is DestinationInSourceSize ==> field@ == "reference destination-in source size"@,
        value is ReferenceByteLength ==> field@ == "premultiplied reference buffer byte length"@,
        value is EmptyColorFilterPipeline ==> field@ == "compiled color filter pipeline"@,
        value is EmptyMaterializedFilters ==> field@ == "materialized image filters"@,
        value is BlurOutputSize ==> field@ == "materialized blur output size"@,
        value is ShadowOutputSize ==> field@ == "materialized drop-shadow output size"@,
        value is BlurOutputOrigin ==> field@ == "materialized blur output origin"@,
        value is ShadowOutputOrigin ==> field@ == "materialized drop-shadow output origin"@,
        value is FilteredImageId ==> field@ == "materialized filtered image id"@,
        value is FilteredImageSize ==> field@ == "materialized filtered image size"@,
        value is ExecutionSourceNotImage ==> field@ == "color-filtered image execution source"@,
        value is ExecutionSourceNotImageBuffer ==> field@
            == "color-filtered image buffer execution source"@,
        value is ShadowOffset && value->ShadowOffset_axis is X ==> field@
            == "filter drop-shadow offset x"@,
        value is ShadowOffset && value->ShadowOffset_axis is Y ==> field@
            == "filter drop-shadow offset y"@,
        value is ColorOperationCount ==> field@ == "color filter operation count"@,
        value is ColorOperationByteLength ==> field@ == "color filter operation buffer byte length"@,
{
}

/// A failed readback says what failed: its layout, the mapped range, a row, the image, the map or the
/// wait.
pub proof fn law_readback_failures_say_what_failed(failure: ReadbackFailure, message: &'static str)
    requires
        call_ensures(ReadbackFailure::message, (failure,), message),
    ensures
        failure is AlignedRowByteCountExceedsLimits ==> message@
            == "aligned readback row byte count exceeds WGPU limits"@,
        failure is DecodedByteCountOverflowed ==> message@ == "decoded readback byte count overflowed"@,
        failure is MappedRangeEmpty ==> message@ == "readback mapped range must be nonempty"@,
        failure is MappedRangeOffsetUnaligned ==> message@
            == "readback mapped range offset was not map-aligned"@,
        failure is MappedRangeLengthUnaligned ==> message@
            == "readback mapped range length was not four-byte aligned"@,
        failure is RowOffsetOverflowed ==> message@ == "mapped readback row offset overflowed"@,
        failure is RowEndOverflowed ==> message@ == "mapped readback row end overflowed"@,
        failure is RowIncomplete ==> message@ == "mapped readback row was incomplete"@,
        failure is ImageInvalid ==> message@
            == "decoded readback bytes did not form a valid RGBA8 image"@,
        failure is MapFailed ==> message@ == "failed to map the texture readback staging buffer"@,
        failure is WrongSubmissionIndex ==> message@
            == "the readback helper received the wrong submission index"@,
        failure is HelperNotStarted ==> message@
            == "failed to start the native readback progress helper"@,
        failure is WaitFailed ==> message@ == "failed while waiting for the texture readback copy"@,
        failure is CallbackDropped ==> message@ == "texture readback map callback was dropped"@,
{
}

/// A failed frame says what failed: what the dispatch lost or met, or what a fixture lacks.
pub proof fn law_failed_frames_say_what_failed(failure: RenderFailure, message: &'static str)
    requires
        call_ensures(RenderFailure::message, (failure,), message),
    ensures
        failure is CapabilitiesLost ==> message@
            == "the renderer dispatch boundary lost immutable device capabilities"@,
        failure is MalformedGraph ==> message@
            == "a malformed GPU graph reached production dispatch"@,
        failure is NoUnavailablePass ==> message@
            == "a future GPU graph had no unavailable execution pass"@,
        failure is ForcedSpineCapabilitiesLost ==> message@
            == "the private C08 forced route lost immutable device capabilities"@,
        failure is OutsideForcedSpine ==> message@
            == "the private forced graph is outside the exact executable C08 subset"@,
        failure is CaptureGridDiffers ==> message@
            == "the prepared C08 capture grid differs from the validated semantic graph"@,
        failure is ColorFixtureCapabilitiesLost ==> message@
            == "the private C10 fixture lost immutable device capabilities"@,
        failure is ColorFixtureSourceLost ==> message@
            == "the private C10 fixture lost its first exact color source"@,
        failure is SpatialFixtureCapabilitiesLost ==> message@
            == "the private C11 fixture lost immutable device capabilities"@,
        failure is SpatialFixtureMappingLost ==> message@
            == "the private C11 fixture lost its first spatial filter mapping"@,
        failure is BackdropFixtureNotPlanned ==> message@
            == "the private C12 fixture did not produce a bounded backdrop graph"@,
        failure is BackdropFixtureCapabilitiesLost ==> message@
            == "the private C12 fixture lost immutable device capabilities"@,
        failure is BackdropFixtureMappingLost ==> message@
            == "the private C12 fixture lost its exact backdrop mapping"@,
        failure is PreparationNotPlanned ==> message@
            == "the resource preparation fixture did not produce a GPU graph"@,
        failure is PreparationCapabilitiesLost ==> message@
            == "resource preparation coverage requires immutable device capabilities"@,
{
}

/// What is unavailable says why: whose surface it is, what state the surface is in, how the device ended
/// or which precision it lacks.
pub proof fn law_unavailable_operations_say_why(
    diagnostic: RuntimeCapabilityUnavailable,
    message: &'static str,
)
    requires
        call_ensures(RuntimeCapabilityUnavailable::message, (diagnostic,), message),
    ensures
        match diagnostic.reason {
            RuntimeCapabilityUnavailableReason::AdapterUnavailable => {
                &&& diagnostic.operation is EffectRendering ==> message@
                    == "resource preparation coverage requires a ready default device"@
                &&& !(diagnostic.operation is EffectRendering) ==> message@
                    == "no compatible wgpu adapter is available"@
            },
            RuntimeCapabilityUnavailableReason::SurfaceIdentityMismatch { kind } => {
                &&& kind is ForeignRenderer ==> message@
                    == "the surface belongs to another renderer"@
                &&& kind is StaleDeviceGeneration ==> message@
                    == "the surface belongs to an earlier device"@
            },
            RuntimeCapabilityUnavailableReason::SurfaceUnavailable { state } => {
                &&& state is NonRenderable ==> message@ == "the surface covers no renderable area"@
                &&& state is Occluded ==> message@ == "the surface is occluded"@
                &&& state is Lost ==> message@ == "the surface is lost"@
                &&& state is Suspended ==> message@ == "the surface is suspended"@
                &&& state is Uninitialized ==> message@
                    == "headless surface has no published texture"@
            },
            RuntimeCapabilityUnavailableReason::DeviceLost { reason } => {
                &&& reason is Unknown ==> message@ == "the device was lost"@
                &&& reason is Destroyed ==> message@ == "the device was destroyed"@
            },
            RuntimeCapabilityUnavailableReason::GpuFault { fault } => {
                &&& fault is Validation ==> message@ == "the device raised a validation fault"@
                &&& fault is OutOfMemory ==> message@ == "the device ran out of memory"@
                &&& fault is Internal ==> message@ == "the device raised an internal fault"@
            },
            RuntimeCapabilityUnavailableReason::EffectPrecisionUnavailable { policy } => {
                &&& policy is RequireHighPrecision ==> message@
                    == "the device cannot provide high-precision effects"@
                &&& policy is AllowReducedPrecision ==> message@
                    == "the device cannot provide reduced-precision effects"@
            },
        },
{
}

} // verus!

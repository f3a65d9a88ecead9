//! Typed diagnostics.

use vstd::prelude::*;

use crate::geometry::PhysicalSize;
use crate::runtime::RuntimeCapabilityUnavailable;
use crate::scalar::Scalar;

verus! {

/// The stable classes that callers branch on.
#[derive(Clone, Copy, Debug, PartialEq, Eq, Structural)]
pub enum ErrorCode {
    InvalidInput,
    ReadbackFailed,
    RuntimeUnavailable,
    SurfaceCreateFailed,
    SurfaceOutdated,
    UnsupportedBackend,
    UnsupportedPrimitive,
    RenderFailed,
}

/// Why a texture readback produced no image.
#[derive(Clone, Copy, Debug, PartialEq, Eq, Structural)]
pub enum ReadbackFailure {
    AlignedRowByteCountExceedsLimits,
    DecodedByteCountOverflowed,
    MappedRangeEmpty,
    MappedRangeOffsetUnaligned,
    MappedRangeLengthUnaligned,
    RowOffsetOverflowed,
    RowEndOverflowed,
    RowIncomplete,
    ImageInvalid,
    MapFailed,
    WrongSubmissionIndex,
    HelperNotStarted,
    WaitFailed,
    CallbackDropped,
}

/// One of the two axes of a plane.
#[derive(Clone, Copy, Debug, PartialEq, Eq, Structural)]
pub enum Axis {
    X,
    Y,
}

/// A value that a constructor rejected.
#[derive(Clone, Copy, Debug, PartialEq, Eq, Structural)]
pub enum InvalidValue {
    ImageByteLength { size: PhysicalSize, length: usize },
    PremultipliedRed(u8),
    PremultipliedGreen(u8),
    PremultipliedBlue(u8),
    BufferWidth(u32),
    BufferHeight(u32),
    BufferByteLength { pixels: u64 },
    BufferPixelCount(u64),
    PixelDataLength(usize),
    BufferX(u32),
    BufferY(u32),
    AlphaMaskSize(PhysicalSize),
    SourceOverDestinationSize(PhysicalSize),
    BlendDestinationSize(PhysicalSize),
    SourceInDestinationSize(PhysicalSize),
    DestinationInSourceSize(PhysicalSize),
    ReferenceByteLength(u64),
    EmptyColorFilterPipeline,
    EmptyMaterializedFilters,
    BlurOutputSize(PhysicalSize),
    ShadowOutputSize(PhysicalSize),
    BlurOutputOrigin { x: i32, y: i32 },
    ShadowOutputOrigin { x: i32, y: i32 },
    FilteredImageId(u64),
    FilteredImageSize { width: Scalar, height: Scalar },
    ExecutionSourceNotImage,
    ExecutionSourceNotImageBuffer,
    ShadowOffset { axis: Axis, value: Scalar },
    ColorOperationCount(u64),
    ColorOperationByteLength(u64),
}

/// Why a surface was not created.
#[derive(Clone, Copy, Debug, PartialEq, Eq, Structural)]
pub enum SurfaceFailure {
    HeadlessFormat,
}

/// Why a frame was not rendered.
#[derive(Clone, Copy, Debug, PartialEq, Eq, Structural)]
pub enum RenderFailure {
    CapabilitiesLost,
    MalformedGraph,
    NoUnavailablePass,
    ForcedSpineCapabilitiesLost,
    OutsideForcedSpine,
    CaptureGridDiffers,
    ColorFixtureCapabilitiesLost,
    ColorFixtureSourceLost,
    SpatialFixtureCapabilitiesLost,
    SpatialFixtureMappingLost,
    BackdropFixtureNotPlanned,
    BackdropFixtureCapabilitiesLost,
    BackdropFixtureMappingLost,
    PreparationNotPlanned,
    PreparationCapabilitiesLost,
}

/// Why a lowered graph was not accepted.
#[derive(Clone, Copy, Debug, PartialEq, Eq, Structural)]
pub enum LoweringFailure {
    ZeroCaptureRootClearMissing,
    ZeroCaptureRootResourceMissing,
    ZeroCaptureFinalReadMissing,
    SpareCapturePassMissing,
    SpareCanonicalPassMissing,
    SpareCompositePassMissing,
    SpareCaptureResourceMissing,
    SpareCanonicalResourceMissing,
    SpareCompositeResourceMissing,
    NotOneCaptureSpine,
    CaptureTargetMissing,
    CanonicalTargetMissing,
    CompositeTargetMissing,
    CaptureResourceLost,
    CanonicalResourceLost,
    CompositeResourceLost,
    TwoCaptureSubsetLost,
    DonorNotPlanned,
    ExecutableKeysLost,
    CustomPassKeysMissing,
    LayerCompositeKeysMissing,
    NormalPathKeysLost,
    CompositeVariantsMissing,
    ColorFilterRequestNotUnique,
    BlurRequestsNotFour,
    ShadowColorizeRepeated,
    ShadowMergeRepeated,
    ShadowColorizeKeysLost,
    ShadowMergeKeysLost,
    BackdropCopyNotUnique,
    BackdropCopyReadNotUnique,
    BackdropCopyResultMissing,
    BackdropCopyKeysMissing,
    MirroredBlurReadNotUnique,
    MirroredBlurKeysMissing,
    MirroredBlursNotFour,
    OutsideBoundedGraph,
    OutsideBoundedBlurGraph,
    ColorOperationsMissing,
    ColorFilterRunNotUnique,
    LoweringNotPlanned,
    CompositeNotPlanned,
    ColorFilterNotPlanned,
    OperationBytesNotPlanned,
    BlurNotPlanned,
    DropShadowNotPlanned,
    MirroredBlurNotPlanned,
    BackdropCopyNotPlanned,
    ColorOperationsNotPlanned,
}

/// The programs that are realized together and checked.
#[derive(Clone, Copy, Debug, PartialEq, Eq, Structural)]
pub enum CheckedProgram {
    ColorFilter,
    Blur,
    DropShadow,
    BackdropCopy,
    EdgeAwareBlur,
}

/// The exact graph that is prepared.
#[derive(Clone, Copy, Debug, PartialEq, Eq, Structural)]
pub enum ExactGraph {
    C08,
    C09,
    C10,
    C11,
    C12,
}

/// Why a graph was not prepared.
#[derive(Clone, Copy, Debug, PartialEq, Eq, Structural)]
pub enum PreparationFailure {
    OutsideColorGraph,
    OutsideSpatialFilterGraph,
    OutsideBackdropGraph,
    RootOutputMissing { graph: ExactGraph },
    ScopeValidationFailed { program: CheckedProgram },
    PassOutOfOrder,
    ResourceNotBound,
    ResourceReleased,
    RepeatedPass,
    RepeatedLease,
    NoFirstPass,
}

/// A family of authored primitives.
#[derive(Clone, Copy, Debug, PartialEq, Eq, Structural)]
pub enum PrimitiveFamily {
    Surfaces,
    OffscreenPipeline,
    Filters,
}

/// A primitive operation that may lack an executor.
#[derive(Clone, Copy, Debug, PartialEq, Eq, Structural)]
pub enum PrimitiveOperation {
    WebCanvasSurface,
    BroadBackdropExecution,
    GpuDropShadowFilterExecution,
    GpuBlurFilterExecution,
    GpuColorFilterExecution,
}

/// A primitive that this renderer does not execute.
#[derive(Clone, Copy, Debug, PartialEq, Eq, Structural)]
pub struct UnsupportedPrimitive {
    pub family: PrimitiveFamily,
    pub operation: PrimitiveOperation,
}

/// One diagnostic, with the value or state that caused it.
#[derive(Clone, Copy, Debug, PartialEq, Eq, Structural)]
pub enum Error {
    Readback(ReadbackFailure),
    Invalid(InvalidValue),
    Unavailable(RuntimeCapabilityUnavailable),
    Surface(SurfaceFailure),
    SurfaceOutdated,
    UnsupportedBackend,
    UnsupportedPrimitive(UnsupportedPrimitive),
    Render(RenderFailure),
    Lowering(LoweringFailure),
    Preparation(PreparationFailure),
}

impl Error {
    pub open spec fn spec_code(self) -> ErrorCode {
        match self {
            Error::Readback(_) => ErrorCode::ReadbackFailed,
            Error::Invalid(_) => ErrorCode::InvalidInput,
            Error::Unavailable(_) => ErrorCode::RuntimeUnavailable,
            Error::Surface(_) => ErrorCode::SurfaceCreateFailed,
            Error::SurfaceOutdated => ErrorCode::SurfaceOutdated,
            Error::UnsupportedBackend => ErrorCode::UnsupportedBackend,
            Error::UnsupportedPrimitive(_) => ErrorCode::UnsupportedPrimitive,
            Error::Render(_) => ErrorCode::RenderFailed,
            Error::Lowering(_) => ErrorCode::RenderFailed,
            Error::Preparation(_) => ErrorCode::RenderFailed,
        }
    }

    /// The stable class of this diagnostic.
    pub fn code(self) -> (code: ErrorCode)
        ensures
            code == self.spec_code(),
    {
        match self {
            Error::Readback(_) => ErrorCode::ReadbackFailed,
            Error::Invalid(_) => ErrorCode::InvalidInput,
            Error::Unavailable(_) => ErrorCode::RuntimeUnavailable,
            Error::Surface(_) => ErrorCode::SurfaceCreateFailed,
            Error::SurfaceOutdated => ErrorCode::SurfaceOutdated,
            Error::UnsupportedBackend => ErrorCode::UnsupportedBackend,
            Error::UnsupportedPrimitive(_) => ErrorCode::UnsupportedPrimitive,
            Error::Render(_) => ErrorCode::RenderFailed,
            Error::Lowering(_) => ErrorCode::RenderFailed,
            Error::Preparation(_) => ErrorCode::RenderFailed,
        }
    }
}

/// Each diagnostic has the class of what failed: the readback, the input, the runtime, the surface, the
/// backend or a primitive that is not supported, and otherwise the rendering.
pub proof fn law_codes_tell_what_failed(error: Error, code: ErrorCode)
    requires
        call_ensures(Error::code, (error,), code),
    ensures
        code is ReadbackFailed <==> error is Readback,
        code is InvalidInput <==> error is Invalid,
        code is RuntimeUnavailable <==> error is Unavailable,
        code is SurfaceCreateFailed <==> error is Surface,
        code is SurfaceOutdated <==> error is SurfaceOutdated,
        code is UnsupportedBackend <==> error is UnsupportedBackend,
        code is UnsupportedPrimitive <==> error is UnsupportedPrimitive,
        code is RenderFailed <==> error is Render || error is Lowering || error is Preparation,
{
}

} // verus!

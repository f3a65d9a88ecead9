//! Color operations: each with the number that its kind carries.

use vstd::prelude::*;

use crate::pass::model::{
    RuntimeColorClampBoundary, RuntimeColorOperation, RuntimeColorOperationTag, RuntimeColorScalar,
    Single,
};

verus! {

/// An amount without an upper bound, by mantissa and exponent.
#[derive(Clone, Copy, Debug, PartialEq, Eq, Structural)]
pub struct RuntimeFilterAmount {
    pub zero: bool,
    pub mantissa: Single,
    pub exponent: i32,
}

impl RuntimeFilterAmount {
    pub open spec fn scalar(self) -> RuntimeColorScalar {
        RuntimeColorScalar::Amount {
            zero: self.zero,
            mantissa: self.mantissa,
            exponent: self.exponent,
        }
    }

    pub fn observed(self) -> (scalar: RuntimeColorScalar)
        ensures
            scalar == self.scalar(),
    {
        RuntimeColorScalar::Amount {
            zero: self.zero,
            mantissa: self.mantissa,
            exponent: self.exponent,
        }
    }
}

/// What a color operation does, with its number.
#[derive(Clone, Copy, Debug, PartialEq, Eq, Structural)]
pub enum RuntimeColorOperationKind {
    Brightness(RuntimeFilterAmount),
    Contrast(RuntimeFilterAmount),
    Grayscale(Single),
    HueRotate { sine: Single, cosine: Single },
    Invert(Single),
    Opacity(Single),
    Saturate(RuntimeFilterAmount),
    Sepia(Single),
}

impl RuntimeColorOperationKind {
    pub open spec fn tag(self) -> RuntimeColorOperationTag {
        match self {
            RuntimeColorOperationKind::Brightness(_) => RuntimeColorOperationTag::Brightness,
            RuntimeColorOperationKind::Contrast(_) => RuntimeColorOperationTag::Contrast,
            RuntimeColorOperationKind::Grayscale(_) => RuntimeColorOperationTag::Grayscale,
            RuntimeColorOperationKind::HueRotate { .. } => RuntimeColorOperationTag::HueRotate,
            RuntimeColorOperationKind::Invert(_) => RuntimeColorOperationTag::Invert,
            RuntimeColorOperationKind::Opacity(_) => RuntimeColorOperationTag::Opacity,
            RuntimeColorOperationKind::Saturate(_) => RuntimeColorOperationTag::Saturate,
            RuntimeColorOperationKind::Sepia(_) => RuntimeColorOperationTag::Sepia,
        }
    }

    pub open spec fn scalar(self) -> RuntimeColorScalar {
        match self {
            RuntimeColorOperationKind::Brightness(amount) => amount.scalar(),
            RuntimeColorOperationKind::Contrast(amount) => amount.scalar(),
            RuntimeColorOperationKind::Grayscale(amount) => RuntimeColorScalar::Unit(amount),
            RuntimeColorOperationKind::HueRotate { sine, cosine } => RuntimeColorScalar::Angle {
                sine,
                cosine,
            },
            RuntimeColorOperationKind::Invert(amount) => RuntimeColorScalar::Unit(amount),
            RuntimeColorOperationKind::Opacity(amount) => RuntimeColorScalar::Unit(amount),
            RuntimeColorOperationKind::Saturate(amount) => amount.scalar(),
            RuntimeColorOperationKind::Sepia(amount) => RuntimeColorScalar::Unit(amount),
        }
    }
}

/// The record of an operation.
pub fn runtime_color_operation_observation(
    kind: RuntimeColorOperationKind,
    clamp_boundary: RuntimeColorClampBoundary,
) -> (operation: RuntimeColorOperation)
    ensures
        operation.tag == kind.tag(),
        operation.scalar == kind.scalar(),
        operation.clamp_boundary == clamp_boundary,
{
    let (tag, scalar) = match kind {
        RuntimeColorOperationKind::Brightness(amount) => (
            RuntimeColorOperationTag::Brightness,
            amount.observed(),
        ),
        RuntimeColorOperationKind::Contrast(amount) => (
            RuntimeColorOperationTag::Contrast,
            amount.observed(),
        ),
        RuntimeColorOperationKind::Grayscale(amount) => (
            RuntimeColorOperationTag::Grayscale,
            RuntimeColorScalar::Unit(amount),
        ),
        RuntimeColorOperationKind::HueRotate { sine, cosine } => (
            RuntimeColorOperationTag::HueRotate,
            RuntimeColorScalar::Angle { sine, cosine },
        ),
        RuntimeColorOperationKind::Invert(amount) => (
            RuntimeColorOperationTag::Invert,
            RuntimeColorScalar::Unit(amount),
        ),
        RuntimeColorOperationKind::Opacity(amount) => (
            RuntimeColorOperationTag::Opacity,
            RuntimeColorScalar::Unit(amount),
        ),
        RuntimeColorOperationKind::Saturate(amount) => (
            RuntimeColorOperationTag::Saturate,
            amount.observed(),
        ),
        RuntimeColorOperationKind::Sepia(amount) => (
            RuntimeColorOperationTag::Sepia,
            RuntimeColorScalar::Unit(amount),
        ),
    };
    RuntimeColorOperation { tag, scalar, clamp_boundary }
}

/// Operations are told apart by their records.
pub proof fn law_operations_are_kept_by_their_records(
    first: RuntimeColorOperationKind,
    second: RuntimeColorOperationKind,
)
    ensures
        first.tag() == second.tag() && first.scalar() == second.scalar() <==> first == second,
{
}

/// The record of an operation names its kind, has its clamp, and carries its number: an amount by zero,
/// mantissa and exponent, a unit number as it is, and an angle by its sine and its cosine.
pub proof fn law_records_carry_the_number_of_their_kind(
    kind: RuntimeColorOperationKind,
    clamp_boundary: RuntimeColorClampBoundary,
    operation: RuntimeColorOperation,
)
    requires
        call_ensures(runtime_color_operation_observation, (kind, clamp_boundary), operation),
    ensures
        operation.clamp_boundary == clamp_boundary,
        kind is Brightness <==> operation.tag is Brightness,
        kind is Contrast <==> operation.tag is Contrast,
        kind is Grayscale <==> operation.tag is Grayscale,
        kind is HueRotate <==> operation.tag is HueRotate,
        kind is Invert <==> operation.tag is Invert,
        kind is Opacity <==> operation.tag is Opacity,
        kind is Saturate <==> operation.tag is Saturate,
        kind is Sepia <==> operation.tag is Sepia,
        operation.scalar is Amount <==> kind is Brightness || kind is Contrast || kind is Saturate,
        operation.scalar is Angle <==> kind is HueRotate,
        operation.scalar matches RuntimeColorScalar::Unit(value) ==> (
        kind == RuntimeColorOperationKind::Grayscale(value) || kind
            == RuntimeColorOperationKind::Invert(value) || kind
            == RuntimeColorOperationKind::Opacity(value) || kind
            == RuntimeColorOperationKind::Sepia(value)),
        operation.scalar matches RuntimeColorScalar::Angle { sine, cosine } ==> kind
            == (RuntimeColorOperationKind::HueRotate { sine, cosine }),
        operation.scalar matches RuntimeColorScalar::Amount { zero, mantissa, exponent } ==> {
            let amount = RuntimeFilterAmount { zero, mantissa, exponent };
            kind == RuntimeColorOperationKind::Brightness(amount) || kind
                == RuntimeColorOperationKind::Contrast(amount) || kind
                == RuntimeColorOperationKind::Saturate(amount)
        },
{
}

} // verus!

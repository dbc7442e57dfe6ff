//! Values that cross the boundary, and the wide integer that carries any of
//! them through the router.
//!
//! A floating-point value is held by its bit pattern: nothing here does
//! arithmetic on it.

use vstd::prelude::*;
use crate::model::ValueKind;

verus! {

/// A value of one of the four kinds. The two floating-point kinds hold the
/// IEEE-754 bit pattern of the value.
#[derive(Clone, Copy, Debug, PartialEq, Eq, Structural)]
pub enum ArgType {
    I32(i32),
    I64(i64),
    F32(u32),
    F64(u64),
}

impl ArgType {
    /// The kind of the value.
    pub open spec fn kind_spec(self) -> ValueKind {
        match self {
            ArgType::I32(_) => ValueKind::Int32,
            ArgType::I64(_) => ValueKind::Int64,
            ArgType::F32(_) => ValueKind::Float32,
            ArgType::F64(_) => ValueKind::Float64,
        }
    }

    /// The kind of the value.
    pub fn kind(&self) -> (k: ValueKind)
        ensures
            k == self.kind_spec(),
    {
        match self {
            ArgType::I32(_) => ValueKind::Int32,
            ArgType::I64(_) => ValueKind::Int64,
            ArgType::F32(_) => ValueKind::Float32,
            ArgType::F64(_) => ValueKind::Float64,
        }
    }
}

/// The low 32 bits of a wide integer.
pub open spec fn low_half(wide: u64) -> u32 {
    (wide & 0xffff_ffff) as u32
}

/// The value of `kind` that a wide integer carries: a 32-bit integer or a
/// single-precision float in its low 32 bits, a 64-bit integer or a
/// double-precision float in all of its bits.
pub open spec fn narrow_spec(kind: ValueKind, wide: u64) -> ArgType {
    match kind {
        ValueKind::Int32 => ArgType::I32(low_half(wide) as i32),
        ValueKind::Int64 => ArgType::I64(wide as i64),
        ValueKind::Float32 => ArgType::F32(low_half(wide)),
        ValueKind::Float64 => ArgType::F64(wide),
    }
}

/// The wide integer that carries a value: 32-bit values in the low 32 bits
/// with zeros above.
pub open spec fn widen_spec(value: ArgType) -> u64 {
    match value {
        ArgType::I32(v) => (v as u32) as u64,
        ArgType::I64(v) => v as u64,
        ArgType::F32(bits) => bits as u64,
        ArgType::F64(bits) => bits,
    }
}

/// The value of `kind` that a wide integer carries.
pub fn narrow(kind: ValueKind, wide: u64) -> (value: ArgType)
    ensures
        value == narrow_spec(kind, wide),
{
    let low: u32 = (wide & 0xffff_ffff) as u32;
    match kind {
        ValueKind::Int32 => ArgType::I32(#[verifier::truncate] (low as i32)),
        ValueKind::Int64 => ArgType::I64(#[verifier::truncate] (wide as i64)),
        ValueKind::Float32 => ArgType::F32(low),
        ValueKind::Float64 => ArgType::F64(wide),
    }
}

/// The wide integer that carries a value.
pub fn widen(value: ArgType) -> (wide: u64)
    ensures
        wide == widen_spec(value),
{
    match value {
        ArgType::I32(v) => (#[verifier::truncate] (v as u32)) as u64,
        ArgType::I64(v) => #[verifier::truncate] (v as u64),
        ArgType::F32(bits) => bits as u64,
        ArgType::F64(bits) => bits,
    }
}

/// Every value comes back unchanged from the wide integer that carries it.
pub proof fn lemma_narrow_widen(value: ArgType)
    ensures
        narrow_spec(value.kind_spec(), widen_spec(value)) == value,
{
    match value {
        ArgType::I32(v) => {
            assert((((v as u32) as u64 & 0xffff_ffff) as u32) as i32 == v) by (bit_vector);
        },
        ArgType::I64(v) => {
            assert((v as u64) as i64 == v) by (bit_vector);
        },
        ArgType::F32(bits) => {
            assert(((bits as u64 & 0xffff_ffff) as u32) == bits) by (bit_vector);
        },
        ArgType::F64(bits) => {},
    }
}

/// A wide integer comes back unchanged from a 64-bit value, and with its
/// low 32 bits kept and zeros above from a 32-bit value.
pub proof fn lemma_widen_narrow(kind: ValueKind, wide: u64)
    ensures
        widen_spec(narrow_spec(kind, wide)) == match kind {
            ValueKind::Int32 | ValueKind::Float32 => wide & 0xffff_ffff,
            ValueKind::Int64 | ValueKind::Float64 => wide,
        },
{
    match kind {
        ValueKind::Int32 => {
            assert(((((wide & 0xffff_ffff) as u32) as i32) as u32) as u64 == wide & 0xffff_ffff)
                by (bit_vector);
        },
        ValueKind::Int64 => {
            assert((wide as i64) as u64 == wide) by (bit_vector);
        },
        ValueKind::Float32 => {
            assert(((wide & 0xffff_ffff) as u32) as u64 == wide & 0xffff_ffff) by (bit_vector);
        },
        ValueKind::Float64 => {},
    }
}

} // verus!

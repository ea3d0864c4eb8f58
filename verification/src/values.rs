//! The dual-mode value abstraction: every wire of a circuit carries a value
//! that is either a boolean or an unsigned integer of one of the supported
//! widths. The same logic and arithmetic semantics, written once as spec
//! functions here, govern both the plaintext evaluator and the homomorphic
//! evaluator.
use vstd::prelude::*;

use crate::gates::GateKind;

verus! {

/// Error raised while parsing a textual value.
#[derive(Clone, Copy, Debug, PartialEq, Eq, Structural)]
pub enum PtxtError {
    InvalidInput,
}

/// Fault raised during a circuit evaluation pass.
#[derive(Clone, Copy, Debug, PartialEq, Eq, Structural)]
pub enum EvalError {
    /// A gate read a wire that no value was ever assigned to.
    UninitializedWire,
    /// Operands of a gate had representations or widths that its operation
    /// does not accept, or a supplied input did not match the run's mode.
    TypeMismatch,
}

/// A plaintext wire value. `Uninit` marks a wire not yet assigned in the
/// current pass; reading it faults.
#[derive(Clone, Copy, Debug, PartialEq, Eq, Structural)]
pub enum PtxtType {
    Bool(bool),
    U8(u8),
    U16(u16),
    U32(u32),
    U64(u64),
    U128(u128),
    Uninit,
}

/// The evaluation mode of a whole run: boolean wires or unsigned integers of
/// one fixed width.
#[derive(Clone, Copy, Debug, PartialEq, Eq, Structural)]
pub enum Mode {
    Bool,
    U8,
    U16,
    U32,
    U64,
    U128,
}

/// The default a wire of the given mode falls back to: false, or zero.
pub open spec fn mode_default(m: Mode) -> PtxtType {
    match m {
        Mode::Bool => PtxtType::Bool(false),
        Mode::U8 => PtxtType::U8(0),
        Mode::U16 => PtxtType::U16(0),
        Mode::U32 => PtxtType::U32(0),
        Mode::U64 => PtxtType::U64(0),
        Mode::U128 => PtxtType::U128(0),
    }
}

/// Whether a value carries the representation that the given mode demands.
pub open spec fn matches_mode(v: PtxtType, m: Mode) -> bool {
    match m {
        Mode::Bool => v is Bool,
        Mode::U8 => v is U8,
        Mode::U16 => v is U16,
        Mode::U32 => v is U32,
        Mode::U64 => v is U64,
        Mode::U128 => v is U128,
    }
}

/// How many input wires a gate of the given kind reads.
pub open spec fn arity(k: GateKind) -> int {
    match k {
        GateKind::Not | GateKind::Buffer | GateKind::Dff => 1,
        _ => 2,
    }
}

/// The two-input logic operations on booleans.
pub open spec fn spec_logic2(k: GateKind, a: bool, b: bool) -> bool {
    match k {
        GateKind::And => a && b,
        GateKind::Or => a || b,
        GateKind::Xor => a != b,
        GateKind::Nand => !(a && b),
        GateKind::Nor => !(a || b),
        GateKind::Xnor => a == b,
        _ => false,
    }
}

pub open spec fn arith_u8(k: GateKind, a: u8, b: u8) -> u8 {
    match k {
        GateKind::Add => a.wrapping_add(b),
        GateKind::Sub => a.wrapping_sub(b),
        GateKind::Mult => a.wrapping_mul(b),
        _ => 0,
    }
}

pub open spec fn arith_u16(k: GateKind, a: u16, b: u16) -> u16 {
    match k {
        GateKind::Add => a.wrapping_add(b),
        GateKind::Sub => a.wrapping_sub(b),
        GateKind::Mult => a.wrapping_mul(b),
        _ => 0,
    }
}

pub open spec fn arith_u32(k: GateKind, a: u32, b: u32) -> u32 {
    match k {
        GateKind::Add => a.wrapping_add(b),
        GateKind::Sub => a.wrapping_sub(b),
        GateKind::Mult => a.wrapping_mul(b),
        _ => 0,
    }
}

pub open spec fn arith_u64(k: GateKind, a: u64, b: u64) -> u64 {
    match k {
        GateKind::Add => a.wrapping_add(b),
        GateKind::Sub => a.wrapping_sub(b),
        GateKind::Mult => a.wrapping_mul(b),
        _ => 0,
    }
}

pub open spec fn arith_u128(k: GateKind, a: u128, b: u128) -> u128 {
    match k {
        GateKind::Add => a.wrapping_add(b),
        GateKind::Sub => a.wrapping_sub(b),
        GateKind::Mult => a.wrapping_mul(b),
        _ => 0,
    }
}

/// An arithmetic gate applied to two values: both operands must be unsigned
/// integers of the same width, and the operation wraps at that width.
pub open spec fn spec_arith(k: GateKind, x: PtxtType, y: PtxtType) -> Result<PtxtType, EvalError> {
    match (x, y) {
        (PtxtType::U8(a), PtxtType::U8(b)) => Ok(PtxtType::U8(arith_u8(k, a, b))),
        (PtxtType::U16(a), PtxtType::U16(b)) => Ok(PtxtType::U16(arith_u16(k, a, b))),
        (PtxtType::U32(a), PtxtType::U32(b)) => Ok(PtxtType::U32(arith_u32(k, a, b))),
        (PtxtType::U64(a), PtxtType::U64(b)) => Ok(PtxtType::U64(arith_u64(k, a, b))),
        (PtxtType::U128(a), PtxtType::U128(b)) => Ok(PtxtType::U128(arith_u128(k, a, b))),
        _ => Err(EvalError::TypeMismatch),
    }
}

/// The full semantics of one gate evaluation over plaintext operands.
///
/// Faults: a wrong number of operands or operands the operation does not
/// accept are a type-mismatch fault, and an operand never written is an
/// uninitialized-wire fault. No truncation or widening ever happens:
/// arithmetic demands equal widths and wraps at the width.
/// `Dff` passes its data input through (the evaluator stages the result for
/// the next cycle); `Buffer` passes its input through unchanged.
pub open spec fn spec_eval_gate(k: GateKind, ins: Seq<PtxtType>) -> Result<PtxtType, EvalError> {
    if ins.len() != arity(k) {
        Err(EvalError::TypeMismatch)
    } else if exists|i: int| 0 <= i < ins.len() && ins[i] is Uninit {
        Err(EvalError::UninitializedWire)
    } else {
        match k {
            GateKind::Dff | GateKind::Buffer => Ok(ins[0]),
            GateKind::Not => match ins[0] {
                PtxtType::Bool(a) => Ok(PtxtType::Bool(!a)),
                _ => Err(EvalError::TypeMismatch),
            },
            GateKind::And
            | GateKind::Or
            | GateKind::Xor
            | GateKind::Nand
            | GateKind::Nor
            | GateKind::Xnor => match (ins[0], ins[1]) {
                (PtxtType::Bool(a), PtxtType::Bool(b)) => Ok(
                    PtxtType::Bool(spec_logic2(k, a, b)),
                ),
                _ => Err(EvalError::TypeMismatch),
            },
            GateKind::Add | GateKind::Sub | GateKind::Mult => spec_arith(k, ins[0], ins[1]),
        }
    }
}

impl PtxtType {
    /// True when the value is the uninitialized marker.
    pub fn is_uninit(&self) -> (r: bool)
        ensures
            r == (*self is Uninit),
    {
        match self {
            PtxtType::Uninit => true,
            _ => false,
        }
    }

    /// True when the value carries the representation of the given mode.
    pub fn matches_mode(&self, m: Mode) -> (r: bool)
        ensures
            r == matches_mode(*self, m),
    {
        match (self, m) {
            (PtxtType::Bool(_), Mode::Bool) => true,
            (PtxtType::U8(_), Mode::U8) => true,
            (PtxtType::U16(_), Mode::U16) => true,
            (PtxtType::U32(_), Mode::U32) => true,
            (PtxtType::U64(_), Mode::U64) => true,
            (PtxtType::U128(_), Mode::U128) => true,
            _ => false,
        }
    }
}

impl Mode {
    /// The reset / fallback value of this mode: false, or zero.
    pub fn default_value(&self) -> (r: PtxtType)
        ensures
            r == mode_default(*self),
    {
        match self {
            Mode::Bool => PtxtType::Bool(false),
            Mode::U8 => PtxtType::U8(0),
            Mode::U16 => PtxtType::U16(0),
            Mode::U32 => PtxtType::U32(0),
            Mode::U64 => PtxtType::U64(0),
            Mode::U128 => PtxtType::U128(0),
        }
    }
}

/// Evaluates one gate over plaintext operands; the exact semantics is
/// `spec_eval_gate`.
pub fn eval_gate(k: GateKind, ins: &Vec<PtxtType>) -> (r: Result<PtxtType, EvalError>)
    ensures
        r == spec_eval_gate(k, ins@),
{
    let n = ins.len();
    let want: usize = match k {
        GateKind::Not | GateKind::Buffer | GateKind::Dff => 1,
        _ => 2,
    };
    if n != want {
        return Err(EvalError::TypeMismatch);
    }
    if ins[0].is_uninit() || (want == 2 && ins[1].is_uninit()) {
        assert(exists|i: int| 0 <= i < ins@.len() && ins@[i] is Uninit);
        return Err(EvalError::UninitializedWire);
    }
    assert(forall|i: int| 0 <= i < ins@.len() ==> !(ins@[i] is Uninit));
    match k {
        GateKind::Dff | GateKind::Buffer => Ok(ins[0]),
        GateKind::Not => match ins[0] {
            PtxtType::Bool(a) => Ok(PtxtType::Bool(!a)),
            _ => Err(EvalError::TypeMismatch),
        },
        GateKind::And
        | GateKind::Or
        | GateKind::Xor
        | GateKind::Nand
        | GateKind::Nor
        | GateKind::Xnor => match (ins[0], ins[1]) {
            (PtxtType::Bool(a), PtxtType::Bool(b)) => {
                let v = match k {
                    GateKind::And => a && b,
                    GateKind::Or => a || b,
                    GateKind::Xor => a != b,
                    GateKind::Nand => !(a && b),
                    GateKind::Nor => !(a || b),
                    _ => a == b,
                };
                Ok(PtxtType::Bool(v))
            },
            _ => Err(EvalError::TypeMismatch),
        },
        GateKind::Add | GateKind::Sub | GateKind::Mult => match (ins[0], ins[1]) {
            (PtxtType::U8(a), PtxtType::U8(b)) => Ok(
                PtxtType::U8(
                    match k {
                        GateKind::Add => a.wrapping_add(b),
                        GateKind::Sub => a.wrapping_sub(b),
                        _ => a.wrapping_mul(b),
                    },
                ),
            ),
            (PtxtType::U16(a), PtxtType::U16(b)) => Ok(
                PtxtType::U16(
                    match k {
                        GateKind::Add => a.wrapping_add(b),
                        GateKind::Sub => a.wrapping_sub(b),
                        _ => a.wrapping_mul(b),
                    },
                ),
            ),
            (PtxtType::U32(a), PtxtType::U32(b)) => Ok(
                PtxtType::U32(
                    match k {
                        GateKind::Add => a.wrapping_add(b),
                        GateKind::Sub => a.wrapping_sub(b),
                        _ => a.wrapping_mul(b),
                    },
                ),
            ),
            (PtxtType::U64(a), PtxtType::U64(b)) => Ok(
                PtxtType::U64(
                    match k {
                        GateKind::Add => a.wrapping_add(b),
                        GateKind::Sub => a.wrapping_sub(b),
                        _ => a.wrapping_mul(b),
                    },
                ),
            ),
            (PtxtType::U128(a), PtxtType::U128(b)) => Ok(
                PtxtType::U128(
                    match k {
                        GateKind::Add => a.wrapping_add(b),
                        GateKind::Sub => a.wrapping_sub(b),
                        _ => a.wrapping_mul(b),
                    },
                ),
            ),
            _ => Err(EvalError::TypeMismatch),
        },
    }
}

} // verus!

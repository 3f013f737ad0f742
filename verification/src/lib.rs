//! Types and traits for working with arithmetic circuits on GF2 and Z64.
//!
//! The crate provides:
//! * A gate vocabulary ([`Operation`]) that is generic over the wire value
//!   domain, and a cross-domain composition ([`CombineOperation`]).
//! * Traits for constructing, translating, and iterating over gates.
//! * A parsing library for BLIF netlist files.
//! * Code for evaluating circuits in the clear.
//! * Exporters for the Bristol Fashion and SIEVE IR textual formats.

use vstd::prelude::*;

mod analysis;
mod eval;
pub mod exporters;
mod has_const;
mod has_io;
mod identity;
mod io_extractors;
pub mod parsers;
mod text;
mod translatable;
mod util;

pub use analysis::{AnalysisPass, WireCounter};
pub use eval::{
    evaluate_composite_program, evaluate_with_randomness, largest_wires, smallest_wires, EvalError,
};
pub use has_const::HasConst;
pub use has_io::{lemma_b2a_io, lemma_operation_arity, HasIO};
pub use identity::Identity;
pub use io_extractors::{InputIterator, OutputIterator};
pub use translatable::{
    lemma_combine_translate_compose, lemma_combine_translate_identity,
    lemma_hashmap_fn_translation_agree, lemma_size_hint_not_translatable, lemma_translate_compose,
    lemma_translate_identity, map_wire, map_wire_seq, Translatable,
};

verus! {

/// Number of gate variants in [`Operation`]; kept in sync with the enum by
/// [`Operation::construct`] and [`OpType::from_index`].
pub const OPERATION_VARIANT_COUNT: usize = 10;

/// Implemented for acceptable types to use as wire values.  Collects the
/// ring-like capabilities the algebra needs (zero and one detection, a
/// fixed-width little-endian byte encoding) so that circuit types can be
/// generic without leaning on foreign numeric traits.
pub trait WireValue: Copy + Sized {
    /// The additive identity of the domain.
    spec fn spec_zero() -> Self;

    /// The multiplicative identity of the domain.
    spec fn spec_one() -> Self;

    /// The fixed 8-byte little-endian encoding of this value.
    spec fn spec_le_bytes(self) -> Seq<u8>;

    /// True exactly when the value is the domain's zero.
    fn is_zero(&self) -> (r: bool)
        ensures
            r == (*self == Self::spec_zero()),
    ;

    /// True exactly when the value is the domain's one.
    fn is_one(&self) -> (r: bool)
        ensures
            r == (*self == Self::spec_one()),
    ;

    /// The additive identity of the domain.
    fn zero() -> (r: Self)
        ensures
            r == Self::spec_zero(),
    ;

    /// The multiplicative identity of the domain.
    fn one() -> (r: Self)
        ensures
            r == Self::spec_one(),
    ;

    /// Encode the value as 8 little-endian bytes.
    fn to_le_bytes(&self) -> (r: [u8; 8])
        ensures
            r@ == self.spec_le_bytes(),
    ;
}

impl WireValue for bool {
    open spec fn spec_zero() -> bool {
        false
    }

    open spec fn spec_one() -> bool {
        true
    }

    open spec fn spec_le_bytes(self) -> Seq<u8> {
        seq![if self { 1u8 } else { 0u8 }, 0u8, 0u8, 0u8, 0u8, 0u8, 0u8, 0u8]
    }

    fn is_zero(&self) -> (r: bool) {
        !*self
    }

    fn is_one(&self) -> (r: bool) {
        *self
    }

    fn zero() -> (r: bool) {
        false
    }

    fn one() -> (r: bool) {
        true
    }

    fn to_le_bytes(&self) -> (r: [u8; 8]) {
        let b: [u8; 8] = [if *self { 1u8 } else { 0u8 }, 0u8, 0u8, 0u8, 0u8, 0u8, 0u8, 0u8];
        proof {
            assert(b@ =~= self.spec_le_bytes());
        }
        b
    }
}

impl WireValue for u64 {
    open spec fn spec_zero() -> u64 {
        0u64
    }

    open spec fn spec_one() -> u64 {
        1u64
    }

    open spec fn spec_le_bytes(self) -> Seq<u8> {
        Seq::new(8, |i: int| ((self >> (8 * i)) & 0xff) as u8)
    }

    fn is_zero(&self) -> (r: bool) {
        *self == 0
    }

    fn is_one(&self) -> (r: bool) {
        *self == 1
    }

    fn zero() -> (r: u64) {
        0
    }

    fn one() -> (r: u64) {
        1
    }

    fn to_le_bytes(&self) -> (r: [u8; 8]) {
        let x = *self;
        let b: [u8; 8] = [
            (x & 0xff) as u8,
            ((x >> 8) & 0xff) as u8,
            ((x >> 16) & 0xff) as u8,
            ((x >> 24) & 0xff) as u8,
            ((x >> 32) & 0xff) as u8,
            ((x >> 40) & 0xff) as u8,
            ((x >> 48) & 0xff) as u8,
            ((x >> 56) & 0xff) as u8,
        ];
        proof {
            assert(x >> 0 == x) by (bit_vector);
            assert(b@ =~= self.spec_le_bytes());
        }
        b
    }
}

/// Defines the individual logic gate operations we can support.
#[derive(Clone, Copy, Debug, PartialEq, Eq)]
pub enum Operation<T: WireValue> {
    /// Read a value from input and emit it on the wire
    Input(usize),
    /// Emit a random value on the wire
    Random(usize),
    /// Add the two wires together
    Add(usize, usize, usize),
    /// Add the wire and the constant
    AddConst(usize, usize, T),
    /// Subtract the second input wire from the first
    Sub(usize, usize, usize),
    /// Subtract the constant value from the wire
    SubConst(usize, usize, T),
    /// Multiply the two wires together
    Mul(usize, usize, usize),
    /// Multiply the first wire by the constant value
    MulConst(usize, usize, T),
    /// Assert that the wire has the const value zero
    AssertZero(usize),
    /// Emit the const value on the wire
    Const(usize, T),
}

/// Wraps `Operation` to define a domain for each gate.  Also carries the two
/// structural pseudo-gates that tie the domains together.
#[derive(Clone, Copy, Debug, PartialEq, Eq)]
pub enum CombineOperation {
    /// Circuit Operation on GF2 Finite Field
    GF2(Operation<bool>),
    /// Circuit Operation on 64-bit integer ring
    Z64(Operation<u64>),
    /// Converts a value on GF2 to a value on Z64.  Takes: (dst, src) where src
    /// is the _low bit_ of the 64-bit GF2 slice, so the least significant bit
    /// of the Z64 value comes from the GF2 wire with the lowest index.
    B2A(usize, usize),
    /// Information about the number of wires needed to evaluate the circuit.
    /// As with B2A, the first item is Z64, the second is GF2.
    SizeHint(usize, usize),
}

/// Which of the no-input, one-output gates a shape stands for.
#[derive(Clone, Copy, Debug, PartialEq, Eq)]
pub enum InputVariant {
    /// `Operation::Input`
    Input,
    /// `Operation::Random`
    Random,
}

/// Which of the two-input, one-output gates a shape stands for.
#[derive(Clone, Copy, Debug, PartialEq, Eq)]
pub enum BinaryVariant {
    /// `Operation::Add`
    Add,
    /// `Operation::Sub`
    Sub,
    /// `Operation::Mul`
    Mul,
}

/// Which of the one-input, one-output, one-constant gates a shape stands for.
#[derive(Clone, Copy, Debug, PartialEq, Eq)]
pub enum BinaryConstVariant {
    /// `Operation::AddConst`
    AddConst,
    /// `Operation::SubConst`
    SubConst,
    /// `Operation::MulConst`
    MulConst,
}

/// The possible shapes of the different gates: how many input wires, output
/// wires and constants each takes.  Used to reconstruct a gate generically
/// from externally supplied wires via [`Operation::construct`].
#[derive(Clone, Copy, Debug, PartialEq, Eq)]
pub enum OpType {
    /// (dst): no inputs, one output
    InputOp(InputVariant),
    /// (dst, constant): no inputs, one output, one constant
    InputConstOp,
    /// (src): one input, no outputs
    OutputOp,
    /// (dst, src1, src2): two inputs, one output
    BinaryOp(BinaryVariant),
    /// (dst, src, constant): one input, one output, one constant
    BinaryConstOp(BinaryConstVariant),
}

impl OpType {
    /// How many input wires a gate of this shape consumes.
    pub open spec fn input_arity(self) -> nat {
        match self {
            OpType::InputOp(_) => 0,
            OpType::InputConstOp => 0,
            OpType::OutputOp => 1,
            OpType::BinaryOp(_) => 2,
            OpType::BinaryConstOp(_) => 1,
        }
    }

    /// How many output wires a gate of this shape drives.
    pub open spec fn output_arity(self) -> nat {
        match self {
            OpType::InputOp(_) => 1,
            OpType::InputConstOp => 1,
            OpType::OutputOp => 0,
            OpType::BinaryOp(_) => 1,
            OpType::BinaryConstOp(_) => 1,
        }
    }

    /// Whether a gate of this shape embeds a constant operand.
    pub open spec fn needs_constant(self) -> bool {
        match self {
            OpType::InputConstOp => true,
            OpType::BinaryConstOp(_) => true,
            _ => false,
        }
    }

    /// The shape at a given index, in declaration order of the variants
    /// of [`Operation`].  Used to pick a uniformly random gate shape from a
    /// random index.
    pub fn from_index(idx: usize) -> (r: OpType)
        requires
            idx < OPERATION_VARIANT_COUNT,
        ensures
            r == Self::spec_from_index(idx as int),
    {
        match idx {
            0 => OpType::InputOp(InputVariant::Input),
            1 => OpType::InputOp(InputVariant::Random),
            2 => OpType::BinaryOp(BinaryVariant::Add),
            3 => OpType::BinaryConstOp(BinaryConstVariant::AddConst),
            4 => OpType::BinaryOp(BinaryVariant::Sub),
            5 => OpType::BinaryConstOp(BinaryConstVariant::SubConst),
            6 => OpType::BinaryOp(BinaryVariant::Mul),
            7 => OpType::BinaryConstOp(BinaryConstVariant::MulConst),
            8 => OpType::OutputOp,
            _ => OpType::InputConstOp,
        }
    }

    /// The shape at a given index, in declaration order of the variants
    /// of [`Operation`].
    pub open spec fn spec_from_index(idx: int) -> OpType {
        if idx == 0 {
            OpType::InputOp(InputVariant::Input)
        } else if idx == 1 {
            OpType::InputOp(InputVariant::Random)
        } else if idx == 2 {
            OpType::BinaryOp(BinaryVariant::Add)
        } else if idx == 3 {
            OpType::BinaryConstOp(BinaryConstVariant::AddConst)
        } else if idx == 4 {
            OpType::BinaryOp(BinaryVariant::Sub)
        } else if idx == 5 {
            OpType::BinaryConstOp(BinaryConstVariant::SubConst)
        } else if idx == 6 {
            OpType::BinaryOp(BinaryVariant::Mul)
        } else if idx == 7 {
            OpType::BinaryConstOp(BinaryConstVariant::MulConst)
        } else if idx == 8 {
            OpType::OutputOp
        } else {
            OpType::InputConstOp
        }
    }
}

impl<T: WireValue> Operation<T> {
    /// The shape of this gate.
    pub open spec fn op_type(self) -> OpType {
        match self {
            Operation::Input(_) => OpType::InputOp(InputVariant::Input),
            Operation::Random(_) => OpType::InputOp(InputVariant::Random),
            Operation::Add(_, _, _) => OpType::BinaryOp(BinaryVariant::Add),
            Operation::AddConst(_, _, _) => OpType::BinaryConstOp(BinaryConstVariant::AddConst),
            Operation::Sub(_, _, _) => OpType::BinaryOp(BinaryVariant::Sub),
            Operation::SubConst(_, _, _) => OpType::BinaryConstOp(BinaryConstVariant::SubConst),
            Operation::Mul(_, _, _) => OpType::BinaryOp(BinaryVariant::Mul),
            Operation::MulConst(_, _, _) => OpType::BinaryConstOp(BinaryConstVariant::MulConst),
            Operation::AssertZero(_) => OpType::OutputOp,
            Operation::Const(_, _) => OpType::InputConstOp,
        }
    }

    /// The embedded constant operand, if this gate carries one.
    pub open spec fn op_constant(self) -> Option<T> {
        match self {
            Operation::AddConst(_, _, c) => Some(c),
            Operation::SubConst(_, _, c) => Some(c),
            Operation::MulConst(_, _, c) => Some(c),
            Operation::Const(_, c) => Some(c),
            _ => None,
        }
    }

    /// The ordered input wires of this gate.
    pub open spec fn input_seq(self) -> Seq<usize> {
        match self {
            Operation::Input(_) => seq![],
            Operation::Random(_) => seq![],
            Operation::Add(_, a, b) => seq![a, b],
            Operation::AddConst(_, a, _) => seq![a],
            Operation::Sub(_, a, b) => seq![a, b],
            Operation::SubConst(_, a, _) => seq![a],
            Operation::Mul(_, a, b) => seq![a, b],
            Operation::MulConst(_, a, _) => seq![a],
            Operation::AssertZero(a) => seq![a],
            Operation::Const(_, _) => seq![],
        }
    }

    /// The ordered output wires of this gate (at most one).
    pub open spec fn output_seq(self) -> Seq<usize> {
        match self {
            Operation::Input(a) => seq![a],
            Operation::Random(a) => seq![a],
            Operation::Add(a, _, _) => seq![a],
            Operation::AddConst(a, _, _) => seq![a],
            Operation::Sub(a, _, _) => seq![a],
            Operation::SubConst(a, _, _) => seq![a],
            Operation::Mul(a, _, _) => seq![a],
            Operation::MulConst(a, _, _) => seq![a],
            Operation::AssertZero(_) => seq![],
            Operation::Const(a, _) => seq![a],
        }
    }

    /// What a shape reconstructs to from the given wires and constant.
    pub open spec fn spec_construct(
        ty: OpType,
        inputs: Seq<usize>,
        outputs: Seq<usize>,
        constant: Option<T>,
    ) -> Operation<T> {
        match ty {
            OpType::InputOp(InputVariant::Input) => Operation::Input(outputs[0]),
            OpType::InputOp(InputVariant::Random) => Operation::Random(outputs[0]),
            OpType::InputConstOp => Operation::Const(outputs[0], constant->0),
            OpType::OutputOp => Operation::AssertZero(inputs[0]),
            OpType::BinaryOp(BinaryVariant::Add) => Operation::Add(outputs[0], inputs[0], inputs[1]),
            OpType::BinaryOp(BinaryVariant::Sub) => Operation::Sub(outputs[0], inputs[0], inputs[1]),
            OpType::BinaryOp(BinaryVariant::Mul) => Operation::Mul(outputs[0], inputs[0], inputs[1]),
            OpType::BinaryConstOp(BinaryConstVariant::AddConst) => Operation::AddConst(
                outputs[0],
                inputs[0],
                constant->0,
            ),
            OpType::BinaryConstOp(BinaryConstVariant::SubConst) => Operation::SubConst(
                outputs[0],
                inputs[0],
                constant->0,
            ),
            OpType::BinaryConstOp(BinaryConstVariant::MulConst) => Operation::MulConst(
                outputs[0],
                inputs[0],
                constant->0,
            ),
        }
    }

    /// True when the wires named by this gate stay clear of the top of the
    /// `usize` range, so that wire arithmetic (such as sizing a wire array
    /// one past the largest wire) cannot overflow.
    pub open spec fn in_wire_range(self) -> bool {
        &&& forall|i: int|
            0 <= i < self.input_seq().len() ==> (#[trigger] self.input_seq()[i]) + 64
                <= usize::MAX
        &&& forall|i: int|
            0 <= i < self.output_seq().len() ==> (#[trigger] self.output_seq()[i]) + 64
                <= usize::MAX
    }

    /// Rebuild a gate from its fundamental components.  Used by parsers to go
    /// from text to gates.  The supplied wire lists may be longer than the
    /// shape requires; the extra wires are ignored.
    pub fn construct(ty: OpType, inputs: &[usize], outputs: &[usize], constant: Option<T>) -> (r:
        Operation<T>)
        requires
            inputs@.len() >= ty.input_arity(),
            outputs@.len() >= ty.output_arity(),
            ty.needs_constant() ==> constant is Some,
        ensures
            r == Self::spec_construct(ty, inputs@, outputs@, constant),
            r.op_type() == ty,
    {
        match ty {
            OpType::InputOp(InputVariant::Input) => Operation::Input(outputs[0]),
            OpType::InputOp(InputVariant::Random) => Operation::Random(outputs[0]),
            OpType::InputConstOp => Operation::Const(outputs[0], constant.unwrap()),
            OpType::OutputOp => Operation::AssertZero(inputs[0]),
            OpType::BinaryOp(BinaryVariant::Add) => Operation::Add(
                outputs[0],
                inputs[0],
                inputs[1],
            ),
            OpType::BinaryOp(BinaryVariant::Sub) => Operation::Sub(
                outputs[0],
                inputs[0],
                inputs[1],
            ),
            OpType::BinaryOp(BinaryVariant::Mul) => Operation::Mul(
                outputs[0],
                inputs[0],
                inputs[1],
            ),
            OpType::BinaryConstOp(BinaryConstVariant::AddConst) => Operation::AddConst(
                outputs[0],
                inputs[0],
                constant.unwrap(),
            ),
            OpType::BinaryConstOp(BinaryConstVariant::SubConst) => Operation::SubConst(
                outputs[0],
                inputs[0],
                constant.unwrap(),
            ),
            OpType::BinaryConstOp(BinaryConstVariant::MulConst) => Operation::MulConst(
                outputs[0],
                inputs[0],
                constant.unwrap(),
            ),
        }
    }
}

impl CombineOperation {
    /// The ordered input wires of this gate.  A `B2A` gate reads the 64
    /// consecutive boolean wires starting at its low wire.
    pub open spec fn input_seq(self) -> Seq<usize> {
        match self {
            CombineOperation::GF2(op) => op.input_seq(),
            CombineOperation::Z64(op) => op.input_seq(),
            CombineOperation::B2A(_, low) => Seq::new(64, |i: int| (low + i) as usize),
            CombineOperation::SizeHint(_, _) => seq![],
        }
    }

    /// The ordered output wires of this gate (at most one).
    pub open spec fn output_seq(self) -> Seq<usize> {
        match self {
            CombineOperation::GF2(op) => op.output_seq(),
            CombineOperation::Z64(op) => op.output_seq(),
            CombineOperation::B2A(dst, _) => seq![dst],
            CombineOperation::SizeHint(_, _) => seq![],
        }
    }

    /// True when the wires named by this gate stay clear of the top of the
    /// `usize` range, so that wire arithmetic (such as enumerating the 64
    /// wires a `B2A` gate reads, or sizing a wire array one past the largest
    /// wire) cannot overflow.
    pub open spec fn in_wire_range(self) -> bool {
        match self {
            CombineOperation::GF2(op) => op.in_wire_range(),
            CombineOperation::Z64(op) => op.in_wire_range(),
            CombineOperation::B2A(dst, low) => low + 64 <= usize::MAX && dst + 64 <= usize::MAX,
            CombineOperation::SizeHint(z64, gf2) => z64 + 64 <= usize::MAX && gf2 + 64
                <= usize::MAX,
        }
    }
}

impl From<Operation<bool>> for CombineOperation {
    /// Wraps a boolean-domain gate.
    fn from(op: Operation<bool>) -> (r: Self)
        ensures
            r == CombineOperation::GF2(op),
    {
        CombineOperation::GF2(op)
    }
}

impl vstd::std_specs::convert::FromSpecImpl<Operation<bool>> for CombineOperation {
    open spec fn obeys_from_spec() -> bool {
        true
    }

    open spec fn from_spec(op: Operation<bool>) -> Self {
        CombineOperation::GF2(op)
    }
}

impl From<Operation<u64>> for CombineOperation {
    /// Wraps an arithmetic-domain gate.
    fn from(op: Operation<u64>) -> (r: Self)
        ensures
            r == CombineOperation::Z64(op),
    {
        CombineOperation::Z64(op)
    }
}

impl vstd::std_specs::convert::FromSpecImpl<Operation<u64>> for CombineOperation {
    open spec fn obeys_from_spec() -> bool {
        true
    }

    open spec fn from_spec(op: Operation<u64>) -> Self {
        CombineOperation::Z64(op)
    }
}

/// Conglomerate trait that wraps all the other useful traits defined in this
/// crate.
pub trait Gate<T>: HasIO + HasConst<T> + Translatable + Identity<T> {

}

impl Gate<u64> for Operation<u64> {

}

impl Gate<bool> for Operation<bool> {

}

impl Gate<u64> for CombineOperation {

}

impl Gate<bool> for CombineOperation {

}

} // verus!

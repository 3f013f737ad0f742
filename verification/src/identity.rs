//! Detection and construction of buffer (identity) gates.

use crate::{CombineOperation, Operation, WireValue};
use vstd::prelude::*;

verus! {

/// Trait related to buffer gates.  If an operation does not change its input value
/// (ie adding zero, multiplying by one), then we say this is an "identity"
/// gate, eligible to be folded out.
pub trait Identity<T>: Sized {
    /// True exactly when this operation passes its input through unchanged.
    spec fn spec_is_identity(self) -> bool;

    /// True exactly when this operation passes its input through unchanged.
    fn is_identity(&self) -> (r: bool)
        ensures
            r == self.spec_is_identity(),
    ;

    /// The canonical identity gate between two given wires: an `AddConst`
    /// with the domain's zero constant.
    spec fn spec_identity(w_out: usize, w_in: usize) -> Self;

    /// Used to produce an identity gate on the current field when needed.
    fn identity(w_out: usize, w_in: usize) -> (r: Self)
        ensures
            r == <Self as Identity<T>>::spec_identity(w_out, w_in),
            <Self as Identity<T>>::spec_is_identity(r),
    ;
}

impl<T: WireValue> Operation<T> {
    /// True exactly when this is an `AddConst` or `SubConst` with the
    /// domain's zero, or a `MulConst` with the domain's one.
    pub open spec fn op_is_identity(self) -> bool {
        match self {
            Operation::AddConst(_, _, c) => c == T::spec_zero(),
            Operation::SubConst(_, _, c) => c == T::spec_zero(),
            Operation::MulConst(_, _, c) => c == T::spec_one(),
            _ => false,
        }
    }
}

impl<T: WireValue> Identity<T> for Operation<T> {
    open spec fn spec_is_identity(self) -> bool {
        self.op_is_identity()
    }

    fn is_identity(&self) -> (r: bool) {
        match self {
            Operation::AddConst(_, _, c) => c.is_zero(),
            Operation::SubConst(_, _, c) => c.is_zero(),
            Operation::MulConst(_, _, c) => c.is_one(),
            _ => false,
        }
    }

    open spec fn spec_identity(w_out: usize, w_in: usize) -> Self {
        Operation::AddConst(w_out, w_in, T::spec_zero())
    }

    fn identity(w_out: usize, w_in: usize) -> (r: Self) {
        Operation::AddConst(w_out, w_in, T::zero())
    }
}

impl Identity<u64> for CombineOperation {
    open spec fn spec_is_identity(self) -> bool {
        match self {
            CombineOperation::Z64(g) => g.op_is_identity(),
            _ => false,
        }
    }

    fn is_identity(&self) -> (r: bool) {
        match self {
            CombineOperation::Z64(g) => Identity::<u64>::is_identity(g),
            _ => false,
        }
    }

    open spec fn spec_identity(w_out: usize, w_in: usize) -> Self {
        CombineOperation::Z64(Operation::AddConst(w_out, w_in, 0u64))
    }

    fn identity(w_out: usize, w_in: usize) -> (r: Self) {
        CombineOperation::Z64(Operation::<u64>::identity(w_out, w_in))
    }
}

impl Identity<bool> for CombineOperation {
    open spec fn spec_is_identity(self) -> bool {
        match self {
            CombineOperation::GF2(g) => g.op_is_identity(),
            _ => false,
        }
    }

    fn is_identity(&self) -> (r: bool) {
        match self {
            CombineOperation::GF2(g) => Identity::<bool>::is_identity(g),
            _ => false,
        }
    }

    open spec fn spec_identity(w_out: usize, w_in: usize) -> Self {
        CombineOperation::GF2(Operation::AddConst(w_out, w_in, false))
    }

    fn identity(w_out: usize, w_in: usize) -> (r: Self) {
        CombineOperation::GF2(Operation::<bool>::identity(w_out, w_in))
    }
}

} // verus!

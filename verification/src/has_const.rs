//! Access to the constant operand embedded in a gate.

use crate::{CombineOperation, Operation, WireValue};
use vstd::prelude::*;

verus! {

/// For gates that carry constant data (AddConst, MulConst, etc) provides a
/// method to access the constant.  Returns `None` for all other types of
/// gates.
pub trait HasConst<T>: Sized {
    /// The embedded constant operand, if one is embedded in it.
    spec fn spec_constant(self) -> Option<T>;

    /// The embedded constant operand, if one is embedded in it.
    fn constant(&self) -> (r: Option<T>)
        ensures
            r == self.spec_constant(),
    ;
}

impl<T: WireValue> HasConst<T> for Operation<T> {
    open spec fn spec_constant(self) -> Option<T> {
        self.op_constant()
    }

    fn constant(&self) -> (r: Option<T>) {
        let r = match *self {
            Operation::AddConst(_, _, c) => Some(c),
            Operation::SubConst(_, _, c) => Some(c),
            Operation::MulConst(_, _, c) => Some(c),
            Operation::Const(_, c) => Some(c),
            _ => None,
        };
        proof {
            assert(r == self.op_constant());
            assert(self.spec_constant() == self.op_constant());
        }
        r
    }
}

impl HasConst<bool> for CombineOperation {
    open spec fn spec_constant(self) -> Option<bool> {
        match self {
            CombineOperation::GF2(g) => g.op_constant(),
            _ => None,
        }
    }

    fn constant(&self) -> (r: Option<bool>) {
        match self {
            CombineOperation::GF2(g) => g.constant(),
            _ => None,
        }
    }
}

impl HasConst<u64> for CombineOperation {
    open spec fn spec_constant(self) -> Option<u64> {
        match self {
            CombineOperation::Z64(g) => g.op_constant(),
            _ => None,
        }
    }

    fn constant(&self) -> (r: Option<u64>) {
        match self {
            CombineOperation::Z64(g) => g.constant(),
            _ => None,
        }
    }
}

} // verus!

//! Lock-step iterators over the input and output wires of a gate.

use crate::{CombineOperation, Operation, WireValue};
use vstd::prelude::*;

verus! {

/// Walks the input wires of a gate in order, one wire per call to `next`.
pub struct InputIterator<'a, T> {
    op: &'a T,
    index: usize,
}

/// Walks the output wires of a gate in order, one wire per call to `next`.
pub struct OutputIterator<'a, T> {
    op: &'a T,
    index: usize,
}

impl<'a, T> InputIterator<'a, T> {
    /// The subject whose wires are being walked.
    pub closed spec fn gate(self) -> T {
        *self.op
    }

    /// How many wires have been handed out so far.
    pub closed spec fn pos(self) -> int {
        self.index as int
    }

    pub(crate) fn new(op: &'a T) -> (r: Self)
        ensures
            r.gate() == *op,
            r.pos() == 0,
    {
        InputIterator { op, index: 0 }
    }
}

impl<'a, T> OutputIterator<'a, T> {
    /// The subject whose wires are being walked.
    pub closed spec fn gate(self) -> T {
        *self.op
    }

    /// How many wires have been handed out so far.
    pub closed spec fn pos(self) -> int {
        self.index as int
    }

    pub(crate) fn new(op: &'a T) -> (r: Self)
        ensures
            r.gate() == *op,
            r.pos() == 0,
    {
        OutputIterator { op, index: 0 }
    }
}

/// The input wire of a gate at a given position, if there is one.
fn nth_input<T: WireValue>(op: &Operation<T>, i: usize) -> (r: Option<usize>)
    ensures
        i < op.input_seq().len() ==> r == Some(op.input_seq()[i as int]),
        i >= op.input_seq().len() ==> r is None,
{
    match *op {
        Operation::Input(_) => None,
        Operation::Random(_) => None,
        Operation::Add(_, a, b) => {
            if i == 0 {
                Some(a)
            } else if i == 1 {
                Some(b)
            } else {
                None
            }
        },
        Operation::AddConst(_, a, _) => {
            if i == 0 {
                Some(a)
            } else {
                None
            }
        },
        Operation::Sub(_, a, b) => {
            if i == 0 {
                Some(a)
            } else if i == 1 {
                Some(b)
            } else {
                None
            }
        },
        Operation::SubConst(_, a, _) => {
            if i == 0 {
                Some(a)
            } else {
                None
            }
        },
        Operation::Mul(_, a, b) => {
            if i == 0 {
                Some(a)
            } else if i == 1 {
                Some(b)
            } else {
                None
            }
        },
        Operation::MulConst(_, a, _) => {
            if i == 0 {
                Some(a)
            } else {
                None
            }
        },
        Operation::AssertZero(a) => {
            if i == 0 {
                Some(a)
            } else {
                None
            }
        },
        Operation::Const(_, _) => None,
    }
}

/// The output wire of a gate at a given position, if there is one.
fn nth_output<T: WireValue>(op: &Operation<T>, i: usize) -> (r: Option<usize>)
    ensures
        i < op.output_seq().len() ==> r == Some(op.output_seq()[i as int]),
        i >= op.output_seq().len() ==> r is None,
{
    if i == 0 {
        match *op {
            Operation::Input(a) => Some(a),
            Operation::Random(a) => Some(a),
            Operation::Add(a, _, _) => Some(a),
            Operation::AddConst(a, _, _) => Some(a),
            Operation::Sub(a, _, _) => Some(a),
            Operation::SubConst(a, _, _) => Some(a),
            Operation::Mul(a, _, _) => Some(a),
            Operation::MulConst(a, _, _) => Some(a),
            Operation::AssertZero(_) => None,
            Operation::Const(a, _) => Some(a),
        }
    } else {
        None
    }
}

impl<'a, T: WireValue> InputIterator<'a, Operation<T>> {
    /// The next input wire of this gate, or `None` once they are exhausted.
    pub fn next(&mut self) -> (r: Option<usize>)
        ensures
            final(self).gate() == old(self).gate(),
            old(self).pos() < old(self).gate().input_seq().len() ==> {
                &&& r == Some(old(self).gate().input_seq()[old(self).pos()])
                &&& final(self).pos() == old(self).pos() + 1
            },
            old(self).pos() >= old(self).gate().input_seq().len() ==> {
                &&& r is None
                &&& final(self).pos() == old(self).pos()
            },
    {
        let res: Option<usize> = nth_input(self.op, self.index);
        if res.is_some() {
            self.index = self.index + 1;
        }
        res
    }
}

impl<'a, T: WireValue> OutputIterator<'a, Operation<T>> {
    /// The next output wire of this gate, or `None` once they are exhausted.
    pub fn next(&mut self) -> (r: Option<usize>)
        ensures
            final(self).gate() == old(self).gate(),
            old(self).pos() < old(self).gate().output_seq().len() ==> {
                &&& r == Some(old(self).gate().output_seq()[old(self).pos()])
                &&& final(self).pos() == old(self).pos() + 1
            },
            old(self).pos() >= old(self).gate().output_seq().len() ==> {
                &&& r is None
                &&& final(self).pos() == old(self).pos()
            },
    {
        let res: Option<usize> = nth_output(self.op, self.index);
        if res.is_some() {
            self.index = self.index + 1;
        }
        res
    }
}

impl<'a> InputIterator<'a, CombineOperation> {
    /// The next input wire of this gate, or `None` once they are exhausted.
    /// For a `B2A` gate these are the 64 consecutive boolean wires starting
    /// at its low wire, in ascending order.
    pub fn next(&mut self) -> (r: Option<usize>)
        requires
            old(self).gate().in_wire_range(),
        ensures
            final(self).gate() == old(self).gate(),
            old(self).pos() < old(self).gate().input_seq().len() ==> {
                &&& r == Some(old(self).gate().input_seq()[old(self).pos()])
                &&& final(self).pos() == old(self).pos() + 1
            },
            old(self).pos() >= old(self).gate().input_seq().len() ==> {
                &&& r is None
                &&& final(self).pos() == old(self).pos()
            },
    {
        let res: Option<usize> = match *self.op {
            CombineOperation::GF2(op) => nth_input(&op, self.index),
            CombineOperation::Z64(op) => nth_input(&op, self.index),
            CombineOperation::B2A(_, base) => {
                if self.index < 64 {
                    Some(base + self.index)
                } else {
                    None
                }
            },
            CombineOperation::SizeHint(_, _) => None,
        };
        if res.is_some() {
            self.index = self.index + 1;
        }
        res
    }
}

impl<'a> OutputIterator<'a, CombineOperation> {
    /// The next output wire of this gate, or `None` once they are exhausted.
    pub fn next(&mut self) -> (r: Option<usize>)
        ensures
            final(self).gate() == old(self).gate(),
            old(self).pos() < old(self).gate().output_seq().len() ==> {
                &&& r == Some(old(self).gate().output_seq()[old(self).pos()])
                &&& final(self).pos() == old(self).pos() + 1
            },
            old(self).pos() >= old(self).gate().output_seq().len() ==> {
                &&& r is None
                &&& final(self).pos() == old(self).pos()
            },
    {
        let res: Option<usize> = match *self.op {
            CombineOperation::GF2(op) => nth_output(&op, self.index),
            CombineOperation::Z64(op) => nth_output(&op, self.index),
            CombineOperation::B2A(a, _) => {
                if self.index == 0 {
                    Some(a)
                } else {
                    None
                }
            },
            CombineOperation::SizeHint(_, _) => None,
        };
        if res.is_some() {
            self.index = self.index + 1;
        }
        res
    }
}

} // verus!

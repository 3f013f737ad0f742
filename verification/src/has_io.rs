//! Access to the input and output wire IDs of gates.

use crate::io_extractors::{InputIterator, OutputIterator};
use crate::{CombineOperation, Operation, WireValue};
use vstd::prelude::*;

verus! {

/// Applies to all gates, allows access to the input and output wire IDs of
/// any gate.
pub trait HasIO: Sized {
    /// The ordered input wires.
    spec fn spec_inputs(self) -> Seq<usize>;

    /// The ordered output wires this gate drives (at most one).
    spec fn spec_outputs(self) -> Seq<usize>;

    /// True when all wires here stay clear of the top of the `usize`
    /// range, so that enumerating them cannot overflow.
    spec fn io_in_range(self) -> bool;

    /// A fresh lock-step iterator over the input wires.
    fn inputs<'a>(&'a self) -> (it: InputIterator<'a, Self>)
        ensures
            it.gate() == *self,
            it.pos() == 0,
    ;

    /// A fresh lock-step iterator over the output wires.
    fn outputs<'a>(&'a self) -> (it: OutputIterator<'a, Self>)
        ensures
            it.gate() == *self,
            it.pos() == 0,
    ;

    /// The input wires of this item collected into a vector.
    fn input_wires(&self) -> (r: Vec<usize>)
        requires
            self.io_in_range(),
        ensures
            r@ == self.spec_inputs(),
    ;

    /// The output wires of this item collected into a vector.
    fn output_wires(&self) -> (r: Vec<usize>)
        ensures
            r@ == self.spec_outputs(),
    ;

    /// For convenience, allows access to the (optional) output, since each
    /// gate only ever has one at most.
    fn dst(&self) -> (r: Option<usize>)
        ensures
            self.spec_outputs().len() > 0 ==> r == Some(self.spec_outputs()[0]),
            self.spec_outputs().len() == 0 ==> r is None,
    ;
}

impl<T: WireValue> HasIO for Operation<T> {
    open spec fn spec_inputs(self) -> Seq<usize> {
        self.input_seq()
    }

    open spec fn spec_outputs(self) -> Seq<usize> {
        self.output_seq()
    }

    open spec fn io_in_range(self) -> bool {
        true
    }

    #[inline(always)]
    fn inputs<'a>(&'a self) -> (it: InputIterator<'a, Self>) {
        InputIterator::new(self)
    }

    #[inline(always)]
    fn outputs<'a>(&'a self) -> (it: OutputIterator<'a, Self>) {
        OutputIterator::new(self)
    }

    fn input_wires(&self) -> (r: Vec<usize>) {
        let mut v: Vec<usize> = Vec::new();
        let mut it = self.inputs();
        loop
            invariant
                it.gate() == *self,
                0 <= it.pos() <= self.input_seq().len(),
                v@ == self.input_seq().take(it.pos()),
            ensures
                v@ == self.input_seq(),
            decreases self.input_seq().len() - it.pos(),
        {
            match it.next() {
                Some(w) => {
                    v.push(w);
                    proof {
                        assert(v@ =~= self.input_seq().take(it.pos()));
                    }
                },
                None => {
                    proof {
                        assert(v@ =~= self.input_seq());
                    }
                    break ;
                },
            }
        }
        v
    }

    fn output_wires(&self) -> (r: Vec<usize>) {
        let mut v: Vec<usize> = Vec::new();
        let mut it = self.outputs();
        loop
            invariant
                it.gate() == *self,
                0 <= it.pos() <= self.output_seq().len(),
                v@ == self.output_seq().take(it.pos()),
            ensures
                v@ == self.output_seq(),
            decreases self.output_seq().len() - it.pos(),
        {
            match it.next() {
                Some(w) => {
                    v.push(w);
                    proof {
                        assert(v@ =~= self.output_seq().take(it.pos()));
                    }
                },
                None => {
                    proof {
                        assert(v@ =~= self.output_seq());
                    }
                    break ;
                },
            }
        }
        v
    }

    fn dst(&self) -> (r: Option<usize>) {
        let mut it = self.outputs();
        it.next()
    }
}

impl HasIO for CombineOperation {
    open spec fn spec_inputs(self) -> Seq<usize> {
        self.input_seq()
    }

    open spec fn spec_outputs(self) -> Seq<usize> {
        self.output_seq()
    }

    open spec fn io_in_range(self) -> bool {
        self.in_wire_range()
    }

    #[inline(always)]
    fn inputs<'a>(&'a self) -> (it: InputIterator<'a, Self>) {
        InputIterator::new(self)
    }

    #[inline(always)]
    fn outputs<'a>(&'a self) -> (it: OutputIterator<'a, Self>) {
        OutputIterator::new(self)
    }

    fn input_wires(&self) -> (r: Vec<usize>) {
        let mut v: Vec<usize> = Vec::new();
        let mut it = self.inputs();
        loop
            invariant
                it.gate() == *self,
                self.in_wire_range(),
                0 <= it.pos() <= self.input_seq().len(),
                v@ == self.input_seq().take(it.pos()),
            ensures
                v@ == self.input_seq(),
            decreases self.input_seq().len() - it.pos(),
        {
            match it.next() {
                Some(w) => {
                    v.push(w);
                    proof {
                        assert(v@ =~= self.input_seq().take(it.pos()));
                    }
                },
                None => {
                    proof {
                        assert(v@ =~= self.input_seq());
                    }
                    break ;
                },
            }
        }
        v
    }

    fn output_wires(&self) -> (r: Vec<usize>) {
        let mut v: Vec<usize> = Vec::new();
        let mut it = self.outputs();
        loop
            invariant
                it.gate() == *self,
                0 <= it.pos() <= self.output_seq().len(),
                v@ == self.output_seq().take(it.pos()),
            ensures
                v@ == self.output_seq(),
            decreases self.output_seq().len() - it.pos(),
        {
            match it.next() {
                Some(w) => {
                    v.push(w);
                    proof {
                        assert(v@ =~= self.output_seq().take(it.pos()));
                    }
                },
                None => {
                    proof {
                        assert(v@ =~= self.output_seq());
                    }
                    break ;
                },
            }
        }
        v
    }

    fn dst(&self) -> (r: Option<usize>) {
        let mut it = self.outputs();
        it.next()
    }
}

/// The number of input wires plus output wires of a gate is fixed by its
/// shape, independent of the wire value domain: no-input gates (`Input`,
/// `Random`, `Const`) drive one output; assertion gates read one input and
/// drive none; binary gates read two inputs and drive one; constant-operand
/// gates read one input and drive one.
pub proof fn lemma_operation_arity<T: WireValue>(g: Operation<T>)
    ensures
        g.input_seq().len() == g.op_type().input_arity(),
        g.output_seq().len() == g.op_type().output_arity(),
        g.input_seq().len() + g.output_seq().len() == g.op_type().input_arity()
            + g.op_type().output_arity(),
{
}

/// A `B2A` gate reads exactly the 64 boolean wires `low, low + 1, ...,
/// low + 63`, in ascending order, and drives exactly the arithmetic wire
/// `dst`.  The wire bound keeps `low + 63` within the `usize` range; at the
/// very top of the range the wires cannot all be named.
pub proof fn lemma_b2a_io(dst: usize, low: usize)
    requires
        low + 64 <= usize::MAX,
    ensures
        CombineOperation::B2A(dst, low).input_seq().len() == 64,
        forall|i: int|
            0 <= i < 64 ==> CombineOperation::B2A(dst, low).input_seq()[i] == low + i,
        CombineOperation::B2A(dst, low).output_seq() =~= seq![dst],
{
}

} // verus!

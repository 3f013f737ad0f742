//! Replacement of the I/O wires on a gate with new ones.

use crate::{CombineOperation, HasConst, HasIO, Operation, WireValue};
use std::collections::HashMap;
use vstd::prelude::*;

verus! {

broadcast use vstd::std_specs::hash::group_hash_axioms;

/// A wire mapped through a translation table: the table's value where the
/// wire is a key, the wire itself otherwise.
pub open spec fn map_wire(m: Map<usize, usize>, w: usize) -> usize {
    if m.contains_key(w) {
        m[w]
    } else {
        w
    }
}

/// A wire sequence mapped elementwise through a translation table.
pub open spec fn map_wire_seq(s: Seq<usize>, m: Map<usize, usize>) -> Seq<usize> {
    s.map(|i: int, w: usize| map_wire(m, w))
}

/// Defines a number of helper methods for replacing the I/O wires on a gate
/// with new ones.
pub trait Translatable: HasIO {
    /// What results from redrawing a value's wires from the given
    /// sequences: the same variant and embedded constant, with input wires
    /// taken in order from `win` and output wires from `wout`.  `None` for
    /// the non-translatable `SizeHint` pseudo-gate.
    spec fn spec_translate(self, win: Seq<usize>, wout: Seq<usize>) -> Option<Self>;

    /// How many wires `spec_translate` draws from the input sequence.
    spec fn translate_arity_in(self) -> nat;

    /// How many wires `spec_translate` draws from the output sequence.
    spec fn translate_arity_out(self) -> nat;

    /// Takes a list of input wires and a list of output wires, and creates a
    /// new gate of the same type using the inputs and outputs.  The current
    /// input and output wires have no bearing on the new wires, just the
    /// gate type.
    fn translate(&self, win: &[usize], wout: &[usize]) -> (r: Option<Self>)
        requires
            win@.len() >= self.translate_arity_in(),
            wout@.len() >= self.translate_arity_out(),
        ensures
            r == self.spec_translate(win@, wout@),
    ;

    /// Takes a hashmap, and looks for existing wires in the keys.  Replaces
    /// any existing wire keys with the value from the hashmap; wires absent
    /// from the table pass through unchanged.
    fn translate_from_hashmap(&self, translation_table: HashMap<usize, usize>) -> (r: Option<
        Self,
    >)
        requires
            self.io_in_range(),
            self.spec_inputs().len() >= self.translate_arity_in(),
            self.spec_outputs().len() >= self.translate_arity_out(),
        ensures
            r == self.spec_translate(
                map_wire_seq(self.spec_inputs(), translation_table@),
                map_wire_seq(self.spec_outputs(), translation_table@),
            ),
    {
        let ins = self.input_wires();
        let outs = self.output_wires();
        let ghost m = translation_table@;
        let mut mapped_ins: Vec<usize> = Vec::new();
        let mut i: usize = 0;
        while i < ins.len()
            invariant
                ins@ == self.spec_inputs(),
                m == translation_table@,
                0 <= i <= ins@.len(),
                mapped_ins@ == map_wire_seq(self.spec_inputs(), m).take(i as int),
            decreases ins@.len() - i,
        {
            let w = ins[i];
            let mapped = match translation_table.get(&w) {
                Some(v) => *v,
                None => w,
            };
            mapped_ins.push(mapped);
            proof {
                assert(mapped_ins@ =~= map_wire_seq(self.spec_inputs(), m).take(i + 1));
            }
            i = i + 1;
        }
        let mut mapped_outs: Vec<usize> = Vec::new();
        let mut j: usize = 0;
        while j < outs.len()
            invariant
                outs@ == self.spec_outputs(),
                m == translation_table@,
                0 <= j <= outs@.len(),
                mapped_outs@ == map_wire_seq(self.spec_outputs(), m).take(j as int),
            decreases outs@.len() - j,
        {
            let w = outs[j];
            let mapped = match translation_table.get(&w) {
                Some(v) => *v,
                None => w,
            };
            mapped_outs.push(mapped);
            proof {
                assert(mapped_outs@ =~= map_wire_seq(self.spec_outputs(), m).take(j + 1));
            }
            j = j + 1;
        }
        proof {
            assert(mapped_ins@ =~= map_wire_seq(self.spec_inputs(), m));
            assert(mapped_outs@ =~= map_wire_seq(self.spec_outputs(), m));
        }
        self.translate(mapped_ins.as_slice(), mapped_outs.as_slice())
    }

    /// Calls a function on the I/O wires and replaces them with the output
    /// of the function.  The result is the translation through some wire
    /// lists that the mappers could have produced for this gate's wires.
    fn translate_from_fn<F1: Fn(usize) -> usize, F2: Fn(usize) -> usize>(
        &self,
        input_mapper: F1,
        output_mapper: F2,
    ) -> (r: Option<Self>)
        requires
            self.io_in_range(),
            self.spec_inputs().len() >= self.translate_arity_in(),
            self.spec_outputs().len() >= self.translate_arity_out(),
            forall|w: usize|
                self.spec_inputs().contains(w) ==> #[trigger] input_mapper.requires((w,)),
            forall|w: usize|
                self.spec_outputs().contains(w) ==> #[trigger] output_mapper.requires((w,)),
        ensures
            exists|wi: Seq<usize>, wo: Seq<usize>|
                {
                    &&& wi.len() == self.spec_inputs().len()
                    &&& wo.len() == self.spec_outputs().len()
                    &&& (forall|k: int|
                        0 <= k < wi.len() ==> #[trigger] input_mapper.ensures(
                            (self.spec_inputs()[k],),
                            wi[k],
                        ))
                    &&& (forall|k: int|
                        0 <= k < wo.len() ==> #[trigger] output_mapper.ensures(
                            (self.spec_outputs()[k],),
                            wo[k],
                        ))
                    &&& r == self.spec_translate(wi, wo)
                },
    {
        let ins = self.input_wires();
        let outs = self.output_wires();
        let mut mapped_ins: Vec<usize> = Vec::new();
        let mut i: usize = 0;
        while i < ins.len()
            invariant
                ins@ == self.spec_inputs(),
                0 <= i <= ins@.len(),
                mapped_ins@.len() == i,
                forall|w: usize|
                    self.spec_inputs().contains(w) ==> #[trigger] input_mapper.requires((w,)),
                forall|k: int|
                    0 <= k < i ==> #[trigger] input_mapper.ensures(
                        (self.spec_inputs()[k],),
                        mapped_ins@[k],
                    ),
            decreases ins@.len() - i,
        {
            let w = ins[i];
            assert(self.spec_inputs().contains(w));
            let mapped = input_mapper(w);
            mapped_ins.push(mapped);
            i = i + 1;
        }
        let mut mapped_outs: Vec<usize> = Vec::new();
        let mut j: usize = 0;
        while j < outs.len()
            invariant
                outs@ == self.spec_outputs(),
                0 <= j <= outs@.len(),
                mapped_outs@.len() == j,
                forall|w: usize|
                    self.spec_outputs().contains(w) ==> #[trigger] output_mapper.requires((w,)),
                forall|k: int|
                    0 <= k < j ==> #[trigger] output_mapper.ensures(
                        (self.spec_outputs()[k],),
                        mapped_outs@[k],
                    ),
            decreases outs@.len() - j,
        {
            let w = outs[j];
            assert(self.spec_outputs().contains(w));
            let mapped = output_mapper(w);
            mapped_outs.push(mapped);
            j = j + 1;
        }
        let r = self.translate(mapped_ins.as_slice(), mapped_outs.as_slice());
        proof {
            let wi = mapped_ins@;
            let wo = mapped_outs@;
            assert({
                &&& wi.len() == self.spec_inputs().len()
                &&& wo.len() == self.spec_outputs().len()
                &&& (forall|k: int|
                    0 <= k < wi.len() ==> #[trigger] input_mapper.ensures(
                        (self.spec_inputs()[k],),
                        wi[k],
                    ))
                &&& (forall|k: int|
                    0 <= k < wo.len() ==> #[trigger] output_mapper.ensures(
                        (self.spec_outputs()[k],),
                        wo[k],
                    ))
                &&& r == self.spec_translate(wi, wo)
            });
        }
        r
    }
}

impl<T: WireValue> Translatable for Operation<T> {
    open spec fn spec_translate(self, win: Seq<usize>, wout: Seq<usize>) -> Option<Operation<T>> {
        Some(Operation::spec_construct(self.op_type(), win, wout, self.op_constant()))
    }

    open spec fn translate_arity_in(self) -> nat {
        self.op_type().input_arity()
    }

    open spec fn translate_arity_out(self) -> nat {
        self.op_type().output_arity()
    }

    fn translate(&self, win: &[usize], wout: &[usize]) -> (r: Option<Operation<T>>) {
        let ty = match *self {
            Operation::Input(_) => crate::OpType::InputOp(crate::InputVariant::Input),
            Operation::Random(_) => crate::OpType::InputOp(crate::InputVariant::Random),
            Operation::Add(_, _, _) => crate::OpType::BinaryOp(crate::BinaryVariant::Add),
            Operation::AddConst(_, _, _) => crate::OpType::BinaryConstOp(
                crate::BinaryConstVariant::AddConst,
            ),
            Operation::Sub(_, _, _) => crate::OpType::BinaryOp(crate::BinaryVariant::Sub),
            Operation::SubConst(_, _, _) => crate::OpType::BinaryConstOp(
                crate::BinaryConstVariant::SubConst,
            ),
            Operation::Mul(_, _, _) => crate::OpType::BinaryOp(crate::BinaryVariant::Mul),
            Operation::MulConst(_, _, _) => crate::OpType::BinaryConstOp(
                crate::BinaryConstVariant::MulConst,
            ),
            Operation::AssertZero(_) => crate::OpType::OutputOp,
            Operation::Const(_, _) => crate::OpType::InputConstOp,
        };
        Some(Operation::construct(ty, win, wout, self.constant()))
    }
}

impl Translatable for CombineOperation {
    open spec fn spec_translate(self, win: Seq<usize>, wout: Seq<usize>) -> Option<
        CombineOperation,
    > {
        match self {
            CombineOperation::GF2(op) => Some(
                CombineOperation::GF2(op.spec_translate(win, wout)->0),
            ),
            CombineOperation::Z64(op) => Some(
                CombineOperation::Z64(op.spec_translate(win, wout)->0),
            ),
            CombineOperation::B2A(_, _) => Some(CombineOperation::B2A(wout[0], win[0])),
            CombineOperation::SizeHint(_, _) => None,
        }
    }

    open spec fn translate_arity_in(self) -> nat {
        match self {
            CombineOperation::GF2(op) => op.translate_arity_in(),
            CombineOperation::Z64(op) => op.translate_arity_in(),
            CombineOperation::B2A(_, _) => 1,
            CombineOperation::SizeHint(_, _) => 0,
        }
    }

    open spec fn translate_arity_out(self) -> nat {
        match self {
            CombineOperation::GF2(op) => op.translate_arity_out(),
            CombineOperation::Z64(op) => op.translate_arity_out(),
            CombineOperation::B2A(_, _) => 1,
            CombineOperation::SizeHint(_, _) => 0,
        }
    }

    fn translate(&self, win: &[usize], wout: &[usize]) -> (r: Option<CombineOperation>) {
        match self {
            CombineOperation::GF2(op) => match op.translate(win, wout) {
                Some(g) => Some(CombineOperation::GF2(g)),
                None => None,
            },
            CombineOperation::Z64(op) => match op.translate(win, wout) {
                Some(g) => Some(CombineOperation::Z64(g)),
                None => None,
            },
            CombineOperation::B2A(_, _) => Some(CombineOperation::B2A(wout[0], win[0])),
            CombineOperation::SizeHint(_, _) => None,
        }
    }
}

/// Identity translation law: redrawing a gate's wires from its own current
/// input and output wires gives back the same value.
pub proof fn lemma_translate_identity<T: WireValue>(g: Operation<T>)
    ensures
        g.spec_translate(g.input_seq(), g.output_seq()) == Some(g),
{
}

/// Identity translation law for cross-domain gates: every gate but the
/// non-translatable `SizeHint` pseudo-gate translates to itself through its
/// own wires.
pub proof fn lemma_combine_translate_identity(g: CombineOperation)
    requires
        !(g is SizeHint),
    ensures
        g.spec_translate(g.input_seq(), g.output_seq()) == Some(g),
{
}

/// Composition law: translating a translated gate is the same as translating
/// the original gate directly through the final wire lists, since a
/// translation keeps the variant and constant and discards the old wires.
pub proof fn lemma_translate_compose<T: WireValue>(
    g: Operation<T>,
    wi1: Seq<usize>,
    wo1: Seq<usize>,
    wi2: Seq<usize>,
    wo2: Seq<usize>,
)
    requires
        wi1.len() >= g.translate_arity_in(),
        wo1.len() >= g.translate_arity_out(),
    ensures
        g.spec_translate(wi1, wo1)->0.spec_translate(wi2, wo2) == g.spec_translate(wi2, wo2),
{
}

/// Composition law for cross-domain gates.
pub proof fn lemma_combine_translate_compose(
    g: CombineOperation,
    wi1: Seq<usize>,
    wo1: Seq<usize>,
    wi2: Seq<usize>,
    wo2: Seq<usize>,
)
    requires
        !(g is SizeHint),
        wi1.len() >= g.translate_arity_in(),
        wo1.len() >= g.translate_arity_out(),
    ensures
        g.spec_translate(wi1, wo1)->0.spec_translate(wi2, wo2) == g.spec_translate(wi2, wo2),
{
}

/// Size hints are not translatable: whatever wire lists are supplied, the
/// translation of a `SizeHint` is `None`, and callers must re-create the
/// hint explicitly.
pub proof fn lemma_size_hint_not_translatable(
    a: usize,
    b: usize,
    win: Seq<usize>,
    wout: Seq<usize>,
)
    ensures
        CombineOperation::SizeHint(a, b).spec_translate(win, wout) is None,
{
}

/// A translation table and a pair of mapper functions that agree on a gate's
/// wires produce the very same translation: mapping the wire lists through
/// the table is mapping them through the functions.
pub proof fn lemma_hashmap_fn_translation_agree<T: WireValue>(
    g: Operation<T>,
    m: Map<usize, usize>,
    fin: spec_fn(usize) -> usize,
    fout: spec_fn(usize) -> usize,
)
    requires
        forall|w: usize| g.input_seq().contains(w) ==> #[trigger] fin(w) == map_wire(m, w),
        forall|w: usize| g.output_seq().contains(w) ==> #[trigger] fout(w) == map_wire(m, w),
    ensures
        g.spec_translate(map_wire_seq(g.input_seq(), m), map_wire_seq(g.output_seq(), m))
            == g.spec_translate(g.input_seq().map_values(fin), g.output_seq().map_values(fout)),
{
    assert(map_wire_seq(g.input_seq(), m) =~= g.input_seq().map_values(fin)) by {
        assert forall|i: int| 0 <= i < g.input_seq().len() implies map_wire(m, g.input_seq()[i])
            == fin(g.input_seq()[i]) by {
            assert(g.input_seq().contains(g.input_seq()[i]));
        }
    }
    assert(map_wire_seq(g.output_seq(), m) =~= g.output_seq().map_values(fout)) by {
        assert forall|i: int| 0 <= i < g.output_seq().len() implies map_wire(m, g.output_seq()[i])
            == fout(g.output_seq()[i]) by {
            assert(g.output_seq().contains(g.output_seq()[i]));
        }
    }
}

} // verus!

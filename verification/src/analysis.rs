//! Whole-circuit analysis passes.  Currently used to count wires.

use crate::util::{lemma_skip_ends, lemma_skip_step};
use crate::{CombineOperation, HasIO};
use vstd::prelude::*;

verus! {

/// The larger of two wire ids.
pub open spec fn wire_max(a: usize, b: usize) -> usize {
    if b > a {
        b
    } else {
        a
    }
}

/// The smaller of two wire ids.
pub open spec fn wire_min(a: usize, b: usize) -> usize {
    if b < a {
        b
    } else {
        a
    }
}

/// The running maximum of a wire sequence, starting from `acc`.
pub open spec fn max_from(s: Seq<usize>, acc: usize) -> usize
    decreases s.len(),
{
    if s.len() == 0 {
        acc
    } else {
        max_from(s.drop_first(), wire_max(acc, s[0]))
    }
}

/// The running minimum of a wire sequence, starting from `acc`.
pub open spec fn min_from(s: Seq<usize>, acc: usize) -> usize
    decreases s.len(),
{
    if s.len() == 0 {
        acc
    } else {
        min_from(s.drop_first(), wire_min(acc, s[0]))
    }
}

/// A running maximum stays under any bound that covers its seed and every
/// element it folds in.
proof fn lemma_max_from_bound(s: Seq<usize>, acc: usize, bound: usize)
    requires
        acc <= bound,
        forall|i: int| 0 <= i < s.len() ==> s[i] <= bound,
    ensures
        max_from(s, acc) <= bound,
    decreases s.len(),
{
    if s.len() > 0 {
        lemma_max_from_bound(s.drop_first(), wire_max(acc, s[0]), bound);
    }
}

/// Generic trait for running something on every gate of a circuit.
/// Currently used to count wires.
pub trait AnalysisPass: Sized {
    /// What the finished analysis reports.
    type Output;

    /// The pass state after folding one gate in.
    spec fn gate_step(self, gate: CombineOperation) -> Self;

    /// What a gate must satisfy before it can be folded in.
    spec fn gate_pre(self, gate: CombineOperation) -> bool;

    /// What the pass state must satisfy before the analysis can finish.
    spec fn fin_pre(self) -> bool;

    /// The report the current pass state finishes to.
    spec fn spec_finish(self) -> Self::Output;

    /// What a whole circuit must satisfy before it can be analyzed.
    spec fn circuit_pre(circuit: Seq<CombineOperation>) -> bool;

    /// The report for a whole circuit, folded gate by gate from the default
    /// pass state.
    spec fn spec_analyze(circuit: Seq<CombineOperation>) -> Self::Output;

    /// Fold one gate into the pass state.
    fn analyze_gate(&mut self, gate: &CombineOperation)
        requires
            old(self).gate_pre(*gate),
        ensures
            *final(self) == old(self).gate_step(*gate),
    ;

    /// Finish the analysis and report the result.
    fn finish_analysis(self) -> (r: Self::Output)
        requires
            self.fin_pre(),
        ensures
            r == self.spec_finish(),
    ;

    /// Run the whole pass over a circuit.
    fn analyze(circuit: &[CombineOperation]) -> (r: Self::Output) where Self: Default
        requires
            Self::circuit_pre(circuit@),
        ensures
            r == Self::spec_analyze(circuit@),
    ;
}

/// Tracks the largest and smallest wire ids seen in each domain.
pub struct WireCounter {
    /// Largest arithmetic wire id seen so far.
    pub largest_arith: usize,
    /// Largest boolean wire id seen so far.
    pub largest_bool: usize,
    /// Smallest arithmetic wire id seen so far.
    pub smallest_arith: usize,
    /// Smallest boolean wire id seen so far.
    pub smallest_bool: usize,
}

impl WireCounter {
    /// The pass state before any gate has been folded in.
    pub open spec fn initial() -> WireCounter {
        WireCounter {
            largest_arith: 0,
            largest_bool: 0,
            smallest_arith: usize::MAX,
            smallest_bool: usize::MAX,
        }
    }

    /// The largest-wire fields stay far enough from the top of the `usize`
    /// range that the final one-past-the-largest counts cannot overflow.
    pub open spec fn bounded(self) -> bool {
        self.largest_arith <= usize::MAX - 1 && self.largest_bool <= usize::MAX - 1
    }

    /// The pass state after a whole gate sequence has been folded in.
    pub open spec fn run_counter(self, circuit: Seq<CombineOperation>) -> WireCounter
        decreases circuit.len(),
    {
        if circuit.len() == 0 {
            self
        } else {
            self.gate_step(circuit[0]).run_counter(circuit.drop_first())
        }
    }

    /// Folding in an in-range gate keeps the largest-wire fields bounded.
    proof fn lemma_step_bounded(self, gate: CombineOperation)
        requires
            self.bounded(),
            gate.in_wire_range(),
        ensures
            self.gate_step(gate).bounded(),
    {
        let bound = (usize::MAX - 1) as usize;
        match gate {
            CombineOperation::GF2(op) => {
                let ws = op.input_seq() + op.output_seq();
                assert forall|i: int| 0 <= i < ws.len() implies ws[i] <= bound by {
                    if i < op.input_seq().len() {
                        assert(ws[i] == op.input_seq()[i]);
                    } else {
                        assert(ws[i] == op.output_seq()[i - op.input_seq().len()]);
                    }
                }
                lemma_max_from_bound(ws, self.largest_bool, bound);
            },
            CombineOperation::Z64(op) => {
                let ws = op.input_seq() + op.output_seq();
                assert forall|i: int| 0 <= i < ws.len() implies ws[i] <= bound by {
                    if i < op.input_seq().len() {
                        assert(ws[i] == op.input_seq()[i]);
                    } else {
                        assert(ws[i] == op.output_seq()[i - op.input_seq().len()]);
                    }
                }
                lemma_max_from_bound(ws, self.largest_arith, bound);
            },
            CombineOperation::B2A(_, _) => {},
            CombineOperation::SizeHint(_, _) => {},
        }
    }
}

impl Default for WireCounter {
    /// Starts the counter with empty ranges: the largest ids at the bottom
    /// of the range, the smallest ids at the top.
    fn default() -> (r: Self)
        ensures
            r == WireCounter::initial(),
    {
        WireCounter {
            largest_arith: 0,
            largest_bool: 0,
            smallest_arith: usize::MAX,
            smallest_bool: usize::MAX,
        }
    }
}

/// The running maximum and minimum of a vector of wire ids, starting from
/// the given seeds.
pub(crate) fn max_min_wires(ws: &Vec<usize>, lg: usize, sm: usize) -> (r: (usize, usize))
    ensures
        r.0 == max_from(ws@, lg),
        r.1 == min_from(ws@, sm),
{
    let mut a = lg;
    let mut b = sm;
    let mut i: usize = 0;
    proof {
        lemma_skip_ends(ws@);
    }
    while i < ws.len()
        invariant
            0 <= i <= ws@.len(),
            max_from(ws@, lg) == max_from(ws@.skip(i as int), a),
            min_from(ws@, sm) == min_from(ws@.skip(i as int), b),
        decreases ws@.len() - i,
    {
        proof {
            lemma_skip_step(ws@, i as int);
        }
        let w = ws[i];
        if w > a {
            a = w;
        }
        if w < b {
            b = w;
        }
        i = i + 1;
    }
    proof {
        lemma_skip_ends(ws@);
    }
    (a, b)
}

impl AnalysisPass for WireCounter {
    type Output = ((usize, usize), (usize, usize));

    open spec fn gate_step(self, gate: CombineOperation) -> WireCounter {
        match gate {
            CombineOperation::GF2(op) => WireCounter {
                largest_bool: max_from(op.input_seq() + op.output_seq(), self.largest_bool),
                smallest_bool: min_from(op.input_seq() + op.output_seq(), self.smallest_bool),
                ..self
            },
            CombineOperation::Z64(op) => WireCounter {
                largest_arith: max_from(op.input_seq() + op.output_seq(), self.largest_arith),
                smallest_arith: min_from(op.input_seq() + op.output_seq(), self.smallest_arith),
                ..self
            },
            CombineOperation::B2A(dst, low) => WireCounter {
                largest_arith: wire_max(self.largest_arith, dst),
                largest_bool: wire_max(self.largest_bool, (low + 63) as usize),
                smallest_arith: wire_min(wire_min(self.smallest_arith, dst), low),
                smallest_bool: self.smallest_bool,
            },
            CombineOperation::SizeHint(z64, gf2) => WireCounter {
                largest_arith: wire_max(self.largest_arith, z64),
                largest_bool: wire_max(self.largest_bool, gf2),
                ..self
            },
        }
    }

    open spec fn gate_pre(self, gate: CombineOperation) -> bool {
        gate.in_wire_range()
    }

    open spec fn fin_pre(self) -> bool {
        self.largest_arith < usize::MAX && self.largest_bool < usize::MAX
    }

    open spec fn spec_finish(self) -> ((usize, usize), (usize, usize)) {
        (
            (((self.largest_arith + 1) as usize), ((self.largest_bool + 1) as usize)),
            (self.smallest_arith, self.smallest_bool),
        )
    }

    open spec fn circuit_pre(circuit: Seq<CombineOperation>) -> bool {
        forall|i: int| 0 <= i < circuit.len() ==> (#[trigger] circuit[i]).in_wire_range()
    }

    open spec fn spec_analyze(circuit: Seq<CombineOperation>) -> ((usize, usize), (usize, usize)) {
        WireCounter::initial().run_counter(circuit).spec_finish()
    }

    fn analyze_gate(&mut self, gate: &CombineOperation) {
        match gate {
            CombineOperation::GF2(gf2_insn) => {
                let mut ws = gf2_insn.input_wires();
                let mut outs = gf2_insn.output_wires();
                ws.append(&mut outs);
                let (a, b) = max_min_wires(&ws, self.largest_bool, self.smallest_bool);
                self.largest_bool = a;
                self.smallest_bool = b;
            },
            CombineOperation::Z64(z64_insn) => {
                let mut ws = z64_insn.input_wires();
                let mut outs = z64_insn.output_wires();
                ws.append(&mut outs);
                let (a, b) = max_min_wires(&ws, self.largest_arith, self.smallest_arith);
                self.largest_arith = a;
                self.smallest_arith = b;
            },
            CombineOperation::B2A(dst, low) => {
                if *dst > self.largest_arith {
                    self.largest_arith = *dst;
                }
                if *low + 63 > self.largest_bool {
                    self.largest_bool = *low + 63;
                }
                if *dst < self.smallest_arith {
                    self.smallest_arith = *dst;
                }
                if *low < self.smallest_arith {
                    self.smallest_arith = *low;
                }
            },
            CombineOperation::SizeHint(z64, gf2) => {
                if *z64 > self.largest_arith {
                    self.largest_arith = *z64;
                }
                if *gf2 > self.largest_bool {
                    self.largest_bool = *gf2;
                }
            },
        }
    }

    fn finish_analysis(self) -> (r: ((usize, usize), (usize, usize))) {
        ((self.largest_arith + 1, self.largest_bool + 1), (self.smallest_arith, self.smallest_bool))
    }

    fn analyze(circuit: &[CombineOperation]) -> (r: ((usize, usize), (usize, usize))) {
        let mut state = WireCounter::default();
        let mut i: usize = 0;
        proof {
            lemma_skip_ends(circuit@);
        }
        while i < circuit.len()
            invariant
                0 <= i <= circuit@.len(),
                WireCounter::circuit_pre(circuit@),
                state.bounded(),
                WireCounter::initial().run_counter(circuit@) == state.run_counter(
                    circuit@.skip(i as int),
                ),
            decreases circuit@.len() - i,
        {
            proof {
                lemma_skip_step(circuit@, i as int);
                state.lemma_step_bounded(circuit@[i as int]);
            }
            let gate = &circuit[i];
            state.analyze_gate(gate);
            i = i + 1;
        }
        proof {
            lemma_skip_ends(circuit@);
        }
        state.finish_analysis()
    }
}

} // verus!

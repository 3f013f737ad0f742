//! Evaluation of composite programs in the clear.

use crate::analysis::{AnalysisPass, WireCounter};
use crate::util::{lemma_skip_ends, lemma_skip_step};
use crate::{CombineOperation, Operation};
use vstd::arithmetic::power2::{lemma2_to64, lemma_pow2_pos, lemma_pow2_unfold, pow2};
use vstd::pervasive::VecAdditionalExecFns;
use vstd::prelude::*;
use vstd::wrapping::u64_specs;

verus! {

/// Relies on `rand::random`: draws one value of the requested type from the
/// thread-local generator.  Nothing can be promised of a random value.
pub assume_specification<T>[ rand::random::<T> ]() -> (r: T)
    where
        rand::distr::StandardUniform: rand::distr::Distribution<T>,
;

/// Why an evaluation stopped before the end of the program.
#[derive(Clone, Copy, Debug, PartialEq, Eq, Structural)]
pub enum EvalError {
    /// A gate read or wrote a boolean wire past the allocated range.
    BoolWireOutOfRange,
    /// A gate read or wrote an arithmetic wire past the allocated range.
    ArithWireOutOfRange,
    /// An `Input` gate ran out of boolean inputs.
    OutOfBoolInputs,
    /// An `Input` gate ran out of arithmetic inputs.
    OutOfArithInputs,
    /// A `Random` gate ran out of supplied boolean randomness.
    OutOfBoolRandomness,
    /// A `Random` gate ran out of supplied arithmetic randomness.
    OutOfArithRandomness,
    /// An `AssertZero` gate saw a nonzero value.
    FailedZeroAssertion,
}

/// The whole state of an evaluation: the wire arrays of the two domains and
/// the values not yet consumed from the input and randomness streams.
pub struct EvalState {
    /// Boolean wire values.
    pub bools: Seq<bool>,
    /// Arithmetic wire values.
    pub ariths: Seq<u64>,
    /// Remaining boolean inputs.
    pub bin: Seq<bool>,
    /// Remaining arithmetic inputs.
    pub ain: Seq<u64>,
    /// Remaining boolean randomness.
    pub brand: Seq<bool>,
    /// Remaining arithmetic randomness.
    pub arand: Seq<u64>,
}

/// The value a `B2A` gate reads from the first `k` of the 64 boolean wires
/// starting at `low`, little-endian: wire `low + i` contributes `2^i` when
/// set.  Wires past the end of the array contribute nothing.
pub open spec fn b2a_partial(bits: Seq<bool>, low: int, k: nat) -> int
    decreases k,
{
    if k == 0 {
        0
    } else {
        b2a_partial(bits, low, (k - 1) as nat) + if low + (k - 1) < bits.len() && bits[low + (k
            - 1)] {
            pow2((k - 1) as nat) as int
        } else {
            0
        }
    }
}

/// The value a `B2A` gate reads: 64 boolean wires starting at `low`,
/// little-endian.
pub open spec fn b2a_value(bits: Seq<bool>, low: int) -> u64 {
    b2a_partial(bits, low, 64) as u64
}

proof fn lemma_b2a_partial_bound(bits: Seq<bool>, low: int, k: nat)
    ensures
        0 <= b2a_partial(bits, low, k) < pow2(k),
    decreases k,
{
    lemma_pow2_pos(k);
    if k > 0 {
        lemma_b2a_partial_bound(bits, low, (k - 1) as nat);
        lemma_pow2_unfold(k);
    }
}

/// One step of a boolean-domain gate.  The wire reads and writes are checked
/// against the allocated range; `Input` and `Random` gates consume one value
/// from their stream and fail once it is exhausted.
pub open spec fn step_gf2(st: EvalState, op: Operation<bool>) -> Result<EvalState, EvalError> {
    match op {
        Operation::Input(dst) => {
            if st.bin.len() == 0 {
                Err(EvalError::OutOfBoolInputs)
            } else if dst >= st.bools.len() {
                Err(EvalError::BoolWireOutOfRange)
            } else {
                Ok(
                    EvalState {
                        bools: st.bools.update(dst as int, st.bin[0]),
                        bin: st.bin.drop_first(),
                        ..st
                    },
                )
            }
        },
        Operation::Random(dst) => {
            if st.brand.len() == 0 {
                Err(EvalError::OutOfBoolRandomness)
            } else if dst >= st.bools.len() {
                Err(EvalError::BoolWireOutOfRange)
            } else {
                Ok(
                    EvalState {
                        bools: st.bools.update(dst as int, st.brand[0]),
                        brand: st.brand.drop_first(),
                        ..st
                    },
                )
            }
        },
        Operation::Add(dst, a, b) => {
            if a >= st.bools.len() || b >= st.bools.len() || dst >= st.bools.len() {
                Err(EvalError::BoolWireOutOfRange)
            } else {
                Ok(
                    EvalState {
                        bools: st.bools.update(dst as int, st.bools[a as int] != st.bools[b as int]),
                        ..st
                    },
                )
            }
        },
        Operation::Sub(dst, a, b) => {
            if a >= st.bools.len() || b >= st.bools.len() || dst >= st.bools.len() {
                Err(EvalError::BoolWireOutOfRange)
            } else {
                Ok(
                    EvalState {
                        bools: st.bools.update(dst as int, st.bools[a as int] != st.bools[b as int]),
                        ..st
                    },
                )
            }
        },
        Operation::Mul(dst, a, b) => {
            if a >= st.bools.len() || b >= st.bools.len() || dst >= st.bools.len() {
                Err(EvalError::BoolWireOutOfRange)
            } else {
                Ok(
                    EvalState {
                        bools: st.bools.update(dst as int, st.bools[a as int] && st.bools[b as int]),
                        ..st
                    },
                )
            }
        },
        Operation::AddConst(dst, a, c) => {
            if a >= st.bools.len() || dst >= st.bools.len() {
                Err(EvalError::BoolWireOutOfRange)
            } else {
                Ok(EvalState { bools: st.bools.update(dst as int, st.bools[a as int] != c), ..st })
            }
        },
        Operation::SubConst(dst, a, c) => {
            if a >= st.bools.len() || dst >= st.bools.len() {
                Err(EvalError::BoolWireOutOfRange)
            } else {
                Ok(EvalState { bools: st.bools.update(dst as int, st.bools[a as int] != c), ..st })
            }
        },
        Operation::MulConst(dst, a, c) => {
            if a >= st.bools.len() || dst >= st.bools.len() {
                Err(EvalError::BoolWireOutOfRange)
            } else {
                Ok(EvalState { bools: st.bools.update(dst as int, st.bools[a as int] && c), ..st })
            }
        },
        Operation::AssertZero(src) => {
            if src >= st.bools.len() {
                Err(EvalError::BoolWireOutOfRange)
            } else if st.bools[src as int] {
                Err(EvalError::FailedZeroAssertion)
            } else {
                Ok(st)
            }
        },
        Operation::Const(dst, c) => {
            if dst >= st.bools.len() {
                Err(EvalError::BoolWireOutOfRange)
            } else {
                Ok(EvalState { bools: st.bools.update(dst as int, c), ..st })
            }
        },
    }
}

/// One step of an arithmetic-domain gate, with wrapping Z64 arithmetic.
pub open spec fn step_z64(st: EvalState, op: Operation<u64>) -> Result<EvalState, EvalError> {
    match op {
        Operation::Input(dst) => {
            if st.ain.len() == 0 {
                Err(EvalError::OutOfArithInputs)
            } else if dst >= st.ariths.len() {
                Err(EvalError::ArithWireOutOfRange)
            } else {
                Ok(
                    EvalState {
                        ariths: st.ariths.update(dst as int, st.ain[0]),
                        ain: st.ain.drop_first(),
                        ..st
                    },
                )
            }
        },
        Operation::Random(dst) => {
            if st.arand.len() == 0 {
                Err(EvalError::OutOfArithRandomness)
            } else if dst >= st.ariths.len() {
                Err(EvalError::ArithWireOutOfRange)
            } else {
                Ok(
                    EvalState {
                        ariths: st.ariths.update(dst as int, st.arand[0]),
                        arand: st.arand.drop_first(),
                        ..st
                    },
                )
            }
        },
        Operation::Add(dst, a, b) => {
            if a >= st.ariths.len() || b >= st.ariths.len() || dst >= st.ariths.len() {
                Err(EvalError::ArithWireOutOfRange)
            } else {
                Ok(
                    EvalState {
                        ariths: st.ariths.update(
                            dst as int,
                            u64_specs::wrapping_add(st.ariths[a as int], st.ariths[b as int]),
                        ),
                        ..st
                    },
                )
            }
        },
        Operation::Sub(dst, a, b) => {
            if a >= st.ariths.len() || b >= st.ariths.len() || dst >= st.ariths.len() {
                Err(EvalError::ArithWireOutOfRange)
            } else {
                Ok(
                    EvalState {
                        ariths: st.ariths.update(
                            dst as int,
                            u64_specs::wrapping_sub(st.ariths[a as int], st.ariths[b as int]),
                        ),
                        ..st
                    },
                )
            }
        },
        Operation::Mul(dst, a, b) => {
            if a >= st.ariths.len() || b >= st.ariths.len() || dst >= st.ariths.len() {
                Err(EvalError::ArithWireOutOfRange)
            } else {
                Ok(
                    EvalState {
                        ariths: st.ariths.update(
                            dst as int,
                            u64_specs::wrapping_mul(st.ariths[a as int], st.ariths[b as int]),
                        ),
                        ..st
                    },
                )
            }
        },
        Operation::AddConst(dst, a, c) => {
            if a >= st.ariths.len() || dst >= st.ariths.len() {
                Err(EvalError::ArithWireOutOfRange)
            } else {
                Ok(
                    EvalState {
                        ariths: st.ariths.update(
                            dst as int,
                            u64_specs::wrapping_add(st.ariths[a as int], c),
                        ),
                        ..st
                    },
                )
            }
        },
        Operation::SubConst(dst, a, c) => {
            if a >= st.ariths.len() || dst >= st.ariths.len() {
                Err(EvalError::ArithWireOutOfRange)
            } else {
                Ok(
                    EvalState {
                        ariths: st.ariths.update(
                            dst as int,
                            u64_specs::wrapping_sub(st.ariths[a as int], c),
                        ),
                        ..st
                    },
                )
            }
        },
        Operation::MulConst(dst, a, c) => {
            if a >= st.ariths.len() || dst >= st.ariths.len() {
                Err(EvalError::ArithWireOutOfRange)
            } else {
                Ok(
                    EvalState {
                        ariths: st.ariths.update(
                            dst as int,
                            u64_specs::wrapping_mul(st.ariths[a as int], c),
                        ),
                        ..st
                    },
                )
            }
        },
        Operation::AssertZero(src) => {
            if src >= st.ariths.len() {
                Err(EvalError::ArithWireOutOfRange)
            } else if st.ariths[src as int] != 0u64 {
                Err(EvalError::FailedZeroAssertion)
            } else {
                Ok(st)
            }
        },
        Operation::Const(dst, c) => {
            if dst >= st.ariths.len() {
                Err(EvalError::ArithWireOutOfRange)
            } else {
                Ok(EvalState { ariths: st.ariths.update(dst as int, c), ..st })
            }
        },
    }
}

/// A wire array grown to at least `target` entries, new entries filled with
/// `fill`.
pub open spec fn grown<A>(s: Seq<A>, target: int, fill: A) -> Seq<A> {
    if s.len() < target {
        s + Seq::new((target - s.len()) as nat, |i: int| fill)
    } else {
        s
    }
}

/// One step of a composite gate.
pub open spec fn step(st: EvalState, gate: CombineOperation) -> Result<EvalState, EvalError> {
    match gate {
        CombineOperation::GF2(op) => step_gf2(st, op),
        CombineOperation::Z64(op) => step_z64(st, op),
        CombineOperation::B2A(dst, low) => {
            if dst >= st.ariths.len() {
                Err(EvalError::ArithWireOutOfRange)
            } else {
                Ok(
                    EvalState {
                        ariths: st.ariths.update(dst as int, b2a_value(st.bools, low as int)),
                        ..st
                    },
                )
            }
        },
        CombineOperation::SizeHint(z64, gf2) => Ok(
            EvalState {
                bools: grown(st.bools, gf2 as int, false),
                ariths: grown(st.ariths, z64 as int, 0u64),
                ..st
            },
        ),
    }
}

/// A whole program run gate by gate from a starting state; the first error
/// stops the run.
pub open spec fn run(st: EvalState, prog: Seq<CombineOperation>) -> Result<EvalState, EvalError>
    decreases prog.len(),
{
    if prog.len() == 0 {
        Ok(st)
    } else {
        match step(st, prog[0]) {
            Ok(st2) => run(st2, prog.drop_first()),
            Err(e) => Err(e),
        }
    }
}

/// The starting state for a program: wire arrays sized by the program's own
/// size hint or largest wires, zero-filled, with the full input and
/// randomness streams ahead.
pub open spec fn init_state(
    prog: Seq<CombineOperation>,
    bin: Seq<bool>,
    ain: Seq<u64>,
    brand: Seq<bool>,
    arand: Seq<u64>,
) -> EvalState {
    let counts = spec_largest_wires(prog);
    EvalState {
        bools: Seq::new(counts.1 as nat, |i: int| false),
        ariths: Seq::new(counts.0 as nat, |i: int| 0u64),
        bin,
        ain,
        brand,
        arand,
    }
}

/// What evaluating a program with the given inputs and randomness yields:
/// `Ok` exactly when every wire access stays in range, no input or
/// randomness stream runs dry, and every `AssertZero` gate sees zero.
pub open spec fn spec_evaluate(
    prog: Seq<CombineOperation>,
    bin: Seq<bool>,
    ain: Seq<u64>,
    brand: Seq<bool>,
    arand: Seq<u64>,
) -> Result<(), EvalError> {
    match run(init_state(prog, bin, ain, brand, arand), prog) {
        Ok(_) => Ok(()),
        Err(e) => Err(e),
    }
}

/// The (arithmetic, boolean) wire counts a program declares: its leading
/// size hint if it has one, otherwise one past the largest wire of each
/// domain that any gate touches.
pub open spec fn spec_largest_wires(program: Seq<CombineOperation>) -> (usize, usize) {
    match program[0] {
        CombineOperation::SizeHint(z64_cells, gf2_cells) => (z64_cells, gf2_cells),
        _ => WireCounter::spec_analyze(program).0,
    }
}

/// Get the largest (arithmetic, boolean) wires in a program so we know how
/// much memory to allocate.  Respects size hints, if present at the start of
/// the circuit.
pub fn largest_wires(program: &[CombineOperation]) -> (r: (usize, usize))
    requires
        program@.len() > 0,
        WireCounter::circuit_pre(program@),
    ensures
        r == spec_largest_wires(program@),
{
    if let CombineOperation::SizeHint(z64_cells, gf2_cells) = program[0] {
        (z64_cells, gf2_cells)
    } else {
        WireCounter::analyze(program).0
    }
}

/// Get the smallest (arithmetic, boolean) wires in a program.  Does _NOT_
/// respect size hints.
pub fn smallest_wires(program: &[CombineOperation]) -> (r: (usize, usize))
    requires
        WireCounter::circuit_pre(program@),
    ensures
        r == WireCounter::spec_analyze(program@).1,
{
    WireCounter::analyze(program).1
}

/// The value a `B2A` gate reads from a boolean wire array.
fn b2a_read(bools: &Vec<bool>, low: usize) -> (r: u64)
    ensures
        r == b2a_value(bools@, low as int),
{
    let mut val: u64 = 0;
    let mut power: u64 = 1;
    let mut i: usize = 0;
    proof {
        lemma2_to64();
    }
    while i < 64
        invariant
            0 <= i <= 64,
            val == b2a_partial(bools@, low as int, i as nat),
            i < 64 ==> power == pow2(i as nat),
        decreases 64 - i,
    {
        proof {
            lemma_b2a_partial_bound(bools@, low as int, i as nat);
            lemma_pow2_unfold((i + 1) as nat);
            if i + 1 < 64 {
                vstd::arithmetic::power2::lemma_pow2_strictly_increases((i + 1) as nat, 64nat);
            }
            lemma2_to64();
        }
        if low < bools.len() && i < bools.len() - low {
            if bools[low + i] {
                val = val + power;
            }
        }
        if i < 63 {
            power = power * 2;
        } else {
            power = 0;
        }
        i = i + 1;
    }
    val
}

/// A wire array grown to at least `target` entries, new entries filled with
/// `fill`.
fn grow_wires<A: Copy>(v: &mut Vec<A>, target: usize, fill: A)
    ensures
        final(v)@ == grown(old(v)@, target as int, fill),
{
    let ghost orig = v@;
    while v.len() < target
        invariant
            orig.len() <= v@.len(),
            v@.len() <= vstd::math::max(orig.len() as int, target as int),
            v@ =~= orig + Seq::new((v@.len() - orig.len()) as nat, |i: int| fill),
        decreases target - v@.len(),
    {
        v.push(fill);
        proof {
            assert(v@ =~= orig + Seq::new((v@.len() - orig.len()) as nat, |i: int| fill));
        }
    }
    proof {
        assert(v@ =~= grown(orig, target as int, fill));
    }
}

/// The in-progress state of one evaluation: the wire arrays and cursors into
/// the input and randomness streams.
struct Evaluator {
    bools: Vec<bool>,
    ariths: Vec<u64>,
    bin: Vec<bool>,
    ain: Vec<u64>,
    brand: Vec<bool>,
    arand: Vec<u64>,
    bi: usize,
    ai: usize,
    bri: usize,
    ari: usize,
}

impl Evaluator {
    spec fn wf(self) -> bool {
        &&& self.bi <= self.bin@.len()
        &&& self.ai <= self.ain@.len()
        &&& self.bri <= self.brand@.len()
        &&& self.ari <= self.arand@.len()
    }

    spec fn view(self) -> EvalState {
        EvalState {
            bools: self.bools@,
            ariths: self.ariths@,
            bin: self.bin@.skip(self.bi as int),
            ain: self.ain@.skip(self.ai as int),
            brand: self.brand@.skip(self.bri as int),
            arand: self.arand@.skip(self.ari as int),
        }
    }

    /// Run one boolean-domain gate.
    fn do_gf2(&mut self, op: &Operation<bool>) -> (r: Result<(), EvalError>)
        requires
            old(self).wf(),
        ensures
            final(self).wf(),
            match step_gf2(old(self).view(), *op) {
                Ok(st) => r is Ok && final(self).view() == st,
                Err(e) => r == Err::<(), EvalError>(e),
            },
    {
        proof {
            if self.bi < self.bin@.len() {
                lemma_skip_step(self.bin@, self.bi as int);
            }
            if self.bri < self.brand@.len() {
                lemma_skip_step(self.brand@, self.bri as int);
            }
        }
        match *op {
            Operation::Input(dst) => {
                if self.bi >= self.bin.len() {
                    Err(EvalError::OutOfBoolInputs)
                } else if dst >= self.bools.len() {
                    Err(EvalError::BoolWireOutOfRange)
                } else {
                    let v = self.bin[self.bi];
                    self.bools.set(dst, v);
                    self.bi = self.bi + 1;
                    Ok(())
                }
            },
            Operation::Random(dst) => {
                if self.bri >= self.brand.len() {
                    Err(EvalError::OutOfBoolRandomness)
                } else if dst >= self.bools.len() {
                    Err(EvalError::BoolWireOutOfRange)
                } else {
                    let v = self.brand[self.bri];
                    self.bools.set(dst, v);
                    self.bri = self.bri + 1;
                    Ok(())
                }
            },
            Operation::Add(dst, a, b) | Operation::Sub(dst, a, b) => {
                if a >= self.bools.len() || b >= self.bools.len() || dst >= self.bools.len() {
                    Err(EvalError::BoolWireOutOfRange)
                } else {
                    let v = self.bools[a] != self.bools[b];
                    self.bools.set(dst, v);
                    Ok(())
                }
            },
            Operation::Mul(dst, a, b) => {
                if a >= self.bools.len() || b >= self.bools.len() || dst >= self.bools.len() {
                    Err(EvalError::BoolWireOutOfRange)
                } else {
                    let v = self.bools[a] && self.bools[b];
                    self.bools.set(dst, v);
                    Ok(())
                }
            },
            Operation::AddConst(dst, a, c) | Operation::SubConst(dst, a, c) => {
                if a >= self.bools.len() || dst >= self.bools.len() {
                    Err(EvalError::BoolWireOutOfRange)
                } else {
                    let v = self.bools[a] != c;
                    self.bools.set(dst, v);
                    Ok(())
                }
            },
            Operation::MulConst(dst, a, c) => {
                if a >= self.bools.len() || dst >= self.bools.len() {
                    Err(EvalError::BoolWireOutOfRange)
                } else {
                    let v = self.bools[a] && c;
                    self.bools.set(dst, v);
                    Ok(())
                }
            },
            Operation::AssertZero(src) => {
                if src >= self.bools.len() {
                    Err(EvalError::BoolWireOutOfRange)
                } else if self.bools[src] {
                    Err(EvalError::FailedZeroAssertion)
                } else {
                    Ok(())
                }
            },
            Operation::Const(dst, c) => {
                if dst >= self.bools.len() {
                    Err(EvalError::BoolWireOutOfRange)
                } else {
                    self.bools.set(dst, c);
                    Ok(())
                }
            },
        }
    }

    /// Run one arithmetic-domain gate.
    fn do_z64(&mut self, op: &Operation<u64>) -> (r: Result<(), EvalError>)
        requires
            old(self).wf(),
        ensures
            final(self).wf(),
            match step_z64(old(self).view(), *op) {
                Ok(st) => r is Ok && final(self).view() == st,
                Err(e) => r == Err::<(), EvalError>(e),
            },
    {
        proof {
            if self.ai < self.ain@.len() {
                lemma_skip_step(self.ain@, self.ai as int);
            }
            if self.ari < self.arand@.len() {
                lemma_skip_step(self.arand@, self.ari as int);
            }
        }
        match *op {
            Operation::Input(dst) => {
                if self.ai >= self.ain.len() {
                    Err(EvalError::OutOfArithInputs)
                } else if dst >= self.ariths.len() {
                    Err(EvalError::ArithWireOutOfRange)
                } else {
                    let v = self.ain[self.ai];
                    self.ariths.set(dst, v);
                    self.ai = self.ai + 1;
                    Ok(())
                }
            },
            Operation::Random(dst) => {
                if self.ari >= self.arand.len() {
                    Err(EvalError::OutOfArithRandomness)
                } else if dst >= self.ariths.len() {
                    Err(EvalError::ArithWireOutOfRange)
                } else {
                    let v = self.arand[self.ari];
                    self.ariths.set(dst, v);
                    self.ari = self.ari + 1;
                    Ok(())
                }
            },
            Operation::Add(dst, a, b) => {
                if a >= self.ariths.len() || b >= self.ariths.len() || dst >= self.ariths.len() {
                    Err(EvalError::ArithWireOutOfRange)
                } else {
                    let v = self.ariths[a].wrapping_add(self.ariths[b]);
                    self.ariths.set(dst, v);
                    Ok(())
                }
            },
            Operation::Sub(dst, a, b) => {
                if a >= self.ariths.len() || b >= self.ariths.len() || dst >= self.ariths.len() {
                    Err(EvalError::ArithWireOutOfRange)
                } else {
                    let v = self.ariths[a].wrapping_sub(self.ariths[b]);
                    self.ariths.set(dst, v);
                    Ok(())
                }
            },
            Operation::Mul(dst, a, b) => {
                if a >= self.ariths.len() || b >= self.ariths.len() || dst >= self.ariths.len() {
                    Err(EvalError::ArithWireOutOfRange)
                } else {
                    let v = self.ariths[a].wrapping_mul(self.ariths[b]);
                    self.ariths.set(dst, v);
                    Ok(())
                }
            },
            Operation::AddConst(dst, a, c) => {
                if a >= self.ariths.len() || dst >= self.ariths.len() {
                    Err(EvalError::ArithWireOutOfRange)
                } else {
                    let v = self.ariths[a].wrapping_add(c);
                    self.ariths.set(dst, v);
                    Ok(())
                }
            },
            Operation::SubConst(dst, a, c) => {
                if a >= self.ariths.len() || dst >= self.ariths.len() {
                    Err(EvalError::ArithWireOutOfRange)
                } else {
                    let v = self.ariths[a].wrapping_sub(c);
                    self.ariths.set(dst, v);
                    Ok(())
                }
            },
            Operation::MulConst(dst, a, c) => {
                if a >= self.ariths.len() || dst >= self.ariths.len() {
                    Err(EvalError::ArithWireOutOfRange)
                } else {
                    let v = self.ariths[a].wrapping_mul(c);
                    self.ariths.set(dst, v);
                    Ok(())
                }
            },
            Operation::AssertZero(src) => {
                if src >= self.ariths.len() {
                    Err(EvalError::ArithWireOutOfRange)
                } else if self.ariths[src] != 0u64 {
                    Err(EvalError::FailedZeroAssertion)
                } else {
                    Ok(())
                }
            },
            Operation::Const(dst, c) => {
                if dst >= self.ariths.len() {
                    Err(EvalError::ArithWireOutOfRange)
                } else {
                    self.ariths.set(dst, c);
                    Ok(())
                }
            },
        }
    }

    /// Run one composite gate.
    fn do_step(&mut self, gate: &CombineOperation) -> (r: Result<(), EvalError>)
        requires
            old(self).wf(),
        ensures
            final(self).wf(),
            match step(old(self).view(), *gate) {
                Ok(st) => r is Ok && final(self).view() == st,
                Err(e) => r == Err::<(), EvalError>(e),
            },
    {
        match gate {
            CombineOperation::GF2(op) => self.do_gf2(op),
            CombineOperation::Z64(op) => self.do_z64(op),
            CombineOperation::B2A(dst, low) => {
                if *dst >= self.ariths.len() {
                    Err(EvalError::ArithWireOutOfRange)
                } else {
                    let v = b2a_read(&self.bools, *low);
                    self.ariths.set(*dst, v);
                    Ok(())
                }
            },
            CombineOperation::SizeHint(z64, gf2) => {
                grow_wires(&mut self.bools, *gf2, false);
                grow_wires(&mut self.ariths, *z64, 0u64);
                Ok(())
            },
        }
    }
}

/// Evaluates a composite program (in the clear) against explicit input and
/// randomness streams.  Returns `Ok` exactly when every wire access stays in
/// range, no stream runs dry, and every `AssertZero` gate sees zero.
pub fn evaluate_with_randomness(
    program: &[CombineOperation],
    bool_inputs: &[bool],
    arith_inputs: &[u64],
    bool_randoms: &[bool],
    arith_randoms: &[u64],
) -> (r: Result<(), EvalError>)
    requires
        program@.len() > 0,
        WireCounter::circuit_pre(program@),
    ensures
        r == spec_evaluate(program@, bool_inputs@, arith_inputs@, bool_randoms@, arith_randoms@),
{
    let (arith_wire_count, bool_wire_count) = largest_wires(program);
    let mut bools: Vec<bool> = Vec::new();
    grow_wires(&mut bools, bool_wire_count, false);
    let mut ariths: Vec<u64> = Vec::new();
    grow_wires(&mut ariths, arith_wire_count, 0u64);
    let mut ev = Evaluator {
        bools,
        ariths,
        bin: vstd::slice::slice_to_vec(bool_inputs),
        ain: vstd::slice::slice_to_vec(arith_inputs),
        brand: vstd::slice::slice_to_vec(bool_randoms),
        arand: vstd::slice::slice_to_vec(arith_randoms),
        bi: 0,
        ai: 0,
        bri: 0,
        ari: 0,
    };
    let ghost init = init_state(
        program@,
        bool_inputs@,
        arith_inputs@,
        bool_randoms@,
        arith_randoms@,
    );
    proof {
        lemma_skip_ends(bool_inputs@);
        lemma_skip_ends(arith_inputs@);
        lemma_skip_ends(bool_randoms@);
        lemma_skip_ends(arith_randoms@);
        assert(ev.view().bools =~= init.bools);
        assert(ev.view().ariths =~= init.ariths);
        assert(ev.view() == init);
        lemma_skip_ends(program@);
    }
    let mut i: usize = 0;
    while i < program.len()
        invariant
            ev.wf(),
            0 <= i <= program@.len(),
            init == init_state(program@, bool_inputs@, arith_inputs@, bool_randoms@, arith_randoms@),
            run(init, program@) == run(ev.view(), program@.skip(i as int)),
        decreases program@.len() - i,
    {
        proof {
            lemma_skip_step(program@, i as int);
        }
        let ghost pre = ev.view();
        match ev.do_step(&program[i]) {
            Ok(_) => {
                proof {
                    assert(run(pre, program@.skip(i as int)) == run(
                        ev.view(),
                        program@.skip(i as int).drop_first(),
                    ));
                }
            },
            Err(e) => {
                proof {
                    assert(run(pre, program@.skip(i as int)) == Err::<EvalState, EvalError>(e));
                }
                return Err(e);
            },
        }
        i = i + 1;
    }
    proof {
        lemma_skip_ends(program@);
    }
    Ok(())
}

/// How many boolean-domain `Random` gates a program holds.
pub open spec fn count_gf2_randoms(prog: Seq<CombineOperation>) -> nat
    decreases prog.len(),
{
    if prog.len() == 0 {
        0
    } else {
        (match prog[0] {
            CombineOperation::GF2(Operation::Random(_)) => 1nat,
            _ => 0nat,
        }) + count_gf2_randoms(prog.drop_first())
    }
}

/// How many arithmetic-domain `Random` gates a program holds.
pub open spec fn count_z64_randoms(prog: Seq<CombineOperation>) -> nat
    decreases prog.len(),
{
    if prog.len() == 0 {
        0
    } else {
        (match prog[0] {
            CombineOperation::Z64(Operation::Random(_)) => 1nat,
            _ => 0nat,
        }) + count_z64_randoms(prog.drop_first())
    }
}

proof fn lemma_count_randoms_bound(prog: Seq<CombineOperation>)
    ensures
        count_gf2_randoms(prog) <= prog.len(),
        count_z64_randoms(prog) <= prog.len(),
    decreases prog.len(),
{
    if prog.len() > 0 {
        lemma_count_randoms_bound(prog.drop_first());
    }
}

/// Evaluates a composite program (in the clear), drawing the value of each
/// `Random` gate from the thread-local generator.  The outcome is the
/// evaluation of the program under some randomness streams of the right
/// lengths; when the program has no `Random` gates the outcome is its one
/// deterministic evaluation.
pub fn evaluate_composite_program(
    program: &[CombineOperation],
    bool_inputs: &[bool],
    arith_inputs: &[u64],
) -> (r: Result<(), EvalError>)
    requires
        program@.len() > 0,
        WireCounter::circuit_pre(program@),
    ensures
        exists|brand: Seq<bool>, arand: Seq<u64>|
            {
                &&& brand.len() == count_gf2_randoms(program@)
                &&& arand.len() == count_z64_randoms(program@)
                &&& r == spec_evaluate(program@, bool_inputs@, arith_inputs@, brand, arand)
            },
        count_gf2_randoms(program@) == 0 && count_z64_randoms(program@) == 0 ==> r
            == spec_evaluate(
            program@,
            bool_inputs@,
            arith_inputs@,
            Seq::<bool>::empty(),
            Seq::<u64>::empty(),
        ),
{
    proof {
        lemma_count_randoms_bound(program@);
        lemma_skip_ends(program@);
    }
    let mut n_bool: usize = 0;
    let mut n_arith: usize = 0;
    let mut i: usize = 0;
    while i < program.len()
        invariant
            0 <= i <= program@.len(),
            count_gf2_randoms(program@) == n_bool + count_gf2_randoms(program@.skip(i as int)),
            count_z64_randoms(program@) == n_arith + count_z64_randoms(program@.skip(i as int)),
            n_bool + n_arith <= i,
        decreases program@.len() - i,
    {
        proof {
            lemma_skip_step(program@, i as int);
        }
        match &program[i] {
            CombineOperation::GF2(Operation::Random(_)) => {
                n_bool = n_bool + 1;
            },
            CombineOperation::Z64(Operation::Random(_)) => {
                n_arith = n_arith + 1;
            },
            _ => {},
        }
        i = i + 1;
    }
    proof {
        lemma_skip_ends(program@);
    }
    let mut bool_randoms: Vec<bool> = Vec::new();
    while bool_randoms.len() < n_bool
        invariant
            bool_randoms@.len() <= n_bool,
        decreases n_bool - bool_randoms@.len(),
    {
        let v: bool = rand::random();
        bool_randoms.push(v);
    }
    let mut arith_randoms: Vec<u64> = Vec::new();
    while arith_randoms.len() < n_arith
        invariant
            arith_randoms@.len() <= n_arith,
        decreases n_arith - arith_randoms@.len(),
    {
        let v: u64 = rand::random();
        arith_randoms.push(v);
    }
    let r = evaluate_with_randomness(
        program,
        bool_inputs,
        arith_inputs,
        bool_randoms.as_slice(),
        arith_randoms.as_slice(),
    );
    proof {
        assert(bool_randoms@.len() == count_gf2_randoms(program@));
        assert(arith_randoms@.len() == count_z64_randoms(program@));
        if count_gf2_randoms(program@) == 0 && count_z64_randoms(program@) == 0 {
            assert(bool_randoms@ =~= Seq::<bool>::empty());
            assert(arith_randoms@ =~= Seq::<u64>::empty());
        }
    }
    r
}

} // verus!

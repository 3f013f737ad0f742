//! Export in the Bristol Fashion boolean circuit format.

use crate::exporters::{Export, ExportError};
use crate::text::{dec_digits, usize_to_string};
use crate::{HasIO, Operation};
use vstd::prelude::*;
use vstd::string::StringExecFns;

verus! {

broadcast use vstd::std_specs::hash::group_hash_axioms;

/// The decimal text of a wire id.
pub open spec fn num(n: usize) -> Seq<char> {
    dec_digits(n as nat)
}

/// The decimal text of a boolean constant: `0` or `1`.
pub open spec fn bit01(c: bool) -> Seq<char> {
    if c {
        "1"@
    } else {
        "0"@
    }
}

/// The Bristol line of a constant gate.
pub open spec fn bristol_const_line(w: usize, c: bool) -> Seq<char> {
    "1 1 "@ + bit01(c) + " "@ + num(w) + " EQ\n"@
}

/// The Bristol line of one gate.  `XOR` serves for both addition and
/// subtraction (they agree on GF2), inversion and identity buffers encode
/// the two constant-add cases, and `Random` gates cannot be represented.
pub open spec fn spec_bristol_gate(g: Operation<bool>) -> Result<Seq<char>, ExportError> {
    match g {
        Operation::Input(w) => Ok("0 1 "@ + num(w) + " INPUT\n"@),
        Operation::Random(_) => Err(ExportError::UnsupportedGate),
        Operation::Add(o, l, r) => Ok(
            "2 1 "@ + num(l) + " "@ + num(r) + " "@ + num(o) + " XOR\n"@,
        ),
        Operation::AddConst(o, i, c) => Ok(
            if c {
                "1 1 "@ + num(i) + " "@ + num(o) + " INV\n"@
            } else {
                "1 1 "@ + num(i) + " "@ + num(o) + " EQW\n"@
            },
        ),
        Operation::Sub(o, l, r) => Ok(
            "2 1 "@ + num(l) + " "@ + num(r) + " "@ + num(o) + " XOR\n"@,
        ),
        Operation::SubConst(o, i, c) => Ok(
            if c {
                "1 1 "@ + num(i) + " "@ + num(o) + " INV\n"@
            } else {
                "1 1 "@ + num(i) + " "@ + num(o) + " EQW\n"@
            },
        ),
        Operation::Mul(o, l, r) => Ok(
            "2 1 "@ + num(l) + " "@ + num(r) + " "@ + num(o) + " AND\n"@,
        ),
        Operation::MulConst(o, i, c) => Ok(
            if c {
                "1 1 "@ + num(i) + " "@ + num(o) + " EQW\n"@
            } else {
                "1 1 0 "@ + num(o) + " EQ\n"@
            },
        ),
        Operation::AssertZero(w) => Ok("0 1 "@ + num(w) + " OUTPUT\n"@),
        Operation::Const(w, c) => Ok(bristol_const_line(w, c)),
    }
}

/// All wires one gate touches.
pub open spec fn gate_wires(g: Operation<bool>) -> Set<usize> {
    g.input_seq().to_set().union(g.output_seq().to_set())
}

/// All wires a gate list touches.
pub open spec fn wire_set(gates: Seq<Operation<bool>>) -> Set<usize>
    decreases gates.len(),
{
    if gates.len() == 0 {
        Set::empty()
    } else {
        wire_set(gates.drop_last()).union(gate_wires(gates.last()))
    }
}

/// How many assertion gates (Bristol outputs) a gate list holds.
pub open spec fn count_outputs(gates: Seq<Operation<bool>>) -> nat
    decreases gates.len(),
{
    if gates.len() == 0 {
        0
    } else {
        count_outputs(gates.drop_first()) + (match gates[0] {
            Operation::AssertZero(_) => 1nat,
            _ => 0nat,
        })
    }
}

/// `n` repetitions of the text ` 1`.
pub open spec fn rep_ones(n: nat) -> Seq<char>
    decreases n,
{
    if n == 0 {
        Seq::<char>::empty()
    } else {
        rep_ones((n - 1) as nat) + " 1"@
    }
}

/// A Bristol I/O header line: a count followed by that many 1-bit widths.
pub open spec fn ones_line(n: nat) -> Seq<char> {
    dec_digits(n) + rep_ones(n) + "\n"@
}

/// The Bristol body: one line per gate, where each `Input` gate is
/// replaced by a constant gate holding the next witness value.
pub open spec fn spec_bristol_body(gates: Seq<Operation<bool>>, wit: Seq<bool>) -> Result<
    Seq<char>,
    ExportError,
>
    decreases gates.len(),
{
    if gates.len() == 0 {
        Ok(Seq::<char>::empty())
    } else {
        match gates[0] {
            Operation::Input(o) => {
                if wit.len() == 0 {
                    Err(ExportError::WitnessTooShort)
                } else {
                    match spec_bristol_body(gates.drop_first(), wit.drop_first()) {
                        Err(e) => Err(e),
                        Ok(rest) => Ok(bristol_const_line(o, wit[0]) + rest),
                    }
                }
            },
            _ => {
                match spec_bristol_gate(gates[0]) {
                    Err(e) => Err(e),
                    Ok(line) => match spec_bristol_body(gates.drop_first(), wit) {
                        Err(e) => Err(e),
                        Ok(rest) => Ok(line + rest),
                    },
                }
            },
        }
    }
}

/// The whole Bristol circuit: a header declaring how many gates there are, the
/// distinct-wire count, the 1-bit input widths (one per witness value) and
/// the 1-bit output widths (one per assertion gate), followed by the body.
pub open spec fn spec_bristol_circuit(gates: Seq<Operation<bool>>, wit: Seq<bool>) -> Result<
    Seq<char>,
    ExportError,
> {
    match spec_bristol_body(gates, wit) {
        Err(e) => Err(e),
        Ok(body) => Ok(
            dec_digits(gates.len()) + " "@ + dec_digits(wire_set(gates).len()) + "\n"@ + ones_line(
                wit.len(),
            ) + ones_line(count_outputs(gates)) + body,
        ),
    }
}

proof fn lemma_concat_to_set(a: Seq<usize>, b: Seq<usize>)
    ensures
        (a + b).to_set() =~= a.to_set().union(b.to_set()),
{
    assert forall|x: usize| #[trigger] (a + b).to_set().contains(x) implies a.to_set().contains(x)
        || b.to_set().contains(x) by {
        let i = choose|i: int| 0 <= i < (a + b).len() && (#[trigger] (a + b)[i]) == x;
        if i < a.len() {
            assert(a[i] == x);
        } else {
            assert(b[i - a.len()] == x);
        }
    }
    assert forall|x: usize| a.to_set().contains(x) implies #[trigger] (a + b).to_set().contains(
        x,
    ) by {
        let i = choose|i: int| 0 <= i < a.len() && (#[trigger] a[i]) == x;
        assert((a + b)[i] == x);
    }
    assert forall|x: usize| b.to_set().contains(x) implies #[trigger] (a + b).to_set().contains(
        x,
    ) by {
        let i = choose|i: int| 0 <= i < b.len() && (#[trigger] b[i]) == x;
        assert((a + b)[a.len() + i] == x);
    }
}

/// The distinct wires of a gate list, collected into a hash set.
fn collect_wires(gates: &[Operation<bool>]) -> (r: std::collections::HashSet<usize>)
    ensures
        r@ == wire_set(gates@),
        vstd::std_specs::hash::spec_hash_set_len(&r) == wire_set(gates@).len(),
{
    let mut wires: std::collections::HashSet<usize> = std::collections::HashSet::new();
    let mut i: usize = 0;
    proof {
        assert(wires@ =~= wire_set(gates@.take(0)));
    }
    while i < gates.len()
        invariant
            0 <= i <= gates@.len(),
            wires@ == wire_set(gates@.take(i as int)),
        decreases gates@.len() - i,
    {
        let g = &gates[i];
        let mut ws = g.input_wires();
        let mut outs = g.output_wires();
        ws.append(&mut outs);
        let ghost base = wires@;
        let ghost wsv = ws@;
        let mut j: usize = 0;
        proof {
            assert(wires@ =~= base.union(wsv.take(0).to_set()));
        }
        while j < ws.len()
            invariant
                wsv == ws@,
                0 <= j <= wsv.len(),
                wires@ == base.union(wsv.take(j as int).to_set()),
            decreases wsv.len() - j,
        {
            let w = ws[j];
            wires.insert(w);
            proof {
                assert(wsv.take(j + 1).to_set() =~= wsv.take(j as int).to_set().insert(w)) by {
                    assert forall|x: usize| #[trigger] wsv.take(j + 1).to_set().contains(x)
                        implies wsv.take(j as int).to_set().contains(x) || x == w by {
                        let k = choose|k: int|
                            0 <= k < j + 1 && (#[trigger] wsv.take(j + 1)[k]) == x;
                        if k < j {
                            assert(wsv.take(j as int)[k] == x);
                        }
                    }
                    assert forall|x: usize| wsv.take(j as int).to_set().contains(x)
                        implies #[trigger] wsv.take(j + 1).to_set().contains(x) by {
                        let k = choose|k: int|
                            0 <= k < j && (#[trigger] wsv.take(j as int)[k]) == x;
                        assert(wsv.take(j + 1)[k] == x);
                    }
                    assert(wsv.take(j + 1)[j as int] == w);
                }
                assert(wires@ =~= base.union(wsv.take(j + 1).to_set()));
            }
            j = j + 1;
        }
        proof {
            assert(wsv.take(wsv.len() as int) =~= wsv);
            lemma_concat_to_set(gates@[i as int].input_seq(), gates@[i as int].output_seq());
            assert(gates@.take(i + 1).drop_last() =~= gates@.take(i as int));
            assert(gates@.take(i + 1).last() == gates@[i as int]);
            assert(wires@ =~= wire_set(gates@.take(i + 1)));
        }
        i = i + 1;
    }
    proof {
        assert(gates@.take(gates@.len() as int) =~= gates@);
    }
    wires
}

/// Exports a boolean gate list in the Bristol Fashion format.
pub struct BristolFashion;

impl Export<bool> for BristolFashion {
    open spec fn spec_gate(gate: Operation<bool>) -> Result<Seq<char>, ExportError> {
        spec_bristol_gate(gate)
    }

    open spec fn spec_circuit(gates: Seq<Operation<bool>>, witness: Seq<bool>) -> Result<
        Seq<char>,
        ExportError,
    > {
        spec_bristol_circuit(gates, witness)
    }

    fn export_gate(gate: &Operation<bool>) -> (r: Result<String, ExportError>) {
        match *gate {
            Operation::Input(w) => {
                let s = String::from_str("0 1 ").concat(usize_to_string(w).as_str()).concat(
                    " INPUT\n",
                );
                proof {
                    assert(s@ =~= "0 1 "@ + num(w) + " INPUT\n"@);
                }
                Ok(s)
            },
            Operation::Random(_) => Err(ExportError::UnsupportedGate),
            Operation::Add(o, l, r) | Operation::Sub(o, l, r) => {
                let s = String::from_str("2 1 ").concat(usize_to_string(l).as_str()).concat(
                    " ",
                ).concat(usize_to_string(r).as_str()).concat(" ").concat(
                    usize_to_string(o).as_str(),
                ).concat(" XOR\n");
                proof {
                    assert(s@ =~= "2 1 "@ + num(l) + " "@ + num(r) + " "@ + num(o) + " XOR\n"@);
                }
                Ok(s)
            },
            Operation::Mul(o, l, r) => {
                let s = String::from_str("2 1 ").concat(usize_to_string(l).as_str()).concat(
                    " ",
                ).concat(usize_to_string(r).as_str()).concat(" ").concat(
                    usize_to_string(o).as_str(),
                ).concat(" AND\n");
                proof {
                    assert(s@ =~= "2 1 "@ + num(l) + " "@ + num(r) + " "@ + num(o) + " AND\n"@);
                }
                Ok(s)
            },
            Operation::AddConst(o, i, c) | Operation::SubConst(o, i, c) => {
                let tail: &str = if c {
                    " INV\n"
                } else {
                    " EQW\n"
                };
                let s = String::from_str("1 1 ").concat(usize_to_string(i).as_str()).concat(
                    " ",
                ).concat(usize_to_string(o).as_str()).concat(tail);
                proof {
                    assert(s@ =~= "1 1 "@ + num(i) + " "@ + num(o) + tail@);
                }
                Ok(s)
            },
            Operation::MulConst(o, i, c) => {
                if c {
                    let s = String::from_str("1 1 ").concat(usize_to_string(i).as_str()).concat(
                        " ",
                    ).concat(usize_to_string(o).as_str()).concat(" EQW\n");
                    proof {
                        assert(s@ =~= "1 1 "@ + num(i) + " "@ + num(o) + " EQW\n"@);
                    }
                    Ok(s)
                } else {
                    let s = String::from_str("1 1 0 ").concat(usize_to_string(o).as_str()).concat(
                        " EQ\n",
                    );
                    proof {
                        assert(s@ =~= "1 1 0 "@ + num(o) + " EQ\n"@);
                    }
                    Ok(s)
                }
            },
            Operation::AssertZero(w) => {
                let s = String::from_str("0 1 ").concat(usize_to_string(w).as_str()).concat(
                    " OUTPUT\n",
                );
                proof {
                    assert(s@ =~= "0 1 "@ + num(w) + " OUTPUT\n"@);
                }
                Ok(s)
            },
            Operation::Const(w, c) => {
                let bit: &str = if c {
                    "1"
                } else {
                    "0"
                };
                let s = String::from_str("1 1 ").concat(bit).concat(" ").concat(
                    usize_to_string(w).as_str(),
                ).concat(" EQ\n");
                proof {
                    assert(s@ =~= bristol_const_line(w, c));
                }
                Ok(s)
            },
        }
    }

    fn export_circuit(gates: &[Operation<bool>], witness: &[bool]) -> (r: Result<
        String,
        ExportError,
    >) {
        let wires = collect_wires(gates);
        let mut output_count: usize = 0;
        let mut i: usize = 0;
        proof {
            assert(gates@.skip(0) =~= gates@);
        }
        while i < gates.len()
            invariant
                0 <= i <= gates@.len(),
                output_count <= i,
                count_outputs(gates@) == output_count + count_outputs(gates@.skip(i as int)),
            decreases gates@.len() - i,
        {
            proof {
                crate::util::lemma_skip_step(gates@, i as int);
            }
            match gates[i] {
                Operation::AssertZero(_) => {
                    output_count = output_count + 1;
                },
                _ => {},
            }
            i = i + 1;
        }
        proof {
            assert(gates@.skip(gates@.len() as int) =~= Seq::<Operation<bool>>::empty());
        }
        // the body first, so a gate the format cannot express fails the
        // whole export before any text is assembled
        let body = match Self::bristol_body_exec(gates, witness) {
            Err(e) => {
                return Err(e);
            },
            Ok(b) => b,
        };
        let mut header = usize_to_string(gates.len()).concat(" ").concat(
            usize_to_string(wires.len()).as_str(),
        ).concat("\n");
        proof {
            assert(header@ =~= dec_digits(gates@.len()) + " "@ + dec_digits(wire_set(gates@).len())
                + "\n"@);
        }
        let niv = Self::ones_line_exec(witness.len());
        let nov = Self::ones_line_exec(output_count);
        let s = header.concat(niv.as_str()).concat(nov.as_str()).concat(body.as_str());
        proof {
            assert(s@ =~= dec_digits(gates@.len()) + " "@ + dec_digits(wire_set(gates@).len())
                + "\n"@ + ones_line(witness@.len()) + ones_line(count_outputs(gates@))
                + body@);
        }
        Ok(s)
    }
}

impl BristolFashion {
    /// A Bristol I/O header line: a count followed by that many 1-bit
    /// widths.
    fn ones_line_exec(n: usize) -> (r: String)
        ensures
            r@ == ones_line(n as nat),
    {
        let mut s = usize_to_string(n);
        let mut i: usize = 0;
        while i < n
            invariant
                0 <= i <= n,
                s@ == dec_digits(n as nat) + rep_ones(i as nat),
            decreases n - i,
        {
            s.append(" 1");
            i = i + 1;
        }
        let r = s.concat("\n");
        proof {
            assert(r@ =~= ones_line(n as nat));
        }
        r
    }

    /// The Bristol body lines of a gate list against a witness.
    fn bristol_body_exec(gates: &[Operation<bool>], witness: &[bool]) -> (r: Result<
        String,
        ExportError,
    >)
        ensures
            match spec_bristol_body(gates@, witness@) {
                Ok(s) => r matches Ok(v) && v@ == s,
                Err(e) => r == Err::<String, ExportError>(e),
            },
    {
        let mut body = String::new();
        let mut i: usize = 0;
        let mut wi: usize = 0;
        proof {
            assert(gates@.skip(0) =~= gates@);
            assert(witness@.skip(0) =~= witness@);
        }
        while i < gates.len()
            invariant
                0 <= i <= gates@.len(),
                0 <= wi <= witness@.len(),
                spec_bristol_body(gates@, witness@) == (match spec_bristol_body(
                    gates@.skip(i as int),
                    witness@.skip(wi as int),
                ) {
                    Ok(rest) => Ok::<Seq<char>, ExportError>(body@ + rest),
                    Err(e) => Err::<Seq<char>, ExportError>(e),
                }),
            decreases gates@.len() - i,
        {
            proof {
                crate::util::lemma_skip_step(gates@, i as int);
            }
            let g = gates[i];
            match g {
                Operation::Input(o) => {
                    if wi >= witness.len() {
                        return Err(ExportError::WitnessTooShort);
                    }
                    proof {
                        crate::util::lemma_skip_step(witness@, wi as int);
                    }
                    let c = witness[wi];
                    let line = match Self::export_gate(&Operation::Const(o, c)) {
                        Ok(l) => l,
                        Err(e) => {
                            // a constant gate always renders
                            proof {
                                assert(false);
                            }
                            return Err(e);
                        },
                    };
                    let ghost pre = body@;
                    body.append(line.as_str());
                    proof {
                        match spec_bristol_body(gates@.skip(i + 1), witness@.skip(wi + 1)) {
                            Ok(rest) => {
                                assert(pre + (bristol_const_line(o, c) + rest) =~= body@ + rest);
                            },
                            Err(e) => {},
                        }
                    }
                    wi = wi + 1;
                },
                _ => {
                    let line = match Self::export_gate(&g) {
                        Ok(l) => l,
                        Err(e) => {
                            return Err(e);
                        },
                    };
                    let ghost pre = body@;
                    body.append(line.as_str());
                    proof {
                        match spec_bristol_gate(g) {
                            Ok(l) => {
                                match spec_bristol_body(
                                    gates@.skip(i + 1),
                                    witness@.skip(wi as int),
                                ) {
                                    Ok(rest) => {
                                        assert(pre + (l + rest) =~= body@ + rest);
                                    },
                                    Err(e) => {},
                                }
                            },
                            Err(e) => {},
                        }
                    }
                },
            }
            i = i + 1;
        }
        proof {
            assert(gates@.skip(gates@.len() as int) =~= Seq::<Operation<bool>>::empty());
            assert(body@ + Seq::<char>::empty() =~= body@);
        }
        Ok(body)
    }
}

} // verus!

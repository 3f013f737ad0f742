//! Export functionality for SIEVE IRs.

use crate::exporters::bristol::{bit01, num};
use crate::exporters::{Export, ExportError};
use crate::text::usize_to_string;
use crate::Operation;
use vstd::prelude::*;
use vstd::string::StringExecFns;

verus! {

/// The IR1 line of one gate.  Addition and subtraction both render as
/// `@xor` (they agree on GF2); `Random` gates cannot be represented.
pub open spec fn spec_ir1_gate(g: Operation<bool>) -> Result<Seq<char>, ExportError> {
    match g {
        Operation::Input(i) => Ok("$"@ + num(i) + " <- @short_witness;\n"@),
        Operation::Random(_) => Err(ExportError::UnsupportedGate),
        Operation::Add(o, l, r) => Ok(
            "$"@ + num(o) + " <- @xor($"@ + num(l) + ", $"@ + num(r) + ");\n"@,
        ),
        Operation::AddConst(o, i, c) => Ok(
            "$"@ + num(o) + " <- @xor($"@ + num(i) + ", < "@ + bit01(c) + " >);\n"@,
        ),
        Operation::Sub(o, l, r) => Ok(
            "$"@ + num(o) + " <- @xor($"@ + num(l) + ", $"@ + num(r) + ");\n"@,
        ),
        Operation::SubConst(o, i, c) => Ok(
            "$"@ + num(o) + " <- @xor($"@ + num(i) + ", < "@ + bit01(c) + " >);\n"@,
        ),
        Operation::Mul(o, l, r) => Ok(
            "$"@ + num(o) + " <- @and($"@ + num(l) + ", $"@ + num(r) + ");\n"@,
        ),
        Operation::MulConst(o, i, c) => Ok(
            "$"@ + num(o) + " <- @and($"@ + num(i) + ", < "@ + bit01(c) + " >);\n"@,
        ),
        Operation::AssertZero(w) => Ok("@assert_zero($"@ + num(w) + ");\n"@),
        Operation::Const(w, c) => Ok("$"@ + num(w) + " <- < "@ + bit01(c) + " >;\n"@),
    }
}

/// The IR1 witness body: one `< b >;` line per witness value.
pub open spec fn ir1_witness_lines(wit: Seq<bool>) -> Seq<char>
    decreases wit.len(),
{
    if wit.len() == 0 {
        Seq::<char>::empty()
    } else {
        "\t< "@ + bit01(wit[0]) + " >;\n"@ + ir1_witness_lines(wit.drop_first())
    }
}

/// The IR1 gate body: one line per gate, stopping at the first gate the
/// format cannot represent.
pub open spec fn ir1_gate_lines(gates: Seq<Operation<bool>>) -> Result<Seq<char>, ExportError>
    decreases gates.len(),
{
    if gates.len() == 0 {
        Ok(Seq::<char>::empty())
    } else {
        match spec_ir1_gate(gates[0]) {
            Err(e) => Err(e),
            Ok(line) => match ir1_gate_lines(gates.drop_first()) {
                Err(e) => Err(e),
                Ok(rest) => Ok(line + rest),
            },
        }
    }
}

/// The whole IR1 circuit: version and field headers, the witness body, the
/// gate set, and the circuit body.
pub open spec fn spec_ir1_circuit(gates: Seq<Operation<bool>>, wit: Seq<bool>) -> Result<
    Seq<char>,
    ExportError,
> {
    match ir1_gate_lines(gates) {
        Err(e) => Err(e),
        Ok(body) => Ok(
            "version 1.0.0;\nfield characteristic 2 degree 1;\nshort_witness @begin\n"@
                + ir1_witness_lines(wit) + "@end\ngate_set: boolean;\n@begin\n"@ + body
                + "@end\n"@,
        ),
    }
}

/// Exports a boolean gate list in the SIEVE IR1 textual format.
pub struct IR1;

impl Export<bool> for IR1 {
    open spec fn spec_gate(gate: Operation<bool>) -> Result<Seq<char>, ExportError> {
        spec_ir1_gate(gate)
    }

    open spec fn spec_circuit(gates: Seq<Operation<bool>>, witness: Seq<bool>) -> Result<
        Seq<char>,
        ExportError,
    > {
        spec_ir1_circuit(gates, witness)
    }

    fn export_gate(gate: &Operation<bool>) -> (r: Result<String, ExportError>) {
        match *gate {
            Operation::Input(i) => {
                let s = String::from_str("$").concat(usize_to_string(i).as_str()).concat(
                    " <- @short_witness;\n",
                );
                proof {
                    assert(s@ =~= "$"@ + num(i) + " <- @short_witness;\n"@);
                }
                Ok(s)
            },
            Operation::Random(_) => Err(ExportError::UnsupportedGate),
            Operation::Add(o, l, r) | Operation::Sub(o, l, r) => {
                let s = String::from_str("$").concat(usize_to_string(o).as_str()).concat(
                    " <- @xor($",
                ).concat(usize_to_string(l).as_str()).concat(", $").concat(
                    usize_to_string(r).as_str(),
                ).concat(");\n");
                proof {
                    assert(s@ =~= "$"@ + num(o) + " <- @xor($"@ + num(l) + ", $"@ + num(r)
                        + ");\n"@);
                }
                Ok(s)
            },
            Operation::AddConst(o, i, c) | Operation::SubConst(o, i, c) => {
                let bit: &str = if c {
                    "1"
                } else {
                    "0"
                };
                let s = String::from_str("$").concat(usize_to_string(o).as_str()).concat(
                    " <- @xor($",
                ).concat(usize_to_string(i).as_str()).concat(", < ").concat(bit).concat(" >);\n");
                proof {
                    assert(s@ =~= "$"@ + num(o) + " <- @xor($"@ + num(i) + ", < "@ + bit01(c)
                        + " >);\n"@);
                }
                Ok(s)
            },
            Operation::Mul(o, l, r) => {
                let s = String::from_str("$").concat(usize_to_string(o).as_str()).concat(
                    " <- @and($",
                ).concat(usize_to_string(l).as_str()).concat(", $").concat(
                    usize_to_string(r).as_str(),
                ).concat(");\n");
                proof {
                    assert(s@ =~= "$"@ + num(o) + " <- @and($"@ + num(l) + ", $"@ + num(r)
                        + ");\n"@);
                }
                Ok(s)
            },
            Operation::MulConst(o, i, c) => {
                let bit: &str = if c {
                    "1"
                } else {
                    "0"
                };
                let s = String::from_str("$").concat(usize_to_string(o).as_str()).concat(
                    " <- @and($",
                ).concat(usize_to_string(i).as_str()).concat(", < ").concat(bit).concat(" >);\n");
                proof {
                    assert(s@ =~= "$"@ + num(o) + " <- @and($"@ + num(i) + ", < "@ + bit01(c)
                        + " >);\n"@);
                }
                Ok(s)
            },
            Operation::AssertZero(w) => {
                let s = String::from_str("@assert_zero($").concat(usize_to_string(w).as_str())
                    .concat(");\n");
                proof {
                    assert(s@ =~= "@assert_zero($"@ + num(w) + ");\n"@);
                }
                Ok(s)
            },
            Operation::Const(w, c) => {
                let bit: &str = if c {
                    "1"
                } else {
                    "0"
                };
                let s = String::from_str("$").concat(usize_to_string(w).as_str()).concat(
                    " <- < ",
                ).concat(bit).concat(" >;\n");
                proof {
                    assert(s@ =~= "$"@ + num(w) + " <- < "@ + bit01(c) + " >;\n"@);
                }
                Ok(s)
            },
        }
    }

    fn export_circuit(gates: &[Operation<bool>], witness: &[bool]) -> (r: Result<
        String,
        ExportError,
    >) {
        let mut body = String::new();
        let mut i: usize = 0;
        proof {
            assert(gates@.skip(0) =~= gates@);
        }
        while i < gates.len()
            invariant
                0 <= i <= gates@.len(),
                ir1_gate_lines(gates@) == (match ir1_gate_lines(gates@.skip(i as int)) {
                    Ok(rest) => Ok::<Seq<char>, ExportError>(body@ + rest),
                    Err(e) => Err::<Seq<char>, ExportError>(e),
                }),
            decreases gates@.len() - i,
        {
            proof {
                crate::util::lemma_skip_step(gates@, i as int);
            }
            let line = match Self::export_gate(&gates[i]) {
                Err(e) => {
                    return Err(e);
                },
                Ok(l) => l,
            };
            let ghost pre = body@;
            body.append(line.as_str());
            proof {
                match spec_ir1_gate(gates@[i as int]) {
                    Ok(l) => {
                        match ir1_gate_lines(gates@.skip(i + 1)) {
                            Ok(rest) => {
                                assert(pre + (l + rest) =~= body@ + rest);
                            },
                            Err(e) => {},
                        }
                    },
                    Err(e) => {},
                }
            }
            i = i + 1;
        }
        proof {
            assert(gates@.skip(gates@.len() as int) =~= Seq::<Operation<bool>>::empty());
            assert(body@ + Seq::<char>::empty() =~= body@);
        }
        let mut wit_body = String::new();
        let mut w: usize = 0;
        proof {
            assert(witness@.skip(0) =~= witness@);
            assert(wit_body@ + ir1_witness_lines(witness@) =~= ir1_witness_lines(witness@));
        }
        while w < witness.len()
            invariant
                0 <= w <= witness@.len(),
                ir1_witness_lines(witness@) == wit_body@ + ir1_witness_lines(
                    witness@.skip(w as int),
                ),
            decreases witness@.len() - w,
        {
            proof {
                crate::util::lemma_skip_step(witness@, w as int);
            }
            let bit: &str = if witness[w] {
                "1"
            } else {
                "0"
            };
            let ghost pre = wit_body@;
            let line = String::from_str("\t< ").concat(bit).concat(" >;\n");
            wit_body.append(line.as_str());
            proof {
                assert(line@ =~= "\t< "@ + bit01(witness@[w as int]) + " >;\n"@);
                assert(pre + ("\t< "@ + bit01(witness@[w as int]) + " >;\n"@ + ir1_witness_lines(
                    witness@.skip(w + 1),
                )) =~= wit_body@ + ir1_witness_lines(witness@.skip(w + 1)));
            }
            w = w + 1;
        }
        proof {
            assert(witness@.skip(witness@.len() as int) =~= Seq::<bool>::empty());
            assert(wit_body@ + Seq::<char>::empty() =~= wit_body@);
        }
        let s = String::from_str(
            "version 1.0.0;\nfield characteristic 2 degree 1;\nshort_witness @begin\n",
        ).concat(wit_body.as_str()).concat("@end\ngate_set: boolean;\n@begin\n").concat(
            body.as_str(),
        ).concat("@end\n");
        proof {
            assert(s@
                =~= "version 1.0.0;\nfield characteristic 2 degree 1;\nshort_witness @begin\n"@
                + ir1_witness_lines(witness@) + "@end\ngate_set: boolean;\n@begin\n"@ + body@
                + "@end\n"@);
        }
        Ok(s)
    }
}

} // verus!

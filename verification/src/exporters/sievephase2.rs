//! Export functionality for SIEVE IRs.

use crate::exporters::bristol::{bit01, num};
use crate::exporters::{ExportError, Witness};
use crate::text::usize_to_string;
use crate::Operation;
use vstd::prelude::*;
use vstd::string::StringExecFns;

verus! {

/// The IR0 line of one gate, without its line end.  Subtraction renders as
/// addition (they agree on GF2); `Random` gates cannot be represented.
pub open spec fn spec_ir0_gate(g: Operation<bool>) -> Result<Seq<char>, ExportError> {
    match g {
        Operation::Input(i) => Ok("$"@ + num(i) + " <- @private();"@),
        Operation::Random(_) => Err(ExportError::UnsupportedGate),
        Operation::Add(o, l, r) => Ok(
            "$"@ + num(o) + " <- @add($"@ + num(l) + ", $"@ + num(r) + ");"@,
        ),
        Operation::AddConst(o, i, c) => Ok(
            "$"@ + num(o) + " <- @addc($"@ + num(i) + ", < "@ + bit01(c) + " >);"@,
        ),
        Operation::Sub(o, l, r) => Ok(
            "$"@ + num(o) + " <- @add($"@ + num(l) + ", $"@ + num(r) + ");"@,
        ),
        Operation::SubConst(o, i, c) => Ok(
            "$"@ + num(o) + " <- @addc($"@ + num(i) + ", < "@ + bit01(c) + " >);"@,
        ),
        Operation::Mul(o, l, r) => Ok(
            "$"@ + num(o) + " <- @mul($"@ + num(l) + ", $"@ + num(r) + ");"@,
        ),
        Operation::MulConst(o, i, c) => Ok(
            "$"@ + num(o) + " <- @mulc($"@ + num(i) + ", < "@ + bit01(c) + " >);"@,
        ),
        Operation::AssertZero(w) => Ok("@assert_zero($"@ + num(w) + ");"@),
        Operation::Const(w, c) => Ok("$"@ + num(w) + " <- < "@ + bit01(c) + " >;"@),
    }
}

/// The IR0 gate body: one line per gate, each with its line end, stopping
/// at the first gate the format cannot represent.
pub open spec fn ir0_gate_lines(gates: Seq<Operation<bool>>) -> Result<Seq<char>, ExportError>
    decreases gates.len(),
{
    if gates.len() == 0 {
        Ok(Seq::<char>::empty())
    } else {
        match spec_ir0_gate(gates[0]) {
            Err(e) => Err(e),
            Ok(line) => match ir0_gate_lines(gates.drop_first()) {
                Err(e) => Err(e),
                Ok(rest) => Ok(line + "\n"@ + rest),
            },
        }
    }
}

/// The whole IR0 circuit resource: version and type headers and a
/// body.
pub open spec fn spec_ir0_circuit(gates: Seq<Operation<bool>>) -> Result<Seq<char>, ExportError> {
    match ir0_gate_lines(gates) {
        Err(e) => Err(e),
        Ok(body) => Ok(
            "version 2.0.0-beta;\ncircuit;\n@type field 2;\n@begin\n"@ + body + "@end\n"@,
        ),
    }
}

/// The input-body lines of one witness entry: one `< b > ;` line per bit.
pub open spec fn ir0_row_lines(row: Seq<bool>) -> Seq<char>
    decreases row.len(),
{
    if row.len() == 0 {
        Seq::<char>::empty()
    } else {
        "< "@ + bit01(row[0]) + " > ;\n"@ + ir0_row_lines(row.drop_first())
    }
}

/// The input-body lines of a whole witness, entry by entry.
pub open spec fn ir0_witness_lines(rows: Seq<Seq<bool>>) -> Seq<char>
    decreases rows.len(),
{
    if rows.len() == 0 {
        Seq::<char>::empty()
    } else {
        ir0_row_lines(rows[0]) + ir0_witness_lines(rows.drop_first())
    }
}

/// A whole IR0 input resource of the given type, holding the bits of the
/// witness, if one is supplied.
pub open spec fn spec_ir0_input(rows: Option<Seq<Seq<bool>>>, input_type: Seq<char>) -> Seq<char> {
    "version 2.0.0-beta;\n"@ + input_type + ";\n@type field 2;\n@begin\n"@ + (match rows {
        Some(rows) => ir0_witness_lines(rows),
        None => Seq::<char>::empty(),
    }) + "@end\n"@
}

/// Exports a boolean gate list and its witness in the SIEVE IR0 textual
/// format, as separate circuit and input resources.
pub struct IR0;

impl IR0 {
    /// Render the circuit resource.
    pub fn export_circuit(gates: &[Operation<bool>]) -> (r: Result<String, ExportError>)
        ensures
            match spec_ir0_circuit(gates@) {
                Ok(s) => r matches Ok(v) && v@ == s,
                Err(e) => r == Err::<String, ExportError>(e),
            },
    {
        let mut body = String::new();
        let mut i: usize = 0;
        proof {
            assert(gates@.skip(0) =~= gates@);
        }
        while i < gates.len()
            invariant
                0 <= i <= gates@.len(),
                ir0_gate_lines(gates@) == (match ir0_gate_lines(gates@.skip(i as int)) {
                    Ok(rest) => Ok::<Seq<char>, ExportError>(body@ + rest),
                    Err(e) => Err::<Seq<char>, ExportError>(e),
                }),
            decreases gates@.len() - i,
        {
            proof {
                crate::util::lemma_skip_step(gates@, i as int);
            }
            let line = match Self::export_gate(&gates[i]) {
                Err(e) => {
                    return Err(e);
                },
                Ok(l) => l,
            };
            let ghost pre = body@;
            body.append(line.as_str());
            body.append("\n");
            proof {
                match spec_ir0_gate(gates@[i as int]) {
                    Ok(l) => {
                        match ir0_gate_lines(gates@.skip(i + 1)) {
                            Ok(rest) => {
                                assert(pre + (l + "\n"@ + rest) =~= body@ + rest);
                            },
                            Err(e) => {},
                        }
                    },
                    Err(e) => {},
                }
            }
            i = i + 1;
        }
        proof {
            assert(gates@.skip(gates@.len() as int) =~= Seq::<Operation<bool>>::empty());
            assert(body@ + Seq::<char>::empty() =~= body@);
        }
        let s = String::from_str("version 2.0.0-beta;\ncircuit;\n@type field 2;\n@begin\n").concat(
            body.as_str(),
        ).concat("@end\n");
        proof {
            assert(s@ =~= "version 2.0.0-beta;\ncircuit;\n@type field 2;\n@begin\n"@ + body@
                + "@end\n"@);
        }
        Ok(s)
    }

    /// Render one gate, without its line end.
    pub fn export_gate(gate: &Operation<bool>) -> (r: Result<String, ExportError>)
        ensures
            match spec_ir0_gate(*gate) {
                Ok(s) => r matches Ok(v) && v@ == s,
                Err(e) => r == Err::<String, ExportError>(e),
            },
    {
        match *gate {
            Operation::Input(i) => {
                let s = String::from_str("$").concat(usize_to_string(i).as_str()).concat(
                    " <- @private();",
                );
                proof {
                    assert(s@ =~= "$"@ + num(i) + " <- @private();"@);
                }
                Ok(s)
            },
            Operation::Random(_) => Err(ExportError::UnsupportedGate),
            Operation::Add(o, l, r) | Operation::Sub(o, l, r) => {
                let s = String::from_str("$").concat(usize_to_string(o).as_str()).concat(
                    " <- @add($",
                ).concat(usize_to_string(l).as_str()).concat(", $").concat(
                    usize_to_string(r).as_str(),
                ).concat(");");
                proof {
                    assert(s@ =~= "$"@ + num(o) + " <- @add($"@ + num(l) + ", $"@ + num(r)
                        + ");"@);
                }
                Ok(s)
            },
            Operation::AddConst(o, i, c) | Operation::SubConst(o, i, c) => {
                let bit: &str = if c {
                    "1"
                } else {
                    "0"
                };
                let s = String::from_str("$").concat(usize_to_string(o).as_str()).concat(
                    " <- @addc($",
                ).concat(usize_to_string(i).as_str()).concat(", < ").concat(bit).concat(" >);");
                proof {
                    assert(s@ =~= "$"@ + num(o) + " <- @addc($"@ + num(i) + ", < "@ + bit01(c)
                        + " >);"@);
                }
                Ok(s)
            },
            Operation::Mul(o, l, r) => {
                let s = String::from_str("$").concat(usize_to_string(o).as_str()).concat(
                    " <- @mul($",
                ).concat(usize_to_string(l).as_str()).concat(", $").concat(
                    usize_to_string(r).as_str(),
                ).concat(");");
                proof {
                    assert(s@ =~= "$"@ + num(o) + " <- @mul($"@ + num(l) + ", $"@ + num(r)
                        + ");"@);
                }
                Ok(s)
            },
            Operation::MulConst(o, i, c) => {
                let bit: &str = if c {
                    "1"
                } else {
                    "0"
                };
                let s = String::from_str("$").concat(usize_to_string(o).as_str()).concat(
                    " <- @mulc($",
                ).concat(usize_to_string(i).as_str()).concat(", < ").concat(bit).concat(" >);");
                proof {
                    assert(s@ =~= "$"@ + num(o) + " <- @mulc($"@ + num(i) + ", < "@ + bit01(c)
                        + " >);"@);
                }
                Ok(s)
            },
            Operation::AssertZero(w) => {
                let s = String::from_str("@assert_zero($").concat(usize_to_string(w).as_str())
                    .concat(");");
                proof {
                    assert(s@ =~= "@assert_zero($"@ + num(w) + ");"@);
                }
                Ok(s)
            },
            Operation::Const(w, c) => {
                let bit: &str = if c {
                    "1"
                } else {
                    "0"
                };
                let s = String::from_str("$").concat(usize_to_string(w).as_str()).concat(
                    " <- < ",
                ).concat(bit).concat(" >;");
                proof {
                    assert(s@ =~= "$"@ + num(w) + " <- < "@ + bit01(c) + " >;"@);
                }
                Ok(s)
            },
        }
    }

    /// Render one input resource of the given type.
    fn export_input<const L: usize>(witness: Option<&Witness<L>>, input_type: &str) -> (r: String)
        ensures
            ({
                let rows = match witness {
                    Some(w) => Some(w.bits()),
                    None => None::<Seq<Seq<bool>>>,
                };
                r@ == spec_ir0_input(rows, input_type@)
            }),
    {
        let mut body = String::new();
        match witness {
            None => {},
            Some(w) => {
                let ghost rows = w.bits();
                let mut i: usize = 0;
                proof {
                    assert(rows.skip(0) =~= rows);
                    assert(body@ + ir0_witness_lines(rows) =~= ir0_witness_lines(rows));
                }
                while i < w.witness.len()
                    invariant
                        rows == w.bits(),
                        0 <= i <= rows.len(),
                        ir0_witness_lines(rows) == body@ + ir0_witness_lines(rows.skip(i as int)),
                    decreases rows.len() - i,
                {
                    proof {
                        crate::util::lemma_skip_step(rows, i as int);
                        assert(rows[i as int] == w.witness@[i as int]@);
                    }
                    let ghost row = rows[i as int];
                    let mut k: usize = 0;
                    let ghost pre_row = body@;
                    proof {
                        assert(row.skip(0) =~= row);
                        assert(ir0_row_lines(row) + ir0_witness_lines(rows.skip(i + 1))
                            =~= ir0_row_lines(row.skip(0)) + ir0_witness_lines(rows.skip(i + 1)));
                    }
                    while k < L
                        invariant
                            rows == w.bits(),
                            0 <= i < rows.len(),
                            row == rows[i as int],
                            row == w.witness@[i as int]@,
                            row.len() == L,
                            0 <= k <= L,
                            ir0_witness_lines(rows) == pre_row + ir0_row_lines(row.take(k as int))
                                + ir0_row_lines(row.skip(k as int)) + ir0_witness_lines(
                                rows.skip(i + 1),
                            ),
                            body@ == pre_row + ir0_row_lines(row.take(k as int)),
                        decreases L - k,
                    {
                        proof {
                            crate::util::lemma_skip_step(row, k as int);
                        }
                        let bit: &str = if w.witness[i][k] {
                            "1"
                        } else {
                            "0"
                        };
                        let ghost pre = body@;
                        let line = String::from_str("< ").concat(bit).concat(" > ;\n");
                        body.append(line.as_str());
                        proof {
                            assert(line@ =~= "< "@ + bit01(row[k as int]) + " > ;\n"@);
                            assert(ir0_row_lines(row.take(k + 1)) =~= ir0_row_lines(
                                row.take(k as int),
                            ) + ("< "@ + bit01(row[k as int]) + " > ;\n"@)) by {
                                lemma_row_lines_snoc(row, k as int);
                            }
                        }
                        k = k + 1;
                    }
                    proof {
                        assert(row.take(L as int) =~= row);
                        assert(row.skip(L as int) =~= Seq::<bool>::empty());
                    }
                    i = i + 1;
                }
                proof {
                    assert(rows.skip(rows.len() as int) =~= Seq::<Seq<bool>>::empty());
                    assert(body@ + Seq::<char>::empty() =~= body@);
                }
            },
        }
        let s = String::from_str("version 2.0.0-beta;\n").concat(input_type).concat(
            ";\n@type field 2;\n@begin\n",
        ).concat(body.as_str()).concat("@end\n");
        proof {
            assert(s@ =~= spec_ir0_input(
                match witness {
                    Some(w) => Some(w.bits()),
                    None => None::<Seq<Seq<bool>>>,
                },
                input_type@,
            ));
        }
        s
    }

    /// Render the private-input resource holding the witness bits.
    pub fn export_private_input<const L: usize>(witness: &Witness<L>) -> (r: String)
        ensures
            r@ == spec_ir0_input(Some(witness.bits()), "private_input"@),
    {
        Self::export_input(Some(witness), "private_input")
    }

    /// Render the public-input resource, holding the instance bits if any
    /// are supplied.
    pub fn export_public_input<const L: usize>(instance: Option<&Witness<L>>) -> (r: String)
        ensures
            ({
                let rows = match instance {
                    Some(w) => Some(w.bits()),
                    None => None::<Seq<Seq<bool>>>,
                };
                r@ == spec_ir0_input(rows, "public_input"@)
            }),
    {
        Self::export_input(instance, "public_input")
    }
}

/// A row's lines grow from the back as the row is walked from the front.
proof fn lemma_row_lines_snoc(row: Seq<bool>, k: int)
    requires
        0 <= k < row.len(),
    ensures
        ir0_row_lines(row.take(k + 1)) =~= ir0_row_lines(row.take(k)) + ("< "@ + bit01(row[k])
            + " > ;\n"@),
    decreases k,
{
    if k == 0 {
        assert(row.take(1).drop_first() =~= row.take(0));
    } else {
        lemma_row_lines_snoc(row.drop_first(), k - 1);
        assert(row.take(k + 1).drop_first() =~= row.drop_first().take(k));
        assert(row.take(k).drop_first() =~= row.drop_first().take(k - 1));
    }
}

} // verus!

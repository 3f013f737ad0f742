//! Export in a JSON-lines format: one JSON object per gate, with the keys
//! in lexicographic order (`args`, `op`, `wire`).

use crate::exporters::bristol::num;
use crate::exporters::{Export, ExportError};
use crate::text::usize_to_string;
use crate::Operation;
use vstd::prelude::*;
use vstd::string::StringExecFns;

verus! {

/// The JSON text of a boolean constant.
pub open spec fn json_bool(c: bool) -> Seq<char> {
    if c {
        "true"@
    } else {
        "false"@
    }
}

/// The JSON line of one gate: an object with its argument list, operation
/// name, and output (or asserted) wire.
pub open spec fn spec_jsonl_gate(g: Operation<bool>) -> Seq<char> {
    match g {
        Operation::Input(i) => "{\"args\":[],\"op\":\"Input\",\"wire\":"@ + num(i) + "}\n"@,
        Operation::Random(r) => "{\"args\":[],\"op\":\"Random\",\"wire\":"@ + num(r) + "}\n"@,
        Operation::Add(o, l, r) => "{\"args\":["@ + num(l) + ","@ + num(r)
            + "],\"op\":\"Add\",\"wire\":"@ + num(o) + "}\n"@,
        Operation::AddConst(o, i, c) => "{\"args\":["@ + num(i) + ","@ + json_bool(c)
            + "],\"op\":\"AddConst\",\"wire\":"@ + num(o) + "}\n"@,
        Operation::Sub(o, l, r) => "{\"args\":["@ + num(l) + ","@ + num(r)
            + "],\"op\":\"Sub\",\"wire\":"@ + num(o) + "}\n"@,
        Operation::SubConst(o, i, c) => "{\"args\":["@ + num(i) + ","@ + json_bool(c)
            + "],\"op\":\"SubConst\",\"wire\":"@ + num(o) + "}\n"@,
        Operation::Mul(o, l, r) => "{\"args\":["@ + num(l) + ","@ + num(r)
            + "],\"op\":\"Mul\",\"wire\":"@ + num(o) + "}\n"@,
        Operation::MulConst(o, i, c) => "{\"args\":["@ + num(i) + ","@ + json_bool(c)
            + "],\"op\":\"MulConst\",\"wire\":"@ + num(o) + "}\n"@,
        Operation::AssertZero(w) => "{\"args\":[],\"op\":\"AssertZero\",\"wire\":"@ + num(w)
            + "}\n"@,
        Operation::Const(w, c) => "{\"args\":["@ + json_bool(c) + "],\"op\":\"Const\",\"wire\":"@
            + num(w) + "}\n"@,
    }
}

/// The whole JSON-lines body: one line per gate; the witness takes no part
/// in this format.
pub open spec fn spec_jsonl_circuit(gates: Seq<Operation<bool>>) -> Seq<char>
    decreases gates.len(),
{
    if gates.len() == 0 {
        Seq::<char>::empty()
    } else {
        spec_jsonl_gate(gates[0]) + spec_jsonl_circuit(gates.drop_first())
    }
}

/// Exports a boolean gate list as JSON lines.
pub struct JSONL;

impl Export<bool> for JSONL {
    open spec fn spec_gate(gate: Operation<bool>) -> Result<Seq<char>, ExportError> {
        Ok(spec_jsonl_gate(gate))
    }

    open spec fn spec_circuit(gates: Seq<Operation<bool>>, witness: Seq<bool>) -> Result<
        Seq<char>,
        ExportError,
    > {
        Ok(spec_jsonl_circuit(gates))
    }

    fn export_gate(gate: &Operation<bool>) -> (r: Result<String, ExportError>) {
        match *gate {
            Operation::Input(i) => {
                let s = String::from_str("{\"args\":[],\"op\":\"Input\",\"wire\":").concat(
                    usize_to_string(i).as_str(),
                ).concat("}\n");
                proof {
                    assert(s@ =~= spec_jsonl_gate(*gate));
                }
                Ok(s)
            },
            Operation::Random(w) => {
                let s = String::from_str("{\"args\":[],\"op\":\"Random\",\"wire\":").concat(
                    usize_to_string(w).as_str(),
                ).concat("}\n");
                proof {
                    assert(s@ =~= spec_jsonl_gate(*gate));
                }
                Ok(s)
            },
            Operation::Add(o, l, r) => {
                let s = String::from_str("{\"args\":[").concat(usize_to_string(l).as_str()).concat(
                    ",",
                ).concat(usize_to_string(r).as_str()).concat("],\"op\":\"Add\",\"wire\":").concat(
                    usize_to_string(o).as_str(),
                ).concat("}\n");
                proof {
                    assert(s@ =~= spec_jsonl_gate(*gate));
                }
                Ok(s)
            },
            Operation::Sub(o, l, r) => {
                let s = String::from_str("{\"args\":[").concat(usize_to_string(l).as_str()).concat(
                    ",",
                ).concat(usize_to_string(r).as_str()).concat("],\"op\":\"Sub\",\"wire\":").concat(
                    usize_to_string(o).as_str(),
                ).concat("}\n");
                proof {
                    assert(s@ =~= spec_jsonl_gate(*gate));
                }
                Ok(s)
            },
            Operation::Mul(o, l, r) => {
                let s = String::from_str("{\"args\":[").concat(usize_to_string(l).as_str()).concat(
                    ",",
                ).concat(usize_to_string(r).as_str()).concat("],\"op\":\"Mul\",\"wire\":").concat(
                    usize_to_string(o).as_str(),
                ).concat("}\n");
                proof {
                    assert(s@ =~= spec_jsonl_gate(*gate));
                }
                Ok(s)
            },
            Operation::AddConst(o, i, c) => {
                let cv: &str = if c {
                    "true"
                } else {
                    "false"
                };
                let s = String::from_str("{\"args\":[").concat(usize_to_string(i).as_str()).concat(
                    ",",
                ).concat(cv).concat("],\"op\":\"AddConst\",\"wire\":").concat(
                    usize_to_string(o).as_str(),
                ).concat("}\n");
                proof {
                    assert(s@ =~= spec_jsonl_gate(*gate));
                }
                Ok(s)
            },
            Operation::SubConst(o, i, c) => {
                let cv: &str = if c {
                    "true"
                } else {
                    "false"
                };
                let s = String::from_str("{\"args\":[").concat(usize_to_string(i).as_str()).concat(
                    ",",
                ).concat(cv).concat("],\"op\":\"SubConst\",\"wire\":").concat(
                    usize_to_string(o).as_str(),
                ).concat("}\n");
                proof {
                    assert(s@ =~= spec_jsonl_gate(*gate));
                }
                Ok(s)
            },
            Operation::MulConst(o, i, c) => {
                let cv: &str = if c {
                    "true"
                } else {
                    "false"
                };
                let s = String::from_str("{\"args\":[").concat(usize_to_string(i).as_str()).concat(
                    ",",
                ).concat(cv).concat("],\"op\":\"MulConst\",\"wire\":").concat(
                    usize_to_string(o).as_str(),
                ).concat("}\n");
                proof {
                    assert(s@ =~= spec_jsonl_gate(*gate));
                }
                Ok(s)
            },
            Operation::AssertZero(w) => {
                let s = String::from_str("{\"args\":[],\"op\":\"AssertZero\",\"wire\":").concat(
                    usize_to_string(w).as_str(),
                ).concat("}\n");
                proof {
                    assert(s@ =~= spec_jsonl_gate(*gate));
                }
                Ok(s)
            },
            Operation::Const(w, c) => {
                let cv: &str = if c {
                    "true"
                } else {
                    "false"
                };
                let s = String::from_str("{\"args\":[").concat(cv).concat(
                    "],\"op\":\"Const\",\"wire\":",
                ).concat(usize_to_string(w).as_str()).concat("}\n");
                proof {
                    assert(s@ =~= spec_jsonl_gate(*gate));
                }
                Ok(s)
            },
        }
    }

    fn export_circuit(gates: &[Operation<bool>], witness: &[bool]) -> (r: Result<
        String,
        ExportError,
    >) {
        let mut body = String::new();
        let mut i: usize = 0;
        proof {
            assert(gates@.skip(0) =~= gates@);
            assert(body@ + spec_jsonl_circuit(gates@) =~= spec_jsonl_circuit(gates@));
        }
        while i < gates.len()
            invariant
                0 <= i <= gates@.len(),
                spec_jsonl_circuit(gates@) == body@ + spec_jsonl_circuit(gates@.skip(i as int)),
            decreases gates@.len() - i,
        {
            proof {
                crate::util::lemma_skip_step(gates@, i as int);
            }
            let line = match Self::export_gate(&gates[i]) {
                Err(e) => {
                    proof {
                        assert(false);
                    }
                    return Err(e);
                },
                Ok(l) => l,
            };
            let ghost pre = body@;
            body.append(line.as_str());
            proof {
                assert(pre + (spec_jsonl_gate(gates@[i as int]) + spec_jsonl_circuit(
                    gates@.skip(i + 1),
                )) =~= body@ + spec_jsonl_circuit(gates@.skip(i + 1)));
            }
            i = i + 1;
        }
        proof {
            assert(gates@.skip(gates@.len() as int) =~= Seq::<Operation<bool>>::empty());
            assert(body@ + Seq::<char>::empty() =~= body@);
        }
        Ok(body)
    }
}

} // verus!

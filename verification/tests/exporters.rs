//! Tests for the circuit exporters.

use mcircuit::exporters::bristol::BristolFashion;
use mcircuit::exporters::jsonl::JSONL;
use mcircuit::exporters::sieve::IR1;
use mcircuit::exporters::sievephase2::IR0;
use mcircuit::exporters::{Export, ExportError, Witness};
use mcircuit::Operation;

fn example_gates() -> Vec<Operation<bool>> {
    vec![
        Operation::Input(1),
        Operation::Input(2),
        Operation::Input(3),
        Operation::Add(4, 1, 3),
        Operation::Add(5, 2, 3),
        Operation::Mul(6, 5, 4),
        Operation::AddConst(0, 6, true),
        Operation::AssertZero(0),
    ]
}

#[test]
fn bristol_print_example() {
    let result = BristolFashion::export_circuit(&example_gates(), &[false, false, true]);

    assert!(result.is_ok());
    let bf = result.unwrap();
    assert_eq!(
        bf,
        "8 7\n3 1 1 1\n1 1\n1 1 0 1 EQ\n1 1 0 2 EQ\n1 1 1 3 EQ\n2 1 1 3 4 XOR\n2 1 2 3 5 XOR\n2 1 5 4 6 AND\n1 1 6 0 INV\n0 1 0 OUTPUT\n"
    );
}

#[test]
fn sieve_print_example() {
    let result = IR1::export_circuit(&example_gates(), &[false, false, true]);

    assert!(result.is_ok());
    let bf = result.unwrap();
    assert_eq!(
        bf,
        "version 1.0.0;
field characteristic 2 degree 1;
short_witness @begin
\t< 0 >;
\t< 0 >;
\t< 1 >;
@end
gate_set: boolean;
@begin
$1 <- @short_witness;
$2 <- @short_witness;
$3 <- @short_witness;
$4 <- @xor($1, $3);
$5 <- @xor($2, $3);
$6 <- @and($5, $4);
$0 <- @xor($6, < 1 >);
@assert_zero($0);
@end
"
    );
}

#[test]
fn print_example_circuit() {
    let result = IR0::export_circuit(&example_gates());

    assert!(result.is_ok());
    let bf = result.unwrap();
    assert_eq!(
        bf,
        "version 2.0.0-beta;
circuit;
@type field 2;
@begin
$1 <- @private();
$2 <- @private();
$3 <- @private();
$4 <- @add($1, $3);
$5 <- @add($2, $3);
$6 <- @mul($5, $4);
$0 <- @addc($6, < 1 >);
@assert_zero($0);
@end
"
    );
}

#[test]
fn print_example_private_input() {
    let witness: Witness<3> = Witness {
        witness: vec![[false, false, true], [true, false, true]],
    };
    let bf = IR0::export_private_input::<3>(&witness);

    assert!(bf.ends_with("@end\n"));
    assert_eq!(
        bf,
        "version 2.0.0-beta;
private_input;
@type field 2;
@begin
< 0 > ;
< 0 > ;
< 1 > ;
< 1 > ;
< 0 > ;
< 1 > ;
@end
"
    );
}

#[test]
fn test_export_public_input_empty() {
    let bf = IR0::export_public_input::<3>(None);
    assert_eq!(
        bf,
        "version 2.0.0-beta;\npublic_input;\n@type field 2;\n@begin\n@end\n"
    );
}

#[test]
fn test_random_gates_rejected() {
    let gates = vec![Operation::<bool>::Random(3)];
    assert_eq!(
        BristolFashion::export_circuit(&gates, &[]),
        Err(ExportError::UnsupportedGate)
    );
    assert_eq!(
        IR1::export_circuit(&gates, &[]),
        Err(ExportError::UnsupportedGate)
    );
    assert_eq!(IR0::export_circuit(&gates), Err(ExportError::UnsupportedGate));
    assert_eq!(
        BristolFashion::export_gate(&Operation::Random(3)),
        Err(ExportError::UnsupportedGate)
    );
}

#[test]
fn test_witness_too_short() {
    let gates = vec![Operation::<bool>::Input(0), Operation::Input(1)];
    assert_eq!(
        BristolFashion::export_circuit(&gates, &[true]),
        Err(ExportError::WitnessTooShort)
    );
}

#[test]
fn test_jsonl_lines_are_json() {
    let gates = vec![
        Operation::Input(1),
        Operation::Random(2),
        Operation::Add(3, 1, 2),
        Operation::AddConst(4, 3, true),
        Operation::Sub(5, 4, 1),
        Operation::SubConst(6, 5, false),
        Operation::Mul(7, 6, 1),
        Operation::MulConst(8, 7, true),
        Operation::AssertZero(8),
        Operation::Const(9, false),
    ];
    let out = JSONL::export_circuit(&gates, &[]).unwrap();
    let lines: Vec<&str> = out.lines().collect();
    assert_eq!(lines.len(), gates.len());
    assert_eq!(lines[0], "{\"args\":[],\"op\":\"Input\",\"wire\":1}");
    assert_eq!(lines[3], "{\"args\":[3,true],\"op\":\"AddConst\",\"wire\":4}");
    assert_eq!(lines[9], "{\"args\":[false],\"op\":\"Const\",\"wire\":9}");
    for line in lines {
        let value: serde_json::Value = serde_json::from_str(line).unwrap();
        assert!(value.get("op").is_some());
        assert!(value.get("wire").is_some());
        assert!(value.get("args").is_some());
    }
}

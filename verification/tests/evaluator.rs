//! Tests for the in-the-clear evaluator and the witness parser.

use mcircuit::parsers::witness::{WitnessError, WitnessParser};
use mcircuit::parsers::Parse;
use mcircuit::{
    evaluate_composite_program, evaluate_with_randomness, CombineOperation, EvalError, Operation,
};

#[test]
fn test_witness_parser() {
    let lines = vec!["FUCK".to_string()];
    let mut wp: WitnessParser<4> = Parse::new(lines);
    assert_eq!(wp.next(), Some(Err(WitnessError::BadBit)));
    assert_eq!(wp.next(), None);
}

#[test]
fn test_witness_parser_bits() {
    let lines = vec!["0101".to_string(), "110".to_string()];
    let mut wp: WitnessParser<4> = Parse::new(lines);
    assert_eq!(wp.next(), Some(Ok(vec![false, true, false, true])));
    assert_eq!(wp.next(), Some(Err(WitnessError::WrongLength)));
    assert_eq!(wp.next(), None);
}

#[test]
fn test_simple_eval() {
    let circuit = vec![
        CombineOperation::GF2(Operation::Const(0, true)),
        CombineOperation::GF2(Operation::AddConst(1, 0, true)),
        CombineOperation::GF2(Operation::AssertZero(1)),
        CombineOperation::Z64(Operation::Const(0, 15)),
        CombineOperation::Z64(Operation::SubConst(1, 0, 15)),
        CombineOperation::Z64(Operation::AssertZero(1)),
    ];

    assert_eq!(evaluate_composite_program(&circuit, &[], &[]), Ok(()));
}

#[test]
fn test_failed_assertion() {
    let circuit = vec![
        CombineOperation::GF2(Operation::Const(0, true)),
        CombineOperation::GF2(Operation::AssertZero(0)),
    ];
    assert_eq!(
        evaluate_composite_program(&circuit, &[], &[]),
        Err(EvalError::FailedZeroAssertion)
    );
}

#[test]
fn test_with_inputs() {
    let circuit = vec![
        CombineOperation::GF2(Operation::Input(0)),
        CombineOperation::GF2(Operation::Input(1)),
        CombineOperation::GF2(Operation::Mul(2, 1, 0)),
        CombineOperation::GF2(Operation::AddConst(3, 2, true)),
        CombineOperation::GF2(Operation::AssertZero(3)),
        // Similar circuit in Z64
        CombineOperation::Z64(Operation::Input(0)),
        CombineOperation::Z64(Operation::Input(1)),
        CombineOperation::Z64(Operation::Mul(2, 1, 0)),
        CombineOperation::Z64(Operation::SubConst(3, 2, 14 * 15)),
        CombineOperation::Z64(Operation::AssertZero(3)),
    ];

    assert_eq!(
        evaluate_composite_program(&circuit, &[true, true], &[14, 15]),
        Ok(())
    );

    // running out of inputs is its own failure
    assert_eq!(
        evaluate_composite_program(&circuit, &[true], &[14, 15]),
        Err(EvalError::OutOfBoolInputs)
    );
}

#[test]
fn test_wrapping_arithmetic() {
    let circuit = vec![
        CombineOperation::Z64(Operation::Const(0, u64::MAX)),
        CombineOperation::Z64(Operation::AddConst(1, 0, 1)),
        CombineOperation::Z64(Operation::AssertZero(1)),
    ];
    assert_eq!(evaluate_composite_program(&circuit, &[], &[]), Ok(()));
}

#[test]
fn test_b_to_a() {
    let expected: u64 = 0b11011101;

    let mut circuit = vec![CombineOperation::SizeHint(2, 64)];
    for bit in 0..8 {
        circuit.push(CombineOperation::GF2(Operation::Const(
            bit,
            (expected & (1 << bit)) != 0,
        )));
    }
    circuit.push(CombineOperation::B2A(0, 0));
    circuit.push(CombineOperation::Z64(Operation::SubConst(1, 0, expected)));
    circuit.push(CombineOperation::Z64(Operation::AssertZero(1)));

    assert_eq!(evaluate_composite_program(&circuit, &[], &[]), Ok(()));
}

#[test]
fn test_random_gates_draw_values() {
    let circuit = vec![
        CombineOperation::GF2(Operation::Random(0)),
        CombineOperation::Z64(Operation::Random(0)),
        CombineOperation::Z64(Operation::MulConst(1, 0, 0)),
        CombineOperation::Z64(Operation::AssertZero(1)),
    ];
    assert_eq!(evaluate_composite_program(&circuit, &[], &[]), Ok(()));
}

#[test]
fn test_explicit_randomness() {
    let circuit = vec![
        CombineOperation::GF2(Operation::Random(0)),
        CombineOperation::GF2(Operation::AssertZero(0)),
    ];
    assert_eq!(
        evaluate_with_randomness(&circuit, &[], &[], &[false], &[]),
        Ok(())
    );
    assert_eq!(
        evaluate_with_randomness(&circuit, &[], &[], &[true], &[]),
        Err(EvalError::FailedZeroAssertion)
    );
    assert_eq!(
        evaluate_with_randomness(&circuit, &[], &[], &[], &[]),
        Err(EvalError::OutOfBoolRandomness)
    );
}

#[test]
fn test_wire_out_of_range() {
    // the size hint leaves wire 5 unallocated in the boolean domain
    let circuit = vec![
        CombineOperation::SizeHint(1, 2),
        CombineOperation::GF2(Operation::Const(5, true)),
    ];
    assert_eq!(
        evaluate_composite_program(&circuit, &[], &[]),
        Err(EvalError::BoolWireOutOfRange)
    );
}

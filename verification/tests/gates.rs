//! Tests for gate behaviour: I/O introspection, translation, constants,
//! identities, and wire counting.

use std::collections::HashMap;

use mcircuit::{
    largest_wires, smallest_wires, CombineOperation, HasConst, HasIO, Identity, OpType, Operation,
    Translatable, WireValue, OPERATION_VARIANT_COUNT,
};

fn random_wire() -> usize {
    rand::random::<u32>() as usize
}

fn sample_gate<T: WireValue>(idx: usize, out: usize, in1: usize, in2: usize, c: T) -> Operation<T> {
    let ins = [in1, in2];
    let outs = [out];
    Operation::construct(OpType::from_index(idx), &ins, &outs, Some(c))
}

#[test]
fn test_io_operations() {
    fn check_combine<T: WireValue>(
        gate: Operation<T>,
        collected_inputs: Vec<usize>,
        collected_outputs: Vec<usize>,
    ) where
        CombineOperation: From<Operation<T>>,
    {
        let as_combine: CombineOperation = gate.into();
        let collected_inputs_combine: Vec<usize> = as_combine.input_wires();
        let collected_outputs_combine: Vec<usize> = as_combine.output_wires();

        assert_eq!(collected_inputs, collected_inputs_combine);
        assert_eq!(collected_outputs, collected_outputs_combine);
    }

    fn do_gate_test<T: WireValue>(c: T)
    where
        CombineOperation: From<Operation<T>>,
    {
        for idx in 0..OPERATION_VARIANT_COUNT {
            let (out, in1, in2) = (random_wire(), random_wire(), random_wire());
            let gate = sample_gate(idx, out, in1, in2, c);
            let collected_inputs: Vec<usize> = gate.input_wires();
            let collected_outputs: Vec<usize> = gate.output_wires();
            let expected_inputs: Vec<usize> = match gate {
                Operation::Input(_) | Operation::Random(_) | Operation::Const(_, _) => vec![],
                Operation::Add(_, a, b) | Operation::Sub(_, a, b) | Operation::Mul(_, a, b) => {
                    vec![a, b]
                }
                Operation::AddConst(_, a, _)
                | Operation::SubConst(_, a, _)
                | Operation::MulConst(_, a, _) => vec![a],
                Operation::AssertZero(a) => vec![a],
            };
            let expected_outputs: Vec<usize> = match gate {
                Operation::AssertZero(_) => vec![],
                _ => vec![out],
            };
            assert_eq!(collected_inputs, expected_inputs);
            assert_eq!(collected_outputs, expected_outputs);
            assert_eq!(gate.dst(), expected_outputs.first().copied());

            // the arity of every shape is fixed: inputs plus outputs
            let arity = collected_inputs.len() + collected_outputs.len();
            match gate {
                Operation::Input(_) | Operation::Random(_) | Operation::Const(_, _) => {
                    assert_eq!(arity, 1)
                }
                Operation::AssertZero(_) => assert_eq!(arity, 1),
                Operation::Add(..) | Operation::Sub(..) | Operation::Mul(..) => {
                    assert_eq!(arity, 3)
                }
                Operation::AddConst(..) | Operation::SubConst(..) | Operation::MulConst(..) => {
                    assert_eq!(arity, 2)
                }
            }

            check_combine::<T>(gate, collected_inputs, collected_outputs);
        }
    }

    for _ in 0..100 {
        do_gate_test::<bool>(rand::random::<bool>());
        do_gate_test::<u64>(rand::random::<u64>());
    }
}

#[test]
fn test_io_combine_operations() {
    // GF2/Z64 are handled by the previous test
    for _ in 0..10 {
        // Test B2A
        let (out, low) = (random_wire(), random_wire());
        let gate = CombineOperation::B2A(out, low);

        let mut expected_inputs: Vec<usize> = vec![];
        for i in low..(low + 64) {
            expected_inputs.push(i);
        }
        let collected_inputs: Vec<usize> = gate.input_wires();
        let collected_outputs: Vec<usize> = gate.output_wires();
        assert_eq!(collected_inputs, expected_inputs);
        assert_eq!(collected_outputs, vec![out]);

        // the lock-step iterator agrees with the collected wires
        let mut it = gate.inputs();
        for w in &expected_inputs {
            assert_eq!(it.next(), Some(*w));
        }
        assert_eq!(it.next(), None);

        // Test SizeHint
        let gate = CombineOperation::SizeHint(out, low);
        let collected_inputs: Vec<usize> = gate.input_wires();
        let collected_outputs: Vec<usize> = gate.output_wires();
        assert_eq!(collected_inputs, vec![]);
        assert_eq!(collected_outputs, vec![]);
    }
}

#[test]
fn test_translation_operations() {
    fn do_gate_test<T: WireValue + std::fmt::Debug + PartialEq>(idx: usize, original_c: T)
    where
        CombineOperation: From<Operation<T>>,
    {
        let (original_out, original_in1, original_in2) =
            (random_wire(), random_wire(), random_wire());
        let (translated_out, translated_in1, translated_in2) =
            (random_wire(), random_wire(), random_wire());

        // Test vanilla translation
        let gate = sample_gate(idx, original_out, original_in1, original_in2, original_c);
        let translation_target = sample_gate(idx, translated_out, translated_in1, translated_in2, original_c);

        let identity = gate
            .translate(&gate.input_wires(), &gate.output_wires())
            .expect("Failed to perform identity translation");
        let translated = gate
            .translate(
                &translation_target.input_wires(),
                &translation_target.output_wires(),
            )
            .expect("Failed to perform actual translation");

        assert_eq!(gate, identity);
        assert_eq!(translation_target, translated);

        // Test hashmap translation
        let mut table: HashMap<usize, usize> = HashMap::new();
        table.insert(original_out, translated_out);
        table.insert(original_in1, translated_in1);
        table.insert(original_in2, translated_in2);
        let translated_via_hashmap = gate
            .translate_from_hashmap(table)
            .expect("Hashmap Translation Failed");

        assert_eq!(translation_target, translated_via_hashmap);

        // Test translation via function
        let incremented = sample_gate(
            idx,
            original_out + 2,
            original_in1 + 1,
            original_in2 + 1,
            original_c,
        );
        let translated_via_fn = gate
            .translate_from_fn(|x| x + 1, |x| x + 2)
            .expect("Function translation failed");

        assert_eq!(incremented, translated_via_fn);

        // Test translation as CombineOperation
        let as_combine: CombineOperation = gate.into();
        let target_as_combine: CombineOperation = translation_target.into();

        let identity_combine = as_combine
            .translate(&as_combine.input_wires(), &as_combine.output_wires())
            .unwrap();
        let translated_combine = as_combine
            .translate(
                &target_as_combine.input_wires(),
                &target_as_combine.output_wires(),
            )
            .unwrap();

        assert_eq!(as_combine, identity_combine);
        assert_eq!(target_as_combine, translated_combine);
    }

    for _ in 0..100 {
        for idx in 0..OPERATION_VARIANT_COUNT {
            do_gate_test::<bool>(idx, rand::random::<bool>());
            do_gate_test::<u64>(idx, rand::random::<u64>());
        }
    }
}

#[test]
fn test_translation_combine_operations() {
    for _ in 0..10 {
        // Test B2A
        let (out, low) = (random_wire(), random_wire());
        let (target_out, target_low) = (random_wire(), random_wire());

        let gate = CombineOperation::B2A(out, low);
        let translation_target = CombineOperation::B2A(target_out, target_low);

        let identity = gate
            .translate(&gate.input_wires(), &gate.output_wires())
            .unwrap();
        let translated = gate
            .translate(
                &translation_target.input_wires(),
                &translation_target.output_wires(),
            )
            .unwrap();

        assert_eq!(gate, identity);
        assert_eq!(translated, translation_target);

        // Test SizeHint
        let gate = CombineOperation::SizeHint(out, low);
        let translation_target = CombineOperation::SizeHint(target_out, target_low);

        let identity = gate.translate(&gate.input_wires(), &gate.output_wires());
        let translated = gate.translate(
            &translation_target.input_wires(),
            &translation_target.output_wires(),
        );

        // Size Hints should not be translatable (they should be explicitly re-created)
        assert_eq!(None, identity);
        assert_eq!(None, translated);
    }
}

#[test]
fn test_hashmap_and_fn_translation_agree() {
    // a translation table and mapper functions that agree on a value's
    // wires produce the very same translation
    for idx in 0..OPERATION_VARIANT_COUNT {
        let gate = sample_gate(idx, 10, 20, 30, 7u64);
        let mut table: HashMap<usize, usize> = HashMap::new();
        table.insert(10, 110);
        table.insert(20, 120);
        table.insert(30, 130);
        let lookup = |x: usize| *table.get(&x).unwrap_or(&x);
        let via_fn = gate.translate_from_fn(lookup, lookup);
        let via_table = gate.translate_from_hashmap(table.clone());
        assert_eq!(via_fn, via_table);
    }
}

#[test]
fn test_size_hinting() {
    let mut circuit = vec![
        CombineOperation::GF2(Operation::Input(99)),
        CombineOperation::Z64(Operation::Input(199)),
    ];

    assert_eq!((200, 100), largest_wires(&circuit));
    circuit.insert(0, CombineOperation::SizeHint(400, 300));

    assert_eq!((400, 300), largest_wires(&circuit));
    assert_eq!((199, 99), smallest_wires(&circuit));
}

#[test]
fn test_constants_and_identities() {
    assert_eq!(Operation::AddConst(4, 2, 7u64).constant(), Some(7));
    assert_eq!(Operation::SubConst(4, 2, 9u64).constant(), Some(9));
    assert_eq!(Operation::MulConst(4, 2, 3u64).constant(), Some(3));
    assert_eq!(Operation::Const(4, 5u64).constant(), Some(5));
    assert_eq!(Operation::<u64>::Add(4, 2, 3).constant(), None);
    assert_eq!(
        HasConst::<bool>::constant(&CombineOperation::GF2(Operation::Const(0, true))),
        Some(true)
    );
    assert_eq!(
        HasConst::<u64>::constant(&CombineOperation::GF2(Operation::Const(0, true))),
        None
    );

    assert!(Operation::AddConst(1, 0, 0u64).is_identity());
    assert!(Operation::SubConst(1, 0, 0u64).is_identity());
    assert!(Operation::MulConst(1, 0, 1u64).is_identity());
    assert!(!Operation::MulConst(1, 0, 0u64).is_identity());
    assert!(!Operation::AddConst(1, 0, 3u64).is_identity());
    assert!(Operation::AddConst(1, 0, false).is_identity());
    assert!(Operation::MulConst(1, 0, true).is_identity());
    assert!(!Operation::Const(1, 0u64).is_identity());

    let buf: Operation<u64> = Operation::identity(8, 9);
    assert_eq!(buf, Operation::AddConst(8, 9, 0));
    assert!(buf.is_identity());
    let buf: CombineOperation = Identity::<bool>::identity(8, 9);
    assert_eq!(buf, CombineOperation::GF2(Operation::AddConst(8, 9, false)));

    assert_eq!(true.to_le_bytes(), [1, 0, 0, 0, 0, 0, 0, 0]);
    assert_eq!(false.to_le_bytes(), [0; 8]);
    assert_eq!(
        WireValue::to_le_bytes(&0x0807060504030201u64),
        [1, 2, 3, 4, 5, 6, 7, 8]
    );
    assert!(0u64.is_zero());
    assert!(1u64.is_one());
    assert!(false.is_zero());
    assert!(true.is_one());
}

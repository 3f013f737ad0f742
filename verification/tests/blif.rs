//! Tests for the BLIF parser: line helpers, wire naming, the wire
//! registry, and whole-module parsing.

use mcircuit::parsers::blif::{
    format_wire_id, get_base_name_and_width, parse_gate, parse_io, parse_split, parse_subcircuit,
    split_wire_id, BlifCircuitDesc, BlifError, BlifParser, CanConstructVariant,
};
use mcircuit::parsers::{Parse, WireHasher};
use mcircuit::Operation;

fn tokens(line: &str) -> Vec<String> {
    line.trim().split(' ').map(|t| t.to_string()).collect()
}

#[test]
fn test_gate_parsing() {
    let line = tokens("AND A=InputA B=InputB OUT=Output");
    let (op, out, inputs) = parse_gate(&line).unwrap();
    assert_eq!(op, "AND");
    assert_eq!(out, "Output");
    assert_eq!(inputs, vec!["InputA".to_string(), "InputB".to_string()]);
}

#[test]
fn test_io_parsing() {
    let line = tokens("X[0] X[1] X[2] X[3] Y[0] Y[1] Y[2] Y[3] C_");
    let chunks = parse_io(&line);
    assert_eq!(
        chunks,
        vec![
            vec![
                "X[0]".to_string(),
                "X[1]".to_string(),
                "X[2]".to_string(),
                "X[3]".to_string()
            ],
            vec![
                "Y[0]".to_string(),
                "Y[1]".to_string(),
                "Y[2]".to_string(),
                "Y[3]".to_string()
            ],
            vec!["C_".to_string()]
        ]
    );
}

#[test]
fn test_subcircuit_parsing() {
    let line = tokens(
        "memTraceEntryEncoder address[0]=src_read_address[0] address[1]=src_read_address[1] address[2]=src_read_address[2]",
    );
    let (op, pairings) = parse_subcircuit(&line).unwrap();
    assert_eq!(op, "memTraceEntryEncoder");
    assert_eq!(
        pairings,
        vec![
            ("address[0]".to_string(), "src_read_address[0]".to_string()),
            ("address[1]".to_string(), "src_read_address[1]".to_string()),
            ("address[2]".to_string(), "src_read_address[2]".to_string()),
        ]
    );
}

#[test]
fn test_base_name_parsing() {
    assert_eq!(
        ("random".to_string(), 0),
        get_base_name_and_width("random[0]").unwrap()
    );
    assert_eq!(
        ("random".to_string(), 0),
        get_base_name_and_width("random").unwrap()
    );
    assert_eq!(
        ("random".to_string(), 7),
        get_base_name_and_width("random[7]").unwrap()
    );
    assert_eq!(
        ("foo_".to_string(), 17),
        get_base_name_and_width("foo_[17]").unwrap()
    );
    assert_eq!(
        ("std::fake::test".to_string(), 0),
        get_base_name_and_width("std::fake::test[0]").unwrap()
    );
}

#[test]
fn test_packed_wire_split() {
    assert_eq!(
        split_wire_id("foobar_PACKED_2[0]").unwrap(),
        vec!["foobar[0]".to_string(), "foobar[1]".to_string()]
    );

    assert_eq!(
        split_wire_id("foobar_PACKED_4[3]").unwrap(),
        vec![
            "foobar[12]".to_string(),
            "foobar[13]".to_string(),
            "foobar[14]".to_string(),
            "foobar[15]".to_string(),
        ]
    );
    assert_eq!(
        split_wire_id("foobar_PACKED_3").unwrap(),
        vec![
            "foobar[0]".to_string(),
            "foobar[1]".to_string(),
            "foobar[2]".to_string(),
        ]
    );

    assert_eq!(
        split_wire_id("foobar_[3]").unwrap(),
        vec!["foobar_[3]".to_string()]
    );

    assert_eq!(
        split_wire_id("foobar_PA").unwrap(),
        vec!["foobar_PA".to_string()]
    );
}

#[test]
fn test_split_and_format_helpers() {
    assert_eq!(parse_split("a=b"), Some(("a", "b")));
    assert_eq!(parse_split("a=b=c"), Some(("a", "b")));
    assert_eq!(parse_split("nodelimiter"), None);

    assert_eq!(format_wire_id("mod", "w"), Some("mod::w".to_string()));
    assert_eq!(format_wire_id("mod", "$true"), Some("$true".to_string()));
    assert_eq!(format_wire_id("mod", "$false"), Some("$false".to_string()));
    assert_eq!(format_wire_id("mod", "$undef"), None);

    // a malformed bus index is rejected rather than decoded
    assert_eq!(get_base_name_and_width("w[zzz]"), None);
    assert_eq!(get_base_name_and_width("w[3"), None);
    assert_eq!(split_wire_id("foo_PACKED_x[1]"), None);
}

#[test]
fn test_packed_width_failures() {
    // a width that is not a number, and one whose bit positions overflow
    assert_eq!(split_wire_id("a_PACKED_x"), None);
    assert_eq!(
        split_wire_id("a_PACKED_18446744073709551615[2]"),
        None
    );

    // a malformed packed name inside a module is a fatal parse error
    let lines = vec![
        ".model m".to_string(),
        ".inputs a_PACKED_x".to_string(),
        ".end".to_string(),
    ];
    let mut parser: BlifParser<bool> = Parse::new(lines);
    assert!(parser.next().is_none());
    assert_eq!(parser.parse_error(), Some(BlifError::BadWireIndex));
}

#[test]
fn test_constant_tokens() {
    assert_eq!(
        <BlifParser<bool> as CanConstructVariant<bool>>::constant_from_str("$true"),
        Ok(true)
    );
    assert_eq!(
        <BlifParser<bool> as CanConstructVariant<bool>>::constant_from_str("false"),
        Ok(false)
    );
    assert_eq!(
        <BlifParser<bool> as CanConstructVariant<bool>>::constant_from_str("2"),
        Err(BlifError::BadConstant)
    );
    assert_eq!(
        <BlifParser<u64> as CanConstructVariant<u64>>::constant_from_str("$false"),
        Ok(0)
    );
    assert_eq!(
        <BlifParser<u64> as CanConstructVariant<u64>>::constant_from_str("18446744073709551615"),
        Ok(u64::MAX)
    );
    assert_eq!(
        <BlifParser<u64> as CanConstructVariant<u64>>::constant_from_str("18446744073709551616"),
        Err(BlifError::BadConstant)
    );
    assert_eq!(
        <BlifParser<u64> as CanConstructVariant<u64>>::constant_from_str("ten"),
        Err(BlifError::BadConstant)
    );
}

#[test]
fn test_wire_hasher_dense_ids() {
    let mut hasher = WireHasher::default();

    assert_eq!(hasher.get_wire_id("foo"), 0);
    assert_eq!(hasher.get_wire_id("bar"), 1);
    assert_eq!(hasher.get_wire_id("baz"), 2);
    assert_eq!(hasher.get_wire_id("foo"), 0);
    assert_eq!(hasher.get_wire_id("baz"), 2);
    assert_eq!(hasher.get_wire_id("baz"), 2);
    assert_eq!(hasher.get_wire_id("qux"), 3);

    assert_eq!(hasher.backref(0), Some(&"foo".to_string()));
    assert_eq!(hasher.backref(3), Some(&"qux".to_string()));
    assert_eq!(hasher.backref(4), None);
}

#[test]
fn test_reserved_constant_wires() {
    // the reserved boolean literals take ids 0 and 1 as the first two calls
    let lines = vec![
        ".model empty_then_real".to_string(),
        ".end".to_string(),
    ];
    let mut parser: BlifParser<bool> = Parse::new(lines);
    assert!(parser.next().is_none());
    assert_eq!(parser.hasher.get_wire_id("$false"), 0);
    assert_eq!(parser.hasher.get_wire_id("$true"), 1);
    assert_eq!(parser.parse_error(), None);
}

#[test]
fn test_empty_module_dropped() {
    // a module with no gates, no I/O and no subcircuits yields no descriptor
    let lines = vec![".model X".to_string(), ".end".to_string()];
    let mut parser: BlifParser<bool> = Parse::new(lines);
    assert!(parser.next().is_none());
    assert_eq!(parser.parse_error(), None);

    // and a later, real module still comes through
    let lines = vec![
        ".model X".to_string(),
        ".end".to_string(),
        ".model Y".to_string(),
        ".inputs a b".to_string(),
        ".outputs c".to_string(),
        ".gate AND A=a B=b OUT=c".to_string(),
        ".end".to_string(),
    ];
    let mut parser: BlifParser<bool> = Parse::new(lines);
    let module: BlifCircuitDesc<bool> = parser.next().unwrap();
    assert_eq!(module.name, "Y");
    assert_eq!(module.inputs.len(), 2);
    assert_eq!(module.outputs.len(), 1);
    // two seeded constant gates plus the AND gate
    assert_eq!(module.gates.len(), 3);
    assert!(parser.next().is_none());
}

#[test]
fn test_simple_module_wires() {
    let lines = vec![
        ".model adder".to_string(),
        ".inputs x y".to_string(),
        ".outputs s".to_string(),
        ".gate XOR A=x B=y OUT=s".to_string(),
        ".end".to_string(),
    ];
    let mut parser: BlifParser<bool> = Parse::new(lines);
    let module = parser.next().unwrap();
    let x = parser.hasher.get_wire_id("adder::x");
    let y = parser.hasher.get_wire_id("adder::y");
    let s = parser.hasher.get_wire_id("adder::s");
    assert_eq!(module.inputs, vec![x, y]);
    assert_eq!(module.outputs, vec![s]);
    assert_eq!(
        module.gates,
        vec![
            Operation::Const(0, false),
            Operation::Const(1, true),
            Operation::Add(s, x, y),
        ]
    );
    assert!(module.validate_io().is_ok());
}

#[test]
fn test_packed_subcircuit_expansion() {
    // The top module feeds a packed 4-bit bus into a child module.  The
    // connection must expand to 4 bit connections, with the two sides
    // paired in reverse order of each other, and no gate of the top module
    // may touch a pre-expansion packed wire.
    let lines = vec![
        ".model sub".to_string(),
        ".inputs a[0] a[1] a[2] a[3]".to_string(),
        ".outputs o".to_string(),
        ".gate XOR A=a[0] B=a[1] OUT=o".to_string(),
        ".end".to_string(),
        ".model top".to_string(),
        ".inputs x_PACKED_4".to_string(),
        ".outputs y".to_string(),
        ".gate BUF A=x[0] OUT=y".to_string(),
        ".subckt sub a_PACKED_4=x_PACKED_4".to_string(),
        ".end".to_string(),
    ];
    let mut parser: BlifParser<bool> = Parse::new(lines);
    let sub = parser.next().unwrap();
    let top = parser.next().unwrap();
    assert!(parser.next().is_none());
    assert_eq!(parser.parse_error(), None);
    assert_eq!(sub.name, "sub");
    assert_eq!(top.name, "top");

    let x: Vec<usize> = (0..4)
        .map(|i| parser.hasher.get_wire_id(&format!("top::x[{}]", i)))
        .collect();
    let a: Vec<usize> = (0..4)
        .map(|i| parser.hasher.get_wire_id(&format!("sub::a[{}]", i)))
        .collect();
    let y = parser.hasher.get_wire_id("top::y");

    // the packed input expanded to the 4 bit wires, low bit first
    assert_eq!(top.inputs, x);

    // exactly 4 expanded connections, bit-reversed between the two sides
    assert_eq!(top.subcircuits.len(), 1);
    let inst = &top.subcircuits[0];
    assert_eq!(inst.name, "sub");
    assert_eq!(
        inst.connections,
        vec![(x[3], a[0]), (x[2], a[1]), (x[1], a[2]), (x[0], a[3])]
    );

    // the top module's own gates touch only expanded wires
    assert_eq!(
        top.gates,
        vec![
            Operation::Const(0, false),
            Operation::Const(1, true),
            Operation::AddConst(y, x[0], false),
        ]
    );
}

#[test]
fn test_constant_broadcast_connection() {
    // a boolean constant literal on the parent side is broadcast across
    // the packed child side instead of being a width mismatch
    let lines = vec![
        ".model top".to_string(),
        ".subckt sub a_PACKED_3=$false".to_string(),
        ".end".to_string(),
    ];
    let mut parser: BlifParser<bool> = Parse::new(lines);
    let top = parser.next().unwrap();
    let inst = &top.subcircuits[0];
    let a: Vec<usize> = (0..3)
        .map(|i| parser.hasher.get_wire_id(&format!("sub::a[{}]", i)))
        .collect();
    assert_eq!(
        inst.connections,
        vec![(0, a[0]), (0, a[1]), (0, a[2])]
    );
}

#[test]
fn test_parse_errors() {
    // an unknown opcode is fatal
    let lines = vec![
        ".model m".to_string(),
        ".gate NAND A=a B=b OUT=c".to_string(),
        ".end".to_string(),
    ];
    let mut parser: BlifParser<bool> = Parse::new(lines);
    assert!(parser.next().is_none());
    assert_eq!(parser.parse_error(), Some(BlifError::UnsupportedGate));

    // a non-constant width mismatch is fatal
    let lines = vec![
        ".model m".to_string(),
        ".subckt sub a_PACKED_4=w".to_string(),
        ".end".to_string(),
    ];
    let mut parser: BlifParser<bool> = Parse::new(lines);
    assert!(parser.next().is_none());
    assert_eq!(parser.parse_error(), Some(BlifError::WidthMismatch));

    // the reserved $undef wire is rejected
    let lines = vec![
        ".model m".to_string(),
        ".inputs $undef".to_string(),
        ".end".to_string(),
    ];
    let mut parser: BlifParser<bool> = Parse::new(lines);
    assert!(parser.next().is_none());
    assert_eq!(parser.parse_error(), Some(BlifError::UndefinedWire));
}

#[test]
fn test_add_lines_shares_registry() {
    // wires named across files share one registry, so ids stay stable
    let first = vec![
        ".model a".to_string(),
        ".inputs i".to_string(),
        ".outputs o".to_string(),
        ".gate BUF A=i OUT=o".to_string(),
        ".end".to_string(),
    ];
    let mut parser: BlifParser<bool> = Parse::new(first);
    let a = parser.next().unwrap();
    let second = vec![
        ".model b".to_string(),
        ".inputs i".to_string(),
        ".outputs o".to_string(),
        ".gate BUF A=i OUT=o".to_string(),
        ".end".to_string(),
    ];
    parser.add_lines(second);
    let b = parser.next().unwrap();
    assert_eq!(a.inputs[0], parser.hasher.get_wire_id("a::i"));
    assert_eq!(b.inputs[0], parser.hasher.get_wire_id("b::i"));
    assert!(a.inputs[0] != b.inputs[0]);
}

#[test]
fn test_validate_io_contiguity() {
    let mut desc: BlifCircuitDesc<bool> = Default::default();
    desc.inputs = vec![2, 3, 4];
    desc.outputs = vec![7, 5, 6];
    assert!(desc.validate_io().is_ok());

    desc.inputs = vec![2, 5];
    assert_eq!(
        desc.validate_io(),
        Err(BlifError::NonContiguousInputs)
    );

    desc.inputs = vec![2, 3];
    desc.outputs = vec![4, 8];
    assert_eq!(
        desc.validate_io(),
        Err(BlifError::NonContiguousOutputs)
    );
}

#[test]
fn test_arithmetic_module() {
    let lines = vec![
        ".model m".to_string(),
        ".inputs i".to_string(),
        ".outputs o".to_string(),
        ".gate ADDC A=i C=3 OUT=o".to_string(),
        ".end".to_string(),
    ];
    // constants on .gate lines are not supplied, so ADDC cannot build
    let mut parser: BlifParser<u64> = Parse::new(lines);
    assert!(parser.next().is_none());
    assert_eq!(parser.parse_error(), Some(BlifError::UnsupportedGate));

    // but plain arithmetic opcodes parse
    let lines = vec![
        ".model m".to_string(),
        ".inputs i j".to_string(),
        ".outputs o".to_string(),
        ".gate SUB A=i B=j OUT=o".to_string(),
        ".end".to_string(),
    ];
    let mut parser: BlifParser<u64> = Parse::new(lines);
    let m = parser.next().unwrap();
    let i = parser.hasher.get_wire_id("m::i");
    let j = parser.hasher.get_wire_id("m::j");
    let o = parser.hasher.get_wire_id("m::o");
    assert_eq!(
        m.gates,
        vec![
            Operation::Const(0, 0u64),
            Operation::Const(1, 1u64),
            Operation::Sub(o, i, j),
        ]
    );
}

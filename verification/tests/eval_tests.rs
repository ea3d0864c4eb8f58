use helm_core::circuit::{Circuit, CircuitError};
use helm_core::eval::run_sequential;
use helm_core::gates::{Gate, GateKind};
use helm_core::scheduler::levelize;
use helm_core::values::{EvalError, Mode, PtxtType};

fn wires(names: &[&str]) -> Vec<String> {
    names.iter().map(|s| s.to_string()).collect()
}

fn pairs(entries: &[(&str, PtxtType)]) -> Vec<(String, PtxtType)> {
    entries.iter().map(|(n, v)| (n.to_string(), *v)).collect()
}

/// A single 2-input AND gate: a & b -> out.
fn and_circuit() -> Circuit {
    Circuit {
        wire_names: wires(&["a", "b", "out"]),
        gates: vec![Gate { kind: GateKind::And, inputs: vec![0, 1], output: 2 }],
        primary_inputs: vec![0, 1],
        primary_outputs: vec![2],
    }
}

#[test]
fn and_gate_one_cycle() {
    let c = and_circuit();
    assert_eq!(c.validate(), Ok(()));
    let lv = levelize(&c).unwrap();
    let ins = pairs(&[("a", PtxtType::Bool(true)), ("b", PtxtType::Bool(false))]);
    let outs = run_sequential(&c, &lv, &ins, Mode::Bool, 1).unwrap();
    assert_eq!(outs, vec![vec![PtxtType::Bool(false)]]);
}

#[test]
fn and_gate_five_cycles_constant() {
    let c = and_circuit();
    assert_eq!(c.validate(), Ok(()));
    let lv = levelize(&c).unwrap();
    let ins = pairs(&[("a", PtxtType::Bool(true)), ("b", PtxtType::Bool(false))]);
    let outs = run_sequential(&c, &lv, &ins, Mode::Bool, 5).unwrap();
    assert_eq!(outs.len(), 5);
    for cycle in &outs {
        assert_eq!(*cycle, vec![PtxtType::Bool(false)]);
    }
}

#[test]
fn and_gate_true_inputs() {
    let c = and_circuit();
    let lv = levelize(&c).unwrap();
    let ins = pairs(&[("a", PtxtType::Bool(true)), ("b", PtxtType::Bool(true))]);
    let outs = run_sequential(&c, &lv, &ins, Mode::Bool, 1).unwrap();
    assert_eq!(outs, vec![vec![PtxtType::Bool(true)]]);
}

/// A single-bit D flip-flop whose D input is a wire held at constant 1:
/// with reset value 0 and 3 cycles, the output visible at each cycle start
/// lags the input by one cycle.
#[test]
fn dff_constant_one_three_cycles() {
    let c = Circuit {
        wire_names: wires(&["one", "q"]),
        gates: vec![Gate { kind: GateKind::Dff, inputs: vec![0], output: 1 }],
        primary_inputs: vec![0],
        primary_outputs: vec![1],
    };
    assert_eq!(c.validate(), Ok(()));
    let lv = levelize(&c).unwrap();
    let ins = pairs(&[("one", PtxtType::Bool(true))]);
    let outs = run_sequential(&c, &lv, &ins, Mode::Bool, 3).unwrap();
    assert_eq!(
        outs,
        vec![
            vec![PtxtType::Bool(false)],
            vec![PtxtType::Bool(true)],
            vec![PtxtType::Bool(true)],
        ]
    );
}

/// An 8-bit adder in u8 mode wraps: 200 + 100 = 44 (mod 256).
#[test]
fn adder_u8_wraps() {
    let c = Circuit {
        wire_names: wires(&["a", "b", "sum"]),
        gates: vec![Gate { kind: GateKind::Add, inputs: vec![0, 1], output: 2 }],
        primary_inputs: vec![0, 1],
        primary_outputs: vec![2],
    };
    assert_eq!(c.validate(), Ok(()));
    let lv = levelize(&c).unwrap();
    let ins = pairs(&[("a", PtxtType::U8(200)), ("b", PtxtType::U8(100))]);
    let outs = run_sequential(&c, &lv, &ins, Mode::U8, 1).unwrap();
    assert_eq!(outs, vec![vec![PtxtType::U8(44)]]);
}

/// A combinational cycle — a gate's output feeding its own input with no
/// register in between — is rejected at load time and never scheduled.
#[test]
fn combinational_cycle_rejected() {
    let c = Circuit {
        wire_names: wires(&["a", "g"]),
        gates: vec![Gate { kind: GateKind::And, inputs: vec![0, 1], output: 1 }],
        primary_inputs: vec![0],
        primary_outputs: vec![1],
    };
    assert_eq!(c.validate(), Err(CircuitError::CombinationalCycle));
    assert_eq!(levelize(&c), Err(CircuitError::CombinationalCycle));
}

/// An absent primary input evaluates as false in boolean mode.
#[test]
fn default_fill_boolean() {
    let c = Circuit {
        wire_names: wires(&["a", "b", "out"]),
        gates: vec![Gate { kind: GateKind::Or, inputs: vec![0, 1], output: 2 }],
        primary_inputs: vec![0, 1],
        primary_outputs: vec![2],
    };
    let lv = levelize(&c).unwrap();
    // only a is supplied; b defaults to false, so OR(true, false) = true and
    // OR(false, false) = false
    let outs =
        run_sequential(&c, &lv, &pairs(&[("a", PtxtType::Bool(true))]), Mode::Bool, 1).unwrap();
    assert_eq!(outs, vec![vec![PtxtType::Bool(true)]]);
    let outs = run_sequential(&c, &lv, &pairs(&[]), Mode::Bool, 1).unwrap();
    assert_eq!(outs, vec![vec![PtxtType::Bool(false)]]);
}

/// An absent primary input evaluates as zero in an arithmetic mode.
#[test]
fn default_fill_arithmetic() {
    let c = Circuit {
        wire_names: wires(&["a", "b", "sum"]),
        gates: vec![Gate { kind: GateKind::Add, inputs: vec![0, 1], output: 2 }],
        primary_inputs: vec![0, 1],
        primary_outputs: vec![2],
    };
    let lv = levelize(&c).unwrap();
    let outs =
        run_sequential(&c, &lv, &pairs(&[("a", PtxtType::U8(7))]), Mode::U8, 1).unwrap();
    assert_eq!(outs, vec![vec![PtxtType::U8(7)]]);
}

/// A later pair for the same input name overrides an earlier one.
#[test]
fn later_input_pair_wins() {
    let c = and_circuit();
    let lv = levelize(&c).unwrap();
    let ins = pairs(&[
        ("a", PtxtType::Bool(false)),
        ("b", PtxtType::Bool(true)),
        ("a", PtxtType::Bool(true)),
    ]);
    let outs = run_sequential(&c, &lv, &ins, Mode::Bool, 1).unwrap();
    assert_eq!(outs, vec![vec![PtxtType::Bool(true)]]);
}

/// Levelization is a pure function of the circuit: computing it twice gives
/// the same gate-to-level partition.
#[test]
fn levelize_idempotent() {
    let c = Circuit {
        wire_names: wires(&["a", "b", "c", "x", "y"]),
        gates: vec![
            Gate { kind: GateKind::And, inputs: vec![0, 1], output: 3 },
            Gate { kind: GateKind::Xor, inputs: vec![3, 2], output: 4 },
        ],
        primary_inputs: vec![0, 1, 2],
        primary_outputs: vec![4],
    };
    let first = levelize(&c).unwrap();
    let second = levelize(&c).unwrap();
    assert_eq!(first, second);
}

/// Levels are a topological order: a gate sits strictly above each gate
/// whose output it reads combinationally, and a registered producer adds no
/// ordering constraint.
#[test]
fn levels_respect_dependencies() {
    let c = Circuit {
        wire_names: wires(&["a", "b", "c", "x", "y", "q"]),
        gates: vec![
            Gate { kind: GateKind::Xor, inputs: vec![3, 2], output: 4 },
            Gate { kind: GateKind::And, inputs: vec![0, 1], output: 3 },
            Gate { kind: GateKind::Dff, inputs: vec![4], output: 5 },
        ],
        primary_inputs: vec![0, 1, 2],
        primary_outputs: vec![4],
    };
    assert_eq!(c.validate(), Ok(()));
    let lv = levelize(&c).unwrap();
    // the XOR reads the AND's output
    assert!(lv[1] < lv[0]);
    // the flip-flop reads the XOR's output
    assert!(lv[0] < lv[2]);
    assert_eq!(lv, vec![1, 0, 2]);
}

/// A registered feedback loop is fine: the register breaks the cycle.
#[test]
fn registered_feedback_accepted() {
    // q = DFF(not_q); not_q = NOT(q): a toggle flip-flop
    let c = Circuit {
        wire_names: wires(&["q", "not_q"]),
        gates: vec![
            Gate { kind: GateKind::Dff, inputs: vec![1], output: 0 },
            Gate { kind: GateKind::Not, inputs: vec![0], output: 1 },
        ],
        primary_inputs: vec![],
        primary_outputs: vec![0],
    };
    assert_eq!(c.validate(), Ok(()));
    let lv = levelize(&c).unwrap();
    let outs = run_sequential(&c, &lv, &pairs(&[]), Mode::Bool, 4).unwrap();
    assert_eq!(
        outs,
        vec![
            vec![PtxtType::Bool(false)],
            vec![PtxtType::Bool(true)],
            vec![PtxtType::Bool(false)],
            vec![PtxtType::Bool(true)],
        ]
    );
}

#[test]
fn bad_arity_rejected() {
    let c = Circuit {
        wire_names: wires(&["a", "out"]),
        gates: vec![Gate { kind: GateKind::And, inputs: vec![0], output: 1 }],
        primary_inputs: vec![0],
        primary_outputs: vec![1],
    };
    assert_eq!(c.validate(), Err(CircuitError::BadArity));
}

#[test]
fn bad_wire_index_rejected() {
    let c = Circuit {
        wire_names: wires(&["a", "out"]),
        gates: vec![Gate { kind: GateKind::Not, inputs: vec![0], output: 9 }],
        primary_inputs: vec![0],
        primary_outputs: vec![1],
    };
    assert_eq!(c.validate(), Err(CircuitError::BadWireIndex));
}

#[test]
fn duplicate_producer_rejected() {
    let c = Circuit {
        wire_names: wires(&["a", "out"]),
        gates: vec![
            Gate { kind: GateKind::Not, inputs: vec![0], output: 1 },
            Gate { kind: GateKind::Buffer, inputs: vec![0], output: 1 },
        ],
        primary_inputs: vec![0],
        primary_outputs: vec![1],
    };
    assert_eq!(c.validate(), Err(CircuitError::DuplicateProducer));
}

#[test]
fn undeclared_wire_rejected() {
    let c = Circuit {
        wire_names: wires(&["a", "dangling", "out"]),
        gates: vec![Gate { kind: GateKind::And, inputs: vec![0, 1], output: 2 }],
        primary_inputs: vec![0],
        primary_outputs: vec![2],
    };
    assert_eq!(c.validate(), Err(CircuitError::UndeclaredWire));
}

/// The run's configuration is rejected before evaluation when a supplied
/// value does not carry the run's mode.
#[test]
fn mode_mismatch_rejected() {
    let c = and_circuit();
    let lv = levelize(&c).unwrap();
    let ins = pairs(&[("a", PtxtType::U8(1)), ("b", PtxtType::Bool(false))]);
    assert_eq!(
        run_sequential(&c, &lv, &ins, Mode::Bool, 1),
        Err(EvalError::TypeMismatch)
    );
}

/// A logic gate over arithmetic wires is a type-mismatch fault.
#[test]
fn logic_gate_on_integers_faults() {
    let c = and_circuit();
    let lv = levelize(&c).unwrap();
    let ins = pairs(&[("a", PtxtType::U8(1)), ("b", PtxtType::U8(2))]);
    assert_eq!(
        run_sequential(&c, &lv, &ins, Mode::U8, 1),
        Err(EvalError::TypeMismatch)
    );
}

/// All logic gate kinds, against their truth tables.
#[test]
fn logic_gate_truth_tables() {
    let cases: Vec<(GateKind, [bool; 4])> = vec![
        (GateKind::And, [false, false, false, true]),
        (GateKind::Or, [false, true, true, true]),
        (GateKind::Xor, [false, true, true, false]),
        (GateKind::Nand, [true, true, true, false]),
        (GateKind::Nor, [true, false, false, false]),
        (GateKind::Xnor, [true, false, false, true]),
    ];
    for (kind, expect) in cases {
        let c = Circuit {
            wire_names: wires(&["a", "b", "out"]),
            gates: vec![Gate { kind, inputs: vec![0, 1], output: 2 }],
            primary_inputs: vec![0, 1],
            primary_outputs: vec![2],
        };
        let lv = levelize(&c).unwrap();
        for (i, (a, b)) in
            [(false, false), (false, true), (true, false), (true, true)].iter().enumerate()
        {
            let ins = pairs(&[("a", PtxtType::Bool(*a)), ("b", PtxtType::Bool(*b))]);
            let outs = run_sequential(&c, &lv, &ins, Mode::Bool, 1).unwrap();
            assert_eq!(outs, vec![vec![PtxtType::Bool(expect[i])]]);
        }
    }
}

/// Subtraction and multiplication wrap at the mode's width.
#[test]
fn arithmetic_wrapping() {
    for (kind, a, b, want) in [
        (GateKind::Sub, 5u8, 7u8, 254u8),
        (GateKind::Mult, 32u8, 8u8, 0u8),
        (GateKind::Add, 255u8, 1u8, 0u8),
    ] {
        let c = Circuit {
            wire_names: wires(&["a", "b", "out"]),
            gates: vec![Gate { kind, inputs: vec![0, 1], output: 2 }],
            primary_inputs: vec![0, 1],
            primary_outputs: vec![2],
        };
        let lv = levelize(&c).unwrap();
        let ins = pairs(&[("a", PtxtType::U8(a)), ("b", PtxtType::U8(b))]);
        let outs = run_sequential(&c, &lv, &ins, Mode::U8, 1).unwrap();
        assert_eq!(outs, vec![vec![PtxtType::U8(want)]]);
    }
}

/// A wider arithmetic mode: u64 addition wraps at 64 bits.
#[test]
fn adder_u64() {
    let c = Circuit {
        wire_names: wires(&["a", "b", "sum"]),
        gates: vec![Gate { kind: GateKind::Add, inputs: vec![0, 1], output: 2 }],
        primary_inputs: vec![0, 1],
        primary_outputs: vec![2],
    };
    let lv = levelize(&c).unwrap();
    let ins = pairs(&[("a", PtxtType::U64(u64::MAX)), ("b", PtxtType::U64(3))]);
    let outs = run_sequential(&c, &lv, &ins, Mode::U64, 1).unwrap();
    assert_eq!(outs, vec![vec![PtxtType::U64(2)]]);
}

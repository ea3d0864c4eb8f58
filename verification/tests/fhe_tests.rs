use helm_core::circuit::Circuit;
use helm_core::eval::run_sequential;
use helm_core::fhe::{ct_decrypt, ct_encrypt, ct_xor, new_context, run_sequential_fhe, FheType};
use helm_core::gates::{Gate, GateKind};
use helm_core::scheduler::levelize;
use helm_core::values::{EvalError, Mode, PtxtType};

fn wires(names: &[&str]) -> Vec<String> {
    names.iter().map(|s| s.to_string()).collect()
}

fn pairs(entries: &[(&str, PtxtType)]) -> Vec<(String, PtxtType)> {
    entries.iter().map(|(n, v)| (n.to_string(), *v)).collect()
}

/// Encrypt, operate homomorphically, decrypt: the wrappers really run the
/// outside library, so a wrapper that handed its argument back unchanged
/// would fail here.
#[test]
fn encrypt_operate_decrypt() {
    let ctx = new_context();
    let a = ct_encrypt(&ctx, true);
    let b = ct_encrypt(&ctx, true);
    assert!(ct_decrypt(&ctx, &a));
    let x = ct_xor(&ctx, &a, &b);
    assert!(!ct_decrypt(&ctx, &x));
}

/// The AND-gate scenario on the encrypted path: a=1, b=0 gives 0, matching
/// the plaintext run — round-trip correctness on a concrete circuit.
#[test]
fn and_gate_encrypted_matches_plaintext() {
    let c = Circuit {
        wire_names: wires(&["a", "b", "out"]),
        gates: vec![Gate { kind: GateKind::And, inputs: vec![0, 1], output: 2 }],
        primary_inputs: vec![0, 1],
        primary_outputs: vec![2],
    };
    assert_eq!(c.validate(), Ok(()));
    let lv = levelize(&c).unwrap();
    let ins = pairs(&[("a", PtxtType::Bool(true)), ("b", PtxtType::Bool(false))]);
    let plain = run_sequential(&c, &lv, &ins, Mode::Bool, 1).unwrap();
    let ctx = new_context();
    let enc = run_sequential_fhe(&ctx, &c, &lv, &ins, 1).unwrap();
    assert_eq!(enc.len(), 1);
    assert_eq!(enc[0].len(), 1);
    let dec = enc[0][0].decrypt(&ctx);
    assert_eq!(dec, PtxtType::Bool(false));
    assert_eq!(dec, plain[0][0]);
}

/// The flip-flop scenario on the encrypted path: three cycles of a DFF fed
/// a constant 1 decrypt to 0, 1, 1, matching the plaintext run.
#[test]
fn dff_encrypted_matches_plaintext() {
    let c = Circuit {
        wire_names: wires(&["one", "q"]),
        gates: vec![Gate { kind: GateKind::Dff, inputs: vec![0], output: 1 }],
        primary_inputs: vec![0],
        primary_outputs: vec![1],
    };
    let lv = levelize(&c).unwrap();
    let ins = pairs(&[("one", PtxtType::Bool(true))]);
    let plain = run_sequential(&c, &lv, &ins, Mode::Bool, 3).unwrap();
    let ctx = new_context();
    let enc = run_sequential_fhe(&ctx, &c, &lv, &ins, 3).unwrap();
    let dec: Vec<Vec<PtxtType>> =
        enc.iter().map(|cy| cy.iter().map(|v| v.decrypt(&ctx)).collect()).collect();
    assert_eq!(dec, plain);
    assert_eq!(
        dec,
        vec![
            vec![PtxtType::Bool(false)],
            vec![PtxtType::Bool(true)],
            vec![PtxtType::Bool(true)],
        ]
    );
}

fn one_gate(kind: GateKind) -> Circuit {
    Circuit {
        wire_names: wires(&["a", "b", "out"]),
        gates: vec![Gate { kind, inputs: vec![0, 1], output: 2 }],
        primary_inputs: vec![0, 1],
        primary_outputs: vec![2],
    }
}

fn run_one_encrypted(kind: GateKind, a: bool, b: bool) -> PtxtType {
    let ctx = new_context();
    let c = one_gate(kind);
    let lv = levelize(&c).unwrap();
    let ins = pairs(&[("a", PtxtType::Bool(a)), ("b", PtxtType::Bool(b))]);
    let enc = run_sequential_fhe(&ctx, &c, &lv, &ins, 1).unwrap();
    enc[0][0].decrypt(&ctx)
}

/// Each homomorphic gate kind on one distinguishing input: the encrypted
/// result must decrypt to the kind's plaintext semantics.
#[test]
fn encrypted_nand() {
    assert_eq!(run_one_encrypted(GateKind::Nand, true, true), PtxtType::Bool(false));
}

#[test]
fn encrypted_nor() {
    assert_eq!(run_one_encrypted(GateKind::Nor, false, false), PtxtType::Bool(true));
}

#[test]
fn encrypted_xnor() {
    assert_eq!(run_one_encrypted(GateKind::Xnor, true, true), PtxtType::Bool(true));
}

#[test]
fn encrypted_or() {
    assert_eq!(run_one_encrypted(GateKind::Or, false, true), PtxtType::Bool(true));
}

/// NOT inverts its encrypted bit, and BUFFER passes its bit through; both
/// run in one circuit: out = NOT(a), through = BUFFER(a).
#[test]
fn encrypted_not_and_buffer() {
    let ctx = new_context();
    let c = Circuit {
        wire_names: wires(&["a", "out", "through"]),
        gates: vec![
            Gate { kind: GateKind::Not, inputs: vec![0], output: 1 },
            Gate { kind: GateKind::Buffer, inputs: vec![0], output: 2 },
        ],
        primary_inputs: vec![0],
        primary_outputs: vec![1, 2],
    };
    let lv = levelize(&c).unwrap();
    let ins = pairs(&[("a", PtxtType::Bool(true))]);
    let enc = run_sequential_fhe(&ctx, &c, &lv, &ins, 1).unwrap();
    assert_eq!(enc[0][0].decrypt(&ctx), PtxtType::Bool(false));
    assert_eq!(enc[0][1].decrypt(&ctx), PtxtType::Bool(true));
}

/// The encrypted runner rejects a wrongly-moded input before evaluating.
#[test]
fn encrypted_run_rejects_integers() {
    let c = Circuit {
        wire_names: wires(&["a", "b", "out"]),
        gates: vec![Gate { kind: GateKind::And, inputs: vec![0, 1], output: 2 }],
        primary_inputs: vec![0, 1],
        primary_outputs: vec![2],
    };
    let lv = levelize(&c).unwrap();
    let ins = pairs(&[("a", PtxtType::U8(1))]);
    let ctx = new_context();
    match run_sequential_fhe(&ctx, &c, &lv, &ins, 1) {
        Err(e) => assert_eq!(e, EvalError::TypeMismatch),
        Ok(_) => panic!("a wrongly-moded input must be rejected"),
    }
}

/// Reading the uninitialized marker as a value is reported as a fault.
#[test]
fn decrypt_uninitialized_faults() {
    let ctx = new_context();
    let v = FheType::Uninit;
    assert_eq!(v.try_decrypt(&ctx), Err(EvalError::UninitializedWire));
    let w = FheType::encrypt(&ctx, PtxtType::Bool(true));
    assert_eq!(w.try_decrypt(&ctx), Ok(PtxtType::Bool(true)));
}

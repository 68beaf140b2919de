//! End-to-end tests of the verify-or-skip gadget over the constraint
//! system model: construction, assignment, witness generation, and
//! satisfaction checking.

use pod_gadgets::circuit::{CircuitBuilder, GadgetError, PartialWitness};
use pod_gadgets::example_innercircuit::{ExampleGadget, ExampleGadgetInput, InnerCircuit};
use pod_gadgets::field::{field_add, field_mul, field_sub, FIELD_ORDER};
use pod_gadgets::gadgets::{binary_check, selector_gate};
use pod_gadgets::sig_circuit::MessageTarget;
use pod_gadgets::sig_gadget::{PODGadgetTargets, PODInput};

/// Builds the standalone gadget, assigns one instance, runs witness
/// generation and returns (satisfied, fully_assigned).
fn run_pod(selector: u64, pk: u64, sig: u64, msg: u64) -> (bool, bool) {
    let mut builder = CircuitBuilder::new();
    let msg_targ = MessageTarget::new_virtual(&mut builder);
    let targets = PODGadgetTargets::add_targets(&mut builder, &msg_targ).unwrap();
    let mut pw = PartialWitness::new(builder.num_wires);
    pw.set_target(msg_targ.wire, msg).unwrap();
    targets
        .set_targets(&mut pw, selector, &PODInput { pk, sig })
        .unwrap();
    builder.populate(&mut pw);
    let full = pw.is_fully_assigned();
    let w = pw.complete_witness().unwrap();
    (builder.is_satisfied_by(&w), full)
}

#[test]
fn field_operations_exact_values() {
    assert_eq!(field_add(3, 4), 7);
    assert_eq!(field_add(FIELD_ORDER - 1, 1), 0);
    assert_eq!(field_sub(3, 4), FIELD_ORDER - 1);
    assert_eq!(field_sub(4, 3), 1);
    assert_eq!(field_mul(3, 4), 12);
    assert_eq!(field_mul(FIELD_ORDER - 1, FIELD_ORDER - 1), 1);
    assert_eq!(field_mul(0, FIELD_ORDER - 1), 0);
}

#[test]
fn boolean_enforcement_zero_and_one_satisfiable() {
    for b_val in [0u64, 1] {
        let mut builder = CircuitBuilder::new();
        let b = builder.add_virtual_target();
        let _bw = binary_check(&mut builder, b);
        let mut pw = PartialWitness::new(builder.num_wires);
        pw.set_target(b, b_val).unwrap();
        builder.populate(&mut pw);
        let w = pw.complete_witness().unwrap();
        assert!(builder.is_satisfied_by(&w));
    }
}

#[test]
fn boolean_enforcement_other_values_rejected() {
    for b_val in [2u64, 3, 1234567, FIELD_ORDER - 1] {
        let mut builder = CircuitBuilder::new();
        let b = builder.add_virtual_target();
        let _bw = binary_check(&mut builder, b);
        let mut pw = PartialWitness::new(builder.num_wires);
        pw.set_target(b, b_val).unwrap();
        builder.populate(&mut pw);
        let w = pw.complete_witness().unwrap();
        assert!(!builder.is_satisfied_by(&w));
    }
}

#[test]
fn selection_correctness_boolean_endpoints() {
    for (s_val, expected) in [(0u64, 7u64), (1u64, 9u64)] {
        let mut builder = CircuitBuilder::new();
        let x = builder.add_virtual_target();
        let y = builder.add_virtual_target();
        let s = builder.add_virtual_target();
        let z = selector_gate(&mut builder, x, y, s);
        let mut pw = PartialWitness::new(builder.num_wires);
        pw.set_target(x, 7).unwrap();
        pw.set_target(y, 9).unwrap();
        pw.set_target(s, s_val).unwrap();
        builder.populate(&mut pw);
        let w = pw.complete_witness().unwrap();
        assert!(builder.is_satisfied_by(&w));
        assert_eq!(w[z], expected);
    }
}

#[test]
fn selection_is_exact_linear_interpolation() {
    // A selector not in {0, 1} yields the interpolated value;
    // only a boolean constraint, absent here, forbids such selectors.
    let x_val: u64 = 1000;
    let y_val: u64 = 3;
    let s_val: u64 = 5;
    let mut builder = CircuitBuilder::new();
    let x = builder.add_virtual_target();
    let y = builder.add_virtual_target();
    let s = builder.add_virtual_target();
    let z = selector_gate(&mut builder, x, y, s);
    let mut pw = PartialWitness::new(builder.num_wires);
    pw.set_target(x, x_val).unwrap();
    pw.set_target(y, y_val).unwrap();
    pw.set_target(s, s_val).unwrap();
    builder.populate(&mut pw);
    let w = pw.complete_witness().unwrap();
    assert!(builder.is_satisfied_by(&w));
    let interpolation = field_add(x_val, field_mul(s_val, field_sub(y_val, x_val)));
    assert_eq!(w[z], interpolation);
    // x + 5 * (3 - 1000) = 1000 - 4985 = -3985 in the field.
    assert_eq!(w[z], FIELD_ORDER - 3985);
}

#[test]
fn verify_branch_sound() {
    let pk: u64 = 123456789;
    let msg: u64 = 42;
    let valid_sig = field_mul(pk, msg);
    let (sat, full) = run_pod(0, pk, valid_sig, msg);
    assert!(sat);
    assert!(full);
    let (sat_bad, full_bad) = run_pod(0, pk, valid_sig + 1, msg);
    assert!(!sat_bad);
    assert!(full_bad);
}

#[test]
fn skip_branch_independent_of_signature() {
    let pk: u64 = 987654321;
    let msg: u64 = 7;
    let valid_sig = field_mul(pk, msg);
    // Valid, invalid, and garbage signatures all satisfy with selector 1.
    let (sat_valid, _) = run_pod(1, pk, valid_sig, msg);
    assert!(sat_valid);
    let (sat_invalid, _) = run_pod(1, pk, valid_sig + 1, msg);
    assert!(sat_invalid);
    let (sat_garbage, _) = run_pod(1, pk, 0xDEADBEEF, msg);
    assert!(sat_garbage);
}

#[test]
fn non_boolean_selector_rejected() {
    let pk: u64 = 55;
    let msg: u64 = 3;
    let valid_sig = field_mul(pk, msg);
    let (sat, _) = run_pod(2, pk, valid_sig, msg);
    assert!(!sat);
}

#[test]
fn end_to_end_scenarios() {
    let pk: u64 = 31415926535;
    let msg: u64 = 2718281828;
    let valid_sig = field_mul(pk, msg);
    let invalid_sig = field_add(valid_sig, 17);
    assert!(run_pod(0, pk, valid_sig, msg).0);
    assert!(run_pod(1, pk, valid_sig, msg).0);
    assert!(!run_pod(0, pk, invalid_sig, msg).0);
    assert!(run_pod(1, pk, invalid_sig, msg).0);
}

#[test]
fn allocation_deterministic() {
    let mut builder_a = CircuitBuilder::new();
    let msg_a = MessageTarget::new_virtual(&mut builder_a);
    let targets_a = PODGadgetTargets::add_targets(&mut builder_a, &msg_a).unwrap();
    let mut builder_b = CircuitBuilder::new();
    let msg_b = MessageTarget::new_virtual(&mut builder_b);
    let targets_b = PODGadgetTargets::add_targets(&mut builder_b, &msg_b).unwrap();
    assert_eq!(builder_a.num_wires, builder_b.num_wires);
    assert_eq!(builder_a.gates, builder_b.gates);
    assert_eq!(targets_a.selector_targ, targets_b.selector_targ);
    assert_eq!(targets_a.pk_targ.wire, targets_b.pk_targ.wire);
    assert_eq!(targets_a.sig_targ.wire, targets_b.sig_targ.wire);
}

#[test]
fn assignment_complete_after_set_and_populate() {
    let (_, full) = run_pod(1, 5, 6, 7);
    assert!(full);
}

#[test]
fn missing_assignment_is_detected() {
    let mut builder = CircuitBuilder::new();
    let msg_targ = MessageTarget::new_virtual(&mut builder);
    let targets = PODGadgetTargets::add_targets(&mut builder, &msg_targ).unwrap();
    let mut pw = PartialWitness::new(builder.num_wires);
    pw.set_target(msg_targ.wire, 42).unwrap();
    // Set the selector and the key, but omit the signature.
    pw.set_target(targets.selector_targ, 1).unwrap();
    pw.set_target(targets.pk_targ.wire, 5).unwrap();
    builder.populate(&mut pw);
    assert!(!pw.is_fully_assigned());
    assert!(pw.complete_witness().is_none());
}

#[test]
fn malformed_inputs_rejected_with_typed_errors() {
    let mut builder = CircuitBuilder::new();
    let msg_targ = MessageTarget::new_virtual(&mut builder);
    let targets = PODGadgetTargets::add_targets(&mut builder, &msg_targ).unwrap();

    let mut pw = PartialWitness::new(builder.num_wires);
    let r = targets.set_targets(&mut pw, FIELD_ORDER, &PODInput { pk: 1, sig: 2 });
    assert_eq!(r, Err(GadgetError::InvalidSelector));

    let mut pw = PartialWitness::new(builder.num_wires);
    let r = targets.set_targets(&mut pw, 0, &PODInput { pk: FIELD_ORDER, sig: 2 });
    assert_eq!(r, Err(GadgetError::InvalidPublicKey));

    let mut pw = PartialWitness::new(builder.num_wires);
    let r = targets.set_targets(&mut pw, 0, &PODInput { pk: 1, sig: u64::MAX });
    assert_eq!(r, Err(GadgetError::InvalidSignature));

    let mut pw = PartialWitness::new(builder.num_wires);
    let r = targets.set_targets(&mut pw, 1, &PODInput { pk: 1, sig: 2 });
    assert_eq!(r, Ok(()));
}

#[test]
fn witness_table_rejects_reassignment_and_bad_handles() {
    let mut pw = PartialWitness::new(3);
    assert_eq!(pw.set_target(0, 11), Ok(()));
    assert_eq!(pw.set_target(0, 12), Err(GadgetError::AlreadyAssigned));
    assert_eq!(pw.set_target(0, 11), Err(GadgetError::AlreadyAssigned));
    assert_eq!(pw.set_target(3, 1), Err(GadgetError::WireOutOfRange));
    assert_eq!(pw.set_target(1, FIELD_ORDER), Err(GadgetError::NotAFieldElement));
}

#[test]
fn example_gadget_follows_external_selector() {
    for (sel_val, valid, expect_sat) in
        [(0u64, true, true), (0, false, false), (1, true, true), (1, false, true)]
    {
        let mut builder = CircuitBuilder::new();
        let msg_targ = MessageTarget::new_virtual(&mut builder);
        let sel = builder.add_virtual_target();
        let sel_bool = binary_check(&mut builder, sel);
        let targets = ExampleGadget::add_targets(&mut builder, &sel_bool, &msg_targ).unwrap();
        let pk: u64 = 77;
        let msg: u64 = 13;
        let sig = if valid { field_mul(pk, msg) } else { field_mul(pk, msg) ^ 1 };
        let mut pw = PartialWitness::new(builder.num_wires);
        pw.set_target(msg_targ.wire, msg).unwrap();
        pw.set_target(sel, sel_val).unwrap();
        ExampleGadget::set_targets(&mut pw, &targets, &ExampleGadgetInput { pk, sig }).unwrap();
        builder.populate(&mut pw);
        let w = pw.complete_witness().unwrap();
        assert_eq!(builder.is_satisfied_by(&w), expect_sat);
    }
}

#[test]
fn example_gadget_rejects_malformed_key() {
    let mut builder = CircuitBuilder::new();
    let msg_targ = MessageTarget::new_virtual(&mut builder);
    let sel = builder.add_virtual_target();
    let sel_bool = binary_check(&mut builder, sel);
    let targets = ExampleGadget::add_targets(&mut builder, &sel_bool, &msg_targ).unwrap();
    let mut pw = PartialWitness::new(builder.num_wires);
    let r = ExampleGadget::set_targets(
        &mut pw,
        &targets,
        &ExampleGadgetInput { pk: FIELD_ORDER, sig: 1 },
    );
    assert_eq!(r, Err(GadgetError::InvalidPublicKey));
}

#[test]
fn constant_wires_hold_their_constants() {
    let mut builder = CircuitBuilder::new();
    let mut pw = PartialWitness::new(builder.num_wires);
    builder.populate(&mut pw);
    let w = pw.complete_witness().unwrap();
    assert_eq!(w[builder.zero()], 0);
    assert_eq!(w[builder.one()], 1);
    assert!(builder.is_satisfied_by(&w));
}

#[test]
fn witness_of_wrong_length_never_satisfies() {
    let builder = CircuitBuilder::new();
    assert!(!builder.is_satisfied_by(&vec![0]));
    assert!(!builder.is_satisfied_by(&vec![0, 1, 2]));
    // A value outside the field cannot appear in a satisfying witness.
    assert!(!builder.is_satisfied_by(&vec![0, FIELD_ORDER]));
}

#[test]
fn boolean_wire_reports_its_wire() {
    let mut builder = CircuitBuilder::new();
    let b = builder.add_virtual_target();
    let bw = binary_check(&mut builder, b);
    assert_eq!(bw.wire(), b);
}

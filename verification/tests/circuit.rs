use ark_circom::backend::{synthesize, EvalConstraintSystem};
use ark_circom::circuit::{classify, ConstraintSystem, SynthesisError, Variable};
use ark_circom::r1cs_reader::R1CS;
use ark_circom::CircomCircuit;

fn product_circuit(witness: Option<Vec<u32>>) -> CircomCircuit {
    // five wires: constant, two public, two private; one constraint
    // wire1 * wire2 = wire3
    let r1cs = R1CS {
        num_inputs: 3,
        num_aux: 2,
        num_variables: 5,
        constraints: vec![(vec![(1, 1)], vec![(2, 1)], vec![(3, 1)])],
    };
    CircomCircuit { r1cs, witness }
}

#[test]
fn public_inputs_skip_the_constant_wire() {
    let c = product_circuit(Some(vec![1, 10, 20, 200, 7]));
    assert_eq!(c.get_public_inputs(), Some(vec![10, 20]));
}

#[test]
fn public_inputs_absent_without_witness() {
    let c = product_circuit(None);
    assert_eq!(c.get_public_inputs(), None);
}

#[test]
fn classify_partitions_the_wire_space() {
    assert_eq!(classify(0, 3), Variable::Instance(0));
    assert_eq!(classify(2, 3), Variable::Instance(2));
    assert_eq!(classify(3, 3), Variable::Witness(0));
    assert_eq!(classify(4, 3), Variable::Witness(1));
}

#[test]
fn setup_mode_allocates_placeholders_in_order() {
    let c = product_circuit(None);
    let mut cs = EvalConstraintSystem::new();
    // the one constraint holds of the placeholder assignment: 1 * 1 = 1
    c.generate_constraints(&mut cs).unwrap();
    assert_eq!(cs.instance, vec![1, 1, 1]);
    assert_eq!(cs.witness, vec![1, 1]);
    assert_eq!(cs.constraints.len(), 1);
}

#[test]
fn witness_values_are_committed_in_order() {
    let c = product_circuit(Some(vec![1, 10, 20, 200, 7]));
    let mut cs = EvalConstraintSystem::new();
    c.generate_constraints(&mut cs).unwrap();
    assert_eq!(cs.instance, vec![1, 10, 20]);
    assert_eq!(cs.witness, vec![200, 7]);
    assert_eq!(cs.constraints.len(), 1);
    let (a, b, cc) = &cs.constraints[0];
    assert_eq!(a, &vec![(Variable::Instance(1), 1)]);
    assert_eq!(b, &vec![(Variable::Instance(2), 1)]);
    assert_eq!(cc, &vec![(Variable::Witness(0), 1)]);
}

#[test]
fn violated_constraint_is_rejected_by_the_backend() {
    let c = product_circuit(Some(vec![1, 10, 20, 201, 7]));
    let mut cs = EvalConstraintSystem::new();
    assert_eq!(c.generate_constraints(&mut cs), Err(SynthesisError::Unsatisfiable));
}

#[test]
fn out_of_range_wire_is_an_assignment_error() {
    let r1cs = R1CS {
        num_inputs: 3,
        num_aux: 2,
        num_variables: 5,
        constraints: vec![(vec![(1, 1)], vec![(2, 1)], vec![(10, 1)])],
    };
    let c = CircomCircuit { r1cs, witness: Some(vec![1, 10, 20, 200, 7]) };
    let mut cs = EvalConstraintSystem::new();
    assert_eq!(c.generate_constraints(&mut cs), Err(SynthesisError::AssignmentMissing));
}

#[test]
fn duplicate_terms_accumulate_additively() {
    // (wire1 + wire1) * wire2 = wire3 with 2 * 3 * 2 = 12
    let r1cs = R1CS {
        num_inputs: 2,
        num_aux: 2,
        num_variables: 4,
        constraints: vec![(vec![(1, 1), (1, 1)], vec![(2, 1)], vec![(3, 1)])],
    };
    let c = CircomCircuit { r1cs, witness: Some(vec![1, 3, 2, 12]) };
    let mut cs = EvalConstraintSystem::new();
    c.generate_constraints(&mut cs).unwrap();
    assert_eq!(cs.constraints.len(), 1);
}

#[test]
fn evaluation_is_modular() {
    // wire1 * wire2 = wire3 over the field: (2^31 - 2) * 2 = 2^31 - 3,
    // since 2^31 - 2 is minus one and twice that is minus two
    let r1cs = R1CS {
        num_inputs: 3,
        num_aux: 1,
        num_variables: 4,
        constraints: vec![(vec![(1, 1)], vec![(2, 1)], vec![(3, 1)])],
    };
    let c = CircomCircuit { r1cs, witness: Some(vec![1, 0x7fff_fffe, 2, 0x7fff_fffd]) };
    let mut cs = EvalConstraintSystem::new();
    c.generate_constraints(&mut cs).unwrap();
}

#[test]
fn empty_circuit_synthesizes_trivially() {
    let r1cs = R1CS { num_inputs: 1, num_aux: 0, num_variables: 1, constraints: vec![] };
    let c = CircomCircuit { r1cs, witness: None };
    let mut cs = EvalConstraintSystem::new();
    c.generate_constraints(&mut cs).unwrap();
    assert_eq!(cs.instance, vec![1]);
    assert_eq!(cs.witness, Vec::<u32>::new());
    assert_eq!(cs.constraints.len(), 0);
}

#[test]
fn backend_allocation_never_fails() {
    let mut cs = EvalConstraintSystem::new();
    cs.new_input_variable(5).unwrap();
    cs.new_witness_variable(6).unwrap();
    assert_eq!(cs.instance, vec![1, 5]);
    assert_eq!(cs.witness, vec![6]);
}

#[test]
fn synthesize_accepts_a_satisfied_circuit() {
    let cs = synthesize(product_circuit(Some(vec![1, 10, 20, 200, 7]))).unwrap();
    assert_eq!(cs.instance, vec![1, 10, 20]);
    assert_eq!(cs.witness, vec![200, 7]);
    assert_eq!(cs.constraints.len(), 1);
}

#[test]
fn synthesize_rejects_a_violated_circuit() {
    assert!(matches!(
        synthesize(product_circuit(Some(vec![1, 10, 20, 201, 7]))),
        Err(SynthesisError::Unsatisfiable)
    ));
}

#[test]
fn synthesize_rejects_an_out_of_range_wire() {
    let r1cs = R1CS {
        num_inputs: 3,
        num_aux: 2,
        num_variables: 5,
        constraints: vec![(vec![(1, 1)], vec![(2, 1)], vec![(10, 1)])],
    };
    let c = CircomCircuit { r1cs, witness: Some(vec![1, 10, 20, 200, 7]) };
    assert!(matches!(synthesize(c), Err(SynthesisError::AssignmentMissing)));
}

#[test]
fn synthesize_accepts_the_empty_circuit() {
    let r1cs = R1CS { num_inputs: 1, num_aux: 0, num_variables: 1, constraints: vec![] };
    let cs = synthesize(CircomCircuit { r1cs, witness: None }).unwrap();
    assert_eq!(cs.instance, vec![1]);
    assert_eq!(cs.witness, Vec::<u32>::new());
    assert_eq!(cs.constraints.len(), 0);
}

#[test]
fn translated_constraints_use_backend_handles() {
    let c = product_circuit(None);
    let tcs = c.translated_constraints();
    assert_eq!(tcs.len(), 1);
    assert_eq!(tcs[0].0, vec![(Variable::Instance(1), 1)]);
    assert_eq!(tcs[0].1, vec![(Variable::Instance(2), 1)]);
    assert_eq!(tcs[0].2, vec![(Variable::Witness(0), 1)]);
}

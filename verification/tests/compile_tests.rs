use const_cge::activations::Activation;
use const_cge::compile::compile;
use const_cge::gene::CompileError;
use const_cge::gene::Gene;
use const_cge::network::CompiledNetwork;
use const_cge::numeric::NumericType;

fn input(weight: f64, input_id: usize) -> Gene {
    Gene::Input { weight: weight.to_bits(), input_id }
}

fn neuron(weight: f64, neuron_id: usize, arity: usize) -> Gene {
    Gene::Neuron { weight: weight.to_bits(), neuron_id, arity }
}

fn forward(weight: f64, source_id: usize) -> Gene {
    Gene::ForwardJumper { weight: weight.to_bits(), source_id }
}

fn recurrent(weight: f64, source_id: usize) -> Gene {
    Gene::RecurrentJumper { weight: weight.to_bits(), source_id }
}

fn bias(weight: f64) -> Gene {
    Gene::Bias { weight: weight.to_bits() }
}

fn run_f64(net: &mut CompiledNetwork, inputs: &[f64]) -> Vec<f64> {
    let raw: Vec<u64> = inputs.iter().map(|x| x.to_bits()).collect();
    let out = net.evaluate(&raw).expect("activation must be executable");
    out.iter().map(|b| f64::from_bits(*b)).collect()
}

/// A genome of one neuron fed by one input, compiled with Linear activation
/// and executed on `[5.0]`, yields `[5.0]`.
#[test]
fn identity_network_passes_value_through() {
    let genome = vec![neuron(1.0, 0, 1), input(1.0, 0)];
    let program = compile(&genome, NumericType::Float64, Activation::Linear).unwrap();
    assert_eq!(program.input_count, 1);
    assert_eq!(program.output_count, 1);
    assert_eq!(program.persistence_size, 0);
    let mut net = CompiledNetwork::new(program);
    let out = run_f64(&mut net, &[5.0]);
    assert_eq!(out, vec![5.0]);
}

/// A genome with one neuron gene and zero jumpers referencing it declares
/// exactly one output.
#[test]
fn single_root_has_one_output() {
    let genome = vec![neuron(0.5, 0, 2), input(1.0, 0), bias(-0.25)];
    let program = compile(&genome, NumericType::Float64, Activation::Linear).unwrap();
    assert_eq!(program.output_count, 1);
    assert_eq!(program.outputs.len(), 1);
}

/// Operand order: a neuron with weights `[0.1, 0.2, 0.3]` on inputs
/// `[1.0, 2.0, 3.0]` sums `(0.1×1.0) + (0.2×2.0) + (0.3×3.0)` in that order.
/// The first connection stands nearest the end of its operand block, so the
/// weights appear in reverse array order.
#[test]
fn operand_sum_is_left_to_right() {
    let genome = vec![
        neuron(1.0, 0, 3),
        input(0.3, 2),
        input(0.2, 1),
        input(0.1, 0),
    ];
    let program = compile(&genome, NumericType::Float64, Activation::Linear).unwrap();
    let mut net = CompiledNetwork::new(program);
    let out = run_f64(&mut net, &[1.0, 2.0, 3.0]);
    let expected: f64 = (0.1 * 1.0 + 0.2 * 2.0) + 0.3 * 3.0;
    assert_eq!(out[0].to_bits(), expected.to_bits());
}

/// Floating-point addition is not associative: on these values the reversed
/// sum differs bit for bit, and the compiled program produces the
/// left-to-right one.
#[test]
fn operand_sum_order_is_observable() {
    let genome = vec![
        neuron(1.0, 0, 3),
        input(0.3, 2),
        input(0.2, 1),
        input(0.1, 0),
    ];
    let program = compile(&genome, NumericType::Float64, Activation::Linear).unwrap();
    let mut net = CompiledNetwork::new(program);
    let out = run_f64(&mut net, &[7.0, 11.0, 13.0]);
    let expected: f64 = (0.1 * 7.0 + 0.2 * 11.0) + 0.3 * 13.0;
    let reversed: f64 = (0.3 * 13.0 + 0.2 * 11.0) + 0.1 * 7.0;
    assert_ne!(expected.to_bits(), reversed.to_bits());
    assert_eq!(out[0].to_bits(), expected.to_bits());
}

/// A recurrent network carries exactly one evaluation step of lag: the first
/// call stores its result, the second call reads it back through the weighted
/// recurrent jumper.
#[test]
fn recurrent_jumper_reads_previous_value() {
    // One neuron summing its input and its own previous value, weighted 0.5.
    let genome = vec![neuron(1.0, 0, 2), input(1.0, 0), recurrent(0.5, 0)];
    let program = compile(&genome, NumericType::Float64, Activation::Linear).unwrap();
    assert_eq!(program.persistence_size, 1);
    let mut net = CompiledNetwork::new(program);
    let first = run_f64(&mut net, &[5.0]);
    let v0: f64 = (0.5 * 0.0) + (1.0 * 5.0);
    assert_eq!(first[0].to_bits(), v0.to_bits());
    let second = run_f64(&mut net, &[3.0]);
    let v1: f64 = (0.5 * v0) + (1.0 * 3.0);
    assert_eq!(second[0].to_bits(), v1.to_bits());
}

/// Clearing the state restores the first call's behaviour; snapshots restore
/// a previous state exactly.
#[test]
fn state_snapshot_round_trip() {
    let genome = vec![neuron(1.0, 0, 2), input(1.0, 0), recurrent(0.5, 0)];
    let program = compile(&genome, NumericType::Float64, Activation::Linear).unwrap();
    let mut net = CompiledNetwork::new(program);
    let first = run_f64(&mut net, &[5.0]);
    let snapshot = net.recurrent_state().clone();
    let second = run_f64(&mut net, &[3.0]);
    net.set_recurrent_state(snapshot);
    let replay = run_f64(&mut net, &[3.0]);
    assert_eq!(second, replay);
    net.clear_state();
    let fresh = run_f64(&mut net, &[5.0]);
    assert_eq!(first, fresh);
}

/// The persistence size counts distinct referenced neuron ids: three jumpers
/// to one neuron need one slot; jumpers to two neurons need two.
#[test]
fn recurrence_table_is_minimal() {
    let one = vec![
        neuron(1.0, 0, 3),
        recurrent(0.1, 0),
        recurrent(0.2, 0),
        recurrent(0.3, 0),
    ];
    let program = compile(&one, NumericType::Float64, Activation::Linear).unwrap();
    assert_eq!(program.persistence_size, 1);

    let two = vec![
        neuron(1.0, 0, 2),
        recurrent(0.1, 0),
        neuron(1.0, 1, 1),
        recurrent(0.2, 1),
    ];
    let program = compile(&two, NumericType::Float64, Activation::Linear).unwrap();
    assert_eq!(program.persistence_size, 2);
}

/// A non-recurrent program is a pure function of its inputs: repeated calls
/// with identical inputs yield identical outputs.
#[test]
fn nonrecurrent_execution_is_deterministic() {
    let genome = vec![neuron(0.7, 0, 2), input(0.4, 0), bias(1.25)];
    let program = compile(&genome, NumericType::Float64, Activation::SoftSign).unwrap();
    let mut net = CompiledNetwork::new(program);
    let a = run_f64(&mut net, &[0.3]);
    let b = run_f64(&mut net, &[0.3]);
    let c = run_f64(&mut net, &[0.3]);
    assert_eq!(a, b);
    assert_eq!(b, c);
    assert!(net.recurrent_state().is_empty());
}

/// A forward jumper recomputes its target subtree with the target's own root
/// weight suppressed, then applies its own edge weight; the target also
/// stands as an output of its own.
#[test]
fn forward_jumper_suppresses_root_weight() {
    let genome = vec![
        neuron(1.0, 0, 2),
        input(2.0, 0),
        forward(3.0, 1),
        neuron(4.0, 1, 1),
        input(5.0, 1),
    ];
    let program = compile(&genome, NumericType::Float64, Activation::Linear).unwrap();
    assert_eq!(program.input_count, 2);
    assert_eq!(program.output_count, 2);
    let mut net = CompiledNetwork::new(program);
    let (in0, in1): (f64, f64) = (1.5, 2.5);
    let out = run_f64(&mut net, &[in0, in1]);
    // Root neuron 1, weighted by its own 4.0.
    let o0: f64 = (5.0 * in1) * 4.0;
    // Root neuron 0: the jumper recomputes neuron 1 unweighted and applies 3.0.
    let o1: f64 = ((5.0 * in1) * 3.0 + 2.0 * in0) * 1.0;
    assert_eq!(out[0].to_bits(), o0.to_bits());
    assert_eq!(out[1].to_bits(), o1.to_bits());
}

/// A forward jumper may target a subtree that itself holds a forward jumper;
/// only the literal root of each recursive range has its weight suppressed.
#[test]
fn nested_forward_jumpers_compose() {
    let genome = vec![
        neuron(1.0, 0, 1),
        forward(2.0, 1),
        neuron(3.0, 1, 1),
        forward(4.0, 2),
        neuron(5.0, 2, 1),
        input(6.0, 0),
    ];
    let program = compile(&genome, NumericType::Float64, Activation::Linear).unwrap();
    assert_eq!(program.output_count, 3);
    let mut net = CompiledNetwork::new(program);
    let x: f64 = 0.75;
    let out = run_f64(&mut net, &[x]);
    let n2: f64 = 6.0 * x; // neuron 2, unweighted
    // outputs in push order: neuron 2 (weighted 5.0), neuron 1 (weighted 3.0),
    // neuron 0 (weighted 1.0)
    assert_eq!(out[0].to_bits(), (n2 * 5.0).to_bits());
    assert_eq!(out[1].to_bits(), ((n2 * 4.0) * 3.0).to_bits());
    assert_eq!(out[2].to_bits(), (((n2 * 4.0) * 2.0) * 1.0).to_bits());
}

/// A neuron that declares two operands but finds only one is a corruption
/// error naming the neuron id — never a silent wrong answer.
#[test]
fn insufficient_operands_is_corruption() {
    let genome = vec![neuron(1.0, 7, 2), input(1.0, 0)];
    match compile(&genome, NumericType::Float64, Activation::Linear) {
        Err(CompileError::InsufficientOperands { neuron_id, expected, available, .. }) => {
            assert_eq!(neuron_id, 7);
            assert_eq!(expected, 2);
            assert_eq!(available, 1);
        },
        other => panic!("expected InsufficientOperands, got {:?}", other),
    }
}

#[test]
fn dangling_forward_jumper_is_corruption() {
    let genome = vec![neuron(1.0, 0, 1), forward(1.0, 9)];
    match compile(&genome, NumericType::Float64, Activation::Linear) {
        Err(CompileError::DanglingForwardJumper { source_id, .. }) => {
            assert_eq!(source_id, 9);
        },
        other => panic!("expected DanglingForwardJumper, got {:?}", other),
    }
}

#[test]
fn zero_arity_neuron_is_corruption() {
    let genome = vec![neuron(1.0, 0, 0)];
    assert!(matches!(
        compile(&genome, NumericType::Float64, Activation::Linear),
        Err(CompileError::ZeroArityNeuron { neuron_id: 0, .. })
    ));
}

#[test]
fn duplicate_neuron_id_is_corruption() {
    let genome = vec![neuron(1.0, 0, 1), neuron(1.0, 0, 1), input(1.0, 0)];
    assert!(matches!(
        compile(&genome, NumericType::Float64, Activation::Linear),
        Err(CompileError::DuplicateNeuronId { neuron_id: 0, .. })
    ));
}

#[test]
fn gap_in_input_ids_is_corruption() {
    let genome = vec![neuron(1.0, 0, 1), input(1.0, 5)];
    assert!(matches!(
        compile(&genome, NumericType::Float64, Activation::Linear),
        Err(CompileError::InvalidInputId { input_id: 5, .. })
    ));
}

#[test]
fn empty_genome_has_no_outputs() {
    let genome: Vec<Gene> = vec![];
    assert!(matches!(
        compile(&genome, NumericType::Float64, Activation::Linear),
        Err(CompileError::NoOutputs)
    ));
}

/// Mutually recursive forward jumpers can never terminate; the depth budget
/// reports them as corruption.
#[test]
fn cyclic_forward_jumpers_exceed_depth() {
    let genome = vec![
        neuron(1.0, 0, 1),
        forward(1.0, 1),
        neuron(1.0, 1, 1),
        forward(1.0, 0),
    ];
    assert!(matches!(
        compile(&genome, NumericType::Float64, Activation::Linear),
        Err(CompileError::DepthLimitExceeded { .. })
    ));
}

/// Sigmoid compiles — the identifier is program data — but the executor
/// declines to run it: its formula needs the platform's `exp`, which verified
/// code cannot reach.
#[test]
fn sigmoid_compiles_but_does_not_execute() {
    let genome = vec![neuron(1.0, 0, 1), input(1.0, 0)];
    let program = compile(&genome, NumericType::Float64, Activation::Sigmoid).unwrap();
    let mut net = CompiledNetwork::new(program);
    assert!(net.evaluate(&vec![5.0f64.to_bits()]).is_none());
}

/// Single-precision compilation narrows every weight once and runs entirely
/// in single precision.
#[test]
fn float32_network_matches_f32_arithmetic() {
    let genome = vec![neuron(1.0, 0, 2), input(0.1, 0), bias(0.3)];
    let program = compile(&genome, NumericType::Float32, Activation::Linear).unwrap();
    let mut net = CompiledNetwork::new(program);
    let x = 7.0f32;
    let raw = vec![x.to_bits() as u64];
    let out = net.evaluate(&raw).unwrap();
    let expected = ((0.1f64 as f32) * x + (0.3f64 as f32)) * (1.0f64 as f32);
    assert_eq!(out[0], expected.to_bits() as u64);
}

/// The raw execute interface runs a program against caller-owned buffers.
#[test]
fn raw_execute_interface() {
    let genome = vec![neuron(1.0, 0, 2), input(1.0, 0), recurrent(0.5, 0)];
    let program = compile(&genome, NumericType::Float64, Activation::Linear).unwrap();
    let inputs = vec![2.0f64.to_bits()];
    let mut state = vec![0.0f64.to_bits()];
    let out = const_cge::program::execute(&program, &inputs, &mut state).unwrap();
    let v0: f64 = (0.5 * 0.0) + (1.0 * 2.0);
    assert_eq!(out, vec![v0.to_bits()]);
    assert_eq!(state, vec![v0.to_bits()]);
}

/// An instance restored from a snapshot behaves as if it had produced it.
#[test]
fn with_recurrent_state_restores_memory() {
    let genome = vec![neuron(1.0, 0, 2), input(1.0, 0), recurrent(0.5, 0)];
    let program = compile(&genome, NumericType::Float64, Activation::Linear).unwrap();
    let mut fresh = CompiledNetwork::new(program.clone());
    let _ = run_f64(&mut fresh, &[5.0]);
    let snapshot = fresh.recurrent_state().clone();
    let mut restored = CompiledNetwork::with_recurrent_state(program, snapshot);
    let a = run_f64(&mut fresh, &[3.0]);
    let b = run_f64(&mut restored, &[3.0]);
    assert_eq!(a, b);
}

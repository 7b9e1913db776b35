//! Differential tests: the compiled program and the naive tree-walking
//! interpreter must produce bit-identical outputs and state for the same
//! genome, inputs and recurrent history. Their agreement is proved for every
//! input; these tests exercise the proved pipeline end to end on concrete
//! values.

use const_cge::activations::Activation;
use const_cge::compile::compile;
use const_cge::gene::Gene;
use const_cge::interpreter::interpret_network;
use const_cge::network::CompiledNetwork;
use const_cge::numeric::NumericType;

fn input(weight: f64, input_id: usize) -> Gene {
    Gene::Input { weight: weight.to_bits(), input_id }
}

fn neuron(weight: f64, neuron_id: usize, arity: usize) -> Gene {
    Gene::Neuron { weight: weight.to_bits(), neuron_id, arity }
}

fn forward(weight: f64, source_id: usize) -> Gene {
    Gene::ForwardJumper { weight: weight.to_bits(), source_id }
}

fn recurrent(weight: f64, source_id: usize) -> Gene {
    Gene::RecurrentJumper { weight: weight.to_bits(), source_id }
}

fn bias(weight: f64) -> Gene {
    Gene::Bias { weight: weight.to_bits() }
}

/// Run both paths over a sequence of input vectors, threading recurrent state
/// through both, and demand bit-for-bit agreement at every step.
fn assert_paths_agree_at(
    genome: &Vec<Gene>,
    width: NumericType,
    activation: Activation,
    input_seq: &[Vec<u64>],
) {
    let program = compile(genome, width, activation).unwrap();
    let persistence_size = program.persistence_size;
    let mut net = CompiledNetwork::new(program);
    let mut interp_state: Vec<u64> = vec![0u64; persistence_size];
    for raw in input_seq {
        let compiled_out = net.evaluate(raw).unwrap();
        let interp_out =
            interpret_network(genome, width, activation, raw, &mut interp_state).unwrap();
        assert_eq!(compiled_out, interp_out);
        assert_eq!(net.recurrent_state(), &interp_state);
    }
}

fn assert_paths_agree(genome: &Vec<Gene>, activation: Activation, input_seq: &[Vec<f64>]) {
    let raw_seq: Vec<Vec<u64>> = input_seq
        .iter()
        .map(|inputs| inputs.iter().map(|x| x.to_bits()).collect())
        .collect();
    assert_paths_agree_at(genome, NumericType::Float64, activation, &raw_seq);
}

#[test]
fn differential_feedforward_linear() {
    let genome = vec![
        neuron(0.6, 0, 3),
        input(0.8, 0),
        bias(-0.3),
        neuron(0.9, 1, 2),
        input(0.4, 1),
        input(-1.2, 0),
    ];
    let inputs: Vec<Vec<f64>> = (0..32)
        .map(|i| vec![(i as f64) * 0.37 - 4.0, (i as f64) * -0.21 + 1.5])
        .collect();
    assert_paths_agree(&genome, Activation::Linear, &inputs);
    assert_paths_agree(&genome, Activation::Threshold, &inputs);
    assert_paths_agree(&genome, Activation::Relu, &inputs);
    assert_paths_agree(&genome, Activation::Sign, &inputs);
    assert_paths_agree(&genome, Activation::SoftSign, &inputs);
}

#[test]
fn differential_forward_jumpers() {
    let genome = vec![
        neuron(1.1, 0, 2),
        input(2.0, 0),
        forward(3.0, 1),
        neuron(4.0, 1, 2),
        input(5.0, 1),
        bias(0.25),
    ];
    let inputs: Vec<Vec<f64>> = (0..32)
        .map(|i| vec![(i as f64) * 0.11 - 1.0, (i as f64) * 0.07 + 0.5])
        .collect();
    assert_paths_agree(&genome, Activation::SoftSign, &inputs);
    assert_paths_agree(&genome, Activation::Relu, &inputs);
}

#[test]
fn differential_recurrent_chain() {
    // Two neurons, each reading the other's previous value.
    let genome = vec![
        neuron(0.5, 0, 2),
        input(1.0, 0),
        recurrent(0.8, 1),
        neuron(0.7, 1, 2),
        input(-0.6, 0),
        recurrent(0.9, 0),
    ];
    let inputs: Vec<Vec<f64>> = (0..200).map(|i| vec![(i as f64) * 0.013 - 1.3]).collect();
    assert_paths_agree(&genome, Activation::SoftSign, &inputs);
    assert_paths_agree(&genome, Activation::Linear, &inputs);
}

#[test]
fn differential_recurrent_single_precision() {
    let genome = vec![
        neuron(0.5, 0, 2),
        input(1.0, 0),
        recurrent(0.8, 0),
    ];
    let raw_seq: Vec<Vec<u64>> = (0..100)
        .map(|i| vec![((i as f32) * 0.017 - 0.9).to_bits() as u64])
        .collect();
    assert_paths_agree_at(&genome, NumericType::Float32, Activation::SoftSign, &raw_seq);
    assert_paths_agree_at(&genome, NumericType::Float32, Activation::Sign, &raw_seq);
}

use const_cge::activations::Activation;
use const_cge::activations::float32;
use const_cge::activations::float64;
use const_cge::activations::int16;
use const_cge::evaluator::ResultNames;
use const_cge::gene::Gene;
use const_cge::numeric::NumericType;
use const_cge::recurrence::RecurrencyConstraint;
use const_cge::recurrence::identify_recurrence;
use const_cge::stack::Stack;

#[test]
fn stack_pops_most_recent_first() {
    let mut stack: Stack<u32> = Stack::new();
    stack.push(1);
    stack.push(2);
    stack.push(3);
    let popped = stack.pop(2).unwrap();
    assert_eq!(popped, vec![3, 2]);
    assert_eq!(stack.data, vec![1]);
    assert!(stack.pop(2).is_none());
    assert_eq!(stack.data, vec![1]);
}

#[test]
fn result_names_advance_and_last() {
    let mut names = ResultNames::new();
    assert_eq!(names.last(), 0);
    assert_eq!(names.advance(), 0);
    assert_eq!(names.advance(), 1);
    assert_eq!(names.last(), 1);
    assert_eq!(names.index, 2);
}

#[test]
fn identify_recurrence_deduplicates_in_encounter_order() {
    let genome = vec![
        Gene::RecurrentJumper { weight: 0, source_id: 4 },
        Gene::Bias { weight: 0 },
        Gene::RecurrentJumper { weight: 0, source_id: 9 },
        Gene::RecurrentJumper { weight: 0, source_id: 4 },
    ];
    let table = identify_recurrence(&genome);
    assert_eq!(table.ids, vec![4, 9]);
    assert_eq!(table.len(), 2);
    assert_eq!(table.lookup(4), Some(0));
    assert_eq!(table.lookup(9), Some(1));
    assert_eq!(table.lookup(7), None);
    assert!(table.contains(4));
    assert!(!table.contains(7));
}

#[test]
fn numeric_type_sizes() {
    assert_eq!(NumericType::Float64.size_of(), 8);
    assert_eq!(NumericType::Float32.size_of(), 4);
}

#[test]
fn naive_conversion_narrows_once() {
    let w = 0.1f64;
    assert_eq!(NumericType::Float64.naive_conversion(w.to_bits()), w.to_bits());
    assert_eq!(
        NumericType::Float32.naive_conversion(w.to_bits()),
        (w as f32).to_bits() as u64
    );
}

#[test]
fn recurrency_constraints() {
    assert!(RecurrencyConstraint::Required.permits(3));
    assert!(!RecurrencyConstraint::Required.permits(0));
    assert!(RecurrencyConstraint::Forbidden.permits(0));
    assert!(!RecurrencyConstraint::Forbidden.permits(1));
    assert!(RecurrencyConstraint::DontCare.permits(0));
    assert!(RecurrencyConstraint::DontCare.permits(5));
}

#[test]
fn executable_activations() {
    assert!(Activation::Linear.executable());
    assert!(Activation::Threshold.executable());
    assert!(Activation::Relu.executable());
    assert!(Activation::Sign.executable());
    assert!(Activation::SoftSign.executable());
    assert!(!Activation::Sigmoid.executable());
    assert!(!Activation::Tanh.executable());
    assert!(!Activation::BentIdentity.executable());
}

#[test]
fn f64_activation_values() {
    let b = |x: f64| x.to_bits();
    assert_eq!(float64::linear(b(-2.5)), b(-2.5));
    assert_eq!(float64::threshold(b(0.5)), b(1.0));
    assert_eq!(float64::threshold(b(-0.5)), b(0.0));
    assert_eq!(float64::threshold(b(0.0)), b(0.0));
    assert_eq!(float64::relu(b(3.5)), b(3.5));
    assert_eq!(float64::relu(b(-3.5)), b(0.0));
    assert_eq!(float64::sign(b(7.0)), b(1.0));
    assert_eq!(float64::sign(b(-7.0)), b(-1.0));
    assert_eq!(float64::sign(b(0.0)), b(0.0));
    assert_eq!(float64::sign(b(-0.0)), b(0.0));
    assert_eq!(float64::soft_sign(b(1.0)), b(0.5));
    assert_eq!(float64::soft_sign(b(3.0)), b(0.75));
    assert_eq!(float64::soft_sign(b(-1.0)), b(-0.5));
}

#[test]
fn f32_activation_values() {
    let b = |x: f32| x.to_bits() as u64;
    assert_eq!(float32::linear(b(-2.5)), b(-2.5));
    assert_eq!(float32::threshold(b(0.5)), b(1.0));
    assert_eq!(float32::threshold(b(-0.5)), b(0.0));
    assert_eq!(float32::relu(b(3.5)), b(3.5));
    assert_eq!(float32::relu(b(-3.5)), b(0.0));
    assert_eq!(float32::sign(b(7.0)), b(1.0));
    assert_eq!(float32::sign(b(-7.0)), b(-1.0));
    assert_eq!(float32::sign(b(-0.0)), b(0.0));
    assert_eq!(float32::soft_sign(b(1.0)), b(0.5));
    assert_eq!(float32::soft_sign(b(3.0)), b(0.75));
}

#[test]
fn nan_activation_values() {
    // Comparisons with a NaN are false: threshold and relu map NaN to zero,
    // sign maps it to negative one. Infinities compare normally.
    let b = |x: f64| x.to_bits();
    let nan = f64::NAN.to_bits();
    assert_eq!(float64::threshold(nan), b(0.0));
    assert_eq!(float64::relu(nan), b(0.0));
    assert_eq!(float64::sign(nan), b(-1.0));
    assert_eq!(float64::threshold(b(f64::INFINITY)), b(1.0));
    assert_eq!(float64::relu(b(f64::NEG_INFINITY)), b(0.0));
    assert_eq!(float64::sign(b(f64::NEG_INFINITY)), b(-1.0));
    let nan32 = f32::NAN.to_bits() as u64;
    assert_eq!(float32::threshold(nan32), 0);
    assert_eq!(float32::relu(nan32), 0);
    assert_eq!(float32::sign(nan32), (-1.0f32).to_bits() as u64);
    assert_eq!(float32::relu(f32::INFINITY.to_bits() as u64), f32::INFINITY.to_bits() as u64);
}

#[test]
fn i16_activation_values() {
    assert_eq!(int16::linear(-5), -5);
    assert_eq!(int16::linear(12), 12);
    assert_eq!(int16::threshold(5), 1);
    assert_eq!(int16::threshold(0), 0);
    assert_eq!(int16::threshold(-5), 0);
}

//! The witness runtime protocol: input counting, triggering, the
//! named-signal table, and the binary witness file.

use circom_backend::components::hasher;
use circom_backend::field;
use circom_backend::rust_gen::generate_hash_map;
use circom_backend::witness::CircomCircuit;
use circom_backend::witness::CircomWitness;
use circom_backend::witness::ProtocolError;
use circom_backend::witness::multiply_0_create;
use circom_backend::witness::write_bin_witness;

fn sample_circuit() -> CircomCircuit {
    // two scalar inputs: a at signal 2, b at signal 3
    let names = vec![
        ("a".to_string(), 2usize, 1usize),
        ("b".to_string(), 3usize, 1usize),
    ];
    CircomCircuit {
        input_hash_map: generate_hash_map(&names),
        witness_to_signal: vec![0, 1, 2, 3],
        constants: Vec::new(),
        template_to_io_signal: Vec::new(),
    }
}

fn sample_witness() -> CircomWitness {
    let mut ctx = CircomWitness::new(sample_circuit());
    multiply_0_create(1, 0, &mut ctx, "main", 0);
    ctx
}

#[test]
fn product_witness_both_orders() {
    // out = a * b with a = 3, b = 5, bound in either order
    for order in [true, false] {
        let mut ctx = sample_witness();
        let (h1, v1, h2, v2) = if order {
            (hasher("a"), 3u64, hasher("b"), 5u64)
        } else {
            (hasher("b"), 5u64, hasher("a"), 3u64)
        };
        ctx.set_input_signal(h1, 0, &field::from_u64(v1)).unwrap();
        // only one input bound: the run has not happened
        assert_eq!(ctx.input_counter, 1);
        let out_before = ctx.get_witness(1);
        assert!(field::equals(&out_before, &field::zero()));
        ctx.set_input_signal(h2, 0, &field::from_u64(v2)).unwrap();
        assert_eq!(ctx.input_counter, 0);
        let out = ctx.get_witness(1);
        assert!(field::equals(&out, &field::from_u64(15)));
    }
}

#[test]
fn repeated_slot_is_rejected() {
    let mut ctx = sample_witness();
    ctx.set_input_signal(hasher("a"), 0, &field::from_u64(3)).unwrap();
    let e = ctx.set_input_signal(hasher("a"), 0, &field::from_u64(4)).unwrap_err();
    assert_eq!(e, ProtocolError::AssignedTwice);
    // the rejected write changed nothing
    assert_eq!(ctx.input_counter, 1);
}

#[test]
fn write_past_quota_is_rejected() {
    let mut ctx = sample_witness();
    ctx.set_input_signal(hasher("a"), 0, &field::from_u64(3)).unwrap();
    ctx.set_input_signal(hasher("b"), 0, &field::from_u64(5)).unwrap();
    let e = ctx.set_input_signal(hasher("a"), 0, &field::from_u64(7)).unwrap_err();
    assert_eq!(e, ProtocolError::NoMoreInputs);
}

#[test]
fn unknown_name_is_rejected() {
    let mut ctx = sample_witness();
    let e = ctx.set_input_signal(hasher("missing"), 0, &field::from_u64(3)).unwrap_err();
    assert_eq!(e, ProtocolError::UnknownSignal);
}

#[test]
fn index_past_declared_size_is_rejected() {
    let mut ctx = sample_witness();
    let e = ctx.set_input_signal(hasher("a"), 1, &field::from_u64(3)).unwrap_err();
    assert_eq!(e, ProtocolError::SizeExceeded);
}

#[test]
fn named_signal_table_round_trips() {
    let names = vec![
        ("a".to_string(), 2usize, 1usize),
        ("b".to_string(), 3usize, 1usize),
        ("signal_with_a_longer_name".to_string(), 2usize, 2usize),
    ];
    let table = generate_hash_map(&names);
    assert_eq!(table.len(), 256);
    let circuit = CircomCircuit {
        input_hash_map: table,
        witness_to_signal: vec![0, 1, 2, 3],
        constants: Vec::new(),
        template_to_io_signal: Vec::new(),
    };
    let ctx = CircomWitness::new(circuit);
    for (name, id, size) in [("a", 2usize, 1usize), ("b", 3, 1), ("signal_with_a_longer_name", 2, 2)] {
        let pos = ctx.get_input_signal_hash_position(hasher(name));
        assert_eq!(ctx.circuit.input_hash_map[pos].signal_id, id);
        assert_eq!(ctx.circuit.input_hash_map[pos].signal_size, size);
        assert_eq!(ctx.get_input_signal_size(hasher(name)), size);
    }
}

#[test]
fn hasher_values() {
    assert_eq!(hasher(""), 14695981039346656037u64);
    assert_eq!(hasher("a"), 12638187200555641996u64);
    assert_eq!(hasher("b"), 12638190499090526629u64);
}

#[test]
fn witness_file_layout() {
    let mut ctx = sample_witness();
    ctx.set_input_signal(hasher("a"), 0, &field::from_u64(3)).unwrap();
    ctx.set_input_signal(hasher("b"), 0, &field::from_u64(5)).unwrap();
    let bytes = write_bin_witness(&ctx);
    // magic, version, section count
    assert_eq!(&bytes[0..4], b"wtns");
    assert_eq!(&bytes[4..8], &[2, 0, 0, 0]);
    assert_eq!(&bytes[8..12], &[2, 0, 0, 0]);
    // section 1: id, length, element width, prime
    assert_eq!(&bytes[12..16], &[1, 0, 0, 0]);
    assert_eq!(&bytes[16..24], &[36, 0, 0, 0, 0, 0, 0, 0]);
    assert_eq!(&bytes[24..28], &[32, 0, 0, 0]);
    assert_eq!(bytes[28], 1); // low byte of the prime
    // section 2: id, length, then the four witness values
    assert_eq!(&bytes[60..64], &[2, 0, 0, 0]);
    assert_eq!(&bytes[64..72], &[128, 0, 0, 0, 0, 0, 0, 0]);
    assert_eq!(bytes.len(), 72 + 4 * 32);
    assert_eq!(bytes[72], 1); // witness 0: the constant one
    assert_eq!(bytes[72 + 32], 15); // witness 1: the product
    assert_eq!(bytes[72 + 64], 3); // witness 2: input a
    assert_eq!(bytes[72 + 96], 5); // witness 3: input b
}

#[test]
fn blank_component_fields() {
    let c = circom_backend::witness::CircomComponent::blank();
    assert_eq!(c.template_id, 0);
    assert_eq!(c.input_counter, 0);
    assert_eq!(c.subcomponents.len(), 0);
}

#[test]
fn num_kinds() {
    let n = circom_backend::witness::Num::U64(42);
    assert_eq!(n.get_u64(), 42);
    let s = circom_backend::witness::Num::Scalar(field::from_u64(3));
    assert!(matches!(s, circom_backend::witness::Num::Scalar(_)));
}

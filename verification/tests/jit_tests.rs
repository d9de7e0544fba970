//! End-to-end compilation through the native backend: construction of the
//! engine, the reported depth counters, and context reuse across
//! compilations.

use stackjit::jit::Jit;
use stackjit::sem::lit_of;

#[test]
fn backend_is_available_on_this_host() {
    assert!(Jit::new().is_some());
}

#[test]
fn worked_example_compiles() {
    let mut jit = Jit::new().unwrap();
    let info = jit.compile("312*32*+::**:$~").unwrap();
    assert_eq!(info.stack_consumed, 0);
    assert_eq!(info.stack_returned, 2);
}

#[test]
fn worked_example_compiles_twice_with_identical_counters() {
    let mut jit = Jit::new().unwrap();
    let a = jit.compile("312*32*+::**:$~").unwrap();
    let b = jit.compile("312*32*+::**:$~").unwrap();
    assert_eq!(a.stack_consumed, b.stack_consumed);
    assert_eq!(a.stack_returned, b.stack_returned);
}

#[test]
fn underflow_program_compiles() {
    let mut jit = Jit::new().unwrap();
    let info = jit.compile("+").unwrap();
    assert_eq!(info.stack_consumed, 2);
    assert_eq!(info.stack_returned, 1);
}

#[test]
fn empty_program_compiles() {
    let mut jit = Jit::new().unwrap();
    let info = jit.compile("").unwrap();
    assert_eq!(info.stack_consumed, 0);
    assert_eq!(info.stack_returned, 0);
}

#[test]
fn one_engine_compiles_many_programs() {
    let mut jit = Jit::new().unwrap();
    for prog in ["1", "23$", "123@", "~", ":", "+", "312*32*+::**:$~"] {
        assert!(jit.compile(prog).is_ok());
    }
}

#[test]
fn literal_bit_patterns_are_the_doubles() {
    for d in 0..16u8 {
        assert_eq!(stackjit::jit::lit_bits(d), (d as f64).to_bits());
    }
}

#[test]
fn literal_classification() {
    for (c, v) in [('0', 0u8), ('9', 9), ('a', 10), ('f', 15)] {
        assert_eq!(lit_of(c), Some(v));
    }
    for c in ['+', '-', '*', '/', '~', ':', '$', '@', 'g', 'A', ' '] {
        assert_eq!(lit_of(c), None);
    }
}

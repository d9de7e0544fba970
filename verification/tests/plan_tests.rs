//! Plan-level behavior of the compiler: exact operation sequences, depth
//! counters and write-back offsets for concrete programs.

use stackjit::evaluator::build_plan;
use stackjit::plan::{BinKind, Op};

#[test]
fn empty_program() {
    let p = build_plan("");
    assert_eq!(p.ops, vec![]);
    assert_eq!(p.consumed, 0);
    assert_eq!(p.returned, 0);
}

#[test]
fn unrecognized_characters_are_ignored() {
    let p = build_plan("x y?#\n");
    assert_eq!(p.ops, vec![]);
    assert_eq!(p.consumed, 0);
    assert_eq!(p.returned, 0);
}

#[test]
fn literals_push_their_digit_values() {
    let p = build_plan("0f");
    assert_eq!(
        p.ops,
        vec![Op::Const(0), Op::Const(15), Op::Store(0, 8), Op::Store(1, 16)]
    );
    assert_eq!(p.consumed, 0);
    assert_eq!(p.returned, 2);
}

#[test]
fn all_sixteen_literals() {
    let p = build_plan("0123456789abcdef");
    assert_eq!(p.returned, 16);
    assert_eq!(p.consumed, 0);
    for d in 0..16u8 {
        assert_eq!(p.ops[d as usize], Op::Const(d));
    }
}

#[test]
fn swap_scenario() {
    // Pushes 2, then 3, then swaps: the final stack is [3.0, 2.0].
    let p = build_plan("23$");
    assert_eq!(
        p.ops,
        vec![Op::Const(2), Op::Const(3), Op::Store(1, 8), Op::Store(0, 16)]
    );
    assert_eq!(p.consumed, 0);
    assert_eq!(p.returned, 2);
}

#[test]
fn swap_twice_restores_the_stack() {
    assert_eq!(build_plan("23$$").ops, build_plan("23").ops);
    assert_eq!(build_plan("23$$").consumed, build_plan("23").consumed);
    assert_eq!(build_plan("23$$").returned, build_plan("23").returned);
}

#[test]
fn rotate_scenario() {
    // "123@" rotates the top three left: the final stack is [2.0, 3.0, 1.0].
    let p = build_plan("123@");
    assert_eq!(
        p.ops,
        vec![
            Op::Const(1),
            Op::Const(2),
            Op::Const(3),
            Op::Store(1, 8),
            Op::Store(2, 16),
            Op::Store(0, 24),
        ]
    );
    assert_eq!(p.consumed, 0);
    assert_eq!(p.returned, 3);
}

#[test]
fn underflow_add_scenario() {
    // A bare "+" loads the two missing operands before applying the
    // operator: the first load (offset 0) ends nearer the top, the second
    // (offset -8) below it; the sum lands one slot below the pointer. With
    // 7.0 at offset 0 and 5.0 at offset -8 the routine writes 12.0 at -8.
    let p = build_plan("+");
    assert_eq!(
        p.ops,
        vec![
            Op::Load(0),
            Op::Load(-8),
            Op::Bin(BinKind::Add, 0, 1),
            Op::Store(2, -8),
        ]
    );
    assert_eq!(p.consumed, 2);
    assert_eq!(p.returned, 1);
}

#[test]
fn subtraction_takes_the_top_as_left_operand() {
    // "53-" computes 3 - 5: the more recently pushed value is the left
    // operand.
    let p = build_plan("53-");
    assert_eq!(
        p.ops,
        vec![
            Op::Const(5),
            Op::Const(3),
            Op::Bin(BinKind::Sub, 1, 0),
            Op::Store(2, 8),
        ]
    );
}

#[test]
fn division_takes_the_top_as_left_operand() {
    // "82/" computes 2 / 8.
    let p = build_plan("82/");
    assert_eq!(
        p.ops,
        vec![
            Op::Const(8),
            Op::Const(2),
            Op::Bin(BinKind::Div, 1, 0),
            Op::Store(2, 8),
        ]
    );
}

#[test]
fn underflow_subtraction_order() {
    // A bare "-" computes (slot at offset 0) minus (slot at offset -8).
    let p = build_plan("-");
    assert_eq!(
        p.ops,
        vec![
            Op::Load(0),
            Op::Load(-8),
            Op::Bin(BinKind::Sub, 0, 1),
            Op::Store(2, -8),
        ]
    );
}

#[test]
fn drop_consumes_without_storing() {
    let p = build_plan("~");
    assert_eq!(p.ops, vec![Op::Load(0)]);
    assert_eq!(p.consumed, 1);
    assert_eq!(p.returned, 0);
}

#[test]
fn duplicate_stores_one_value_twice() {
    let p = build_plan(":");
    assert_eq!(p.ops, vec![Op::Load(0), Op::Store(0, 0), Op::Store(0, 8)]);
    assert_eq!(p.consumed, 1);
    assert_eq!(p.returned, 2);
}

#[test]
fn consumed_depends_on_instruction_order() {
    // Both programs have net depth zero, yet they differ in how often the
    // stack was too shallow.
    let a = build_plan("1+");
    let b = build_plan("+1");
    assert_eq!(a.consumed, 1);
    assert_eq!(a.returned, 1);
    assert_eq!(b.consumed, 2);
    assert_eq!(b.returned, 2);
}

#[test]
fn returned_minus_consumed_is_net_depth() {
    let cases: Vec<(&str, i64)> = vec![
        ("", 0),
        ("12", 2),
        ("12+", 1),
        ("+", -1),
        ("~~~", -3),
        (":", 1),
        ("$@", 0),
        ("312*32*+::**:$~", 2),
    ];
    for (prog, net) in cases {
        let p = build_plan(prog);
        assert_eq!(p.returned as i64 - p.consumed as i64, net);
    }
}

#[test]
fn worked_example_plan() {
    let p = build_plan("312*32*+::**:$~");
    assert_eq!(p.consumed, 0);
    assert_eq!(p.returned, 2);
    assert_eq!(p.ops.len(), 12);
    // The final stack is the bottom literal 3 and the computed product 512.
    assert_eq!(p.ops[10], Op::Store(0, 8));
    assert_eq!(p.ops[11], Op::Store(9, 16));
}

#[test]
fn compiling_twice_gives_identical_plans() {
    let prog = "312*32*+::**:$~";
    let a = build_plan(prog);
    let b = build_plan(prog);
    assert_eq!(a.ops, b.ops);
    assert_eq!(a.consumed, b.consumed);
    assert_eq!(a.returned, b.returned);
}

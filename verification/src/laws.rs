//! Proved properties of the symbolic semantics and of correct plans: the
//! counting characterization of the two depth counters, the net-depth
//! equation, determinism of compilation, and self-inversion of swap.

use crate::plan::{op_exps, plan_correct, store_matches, Op};
use crate::sem::{
    is_binop, is_lit, lemma_sym_ensure, sym_ensure, sym_run, sym_step, Exp, SymState,
};
use vstd::prelude::*;

verus! {

/// How many values one instruction pops from the abstract stack.
pub open spec fn pops_of(c: char) -> nat {
    if is_lit(c) {
        0
    } else if is_binop(c) {
        2
    } else if c == '~' {
        1
    } else if c == ':' {
        1
    } else if c == '$' {
        2
    } else if c == '@' {
        3
    } else {
        0
    }
}

/// How many values one instruction pushes onto the abstract stack.
pub open spec fn pushes_of(c: char) -> nat {
    if is_lit(c) {
        1
    } else if is_binop(c) {
        1
    } else if c == '~' {
        0
    } else if c == ':' {
        2
    } else if c == '$' {
        2
    } else if c == '@' {
        3
    } else {
        0
    }
}

/// The net depth change of a whole program: pushes minus pops, summed in
/// stream order. May be negative.
pub open spec fn net_depth(prog: Seq<char>) -> int
    decreases prog.len(),
{
    if prog.len() == 0 {
        0
    } else {
        net_depth(prog.drop_last()) + pushes_of(prog.last()) - pops_of(prog.last())
    }
}

/// The depth of the abstract stack after a program, counted arithmetically:
/// underflow first raises the depth to what the instruction needs.
pub open spec fn depth_count(prog: Seq<char>) -> nat
    decreases prog.len(),
{
    if prog.len() == 0 {
        0
    } else {
        let d = depth_count(prog.drop_last());
        let c = prog.last();
        let dd = if d >= pops_of(c) {
            d
        } else {
            pops_of(c)
        };
        (dd - pops_of(c) + pushes_of(c)) as nat
    }
}

/// The number of pops that found the abstract stack too shallow, summed in
/// stream order.
pub open spec fn underflow_count(prog: Seq<char>) -> nat
    decreases prog.len(),
{
    if prog.len() == 0 {
        0
    } else {
        let d = depth_count(prog.drop_last());
        let c = prog.last();
        underflow_count(prog.drop_last()) + if d >= pops_of(c) {
            0nat
        } else {
            (pops_of(c) - d) as nat
        }
    }
}

/// The underflow counter of the symbolic run counts exactly the pops made
/// while the abstract stack was shorter than the instruction required, and
/// the final stack length follows the same arithmetic count.
pub proof fn lemma_consumed_counts_underflow(prog: Seq<char>)
    ensures
        sym_run(prog).consumed == underflow_count(prog),
        sym_run(prog).stack.len() == depth_count(prog),
    decreases prog.len(),
{
    if prog.len() > 0 {
        lemma_consumed_counts_underflow(prog.drop_last());
        let st = sym_run(prog.drop_last());
        let c = prog.last();
        if is_binop(c) {
            lemma_sym_ensure(st, 2);
        } else if c == '~' || c == ':' {
            lemma_sym_ensure(st, 1);
        } else if c == '$' {
            lemma_sym_ensure(st, 2);
        } else if c == '@' {
            lemma_sym_ensure(st, 3);
        }
    }
}

/// `returned - consumed` is the net depth change of the whole program: the
/// two counters the compiler reports tell the caller exactly how its stack's
/// logical length moved.
pub proof fn lemma_net_depth(prog: Seq<char>)
    ensures
        sym_run(prog).stack.len() - sym_run(prog).consumed == net_depth(prog),
    decreases prog.len(),
{
    if prog.len() > 0 {
        lemma_net_depth(prog.drop_last());
        lemma_consumed_counts_underflow(prog.drop_last());
        lemma_consumed_counts_underflow(prog);
    }
}

/// For any correct plan, `consumed` is exactly the number of pops made while
/// the abstract stack was shorter than the instruction required.
pub proof fn lemma_plan_consumed_is_underflow(
    ops: Seq<Op>,
    consumed: nat,
    returned: nat,
    prog: Seq<char>,
)
    requires
        plan_correct(ops, consumed, returned, prog),
    ensures
        consumed == underflow_count(prog),
{
    lemma_consumed_counts_underflow(prog);
}

/// For any correct plan, `returned - consumed` is the net stack-depth change
/// of the whole program; it may be negative, zero or positive.
pub proof fn lemma_plan_net_depth(ops: Seq<Op>, consumed: nat, returned: nat, prog: Seq<char>)
    requires
        plan_correct(ops, consumed, returned, prog),
    ensures
        returned - consumed == net_depth(prog),
{
    lemma_net_depth(prog);
}

/// The expression stored for final-stack index `i` of a finished plan.
pub open spec fn stored_exp(ops: Seq<Op>, returned: nat, i: int) -> Exp {
    match ops[ops.len() - returned + i] {
        Op::Store(v, _) => op_exps(ops)[v as int],
        _ => arbitrary(),
    }
}

/// The write-back offset of the store for final-stack index `i`.
pub open spec fn stored_off(ops: Seq<Op>, returned: nat, i: int) -> int {
    match ops[ops.len() - returned + i] {
        Op::Store(_, off) => off as int,
        _ => arbitrary(),
    }
}

/// Compilation is deterministic in meaning: any two plans that are correct
/// for the same program agree on both depth counters and, slot by slot, on
/// the expression each final store writes and on its write-back offset. Two
/// separate compilations of one stream therefore produce routines with
/// identical effect on identical memory.
pub proof fn lemma_plans_agree(
    ops1: Seq<Op>,
    c1: nat,
    r1: nat,
    ops2: Seq<Op>,
    c2: nat,
    r2: nat,
    prog: Seq<char>,
)
    requires
        plan_correct(ops1, c1, r1, prog),
        plan_correct(ops2, c2, r2, prog),
    ensures
        c1 == c2,
        r1 == r2,
        forall|i: int|
            0 <= i < r1 ==> #[trigger] stored_exp(ops1, r1, i) == stored_exp(ops2, r2, i)
                && stored_off(ops1, r1, i) == stored_off(ops2, r2, i),
{
    let sym = sym_run(prog);
    assert forall|i: int|
        0 <= i < r1 implies #[trigger] stored_exp(ops1, r1, i) == stored_exp(ops2, r2, i)
        && stored_off(ops1, r1, i) == stored_off(ops2, r2, i) by {
        assert(store_matches(ops1, r1, i, c1, sym.stack[i]));
        assert(store_matches(ops2, r2, i, c2, sym.stack[i]));
    }
}

/// The swap instruction is self-inverse: applying `$` twice leaves exactly
/// the state that underflow resolution to depth two produces — on a stack
/// already two deep, the state is unchanged.
pub proof fn lemma_swap_self_inverse(st: SymState)
    ensures
        sym_step(sym_step(st, '$'), '$') == sym_ensure(st, 2),
{
    let s = sym_ensure(st, 2);
    lemma_sym_ensure(st, 2);
    let s1 = sym_step(st, '$');
    lemma_sym_ensure(s1, 2);
    assert(sym_step(s1, '$').stack =~= s.stack);
    assert(sym_step(s1, '$') =~= s);
}

/// The rotate instruction cycles the top three values with period three:
/// applying `@` three times leaves exactly the state that underflow
/// resolution to depth three produces — on a stack already three deep, the
/// state is unchanged.
pub proof fn lemma_rotate_period_three(st: SymState)
    ensures
        sym_step(sym_step(sym_step(st, '@'), '@'), '@') == sym_ensure(st, 3),
{
    let s = sym_ensure(st, 3);
    lemma_sym_ensure(st, 3);
    let s1 = sym_step(st, '@');
    lemma_sym_ensure(s1, 3);
    let s2 = sym_step(s1, '@');
    lemma_sym_ensure(s2, 3);
    assert(sym_step(s2, '@').stack =~= s.stack);
    assert(sym_step(s2, '@') =~= s);
}

} // verus!

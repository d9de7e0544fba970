//! The operation plan: the straight-line intermediate form the evaluator
//! produces, together with the spec functions that give it meaning.
//!
//! A plan is a sequence of operations in program order. Every `Const`, `Load`
//! and `Bin` operation defines one value; values are numbered in order of
//! definition, and `Bin` and `Store` refer to them by that number. `op_exps`
//! maps each defined value to the symbolic expression it computes, so a
//! plan's meaning can be compared against the symbolic semantics in `sem`.

use crate::sem::{n_bins, n_lits, sym_run, Exp, SymState};
use vstd::prelude::*;

verus! {

/// Width in bytes of one slot of the caller's stack memory window.
pub const STACK_ELEMENT_SIZE: i32 = 8;

/// The four arithmetic operations. The first operand is always the value
/// that was nearer the top of the stack.
#[derive(Clone, Copy, Debug, PartialEq, Eq, Structural)]
pub enum BinKind {
    Add,
    Sub,
    Mul,
    Div,
}

/// One operation of the plan. `Const`, `Load` and `Bin` define a value;
/// `Store` only consumes one. Offsets are in bytes, relative to the routine's
/// pointer argument.
#[derive(Clone, Copy, Debug, PartialEq, Eq, Structural)]
pub enum Op {
    /// Define the constant value of one literal digit (0 through 15).
    Const(u8),
    /// Define a value by loading the slot at the given byte offset.
    Load(i32),
    /// Define the combination of two earlier values, first operand topmost.
    Bin(BinKind, usize, usize),
    /// Store an earlier value to the slot at the given byte offset.
    Store(usize, i32),
}

/// A compiled plan: the operations plus the two depth counters the caller
/// needs to resize its storage.
pub struct Plan {
    pub ops: Vec<Op>,
    /// How many values were materialized by underflow reads.
    pub consumed: usize,
    /// The length of the abstract stack at stream end.
    pub returned: usize,
}

/// True of the operations that define a value.
pub open spec fn is_def(op: Op) -> bool {
    !(op is Store)
}

/// How many values the plan's first operations define.
pub open spec fn n_defs(ops: Seq<Op>) -> nat
    decreases ops.len(),
{
    if ops.len() == 0 {
        0
    } else {
        n_defs(ops.drop_last()) + if is_def(ops.last()) {
            1nat
        } else {
            0nat
        }
    }
}

/// How many load operations the plan holds.
pub open spec fn n_loads(ops: Seq<Op>) -> nat
    decreases ops.len(),
{
    if ops.len() == 0 {
        0
    } else {
        n_loads(ops.drop_last()) + if ops.last() is Load {
            1nat
        } else {
            0nat
        }
    }
}

/// The expression a `Bin` operation of the given kind builds.
pub open spec fn kind_exp(k: BinKind, x: Exp, y: Exp) -> Exp {
    match k {
        BinKind::Add => Exp::Add(Box::new(x), Box::new(y)),
        BinKind::Sub => Exp::Sub(Box::new(x), Box::new(y)),
        BinKind::Mul => Exp::Mul(Box::new(x), Box::new(y)),
        BinKind::Div => Exp::Div(Box::new(x), Box::new(y)),
    }
}

/// The kind a binary instruction character selects.
pub open spec fn char_kind(c: char) -> BinKind {
    if c == '+' {
        BinKind::Add
    } else if c == '-' {
        BinKind::Sub
    } else if c == '*' {
        BinKind::Mul
    } else {
        BinKind::Div
    }
}

/// How one operation extends the sequence of defined expressions, given the
/// expressions and the number of loads already present.
pub open spec fn push_exp(pre: Seq<Exp>, loads: nat, op: Op) -> Seq<Exp> {
    match op {
        Op::Const(d) => pre.push(Exp::Lit(d as nat)),
        Op::Load(_) => pre.push(Exp::Input(loads)),
        Op::Bin(k, x, y) => pre.push(kind_exp(k, pre[x as int], pre[y as int])),
        Op::Store(_, _) => pre,
    }
}

/// The expression each defined value computes, in definition order.
pub open spec fn op_exps(ops: Seq<Op>) -> Seq<Exp>
    decreases ops.len(),
{
    if ops.len() == 0 {
        Seq::empty()
    } else {
        push_exp(op_exps(ops.drop_last()), n_loads(ops.drop_last()), ops.last())
    }
}

/// Structural well-formedness of one operation in its position: operands
/// refer to values already defined, literals are digits, and the k-th load
/// reads the slot k below the pointer.
pub open spec fn op_wf_at(ops: Seq<Op>, p: int) -> bool {
    match ops[p] {
        Op::Const(d) => d <= 15,
        Op::Load(off) => off == -(STACK_ELEMENT_SIZE as int) * n_loads(ops.take(p)),
        Op::Bin(_, x, y) => x < n_defs(ops.take(p)) && y < n_defs(ops.take(p)),
        Op::Store(v, _) => v < n_defs(ops.take(p)),
    }
}

/// Structural well-formedness of a whole plan.
pub open spec fn ops_wf(ops: Seq<Op>) -> bool {
    forall|p: int| 0 <= p < ops.len() ==> op_wf_at(ops, p)
}

/// True when the plan holds no store operation yet.
pub open spec fn no_stores(ops: Seq<Op>) -> bool {
    forall|p: int| 0 <= p < ops.len() ==> !(#[trigger] ops[p] is Store)
}

/// The byte offset at which the value for final-stack index `i` is written
/// back: the topmost `consumed` slots are overwritten first; indices past
/// them land above the pointer.
pub open spec fn store_off(consumed: nat, i: int) -> int {
    -(STACK_ELEMENT_SIZE as int) * (consumed - i - 1)
}

/// The store for final-stack index `i` writes the given expression at the
/// right offset.
pub open spec fn store_matches(ops: Seq<Op>, returned: nat, i: int, consumed: nat, e: Exp) -> bool {
    ops[ops.len() - returned + i] matches Op::Store(v, off) && v < n_defs(ops) && op_exps(
        ops,
    )[v as int] == e && off == store_off(consumed, i)
}

/// Full correctness of a plan for a program: the counters equal those of the
/// symbolic run, the plan is well formed, its loads are exactly the underflow
/// reads, it holds exactly one operation per underflow read, literal and
/// binary instruction and nothing else, and it ends with exactly one store
/// per final abstract-stack slot, bottom to top, each writing that slot's
/// symbolic value at its offset.
pub open spec fn plan_correct(ops: Seq<Op>, consumed: nat, returned: nat, prog: Seq<char>) -> bool {
    let sym = sym_run(prog);
    &&& consumed == sym.consumed
    &&& returned == sym.stack.len()
    &&& ops_wf(ops)
    &&& n_loads(ops) == consumed
    &&& ops.len() == consumed + n_lits(prog) + n_bins(prog) + returned
    &&& returned <= ops.len()
    &&& forall|p: int| 0 <= p < ops.len() ==> ((#[trigger] ops[p] is Store) <==> p >= ops.len() - returned)
    &&& forall|i: int| 0 <= i < returned ==> store_matches(ops, returned, i, consumed, sym.stack[i])
}

impl Plan {
    /// The plan is a faithful compilation of the given program.
    pub open spec fn correct_for(&self, prog: Seq<char>) -> bool {
        plan_correct(self.ops@, self.consumed as nat, self.returned as nat, prog)
    }
}

/// Pushing one element then dropping the last gives the sequence back.
pub proof fn lemma_push_drop_last<A>(s: Seq<A>, x: A)
    ensures
        s.push(x).drop_last() == s,
        s.push(x).last() == x,
{
    assert(s.push(x).drop_last() =~= s);
}

/// Taking one more element is pushing that element onto the shorter prefix.
pub proof fn lemma_take_push<A>(s: Seq<A>, p: int)
    requires
        0 <= p < s.len(),
    ensures
        s.take(p + 1) == s.take(p).push(s[p]),
{
    assert(s.take(p + 1) =~= s.take(p).push(s[p]));
}

/// How the counting and denotation functions move across one appended
/// operation.
pub proof fn lemma_ops_push(ops: Seq<Op>, op: Op)
    ensures
        n_defs(ops.push(op)) == n_defs(ops) + if is_def(op) {
            1nat
        } else {
            0nat
        },
        n_loads(ops.push(op)) == n_loads(ops) + if op is Load {
            1nat
        } else {
            0nat
        },
        op_exps(ops.push(op)) == push_exp(op_exps(ops), n_loads(ops), op),
{
    lemma_push_drop_last(ops, op);
}

/// Each defined value has exactly one expression.
pub proof fn lemma_op_exps_len(ops: Seq<Op>)
    ensures
        op_exps(ops).len() == n_defs(ops),
    decreases ops.len(),
{
    if ops.len() > 0 {
        lemma_op_exps_len(ops.drop_last());
    }
}

/// Before the flush, every operation defines a value.
pub proof fn lemma_no_stores_defs(ops: Seq<Op>)
    requires
        no_stores(ops),
    ensures
        n_defs(ops) == ops.len(),
    decreases ops.len(),
{
    if ops.len() > 0 {
        assert(forall|p: int|
            0 <= p < ops.drop_last().len() ==> !(#[trigger] ops.drop_last()[p] is Store));
        lemma_no_stores_defs(ops.drop_last());
    }
}

/// Appending an operation that is well formed with respect to the existing
/// plan keeps the plan well formed.
pub proof fn lemma_wf_push(ops: Seq<Op>, op: Op)
    requires
        ops_wf(ops),
        match op {
            Op::Const(d) => d <= 15,
            Op::Load(off) => off == -(STACK_ELEMENT_SIZE as int) * n_loads(ops),
            Op::Bin(_, x, y) => x < n_defs(ops) && y < n_defs(ops),
            Op::Store(v, _) => v < n_defs(ops),
        },
    ensures
        ops_wf(ops.push(op)),
{
    let ops2 = ops.push(op);
    assert(ops2.take(ops.len() as int) =~= ops);
    assert forall|p: int| 0 <= p < ops2.len() implies op_wf_at(ops2, p) by {
        if p < ops.len() {
            assert(ops2.take(p) =~= ops.take(p));
            assert(ops2[p] == ops[p]);
            assert(op_wf_at(ops, p));
        }
    }
}

} // verus!

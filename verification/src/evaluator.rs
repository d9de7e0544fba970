//! The symbolic stack evaluator and underflow resolver.
//!
//! One pass over the instruction stream builds the operation plan: each
//! instruction is applied to an abstract stack of value ids, underflow is
//! resolved by emitting loads at increasing negative offsets and inserting
//! the loaded value at the bottom of the stack, and at stream end one store
//! per remaining slot writes the final stack back to the caller's window.

use crate::plan::{
    char_kind, kind_exp, lemma_no_stores_defs, lemma_op_exps_len, lemma_ops_push,
    lemma_push_drop_last, lemma_take_push, lemma_wf_push, n_defs, n_loads, no_stores, op_exps,
    ops_wf, plan_correct, store_matches, store_off, BinKind, Op, Plan, STACK_ELEMENT_SIZE,
};
use crate::sem::{
    bin_exp, digit_val, is_binop, is_lit, lemma_prog_counts_push, lit_of, n_bins, n_lits,
    sym_ensure, sym_run, sym_step, Exp, SymState,
};
use vstd::prelude::*;

verus! {

/// Longest instruction stream the compiler accepts. Each instruction can
/// materialize at most three underflow reads and push at most three values,
/// so this bound keeps every byte offset the plan can mention within `i32`.
pub const MAX_PROGRAM_LEN: usize = 0x00ff_ffff;

/// Ceiling on the underflow counter and the stack length while scanning:
/// three per instruction, plus the three one instruction may add.
const SCAN_CEIL: usize = 0x0300_0000;

/// Relies on `str::chars`: the characters of the string, in order.
#[verifier::external_body]
fn chars_of(s: &str) -> (r: Vec<char>)
    ensures
        r@ == s@,
{
    s.chars().collect()
}

/// The operation at position `p` stores value `vid` at byte offset `off_v`.
spec fn store_at(ops: Seq<Op>, p: int, vid: usize, off_v: int) -> bool {
    ops[p] matches Op::Store(v, off) && v == vid && off == off_v
}

/// The scanning invariant: the plan holds no stores yet and is well formed,
/// its loads are exactly the underflow reads made so far, and the value id in
/// each abstract-stack slot denotes that slot's symbolic expression.
spec fn scan_inv(ops: Seq<Op>, ids: Seq<usize>, sym: SymState) -> bool {
    &&& ops_wf(ops)
    &&& no_stores(ops)
    &&& n_loads(ops) == sym.consumed
    &&& ids.len() == sym.stack.len()
    &&& forall|i: int|
        0 <= i < ids.len() ==> (#[trigger] ids[i]) < n_defs(ops) && op_exps(ops)[ids[i] as int]
            == sym.stack[i]
}

/// Resolve underflow: emit one load per missing value, at byte offset
/// `-STACK_ELEMENT_SIZE * consumed`, and insert its id at the bottom of the
/// abstract stack.
fn ensure_depth(
    ops: &mut Vec<Op>,
    ids: &mut Vec<usize>,
    consumed: &mut usize,
    n: usize,
    Ghost(sym): Ghost<SymState>,
)
    requires
        scan_inv(old(ops)@, old(ids)@, sym),
        *old(consumed) == sym.consumed,
        n <= 3,
        *old(consumed) + n <= SCAN_CEIL,
    ensures
        scan_inv(final(ops)@, final(ids)@, sym_ensure(sym, n as nat)),
        *final(consumed) == sym_ensure(sym, n as nat).consumed,
        final(ids)@.len() == sym_ensure(sym, n as nat).stack.len(),
        final(ids)@.len() >= n,
        *final(consumed) <= *old(consumed) + n,
        final(ids)@.len() <= old(ids)@.len() + n,
        final(ops)@.len() - old(ops)@.len() == *final(consumed) - *old(consumed),
{
    let ghost mut cur: SymState = sym;
    while ids.len() < n
        invariant
            scan_inv(ops@, ids@, cur),
            *consumed == cur.consumed,
            sym_ensure(cur, n as nat) == sym_ensure(sym, n as nat),
            *consumed - *old(consumed) == ids@.len() - old(ids)@.len(),
            ops@.len() - old(ops)@.len() == *consumed - *old(consumed),
            old(ids)@.len() <= ids@.len(),
            ids@.len() <= n || ids@.len() == old(ids)@.len(),
            n <= 3,
            *old(consumed) + n <= SCAN_CEIL,
        decreases n - ids@.len(),
    {
        let ghost prev = cur;
        let ghost prev_ops = ops@;
        let ghost prev_ids = ids@;
        let off: i32 = 0 - STACK_ELEMENT_SIZE * (*consumed as i32);
        ops.push(Op::Load(off));
        let idx = ops.len() - 1;
        ids.insert(0, idx);
        *consumed = *consumed + 1;
        proof {
            cur =
            SymState {
                stack: prev.stack.insert(0, Exp::Input(prev.consumed)),
                consumed: prev.consumed + 1,
            };
            lemma_no_stores_defs(prev_ops);
            lemma_op_exps_len(prev_ops);
            lemma_ops_push(prev_ops, Op::Load(off));
            lemma_wf_push(prev_ops, Op::Load(off));
            lemma_op_exps_len(ops@);
            assert(ids@ == prev_ids.insert(0, idx));
            assert(op_exps(ops@) == op_exps(prev_ops).push(Exp::Input(prev.consumed)));
            assert forall|i: int|
                0 <= i < ids@.len() implies (#[trigger] ids@[i]) < n_defs(ops@) && op_exps(
                ops@,
            )[ids@[i] as int] == cur.stack[i] by {
                if i > 0 {
                    assert(ids@[i] == prev_ids[i - 1]);
                    assert(cur.stack[i] == prev.stack[i - 1]);
                }
            }
        }
    }
}

/// Apply one literal instruction: define its constant and push the value id.
fn apply_lit(
    ops: &mut Vec<Op>,
    ids: &mut Vec<usize>,
    d: u8,
    Ghost(c): Ghost<char>,
    Ghost(sym): Ghost<SymState>,
)
    requires
        is_lit(c),
        d == digit_val(c),
        d <= 15,
        scan_inv(old(ops)@, old(ids)@, sym),
    ensures
        scan_inv(final(ops)@, final(ids)@, sym_step(sym, c)),
        final(ids)@.len() == old(ids)@.len() + 1,
        final(ops)@.len() == old(ops)@.len() + 1,
{
    let ghost prev_ops = ops@;
    let ghost prev_ids = ids@;
    ops.push(Op::Const(d));
    let idx = ops.len() - 1;
    ids.push(idx);
    proof {
        lemma_no_stores_defs(prev_ops);
        lemma_op_exps_len(prev_ops);
        lemma_ops_push(prev_ops, Op::Const(d));
        lemma_wf_push(prev_ops, Op::Const(d));
        lemma_op_exps_len(ops@);
        let post = sym_step(sym, c);
        assert forall|i: int|
            0 <= i < ids@.len() implies (#[trigger] ids@[i]) < n_defs(ops@) && op_exps(
            ops@,
        )[ids@[i] as int] == post.stack[i] by {
            if i < ids@.len() - 1 {
                assert(ids@[i] == prev_ids[i]);
            }
        }
    }
}

/// Apply one binary instruction: resolve underflow to depth two, pop the two
/// topmost ids (the first pop is the left operand), and push the combination.
fn apply_bin(
    ops: &mut Vec<Op>,
    ids: &mut Vec<usize>,
    consumed: &mut usize,
    k: BinKind,
    Ghost(c): Ghost<char>,
    Ghost(sym): Ghost<SymState>,
)
    requires
        is_binop(c),
        char_kind(c) == k,
        scan_inv(old(ops)@, old(ids)@, sym),
        *old(consumed) == sym.consumed,
        *old(consumed) + 2 <= SCAN_CEIL,
    ensures
        scan_inv(final(ops)@, final(ids)@, sym_step(sym, c)),
        *final(consumed) == sym_step(sym, c).consumed,
        *final(consumed) <= *old(consumed) + 3,
        final(ids)@.len() <= old(ids)@.len() + 3,
        final(ops)@.len() == old(ops)@.len() + (*final(consumed) - *old(consumed)) + 1,
{
    ensure_depth(ops, ids, consumed, 2, Ghost(sym));
    let ghost s = sym_ensure(sym, 2nat);
    let ghost pre_ops = ops@;
    let ghost pre_ids = ids@;
    let x = ids.pop().unwrap();
    let y = ids.pop().unwrap();
    ops.push(Op::Bin(k, x, y));
    let idx = ops.len() - 1;
    ids.push(idx);
    proof {
        lemma_no_stores_defs(pre_ops);
        lemma_op_exps_len(pre_ops);
        lemma_ops_push(pre_ops, Op::Bin(k, x, y));
        lemma_wf_push(pre_ops, Op::Bin(k, x, y));
        lemma_op_exps_len(ops@);
        let post = sym_step(sym, c);
        assert(x == pre_ids[pre_ids.len() - 1]);
        assert(y == pre_ids[pre_ids.len() - 2]);
        assert(ids@ == pre_ids.drop_last().drop_last().push(idx));
        assert(op_exps(pre_ops)[x as int] == s.stack[s.stack.len() - 1]);
        assert(op_exps(pre_ops)[y as int] == s.stack[s.stack.len() - 2]);
        assert(kind_exp(k, s.stack[s.stack.len() - 1], s.stack[s.stack.len() - 2]) == bin_exp(
            c,
            s.stack[s.stack.len() - 1],
            s.stack[s.stack.len() - 2],
        ));
        assert forall|i: int|
            0 <= i < ids@.len() implies (#[trigger] ids@[i]) < n_defs(ops@) && op_exps(
            ops@,
        )[ids@[i] as int] == post.stack[i] by {
            if i < ids@.len() - 1 {
                assert(ids@[i] == pre_ids[i]);
                assert(post.stack[i] == s.stack[i]);
            }
        }
    }
}

/// Apply the drop instruction: resolve underflow to depth one, pop the top.
fn apply_drop(
    ops: &mut Vec<Op>,
    ids: &mut Vec<usize>,
    consumed: &mut usize,
    Ghost(c): Ghost<char>,
    Ghost(sym): Ghost<SymState>,
)
    requires
        c == '~',
        scan_inv(old(ops)@, old(ids)@, sym),
        *old(consumed) == sym.consumed,
        *old(consumed) + 1 <= SCAN_CEIL,
    ensures
        scan_inv(final(ops)@, final(ids)@, sym_step(sym, c)),
        *final(consumed) == sym_step(sym, c).consumed,
        *final(consumed) <= *old(consumed) + 3,
        final(ids)@.len() <= old(ids)@.len() + 3,
        final(ops)@.len() == old(ops)@.len() + (*final(consumed) - *old(consumed)),
{
    ensure_depth(ops, ids, consumed, 1, Ghost(sym));
    let _ = ids.pop();
}

/// Apply the duplicate instruction: resolve underflow to depth one, push the
/// top value id a second time.
fn apply_dup(
    ops: &mut Vec<Op>,
    ids: &mut Vec<usize>,
    consumed: &mut usize,
    Ghost(c): Ghost<char>,
    Ghost(sym): Ghost<SymState>,
)
    requires
        c == ':',
        scan_inv(old(ops)@, old(ids)@, sym),
        *old(consumed) == sym.consumed,
        *old(consumed) + 1 <= SCAN_CEIL,
    ensures
        scan_inv(final(ops)@, final(ids)@, sym_step(sym, c)),
        *final(consumed) == sym_step(sym, c).consumed,
        *final(consumed) <= *old(consumed) + 3,
        final(ids)@.len() <= old(ids)@.len() + 3,
        final(ops)@.len() == old(ops)@.len() + (*final(consumed) - *old(consumed)),
{
    ensure_depth(ops, ids, consumed, 1, Ghost(sym));
    let t = ids[ids.len() - 1];
    ids.push(t);
}

/// Apply the swap instruction: resolve underflow to depth two, exchange the
/// two topmost value ids.
fn apply_swap(
    ops: &mut Vec<Op>,
    ids: &mut Vec<usize>,
    consumed: &mut usize,
    Ghost(c): Ghost<char>,
    Ghost(sym): Ghost<SymState>,
)
    requires
        c == '$',
        scan_inv(old(ops)@, old(ids)@, sym),
        *old(consumed) == sym.consumed,
        *old(consumed) + 2 <= SCAN_CEIL,
    ensures
        scan_inv(final(ops)@, final(ids)@, sym_step(sym, c)),
        *final(consumed) == sym_step(sym, c).consumed,
        *final(consumed) <= *old(consumed) + 3,
        final(ids)@.len() <= old(ids)@.len() + 3,
        final(ops)@.len() == old(ops)@.len() + (*final(consumed) - *old(consumed)),
{
    ensure_depth(ops, ids, consumed, 2, Ghost(sym));
    let ghost s = sym_ensure(sym, 2nat);
    let ghost pre_ids = ids@;
    let a = ids.pop().unwrap();
    let b = ids.pop().unwrap();
    ids.push(a);
    ids.push(b);
    proof {
        let post = sym_step(sym, c);
        assert(ids@ =~= pre_ids.update(pre_ids.len() - 2, a).update(pre_ids.len() - 1, b));
        assert forall|i: int|
            0 <= i < ids@.len() implies (#[trigger] ids@[i]) < n_defs(ops@) && op_exps(
            ops@,
        )[ids@[i] as int] == post.stack[i] by {
            if i < ids@.len() - 2 {
                assert(ids@[i] == pre_ids[i]);
                assert(post.stack[i] == s.stack[i]);
            }
        }
    }
}

/// Apply the rotate instruction: resolve underflow to depth three, rotate the
/// three topmost value ids one position left.
fn apply_rot(
    ops: &mut Vec<Op>,
    ids: &mut Vec<usize>,
    consumed: &mut usize,
    Ghost(c): Ghost<char>,
    Ghost(sym): Ghost<SymState>,
)
    requires
        c == '@',
        scan_inv(old(ops)@, old(ids)@, sym),
        *old(consumed) == sym.consumed,
        *old(consumed) + 3 <= SCAN_CEIL,
    ensures
        scan_inv(final(ops)@, final(ids)@, sym_step(sym, c)),
        *final(consumed) == sym_step(sym, c).consumed,
        *final(consumed) <= *old(consumed) + 3,
        final(ids)@.len() <= old(ids)@.len() + 3,
        final(ops)@.len() == old(ops)@.len() + (*final(consumed) - *old(consumed)),
{
    ensure_depth(ops, ids, consumed, 3, Ghost(sym));
    let ghost s = sym_ensure(sym, 3nat);
    let ghost pre_ids = ids@;
    let top = ids.pop().unwrap();
    let mid = ids.pop().unwrap();
    let bot = ids.pop().unwrap();
    ids.push(mid);
    ids.push(top);
    ids.push(bot);
    proof {
        let post = sym_step(sym, c);
        let l = pre_ids.len();
        assert(ids@ =~= pre_ids.update(l - 3, pre_ids[l - 2]).update(l - 2, pre_ids[l - 1]).update(
            l - 1,
            pre_ids[l - 3],
        ));
        assert forall|i: int|
            0 <= i < ids@.len() implies (#[trigger] ids@[i]) < n_defs(ops@) && op_exps(
            ops@,
        )[ids@[i] as int] == post.stack[i] by {
            if i < ids@.len() - 3 {
                assert(ids@[i] == pre_ids[i]);
                assert(post.stack[i] == s.stack[i]);
            }
        }
    }
}

/// Compile an instruction stream into an operation plan.
///
/// The plan is a faithful compilation of the program: its counters equal
/// those of the symbolic run, its loads are exactly the underflow reads, and
/// it ends with one store per final abstract-stack slot, each writing that
/// slot's symbolic value at its write-back offset.
pub fn build_plan(program: &str) -> (r: Plan)
    requires
        program@.len() <= MAX_PROGRAM_LEN,
    ensures
        r.correct_for(program@),
{
    let chars: Vec<char> = chars_of(program);
    let mut ops: Vec<Op> = Vec::new();
    let mut ids: Vec<usize> = Vec::new();
    let mut consumed: usize = 0;
    let ghost mut sym: SymState = SymState { stack: Seq::empty(), consumed: 0 };
    proof {
        assert(chars@.take(0) =~= Seq::<char>::empty());
        assert(sym == sym_run(chars@.take(0)));
    }
    let mut j: usize = 0;
    while j < chars.len()
        invariant
            chars@ == program@,
            chars@.len() <= MAX_PROGRAM_LEN,
            j <= chars@.len(),
            sym == sym_run(chars@.take(j as int)),
            scan_inv(ops@, ids@, sym),
            consumed == sym.consumed,
            consumed <= 3 * j,
            ids@.len() <= 3 * j,
            ops@.len() == consumed + n_lits(chars@.take(j as int)) + n_bins(chars@.take(j as int)),
        decreases chars@.len() - j,
    {
        let c = chars[j];
        proof {
            lemma_take_push(chars@, j as int);
            lemma_push_drop_last(chars@.take(j as int), c);
            lemma_prog_counts_push(chars@.take(j as int), c);
            assert(sym_run(chars@.take(j + 1)) == sym_step(sym, c));
        }
        if let Some(d) = lit_of(c) {
            apply_lit(&mut ops, &mut ids, d, Ghost(c), Ghost(sym));
        } else {
            match c {
                '+' => apply_bin(&mut ops, &mut ids, &mut consumed, BinKind::Add, Ghost(c), Ghost(sym)),
                '-' => apply_bin(&mut ops, &mut ids, &mut consumed, BinKind::Sub, Ghost(c), Ghost(sym)),
                '*' => apply_bin(&mut ops, &mut ids, &mut consumed, BinKind::Mul, Ghost(c), Ghost(sym)),
                '/' => apply_bin(&mut ops, &mut ids, &mut consumed, BinKind::Div, Ghost(c), Ghost(sym)),
                '~' => apply_drop(&mut ops, &mut ids, &mut consumed, Ghost(c), Ghost(sym)),
                ':' => apply_dup(&mut ops, &mut ids, &mut consumed, Ghost(c), Ghost(sym)),
                '$' => apply_swap(&mut ops, &mut ids, &mut consumed, Ghost(c), Ghost(sym)),
                '@' => apply_rot(&mut ops, &mut ids, &mut consumed, Ghost(c), Ghost(sym)),
                _ => {
                    proof {
                        assert(sym_step(sym, c) == sym);
                    }
                },
            }
        }
        proof {
            sym = sym_step(sym, c);
        }
        j = j + 1;
    }
    proof {
        assert(chars@.take(chars@.len() as int) =~= chars@);
    }
    let returned = ids.len();
    let ghost scan_ops = ops@;
    let ghost symf = sym;
    let mut i: usize = 0;
    while i < returned
        invariant
            returned == ids@.len(),
            scan_inv(scan_ops, ids@, symf),
            consumed == symf.consumed,
            consumed <= SCAN_CEIL,
            returned <= SCAN_CEIL,
            i <= returned,
            ops@.len() == scan_ops.len() + i,
            ops@.take(scan_ops.len() as int) == scan_ops,
            ops_wf(ops@),
            n_loads(ops@) == n_loads(scan_ops),
            n_defs(ops@) == n_defs(scan_ops),
            op_exps(ops@) == op_exps(scan_ops),
            forall|q: int|
                0 <= q < i ==> #[trigger] store_at(
                    ops@,
                    scan_ops.len() + q,
                    ids@[q],
                    store_off(symf.consumed, q),
                ),
        decreases returned - i,
    {
        let ghost prev_ops = ops@;
        let t: i32 = (consumed as i32) - (i as i32) - 1;
        let off: i32 = 0 - STACK_ELEMENT_SIZE * t;
        let vid = ids[i];
        ops.push(Op::Store(vid, off));
        i = i + 1;
        proof {
            lemma_ops_push(prev_ops, Op::Store(vid, off));
            lemma_wf_push(prev_ops, Op::Store(vid, off));
            assert(ops@.take(scan_ops.len() as int) =~= prev_ops.take(scan_ops.len() as int));
            assert forall|q: int|
                0 <= q < i implies #[trigger] store_at(
                ops@,
                scan_ops.len() + q,
                ids@[q],
                store_off(symf.consumed, q),
            ) by {
                if q < i - 1 {
                    assert(ops@[scan_ops.len() + q] == prev_ops[scan_ops.len() + q]);
                    assert(store_at(
                        prev_ops,
                        scan_ops.len() + q,
                        ids@[q],
                        store_off(symf.consumed, q),
                    ));
                }
            }
        }
    }
    proof {
        lemma_op_exps_len(ops@);
        assert forall|p: int|
            0 <= p < ops@.len() implies ((#[trigger] ops@[p] is Store) <==> p >= ops@.len()
            - returned) by {
            if p < scan_ops.len() {
                assert(ops@[p] == scan_ops[p]);
                assert(!(scan_ops[p] is Store));
            } else {
                let q = p - scan_ops.len();
                assert(store_at(ops@, scan_ops.len() + q, ids@[q], store_off(symf.consumed, q)));
            }
        }
        assert forall|q: int|
            0 <= q < returned implies store_matches(
            ops@,
            returned as nat,
            q,
            consumed as nat,
            symf.stack[q],
        ) by {
            assert(store_at(ops@, scan_ops.len() + q, ids@[q], store_off(symf.consumed, q)));
        }
        assert(plan_correct(ops@, consumed as nat, returned as nat, program@));
    }
    Plan { ops, consumed, returned }
}

} // verus!

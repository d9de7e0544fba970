//! Symbolic semantics of the instruction stream.
//!
//! A program is a sequence of characters. Sixteen hex digits push constants,
//! four binary operators combine the two topmost values (the top element is
//! the left operand), and `~ : $ @` drop, duplicate, swap and rotate. Every
//! other character is a no-op. When an instruction needs more values than the
//! abstract stack holds, the missing values are materialized as reads of the
//! caller's memory window: the k-th such read yields the symbolic input
//! `Exp::Input(k)` and is placed below everything read so far.

use vstd::prelude::*;

verus! {

/// A symbolic value: a constant, a value read from the caller's memory
/// window (the k-th underflow read), or an arithmetic combination. In every
/// combination the first operand is the one that was nearer the top of the
/// stack.
pub enum Exp {
    /// The value loaded by the k-th underflow read.
    Input(nat),
    /// A literal pushed by a hex-digit instruction, 0 through 15.
    Lit(nat),
    Add(Box<Exp>, Box<Exp>),
    Sub(Box<Exp>, Box<Exp>),
    Mul(Box<Exp>, Box<Exp>),
    Div(Box<Exp>, Box<Exp>),
}

/// The evaluator's abstract state: the abstract stack (index 0 is the
/// bottom) and how many underflow reads have been materialized so far.
#[verifier::ext_equal]
pub struct SymState {
    pub stack: Seq<Exp>,
    pub consumed: nat,
}

/// True of the sixteen literal instructions '0'-'9' and 'a'-'f'.
pub open spec fn is_lit(c: char) -> bool {
    c == '0' || c == '1' || c == '2' || c == '3' || c == '4' || c == '5' || c == '6' || c == '7'
        || c == '8' || c == '9' || c == 'a' || c == 'b' || c == 'c' || c == 'd' || c == 'e'
        || c == 'f'
}

/// The constant value denoted by a literal instruction.
pub open spec fn digit_val(c: char) -> nat {
    if c == '0' {
        0
    } else if c == '1' {
        1
    } else if c == '2' {
        2
    } else if c == '3' {
        3
    } else if c == '4' {
        4
    } else if c == '5' {
        5
    } else if c == '6' {
        6
    } else if c == '7' {
        7
    } else if c == '8' {
        8
    } else if c == '9' {
        9
    } else if c == 'a' {
        10
    } else if c == 'b' {
        11
    } else if c == 'c' {
        12
    } else if c == 'd' {
        13
    } else if c == 'e' {
        14
    } else {
        15
    }
}

/// True of the four binary arithmetic instructions.
pub open spec fn is_binop(c: char) -> bool {
    c == '+' || c == '-' || c == '*' || c == '/'
}

/// The expression a binary instruction builds: `x` is the topmost operand
/// (popped first) and is always the left operand, `y` the one below it.
pub open spec fn bin_exp(c: char, x: Exp, y: Exp) -> Exp {
    if c == '+' {
        Exp::Add(Box::new(x), Box::new(y))
    } else if c == '-' {
        Exp::Sub(Box::new(x), Box::new(y))
    } else if c == '*' {
        Exp::Mul(Box::new(x), Box::new(y))
    } else {
        Exp::Div(Box::new(x), Box::new(y))
    }
}

/// Underflow resolution: while the abstract stack holds fewer than `n`
/// values, insert the next symbolic input at the bottom, so repeated reads
/// walk further below the caller's pointer.
pub open spec fn sym_ensure(st: SymState, n: nat) -> SymState
    decreases n - st.stack.len(),
{
    if st.stack.len() >= n {
        st
    } else {
        sym_ensure(
            SymState {
                stack: st.stack.insert(0, Exp::Input(st.consumed)),
                consumed: st.consumed + 1,
            },
            n,
        )
    }
}

/// One instruction's effect on the abstract state.
pub open spec fn sym_step(st: SymState, c: char) -> SymState {
    if is_lit(c) {
        SymState { stack: st.stack.push(Exp::Lit(digit_val(c))), consumed: st.consumed }
    } else if is_binop(c) {
        let s = sym_ensure(st, 2);
        let x = s.stack[s.stack.len() - 1];
        let y = s.stack[s.stack.len() - 2];
        SymState {
            stack: s.stack.drop_last().drop_last().push(bin_exp(c, x, y)),
            consumed: s.consumed,
        }
    } else if c == '~' {
        let s = sym_ensure(st, 1);
        SymState { stack: s.stack.drop_last(), consumed: s.consumed }
    } else if c == ':' {
        let s = sym_ensure(st, 1);
        SymState { stack: s.stack.push(s.stack.last()), consumed: s.consumed }
    } else if c == '$' {
        let s = sym_ensure(st, 2);
        let l = s.stack.len();
        SymState {
            stack: s.stack.update(l - 2, s.stack[l - 1]).update(l - 1, s.stack[l - 2]),
            consumed: s.consumed,
        }
    } else if c == '@' {
        let s = sym_ensure(st, 3);
        let l = s.stack.len();
        SymState {
            stack: s.stack.update(l - 3, s.stack[l - 2]).update(l - 2, s.stack[l - 1]).update(
                l - 1,
                s.stack[l - 3],
            ),
            consumed: s.consumed,
        }
    } else {
        st
    }
}

/// The abstract state after running the whole stream from an empty stack.
pub open spec fn sym_run(prog: Seq<char>) -> SymState
    decreases prog.len(),
{
    if prog.len() == 0 {
        SymState { stack: Seq::empty(), consumed: 0 }
    } else {
        sym_step(sym_run(prog.drop_last()), prog.last())
    }
}

/// Underflow resolution raises the stack exactly to depth `n` (when it was
/// shallower) and materializes exactly the missing reads.
pub proof fn lemma_sym_ensure(st: SymState, n: nat)
    ensures
        st.stack.len() >= n ==> sym_ensure(st, n) == st,
        sym_ensure(st, n).stack.len() == if st.stack.len() >= n {
            st.stack.len()
        } else {
            n
        },
        sym_ensure(st, n).consumed == st.consumed + if st.stack.len() >= n {
            0nat
        } else {
            (n - st.stack.len()) as nat
        },
    decreases n - st.stack.len(),
{
    if st.stack.len() < n {
        lemma_sym_ensure(
            SymState {
                stack: st.stack.insert(0, Exp::Input(st.consumed)),
                consumed: st.consumed + 1,
            },
            n,
        );
    }
}

/// How many literal instructions a program holds.
pub open spec fn n_lits(prog: Seq<char>) -> nat
    decreases prog.len(),
{
    if prog.len() == 0 {
        0
    } else {
        n_lits(prog.drop_last()) + if is_lit(prog.last()) {
            1nat
        } else {
            0nat
        }
    }
}

/// How many binary-operator instructions a program holds.
pub open spec fn n_bins(prog: Seq<char>) -> nat
    decreases prog.len(),
{
    if prog.len() == 0 {
        0
    } else {
        n_bins(prog.drop_last()) + if is_binop(prog.last()) {
            1nat
        } else {
            0nat
        }
    }
}

/// How the instruction counts move across one appended character.
pub proof fn lemma_prog_counts_push(s: Seq<char>, c: char)
    ensures
        n_lits(s.push(c)) == n_lits(s) + if is_lit(c) {
            1nat
        } else {
            0nat
        },
        n_bins(s.push(c)) == n_bins(s) + if is_binop(c) {
            1nat
        } else {
            0nat
        },
{
    assert(s.push(c).drop_last() =~= s);
    assert(s.push(c).last() == c);
}

/// The literal instruction's value, or `None` for any other character.
pub fn lit_of(c: char) -> (r: Option<u8>)
    ensures
        is_lit(c) <==> r is Some,
        r matches Some(d) ==> d == digit_val(c) && d <= 15,
{
    match c {
        '0' => Some(0),
        '1' => Some(1),
        '2' => Some(2),
        '3' => Some(3),
        '4' => Some(4),
        '5' => Some(5),
        '6' => Some(6),
        '7' => Some(7),
        '8' => Some(8),
        '9' => Some(9),
        'a' => Some(10),
        'b' => Some(11),
        'c' => Some(12),
        'd' => Some(13),
        'e' => Some(14),
        'f' => Some(15),
        _ => None,
    }
}

} // verus!

//! The compiler front: drives the verified evaluator, replays the resulting
//! plan through the code-generation backend, and finalizes one anonymous
//! native routine per compilation.
//!
//! The replay maps each plan operation to exactly one backend instruction, in
//! plan order; the verified plan is the sole source of operand ids, constants
//! and byte offsets.

use crate::backend::{
    clear_ctx, declare_anon, define_func, emit_add, emit_const, emit_div, emit_load, emit_mul,
    emit_return, emit_store, emit_sub, finalize_defs, finish_builder, make_builder_context,
    make_context, make_module, open_function,
};
use crate::evaluator::{build_plan, MAX_PROGRAM_LEN};
use crate::plan::{lemma_ops_push, lemma_take_push, n_defs, op_wf_at, ops_wf, BinKind, Op};
use crate::sem::sym_run;
use cranelift::codegen::Context;
use cranelift::prelude::{FunctionBuilderContext, Value};
use cranelift_jit::JITModule;
use cranelift_module::FuncId;
use vstd::prelude::*;

verus! {

/// Why a compilation was aborted: the backend refused to declare, define or
/// finalize the routine. A failed compilation never yields a routine handle.
#[derive(Clone, Copy, Debug, PartialEq, Eq, Structural)]
pub enum JitError {
    Declare,
    Define,
    Finalize,
}

/// The compiled-routine descriptor: the backend's handle for the finalized
/// routine, plus the two depth counters the caller must use to resize its
/// storage. The routine reads `stack_consumed` slots at and below the pointer
/// it is given and writes `stack_returned` values back, so the caller's new
/// logical stack length is the old one minus `stack_consumed` plus
/// `stack_returned`.
pub struct FunctionInfo {
    /// Handle under which the backend finalized the routine; it stays valid
    /// for the lifetime of the owning engine.
    pub id: FuncId,
    /// How many values the routine reads from the memory window.
    pub stack_consumed: usize,
    /// How many values the routine writes back to the memory window.
    pub stack_returned: usize,
}

/// The IEEE-754 double-precision bit pattern of a literal digit's value.
pub open spec fn lit_bits_spec(d: nat) -> u64 {
    if d == 0 {
        0
    } else if d == 1 {
        0x3ff0_0000_0000_0000
    } else if d == 2 {
        0x4000_0000_0000_0000
    } else if d == 3 {
        0x4008_0000_0000_0000
    } else if d == 4 {
        0x4010_0000_0000_0000
    } else if d == 5 {
        0x4014_0000_0000_0000
    } else if d == 6 {
        0x4018_0000_0000_0000
    } else if d == 7 {
        0x401c_0000_0000_0000
    } else if d == 8 {
        0x4020_0000_0000_0000
    } else if d == 9 {
        0x4022_0000_0000_0000
    } else if d == 10 {
        0x4024_0000_0000_0000
    } else if d == 11 {
        0x4026_0000_0000_0000
    } else if d == 12 {
        0x4028_0000_0000_0000
    } else if d == 13 {
        0x402a_0000_0000_0000
    } else if d == 14 {
        0x402c_0000_0000_0000
    } else {
        0x402e_0000_0000_0000
    }
}

/// The bit pattern handed to the backend for one literal digit.
pub fn lit_bits(d: u8) -> (r: u64)
    requires
        d <= 15,
    ensures
        r == lit_bits_spec(d as nat),
{
    match d {
        0 => 0,
        1 => 0x3ff0_0000_0000_0000,
        2 => 0x4000_0000_0000_0000,
        3 => 0x4008_0000_0000_0000,
        4 => 0x4010_0000_0000_0000,
        5 => 0x4014_0000_0000_0000,
        6 => 0x4018_0000_0000_0000,
        7 => 0x401c_0000_0000_0000,
        8 => 0x4020_0000_0000_0000,
        9 => 0x4022_0000_0000_0000,
        10 => 0x4024_0000_0000_0000,
        11 => 0x4026_0000_0000_0000,
        12 => 0x4028_0000_0000_0000,
        13 => 0x402a_0000_0000_0000,
        14 => 0x402c_0000_0000_0000,
        _ => 0x402e_0000_0000_0000,
    }
}

/// One compiler instance: a code-generation engine plus the contexts it
/// reuses across compilations. The engine is exclusively owned; parallel
/// compilation requires one instance per thread.
pub struct Jit {
    module: JITModule,
    ctx: Context,
    fbc: FunctionBuilderContext,
}

impl Jit {
    /// A compiler backed by a native code generator for the host machine, or
    /// `None` when the host is not supported.
    pub fn new() -> (r: Option<Jit>) {
        match make_module() {
            None => None,
            Some(module) => {
                let ctx = make_context(&module);
                let fbc = make_builder_context();
                Some(Jit { module, ctx, fbc })
            },
        }
    }

    /// The backend engine, through which the caller looks up the finalized
    /// routine for a descriptor's handle.
    pub fn module(&self) -> &JITModule {
        &self.module
    }

    /// Compile one instruction stream into a native routine.
    ///
    /// On success the descriptor's counters are exactly those of the symbolic
    /// run of the program; on any backend failure the compilation context is
    /// reset and no routine handle is returned.
    pub fn compile(&mut self, program: &str) -> (r: Result<FunctionInfo, JitError>)
        requires
            program@.len() <= MAX_PROGRAM_LEN,
        ensures
            r matches Ok(info) ==> info.stack_consumed == sym_run(program@).consumed
                && info.stack_returned == sym_run(program@).stack.len(),
    {
        let plan = build_plan(program);
        let (mut builder, ptr) = open_function(&self.module, &mut self.ctx, &mut self.fbc);
        let mut vals: Vec<Value> = Vec::new();
        let mut p: usize = 0;
        proof {
            assert(plan.ops@.take(0) =~= Seq::<Op>::empty());
        }
        while p < plan.ops.len()
            invariant
                ops_wf(plan.ops@),
                p <= plan.ops@.len(),
                vals@.len() == n_defs(plan.ops@.take(p as int)),
            decreases plan.ops@.len() - p,
        {
            let op = plan.ops[p];
            proof {
                assert(op_wf_at(plan.ops@, p as int));
                lemma_take_push(plan.ops@, p as int);
                lemma_ops_push(plan.ops@.take(p as int), plan.ops@[p as int]);
            }
            match op {
                Op::Const(d) => {
                    let v = emit_const(&mut builder, lit_bits(d));
                    vals.push(v);
                },
                Op::Load(off) => {
                    let v = emit_load(&mut builder, ptr, off);
                    vals.push(v);
                },
                Op::Bin(k, x, y) => {
                    let vx = vals[x];
                    let vy = vals[y];
                    let v = match k {
                        BinKind::Add => emit_add(&mut builder, vx, vy),
                        BinKind::Sub => emit_sub(&mut builder, vx, vy),
                        BinKind::Mul => emit_mul(&mut builder, vx, vy),
                        BinKind::Div => emit_div(&mut builder, vx, vy),
                    };
                    vals.push(v);
                },
                Op::Store(v, off) => {
                    let vv = vals[v];
                    emit_store(&mut builder, vv, ptr, off);
                },
            }
            p = p + 1;
        }
        emit_return(&mut builder);
        finish_builder(builder);
        let id = match declare_anon(&mut self.module, &self.ctx) {
            Some(id) => id,
            None => {
                clear_ctx(&self.module, &mut self.ctx);
                return Err(JitError::Declare);
            },
        };
        if !define_func(&mut self.module, id, &mut self.ctx) {
            clear_ctx(&self.module, &mut self.ctx);
            return Err(JitError::Define);
        }
        clear_ctx(&self.module, &mut self.ctx);
        if !finalize_defs(&mut self.module) {
            return Err(JitError::Finalize);
        }
        Ok(FunctionInfo { id, stack_consumed: plan.consumed, stack_returned: plan.returned })
    }
}

} // verus!

//! The trusted boundary to the native code-generation backend.
//!
//! Every item here either declares an opaque backend type or wraps exactly
//! one backend operation. Nothing about the generated code is assumed beyond
//! what each wrapper's documentation names; the meaning of a compilation is
//! carried entirely by the verified plan in `plan` and `evaluator`.

use cranelift::codegen::Context;
use cranelift::prelude::settings;
use cranelift::prelude::types;
use cranelift::prelude::AbiParam;
use cranelift::prelude::Configurable;
use cranelift::prelude::FunctionBuilder;
use cranelift::prelude::FunctionBuilderContext;
use cranelift::prelude::Ieee64;
use cranelift::prelude::InstBuilder;
use cranelift::prelude::MemFlagsData;
use cranelift::prelude::Value;
use cranelift_jit::{JITBuilder, JITModule};
use cranelift_module::{FuncId, Module};
use vstd::prelude::*;

verus! {

#[verifier::external_type_specification]
#[verifier::external_body]
pub struct ExJITModule(JITModule);

#[verifier::external_type_specification]
#[verifier::external_body]
pub struct ExContext(Context);

#[verifier::external_type_specification]
#[verifier::external_body]
pub struct ExFunctionBuilderContext(FunctionBuilderContext);

#[verifier::external_type_specification]
#[verifier::external_body]
pub struct ExFunctionBuilder<'a>(FunctionBuilder<'a>);

#[verifier::external_type_specification]
#[verifier::external_body]
pub struct ExValue(Value);

#[verifier::external_type_specification]
#[verifier::external_body]
pub struct ExFuncId(FuncId);

/// Relies on `settings::builder`, `Configurable::set`,
/// `cranelift_native::builder`, `isa::Builder::finish`, `JITBuilder::with_isa`
/// and `JITModule::new`: a code-generation engine for the host machine, or
/// `None` when no backend supports the host.
#[verifier::external_body]
pub(crate) fn make_module() -> (r: Option<JITModule>) {
    let mut flags = settings::builder();
    let colocated = flags.set("use_colocated_libcalls", "false");
    let pic = flags.set("is_pic", "false");
    if colocated.is_err() || pic.is_err() {
        return None;
    }
    let isa = match cranelift_native::builder() {
        Ok(b) => b.finish(settings::Flags::new(flags)).ok()?,
        Err(_) => return None,
    };
    Some(JITModule::new(JITBuilder::with_isa(isa, cranelift_module::default_libcall_names())))
}

/// Relies on `Module::make_context`: a fresh compilation context for this
/// engine.
#[verifier::external_body]
pub(crate) fn make_context(module: &JITModule) -> (r: Context) {
    module.make_context()
}

/// Relies on `FunctionBuilderContext::new`.
#[verifier::external_body]
pub(crate) fn make_builder_context() -> (r: FunctionBuilderContext) {
    FunctionBuilderContext::new()
}

/// Opens a fresh function with one pointer parameter, no results and a single
/// sealed entry block, and returns the builder together with the value
/// holding the pointer argument. Relies on `Module::target_config`,
/// `AbiParam::new`, `FunctionBuilder::new`, `create_block`,
/// `append_block_params_for_function_params`, `switch_to_block`, `seal_block`
/// and `block_params`.
#[verifier::external_body]
pub(crate) fn open_function<'a>(
    module: &JITModule,
    ctx: &'a mut Context,
    fbc: &'a mut FunctionBuilderContext,
) -> (r: (FunctionBuilder<'a>, Value)) {
    let ptr_ty = module.target_config().pointer_type();
    ctx.func.signature.params.push(AbiParam::new(ptr_ty));
    let mut b = FunctionBuilder::new(&mut ctx.func, fbc);
    let block = b.create_block();
    b.append_block_params_for_function_params(block);
    b.switch_to_block(block);
    b.seal_block(block);
    let ptr = b.block_params(block)[0];
    (b, ptr)
}

/// Relies on `InstBuilder::f64const`: defines the 64-bit float constant with
/// the given IEEE-754 bit pattern.
#[verifier::external_body]
pub(crate) fn emit_const(b: &mut FunctionBuilder, bits: u64) -> (r: Value) {
    b.ins().f64const(Ieee64::with_bits(bits))
}

/// Relies on `InstBuilder::load`: defines a 64-bit float read `off` bytes
/// from the address in `ptr`.
#[verifier::external_body]
pub(crate) fn emit_load(b: &mut FunctionBuilder, ptr: Value, off: i32) -> (r: Value) {
    b.ins().load(types::F64, MemFlagsData::new(), ptr, off)
}

/// Relies on `InstBuilder::fadd`: defines the sum of `x` and `y`.
#[verifier::external_body]
pub(crate) fn emit_add(b: &mut FunctionBuilder, x: Value, y: Value) -> (r: Value) {
    b.ins().fadd(x, y)
}

/// Relies on `InstBuilder::fsub`: defines `x` minus `y`.
#[verifier::external_body]
pub(crate) fn emit_sub(b: &mut FunctionBuilder, x: Value, y: Value) -> (r: Value) {
    b.ins().fsub(x, y)
}

/// Relies on `InstBuilder::fmul`: defines the product of `x` and `y`.
#[verifier::external_body]
pub(crate) fn emit_mul(b: &mut FunctionBuilder, x: Value, y: Value) -> (r: Value) {
    b.ins().fmul(x, y)
}

/// Relies on `InstBuilder::fdiv`: defines `x` divided by `y`.
#[verifier::external_body]
pub(crate) fn emit_div(b: &mut FunctionBuilder, x: Value, y: Value) -> (r: Value) {
    b.ins().fdiv(x, y)
}

/// Relies on `InstBuilder::store`: writes `val` at `off` bytes from the
/// address in `ptr`.
#[verifier::external_body]
pub(crate) fn emit_store(b: &mut FunctionBuilder, val: Value, ptr: Value, off: i32) {
    b.ins().store(MemFlagsData::new(), val, ptr, off);
}

/// Relies on `InstBuilder::return_`: ends the block, returning no values.
#[verifier::external_body]
pub(crate) fn emit_return(b: &mut FunctionBuilder) {
    b.ins().return_(&[]);
}

/// Relies on `FunctionBuilder::finalize`: declares the function's
/// translation complete and releases the builder.
#[verifier::external_body]
pub(crate) fn finish_builder(b: FunctionBuilder) {
    b.finalize();
}

/// Relies on `Module::declare_anonymous_function`: a fresh function id for
/// the signature now in the context, or `None` when the backend refuses it.
#[verifier::external_body]
pub(crate) fn declare_anon(module: &mut JITModule, ctx: &Context) -> (r: Option<FuncId>) {
    module.declare_anonymous_function(&ctx.func.signature).ok()
}

/// Relies on `Module::define_function`: hands the built function body to the
/// backend; false when the backend rejects the definition.
#[verifier::external_body]
pub(crate) fn define_func(module: &mut JITModule, id: FuncId, ctx: &mut Context) -> (r: bool) {
    module.define_function(id, ctx).is_ok()
}

/// Relies on `Module::clear_context`: resets the compilation context so the
/// engine can be reused for the next compilation.
#[verifier::external_body]
pub(crate) fn clear_ctx(module: &JITModule, ctx: &mut Context) {
    module.clear_context(ctx);
}

/// Relies on `JITModule::finalize_definitions`: links the defined functions
/// into executable memory; false when finalization fails.
#[verifier::external_body]
pub(crate) fn finalize_defs(module: &mut JITModule) -> (r: bool) {
    module.finalize_definitions().is_ok()
}

} // verus!

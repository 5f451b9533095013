//! The sandbox that runs the guests, as far as the engine handles it itself: an
//! engine that compiles guest code into modules. These are the calls into
//! `wasmtime`; none of them is verified.

use vstd::prelude::*;

verus! {

/// `wasmtime::Engine`: the compiler and its settings.
#[verifier::external_type_specification]
#[verifier::external_body]
pub struct ExEngine(wasmtime::Engine);

/// `wasmtime::Module`: a compiled guest. A module is a handle: copies of it share
/// the compiled code.
#[verifier::external_type_specification]
#[verifier::external_body]
pub struct ExModule(wasmtime::Module);

/// `anyhow::Error`: the error of `wasmtime`'s calls.
#[verifier::external_type_specification]
#[verifier::external_body]
pub struct ExError(anyhow::Error);

/// Makes an engine with `wasmtime::Engine::new`: guests run asynchronously, are
/// compiled for speed, and see canonical NaNs. Nothing is claimed of the result.
#[verifier::external_body]
pub(crate) fn new_engine() -> Result<wasmtime::Engine, anyhow::Error> {
    let mut config = wasmtime::Config::new();
    config.async_support(true);
    config.cranelift_opt_level(wasmtime::OptLevel::Speed);
    config.cranelift_nan_canonicalization(true);
    wasmtime::Engine::new(&config)
}

/// Compiles guest code with `wasmtime::Module::new`. Nothing is claimed of the
/// result: whether code compiles is for `wasmtime` to say.
#[verifier::external_body]
pub(crate) fn compile(engine: &wasmtime::Engine, code: &[u8]) -> Result<wasmtime::Module, anyhow::Error> {
    wasmtime::Module::new(engine, code)
}

/// Copies the handle of a module with `wasmtime::Module::clone`. A module is a
/// counted reference to its compiled code and `clone` is derived, so the copy is
/// a handle to the same code: it stands for the module that `module` stands for.
#[verifier::external_body]
pub(crate) fn share(module: &wasmtime::Module) -> (copy: wasmtime::Module)
    ensures
        copy == *module,
{
    module.clone()
}

/// Writes an error out with its chain of causes, as `anyhow::Error` formats
/// itself for debugging.
#[verifier::external_body]
pub(crate) fn explain(error: &anyhow::Error) -> String {
    format!("{error:?}")
}

} // verus!

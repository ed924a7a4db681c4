use vstd::prelude::*;

use crate::error::LambdaError;

verus! {

#[verifier::external_type_specification]
#[verifier::external_body]
pub struct ExEngine(wasmtime::Engine);

#[verifier::external_type_specification]
#[verifier::external_body]
pub struct ExConfig(wasmtime::Config);

#[verifier::external_type_specification]
#[verifier::external_body]
pub struct ExModule(wasmtime::Module);

#[verifier::external_type_specification]
#[verifier::external_body]
pub struct ExError(wasmtime::Error);

/// Address space reserved up front for each linear memory.
pub const MEMORY_RESERVATION: u64 = 0x100_0000;

/// Unmapped bytes kept after each linear memory.
pub const MEMORY_GUARD_SIZE: u64 = 0x1_0000;

/// Extra address space reserved for a memory that is moved to grow.
pub const MEMORY_GROWTH_RESERVATION: u64 = 0x10_0000;

/// Relies on `wasmtime::Config::new`: the default configuration.
#[verifier::external_body]
fn new_config() -> wasmtime::Config {
    wasmtime::Config::new()
}

/// Relies on `wasmtime::Config::memory_reservation`, which only records the
/// value.
#[verifier::external_body]
fn set_memory_reservation(config: &mut wasmtime::Config, bytes: u64) {
    config.memory_reservation(bytes);
}

/// Relies on `wasmtime::Config::memory_guard_size`, which only records the
/// value.
#[verifier::external_body]
fn set_memory_guard_size(config: &mut wasmtime::Config, bytes: u64) {
    config.memory_guard_size(bytes);
}

/// Relies on `wasmtime::Config::memory_reservation_for_growth`, which only
/// records the value.
#[verifier::external_body]
fn set_memory_reservation_for_growth(config: &mut wasmtime::Config, bytes: u64) {
    config.memory_reservation_for_growth(bytes);
}

/// Relies on `wasmtime::Engine::new`: an engine for `config`, or the reason
/// the configuration is refused.
#[verifier::external_body]
fn new_engine(config: &wasmtime::Config) -> wasmtime::Result<wasmtime::Engine> {
    wasmtime::Engine::new(config)
}

/// Relies on `wasmtime::Module::new`: validates and compiles the bytes (the
/// binary format, or the text format) for `engine`, or reports why not.
#[verifier::external_body]
fn new_module(engine: &wasmtime::Engine, bytes: &[u8]) -> wasmtime::Result<wasmtime::Module> {
    wasmtime::Module::new(engine, bytes)
}

/// Relies on the `Display` of `wasmtime::Error`, with its chain of causes.
#[verifier::external_body]
fn error_text(e: &wasmtime::Error) -> String {
    format!("{e:#}")
}

/// The compilation context shared by every module it compiles.
pub struct WasmRuntime {
    engine: wasmtime::Engine,
}

impl WasmRuntime {
    /// A runtime whose memories are bounds-checked within a modest address
    /// reservation instead of a large virtual one.
    pub fn new() -> (r: Result<Self, LambdaError>)
        ensures
            r is Err ==> r->Err_0 is CompileError,
    {
        let mut config = new_config();
        set_memory_reservation(&mut config, MEMORY_RESERVATION);
        set_memory_guard_size(&mut config, MEMORY_GUARD_SIZE);
        set_memory_reservation_for_growth(&mut config, MEMORY_GROWTH_RESERVATION);
        match new_engine(&config) {
            Ok(engine) => Ok(WasmRuntime { engine }),
            Err(e) => Err(LambdaError::CompileError(error_text(&e))),
        }
    }

    /// The engine that compiled modules are bound to.
    pub fn engine(&self) -> &wasmtime::Engine {
        &self.engine
    }

    /// Compiles `wasm_bytes` into a module that can be instantiated any
    /// number of times; a failure is reported as a compile error.
    pub fn compile_module(&self, wasm_bytes: &[u8]) -> (r: Result<wasmtime::Module, LambdaError>)
        ensures
            r is Err ==> r->Err_0 is CompileError,
    {
        match new_module(&self.engine, wasm_bytes) {
            Ok(m) => Ok(m),
            Err(e) => Err(LambdaError::CompileError(error_text(&e))),
        }
    }
}

} // verus!

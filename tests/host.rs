use wasm_lambda::engine::WasmRuntime;
use std::sync::Arc;

use wasm_lambda::error::LambdaError;
use wasm_lambda::function::{FunctionInfo, FunctionRegistry};
use wasm_lambda::trigger::{Outcome, SimpleTrigger};
use wasm_lambda::host::{finish_invocation, HostState, NO_MEMORY};
use wasmtime::{Caller, Func, Instance, Store};

const ECHO: &str = r#"(module
  (import "env" "get_input" (func $input (param i32 i32) (result i32)))
  (import "env" "get_trigger" (func $trigger (param i32 i32) (result i32)))
  (import "env" "set_output" (func $output (param i32 i32)))
  (memory (export "memory") 1)
  (data (i32.const 0) "Echo: ")
  (data (i32.const 16) " from trigger: ")
  (func (export "handle") (local $n i32) (local $m i32) (local $o i32)
    (local.set $n (call $input (i32.const 1000) (i32.const 1024)))
    (local.set $m (call $trigger (i32.const 3000) (i32.const 256)))
    (memory.copy (i32.const 4000) (i32.const 0) (i32.const 6))
    (memory.copy (i32.const 4006) (i32.const 1000) (local.get $n))
    (local.set $o (i32.add (i32.const 4006) (local.get $n)))
    (memory.copy (local.get $o) (i32.const 16) (i32.const 15))
    (local.set $o (i32.add (local.get $o) (i32.const 15)))
    (memory.copy (local.get $o) (i32.const 3000) (local.get $m))
    (local.set $o (i32.add (local.get $o) (local.get $m)))
    (call $output (i32.const 4000) (i32.sub (local.get $o) (i32.const 4000)))))"#;

const SILENT: &str = r#"(module
  (import "env" "get_input" (func (param i32 i32) (result i32)))
  (import "env" "get_trigger" (func (param i32 i32) (result i32)))
  (import "env" "set_output" (func (param i32 i32)))
  (memory (export "memory") 1)
  (func (export "handle")))"#;

const EMPTY_OUTPUT: &str = r#"(module
  (import "env" "get_input" (func (param i32 i32) (result i32)))
  (import "env" "get_trigger" (func (param i32 i32) (result i32)))
  (import "env" "set_output" (func $output (param i32 i32)))
  (memory (export "memory") 1)
  (func (export "handle") (call $output (i32.const 0) (i32.const 0))))"#;

const OUT_OF_BOUNDS: &str = r#"(module
  (import "env" "get_input" (func (param i32 i32) (result i32)))
  (import "env" "get_trigger" (func (param i32 i32) (result i32)))
  (import "env" "set_output" (func $output (param i32 i32)))
  (memory (export "memory") 1)
  (func (export "handle") (call $output (i32.const 65530) (i32.const 100))))"#;

const NO_HANDLE: &str = r#"(module
  (import "env" "get_input" (func (param i32 i32) (result i32)))
  (import "env" "get_trigger" (func (param i32 i32) (result i32)))
  (import "env" "set_output" (func (param i32 i32)))
  (memory (export "memory") 1)
  (func (export "main")))"#;

fn violation() -> wasmtime::Error {
    wasmtime::Error::msg("guest memory access out of bounds")
}

fn run(wat: &str, subject: &str, payload: &[u8]) -> Result<Option<Vec<u8>>, LambdaError> {
    let runtime = WasmRuntime::new().unwrap();
    let module = runtime.compile_module(wat.as_bytes())?;
    let mut store = Store::new(runtime.engine(), HostState::new(subject, payload.to_vec()));
    let input = Func::wrap(&mut store, |mut caller: Caller<'_, HostState>, ptr: i32, len: i32| {
        let Some(mem) = caller.get_export("memory").and_then(|e| e.into_memory()) else {
            return Ok(NO_MEMORY);
        };
        let (bytes, state) = mem.data_and_store_mut(&mut caller);
        state.read_input(bytes, ptr as u32, len as u32).map(|n| n as i32).map_err(|_| violation())
    });
    let trigger = Func::wrap(&mut store, |mut caller: Caller<'_, HostState>, ptr: i32, len: i32| {
        let Some(mem) = caller.get_export("memory").and_then(|e| e.into_memory()) else {
            return Ok(NO_MEMORY);
        };
        let (bytes, state) = mem.data_and_store_mut(&mut caller);
        state.read_trigger(bytes, ptr as u32, len as u32).map(|n| n as i32).map_err(|_| violation())
    });
    let output = Func::wrap(&mut store, |mut caller: Caller<'_, HostState>, ptr: i32, len: i32| {
        let Some(mem) = caller.get_export("memory").and_then(|e| e.into_memory()) else {
            return Ok(());
        };
        let (bytes, state) = mem.data_and_store_mut(&mut caller);
        state.write_output(bytes, ptr as u32, len as u32).map_err(|_| violation())
    });
    let instance = Instance::new(&mut store, &module, &[input.into(), trigger.into(), output.into()])
        .map_err(|e| LambdaError::GuestTrap(e.to_string()))?;
    let call = instance
        .get_func(&mut store, "handle")
        .map(|f| f.call(&mut store, &[], &mut []).map_err(|e| e.to_string()));
    finish_invocation(store.data(), call)
}

#[test]
fn echo_guest_reports_payload_and_subject() {
    let out = run(ECHO, "orders", b"hello").unwrap();
    assert_eq!(out, Some(b"Echo: hello from trigger: orders".to_vec()));
    let out = run(ECHO, "", b"").unwrap();
    assert_eq!(out, Some(b"Echo:  from trigger: ".to_vec()));
}

#[test]
fn silent_guest_has_no_output() {
    assert_eq!(run(SILENT, "s", b"p").unwrap(), None);
    assert_eq!(run(EMPTY_OUTPUT, "s", b"p").unwrap(), Some(Vec::new()));
}

#[test]
fn out_of_bounds_write_is_a_violation() {
    assert!(matches!(run(OUT_OF_BOUNDS, "s", b"p"), Err(LambdaError::MemoryAccessViolation)));
}

#[test]
fn missing_handle_is_reported() {
    assert!(matches!(run(NO_HANDLE, "s", b"p"), Err(LambdaError::MissingEntryPoint)));
}

#[test]
fn malformed_bytecode_does_not_compile() {
    let runtime = WasmRuntime::new().unwrap();
    assert!(matches!(runtime.compile_module(b"\0asm\x07"), Err(LambdaError::CompileError(_))));
    assert!(runtime.compile_module(SILENT.as_bytes()).is_ok());
}

#[test]
fn short_read_copies_exactly_len_bytes() {
    let mut state = HostState::new("subject", b"abcdef".to_vec());
    let mut mem = vec![0u8; 16];
    assert_eq!(state.read_input(&mut mem, 4, 3).unwrap(), 3);
    assert_eq!(&mem[..8], &[0, 0, 0, 0, b'a', b'b', b'c', 0]);
    assert_eq!(state.read_input(&mut mem, 10, 100).unwrap(), 6);
    assert_eq!(&mem[10..16], b"abcdef");
    assert!(!state.violated);
}

#[test]
fn trigger_read_truncates_and_counts_copied_bytes() {
    let mut state = HostState::new("orders", Vec::new());
    let mut mem = vec![0u8; 8];
    assert_eq!(state.read_trigger(&mut mem, 0, 3).unwrap(), 3);
    assert_eq!(&mem[..3], b"ord");
    assert_eq!(state.read_trigger(&mut mem, 0, 100).unwrap(), 6);
    assert_eq!(&mem[..6], b"orders");
}

#[test]
fn reads_outside_memory_leave_it_untouched() {
    let mut state = HostState::new("s", b"abcdef".to_vec());
    let mut mem = vec![9u8; 8];
    assert!(matches!(state.read_input(&mut mem, 5, 6), Err(LambdaError::MemoryAccessViolation)));
    assert_eq!(mem, vec![9u8; 8]);
    assert!(state.violated);
    assert!(matches!(state.read_trigger(&mut mem, 9, 0), Err(LambdaError::MemoryAccessViolation)));
}

#[test]
fn write_output_last_call_wins() {
    let mut state = HostState::new("s", Vec::new());
    let mem = b"first second".to_vec();
    state.write_output(&mem, 0, 5).unwrap();
    state.write_output(&mem, 6, 6).unwrap();
    assert_eq!(state.output, Some(b"second".to_vec()));
    assert!(matches!(state.write_output(&mem, 10, 3), Err(LambdaError::MemoryAccessViolation)));
    assert_eq!(state.output, Some(b"second".to_vec()));
}

#[test]
fn finishing_an_invocation() {
    let mut state = HostState::new("s", Vec::new());
    assert!(matches!(finish_invocation(&state, None), Err(LambdaError::MissingEntryPoint)));
    assert_eq!(finish_invocation(&state, Some(Ok(()))).unwrap(), None);
    assert!(matches!(finish_invocation(&state, Some(Err("trap".to_string()))), Err(LambdaError::GuestTrap(m)) if m == "trap"));
    state.violated = true;
    assert!(matches!(finish_invocation(&state, Some(Err("trap".to_string()))), Err(LambdaError::MemoryAccessViolation)));
}

fn guest_source(f: &FunctionInfo) -> &'static str {
    match f.wasm_path.as_str() {
        "echo.wat" => ECHO,
        "silent.wat" => SILENT,
        _ => OUT_OF_BOUNDS,
    }
}

#[test]
fn violation_stays_with_its_function_in_a_fan_out() {
    let mut reg = FunctionRegistry::new();
    reg.register_function("echo", "echo.wat", vec!["orders".to_string()]);
    reg.register_function("bad", "bad.wat", vec!["orders".to_string()]);
    reg.register_function("silent", "silent.wat", vec!["orders".to_string()]);
    let trigger = SimpleTrigger::new(Arc::new(reg));
    let outcomes = trigger.trigger("orders", b"hello", |f: &FunctionInfo, s: &str, p: &[u8]| run(guest_source(f), s, p));
    assert_eq!(outcomes.len(), 3);
    assert!(matches!(&outcomes[0], Outcome::Output(b) if b == b"Echo: hello from trigger: orders"));
    assert!(matches!(&outcomes[1], Outcome::Failed(LambdaError::MemoryAccessViolation)));
    assert!(matches!(&outcomes[2], Outcome::NoOutput));
}

//! The Lua evaluator.

use kumo_userland::abi::Handle;
use kumo_userland::lua_repl::vm::{Lua, Value};
use kumo_userland::lua_repl::{after_write, conclude, EVALUATION_FAILED, WRITE_FAILED};

#[test]
fn freestanding_vm_constructs_core_math_library() {
    let mut lua = Lua::core();
    assert!(lua.total_memory() > 0);
    lua.enter(|ctx| assert!(matches!(ctx.get_global("math"), Value::Table(_))));
}

#[test]
fn results_are_printed_and_failures_reported() {
    assert_eq!(conclude(Some("42")), (b"lua-repl: 42\n".to_vec(), 0));
    assert_eq!(conclude(None), (EVALUATION_FAILED.as_bytes().to_vec(), 1));
    assert_eq!(after_write(Some(Handle(4)), 0), None);
    assert_eq!(after_write(Some(Handle(4)), -1), Some(WRITE_FAILED));
    assert_eq!(after_write(None, -1), None);
}

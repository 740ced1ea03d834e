//! The entry point of the virtual machine.

use vstd::prelude::*;

use crate::vm::runtime_state::{exec_model, executable, RuntimeState};
use crate::vm::scope_binding::Binding;

verus! {

/// Execute a collection of bytes as a program.
/// Return the bit pattern of the resulting double, or all errors
/// encountered, newline-joined in the order they were detected.
pub fn execute(bytes: &Vec<u8>) -> (r: Result<u64, String>)
    requires
        executable(bytes@),
    ensures
        ({
            let m = exec_model(bytes@);
            match r {
                Ok(v) => m == Ok::<u64, Seq<char>>(v),
                Err(e) => m matches Err(me) && e@ == me,
            }
        }),
{
    let mut runtime = RuntimeState::new(bytes);

    // Interpret against the program's root scope.
    let mut root_frame = Binding::new();
    if runtime.interpret_scope(&mut root_frame) {
        let v = runtime.stack.pop_float();
        Ok(v.unwrap())
    } else {
        Err(runtime.errors)
    }
}

} // verus!

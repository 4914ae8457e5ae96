//! The Lua evaluator process: the virtual machine that it runs, and what it says of a result.

pub use piccolo as vm;

use vstd::prelude::*;
use vstd::utf8::encode_utf8;

use crate::abi::Handle;
use crate::programs::{sink, sink_of, Sink};
use crate::text;

verus! {

pub const EVALUATION_FAILED: &'static str = "lua-repl: fixed evaluator failed\n";

pub const WRITE_FAILED: &'static str = "lua-repl: stdout write failed\n";

/// The line for a result, or for a failed evaluation.
pub open spec fn line_for(value: Option<Seq<char>>) -> Seq<u8> {
    match value {
        Some(v) => encode_utf8("lua-repl: "@) + encode_utf8(v) + encode_utf8("\n"@),
        None => encode_utf8(EVALUATION_FAILED@),
    }
}

/// The exit code for a result: zero, or one where the evaluation failed.
pub open spec fn code_for(value: Option<Seq<char>>) -> u64 {
    if value is Some {
        0
    } else {
        1
    }
}

/// What the process prints, and the code that it ends with.
pub fn conclude(value: Option<&str>) -> (r: (Vec<u8>, u64))
    ensures
        r.0@ == line_for(
            match value {
                Some(v) => Some(v@),
                None => None,
            },
        ),
        r.1 == code_for(
            match value {
                Some(v) => Some(v@),
                None => None,
            },
        ),
{
    match value {
        Some(v) => {
            let mut out: Vec<u8> = text::to_bytes("lua-repl: ");
            text::append_text(&mut out, v);
            text::append_text(&mut out, "\n");
            (out, 0)
        },
        None => (text::to_bytes(EVALUATION_FAILED), 1),
    }
}

/// What is said on the debug output after the line went to its sink: a channel that refused it
/// is reported.
pub fn after_write(stdout: Option<Handle>, status: i32) -> (complaint: Option<&'static str>)
    ensures
        complaint == (if sink_of(stdout) is Channel && status != 0 {
            Some(WRITE_FAILED)
        } else {
            None
        }),
{
    match sink(stdout) {
        Sink::Debug => None,
        Sink::Channel(_) => if status != 0 {
            Some(WRITE_FAILED)
        } else {
            None
        },
    }
}

/// A result is printed behind `lua-repl: ` on a line of its own and ends the process with zero; without one the
/// failure is printed and the code is one.
pub proof fn results_decide_the_code(v: Seq<char>)
    ensures
        line_for(Some(v)) == encode_utf8("lua-repl: "@) + encode_utf8(v) + encode_utf8("\n"@),
        line_for(None) == encode_utf8("lua-repl: fixed evaluator failed\n"@),
        code_for(Some(v)) == 0,
        code_for(None) == 1,
{
}

} // verus!

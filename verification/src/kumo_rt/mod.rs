//! The process runtime: start-up handles, message dispatch and the heap.
use vstd::prelude::*;

use crate::abi::Handle;

pub mod heap;
pub mod startup;

verus! {

/// A server that answers the messages of its channels.
pub trait Server: Sized {
    /// Whether a server that held `self` may answer `message` with `status` and hold `after`.
    closed spec fn dispatched(
        &self,
        channel: Handle,
        message: Seq<u8>,
        after: &Self,
        status: i32,
    ) -> bool {
        arbitrary()
    }

    /// The server's name.
    fn name(&self) -> &'static str;

    /// Handles one message.
    fn dispatch(&mut self, channel: Handle, message: &[u8]) -> (status: i32)
        ensures
            old(self).dispatched(channel, message@, final(self), status),
    ;
}

/// Hands one message to the server and returns its status.
pub fn run_one<S: Server>(server: &mut S, channel: Handle, message: &[u8]) -> (status: i32)
    ensures
        old(server).dispatched(channel, message@, final(server), status),
{
    server.dispatch(channel, message)
}

/// The interrupt window of a child resource: its first interrupt above, how many below.
pub open spec fn window_of(irq_base: u32, irq_count: u32) -> u64 {
    (irq_base * 0x1_0000_0000 + irq_count) as u64
}

/// Packs an interrupt window into one argument.
pub fn irq_window(irq_base: u32, irq_count: u32) -> (window: u64)
    ensures
        window == window_of(irq_base, irq_count),
        window == irq_base * 0x1_0000_0000 + irq_count,
{
    irq_base as u64 * 0x1_0000_0000 + irq_count as u64
}

} // verus!

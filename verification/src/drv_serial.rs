//! The serial port driver: it maps the port's registers, unmasks the receive interrupt, and
//! forwards every byte that arrives to the console channel.

use vstd::prelude::*;

use crate::abi::{handle_of, to_handle, Handle, NO_HANDLE};

verus! {

/// Physical address of the registers.
pub const UART_BASE: u64 = 0x0900_0000;

/// Bytes of register space.
pub const UART_SIZE: u64 = 4096;

/// The interrupt line.
pub const UART_IRQ: u32 = 33;

/// Where the registers are mapped.
pub const MAP_VIRT: u64 = 0x1000_0000;

/// Readable and writable.
pub const MAP_FLAGS: u64 = 3;

/// Data register.
pub const UARTDR: u64 = 0x000;

/// Flag register.
pub const UARTFR: u64 = 0x018;

/// Interrupt mask register.
pub const UARTIMSC: u64 = 0x038;

/// Interrupt clear register.
pub const UARTICR: u64 = 0x044;

/// The receive bit of the mask and clear registers.
pub const RECEIVE_BIT: u32 = 0x10;

/// The flag of an empty receive queue.
pub const UARTFR_RXFE: u32 = 0x10;

pub const STARTING: &'static str = "drv-serial starting\n";

pub const MINT_FAILED: &'static str = "drv-serial: vmo mint failed\n";

pub const MAP_FAILED: &'static str = "drv-serial: map failed\n";

pub const IRQ_FAILED: &'static str = "drv-serial: irq failed\n";

pub const INITIALIZED: &'static str = "drv-serial: initialized\n";

/// Whether the receive queue holds nothing: bit four of the flags is set.
pub open spec fn queue_is_empty(flags: u32) -> bool {
    (flags / 16) % 2 == 1
}

/// Computes [`queue_is_empty`].
pub fn rx_empty(flags: u32) -> (empty: bool)
    ensures
        empty == queue_is_empty(flags),
        empty == (flags & UARTFR_RXFE != 0),
{
    assert((flags & 0x10 != 0) == ((flags / 16) % 2 == 1)) by (bit_vector);
    flags & UARTFR_RXFE != 0
}

/// The byte in a word of the data register.
pub fn rx_byte(data: u32) -> (b: u8)
    ensures
        b == data % 256,
{
    (data % 256) as u8
}

/// The interrupt mask with the receive interrupt let through and every other bit as it was.
pub fn unmasked(mask: u32) -> (m: u32)
    ensures
        m == mask | RECEIVE_BIT,
{
    mask | RECEIVE_BIT
}

/// Where the driver is.
#[derive(Clone, Copy, Debug, PartialEq, Eq, Structural)]
pub enum SerialPhase {
    Mint,
    MapIn,
    Interrupt,
    ReadMask,
    WriteMask,
    Await,
    Acknowledge,
    ReadFlags,
    ReadData,
    Forward,
    Failed,
}

/// A call that the driver makes.
#[derive(Clone, Copy, Debug, PartialEq, Eq, Structural)]
pub enum SerialCall {
    Mint { resource: Handle },
    MapIn { vmo: Handle },
    CreateInterrupt { irq: u32 },
    ReadRegister { at: u64 },
    WriteRegister { at: u64, value: u32 },
    WaitInterrupt { interrupt: Handle },
    Send { console: Handle, byte: u8 },
    Exit { code: u64 },
}

/// The driver between two calls. `value` is the word that was read last.
#[derive(Clone, Copy, Debug, PartialEq, Eq, Structural)]
pub struct Serial {
    pub phase: SerialPhase,
    pub resource: Handle,
    pub console: Handle,
    pub vmo: Handle,
    pub interrupt: Handle,
    pub value: u32,
}

impl Serial {
    pub open spec fn call_of(self) -> SerialCall {
        match self.phase {
            SerialPhase::Mint => SerialCall::Mint { resource: self.resource },
            SerialPhase::MapIn => SerialCall::MapIn { vmo: self.vmo },
            SerialPhase::Interrupt => SerialCall::CreateInterrupt { irq: UART_IRQ },
            SerialPhase::ReadMask => SerialCall::ReadRegister { at: (MAP_VIRT + UARTIMSC) as u64 },
            SerialPhase::WriteMask => SerialCall::WriteRegister {
                at: (MAP_VIRT + UARTIMSC) as u64,
                value: self.value | RECEIVE_BIT,
            },
            SerialPhase::Await => SerialCall::WaitInterrupt { interrupt: self.interrupt },
            SerialPhase::Acknowledge => SerialCall::WriteRegister {
                at: (MAP_VIRT + UARTICR) as u64,
                value: RECEIVE_BIT,
            },
            SerialPhase::ReadFlags => SerialCall::ReadRegister { at: (MAP_VIRT + UARTFR) as u64 },
            SerialPhase::ReadData => SerialCall::ReadRegister { at: (MAP_VIRT + UARTDR) as u64 },
            SerialPhase::Forward => SerialCall::Send {
                console: self.console,
                byte: (self.value % 256) as u8,
            },
            SerialPhase::Failed => SerialCall::Exit { code: 1 },
        }
    }

    /// The driver after its call came back with `raw`, and what it prints then.
    pub open spec fn after(self, raw: u64) -> (Serial, Seq<char>) {
        match self.phase {
            SerialPhase::Mint => if raw == NO_HANDLE {
                (Serial { phase: SerialPhase::Failed, ..self }, MINT_FAILED@)
            } else {
                (Serial { phase: SerialPhase::MapIn, vmo: handle_of(raw), ..self }, ""@)
            },
            SerialPhase::MapIn => if raw != 0 {
                (Serial { phase: SerialPhase::Failed, ..self }, MAP_FAILED@)
            } else {
                (Serial { phase: SerialPhase::Interrupt, ..self }, ""@)
            },
            SerialPhase::Interrupt => if raw == NO_HANDLE {
                (Serial { phase: SerialPhase::Failed, ..self }, IRQ_FAILED@)
            } else {
                (Serial { phase: SerialPhase::ReadMask, interrupt: handle_of(raw), ..self }, ""@)
            },
            SerialPhase::ReadMask => (
                Serial { phase: SerialPhase::WriteMask, value: raw as u32, ..self },
                ""@,
            ),
            SerialPhase::WriteMask => (
                Serial { phase: SerialPhase::Await, ..self },
                INITIALIZED@,
            ),
            SerialPhase::Await => (Serial { phase: SerialPhase::Acknowledge, ..self }, ""@),
            SerialPhase::Acknowledge => (Serial { phase: SerialPhase::ReadFlags, ..self }, ""@),
            SerialPhase::ReadFlags => if queue_is_empty(raw as u32) {
                (Serial { phase: SerialPhase::Await, ..self }, ""@)
            } else {
                (Serial { phase: SerialPhase::ReadData, ..self }, ""@)
            },
            SerialPhase::ReadData => (
                Serial { phase: SerialPhase::Forward, value: raw as u32, ..self },
                ""@,
            ),
            SerialPhase::Forward => (Serial { phase: SerialPhase::ReadFlags, ..self }, ""@),
            SerialPhase::Failed => (self, ""@),
        }
    }

    /// A driver that has made no call yet.
    pub fn new(resource: Handle, console: Handle) -> (s: Serial)
        ensures
            s == (Serial {
                phase: SerialPhase::Mint,
                resource,
                console,
                vmo: Handle(0),
                interrupt: Handle(0),
                value: 0,
            }),
    {
        Serial {
            phase: SerialPhase::Mint,
            resource,
            console,
            vmo: Handle(0),
            interrupt: Handle(0),
            value: 0,
        }
    }

    /// The call to make now.
    pub fn call(&self) -> (c: SerialCall)
        ensures
            c == self.call_of(),
    {
        match self.phase {
            SerialPhase::Mint => SerialCall::Mint { resource: self.resource },
            SerialPhase::MapIn => SerialCall::MapIn { vmo: self.vmo },
            SerialPhase::Interrupt => SerialCall::CreateInterrupt { irq: UART_IRQ },
            SerialPhase::ReadMask => SerialCall::ReadRegister { at: MAP_VIRT + UARTIMSC },
            SerialPhase::WriteMask => SerialCall::WriteRegister {
                at: MAP_VIRT + UARTIMSC,
                value: unmasked(self.value),
            },
            SerialPhase::Await => SerialCall::WaitInterrupt { interrupt: self.interrupt },
            SerialPhase::Acknowledge => SerialCall::WriteRegister {
                at: MAP_VIRT + UARTICR,
                value: RECEIVE_BIT,
            },
            SerialPhase::ReadFlags => SerialCall::ReadRegister { at: MAP_VIRT + UARTFR },
            SerialPhase::ReadData => SerialCall::ReadRegister { at: MAP_VIRT + UARTDR },
            SerialPhase::Forward => SerialCall::Send {
                console: self.console,
                byte: rx_byte(self.value),
            },
            SerialPhase::Failed => SerialCall::Exit { code: 1 },
        }
    }

    /// Takes in what the call came back with and returns what to print.
    pub fn advance(&mut self, raw: u64) -> (shown: &'static str)
        ensures
            (*final(self), shown@) == old(self).after(raw),
    {
        match self.phase {
            SerialPhase::Mint => {
                if raw == NO_HANDLE {
                    self.phase = SerialPhase::Failed;
                    return MINT_FAILED;
                }
                self.vmo = to_handle(raw);
                self.phase = SerialPhase::MapIn;
            },
            SerialPhase::MapIn => {
                if raw != 0 {
                    self.phase = SerialPhase::Failed;
                    return MAP_FAILED;
                }
                self.phase = SerialPhase::Interrupt;
            },
            SerialPhase::Interrupt => {
                if raw == NO_HANDLE {
                    self.phase = SerialPhase::Failed;
                    return IRQ_FAILED;
                }
                self.interrupt = to_handle(raw);
                self.phase = SerialPhase::ReadMask;
            },
            SerialPhase::ReadMask => {
                self.value = raw as u32;
                self.phase = SerialPhase::WriteMask;
            },
            SerialPhase::WriteMask => {
                self.phase = SerialPhase::Await;
                return INITIALIZED;
            },
            SerialPhase::Await => {
                self.phase = SerialPhase::Acknowledge;
            },
            SerialPhase::Acknowledge => {
                self.phase = SerialPhase::ReadFlags;
            },
            SerialPhase::ReadFlags => {
                if rx_empty(raw as u32) {
                    self.phase = SerialPhase::Await;
                } else {
                    self.phase = SerialPhase::ReadData;
                }
            },
            SerialPhase::ReadData => {
                self.value = raw as u32;
                self.phase = SerialPhase::Forward;
            },
            SerialPhase::Forward => {
                self.phase = SerialPhase::ReadFlags;
            },
            SerialPhase::Failed => {},
        }
        ""
    }
}

/// No byte is lost or made up: a word of the data register is read only while the queue is not
/// empty, its low byte is sent next, and the driver then looks for more before it waits again.
pub proof fn every_byte_is_forwarded(s: Serial, flags: u64, data: u64, sent: u64)
    requires
        s.phase == SerialPhase::ReadFlags,
        !queue_is_empty(flags as u32),
    ensures
        s.after(flags).0.call_of() == (SerialCall::ReadRegister {
            at: (MAP_VIRT + UARTDR) as u64,
        }),
        s.after(flags).0.after(data).0.call_of() == (SerialCall::Send {
            console: s.console,
            byte: (data as u32 % 256) as u8,
        }),
        s.after(flags).0.after(data).0.after(sent).0.phase == SerialPhase::ReadFlags,
{
}

/// The driver waits only on an empty queue, and it acknowledges every interrupt before it looks
/// at the queue.
pub proof fn waits_only_on_an_empty_queue(s: Serial, raw: u64)
    requires
        s.phase != SerialPhase::WriteMask,
        s.after(raw).0.phase == SerialPhase::Await,
    ensures
        s.phase == SerialPhase::ReadFlags && queue_is_empty(raw as u32),
        s.after(raw).0.after(raw).0.call_of() == (SerialCall::WriteRegister {
            at: (MAP_VIRT + UARTICR) as u64,
            value: RECEIVE_BIT,
        }),
{
}

/// How the driver comes up: the registers are minted and mapped, interrupt 33 is taken, and the mask at 0x38 gets its
/// bit 4 on top of what it held; then the driver waits.
pub proof fn drivers_come_up_step_by_step(s: Serial, vmo: u64, interrupt: u64, mask: u64, x: u64)
    requires
        s.phase is Mint,
        vmo != u64::MAX,
        interrupt != u64::MAX,
    ensures
        ({
            let (s1, _) = s.after(vmo);
            let (s2, _) = s1.after(0);
            let (s3, _) = s2.after(interrupt);
            let (s4, _) = s3.after(mask);
            let (s5, l5) = s4.after(x);
            &&& s.call_of() == (SerialCall::Mint { resource: s.resource })
            &&& s1.call_of() == (SerialCall::MapIn { vmo: Handle(vmo as u32) })
            &&& s2.call_of() == (SerialCall::CreateInterrupt { irq: 33 })
            &&& s3.call_of() == (SerialCall::ReadRegister { at: 0x1000_0038 })
            &&& s4.call_of() == (SerialCall::WriteRegister {
                at: 0x1000_0038,
                value: (mask as u32) | 0x10,
            })
            &&& l5 == "drv-serial: initialized\n"@
            &&& s5.call_of() == (SerialCall::WaitInterrupt { interrupt: Handle(interrupt as u32) })
            &&& s5.console == s.console
        }),
{
}

/// A round of work: an interrupt is acknowledged at 0x44 with bit 4, then the flags at 0x18 are read; with bit 4 of
/// them set the driver waits again, and otherwise a word is read at 0 and its low byte goes to the console.
pub proof fn interrupts_drain_the_queue(s: Serial, x: u64, flags: u64, data: u64)
    requires
        s.phase is Await,
    ensures
        ({
            let s1 = s.after(x).0;
            let s2 = s1.after(x).0;
            let s3 = s2.after(flags).0;
            let s4 = s3.after(data).0;
            let empty = (flags as u32) / 16 % 2 == 1;
            &&& s1.call_of() == (SerialCall::WriteRegister { at: 0x1000_0044, value: 0x10 })
            &&& s2.call_of() == (SerialCall::ReadRegister { at: 0x1000_0018 })
            &&& empty ==> s3.call_of() == (SerialCall::WaitInterrupt { interrupt: s.interrupt })
            &&& !empty ==> s3.call_of() == (SerialCall::ReadRegister { at: 0x1000_0000 })
            &&& !empty ==> s4.call_of() == (SerialCall::Send {
                console: s.console,
                byte: (data as u32 % 256) as u8,
            })
            &&& !empty ==> s4.after(x).0.call_of() == (SerialCall::ReadRegister { at: 0x1000_0018 })
        }),
{
}

/// A step that fails ends the driver with code 1, and the message names the step.
pub proof fn failed_steps_are_named(s: Serial, raw: u64)
    ensures
        ({
            let out = Serial { phase: SerialPhase::Failed, ..s };
            &&& out.call_of() == (SerialCall::Exit { code: 1 })
            &&& s.phase is Mint ==> s.after(u64::MAX) == (out, "drv-serial: vmo mint failed\n"@)
            &&& s.phase is MapIn && raw != 0 ==> s.after(raw) == (out, "drv-serial: map failed\n"@)
            &&& s.phase is Interrupt ==> s.after(u64::MAX) == (out, "drv-serial: irq failed\n"@)
        }),
{
}

} // verus!

//! The serial driver.

use kumo_userland::abi::{Handle, NO_HANDLE};
use kumo_userland::drv_serial::{
    rx_byte, rx_empty, unmasked, Serial, SerialCall, SerialPhase, INITIALIZED, IRQ_FAILED,
    MAP_FAILED, MAP_VIRT, MINT_FAILED, UARTDR, UARTFR, UARTICR, UARTIMSC, UART_IRQ,
};

#[test]
fn the_flag_tells_an_empty_queue() {
    assert!(rx_empty(0x10));
    assert!(rx_empty(0x90));
    assert!(!rx_empty(0x8f));
    assert_eq!(rx_byte(0x1_41), 0x41);
    assert_eq!(unmasked(0x3), 0x13);
}

#[test]
fn startup_failures_are_reported() {
    let mut s = Serial::new(Handle(1), Handle(2));
    assert_eq!(s.advance(NO_HANDLE), MINT_FAILED);
    assert_eq!(s.call(), SerialCall::Exit { code: 1 });
    let mut s = Serial::new(Handle(1), Handle(2));
    s.advance(7);
    assert_eq!(s.call(), SerialCall::MapIn { vmo: Handle(7) });
    assert_eq!(s.advance(1), MAP_FAILED);
    let mut s = Serial::new(Handle(1), Handle(2));
    s.advance(7);
    s.advance(0);
    assert_eq!(s.call(), SerialCall::CreateInterrupt { irq: UART_IRQ });
    assert_eq!(s.advance(NO_HANDLE), IRQ_FAILED);
    assert_eq!(s.phase, SerialPhase::Failed);
}

#[test]
fn bytes_are_forwarded_until_the_queue_is_empty() {
    let mut s = Serial::new(Handle(1), Handle(2));
    assert_eq!(s.call(), SerialCall::Mint { resource: Handle(1) });
    s.advance(7);
    s.advance(0);
    s.advance(8);
    let read = |at: u64| SerialCall::ReadRegister { at: MAP_VIRT + at };
    assert_eq!(s.call(), read(UARTIMSC));
    s.advance(0x3);
    assert_eq!(
        s.call(),
        SerialCall::WriteRegister {
            at: MAP_VIRT + UARTIMSC,
            value: 0x13
        }
    );
    assert_eq!(s.advance(0), INITIALIZED);
    assert_eq!(s.call(), SerialCall::WaitInterrupt { interrupt: Handle(8) });
    s.advance(0);
    assert_eq!(
        s.call(),
        SerialCall::WriteRegister {
            at: MAP_VIRT + UARTICR,
            value: 0x10
        }
    );
    s.advance(0);
    for byte in *b"hi" {
        assert_eq!(s.call(), read(UARTFR));
        s.advance(0);
        assert_eq!(s.call(), read(UARTDR));
        s.advance(0xf00 + byte as u64);
        assert_eq!(
            s.call(),
            SerialCall::Send {
                console: Handle(2),
                byte
            }
        );
        s.advance(0);
    }
    s.advance(0x10);
    assert_eq!(s.call(), SerialCall::WaitInterrupt { interrupt: Handle(8) });
}

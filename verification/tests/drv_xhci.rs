//! The USB host controller driver.

use kumo_userland::abi::{Handle, NO_HANDLE};
use kumo_userland::drv_xhci::bringup::{
    deliveries, Bringup, Built, Command, Completion, Endpoint, Hid, KeyPhase, Phase, Queued,
    UsbCall, UsbEvent,
};
use kumo_userland::drv_xhci::events::{EventWait, Poll, RingEvent, Waited, Want};
use kumo_userland::drv_xhci::ladder::{
    noop_seen, Caps, Ladder, LadderCall, LadderEvent, Layout, NoOp, NoOpWait, ResetWait,
    ResetWaited, XhciConfig,
};
use kumo_userland::drv_xhci::ports::{PortAction, PortRounds, PortScan, PortState, PORT_POLL_LIMIT};
use kumo_userland::drv_xhci::setup::Setup;
use kumo_userland::drv_xhci::words::{
    align_up, cover_endpoint, data_stage_words, downstream_device, ep0_max_packet, erdp_words,
    evaluate_context_words, hub_port_speed, keyboard_channel, loud_command, loud_interrupter,
    quiet_command, quiet_interrupter, scratchpad_count, scratchpad_entries, scratchpad_len,
    slot_context_words, xhci_interval, Deadline, Device, SlotWords,
};

#[test]
fn intervals_become_exponents() {
    assert_eq!(xhci_interval(1, 0), 3);
    assert_eq!(xhci_interval(1, 10), 6);
    assert_eq!(xhci_interval(2, 255), 10);
    assert_eq!(xhci_interval(3, 0), 0);
    assert_eq!(xhci_interval(3, 4), 3);
    assert_eq!(xhci_interval(4, 200), 15);
}

#[test]
fn context_words_hold_their_fields() {
    let words = slot_context_words(0x12345, 3, 1, 5, 7, 2);
    assert_eq!(
        words,
        SlotWords {
            dw0: 0x0831_2345,
            dw1: 0x0005_0000,
            dw2: 0x0000_0207,
        }
    );
    assert_eq!(cover_endpoint(words, 3).dw0, 0x1831_2345);
    assert_eq!(erdp_words(0x1_2345_6789), (0x2345_6788, 1));
    assert_eq!(data_stage_words(0x2_0000_0010, 18), (0x10, 2, 18, 0x1_0c00));
    assert_eq!(evaluate_context_words(0x3000, 4), (0x3000, 0, 0, 0x0400_3400));
}

#[test]
fn register_words_change_only_their_bits() {
    assert_eq!(quiet_command(0xffff_ffff), 0xffff_fffa);
    assert_eq!(loud_command(1), 5);
    assert_eq!(quiet_interrupter(3), 1);
    assert_eq!(loud_interrupter(1), 3);
}

#[test]
fn speeds_decide_packets_and_translation() {
    assert_eq!(ep0_max_packet(1), 8);
    assert_eq!(ep0_max_packet(2), 8);
    assert_eq!(ep0_max_packet(3), 64);
    assert_eq!(ep0_max_packet(4), 512);
    assert_eq!(hub_port_speed(0), None);
    assert_eq!(hub_port_speed(0x002), Some(1));
    assert_eq!(hub_port_speed(0x202), Some(2));
    assert_eq!(hub_port_speed(0x402), Some(3));
    let hub = Device {
        slot: 1,
        va: 0,
        phys: 0,
        speed: 3,
        root_port: 4,
        route: 0,
        tt_slot: 0,
        tt_port: 0,
    };
    let slow = downstream_device(hub, 2, 1, 5, 0x10, 0x20);
    assert_eq!((slow.tt_slot, slow.tt_port), (1, 2));
    assert_eq!((slow.route, slow.root_port, slow.slot), (2, 4, 5));
    let fast = downstream_device(hub, 2, 3, 5, 0x10, 0x20);
    assert_eq!((fast.tt_slot, fast.tt_port), (0, 0));
}

#[test]
fn memory_is_counted_in_pages() {
    assert_eq!(align_up(5, 4), Some(8));
    assert_eq!(align_up(u64::MAX, 4), None);
    assert_eq!(scratchpad_count(0x0820_0000), 33);
    assert_eq!(scratchpad_len(3), 12288);
    assert_eq!(scratchpad_entries(0x1000, 2), vec![0x1000, 0x2000]);
}

#[test]
fn deadlines_and_channels_are_checked() {
    let end = Deadline::after(100, 50);
    assert!(!end.expired(149));
    assert!(end.expired(150));
    assert!(!Deadline::after(u64::MAX, 5).expired(7));
    assert_eq!(keyboard_channel(b"k", 9), 9);
    assert_eq!(keyboard_channel(b"K", 9), 0);
    assert_eq!(keyboard_channel(b"k", 0), 0);
    assert_eq!(keyboard_channel(b"k", NO_HANDLE), 0);
}

#[test]
fn setup_packets_follow_the_standard() {
    assert_eq!(
        Setup::DeviceDescriptor { len: 18 }.packet(),
        [0x80, 6, 0, 1, 0, 0, 18, 0]
    );
    assert_eq!(
        Setup::ConfigDescriptor { len: 300 }.packet(),
        [0x80, 6, 0, 2, 0, 0, 44, 1]
    );
    assert_eq!(Setup::SetConfiguration { value: 1 }.packet(), [0, 9, 1, 0, 0, 0, 0, 0]);
    assert_eq!(
        Setup::SetPortFeature { feature: 8, port: 3 }.packet(),
        [0x23, 3, 8, 0, 3, 0, 0, 0]
    );
    assert_eq!(Setup::PortStatus { port: 3 }.packet(), [0xa3, 0, 0, 0, 3, 0, 4, 0]);
    assert_eq!(Setup::PortStatus { port: 3 }.data_len(), 4);
}

#[test]
fn ports_are_reset_once() {
    let state = |connected, enabled| PortState {
        raw: 0x00fe_0e03,
        connected,
        enabled,
        speed: 3,
    };
    let mut scan = PortScan::new();
    assert_eq!(scan.look(0, state(false, false)), PortAction::Nothing);
    assert_eq!(scan.look(0, state(true, false)), PortAction::Reset { value: 0x0e11 });
    assert_eq!(scan.look(0, state(true, false)), PortAction::Nothing);
    assert_eq!(scan.look(0, state(true, true)), PortAction::Found { port: 1, speed: 3 });
    assert_eq!(scan.look(16, state(true, false)), PortAction::Nothing);
}

#[test]
fn waits_end_with_the_event_or_the_limit() {
    let mut wait = EventWait::new(Want::Command { iova: 0x40 }, 3);
    let event = RingEvent::Command {
        command_iova: 0x40,
        parameter: 0,
        completion_code: 1,
        slot: 2,
    };
    assert_eq!(wait.step(Poll::Empty), Waited::Again);
    assert_eq!(wait.step(Poll::Event(event)), Waited::Came(event));
    let mut wait = EventWait::new(Want::Transfer { slot: 9 }, 2);
    assert_eq!(wait.step(Poll::Event(event)), Waited::Again);
    assert_eq!(wait.step(Poll::Empty), Waited::Failed);
    let mut wait = EventWait::new(Want::Transfer { slot: 9 }, 2);
    assert_eq!(wait.step(Poll::Broken), Waited::Failed);
}

fn controller() -> XhciConfig {
    XhciConfig {
        mmio_base: 0x0a60_0000,
        mmio_length: 0x10000,
        irq: 0x1234,
        stream: Some(0x20),
    }
}

fn climb(call: LadderCall) -> LadderEvent {
    match call {
        LadderCall::ReadConfig => LadderEvent::Config(Some(controller()), 5),
        LadderCall::MintMmio { .. } => LadderEvent::Returned(6),
        LadderCall::MapMmio { .. } | LadderCall::MapPage { .. } => LadderEvent::Returned(0),
        LadderCall::ReadCaps => LadderEvent::Caps(
            Some(Caps {
                caplength: 0x20,
                hciversion: 0x110,
                slots: 64,
                interrupters: 8,
                ports: 4,
                context_bytes: 32,
                xecp: 0,
            }),
            (1, 2, 3),
        ),
        LadderCall::ReadLayout => LadderEvent::Layout(
            Some(Layout {
                operational: 0x20,
                runtime: 0x400,
                doorbell: 0x800,
                command_ring: 0x38,
                dcbaa: 0x50,
                erst_size: 0x428,
                usbcmd: 0,
                usbsts: 1,
                page_size: 1,
                running: false,
                reset: false,
                halted: true,
                not_ready: false,
                system_error: false,
                pages_4k: true,
                ring_ready: true,
            }),
            (0x400, 0x800),
            Vec::new(),
        ),
        LadderCall::AllocPage => LadderEvent::Page(7, 0x9000),
        LadderCall::ReadScratchpads => LadderEvent::Returned(2),
        LadderCall::WaitNoOp => LadderEvent::NoOp(NoOp::Completed {
            cc: 1,
            slot: 0,
            parameter: 0,
        }),
        LadderCall::AllocScratchpads { .. } => LadderEvent::Page(8, 0xa000),
        LadderCall::BringUpDevices | LadderCall::Quiesce => LadderEvent::Returned(0),
        _ => LadderEvent::Done(true),
    }
}

#[test]
fn the_ladder_reaches_the_devices_and_rests() {
    let mut ladder = Ladder::new();
    let mut seen = Vec::new();
    let mut log = Vec::new();
    while !matches!(ladder.call(), LadderCall::Exit { .. }) {
        let call = ladder.call();
        seen.push(call);
        log.extend(ladder.advance(&climb(call)));
        assert!(seen.len() < 40);
    }
    assert!(seen.contains(&LadderCall::BringUpDevices));
    assert_eq!(seen.last(), Some(&LadderCall::Quiesce));
    assert_eq!(ladder.call(), LadderCall::Exit { code: 0 });
    assert!(log.starts_with(b"drv-xhci: usb0 mmio=0xa600000 len=0x10000 irq=0x1234 stream=0x20\n"));
}

#[test]
fn a_bad_start_message_ends_the_driver() {
    let mut ladder = Ladder::new();
    assert_eq!(
        ladder.advance(&LadderEvent::Config(None, 0)),
        b"drv-xhci: bad bootstrap\n"
    );
    assert_eq!(ladder.call(), LadderCall::Exit { code: 1 });
}

#[test]
fn reset_waits_are_bounded() {
    let mut wait = ResetWait::new(2);
    assert_eq!(wait.step(true, false), ResetWaited::Again);
    assert_eq!(wait.step(true, true), ResetWaited::Ready);
    let mut wait = ResetWait::new(1);
    assert!(!matches!(wait.step(false, true), ResetWaited::Again | ResetWaited::Ready));
}

const ENDPOINT: Endpoint = Endpoint {
    address: 0x81,
    max_packet: 8,
    interval: 10,
};

fn control_data(setup: Setup) -> Vec<u8> {
    let mut data = vec![0u8; 256];
    match setup {
        Setup::DeviceDescriptor { .. } => {
            data[0] = 18;
            data[1] = 1;
            data[7] = 8;
        }
        Setup::ConfigDescriptor { .. } => {
            data[0] = 9;
            data[1] = 2;
            data[2] = 34;
            data[5] = 1;
        }
        _ => {}
    }
    data
}

/// A root port with a boot keyboard on it.
fn keyboard(call: UsbCall) -> UsbEvent {
    match call {
        UsbCall::AllocPage => UsbEvent::Page(7, 0x9000),
        UsbCall::FindPort => UsbEvent::Port(Some((1, 1)), vec![0x603]),
        UsbCall::Command(_) => UsbEvent::Command(Completion::Completed {
            cc: 1,
            slot: 3,
            index: 3,
        }),
        UsbCall::BuildContexts { .. } => UsbEvent::Built(Built::Ready),
        UsbCall::Control { setup, .. } => UsbEvent::Control(Some((1, 0)), control_data(setup)),
        UsbCall::FindHid { .. } => UsbEvent::Interface(Some(Hid {
            interface: 0,
            protocol: 1,
            endpoint: ENDPOINT,
            keyboard: true,
        })),
        UsbCall::FindInterrupt { .. } => UsbEvent::Endpoint(None),
        UsbCall::MakeRing { .. } => UsbEvent::Ready(true),
        UsbCall::CreateInterrupt { .. } => UsbEvent::Returned(40),
        UsbCall::CreatePort => UsbEvent::Returned(41),
        UsbCall::Queue { .. } => UsbEvent::Queued(Queued::Done),
        UsbCall::Service { .. } | UsbCall::Poll { .. } => {
            UsbEvent::Transfer(Some(1), vec![0, 0, 4, 0, 0, 0, 0, 0], b"a".to_vec())
        }
        _ => UsbEvent::Returned(0),
    }
}

#[test]
fn a_keyboard_is_brought_up_and_served() {
    let mut usb = Bringup::new(0x1234);
    let mut calls = Vec::new();
    while usb.phase != Phase::Keys(KeyPhase::Wait) {
        let call = usb.call();
        calls.push(call);
        usb.advance(&keyboard(call));
        assert!(calls.len() < 60, "no keyboard after {calls:?}");
    }
    assert!(calls.contains(&UsbCall::Command(Command::EnableSlot)));
    assert!(calls.iter().any(|c| matches!(
        c,
        UsbCall::Control {
            setup: Setup::SetBootProtocol { interface: 0 },
            ..
        }
    )));
    assert!(calls.contains(&UsbCall::CreateInterrupt { irq: 0x1234 }));
    // Each interrupt is serviced and completed, and a transfer is queued for the next report.
    let mut round = Vec::new();
    for _ in 0..8 {
        let call = usb.call();
        round.push(call);
        usb.advance(&keyboard(call));
    }
    assert!(matches!(round[0], UsbCall::WaitInterrupt { .. }));
    assert!(round.iter().any(|c| matches!(c, UsbCall::Service { .. })));
    assert!(round.iter().any(|c| matches!(c, UsbCall::Complete { interrupt: Handle(40) })));
    assert!(round.iter().any(|c| matches!(c, UsbCall::Queue { len: 8, .. })));
}

#[test]
fn every_early_failure_ends_the_work() {
    let mut usb = Bringup::new(1);
    usb.advance(&UsbEvent::Page(NO_HANDLE, 0));
    assert_eq!(usb.phase, Phase::Done);
    assert_eq!(usb.call(), UsbCall::Nothing);
    let mut usb = Bringup::new(1);
    usb.advance(&UsbEvent::Page(7, 0x9000));
    usb.advance(&UsbEvent::Returned(0));
    usb.advance(&UsbEvent::Port(None, Vec::new()));
    assert_eq!(usb.phase, Phase::Done);
}

#[test]
fn keys_are_delivered_to_a_granted_channel() {
    let keys = vec![b"a".to_vec(), b"\x1b[A".to_vec()];
    assert_eq!(deliveries(0, keys.clone()), Vec::<Vec<u8>>::new());
    assert_eq!(deliveries(5, keys).concat(), b"a\x1b[A");
}

#[test]
fn the_proving_command_is_told_from_other_events() {
    let event = |iova| {
        Poll::Event(RingEvent::Command {
            command_iova: iova,
            parameter: 7,
            completion_code: 1,
            slot: 0,
        })
    };
    assert_eq!(
        noop_seen(event(0x40), 0x40),
        Some(NoOp::Completed {
            cc: 1,
            slot: 0,
            parameter: 7
        })
    );
    assert_eq!(noop_seen(event(0x50), 0x40), None);
    assert_eq!(noop_seen(Poll::Empty, 0x40), None);
    assert_eq!(noop_seen(Poll::Broken, 0x40), Some(NoOp::Broken));
    assert_eq!(noop_seen(Poll::Event(RingEvent::Other), 0x40), None);
}

#[test]
fn the_wait_for_the_proving_command_is_bounded() {
    let mut wait = NoOpWait::new(0x40, 3);
    assert_eq!(wait.step(Poll::Empty), None);
    assert_eq!(wait.step(Poll::Event(RingEvent::Other)), None);
    assert_eq!(wait.step(Poll::Empty), Some(NoOp::TimedOut));
    let mut wait = NoOpWait::new(0x40, 3);
    assert_eq!(wait.step(Poll::Broken), Some(NoOp::Broken));
}

#[test]
fn the_search_for_a_port_is_bounded() {
    assert_eq!(PortRounds::new().left, PORT_POLL_LIMIT);
    let mut rounds = PortRounds { left: 2 };
    assert!(rounds.next() && rounds.next());
    assert!(!rounds.next() && !rounds.next());
    let mut scan = PortScan::new();
    let found = PortState {
        raw: 3,
        connected: true,
        enabled: true,
        speed: 4,
    };
    assert_eq!(
        scan.look(254, found),
        PortAction::Found { port: 255, speed: 4 }
    );
}

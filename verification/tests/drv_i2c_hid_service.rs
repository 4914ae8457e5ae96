//! Starting the I2C keyboard driver and serving its interrupts.

use kumo_userland::abi::NO_HANDLE;
use kumo_userland::bus_config::SourceClock;
use kumo_userland::drv_i2c_hid::config::ProbeConfig;
use kumo_userland::drv_i2c_hid::report::InputProbeError;
use kumo_userland::drv_i2c_hid::serve::{
    push_error, stats_report, Forwarded, FrameAction, HidLoop, KeyAction,
};
use kumo_userland::drv_i2c_hid::startup::{
    caps_lock_led, channel_ok, frame_length, led_error_code, milestones, startup_latency,
    Described, Descriptor, HidStart, LedReport, LedSyncError, MouseFound, OutputPath, Reported,
    Reports, StartCall, StartEvent, StartPhase, Synced, Told,
};
use kumo_userland::drv_i2c_hid::stats::{
    DeviceQuirks, StartupLatencyTrace, StartupMilestone, ELAN_VENDOR_ID,
};
use kumo_userland::hid::{DecodeError, InputFrame, KeyEvent, ProtocolError};

fn device(vendor_id: u16) -> Descriptor {
    Descriptor {
        vendor_id,
        product_id: 7,
        report_descriptor_length: 64,
        report_descriptor_register: 2,
        input_register: 3,
        max_input_length: 16,
        output_register: 4,
        max_output_length: 4,
        command_register: 5,
        data_register: 6,
    }
}

const LED: LedReport = LedReport {
    report_id: Some(1),
    payload_bytes: 2,
    caps_lock_bit: Some(9),
};

fn config() -> ProbeConfig {
    ProbeConfig {
        mmio_base: 0x88_0000,
        mmio_length: 0x4000,
        bus_frequency_hz: 400_000,
        source_clock: SourceClock::Mhz19_2,
        i2c_address: 0x15,
        hid_descriptor_register: 1,
        attention_irq: 0x4000_0068,
    }
}

fn answer(call: StartCall, vendor: u16, led: Option<LedReport>) -> StartEvent {
    match call {
        StartCall::ReadConfig => StartEvent::Told(Told::Config(config())),
        StartCall::MintMmio { .. } | StartCall::CreateAttention { .. } => StartEvent::Returned(9),
        StartCall::MapMmio { .. } => StartEvent::Returned(0),
        StartCall::OpenController { .. }
        | StartCall::PowerOn { .. }
        | StartCall::Reset { .. } => StartEvent::Tried(None),
        StartCall::ReadDescriptor { .. } => {
            StartEvent::Described(Described::Device(device(vendor)))
        }
        StartCall::ReadFrame { .. } => StartEvent::Synced(Synced::Frame(vec![0, 0])),
        StartCall::ReadReports { .. } => StartEvent::Reported(Reported::Reports(Reports {
            keyboard_id: Some(1),
            mouse: MouseFound::Report(Some(2)),
            led,
        })),
        StartCall::ClearLed { .. } => StartEvent::Lamps(None),
        _ => StartEvent::Done(true),
    }
}

fn start(vendor: u16, led: Option<LedReport>) -> (HidStart, Vec<StartCall>, Vec<u8>) {
    let mut hid = HidStart::new();
    let mut calls = Vec::new();
    let mut log = Vec::new();
    while hid.phase != StartPhase::Ready && hid.phase != StartPhase::Exit {
        let call = hid.call();
        calls.push(call);
        log.extend(hid.advance(&answer(call, vendor, led)));
        assert!(calls.len() < 30);
    }
    (hid, calls, log)
}

#[test]
fn a_good_device_is_started_and_served() {
    let (hid, calls, log) = start(0x1234, Some(LED));
    assert_eq!(hid.call(), StartCall::Serve);
    assert!(log.starts_with(b"drv-i2c-hid: config ok\ndrv-i2c-hid: keyboard channel ok\n"));
    assert!(calls.contains(&StartCall::CreateAttention {
        irq: 0x4000_0068,
        falling: false
    }));
    assert!(calls.contains(&StartCall::ReadReports {
        address: 0x15,
        register: 2,
        count: 64
    }));
    assert!(calls.contains(&StartCall::ClearLed { led: LED }));
    let woken = calls
        .iter()
        .filter(|c| matches!(c, StartCall::PowerOn { address: 0x15, register: 5 }))
        .count();
    assert_eq!(woken, 2);
}

#[test]
fn devices_with_quirks_are_not_woken_again() {
    let (hid, calls, _) = start(ELAN_VENDOR_ID, None);
    assert_eq!(hid.phase, StartPhase::Ready);
    assert!(calls.contains(&StartCall::CreateAttention {
        irq: 0x4000_0068,
        falling: true
    }));
    let woken = calls
        .iter()
        .filter(|c| matches!(c, StartCall::PowerOn { .. }))
        .count();
    assert_eq!(woken, 1);
}

#[test]
fn failures_end_the_start_and_are_logged() {
    let mut hid = HidStart::new();
    assert_eq!(
        hid.advance(&StartEvent::Told(Told::Nothing)),
        b"drv-i2c-hid: bootstrap failed\n"
    );
    assert_eq!(hid.call(), StartCall::Exit);
    let mut hid = HidStart::new();
    hid.advance(&StartEvent::Told(Told::Config(config())));
    hid.advance(&StartEvent::Done(true));
    hid.advance(&StartEvent::Done(true));
    assert_eq!(
        hid.advance(&StartEvent::Returned(NO_HANDLE)),
        b"drv-i2c-hid: MMIO mint failed\n"
    );
    assert_eq!(hid.phase, StartPhase::Exit);
}

#[test]
fn steps_are_timed_once_they_are_reached() {
    assert_eq!(
        milestones(StartPhase::Settle, StartPhase::Reset),
        vec![
            StartupMilestone::PowerSettleDone,
            StartupMilestone::ResetBegin
        ]
    );
    assert_eq!(milestones(StartPhase::Settle, StartPhase::Exit), vec![]);
    let mut trace = StartupLatencyTrace::new(100);
    trace.record(StartupMilestone::ConfigOk, 150);
    let report = startup_latency(trace);
    assert!(report.starts_with(b"drv-i2c-hid: startup-latency-ns begin\n"));
    assert!(report.ends_with(b"drv-i2c-hid: startup-latency-ns end\n"));
}

#[test]
fn lamps_go_by_the_way_the_device_offers() {
    assert_eq!(
        caps_lock_led(device(1), LED, true),
        Ok((OutputPath::Plain, vec![0, 2]))
    );
    let mut d = device(1);
    d.output_register = 0;
    assert_eq!(
        caps_lock_led(d, LED, false),
        Ok((OutputPath::Command, vec![0, 0]))
    );
    d.data_register = 0;
    assert_eq!(caps_lock_led(d, LED, true), Err(LedSyncError::NoOutputPath));
    let none = LedReport {
        caps_lock_bit: None,
        ..LED
    };
    assert_eq!(
        caps_lock_led(d, none, true),
        Err(LedSyncError::NoCapsLockLed)
    );
    let long = LedReport {
        payload_bytes: 17,
        ..LED
    };
    assert_eq!(
        caps_lock_led(d, long, true),
        Err(LedSyncError::PayloadTooLong)
    );
    assert_eq!(led_error_code(LedSyncError::Transfer), 4);
}

#[test]
fn messages_and_frames_are_measured() {
    assert!(channel_ok(b"k", b'k', 3));
    assert!(!channel_ok(b"k", b'k', 0));
    assert!(!channel_ok(b"kk", b'k', 3));
    assert_eq!(frame_length(&[0x10, 0x01, 9]), 0x110);
    assert_eq!(frame_length(&[7]), 0);
}

const QUIRKS: DeviceQuirks = DeviceQuirks {
    no_wakeup_after_reset: false,
    bogus_irq: false,
    force_trigger_falling: false,
};

#[test]
fn empty_frames_pause_after_a_run() {
    let mut hid = HidLoop::new(QUIRKS, None, None);
    let mut pauses = 0;
    for _ in 0..16 {
        let step = hid.on_frame(&[0, 0], Ok(InputFrame::Reset), Err(ProtocolError::Truncated));
        if step.action == (FrameAction::Idle { pause: true }) {
            pauses += 1;
        }
    }
    assert_eq!(pauses, 2);
    assert_eq!(hid.stats().frames, 16);
    assert_eq!(hid.stats().reset_frames, 16);
}

#[test]
fn keys_are_decoded_and_losses_counted() {
    let raw = [11u8, 0, 1, 0, 0, 4, 0, 0, 0, 0, 0];
    let frame = Ok(InputFrame::Report(&raw[2..]));
    let mut hid = HidLoop::new(QUIRKS, Some(1), None);
    let key = KeyEvent {
        usage: 4,
        pressed: true,
        ascii: Some(b'a'),
        terminal: Vec::new(),
    };
    match hid.on_keys(&raw, frame, Ok(vec![key])) {
        KeyAction::Keys { probe, lamp } => {
            assert_eq!(&probe.pressed_ascii[..probe.pressed_ascii_len], b"a");
            assert_eq!(lamp, None);
        }
        KeyAction::Dropped { .. } => panic!("dropped"),
    }
    assert_eq!(hid.on_key_sent(true), Forwarded::Sent);
    assert_eq!(hid.on_key_sent(false), Forwarded::Lost(Some(1)));
    assert_eq!(hid.stats().forwarded_ascii, 1);
    assert_eq!(hid.stats().keyboard_write_drops, 1);
}

#[test]
fn bad_reports_are_logged_a_few_times_only() {
    let raw = [4u8, 0, 9, 9];
    let mut hid = HidLoop::new(QUIRKS, None, None);
    for n in 1..=6 {
        let frame = Ok(InputFrame::Report(&raw[2..]));
        let error = InputProbeError::Decode(DecodeError::Rollover);
        match hid.on_keys(&raw, frame, Err(error)) {
            KeyAction::Dropped { count, .. } => {
                assert_eq!(count, if n <= 4 { Some(n) } else { None })
            }
            KeyAction::Keys { .. } => panic!("decoded"),
        }
    }
    assert_eq!(hid.stats().decode_errors, 6);
    for n in 0..5 {
        assert_eq!(hid.on_lamp_failure(), n < 4);
        assert_eq!(
            hid.on_pointer_sent(false),
            Forwarded::Lost(if n < 4 { Some(n + 1) } else { None })
        );
    }
    assert!(!hid.caps_lock());
    let mut out = Vec::new();
    push_error(
        &mut out,
        InputProbeError::Decode(DecodeError::Rollover),
        1,
    );
    assert!(!out.is_empty());
    assert!(!stats_report(&hid.stats(), 0, 1).is_empty());
}

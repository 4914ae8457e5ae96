//! The I2C keyboard and touchpad driver.

use kumo_userland::drv_i2c_hid::config::{
    ConfigError, OptionalProbeCandidate, OptionalProbeCandidates, ProbeConfig, ProbeFailurePolicy,
    ProbePlan, OPTIONAL_PROBE_BOOTSTRAP_TAG,
};
use kumo_userland::drv_i2c_hid::report::{
    bounded_input_frame_len, bounded_report_descriptor_len, classify_input_report,
    classify_input_report_with_mouse, decode_input_probe, decode_mouse_event, decode_mouse_probe,
    decode_with_quirks, decode_with_quirks_and_caps_lock, encode_mouse_event, InputProbe,
    InputProbeError, InputReportClass, ReportProbeError, MAX_INPUT_FRAME_BYTES,
    MAX_PRESSED_ASCII_BYTES, MAX_PRESSED_TERMINAL_BYTES, MAX_REPORT_DESCRIPTOR_BYTES,
};
use kumo_userland::drv_i2c_hid::stats::{
    should_log_input_report_stats, should_log_input_report_stats_snapshot, BoundedFailureLog,
    DeviceQuirks, InputReportStats, ResetStormGuard, StartupLatencyTrace, StartupMilestone,
    ELAN_VENDOR_ID, INPUT_REPORT_STATS_FIRST_LOG_FRAME, INPUT_REPORT_STATS_LOG_LIMIT,
    RESET_STORM_YIELD_AFTER, SOFT_FAILURE_LOG_LIMIT,
};
use kumo_userland::hid::{
    AttentionIrq, BootMouseReport, DecodeError, HidDeviceKind, HidDeviceTopology,
    I2cHidBusTopology, InputFrame, KeyEvent, KeyboardTopology, MouseButtons, MouseReport,
    ProtocolError,
};
use kumo_userland::bus_config::SourceClock;

fn probe(
    event_count: usize,
    first_pressed_usage: Option<u8>,
    first_pressed_ascii: Option<u8>,
    ascii: &[u8],
) -> InputProbe {
    probe_with_terminal(
        event_count,
        first_pressed_usage,
        first_pressed_ascii,
        ascii,
        ascii,
    )
}

fn probe_with_terminal(
    event_count: usize,
    first_pressed_usage: Option<u8>,
    first_pressed_ascii: Option<u8>,
    ascii: &[u8],
    terminal: &[u8],
) -> InputProbe {
    let mut pressed_ascii = [0; MAX_PRESSED_ASCII_BYTES];
    pressed_ascii[..ascii.len()].copy_from_slice(ascii);
    let mut pressed_terminal = [0; MAX_PRESSED_TERMINAL_BYTES];
    pressed_terminal[..terminal.len()].copy_from_slice(terminal);
    InputProbe {
        event_count,
        first_pressed_usage,
        first_pressed_ascii,
        caps_lock_toggle: false,
        pressed_ascii,
        pressed_ascii_len: ascii.len(),
        pressed_terminal,
        pressed_terminal_len: terminal.len(),
    }
}

const MAX_DEVICES: usize = 4;

type Plan = ProbePlan<MAX_DEVICES>;

type Candidates = OptionalProbeCandidates<MAX_DEVICES>;

const LEFT_SHIFT: u8 = 0x02;

/// An attention line as the kernel encodes it: a mark, the trigger and the pin.
fn tlmm_gpio_irq(pin: u32, flags: u32) -> u32 {
    0x8000_0000 | flags << 16 | pin
}

fn is_gpio(irq: u32) -> bool {
    irq & 0x8000_0000 != 0
}

fn attention(pin: u32) -> AttentionIrq {
    AttentionIrq {
        encoded: tlmm_gpio_irq(pin, 8),
        is_gpio: true,
    }
}

fn topology() -> KeyboardTopology {
    KeyboardTopology {
        controller_mmio_base: 0x0089_4000,
        controller_mmio_length: 0x4000,
        bus_frequency_hz: 400_000,
        i2c_address: 0x68,
        hid_descriptor_register: 1,
        keyboard_interrupt: attention(104),
    }
}

fn x13s_bus() -> I2cHidBusTopology {
    I2cHidBusTopology {
        controller_mmio_base: 0x0089_4000,
        controller_mmio_length: 0x4000,
        bus_frequency_hz: 400_000,
        devices: vec![
            HidDeviceTopology {
                kind: HidDeviceKind::Touchpad,
                i2c_address: 0x15,
                hid_descriptor_register: 1,
                interrupt: attention(182),
            },
            HidDeviceTopology {
                kind: HidDeviceKind::Touchpad,
                i2c_address: 0x2c,
                hid_descriptor_register: 0x20,
                interrupt: attention(182),
            },
            HidDeviceTopology {
                kind: HidDeviceKind::Keyboard,
                i2c_address: 0x68,
                hid_descriptor_register: 1,
                interrupt: attention(104),
            },
        ],
    }
}

fn x13s_probe_plan() -> Plan {
    ProbePlan::for_x13s(&x13s_bus()).unwrap()
}

/// A device frame: a length and as many bytes as it counts, its own two among them.
fn parse(raw: &[u8]) -> Result<InputFrame<'_>, ProtocolError> {
    if raw.len() < 2 {
        return Err(ProtocolError::Truncated);
    }
    let length = raw[0] as usize + 256 * raw[1] as usize;
    if length == 0 {
        Ok(InputFrame::Reset)
    } else if length < 2 || length > raw.len() {
        Err(ProtocolError::InvalidInputLength)
    } else {
        Ok(InputFrame::Report(&raw[2..length]))
    }
}

/// The body of a report, behind its number if it has one.
fn body<'a>(
    raw: &'a [u8],
    report_id: Option<u8>,
    len: usize,
    wrong: ProtocolError,
) -> Result<&'a [u8], ProtocolError> {
    let InputFrame::Report(report) = parse(raw)? else {
        return Err(wrong);
    };
    match report_id {
        Some(id) if report.first() != Some(&id) => Err(ProtocolError::UnexpectedReportId),
        Some(_) if report.len() == len + 1 => Ok(&report[1..]),
        None if report.len() == len => Ok(report),
        _ => Err(wrong),
    }
}

fn mouse(raw: &[u8], report_id: Option<u8>) -> Result<BootMouseReport, ProtocolError> {
    let report = body(raw, report_id, 3, ProtocolError::NotBootMouseReport)?;
    Ok(BootMouseReport {
        buttons: MouseButtons::from_bits(report[0]),
        x_delta: report[1] as i8,
        y_delta: report[2] as i8,
    })
}

/// The keys that a keyboard had down at its last report.
struct Decoder {
    held: Vec<u8>,
}

impl Decoder {
    fn new() -> Decoder {
        Decoder { held: Vec::new() }
    }

    fn event(usage: u8, pressed: bool, shift: bool) -> KeyEvent {
        let ascii = match usage {
            0x04..=0x1d => Some(usage - 0x04 + if shift { b'A' } else { b'a' }),
            _ => None,
        };
        let terminal: &[u8] = match usage {
            0x52 => b"\x1b[A",
            0x51 => b"\x1b[B",
            0x4f => b"\x1b[C",
            0x50 => b"\x1b[D",
            0x4a => b"\x1b[H",
            0x4d => b"\x1b[F",
            0x4c => b"\x1b[3~",
            _ => b"",
        };
        KeyEvent {
            usage,
            pressed,
            ascii,
            terminal: terminal.to_vec(),
        }
    }

    fn events(&mut self, raw: &[u8], report_id: Option<u8>) -> Result<Vec<KeyEvent>, InputProbeError> {
        let report = body(raw, report_id, 8, ProtocolError::NotBootKeyboardReport)
            .map_err(InputProbeError::Protocol)?;
        let now: Vec<u8> = report[2..].iter().copied().filter(|&u| u != 0).collect();
        if now.contains(&1) {
            return Err(InputProbeError::Decode(DecodeError::Rollover));
        }
        let shift = report[0] & LEFT_SHIFT != 0;
        let mut events = Vec::new();
        for &usage in self.held.iter().filter(|u| !now.contains(u)) {
            events.push(Decoder::event(usage, false, shift));
        }
        for &usage in now.iter().filter(|u| !self.held.contains(u)) {
            events.push(Decoder::event(usage, true, shift));
        }
        self.held = now;
        Ok(events)
    }

    fn decode(&mut self, raw: &[u8], report_id: Option<u8>) -> Result<InputProbe, InputProbeError> {
        let events = self.events(raw, report_id);
        decode_input_probe(raw, parse(raw), events)
    }

    fn decode_with_quirks(
        &mut self,
        raw: &[u8],
        report_id: Option<u8>,
        quirks: DeviceQuirks,
    ) -> Result<InputProbe, InputProbeError> {
        let events = self.events(raw, report_id);
        decode_with_quirks(raw, parse(raw), events, quirks)
    }

    fn decode_with_quirks_and_caps_lock(
        &mut self,
        raw: &[u8],
        report_id: Option<u8>,
        quirks: DeviceQuirks,
        caps_lock: bool,
    ) -> Result<InputProbe, InputProbeError> {
        let events = self.events(raw, report_id);
        decode_with_quirks_and_caps_lock(raw, parse(raw), events, quirks, caps_lock)
    }
}

fn decode_once(raw: &[u8], report_id: Option<u8>) -> Result<InputProbe, InputProbeError> {
    Decoder::new().decode(raw, report_id)
}

fn classify(raw: &[u8], report_id: Option<u8>, quirks: DeviceQuirks) -> InputReportClass {
    classify_input_report(raw, parse(raw), report_id, quirks)
}

fn classify_with_mouse(
    raw: &[u8],
    report_id: Option<u8>,
    mouse_report: Option<MouseReport>,
    quirks: DeviceQuirks,
) -> InputReportClass {
    let outcome = mouse(raw, mouse_report.and_then(|m| m.report_id));
    classify_input_report_with_mouse(raw, parse(raw), report_id, mouse_report, outcome, quirks)
}

fn mouse_probe(
    raw: &[u8],
    report: MouseReport,
    quirks: DeviceQuirks,
) -> Result<Option<BootMouseReport>, ProtocolError> {
    decode_mouse_probe(raw, parse(raw), mouse(raw, report.report_id), quirks)
}

#[test]
fn x13s_config_round_trips_without_carrying_authority() {
    let plan = x13s_probe_plan();
    let config = plan.keyboard().expect("X13s keyboard probe").config;
    assert_eq!(ProbeConfig::decode(&config.encode(), is_gpio), Ok(config));
    assert_eq!(config.source_clock, SourceClock::Mhz19_2);
    assert_eq!(config.mmio_base, 0x0089_4000);
    assert_eq!(config.i2c_address, 0x68);
    assert_eq!(config.attention_irq, tlmm_gpio_irq(104, 8));
}

#[test]
fn x13s_probe_plan_keeps_keyboard_required_and_touchpads_skippable() {
    let plan = x13s_probe_plan();
    let devices = plan.devices();

    assert_eq!(devices.len(), 3);
    assert_eq!(plan.required_count(), 1);
    assert_eq!(plan.optional_count(), 2);
    assert!(plan.can_skip_missing_address(0x15));
    assert!(plan.can_skip_missing_address(0x2c));
    assert!(!plan.can_skip_missing_address(0x68));

    assert_eq!(devices[0].kind, HidDeviceKind::Touchpad);
    assert_eq!(devices[0].failure_policy, ProbeFailurePolicy::Optional);
    assert_eq!(devices[0].config.i2c_address, 0x15);
    assert_eq!(devices[0].config.hid_descriptor_register, 1);
    assert_eq!(
        devices[0].config.attention_irq,
        tlmm_gpio_irq(182, 8)
    );

    assert_eq!(devices[1].kind, HidDeviceKind::Touchpad);
    assert_eq!(devices[1].failure_policy, ProbeFailurePolicy::Optional);
    assert_eq!(devices[1].config.i2c_address, 0x2c);
    assert_eq!(devices[1].config.hid_descriptor_register, 0x20);
    assert_eq!(
        devices[1].config.attention_irq,
        tlmm_gpio_irq(182, 8)
    );

    assert_eq!(devices[2].kind, HidDeviceKind::Keyboard);
    assert_eq!(devices[2].failure_policy, ProbeFailurePolicy::Required);
    assert_eq!(devices[2].config.i2c_address, 0x68);
    assert_eq!(devices[2].config.hid_descriptor_register, 1);
    assert_eq!(
        devices[2].config.attention_irq,
        tlmm_gpio_irq(104, 8)
    );
    assert_eq!(plan.keyboard(), Some(&devices[2]));
}

#[test]
fn optional_probe_candidates_carry_the_x13s_touchpads() {
    let plan = x13s_probe_plan();
    let candidates = plan.optional_probe_candidates();

    assert_eq!(
        candidates.candidates(),
        &[
            OptionalProbeCandidate {
                i2c_address: 0x15,
                hid_descriptor_register: 0x0001,
            },
            OptionalProbeCandidate {
                i2c_address: 0x2c,
                hid_descriptor_register: 0x0020,
            },
        ]
    );

    let encoded = candidates.encode();
    assert_eq!(encoded[0], OPTIONAL_PROBE_BOOTSTRAP_TAG);
    let decoded = Candidates::decode(&encoded).unwrap();
    assert_eq!(decoded, candidates);
}

#[test]
fn optional_probe_candidates_decode_rejects_malformed_messages() {
    let encoded = x13s_probe_plan().optional_probe_candidates().encode();

    assert_eq!(
        Candidates::decode(&encoded[..5]),
        Err(ConfigError::Truncated)
    );
    let mut bad_tag = encoded.clone();
    bad_tag[0] = b'X';
    assert_eq!(
        Candidates::decode(&bad_tag),
        Err(ConfigError::BadMagic)
    );
    let mut bad_count = encoded.clone();
    bad_count[1] = (MAX_DEVICES + 1) as u8;
    assert_eq!(
        Candidates::decode(&bad_count),
        Err(ConfigError::TooManyDevices)
    );
    let mut bad_address = encoded.clone();
    bad_address[2] = 0xa9;
    assert_eq!(
        Candidates::decode(&bad_address),
        Err(ConfigError::InvalidAddress)
    );
    assert!(Candidates::empty().candidates().is_empty());
}

#[test]
fn rejects_malformed_or_dangerous_bootstrap_data() {
    assert_eq!(ProbeConfig::decode(b"short", is_gpio), Err(ConfigError::Truncated));
    let mut raw = ProbeConfig::for_x13s(topology()).unwrap().encode();
    raw[4] = 1;
    assert_eq!(ProbeConfig::decode(&raw, is_gpio), Err(ConfigError::InvalidMmio));
}

#[test]
fn bounds_report_descriptor_reads_to_the_probe_buffer() {
    assert_eq!(
        bounded_report_descriptor_len(0),
        Err(ReportProbeError::Empty)
    );
    assert_eq!(bounded_report_descriptor_len(0xb9), Ok(0xb9));
    assert_eq!(
        bounded_report_descriptor_len((MAX_REPORT_DESCRIPTOR_BYTES + 1) as u16),
        Err(ReportProbeError::TooLong)
    );
}

#[test]
fn bounds_input_frame_reads_to_the_probe_buffer() {
    assert_eq!(
        bounded_input_frame_len(1),
        Err(InputProbeError::InvalidLength)
    );
    assert_eq!(bounded_input_frame_len(0x22), Ok(0x22));
    assert_eq!(
        bounded_input_frame_len((MAX_INPUT_FRAME_BYTES + 1) as u16),
        Err(InputProbeError::InvalidLength)
    );
}

#[test]
fn elan_vendor_enables_linux_i2c_hid_quirks() {
    assert_eq!(
        DeviceQuirks::for_vendor_product(ELAN_VENDOR_ID, 0x1234),
        DeviceQuirks {
            no_wakeup_after_reset: true,
            bogus_irq: true,
            force_trigger_falling: true,
        }
    );
    assert_eq!(
        DeviceQuirks::for_vendor_product(0x17ef, 0x1234),
        DeviceQuirks::default()
    );
}

#[test]
fn elan_bogus_irq_frame_is_a_decoded_no_event_frame() {
    let quirks = DeviceQuirks::for_vendor_product(ELAN_VENDOR_ID, 0);
    let mut decoder = Decoder::new();
    assert_eq!(
        decoder.decode_with_quirks(&[0xff, 0xff], Some(7), quirks),
        Ok(probe(0, None, None, b""))
    );
}

#[test]
fn classifies_input_reports_without_changing_decode_policy() {
    let quirks = DeviceQuirks::for_vendor_product(ELAN_VENDOR_ID, 0);
    assert_eq!(
        classify(&[0xff, 0xff], Some(7), quirks),
        InputReportClass::BogusIrq
    );
    assert_eq!(
        classify(&[0, 0], Some(7), quirks),
        InputReportClass::Reset
    );
    assert_eq!(
        classify(&[11, 0, 7, 0, 0, 0x05, 0, 0, 0, 0, 0], Some(7), quirks),
        InputReportClass::KeyboardReport
    );
    assert_eq!(
        classify(&[11, 0, 2, 0, 0, 0x05, 0, 0, 0, 0, 0], Some(7), quirks),
        InputReportClass::ForeignReportId { report_id: 2 }
    );
    assert_eq!(
        classify(&[1, 0], Some(7), quirks),
        InputReportClass::ProtocolError(ProtocolError::InvalidInputLength)
    );
}

#[test]
fn classifies_known_mouse_reports_without_treating_them_as_keyboard_errors() {
    let quirks = DeviceQuirks::default();
    assert_eq!(
        classify_with_mouse(
            &[5, 0, 0x01, 0x05, 0xfb],
            None,
            Some(MouseReport { report_id: None }),
            quirks
        ),
        InputReportClass::MouseReport
    );
    let mouse = MouseReport { report_id: Some(9) };
    assert_eq!(
        classify_with_mouse(
            &[6, 0, 9, 0x01, 0x05, 0xfb],
            Some(8),
            Some(mouse),
            quirks
        ),
        InputReportClass::MouseReport
    );
    assert_eq!(
        classify_with_mouse(
            &[6, 0, 7, 0x01, 0x05, 0xfb],
            Some(8),
            Some(mouse),
            quirks
        ),
        InputReportClass::ForeignReportId { report_id: 7 }
    );
    assert_eq!(
        classify_with_mouse(&[5, 0, 9, 0x01, 0x05], Some(8), Some(mouse), quirks),
        InputReportClass::ProtocolError(ProtocolError::NotBootMouseReport)
    );
}

#[test]
fn decodes_mouse_probe_without_touching_the_channel() {
    let quirks = DeviceQuirks::default();
    let report = BootMouseReport {
        buttons: MouseButtons::from_bits(MouseButtons::LEFT | MouseButtons::MIDDLE),
        x_delta: 5,
        y_delta: -5,
    };
    assert_eq!(
        mouse_probe(
            &[6, 0, 9, MouseButtons::LEFT | MouseButtons::MIDDLE, 5, 0xfb],
            MouseReport { report_id: Some(9) },
            quirks
        ),
        Ok(Some(report))
    );
    assert_eq!(
        mouse_probe(
            &[5, 0, MouseButtons::RIGHT, 0xff, 1],
            MouseReport { report_id: None },
            quirks
        ),
        Ok(Some(BootMouseReport {
            buttons: MouseButtons::from_bits(MouseButtons::RIGHT),
            x_delta: -1,
            y_delta: 1,
        }))
    );
    assert_eq!(
        mouse_probe(&[0, 0], MouseReport { report_id: Some(9) }, quirks),
        Ok(None)
    );
    assert_eq!(
        mouse_probe(
            &[0xff, 0xff],
            MouseReport { report_id: Some(9) },
            DeviceQuirks::for_vendor_product(ELAN_VENDOR_ID, 0)
        ),
        Ok(None)
    );
}

#[test]
fn mouse_events_encode_as_fixed_three_byte_ipc_records() {
    let report = BootMouseReport {
        buttons: MouseButtons::from_bits(MouseButtons::LEFT | MouseButtons::RIGHT | 0x80),
        x_delta: -2,
        y_delta: 127,
    };
    let encoded = encode_mouse_event(report);
    assert_eq!(
        encoded,
        [MouseButtons::LEFT | MouseButtons::RIGHT, 0xfe, 0x7f]
    );
    assert_eq!(decode_mouse_event(&encoded), Some(report));
    assert_eq!(decode_mouse_event(&encoded[..2]), None);
    assert_eq!(decode_mouse_event(&[0, 0, 0, 0]), None);
}

#[test]
fn input_report_stats_count_classes_and_bound_summary_cadence() {
    let mut stats = InputReportStats::new();
    stats.record_class(InputReportClass::KeyboardReport);
    stats.record_class(InputReportClass::MouseReport);
    stats.record_class(InputReportClass::ForeignReportId { report_id: 2 });
    stats.record_class(InputReportClass::ProtocolError(
        ProtocolError::InvalidInputLength,
    ));
    stats.record_decode_error(DecodeError::Rollover);
    stats.record_forwarded_ascii();
    stats.record_forwarded_ascii();
    stats.record_forwarded_mouse();
    stats.record_keyboard_write_drop();
    stats.record_mouse_write_drop();

    assert_eq!(stats.frames, 4);
    assert_eq!(stats.keyboard_reports, 1);
    assert_eq!(stats.mouse_reports, 1);
    assert_eq!(stats.foreign_report_ids, 1);
    assert_eq!(stats.protocol_errors, 1);
    assert_eq!(stats.decode_errors, 1);
    assert_eq!(stats.forwarded_ascii, 2);
    assert_eq!(stats.forwarded_mouse, 1);
    assert_eq!(stats.keyboard_write_drops, 1);
    assert_eq!(stats.mouse_write_drops, 1);
    assert_eq!(stats.last_report_id, Some(2));
    assert_eq!(
        stats.last_protocol_error,
        Some(ProtocolError::InvalidInputLength)
    );
    assert_eq!(stats.last_decode_error, Some(DecodeError::Rollover));

    assert!(!should_log_input_report_stats(1, 0));
    assert!(should_log_input_report_stats(
        INPUT_REPORT_STATS_FIRST_LOG_FRAME,
        0
    ));
    assert!(should_log_input_report_stats(128, 7));
    assert!(!should_log_input_report_stats(3, 0));
    assert!(!should_log_input_report_stats(
        256,
        INPUT_REPORT_STATS_LOG_LIMIT
    ));

    let mut reset_only = InputReportStats::new();
    for _ in 0..INPUT_REPORT_STATS_FIRST_LOG_FRAME {
        reset_only.record_class(InputReportClass::Reset);
    }
    assert!(!should_log_input_report_stats_snapshot(&reset_only, 0));

    let mut active = InputReportStats::new();
    for _ in 1..INPUT_REPORT_STATS_FIRST_LOG_FRAME {
        active.record_class(InputReportClass::Reset);
    }
    active.record_class(InputReportClass::KeyboardReport);
    assert!(should_log_input_report_stats_snapshot(&active, 0));
}

#[test]
fn reset_storm_guard_yields_periodically_and_resets_on_activity() {
    let mut guard = ResetStormGuard::new();
    for _ in 1..RESET_STORM_YIELD_AFTER {
        assert!(!guard.record(InputReportClass::Reset));
    }
    assert!(guard.record(InputReportClass::Reset));
    assert_eq!(guard.consecutive_reset_like(), RESET_STORM_YIELD_AFTER);
    assert!(!guard.record(InputReportClass::Reset));

    assert!(!guard.record(InputReportClass::KeyboardReport));
    assert_eq!(guard.consecutive_reset_like(), 0);
}

#[test]
fn startup_latency_trace_records_elapsed_and_span_without_allocations() {
    let mut trace = StartupLatencyTrace::new(1_000);

    assert_eq!(trace.start_ns(), 1_000);
    assert_eq!(trace.elapsed_ns(StartupMilestone::ConfigOk), None);
    assert_eq!(
        trace.span_ns(StartupMilestone::ConfigOk, StartupMilestone::Ready),
        None
    );

    trace.record(StartupMilestone::ConfigOk, 1_250);
    trace.record(StartupMilestone::Ready, 2_500);

    assert_eq!(trace.elapsed_ns(StartupMilestone::ConfigOk), Some(250));
    assert_eq!(trace.elapsed_ns(StartupMilestone::Ready), Some(1_500));
    assert_eq!(
        trace.span_ns(StartupMilestone::ConfigOk, StartupMilestone::Ready),
        Some(1_250)
    );
}

#[test]
fn decodes_one_boot_keyboard_input_frame() {
    let raw = [10, 0, 0, 0, 0x04, 0, 0, 0, 0, 0];
    assert_eq!(
        decode_once(&raw, None),
        Ok(probe(1, Some(0x04), Some(b'a'), b"a"))
    );
}

#[test]
fn decodes_an_identified_boot_keyboard_input_frame() {
    let raw = [11, 0, 7, 0, 0, 0x05, 0, 0, 0, 0, 0];
    assert_eq!(
        decode_once(&raw, Some(7)),
        Ok(probe(1, Some(0x05), Some(b'b'), b"b"))
    );
}

#[test]
fn decodes_the_x13s_first_light_keyboard_frame_shape() {
    // Metal first-light captured `0b 00 08 00 00 0b ...` for `h`; keep that wire shape pinned
    // before changing the restored driver path again. — KESTREL
    let raw = [0x0b, 0x00, 0x08, 0x00, 0x00, 0x0b, 0, 0, 0, 0, 0];
    assert_eq!(
        decode_once(&raw, Some(0x08)),
        Ok(probe(1, Some(0x0b), Some(b'h'), b"h"))
    );
}

#[test]
fn decodes_x13s_arrow_frames_as_terminal_sequences() {
    for (usage, sequence) in [
        (0x52, b"\x1b[A" as &[u8]),
        (0x51, b"\x1b[B"),
        (0x4f, b"\x1b[C"),
        (0x50, b"\x1b[D"),
    ] {
        let raw = [0x0b, 0x00, 0x08, 0x00, 0x00, usage, 0, 0, 0, 0, 0];
        let input = decode_once(&raw, Some(0x08)).unwrap();
        assert_eq!(
            input,
            probe_with_terminal(1, Some(usage), None, b"", sequence)
        );
        assert_eq!(input.pressed_ascii(), b"");
        assert_eq!(input.pressed_terminal_bytes(), sequence);
    }
}

#[test]
fn caps_lock_state_toggles_letters_without_rewriting_escape_sequences() {
    let quirks = DeviceQuirks::default();
    let mut decoder = Decoder::new();

    let raw_a = [10, 0, 0, 0, 0x04, 0, 0, 0, 0, 0];
    let input = decoder
        .decode_with_quirks_and_caps_lock(&raw_a, None, quirks, true)
        .unwrap();
    assert_eq!(input, probe(1, Some(0x04), Some(b'A'), b"A"));
    assert_eq!(input.pressed_terminal_bytes(), b"A");

    let raw_empty = [10, 0, 0, 0, 0, 0, 0, 0, 0, 0];
    assert_eq!(
        decoder.decode_with_quirks_and_caps_lock(&raw_empty, None, quirks, true),
        Ok(probe(1, None, None, b""))
    );

    let raw_shift_a = [
        10,
        0,
        LEFT_SHIFT,
        0,
        0x04,
        0,
        0,
        0,
        0,
        0,
    ];
    let input = decoder
        .decode_with_quirks_and_caps_lock(&raw_shift_a, None, quirks, true)
        .unwrap();
    assert_eq!(input, probe(1, Some(0x04), Some(b'a'), b"a"));

    let mut arrows = Decoder::new();
    let raw_up = [10, 0, 0, 0, 0x52, 0, 0, 0, 0, 0];
    let input = arrows
        .decode_with_quirks_and_caps_lock(&raw_up, None, quirks, true)
        .unwrap();
    assert_eq!(
        input,
        probe_with_terminal(1, Some(0x52), None, b"", b"\x1b[A")
    );
    assert_eq!(input.pressed_terminal_bytes(), b"\x1b[A");
}

#[test]
fn decodes_x13s_home_end_frames_as_terminal_sequences() {
    for (usage, sequence) in [(0x4a, b"\x1b[H" as &[u8]), (0x4d, b"\x1b[F")] {
        let raw = [0x0b, 0x00, 0x08, 0x00, 0x00, usage, 0, 0, 0, 0, 0];
        let input = decode_once(&raw, Some(0x08)).unwrap();
        assert_eq!(
            input,
            probe_with_terminal(1, Some(usage), None, b"", sequence)
        );
        assert_eq!(input.pressed_terminal_bytes(), sequence);
    }
}

#[test]
fn decodes_all_ascii_press_edges_from_one_keyboard_report() {
    let raw = [10, 0, 0, 0, 0x04, 0x05, 0x06, 0, 0, 0];
    let input = decode_once(&raw, None).unwrap();
    assert_eq!(input, probe(3, Some(0x04), Some(b'a'), b"abc"));
    assert_eq!(input.pressed_ascii(), b"abc");
    assert_eq!(input.pressed_terminal_bytes(), b"abc");
}

#[test]
fn keeps_first_pressed_probe_fields_while_collecting_later_ascii() {
    let raw = [10, 0, 0, 0, 0x39, 0x04, 0, 0, 0, 0];
    let input = decode_once(&raw, None).unwrap();
    let mut expected = probe(2, Some(0x39), None, b"a");
    expected.caps_lock_toggle = true;
    assert_eq!(input, expected);
    assert_eq!(input.pressed_ascii(), b"a");
    assert_eq!(input.pressed_terminal_bytes(), b"a");
}

#[test]
fn decodes_hid_delete_usage_as_terminal_delete_sequence() {
    let raw = [10, 0, 0, 0, 0x4c, 0, 0, 0, 0, 0];
    let input = decode_once(&raw, None).unwrap();
    assert_eq!(
        input,
        probe_with_terminal(1, Some(0x4c), None, &[], b"\x1b[3~")
    );
    assert_eq!(input.pressed_ascii(), &[]);
    assert_eq!(input.pressed_terminal_bytes(), b"\x1b[3~");
}

#[test]
fn empty_keyboard_report_is_a_decoded_no_event_frame() {
    let raw = [10, 0, 0, 0, 0, 0, 0, 0, 0, 0];
    assert_eq!(
        decode_once(&raw, None),
        Ok(probe(0, None, None, b""))
    );
}

#[test]
fn length_zero_reset_frame_is_a_benign_no_event_frame() {
    // The RESET-complete sync and any empty poll both arrive as a length-0 frame; they must
    // decode to a no-event frame, never NotBootKeyboardReport. — CORVUS
    let reset = [0u8, 0u8];
    assert_eq!(
        decode_once(&reset, Some(7)),
        Ok(probe(0, None, None, b""))
    );
}

#[test]
fn bounded_failure_log_is_a_bounded_diagnostic() {
    let mut failures = BoundedFailureLog::new();
    for i in 0..SOFT_FAILURE_LOG_LIMIT {
        assert!(failures.record(), "failure {i} should still log");
    }
    assert!(!failures.record());
    assert_eq!(failures.count(), SOFT_FAILURE_LOG_LIMIT + 1);
}

#[test]
fn decoder_recovers_after_a_dropped_input_error() {
    // The steady-state IRQ loop now logs+continues on a recoverable InputProbeError instead of
    // process_exit(1). The host-side guarantee behind that "drop + continue" is that one bad
    // report does not poison the shared decoder: a foreign report-id frame errors, and the very
    // next real keyboard frame still decodes to a key. — CORVUS
    let mut decoder = Decoder::new();
    assert_eq!(
        decoder.decode(&[11, 0, 2, 0, 0, 0x05, 0, 0, 0, 0, 0], Some(7)),
        Err(InputProbeError::Protocol(ProtocolError::UnexpectedReportId))
    );
    assert_eq!(
        decoder.decode(&[10, 0, 0, 0, 0x04, 0, 0, 0, 0, 0], None),
        Ok(probe(1, Some(0x04), Some(b'a'), b"a"))
    );
}

#[test]
fn wrong_report_id_stays_a_protocol_error() {
    let raw = [11, 0, 2, 0, 0, 0x05, 0, 0, 0, 0, 0];
    assert_eq!(
        decode_once(&raw, Some(7)),
        Err(InputProbeError::Protocol(ProtocolError::UnexpectedReportId))
    );
}

#[test]
fn stateful_decoder_does_not_repeat_a_held_key() {
    let mut decoder = Decoder::new();
    let pressed = [10, 0, 0, 0, 0x04, 0, 0, 0, 0, 0];
    let released = [10, 0, 0, 0, 0, 0, 0, 0, 0, 0];

    assert_eq!(
        decoder.decode(&pressed, None),
        Ok(probe(1, Some(0x04), Some(b'a'), b"a"))
    );
    assert_eq!(
        decoder.decode(&pressed, None),
        Ok(probe(0, None, None, b""))
    );
    assert_eq!(
        decoder.decode(&released, None),
        Ok(probe(1, None, None, b""))
    );
}

#[test]
fn rollover_is_a_decode_error() {
    assert_eq!(
        decode_once(&[10, 0, 0, 0, 1, 1, 1, 1, 1, 1], None),
        Err(InputProbeError::Decode(DecodeError::Rollover))
    );
}

#[test]
fn configs_that_no_driver_can_use_are_refused() {
    let config = ProbeConfig::for_x13s(topology()).unwrap();
    let raw = config.encode();
    assert_eq!(ProbeConfig::decode(&raw, |_| false), Err(ConfigError::InvalidInterrupt));
    let mut bad = raw;
    bad[0] = 0;
    assert_eq!(ProbeConfig::decode(&bad, is_gpio), Err(ConfigError::BadMagic));
    let mut slow = topology();
    slow.bus_frequency_hz = 100_000;
    assert_eq!(ProbeConfig::for_x13s(slow), Err(ConfigError::UnsupportedBusFrequency));
    let mut far = topology();
    far.i2c_address = 0x80;
    assert_eq!(ProbeConfig::for_x13s(far), Err(ConfigError::InvalidAddress));
    let mut bus = x13s_bus();
    bus.devices.pop();
    assert!(matches!(Plan::for_x13s(&bus), Err(ConfigError::MissingKeyboard)));
}

#[test]
fn every_report_class_is_counted_once() {
    let mut stats = InputReportStats::new();
    let classes = [
        InputReportClass::Reset,
        InputReportClass::BogusIrq,
        InputReportClass::KeyboardReport,
        InputReportClass::MouseReport,
        InputReportClass::ForeignReportId { report_id: 3 },
        InputReportClass::ProtocolError(ProtocolError::Truncated),
    ];
    for class in classes {
        stats.record_class(class);
    }
    assert_eq!(stats.frames, 6);
    assert_eq!(stats.reset_frames, 1);
    assert_eq!(stats.bogus_irq_frames, 1);
    assert_eq!(stats.last_report_id, Some(3));
}

#[test]
fn a_step_that_is_reached_again_is_timed_anew() {
    let mut trace = StartupLatencyTrace::new(1_000);
    trace.record(StartupMilestone::ConfigOk, 1_250);
    trace.record(StartupMilestone::GeniReady, 1_300);
    trace.record(StartupMilestone::ConfigOk, 900);
    assert_eq!(trace.elapsed_ns(StartupMilestone::ConfigOk), Some(0));
    assert_eq!(trace.elapsed_ns(StartupMilestone::GeniReady), Some(300));
    assert_eq!(trace.elapsed_ns(StartupMilestone::Ready), None);
    assert_eq!(trace.start_ns(), 1_000);
}

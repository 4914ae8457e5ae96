//! The I2C controller driver.

use kumo_userland::abi::{Handle, NO_HANDLE};
use kumo_userland::drv_geni_i2c::service::{
    log_hex, on_wake, plan, status_of, transfer_answer, Admission, BusOp, BusPlan, GeniCall,
    GeniEvent, GeniPhase, GeniStart, INVALID, MMIO_VA, READ_ROOM, SERVE_TAG,
};
use kumo_userland::drv_geni_i2c::{ConfigError, ProbeConfig, SourceClock};

fn config() -> ProbeConfig {
    ProbeConfig {
        mmio_base: 0x0089_4000,
        mmio_length: 0x4000,
        bus_frequency_hz: 400_000,
        source_clock: SourceClock::Mhz32,
    }
}

#[test]
fn configs_come_back_as_they_were() {
    let raw = config().encode();
    assert_eq!(raw.len(), ProbeConfig::BYTES);
    assert_eq!(ProbeConfig::decode(&raw), Ok(config()));
    assert_eq!(ProbeConfig::decode(&raw[..31]), Err(ConfigError::Truncated));
    let mut bad = raw;
    bad[0] = 0;
    assert_eq!(ProbeConfig::decode(&bad), Err(ConfigError::BadMagic));
    let mut bad = raw;
    bad[4] = 1;
    assert_eq!(ProbeConfig::decode(&bad), Err(ConfigError::InvalidMmio));
    let mut bad = raw;
    bad[20] = 1;
    assert_eq!(ProbeConfig::decode(&bad), Err(ConfigError::UnsupportedBusFrequency));
    let mut bad = raw;
    bad[24] = 1;
    assert_eq!(ProbeConfig::decode(&bad), Err(ConfigError::UnsupportedSourceClock));
}

#[test]
fn numbers_are_logged_as_far_as_the_line_goes() {
    assert_eq!(log_hex(b"error=0x", 0xbeef), b"error=0xbeef\n");
    assert_eq!(log_hex(b"", 0), b"0\n");
    let long = [b'x'; 127];
    assert_eq!(log_hex(&long, 0xab).len(), 128);
    assert_eq!(log_hex(&long, 0xab)[127], b'a');
    assert_eq!(log_hex(&[b'x'; 200], 1), [b'x'; 128]);
}

fn served() -> GeniStart {
    let mut s = GeniStart::new();
    let steps = [
        GeniEvent::Config {
            received: 32,
            raw: 5,
            config: Some(config()),
        },
        GeniEvent::Raw(6),
        GeniEvent::Raw(0),
        GeniEvent::Initialized { error: None },
        GeniEvent::Serve {
            received: 1,
            tag: SERVE_TAG,
            raw: 7,
        },
        GeniEvent::Raw(8),
        GeniEvent::Raw(0),
        GeniEvent::Raw(99),
    ];
    for step in steps {
        s.advance(step);
    }
    s
}

#[test]
fn the_driver_comes_up_step_by_step() {
    assert_eq!(
        served().call(),
        GeniCall::Serve {
            port: Handle(8),
            koid: 99,
            channel: Handle(7)
        }
    );
    let mut s = GeniStart::new();
    s.advance(GeniEvent::Config {
        received: 32,
        raw: 5,
        config: Some(config()),
    });
    assert_eq!(
        s.call(),
        GeniCall::Mint {
            resource: Handle(5),
            base: 0x0089_4000,
            length: 0x4000
        }
    );
    s.advance(GeniEvent::Raw(6));
    assert_eq!(
        s.call(),
        GeniCall::MapIn {
            vmo: Handle(6),
            at: MMIO_VA,
            length: 0x4000
        }
    );
    s.advance(GeniEvent::Raw(0));
    assert_eq!(
        s.advance(GeniEvent::Initialized { error: Some(0x1f) }),
        b"drv-geni-i2c: GENI init error=0x1f\n"
    );
    assert_eq!(s.call(), GeniCall::Exit { code: 1 });
}

#[test]
fn every_start_up_failure_has_its_line() {
    let mut s = GeniStart::new();
    assert_eq!(
        s.advance(GeniEvent::Config {
            received: 31,
            raw: 5,
            config: None
        }),
        b"drv-geni-i2c: bootstrap failed\n"
    );
    let mut s = GeniStart::new();
    assert_eq!(
        s.advance(GeniEvent::Config {
            received: 32,
            raw: 5,
            config: None
        }),
        b"drv-geni-i2c: config invalid\n"
    );
    let late: [(GeniPhase, GeniEvent, &[u8]); 5] = [
        (
            GeniPhase::Mint,
            GeniEvent::Raw(NO_HANDLE),
            b"drv-geni-i2c: MMIO mint failed\n",
        ),
        (
            GeniPhase::MapIn,
            GeniEvent::Raw(3),
            b"drv-geni-i2c: MMIO map failed\n",
        ),
        (
            GeniPhase::ReadServe,
            GeniEvent::Serve {
                received: 1,
                tag: b'T',
                raw: 7,
            },
            b"drv-geni-i2c: serve channel missing\n",
        ),
        (
            GeniPhase::CreatePort,
            GeniEvent::Raw(NO_HANDLE),
            b"drv-geni-i2c: port failed\n",
        ),
        (
            GeniPhase::Bind,
            GeniEvent::Raw(1),
            b"drv-geni-i2c: bind failed\n",
        ),
    ];
    for (phase, event, line) in late {
        let mut s = GeniStart::new();
        s.phase = phase;
        assert_eq!(s.advance(event), line);
        assert_eq!(s.phase, GeniPhase::Failed);
    }
}

#[test]
fn only_whole_requests_of_the_channel_are_served() {
    assert_eq!(on_wake(1, 2, 8, 8, 5), Admission::Skip);
    assert_eq!(on_wake(2, 2, 0, 8, 5), Admission::Skip);
    assert_eq!(on_wake(2, 2, 8, 8, 0), Admission::Skip);
    assert_eq!(on_wake(2, 2, 7, 8, 5), Admission::Refuse { reply: Handle(5) });
    assert_eq!(on_wake(2, 2, 8, 8, 5), Admission::Serve { reply: Handle(5) });
}

#[test]
fn transfers_are_planned_within_the_request() {
    let transfer = |write_len, read_len| BusOp::Transfer {
        write_len,
        read_len,
    };
    assert_eq!(plan(8, 12, BusOp::Funcs, 1), BusPlan::TellFunctions);
    assert_eq!(plan(8, 12, BusOp::WriteQuick, 1), BusPlan::WriteNothing { address: 1 });
    assert_eq!(plan(8, 12, BusOp::ReadByte, 1), BusPlan::ReadOne { address: 1 });
    assert_eq!(plan(8, 12, BusOp::Unknown, 1), BusPlan::Ignore);
    assert_eq!(plan(8, 12, transfer(0, 0), 1), BusPlan::Ignore);
    assert_eq!(plan(12, 12, transfer(0, 0), 1), BusPlan::Empty);
    assert_eq!(plan(12, 12, transfer(1, 0), 1), BusPlan::Reject);
    assert_eq!(plan(12, 12, transfer(0, READ_ROOM + 1), 1), BusPlan::Reject);
    assert_eq!(
        plan(14, 12, transfer(2, 3), 1),
        BusPlan::WriteRead {
            address: 1,
            from: 12,
            to: 14,
            read_len: 3
        }
    );
    assert_eq!(
        plan(14, 12, transfer(1, 0), 1),
        BusPlan::Write {
            address: 1,
            from: 12,
            to: 13
        }
    );
    assert_eq!(
        plan(12, 12, transfer(0, 3), 1),
        BusPlan::Read {
            address: 1,
            read_len: 3
        }
    );
}

#[test]
fn answers_carry_data_only_on_success() {
    assert_eq!(status_of(None), 0);
    assert_eq!(status_of(Some(5)), -5);
    assert_eq!(transfer_answer(&[9, 9], 0, b"ab"), b"\x09\x09ab");
    assert_eq!(transfer_answer(&[9, 9], INVALID, b"ab"), b"\x09\x09");
}

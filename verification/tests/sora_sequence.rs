//! The boot sequence.

use kumo_userland::abi::{Handle, NO_HANDLE};
use kumo_userland::sora::sequence::{
    encode_words, linux_code, push_geometry, Boot, BootCall, BootEnv, BootEvent, BootPhase,
    FatProbe, Program, Screen,
};

fn env(fb_va: u64) -> BootEnv {
    BootEnv {
        fb_va,
        console: 2,
        initrd: Handle(3),
        net: Handle(4),
        bootinfo: 5,
        initrd_size: 4096,
    }
}

fn screen(plausible: bool) -> Screen {
    Screen {
        phys: 0x8000_0000,
        len: 0x10_0000,
        width: 640,
        height: 400,
        stride: 640,
        plausible,
    }
}

/// An event for each call, with every call succeeding.
fn success(call: BootCall) -> BootEvent {
    match call {
        BootCall::CreatePair => BootEvent::Pair(20, 21),
        BootCall::Run { .. } | BootCall::RunTrials => BootEvent::Ran(true),
        BootCall::ReadBlock { .. } => {
            let mut reply = vec![0u8; 513];
            reply[1..9].copy_from_slice(b"KUMORD01");
            BootEvent::Data(Some(reply))
        }
        BootCall::ProbeFat { .. } => BootEvent::Fat(FatProbe::Mounted {
            hello: Some(b"hello".to_vec()),
            nested: None,
        }),
        BootCall::ReadBootInfo { .. } => BootEvent::Screen(Some(screen(true))),
        BootCall::ReadVmo { .. } => BootEvent::Data(Some(b"VMO_OK".to_vec())),
        BootCall::MapVmo { .. }
        | BootCall::MapBootInfo { .. }
        | BootCall::StartThread { .. }
        | BootCall::SendSize { .. }
        | BootCall::SendHandle { .. }
        | BootCall::Send { .. }
        | BootCall::Wait
        | BootCall::WriteText { .. }
        | BootCall::WriteCode { .. }
        | BootCall::CreateStack { .. }
        | BootCall::RunAt { .. }
        | BootCall::Close { .. } => BootEvent::Returned(0),
        _ => BootEvent::Returned(30),
    }
}

fn failure(call: BootCall) -> BootEvent {
    match call {
        BootCall::CreatePair => BootEvent::Pair(NO_HANDLE, NO_HANDLE),
        BootCall::Run { .. } | BootCall::RunTrials => BootEvent::Ran(false),
        BootCall::ReadBlock { .. } | BootCall::ReadVmo { .. } => BootEvent::Data(None),
        BootCall::ProbeFat { .. } => BootEvent::Fat(FatProbe::NoImage),
        BootCall::ReadBootInfo { .. } => BootEvent::Screen(None),
        _ => BootEvent::Returned(NO_HANDLE),
    }
}

fn play(fb_va: u64, answer: fn(BootCall) -> BootEvent) -> (Vec<Program>, Vec<u8>) {
    let mut boot = Boot::new(env(fb_va));
    let mut ran = Vec::new();
    let mut log = Vec::new();
    let mut calls = 0;
    while boot.phase != BootPhase::Finished {
        let call = boot.call();
        if let BootCall::Run { program, .. } = call {
            ran.push(program);
        }
        log.extend(boot.advance(&answer(call)));
        calls += 1;
        assert!(calls < 100, "boot does not end");
    }
    (ran, log)
}

#[test]
fn a_good_boot_runs_the_drivers_of_its_console() {
    let (ran, log) = play(0, success);
    assert!(ran.contains(&Program::DrvSerial));
    assert!(!ran.contains(&Program::DrvFb));
    assert!(ran.contains(&Program::DrvBlk));
    assert!(log.windows(5).any(|w| w == b"hello"));
    let (ran, _) = play(0x4000_0000, success);
    assert!(!ran.contains(&Program::DrvSerial));
    assert!(ran.contains(&Program::DrvFb));
}

#[test]
fn a_boot_ends_whatever_fails() {
    let (_, log) = play(0, failure);
    assert!(!log.is_empty());
    play(0x4000_0000, failure);
}

#[test]
fn events_that_do_not_belong_change_nothing() {
    let mut boot = Boot::new(env(0));
    assert!(boot.advance(&BootEvent::Ran(true)).is_empty());
    assert_eq!(boot.phase, BootPhase::Child);
}

#[test]
fn code_is_little_endian() {
    assert_eq!(encode_words(&[0x0102_0304, 5]), vec![4, 3, 2, 1, 5, 0, 0, 0]);
    let code = linux_code();
    assert_eq!(code.len(), 36);
    assert_eq!(&code[..4], &0xd280_0020u32.to_le_bytes());
}

#[test]
fn geometries_are_logged_in_hexadecimal() {
    let mut out = b"fb ".to_vec();
    push_geometry(&mut out, &screen(true));
    assert_eq!(
        out,
        b"fb phys=0x80000000 len=0x100000 w=0x280 h=0x190 stride=0x280\n"
    );
}

#[test]
fn programs_have_names_in_the_log() {
    assert_eq!(Program::DrvSerial.name(), "drv-serial");
    assert_eq!(Program::DrvBlk.name(), "drv-blk");
    assert_eq!(Program::DrvFb.name(), "drv-fb");
    assert_eq!(Program::LinuxHello.name(), "M10 elf");
}

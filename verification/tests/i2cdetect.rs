//! The bus scan.

use kumo_userland::abi::{Handle, NO_HANDLE};
use kumo_userland::i2cdetect::{
    bus_channel, hex_char, probed, scan_line, Probe, ProbeAnswer, ProbeCall, ProbePhase,
    CHANNEL_TAG, LINE_LEN,
};

fn answer(raw: u64) -> ProbeAnswer {
    ProbeAnswer {
        raw,
        other: 0,
        status: 0,
    }
}

fn pair(raw: u64, other: u64) -> ProbeAnswer {
    ProbeAnswer {
        raw,
        other,
        status: 0,
    }
}

/// Runs a probe on the answers and returns the handles that it closed and its verdict.
fn run(answers: &[ProbeAnswer]) -> (Vec<u32>, bool) {
    let mut probe = Probe::new(4);
    let mut closed = Vec::new();
    let mut next = answers.iter();
    loop {
        match probe.call() {
            ProbeCall::Finished { present } => return (closed, present),
            ProbeCall::Close { handle } => {
                closed.push(handle.0);
                probe.advance(answer(0));
            }
            _ => probe.advance(*next.next().unwrap()),
        }
    }
}

#[test]
fn the_channel_comes_with_its_tag() {
    assert_eq!(bus_channel(1, CHANNEL_TAG, 9), Some(Handle(9)));
    assert_eq!(bus_channel(0, CHANNEL_TAG, 9), None);
    assert_eq!(bus_channel(1, b'X', 9), None);
    assert_eq!(bus_channel(1, CHANNEL_TAG, 0), None);
}

#[test]
fn digits_are_lower_case() {
    assert_eq!(hex_char(0), b'0');
    assert_eq!(hex_char(10), b'a');
    assert_eq!(hex_char(15), b'f');
    assert!(!probed(0x02) && probed(0x03) && probed(0x77) && !probed(0x78));
}

#[test]
fn lines_show_what_answers() {
    let mut answers = [false; 16];
    answers[5] = true;
    assert_eq!(
        scan_line(0x10, &answers),
        b"10: -- -- -- -- -- 15 -- -- -- -- -- -- -- -- -- -- \n"
    );
    assert_eq!(
        scan_line(0x70, &answers),
        b"70: -- -- -- -- -- 75 -- --                         \n"
    );
    assert_eq!(scan_line(0, &answers).len(), LINE_LEN);
    assert_eq!(&scan_line(0, &answers)[..16], b"00:          -- ");
}

#[test]
fn a_good_answer_is_a_device() {
    let script = [
        answer(1),
        pair(2, 3),
        answer(0),
        answer(77),
        answer(0),
        answer(77),
        pair(4, 9),
    ];
    assert_eq!(run(&script), (vec![1, 2, 9], true));
    let mut bad_status = script;
    bad_status[6].status = -1;
    assert_eq!(run(&bad_status), (vec![1, 2, 9], false));
    let mut short = script;
    short[6] = pair(3, 0);
    assert_eq!(run(&short), (vec![1, 2], false));
    let mut stranger = script;
    stranger[5] = answer(78);
    assert_eq!(run(&stranger), (vec![1, 2], false));
}

#[test]
fn every_failure_closes_what_is_open() {
    assert_eq!(run(&[answer(NO_HANDLE)]), (vec![], false));
    assert_eq!(run(&[answer(1), pair(NO_HANDLE, 3)]), (vec![1, 3], false));
    assert_eq!(run(&[answer(1), pair(2, NO_HANDLE)]), (vec![1, 2], false));
    assert_eq!(run(&[answer(1), pair(2, 3), answer(5)]), (vec![1, 2, 3], false));
    assert_eq!(
        run(&[answer(1), pair(2, 3), answer(0), answer(NO_HANDLE)]),
        (vec![1, 2, 3], false)
    );
    assert_eq!(
        run(&[answer(1), pair(2, 3), answer(0), answer(7), answer(1)]),
        (vec![1, 2, 3], false)
    );
    assert_eq!(Probe::new(4).phase, ProbePhase::Port);
}

//! Starting, watching and trying servers.

use kumo_userland::abi::{Handle, NO_HANDLE};
use kumo_userland::sora::loader::Loaded;
use kumo_userland::sora::policy::{RestartPolicy, SupervisedServer};
use kumo_userland::sora::serve::{
    key_outcome, net_reply, route, serve_block, KeyFailure, Sources, Wake,
};
use kumo_userland::sora::smoke::{
    crash_containment_smoke, crash_restart_smoke, persona_posix_tty_read_smoke,
    persona_posix_tty_write_smoke, svc_health_pair_smoke, svc_health_restart_smoke, ttyd_smoke,
    Shown, Step, StepEvent, Trial, WaitStatus,
};
use kumo_userland::sora::spawn::{Spawn, SpawnCall, SpawnNote};
use kumo_userland::sora::watch::{
    session_of, TtyWatch, WatchCall, WatchEvent, WatchNote, TTYD_MAX_RESTARTS,
};
use kumo_userland::svc_health::Health;
use kumo_userland::ttyd::{Request, TtyServer, REPLY_BUF_BYTES};

fn loaded() -> Loaded {
    Loaded {
        process: Handle(1),
        entry: 0x1000,
        sp: 0x2000,
        server: Handle(2),
        client: Handle(3),
    }
}

#[test]
fn a_start_needs_a_run_and_a_moved_channel() {
    let mut start = Spawn::new(loaded(), 1);
    assert!(matches!(
        start.call(),
        SpawnCall::Run {
            entry: 0x1000,
            sp: 0x2000,
            flags: 1,
            ..
        }
    ));
    assert_eq!(start.advance(0), None);
    assert_eq!(start.call(), SpawnCall::Koid { handle: Handle(2) });
    assert_eq!(start.advance(NO_HANDLE), Some(SpawnNote::Transferred));
    assert_eq!(
        start.instance(),
        Some(SupervisedServer {
            process: Handle(1),
            client: Handle(3)
        })
    );
    let mut kept = Spawn::new(loaded(), 1);
    kept.advance(0);
    assert_eq!(kept.advance(77), Some(SpawnNote::TransferFailed));
    assert_eq!(kept.instance(), None);
}

#[test]
fn a_failed_start_closes_its_three_handles() {
    let mut start = Spawn::new(loaded(), 1);
    start.advance(5);
    let mut closed = Vec::new();
    let mut notes = Vec::new();
    while let SpawnCall::Close { handle } = start.call() {
        closed.push(handle.0);
        notes.extend(start.advance(if closed.len() == 2 { 1 } else { 0 }));
    }
    closed.sort();
    assert_eq!(closed, vec![1, 2, 3]);
    assert_eq!(notes, vec![SpawnNote::CleanupFailed]);
    assert_eq!(start.instance(), None);
}

fn server(n: u32) -> SupervisedServer {
    SupervisedServer {
        process: Handle(10 * n),
        client: Handle(10 * n + 1),
    }
}

/// Supervision of a first instance with this identity.
fn armed(policy: RestartPolicy) -> TtyWatch {
    let mut w = TtyWatch::new(policy, TTYD_MAX_RESTARTS);
    assert_eq!(w.call(), WatchCall::Spawn);
    w.advance(WatchEvent::Spawned(Some(server(1))));
    w.advance(WatchEvent::Returned(100));
    assert_eq!(w.advance(WatchEvent::Returned(0)), vec![WatchNote::Armed]);
    w.advance(WatchEvent::Answered(true));
    w
}

/// Lets the watched instance end and releases it.
fn end(w: &mut TtyWatch) -> Vec<WatchNote> {
    let source = w.watched().unwrap();
    w.advance(WatchEvent::Woken(source));
    assert!(matches!(w.call(), WatchCall::Unbind { .. }));
    w.advance(WatchEvent::Returned(0));
    w.advance(WatchEvent::Returned(0));
    w.advance(WatchEvent::Returned(0))
}

fn rebuild(w: &mut TtyWatch, n: u32) -> Vec<WatchNote> {
    w.advance(WatchEvent::Spawned(Some(server(n))));
    w.advance(WatchEvent::Answered(true));
    w.advance(WatchEvent::Returned(100 + n as u64));
    w.advance(WatchEvent::Returned(0))
}

#[test]
fn rebuilds_stop_at_the_budget() {
    let mut w = armed(RestartPolicy::Always);
    for n in 2..2 + TTYD_MAX_RESTARTS {
        assert_eq!(end(&mut w), vec![WatchNote::RestartRequired]);
        assert_eq!(w.call(), WatchCall::Spawn);
        assert_eq!(rebuild(&mut w, n), vec![WatchNote::RestartOk]);
        assert_eq!(w.service(), Some(server(n)));
    }
    let notes = end(&mut w);
    assert!(!notes.contains(&WatchNote::RestartRequired));
    assert_eq!(w.call(), WatchCall::Wait);
    assert_eq!(w.service(), None);
}

#[test]
fn a_policy_of_never_is_kept() {
    let mut w = armed(RestartPolicy::Never);
    assert!(!end(&mut w).contains(&WatchNote::RestartRequired));
    assert_eq!(w.call(), WatchCall::Wait);
}

#[test]
fn a_replacement_that_does_not_serve_is_released() {
    let mut w = armed(RestartPolicy::OnFailure);
    end(&mut w);
    if w.call() == WatchCall::Spawn {
        w.advance(WatchEvent::Spawned(Some(server(2))));
        w.advance(WatchEvent::Answered(false));
        assert_eq!(w.call(), WatchCall::Close { handle: server(2).process });
        w.advance(WatchEvent::Returned(0));
        assert_eq!(w.call(), WatchCall::Close { handle: server(2).client });
        assert_eq!(w.advance(WatchEvent::Returned(0)), vec![WatchNote::ServeFailed]);
    }
    assert_eq!(w.service(), None);
}

#[test]
fn other_wake_ups_leave_the_server_alone() {
    let mut w = armed(RestartPolicy::Always);
    w.advance(WatchEvent::Woken(Handle(55)));
    assert_eq!(w.call(), WatchCall::Wait);
    assert_eq!(w.service(), Some(server(1)));
}

#[test]
fn each_wake_up_has_one_handler() {
    let sources = Sources {
        terminal: Some(Handle(9)),
        console: Handle(1),
        block: Handle(2),
        net: Handle(3),
        keyboard: Handle(4),
    };
    let none = Wake {
        terminal: false,
        console: false,
        block: false,
        net: false,
        keyboard: false,
    };
    assert_eq!(route(&sources, Handle(9)), Wake { terminal: true, ..none });
    assert_eq!(route(&sources, Handle(1)), Wake { console: true, ..none });
    assert_eq!(route(&sources, Handle(2)), Wake { block: true, ..none });
    assert_eq!(route(&sources, Handle(3)), Wake { net: true, ..none });
    assert_eq!(route(&sources, Handle(4)), Wake { keyboard: true, ..none });
    assert_eq!(route(&sources, Handle(5)), none);
}

#[test]
fn raw_block_requests_read_the_image() {
    let image: Vec<u8> = (0..2000u32).map(|i| (i % 251) as u8).collect();
    let read = |at: u64, n: usize| image.get(at as usize..at as usize + n).map(|s| s.to_vec());
    let mut out = [0u8; 512];
    let mut frame = Vec::new();
    frame.extend_from_slice(&300u64.to_le_bytes());
    frame.extend_from_slice(&100u64.to_le_bytes());
    assert_eq!(serve_block(&read, &frame, &mut out), Some(100));
    assert_eq!(&out[..100], &image[300..400]);
    assert_eq!(serve_block(&read, b"", &mut out), None);
    assert_eq!(serve_block(&read, b"missing.txt", &mut out), Some(0));
}

#[test]
fn pipe_frames_are_answered() {
    assert_eq!(net_reply(b""), None);
    assert!(net_reply(b"pipe:hello").is_some());
    assert!(net_reply(b"other").is_some());
}

#[test]
fn keys_show_what_the_terminal_says() {
    let mut tty = TtyServer::<16>::new();
    let mut reply = [0u8; REPLY_BUF_BYTES];
    let mut frame = [0u8; 2];
    let n = Request::input(b'x').encode_into(&mut frame).unwrap();
    let len = tty.dispatch(&frame[..n], &mut reply);
    let key = key_outcome(Some(&reply[..len])).unwrap();
    assert_eq!(key.echo, b"x");
    assert_eq!(key.line, None);
    let n = Request::input(b'\n').encode_into(&mut frame).unwrap();
    let len = tty.dispatch(&frame[..n], &mut reply);
    let key = key_outcome(Some(&reply[..len])).unwrap();
    assert_eq!(key.line, Some(b"x".to_vec()));
    assert!(matches!(key_outcome(None), Err(KeyFailure::Exchange)));
    assert!(matches!(key_outcome(Some(&[0])), Err(KeyFailure::Parse)));
    assert!(matches!(key_outcome(Some(&[1, 0, 0, 0, 0])), Err(KeyFailure::Status)));
}

const WAIT: WaitStatus = WaitStatus { parked: 7, gone: 8 };

/// Plays a script against real health servers.
fn play_health(steps: Vec<Step>) -> (bool, Vec<&'static str>) {
    let mut trial = Trial::new(steps, WAIT);
    let mut servers: Vec<Option<Health>> = vec![None, None, None];
    let mut lines = Vec::new();
    while let Some(step) = trial.step() {
        let event = match step {
            Step::Spawn { slot, .. } => {
                servers[slot] = Some(Health::new());
                StepEvent::Done(true)
            }
            Step::Park { .. } => StepEvent::Status(WAIT.parked),
            Step::Health { slot, request, .. } => {
                StepEvent::Reply(servers[slot].as_mut().map(|s| s.dispatch(&request.encode())))
            }
            Step::Stop { slot, last, .. } => {
                servers[slot] = None;
                StepEvent::Status(if last { WAIT.gone } else { WAIT.parked })
            }
            Step::StopLast { slot } => {
                servers[slot] = None;
                StepEvent::Status(WAIT.gone)
            }
            other => panic!("unexpected step {other:?}"),
        };
        lines.extend(trial.advance(&event));
    }
    (trial.passed(), lines)
}

#[test]
fn two_health_servers_pass_their_trial() {
    assert!(play_health(svc_health_pair_smoke()).0);
    assert!(play_health(svc_health_restart_smoke()).0);
}

#[test]
fn a_trial_stops_at_its_first_failure() {
    let mut trial = Trial::new(svc_health_pair_smoke(), WAIT);
    assert_eq!(trial.advance(&StepEvent::Done(false)), Some("svc-pair: run1 fail\n"));
    assert!(trial.step().is_none());
    assert!(!trial.passed());
}

#[test]
fn crashes_are_contained() {
    let mut trial = Trial::new(crash_containment_smoke(), WAIT);
    assert!(matches!(trial.step(), Some(Step::SpawnAstray { .. })));
    trial.advance(&StepEvent::Done(true));
    assert!(matches!(trial.step(), Some(Step::Gone)));
    trial.advance(&StepEvent::Status(WAIT.gone));
    assert!(trial.passed());
    let mut trial = Trial::new(crash_containment_smoke(), WAIT);
    assert_eq!(trial.advance(&StepEvent::Done(false)), Some("svc-crash: run fail\n"));
    let mut trial = Trial::new(crash_containment_smoke(), WAIT);
    assert_eq!(trial.advance(&StepEvent::Unloaded), None);
    assert!(!trial.passed());
    assert!(WAIT.child_parked(7) && !WAIT.child_parked(8));
    assert!(WAIT.all_residents_gone(8));
}

#[test]
fn the_other_scripts_start_with_a_server() {
    for steps in [
        crash_restart_smoke(4),
        ttyd_smoke(),
        persona_posix_tty_write_smoke(),
        persona_posix_tty_read_smoke(),
    ] {
        assert!(matches!(steps[0], Step::Spawn { slot: 0, .. }));
    }
}

#[test]
fn shown_output_is_clipped() {
    let mut tty = TtyServer::<16>::new();
    let mut reply = [0u8; REPLY_BUF_BYTES];
    let mut frame = [0u8; 2];
    let mut shown = Shown::new();
    for byte in b'a'..=b'z' {
        let n = Request::write(byte).encode_into(&mut frame).unwrap();
        let len = tty.dispatch(&frame[..n], &mut reply);
        shown.collect(&reply[..len]);
    }
    shown.collect(&[1]);
    assert_eq!(shown.output(), b"abcdefghijklmnop");
}

#[test]
fn notes_and_failures_have_their_lines() {
    assert_eq!(WatchNote::Armed.text(), "ttyd: supervision armed\n");
    assert_eq!(
        WatchNote::BudgetExhausted.text(),
        "ttyd: restart budget exhausted\n"
    );
    assert_eq!(
        SpawnNote::Transferred.text(),
        "spawn: bootstrap transfer ok\n"
    );
    assert_eq!(KeyFailure::Parse.text(), "ttyd: interactive parse fail\n");
}

#[test]
fn a_terminal_server_that_does_not_park_is_no_session() {
    assert_eq!(
        session_of(server(1), WAIT.parked, &WAIT),
        (Some(server(1)), "ttyd: interactive ok\n")
    );
    assert_eq!(
        session_of(server(1), WAIT.gone, &WAIT),
        (None, "ttyd: interactive park fail\n")
    );
}

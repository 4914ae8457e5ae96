//! The supervisor's shell.

use kumo_userland::kumoza::tokenize;
use kumo_userland::sora::shell::{
    argv_handle, build_argv, build_command_argv, eval_command, launch_cat, launch_ls,
    launch_program, line_statement, run_program, Launch, ShellAction, MAX_ARGS,
};

fn action(line: &str, initrd: u64) -> ShellAction {
    eval_command(&tokenize(line).unwrap(), initrd)
}

#[test]
fn lines_must_be_text_and_hold_a_command() {
    assert_eq!(
        line_statement(b"echo hi").unwrap().pipeline.commands[0].name,
        "echo"
    );
    assert!(line_statement(b"  ").is_none());
    assert!(line_statement(&[0xff, 0xfe]).is_none());
}

#[test]
fn commands_become_actions() {
    assert!(matches!(action("echo hi", 5), ShellAction::Print(out) if out == b"hi\n"));
    match action("cat etc/motd", 5) {
        ShellAction::Cat { argv } => assert_eq!(argv, vec![b"cat".to_vec(), b"etc/motd".to_vec()]),
        _ => panic!("cat"),
    }
    assert!(matches!(action("ls", 5), ShellAction::List));
    match action("run hello world", 5) {
        ShellAction::Run { path, argv } => {
            assert_eq!(path, b"bin/hello");
            assert_eq!(argv, vec![b"hello".to_vec(), b"world".to_vec()]);
        }
        _ => panic!("run"),
    }
    assert!(
        matches!(action("run", 5), ShellAction::Print(out) if out == b"usage: run <program> [args...]\n")
    );
}

#[test]
fn the_boot_image_goes_to_nobody_without_a_grant() {
    for initrd in [0, u64::MAX] {
        assert!(!matches!(action("cat etc/motd", initrd), ShellAction::Cat { .. }));
        assert!(
            matches!(action("cat etc/motd", initrd), ShellAction::Print(out) if out == b"cat: no initrd handle\n")
        );
        assert!(
            matches!(action("ls", initrd), ShellAction::Print(out) if out == b"ls: no initrd handle\n")
        );
    }
}

#[test]
fn words_are_bounded() {
    let many: Vec<String> = (0..20).map(|i| format!("w{i}")).collect();
    assert_eq!(build_argv(&many).len(), MAX_ARGS);
    let line = format!("cat {}", many.join(" "));
    let argv = build_command_argv(&tokenize(&line).unwrap());
    assert_eq!(argv.len(), MAX_ARGS);
    assert_eq!(argv[0], b"cat");
    assert_eq!(argv[15], b"w14");
    let long = vec!["x".repeat(61)];
    assert!(!matches!(run_program(&long), ShellAction::Run { .. }));
    let short = vec!["x".repeat(60)];
    assert!(matches!(run_program(&short), ShellAction::Run { .. }));
}

#[test]
fn launches_carry_what_they_may() {
    assert_eq!(argv_handle(1, 2, true), 2);
    assert_eq!(argv_handle(1, 2, false), 0);
    assert_eq!(argv_handle(u64::MAX, 2, true), 0);
    assert_eq!(argv_handle(1, 0, true), 0);
    assert_eq!(
        launch_cat(5, 6),
        Some(Launch {
            capability: 5,
            argv: 6
        })
    );
    assert_eq!(launch_cat(5, 0), None);
    assert_eq!(
        launch_ls(5),
        Launch {
            capability: 5,
            argv: 0
        }
    );
    assert_eq!(
        launch_program(6),
        Launch {
            capability: 0,
            argv: 6
        }
    );
}

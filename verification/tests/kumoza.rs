//! The shell language.

use kumo_userland::kumoza::{
    autoexec_lines, evaluate, parse, tokenize, write_builtin_output, Redirect, RedirectTarget,
    HELP_TEXT,
};

#[test]
fn tokenize_empty_line() {
    assert_eq!(tokenize(""), None);
    assert_eq!(tokenize("   "), None);
}

#[test]
fn tokenize_single_word() {
    let cmd = tokenize("ls").unwrap();
    assert_eq!(cmd.name, "ls");
    assert!(cmd.args.is_empty());
}

#[test]
fn tokenize_command_with_args() {
    let cmd = tokenize("echo hello world").unwrap();
    assert_eq!(cmd.name, "echo");
    assert_eq!(cmd.args, vec!["hello", "world"]);
}

#[test]
fn tokenize_extra_whitespace() {
    let cmd = tokenize("  grep   -rn  foo  ").unwrap();
    assert_eq!(cmd.name, "grep");
    assert_eq!(cmd.args, vec!["-rn", "foo"]);
}

#[test]
fn tokenize_run_program_command() {
    // The exec-vertical `run <program>` builtin: name "run", first arg = program.
    let cmd = tokenize("run hello").unwrap();
    assert_eq!(cmd.name, "run");
    assert_eq!(cmd.args.first().map(String::as_str), Some("hello"));
}

#[test]
fn tokenize_double_quotes_keep_internal_spaces() {
    let cmd = tokenize("echo \"hello world\"").unwrap();
    assert_eq!(cmd.name, "echo");
    assert_eq!(cmd.args, vec!["hello world"]);
}

#[test]
fn tokenize_single_quotes_keep_internal_spaces() {
    let cmd = tokenize("run 'my program' now").unwrap();
    assert_eq!(cmd.name, "run");
    assert_eq!(cmd.args, vec!["my program", "now"]);
}

#[test]
fn tokenize_quotes_concatenate_adjacent_runs() {
    // `a"b c"d` is one word with the quote marks stripped: `ab cd`.
    let cmd = tokenize("echo a\"b c\"d").unwrap();
    assert_eq!(cmd.args, vec!["ab cd"]);
}

#[test]
fn tokenize_empty_quotes_yield_empty_arg() {
    let cmd = tokenize("echo \"\"").unwrap();
    assert_eq!(cmd.name, "echo");
    assert_eq!(cmd.args, vec![""]);
}

#[test]
fn tokenize_unterminated_quote_closes_at_eol() {
    let cmd = tokenize("echo \"hi there").unwrap();
    assert_eq!(cmd.args, vec!["hi there"]);
}

#[test]
fn tokenize_backslash_escapes_space_and_quote() {
    // `a\ b` is one argument; `\"` is a literal quote, not a span opener.
    assert_eq!(tokenize("echo a\\ b").unwrap().args, vec!["a b"]);
    assert_eq!(tokenize("echo \\\"").unwrap().args, vec!["\""]);
}

#[test]
fn tokenize_backslash_inside_quotes_is_literal() {
    // A documented simplification: inside quotes the backslash does not escape.
    assert_eq!(tokenize("echo 'a\\b'").unwrap().args, vec!["a\\b"]);
}

#[test]
fn parse_backslash_escapes_pipe_and_redirect() {
    // `\|` and `\>` are literal — neither splits a pipeline nor opens a redirect.
    let piped = parse("echo a\\|b").unwrap();
    assert_eq!(piped.pipeline.commands.len(), 1);
    assert_eq!(piped.pipeline.commands[0].args, vec!["a|b"]);

    let redir = parse("echo a\\>b").unwrap();
    assert_eq!(redir.pipeline.commands[0].args, vec!["a>b"]);
    assert!(redir.redirects.is_empty());
}

#[test]
fn autoexec_empty_manifest_has_no_lines() {
    assert_eq!(autoexec_lines(b"").len(), 0);
    assert_eq!(autoexec_lines(b"\n\n  \n").len(), 0);
}

#[test]
fn autoexec_yields_command_lines_skipping_comments_and_blanks() {
    let manifest = b"# KUMO autoexec\nrun hello\n\n# again\nrun hello\necho hi\n";
    let lines: Vec<&[u8]> = autoexec_lines(manifest);
    assert_eq!(
        lines,
        vec![&b"run hello"[..], &b"run hello"[..], &b"echo hi"[..]]
    );
}

#[test]
fn autoexec_trims_whitespace_and_crlf() {
    // CRLF line endings and surrounding spaces must not leak into the command.
    let manifest = b"  run hello  \r\n\t# comment\r\necho hi\r\n";
    let lines: Vec<&[u8]> = autoexec_lines(manifest);
    assert_eq!(lines, vec![&b"run hello"[..], &b"echo hi"[..]]);
}

#[test]
fn parse_produces_statement() {
    let stmt = parse("cat file.txt").unwrap();
    assert_eq!(stmt.pipeline.commands.len(), 1);
    assert_eq!(stmt.pipeline.commands[0].name, "cat");
    assert!(stmt.redirects.is_empty());
}

#[test]
fn parse_splits_pipeline_into_stages() {
    let stmt = parse("ls | grep foo | wc").unwrap();
    let names: Vec<&str> = stmt
        .pipeline
        .commands
        .iter()
        .map(|c| c.name.as_str())
        .collect();
    assert_eq!(names, vec!["ls", "grep", "wc"]);
    assert_eq!(stmt.pipeline.commands[1].args, vec!["foo"]);
}

#[test]
fn parse_pipe_inside_quotes_is_literal() {
    let stmt = parse("echo \"a | b\"").unwrap();
    assert_eq!(stmt.pipeline.commands.len(), 1);
    assert_eq!(stmt.pipeline.commands[0].args, vec!["a | b"]);
}

#[test]
fn parse_skips_empty_pipeline_segments() {
    // A trailing `|` leaves one executable stage — not (yet) a syntax error.
    let stmt = parse("ls |").unwrap();
    assert_eq!(stmt.pipeline.commands.len(), 1);
    assert_eq!(stmt.pipeline.commands[0].name, "ls");
}

#[test]
fn parse_no_command_is_none() {
    assert_eq!(parse(""), None);
    assert_eq!(parse("   "), None);
    assert_eq!(parse(" | "), None);
}

#[test]
fn parse_output_redirect_to_path() {
    let stmt = parse("echo hi > out.txt").unwrap();
    assert_eq!(stmt.pipeline.commands.len(), 1);
    assert_eq!(stmt.pipeline.commands[0].name, "echo");
    assert_eq!(stmt.pipeline.commands[0].args, vec!["hi"]);
    assert_eq!(
        stmt.redirects,
        vec![Redirect {
            source: RedirectTarget::Fd(1),
            dest: RedirectTarget::Path("out.txt".into()),
        }]
    );
}

#[test]
fn parse_input_redirect_from_path() {
    let stmt = parse("sort < in.txt").unwrap();
    assert_eq!(stmt.pipeline.commands[0].name, "sort");
    assert!(stmt.pipeline.commands[0].args.is_empty());
    assert_eq!(
        stmt.redirects,
        vec![Redirect {
            source: RedirectTarget::Path("in.txt".into()),
            dest: RedirectTarget::Fd(0),
        }]
    );
}

#[test]
fn parse_fd_prefixed_and_attached_redirect() {
    // `2>err` — explicit fd, no space between operator and target.
    let stmt = parse("cmd 2>err").unwrap();
    assert_eq!(stmt.pipeline.commands[0].name, "cmd");
    assert_eq!(
        stmt.redirects,
        vec![Redirect {
            source: RedirectTarget::Fd(2),
            dest: RedirectTarget::Path("err".into()),
        }]
    );
}

#[test]
fn parse_fd_dup_redirect() {
    let stmt = parse("cmd 2>&1").unwrap();
    assert_eq!(stmt.pipeline.commands[0].name, "cmd");
    assert_eq!(
        stmt.redirects,
        vec![Redirect {
            source: RedirectTarget::Fd(2),
            dest: RedirectTarget::Fd(1),
        }]
    );
}

#[test]
fn parse_append_collapses_to_single_output_redirect() {
    // `>>` has no append flag in the current `Redirect` type, so it parses as one output
    // redirect (truncate vs append is not yet distinguished).
    let stmt = parse("echo hi >> log").unwrap();
    assert_eq!(
        stmt.redirects,
        vec![Redirect {
            source: RedirectTarget::Fd(1),
            dest: RedirectTarget::Path("log".into()),
        }]
    );
}

#[test]
fn parse_quoted_redirect_operator_is_literal() {
    let stmt = parse("echo \">\"").unwrap();
    assert_eq!(stmt.pipeline.commands[0].args, vec![">"]);
    assert!(stmt.redirects.is_empty());
}

#[test]
fn parse_redirect_within_a_pipeline_stage() {
    let stmt = parse("ls | sort > out").unwrap();
    assert_eq!(stmt.pipeline.commands.len(), 2);
    assert_eq!(stmt.pipeline.commands[1].name, "sort");
    assert_eq!(
        stmt.redirects,
        vec![Redirect {
            source: RedirectTarget::Fd(1),
            dest: RedirectTarget::Path("out".into()),
        }]
    );
}

#[test]
fn evaluate_runs_all_commands() {
    let stmt = parse("cmd1 arg1").unwrap();
    let mut seen = Vec::new();
    let ok = evaluate(&stmt, |cmd| {
        seen.push((cmd.name.clone(), cmd.args.clone()));
        true
    });
    assert!(ok);
    assert_eq!(seen.len(), 1);
    assert_eq!(seen[0].0, "cmd1");
}

#[test]
fn evaluate_stops_on_false() {
    let stmt = parse("fail").unwrap();
    let mut count = 0;
    let ok = evaluate(&stmt, |_cmd| {
        count += 1;
        false
    });
    assert!(!ok);
    assert_eq!(count, 1);
}

#[test]
fn write_builtin_output_echoes_args() {
    let cmd = tokenize("echo hello little cloud").unwrap();
    let mut out = Vec::new();

    assert!(write_builtin_output(&cmd, &mut out));

    assert_eq!(out, b"hello little cloud\n");
}

#[test]
fn write_builtin_output_echoes_blank_line() {
    let cmd = tokenize("echo").unwrap();
    let mut out = Vec::new();

    assert!(write_builtin_output(&cmd, &mut out));

    assert_eq!(out, b"\n");
}

#[test]
fn write_builtin_output_prints_help() {
    let cmd = tokenize("help").unwrap();
    let mut out = Vec::new();

    assert!(write_builtin_output(&cmd, &mut out));

    assert_eq!(out, HELP_TEXT.as_bytes());
}

#[test]
fn write_builtin_output_leaves_effectful_commands_to_sora() {
    let cmd = tokenize("run hello").unwrap();
    let mut out = Vec::new();

    assert!(!write_builtin_output(&cmd, &mut out));

    assert!(out.is_empty());
}

#[test]
fn write_builtin_output_echo_dash_n_suppresses_newline() {
    let cmd = tokenize("echo -n hi there").unwrap();
    let mut out = Vec::new();

    assert!(write_builtin_output(&cmd, &mut out));

    assert_eq!(out, b"hi there");
}

#[test]
fn write_builtin_output_echo_dash_n_alone_emits_nothing() {
    let cmd = tokenize("echo -n").unwrap();
    let mut out = Vec::new();

    assert!(write_builtin_output(&cmd, &mut out));

    assert!(out.is_empty());
}

#[test]
fn write_builtin_output_true_and_false_handled_without_output() {
    for name in ["true", "false"] {
        let cmd = tokenize(name).unwrap();
        let mut out = Vec::new();

        assert!(
            write_builtin_output(&cmd, &mut out),
            "{name} should be a handled builtin"
        );
        assert!(out.is_empty(), "{name} should produce no output");
    }
}

#[test]
fn an_empty_quoted_word_before_a_redirect_stays_a_word() {
    let stmt = parse("echo \"\">x").unwrap();
    assert_eq!(stmt.pipeline.commands[0].args, vec![""]);
    assert_eq!(
        stmt.redirects,
        vec![Redirect {
            source: RedirectTarget::Fd(1),
            dest: RedirectTarget::Path("x".into()),
        }]
    );
}

#[test]
fn words_beyond_ascii_survive() {
    let cmd = tokenize("echo wölkchen 雲").unwrap();
    assert_eq!(cmd.args, vec!["wölkchen", "雲"]);
    let mut out = Vec::new();
    assert!(write_builtin_output(&cmd, &mut out));
    assert_eq!(out, "wölkchen 雲\n".as_bytes());
}

#[test]
fn a_pipeline_stops_at_its_first_failure() {
    let stmt = parse("a | b | c").unwrap();
    let mut seen = Vec::new();
    assert!(!evaluate(&stmt, |cmd| {
        seen.push(cmd.name.clone());
        cmd.name != "b"
    }));
    assert_eq!(seen, vec!["a", "b"]);
}

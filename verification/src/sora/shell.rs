//! The shell's dispatcher: what a command line asks for, and what a command
//! gets done.

use vstd::prelude::*;
use vstd::utf8::{decode_utf8, encode_utf8, valid_utf8};

use crate::bytes;
use crate::kumoza::{builtin_output, parse, statement_of, write_builtin_output, Command, CommandView, Statement, StatementView};
use crate::text;

verus! {

/// Most words that a program is started with.
pub const MAX_ARGS: usize = 16;

/// Longest path of a program in the boot image.
pub const MAX_PROGRAM_PATH: usize = 64;

/// The statement in a submitted line. `None` for a line that is no text or
/// holds no command.
pub open spec fn line_statement_of(line: Seq<u8>) -> Option<StatementView> {
    if valid_utf8(line) {
        statement_of(decode_utf8(line))
    } else {
        None
    }
}

/// Parses a submitted line.
pub fn line_statement(line: &[u8]) -> (r: Option<Statement>)
    ensures
        match r {
            Some(s) => line_statement_of(line@) == Some(s@),
            None => line_statement_of(line@) is None,
        },
{
    match text::checked_text(line) {
        Some(t) => parse(t),
        None => None,
    }
}

/// What a command gets done.
#[derive(Debug)]
pub enum ShellAction {
    /// Prints some bytes.
    Print(Vec<u8>),
    /// Runs `cat` on these words, with the boot image in its capability slot.
    Cat { argv: Vec<Vec<u8>> },
    /// Runs `ls` with the boot image in its capability slot.
    List,
    /// Runs a program of the boot image on these words, without a capability.
    Run { path: Vec<u8>, argv: Vec<Vec<u8>> },
    /// Hands the line to the kernel's shell.
    Forward,
    /// Nothing.
    Ignore,
}

/// A [`ShellAction`] as plain data.
#[verifier::ext_equal]
pub enum ActionView {
    Print(Seq<u8>),
    Cat { argv: Seq<Seq<u8>> },
    List,
    Run { path: Seq<u8>, argv: Seq<Seq<u8>> },
    Forward,
    Ignore,
}

/// The words of a list as plain data.
pub open spec fn words(v: Seq<Vec<u8>>) -> Seq<Seq<u8>> {
    v.map_values(|w: Vec<u8>| w@)
}

impl View for ShellAction {
    type V = ActionView;

    open spec fn view(&self) -> ActionView {
        match self {
            ShellAction::Print(b) => ActionView::Print(b@),
            ShellAction::Cat { argv } => ActionView::Cat { argv: words(argv@) },
            ShellAction::List => ActionView::List,
            ShellAction::Run { path, argv } => ActionView::Run {
                path: path@,
                argv: words(argv@),
            },
            ShellAction::Forward => ActionView::Forward,
            ShellAction::Ignore => ActionView::Ignore,
        }
    }
}

/// The first words of a list, encoded.
pub open spec fn encoded(args: Seq<Seq<char>>, most: int) -> Seq<Seq<u8>> {
    Seq::new(
        if args.len() < most {
            args.len()
        } else {
            most as nat
        },
        |i: int| encode_utf8(args[i]),
    )
}

/// The shell has been given a boot image to pass on.
pub open spec fn is_granted(raw: u64) -> bool {
    raw != 0 && raw != u64::MAX
}

/// What `run` does with its words.
pub open spec fn run_action(args: Seq<Seq<char>>) -> ActionView {
    if args.len() == 0 {
        ActionView::Print(encode_utf8("usage: run <program> [args...]\n"@))
    } else {
        let path = encode_utf8("bin/"@) + encode_utf8(args[0]);
        if path.len() > 64 {
            ActionView::Print(encode_utf8("run: name too long\n"@))
        } else {
            ActionView::Run { path, argv: encoded(args, 16) }
        }
    }
}

/// What a command gets done, given the handle that the shell may pass on.
pub open spec fn action_of(c: CommandView, prog_initrd: u64) -> ActionView {
    match builtin_output(c) {
        Some(out) => ActionView::Print(out),
        None => if c.name == "cat"@ {
            if c.args.len() != 1 {
                ActionView::Print(encode_utf8("usage: cat <path>\n"@))
            } else if !is_granted(prog_initrd) {
                ActionView::Print(encode_utf8("cat: no initrd handle\n"@))
            } else {
                ActionView::Cat { argv: encoded(seq![c.name] + c.args, 16) }
            }
        } else if c.name == "ls"@ {
            if !is_granted(prog_initrd) {
                ActionView::Print(encode_utf8("ls: no initrd handle\n"@))
            } else {
                ActionView::List
            }
        } else if c.name == "run"@ {
            run_action(c.args)
        } else if c.name.len() == 0 {
            ActionView::Ignore
        } else {
            ActionView::Forward
        },
    }
}

/// The words that a program is started with.
pub fn build_argv(args: &Vec<String>) -> (argv: Vec<Vec<u8>>)
    ensures
        words(argv@) == encoded(text::texts(args@), 16),
{
    let mut argv: Vec<Vec<u8>> = Vec::new();
    let mut i: usize = 0;
    while i < args.len() && i < MAX_ARGS
        invariant
            i <= args@.len(),
            i <= 16,
            argv@.len() == i,
            forall|j: int| 0 <= j < i ==> #[trigger] argv@[j]@ == encode_utf8(args@[j]@),
        decreases args@.len() - i,
    {
        argv.push(text::to_bytes(args[i].as_str()));
        i += 1;
    }
    assert(words(argv@) =~= encoded(text::texts(args@), 16));
    argv
}

/// The words that a builtin's program is started with: its own name and its
/// arguments.
pub fn build_command_argv(cmd: &Command) -> (argv: Vec<Vec<u8>>)
    ensures
        words(argv@) == encoded(seq![cmd@.name] + cmd@.args, 16),
{
    let mut argv: Vec<Vec<u8>> = Vec::new();
    argv.push(text::to_bytes(cmd.name.as_str()));
    let mut i: usize = 0;
    while i < cmd.args.len() && i < MAX_ARGS - 1
        invariant
            i <= cmd.args@.len(),
            i <= 15,
            argv@.len() == i + 1,
            argv@[0]@ == encode_utf8(cmd.name@),
            forall|j: int|
                0 <= j < i ==> (#[trigger] argv@[j + 1])@ == encode_utf8(cmd.args@[j]@),
        decreases cmd.args@.len() - i,
    {
        argv.push(text::to_bytes(cmd.args[i].as_str()));
        i += 1;
    }
    proof {
        let all = seq![cmd@.name] + cmd@.args;
        assert forall|j: int| 0 <= j < argv@.len() implies (#[trigger] argv@[j])@ == encode_utf8(
            all[j],
        ) by {
            if j > 0 {
                assert(argv@[(j - 1) + 1]@ == encode_utf8(cmd.args@[j - 1]@));
            }
        }
        assert(words(argv@) =~= encoded(all, 16));
    }
    argv
}

/// Decides what `run` does with its words.
pub fn run_program(args: &Vec<String>) -> (a: ShellAction)
    ensures
        a@ == run_action(text::texts(args@)),
{
    if args.len() == 0 {
        return ShellAction::Print(text::to_bytes("usage: run <program> [args...]\n"));
    }
    let mut path: Vec<u8> = text::to_bytes("bin/");
    text::append_text(&mut path, args[0].as_str());
    assert(text::texts(args@)[0] == args@[0]@);
    if path.len() > MAX_PROGRAM_PATH {
        return ShellAction::Print(text::to_bytes("run: name too long\n"));
    }
    ShellAction::Run { path, argv: build_argv(args) }
}

/// Decides what one command gets done.
pub fn eval_command(cmd: &Command, prog_initrd: u64) -> (a: ShellAction)
    ensures
        a@ == action_of(cmd@, prog_initrd),
{
    let mut out: Vec<u8> = Vec::new();
    if write_builtin_output(cmd, &mut out) {
        assert(out@ =~= builtin_output(cmd@)->0);
        return ShellAction::Print(out);
    }
    let granted: bool = prog_initrd != 0 && prog_initrd != u64::MAX;
    let name: &str = cmd.name.as_str();
    if text::text_is(name, "cat") {
        if cmd.args.len() != 1 {
            ShellAction::Print(text::to_bytes("usage: cat <path>\n"))
        } else if !granted {
            ShellAction::Print(text::to_bytes("cat: no initrd handle\n"))
        } else {
            ShellAction::Cat { argv: build_command_argv(cmd) }
        }
    } else if text::text_is(name, "ls") {
        if !granted {
            ShellAction::Print(text::to_bytes("ls: no initrd handle\n"))
        } else {
            ShellAction::List
        }
    } else if text::text_is(name, "run") {
        run_program(&cmd.args)
    } else if text::to_chars(name).len() == 0 {
        ShellAction::Ignore
    } else {
        ShellAction::Forward
    }
}

/// The handle that a program finds its words in, once `stored` says whether
/// they fit the scratch buffer and reached it; zero for none.
pub fn argv_handle(vmo: u64, vmo_ro: u64, stored: bool) -> (h: u64)
    ensures
        h == (if is_granted(vmo) && is_granted(vmo_ro) && stored {
            vmo_ro
        } else {
            0
        }),
{
    if vmo == 0 || vmo == u64::MAX || vmo_ro == 0 || vmo_ro == u64::MAX || !stored {
        0
    } else {
        vmo_ro
    }
}

/// A program to start: what goes into its capability slot and its argument
/// slot.
#[derive(Clone, Copy, Debug, PartialEq, Eq, Structural)]
pub struct Launch {
    pub capability: u64,
    pub argv: u64,
}

/// Starts `cat` with the boot image and its words. `None` where it would have
/// no words, which the shell reports as [`CAT_NO_ARGV`].
pub fn launch_cat(prog_initrd: u64, argv: u64) -> (l: Option<Launch>)
    ensures
        l == (if argv == 0 {
            None
        } else {
            Some(Launch { capability: prog_initrd, argv })
        }),
{
    if argv == 0 {
        None
    } else {
        Some(Launch { capability: prog_initrd, argv })
    }
}

/// What the shell prints where `cat` cannot be given its words.
pub const CAT_NO_ARGV: &'static str = "cat: argv unavailable\n";

/// Starts `ls` with the boot image and no words.
pub fn launch_ls(prog_initrd: u64) -> (l: Launch)
    ensures
        l == (Launch { capability: prog_initrd, argv: 0 }),
{
    Launch { capability: prog_initrd, argv: 0 }
}

/// Starts a program with its words, if there are any, and no capability.
pub fn launch_program(argv: u64) -> (l: Launch)
    ensures
        l == (Launch { capability: 0, argv }),
{
    Launch { capability: 0, argv }
}

/// Only `cat` and `ls` ever get the boot image: no command named otherwise is
/// answered with one of their actions.
pub proof fn only_named_builtins_get_the_boot_image(c: CommandView, prog_initrd: u64)
    ensures
        action_of(c, prog_initrd) is Cat ==> c.name == "cat"@ && is_granted(prog_initrd),
        action_of(c, prog_initrd) is List ==> c.name == "ls"@ && is_granted(prog_initrd),
{
}

/// A program that `run` starts lies under `bin/`, and its path is short enough
/// for an entry of the boot image.
pub proof fn programs_run_from_bin(c: CommandView, prog_initrd: u64)
    ensures
        action_of(c, prog_initrd) matches ActionView::Run { path, argv } ==> {
            &&& c.name == "run"@
            &&& path.len() <= 64
            &&& path == encode_utf8("bin/"@) + encode_utf8(c.args[0])
            &&& 0 < argv.len() <= 16
            &&& argv[0] == encode_utf8(c.args[0])
        },
{
}

/// A line is a statement just where it is text that holds one.
pub proof fn lines_have_to_be_text(line: Seq<u8>)
    ensures
        !valid_utf8(line) ==> line_statement_of(line) is None,
        valid_utf8(line) ==> line_statement_of(line) == statement_of(decode_utf8(line)),
{
}

/// A program gets its words in their order, each as UTF-8, the first sixteen of them.
pub proof fn programs_get_sixteen_words(args: Seq<Seq<char>>, i: int)
    ensures
        args.len() <= 16 ==> encoded(args, 16).len() == args.len(),
        args.len() > 16 ==> encoded(args, 16).len() == 16,
        0 <= i < args.len() && i < 16 ==> encoded(args, 16)[i] == encode_utf8(args[i]),
{
}

/// A handle is one to pass on unless it is zero or stands for none.
pub proof fn zero_and_none_are_not_granted(raw: u64)
    ensures
        is_granted(raw) <==> 0 < raw && raw < 0xffff_ffff_ffff_ffff,
{
}

/// `run` without a word says how it is used; with one it runs the program of that name under `bin/`,
/// with its words, where that path has 64 bytes at most, and complains otherwise.
pub proof fn run_takes_a_program(args: Seq<Seq<char>>)
    ensures
        args.len() == 0 ==> run_action(args) == ActionView::Print(
            encode_utf8("usage: run <program> [args...]\n"@),
        ),
        args.len() > 0 && encode_utf8("bin/"@).len() + encode_utf8(args[0]).len() > 64
            ==> run_action(args) == ActionView::Print(encode_utf8("run: name too long\n"@)),
        args.len() > 0 && encode_utf8("bin/"@).len() + encode_utf8(args[0]).len() <= 64
            ==> run_action(args) == (ActionView::Run {
            path: encode_utf8("bin/"@) + encode_utf8(args[0]),
            argv: encoded(args, 16),
        }),
{
}

/// What each command does. A command that prints by itself is printed. `cat` wants one path and `ls` none
/// in particular, both want the boot image, and say what they lack; `run` starts a program; an empty name
/// does nothing, and every other command goes to the kernel's shell.
pub proof fn commands_do_what_they_say(c: CommandView, image: u64)
    ensures
        builtin_output(c) matches Some(out) ==> action_of(c, image) == ActionView::Print(out),
        builtin_output(c) is None ==> {
            &&& c.name == "cat"@ && c.args.len() != 1 ==> action_of(c, image) == ActionView::Print(
                encode_utf8("usage: cat <path>\n"@),
            )
            &&& c.name == "cat"@ && c.args.len() == 1 && (image == 0 || image == u64::MAX)
                ==> action_of(c, image) == ActionView::Print(
                encode_utf8("cat: no initrd handle\n"@),
            )
            &&& c.name == "cat"@ && c.args.len() == 1 && image != 0 && image != u64::MAX
                ==> action_of(c, image) == (ActionView::Cat {
                argv: seq![encode_utf8("cat"@), encode_utf8(c.args[0])],
            })
            &&& c.name == "ls"@ && (image == 0 || image == u64::MAX) ==> action_of(c, image)
                == ActionView::Print(encode_utf8("ls: no initrd handle\n"@))
            &&& c.name == "ls"@ && image != 0 && image != u64::MAX ==> action_of(c, image)
                == ActionView::List
            &&& c.name == "run"@ ==> action_of(c, image) == run_action(c.args)
            &&& c.name.len() == 0 ==> action_of(c, image) == ActionView::Ignore
            &&& c.name.len() > 0 && c.name != "cat"@ && c.name != "ls"@ && c.name != "run"@
                ==> action_of(c, image) == ActionView::Forward
        },
{
    reveal_strlit("cat");
    reveal_strlit("ls");
    reveal_strlit("run");
    assert("cat"@[0] == 'c');
    assert("ls"@[0] == 'l');
    assert("run"@[0] == 'r');
    if c.name == "cat"@ && c.args.len() == 1 {
        let both = seq![c.name] + c.args;
        assert(both[0] == c.name && both[1] == c.args[0]);
        assert(encoded(both, 16) =~= seq![encode_utf8("cat"@), encode_utf8(c.args[0])]);
    }
}

} // verus!

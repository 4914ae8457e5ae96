//! The shell language: words, quoting, pipelines, redirects and the builtins
//! that only produce output.

use vstd::prelude::*;
use vstd::utf8::encode_utf8;

use crate::bytes;
use crate::text;

verus! {

/// A single command: its name and its arguments.
#[derive(Clone, Debug, PartialEq, Eq)]
pub struct Command {
    pub name: String,
    pub args: Vec<String>,
}

/// A pipeline: `cmd1 | cmd2 | cmd3`.
#[derive(Clone, Debug, PartialEq, Eq)]
pub struct Pipeline {
    pub commands: Vec<Command>,
}

/// I/O redirection target.
#[derive(Clone, Debug, PartialEq, Eq)]
pub enum RedirectTarget {
    /// A file path.
    Path(String),
    /// A file descriptor number.
    Fd(u32),
}

#[derive(Clone, Debug, PartialEq, Eq)]
pub struct Redirect {
    pub source: RedirectTarget,
    pub dest: RedirectTarget,
}

/// A complete parsed statement: a pipeline with optional redirects.
#[derive(Clone, Debug, PartialEq, Eq)]
pub struct Statement {
    pub pipeline: Pipeline,
    pub redirects: Vec<Redirect>,
}

/// Help text of the shell's builtins.
pub const HELP_TEXT: &'static str =
    "KUMO Sora userspace shell (scaffold)\nbuiltins: cat <path>, echo [-n], false, help, ls, run <program>, true, wc <path>\nother commands run via kernel shell\n";

/// A command's words.
#[verifier::ext_equal]
pub struct CommandView {
    pub name: Seq<char>,
    pub args: Seq<Seq<char>>,
}

impl View for Command {
    type V = CommandView;

    open spec fn view(&self) -> CommandView {
        CommandView { name: self.name@, args: text::texts(self.args@) }
    }
}

/// What a redirect end names.
#[verifier::ext_equal]
pub enum TargetView {
    Path(Seq<char>),
    Fd(u32),
}

impl View for RedirectTarget {
    type V = TargetView;

    open spec fn view(&self) -> TargetView {
        match self {
            RedirectTarget::Path(p) => TargetView::Path(p@),
            RedirectTarget::Fd(n) => TargetView::Fd(*n),
        }
    }
}

/// A redirect, in the direction in which data flows.
#[verifier::ext_equal]
pub struct RedirectView {
    pub source: TargetView,
    pub dest: TargetView,
}

impl View for Redirect {
    type V = RedirectView;

    open spec fn view(&self) -> RedirectView {
        RedirectView { source: self.source@, dest: self.dest@ }
    }
}

/// The commands of a list.
pub open spec fn command_views(v: Seq<Command>) -> Seq<CommandView> {
    v.map_values(|c: Command| c@)
}

/// The redirects of a list.
pub open spec fn redirect_views(v: Seq<Redirect>) -> Seq<RedirectView> {
    v.map_values(|r: Redirect| r@)
}

/// A parsed statement.
#[verifier::ext_equal]
pub struct StatementView {
    pub commands: Seq<CommandView>,
    pub redirects: Seq<RedirectView>,
}

impl View for Statement {
    type V = StatementView;

    open spec fn view(&self) -> StatementView {
        StatementView {
            commands: command_views(self.pipeline.commands@),
            redirects: redirect_views(self.redirects@),
        }
    }
}

/// How the next character is read: plainly, as what a backslash escapes, or as
/// part of a quoted span.
#[derive(Clone, Copy, Debug, PartialEq, Eq, Structural)]
pub enum Mode {
    Plain,
    Escaped,
    Quoted(char),
}

/// A word, or a redirect operator with the descriptor before it.
#[verifier::ext_equal]
pub enum Token {
    Word(Seq<char>),
    Redir { fd: Option<u32>, output: bool },
}

/// ASCII whitespace.
pub open spec fn is_space(c: char) -> bool {
    c == ' ' || c == '\t' || c == '\n' || c == '\x0c' || c == '\r'
}

pub open spec fn is_quote(c: char) -> bool {
    c == '"' || c == '\''
}

pub open spec fn is_redirect(c: char) -> bool {
    c == '<' || c == '>'
}

pub open spec fn is_digit(c: char) -> bool {
    '0' <= c && c <= '9'
}

/// A nonempty run of digits.
pub open spec fn is_number(w: Seq<char>) -> bool {
    w.len() > 0 && forall|i: int| 0 <= i < w.len() ==> is_digit(#[trigger] w[i])
}

/// The value of a run of digits.
pub open spec fn decimal(w: Seq<char>) -> int
    decreases w.len(),
{
    if w.len() == 0 {
        0
    } else {
        10 * decimal(w.drop_last()) + (w.last() as int - '0' as int)
    }
}

/// The value of a run of digits, where a descriptor can hold it.
pub open spec fn descriptor(w: Seq<char>) -> Option<u32> {
    if is_number(w) && decimal(w) <= u32::MAX {
        Some(decimal(w) as u32)
    } else {
        None
    }
}

/// The text of the word being read.
pub open spec fn so_far(word: Option<Seq<char>>) -> Seq<char> {
    match word {
        Some(w) => w,
        None => Seq::empty(),
    }
}

/// The word being read, as a token.
pub open spec fn finish(word: Option<Seq<char>>) -> Seq<Token> {
    match word {
        Some(w) => seq![Token::Word(w)],
        None => Seq::empty(),
    }
}

/// The tokens at a redirect operator: a run of digits that touches it is its
/// descriptor, any other word stands before it.
pub open spec fn operator(word: Option<Seq<char>>, output: bool) -> Seq<Token> {
    match word {
        Some(w) => if is_number(w) {
            seq![Token::Redir { fd: descriptor(w), output }]
        } else {
            seq![Token::Word(w), Token::Redir { fd: None, output }]
        },
        None => seq![Token::Redir { fd: None, output }],
    }
}

/// The tokens of `s`, read in `mode` after `word`. Whitespace ends a word. A
/// quote opens a span that lasts to the same quote or to the end of the text;
/// in it every other character stands for itself. Elsewhere a backslash makes
/// the next character stand for itself, and, with `ops`, `<` and `>` are
/// operators.
pub open spec fn scan(s: Seq<char>, mode: Mode, word: Option<Seq<char>>, ops: bool) -> Seq<Token>
    decreases s.len(),
{
    if s.len() == 0 {
        finish(word)
    } else {
        let c = s[0];
        let rest = s.subrange(1, s.len() as int);
        match mode {
            Mode::Escaped => scan(rest, Mode::Plain, Some(so_far(word).push(c)), ops),
            Mode::Quoted(q) => if c == q {
                scan(rest, Mode::Plain, word, ops)
            } else {
                scan(rest, mode, Some(so_far(word).push(c)), ops)
            },
            Mode::Plain => if c == '\\' {
                scan(rest, Mode::Escaped, word, ops)
            } else if is_quote(c) {
                scan(rest, Mode::Quoted(c), Some(so_far(word)), ops)
            } else if ops && is_redirect(c) {
                operator(word, c == '>') + scan(rest, Mode::Plain, None, ops)
            } else if is_space(c) {
                finish(word) + scan(rest, Mode::Plain, None, ops)
            } else {
                scan(rest, Mode::Plain, Some(so_far(word).push(c)), ops)
            },
        }
    }
}

/// The pieces of `s` between pipes, read in `mode` after `piece`. A pipe that
/// is quoted or escaped does not split.
pub open spec fn split(s: Seq<char>, mode: Mode, piece: Seq<char>) -> Seq<Seq<char>>
    decreases s.len(),
{
    if s.len() == 0 {
        seq![piece]
    } else {
        let c = s[0];
        let rest = s.subrange(1, s.len() as int);
        match mode {
            Mode::Escaped => split(rest, Mode::Plain, piece.push(c)),
            Mode::Quoted(q) => split(
                rest,
                if c == q {
                    Mode::Plain
                } else {
                    mode
                },
                piece.push(c),
            ),
            Mode::Plain => if c == '|' {
                seq![piece] + split(rest, Mode::Plain, Seq::empty())
            } else {
                split(
                    rest,
                    if c == '\\' {
                        Mode::Escaped
                    } else if is_quote(c) {
                        Mode::Quoted(c)
                    } else {
                        Mode::Plain
                    },
                    piece.push(c),
                )
            },
        }
    }
}

/// What the word after a redirect operator names: `&n` a descriptor, anything
/// else a path.
pub open spec fn target_of(w: Seq<char>) -> TargetView {
    if w.len() > 0 && w[0] == '&' && descriptor(w.subrange(1, w.len() as int)) is Some {
        TargetView::Fd(descriptor(w.subrange(1, w.len() as int))->0)
    } else {
        TargetView::Path(w)
    }
}

/// The redirect that an operator and its target word make.
pub open spec fn redirect_of(fd: Option<u32>, output: bool, w: Seq<char>) -> RedirectView {
    if output {
        RedirectView {
            source: TargetView::Fd(
                match fd {
                    Some(n) => n,
                    None => 1,
                },
            ),
            dest: target_of(w),
        }
    } else {
        RedirectView {
            source: target_of(w),
            dest: TargetView::Fd(
                match fd {
                    Some(n) => n,
                    None => 0,
                },
            ),
        }
    }
}

/// Sorts tokens into command words and redirects. A word after an operator is
/// that operator's target; an operator drops one that still waits for its.
pub open spec fn sort(
    toks: Seq<Token>,
    words: Seq<Seq<char>>,
    redirects: Seq<RedirectView>,
    pending: Option<(Option<u32>, bool)>,
) -> (Seq<Seq<char>>, Seq<RedirectView>)
    decreases toks.len(),
{
    if toks.len() == 0 {
        (words, redirects)
    } else {
        let rest = toks.subrange(1, toks.len() as int);
        match toks[0] {
            Token::Redir { fd, output } => sort(rest, words, redirects, Some((fd, output))),
            Token::Word(w) => match pending {
                Some((fd, output)) => sort(
                    rest,
                    words,
                    redirects.push(redirect_of(fd, output, w)),
                    None,
                ),
                None => sort(rest, words.push(w), redirects, None),
            },
        }
    }
}

/// The command that some words make; none of them makes none.
pub open spec fn command_of(words: Seq<Seq<char>>) -> Option<CommandView> {
    if words.len() == 0 {
        None
    } else {
        Some(CommandView { name: words[0], args: words.subrange(1, words.len() as int) })
    }
}

/// The words of a line, with operators as ordinary characters.
pub open spec fn line_words(line: Seq<char>) -> Seq<Seq<char>> {
    sort(scan(line, Mode::Plain, None, false), Seq::empty(), Seq::empty(), None).0
}

/// The command and the redirects of one pipeline stage.
pub open spec fn segment_of(s: Seq<char>) -> Option<(CommandView, Seq<RedirectView>)> {
    let (words, redirects) = sort(
        scan(s, Mode::Plain, None, true),
        Seq::empty(),
        Seq::empty(),
        None,
    );
    match command_of(words) {
        None => None,
        Some(c) => Some((c, redirects)),
    }
}

/// Collects the commands and redirects of some stages; a stage without a
/// command is skipped, with its redirects.
pub open spec fn gather(
    segments: Seq<Seq<char>>,
    commands: Seq<CommandView>,
    redirects: Seq<RedirectView>,
) -> (Seq<CommandView>, Seq<RedirectView>)
    decreases segments.len(),
{
    if segments.len() == 0 {
        (commands, redirects)
    } else {
        let rest = segments.subrange(1, segments.len() as int);
        match segment_of(segments[0]) {
            None => gather(rest, commands, redirects),
            Some((c, r)) => gather(rest, commands.push(c), redirects + r),
        }
    }
}

/// The statement on a line; a line without a command holds none.
pub open spec fn statement_of(line: Seq<char>) -> Option<StatementView> {
    let (commands, redirects) = gather(
        split(line, Mode::Plain, Seq::empty()),
        Seq::empty(),
        Seq::empty(),
    );
    if commands.len() == 0 {
        None
    } else {
        Some(StatementView { commands, redirects })
    }
}

/// A token that the lexer produced.
enum Tok {
    Word(String),
    Redir { fd: Option<u32>, output: bool },
}

spec fn tok_view(t: Tok) -> Token {
    match t {
        Tok::Word(w) => Token::Word(w@),
        Tok::Redir { fd, output } => Token::Redir { fd, output },
    }
}

spec fn tok_views(v: Seq<Tok>) -> Seq<Token> {
    v.map_values(|t: Tok| tok_view(t))
}

fn space(c: char) -> (r: bool)
    ensures
        r == is_space(c),
{
    c == ' ' || c == '\t' || c == '\n' || c == '\x0c' || c == '\r'
}

fn all_digits(w: &Vec<char>) -> (r: bool)
    ensures
        r == is_number(w@),
{
    if w.len() == 0 {
        return false;
    }
    let mut i: usize = 0;
    while i < w.len()
        invariant
            i <= w@.len(),
            forall|j: int| 0 <= j < i ==> is_digit(#[trigger] w@[j]),
        decreases w@.len() - i,
    {
        if !('0' <= w[i] && w[i] <= '9') {
            assert(!is_digit(w@[i as int]));
            return false;
        }
        i += 1;
    }
    true
}

/// A longer run of digits has no smaller value.
proof fn lemma_decimal_grows(w: Seq<char>, n: int)
    requires
        is_number(w),
        0 <= n <= w.len(),
    ensures
        0 <= decimal(w.subrange(0, n)) <= decimal(w),
    decreases w.len() - n,
{
    if n < w.len() {
        lemma_decimal_grows(w, n + 1);
        let longer = w.subrange(0, n + 1);
        assert(longer.drop_last() =~= w.subrange(0, n));
        assert(is_digit(w[n]));
        assert(longer.last() == w[n]);
        lemma_decimal_nonneg(w.subrange(0, n));
    } else {
        assert(w.subrange(0, n) =~= w);
        lemma_decimal_nonneg(w);
    }
}

proof fn lemma_decimal_nonneg(w: Seq<char>)
    requires
        forall|i: int| 0 <= i < w.len() ==> is_digit(#[trigger] w[i]),
    ensures
        0 <= decimal(w),
    decreases w.len(),
{
    if w.len() > 0 {
        let init = w.drop_last();
        assert forall|i: int| 0 <= i < init.len() implies is_digit(#[trigger] init[i]) by {
            assert(init[i] == w[i]);
        }
        lemma_decimal_nonneg(init);
        assert(is_digit(w[w.len() - 1]));
    }
}

/// Reads a run of digits as a descriptor.
fn read_descriptor(w: &Vec<char>) -> (r: Option<u32>)
    ensures
        r == descriptor(w@),
{
    if !all_digits(w) {
        return None;
    }
    let mut value: u64 = 0;
    let mut i: usize = 0;
    while i < w.len()
        invariant
            i <= w@.len(),
            is_number(w@),
            value == decimal(w@.subrange(0, i as int)),
            value <= u32::MAX,
        decreases w@.len() - i,
    {
        assert(is_digit(w@[i as int]));
        let digit: u64 = w[i] as u64 - '0' as u64;
        value = 10 * value + digit;
        i += 1;
        proof {
            let longer = w@.subrange(0, i as int);
            assert(longer.drop_last() =~= w@.subrange(0, i - 1));
            assert(longer.last() == w@[i - 1]);
            lemma_decimal_grows(w@, i as int);
        }
        if value > u32::MAX as u64 {
            return None;
        }
    }
    assert(w@.subrange(0, i as int) =~= w@);
    Some(value as u32)
}

/// Lexes a text into words and, with `ops`, redirect operators.
fn lex(s: &Vec<char>, ops: bool) -> (toks: Vec<Tok>)
    ensures
        tok_views(toks@) == scan(s@, Mode::Plain, None, ops),
{
    let mut toks: Vec<Tok> = Vec::new();
    let mut word: Vec<char> = Vec::new();
    let mut in_word: bool = false;
    let mut mode: Mode = Mode::Plain;
    let mut i: usize = 0;
    assert(s@.subrange(0, s@.len() as int) =~= s@);
    while i < s.len()
        invariant
            i <= s@.len(),
            !in_word ==> word@.len() == 0,
            scan(s@, Mode::Plain, None, ops) =~= tok_views(toks@) + scan(
                s@.subrange(i as int, s@.len() as int),
                mode,
                if in_word {
                    Some(word@)
                } else {
                    None
                },
                ops,
            ),
        decreases s@.len() - i,
    {
        let c: char = s[i];
        let ghost left = s@.subrange(i as int, s@.len() as int);
        let ghost held = if in_word {
            Some(word@)
        } else {
            None
        };
        let ghost before = tok_views(toks@);
        assert(left[0] == c);
        assert(left.subrange(1, left.len() as int) =~= s@.subrange(i + 1, s@.len() as int));
        assert(so_far(held) =~= word@);
        match mode {
            Mode::Escaped => {
                word.push(c);
                in_word = true;
                mode = Mode::Plain;
            },
            Mode::Quoted(q) => {
                if c == q {
                    mode = Mode::Plain;
                } else {
                    word.push(c);
                    in_word = true;
                }
            },
            Mode::Plain => {
                if c == '\\' {
                    mode = Mode::Escaped;
                } else if c == '"' || c == '\'' {
                    mode = Mode::Quoted(c);
                    in_word = true;
                } else if ops && (c == '<' || c == '>') {
                    let output: bool = c == '>';
                    if in_word && all_digits(&word) {
                        let fd: Option<u32> = read_descriptor(&word);
                        toks.push(Tok::Redir { fd, output });
                    } else {
                        if in_word {
                            toks.push(Tok::Word(text::to_string(&word)));
                        }
                        toks.push(Tok::Redir { fd: None, output });
                    }
                    word = Vec::new();
                    in_word = false;
                    assert(tok_views(toks@) =~= before + operator(held, output));
                } else if space(c) {
                    if in_word {
                        toks.push(Tok::Word(text::to_string(&word)));
                        word = Vec::new();
                        in_word = false;
                    }
                    assert(tok_views(toks@) =~= before + finish(held));
                } else {
                    word.push(c);
                    in_word = true;
                }
            },
        }
        i += 1;
    }
    if in_word {
        toks.push(Tok::Word(text::to_string(&word)));
    }
    assert(s@.subrange(i as int, s@.len() as int).len() == 0);
    assert(tok_views(toks@) =~= scan(s@, Mode::Plain, None, ops));
    toks
}

/// Splits a line into the texts between its pipes.
fn split_pipeline(line: &Vec<char>) -> (segments: Vec<Vec<char>>)
    ensures
        segments@.map_values(|v: Vec<char>| v@) == split(line@, Mode::Plain, Seq::empty()),
{
    let mut segments: Vec<Vec<char>> = Vec::new();
    let mut piece: Vec<char> = Vec::new();
    let mut mode: Mode = Mode::Plain;
    let mut i: usize = 0;
    assert(line@.subrange(0, line@.len() as int) =~= line@);
    while i < line.len()
        invariant
            i <= line@.len(),
            split(line@, Mode::Plain, Seq::empty()) =~= segments@.map_values(|v: Vec<char>| v@)
                + split(line@.subrange(i as int, line@.len() as int), mode, piece@),
        decreases line@.len() - i,
    {
        let c: char = line[i];
        let ghost left = line@.subrange(i as int, line@.len() as int);
        let ghost before = segments@.map_values(|v: Vec<char>| v@);
        let ghost held = piece@;
        assert(left[0] == c);
        assert(left.subrange(1, left.len() as int) =~= line@.subrange(i + 1, line@.len() as int));
        let mut cut: bool = false;
        match mode {
            Mode::Escaped => {
                mode = Mode::Plain;
            },
            Mode::Quoted(q) => {
                if c == q {
                    mode = Mode::Plain;
                }
            },
            Mode::Plain => {
                if c == '|' {
                    cut = true;
                } else if c == '\\' {
                    mode = Mode::Escaped;
                } else if c == '"' || c == '\'' {
                    mode = Mode::Quoted(c);
                }
            },
        }
        if cut {
            segments.push(piece);
            piece = Vec::new();
            assert(segments@.map_values(|v: Vec<char>| v@) =~= before + seq![held]);
            assert(piece@ =~= Seq::empty());
        } else {
            piece.push(c);
        }
        i += 1;
    }
    assert(line@.subrange(i as int, line@.len() as int).len() == 0);
    let ghost before = segments@.map_values(|v: Vec<char>| v@);
    let ghost held = piece@;
    segments.push(piece);
    assert(segments@.map_values(|v: Vec<char>| v@) =~= before + seq![held]);
    segments
}

/// Resolves the word after a redirect operator.
fn redirect_target(word: String) -> (t: RedirectTarget)
    ensures
        t@ == target_of(word@),
{
    let chars: Vec<char> = text::to_chars(word.as_str());
    if chars.len() > 0 && chars[0] == '&' {
        let mut digits: Vec<char> = Vec::new();
        let mut i: usize = 1;
        while i < chars.len()
            invariant
                1 <= i <= chars@.len(),
                digits@ == chars@.subrange(1, i as int),
            decreases chars@.len() - i,
        {
            digits.push(chars[i]);
            i += 1;
            assert(digits@ =~= chars@.subrange(1, i as int));
        }
        match read_descriptor(&digits) {
            Some(fd) => return RedirectTarget::Fd(fd),
            None => {},
        }
    }
    RedirectTarget::Path(word)
}

/// Makes a command of its words.
fn make_command(words: Vec<String>) -> (r: Option<Command>)
    ensures
        match r {
            Some(c) => command_of(text::texts(words@)) == Some(c@),
            None => command_of(text::texts(words@)) is None,
        },
{
    let ghost all = words@;
    let mut words = words;
    if words.len() == 0 {
        return None;
    }
    let name: String = words.remove(0);
    assert(text::texts(words@) =~= text::texts(all).subrange(1, all.len() as int));
    Some(Command { name, args: words })
}

/// Sorts lexed tokens into command words and redirects.
fn sort_tokens(toks: Vec<Tok>) -> (r: (Vec<String>, Vec<Redirect>))
    ensures
        (text::texts(r.0@), redirect_views(r.1@)) == sort(
            tok_views(toks@),
            Seq::empty(),
            Seq::empty(),
            None,
        ),
{
    let ghost all = tok_views(toks@);
    let mut words: Vec<String> = Vec::new();
    let mut redirects: Vec<Redirect> = Vec::new();
    let mut pending: Option<(Option<u32>, bool)> = None;
    let mut toks = toks;
    assert(text::texts(words@) =~= Seq::empty());
    assert(redirect_views(redirects@) =~= Seq::empty());
    while toks.len() > 0
        invariant
            sort(all, Seq::empty(), Seq::empty(), None) == sort(
                tok_views(toks@),
                text::texts(words@),
                redirect_views(redirects@),
                pending,
            ),
        decreases toks@.len(),
    {
        let ghost left = toks@;
        let ghost w0 = text::texts(words@);
        let ghost r0 = redirect_views(redirects@);
        let tok: Tok = toks.remove(0);
        assert(tok_views(toks@) =~= tok_views(left).subrange(1, left.len() as int));
        assert(tok_views(left)[0] == tok_view(tok));
        match tok {
            Tok::Redir { fd, output } => {
                pending = Some((fd, output));
            },
            Tok::Word(w) => {
                let ghost wv = w@;
                match pending {
                    Some((fd, output)) => {
                        pending = None;
                        let target: RedirectTarget = redirect_target(w);
                        let redirect: Redirect = if output {
                            let n: u32 = match fd {
                                Some(n) => n,
                                None => 1,
                            };
                            Redirect { source: RedirectTarget::Fd(n), dest: target }
                        } else {
                            let n: u32 = match fd {
                                Some(n) => n,
                                None => 0,
                            };
                            Redirect { source: target, dest: RedirectTarget::Fd(n) }
                        };
                        assert(redirect@ == redirect_of(fd, output, wv));
                        redirects.push(redirect);
                        assert(redirect_views(redirects@) =~= r0.push(
                            redirect_of(fd, output, wv),
                        ));
                    },
                    None => {
                        words.push(w);
                        assert(text::texts(words@) =~= w0.push(wv));
                    },
                }
            },
        }
    }
    (words, redirects)
}

/// Tokenizes a line into a single command. Words are separated by ASCII
/// whitespace; quotes and backslashes work as in [`scan`]. `None` for a line
/// without a word.
pub fn tokenize(line: &str) -> (r: Option<Command>)
    ensures
        match r {
            Some(c) => command_of(line_words(line@)) == Some(c@),
            None => command_of(line_words(line@)) is None,
        },
{
    let chars: Vec<char> = text::to_chars(line);
    let (words, _) = sort_tokens(lex(&chars, false));
    make_command(words)
}

/// Parses one pipeline stage into its command and its redirects.
fn parse_segment(segment: &Vec<char>) -> (r: Option<(Command, Vec<Redirect>)>)
    ensures
        match r {
            Some((c, redirects)) => segment_of(segment@) == Some((c@, redirect_views(redirects@))),
            None => segment_of(segment@) is None,
        },
{
    let (words, redirects) = sort_tokens(lex(segment, true));
    match make_command(words) {
        None => None,
        Some(c) => Some((c, redirects)),
    }
}

/// Parses a line into a statement: the commands between its pipes, and the
/// redirects of all of them in order. `None` when the line holds no command.
///
/// A redirect follows the data flow: `n> path` goes from descriptor `n`
/// (default 1) to the path, `n< path` from the path to descriptor `n`
/// (default 0), `n>&m` from descriptor `n` to descriptor `m`.
pub fn parse(line: &str) -> (r: Option<Statement>)
    ensures
        match r {
            Some(s) => statement_of(line@) == Some(s@),
            None => statement_of(line@) is None,
        },
{
    let chars: Vec<char> = text::to_chars(line);
    let segments: Vec<Vec<char>> = split_pipeline(&chars);
    let ghost all = segments@.map_values(|v: Vec<char>| v@);
    let mut commands: Vec<Command> = Vec::new();
    let mut redirects: Vec<Redirect> = Vec::new();
    let mut i: usize = 0;
    assert(command_views(commands@) =~= Seq::empty());
    assert(redirect_views(redirects@) =~= Seq::empty());
    assert(all.subrange(0, all.len() as int) =~= all);
    while i < segments.len()
        invariant
            i <= segments@.len(),
            all == segments@.map_values(|v: Vec<char>| v@),
            gather(all, Seq::empty(), Seq::empty()) == gather(
                all.subrange(i as int, all.len() as int),
                command_views(commands@),
                redirect_views(redirects@),
            ),
        decreases segments@.len() - i,
    {
        let ghost left = all.subrange(i as int, all.len() as int);
        let ghost c0 = command_views(commands@);
        let ghost r0 = redirect_views(redirects@);
        assert(left[0] == segments@[i as int]@);
        assert(left.subrange(1, left.len() as int) =~= all.subrange(i + 1, all.len() as int));
        match parse_segment(&segments[i]) {
            None => {},
            Some((c, more)) => {
                let ghost cv = c@;
                let ghost mv = redirect_views(more@);
                let mut more = more;
                commands.push(c);
                redirects.append(&mut more);
                assert(command_views(commands@) =~= c0.push(cv));
                assert(redirect_views(redirects@) =~= r0 + mv);
            },
        }
        i += 1;
    }
    assert(all.subrange(i as int, all.len() as int).len() == 0);
    if commands.len() == 0 {
        return None;
    }
    Some(Statement { pipeline: Pipeline { commands }, redirects })
}

/// The handler can answer command `i` with `answer`.
pub open spec fn answers<F: FnMut(&Command) -> bool>(
    handler: F,
    commands: Seq<Command>,
    i: int,
    answer: bool,
) -> bool {
    call_ensures(handler, (&commands[i],), answer)
}

/// The handler can have answered every command before `i` with `true`.
pub open spec fn reached<F: FnMut(&Command) -> bool>(
    handler: F,
    commands: Seq<Command>,
    i: int,
) -> bool {
    forall|j: int| 0 <= j < i ==> #[trigger] answers(handler, commands, j, true)
}

/// Hands each command of a statement to `handler`, in order, up to the first
/// one that it answers with `false`. `handler` need only accept those: it is
/// asked for no other.
pub fn evaluate<F: FnMut(&Command) -> bool>(statement: &Statement, mut handler: F) -> (r: bool)
    requires
        forall|i: int|
            #![trigger statement.pipeline.commands@[i]]
            0 <= i < statement.pipeline.commands@.len() && reached(
                handler,
                statement.pipeline.commands@,
                i,
            ) ==> call_requires(handler, (&statement.pipeline.commands@[i],)),
    ensures
        r ==> reached(
            handler,
            statement.pipeline.commands@,
            statement.pipeline.commands@.len() as int,
        ),
        !r ==> exists|k: int|
            0 <= k < statement.pipeline.commands@.len() && #[trigger] answers(
                handler,
                statement.pipeline.commands@,
                k,
                false,
            ) && reached(handler, statement.pipeline.commands@, k),
{
    let ghost given = handler;
    let mut i: usize = 0;
    let mut go_on: bool = true;
    while go_on && i < statement.pipeline.commands.len()
        invariant
            i <= statement.pipeline.commands@.len(),
            handler == given,
            forall|j: int|
                #![trigger statement.pipeline.commands@[j]]
                0 <= j < statement.pipeline.commands@.len() && reached(
                    handler,
                    statement.pipeline.commands@,
                    j,
                ) ==> call_requires(handler, (&statement.pipeline.commands@[j],)),
            !go_on ==> i > 0 && answers(given, statement.pipeline.commands@, i - 1, false),
            forall|j: int|
                0 <= j < (if go_on {
                    i as int
                } else {
                    i - 1
                }) ==> #[trigger] answers(given, statement.pipeline.commands@, j, true),
        decreases statement.pipeline.commands@.len() - i,
    {
        go_on = handler(&statement.pipeline.commands[i]);
        assert(answers(given, statement.pipeline.commands@, i as int, go_on));
        i += 1;
    }
    go_on
}

/// The arguments joined by single spaces, as bytes.
pub open spec fn joined(args: Seq<Seq<char>>) -> Seq<u8>
    decreases args.len(),
{
    if args.len() == 0 {
        Seq::empty()
    } else if args.len() == 1 {
        encode_utf8(args[0])
    } else {
        joined(args.drop_last()) + seq![0x20u8] + encode_utf8(args.last())
    }
}

/// What `echo` prints: its arguments and a newline, which the flag `-n` in the
/// first place leaves out.
pub open spec fn echo_output(args: Seq<Seq<char>>) -> Seq<u8> {
    if args.len() > 0 && args[0] == "-n"@ {
        joined(args.subrange(1, args.len() as int))
    } else {
        joined(args) + seq![0x0au8]
    }
}

/// The output of a builtin that has no other effect. `None` for every other
/// command.
pub open spec fn builtin_output(c: CommandView) -> Option<Seq<u8>> {
    if c.name == "echo"@ {
        Some(echo_output(c.args))
    } else if c.name == "help"@ {
        Some(encode_utf8(HELP_TEXT@))
    } else if c.name == "true"@ || c.name == "false"@ {
        Some(Seq::empty())
    } else {
        None
    }
}

/// Appends the output of an output-only builtin to `out`. Returns whether the
/// command was one.
pub fn write_builtin_output(cmd: &Command, out: &mut Vec<u8>) -> (handled: bool)
    ensures
        handled == (builtin_output(cmd@) is Some),
        final(out)@ == old(out)@ + (match builtin_output(cmd@) {
            Some(data) => data,
            None => Seq::empty(),
        }),
{
    let ghost before = out@;
    let name: &str = cmd.name.as_str();
    if text::text_is(name, "echo") {
        let ghost args = text::texts(cmd.args@);
        let quiet: bool = cmd.args.len() > 0 && text::text_is(cmd.args[0].as_str(), "-n");
        let first: usize = if quiet {
            1
        } else {
            0
        };
        let ghost shown = args.subrange(first as int, args.len() as int);
        let mut i: usize = first;
        assert(shown.subrange(0, 0) =~= Seq::empty());
        assert(out@ =~= before + joined(shown.subrange(0, 0)));
        while i < cmd.args.len()
            invariant
                first <= i <= cmd.args@.len(),
                args == text::texts(cmd.args@),
                shown == args.subrange(first as int, args.len() as int),
                out@ =~= before + joined(shown.subrange(0, i - first)),
            decreases cmd.args@.len() - i,
        {
            let ghost had = shown.subrange(0, i - first);
            if i > first {
                out.push(0x20);
            }
            text::append_text(out, cmd.args[i].as_str());
            i += 1;
            proof {
                let now = shown.subrange(0, i - first);
                assert(now.drop_last() =~= had);
                assert(now.last() == cmd.args@[i - 1]@);
                assert(out@ =~= before + joined(now));
            }
        }
        assert(shown.subrange(0, i - first) =~= shown);
        if !quiet {
            out.push(0x0a);
            assert(shown =~= args);
        }
        assert(out@ =~= before + echo_output(args));
        true
    } else if text::text_is(name, "help") {
        text::append_text(out, HELP_TEXT);
        true
    } else if text::text_is(name, "true") || text::text_is(name, "false") {
        assert(out@ =~= before + Seq::<u8>::empty());
        true
    } else {
        assert(out@ =~= before + Seq::<u8>::empty());
        false
    }
}

/// ASCII whitespace, as a byte.
pub open spec fn is_space_byte(b: u8) -> bool {
    b == 0x20 || b == 0x09 || b == 0x0a || b == 0x0c || b == 0x0d
}

/// `s` without the whitespace in front.
pub open spec fn trim_start(s: Seq<u8>) -> Seq<u8>
    decreases s.len(),
{
    if s.len() > 0 && is_space_byte(s[0]) {
        trim_start(s.subrange(1, s.len() as int))
    } else {
        s
    }
}

/// `s` without the whitespace at the end.
pub open spec fn trim_end(s: Seq<u8>) -> Seq<u8>
    decreases s.len(),
{
    if s.len() > 0 && is_space_byte(s.last()) {
        trim_end(s.drop_last())
    } else {
        s
    }
}

/// A line that holds a command: neither blank nor a comment.
pub open spec fn is_command_line(line: Seq<u8>) -> bool {
    line.len() > 0 && line[0] != 0x23
}

/// The command lines of a manifest, in order, each without the whitespace
/// around it.
pub open spec fn manifest_lines(s: Seq<u8>) -> Seq<Seq<u8>>
    decreases s.len(),
{
    let end = bytes::first_index(s, 0x0a);
    let line = trim_end(trim_start(s.subrange(0, end)));
    let here = if is_command_line(line) {
        seq![line]
    } else {
        Seq::empty()
    };
    if 0 <= end < s.len() {
        here + manifest_lines(s.subrange(end + 1, s.len() as int))
    } else {
        here
    }
}

fn space_byte(b: u8) -> (r: bool)
    ensures
        r == is_space_byte(b),
{
    b == 0x20 || b == 0x09 || b == 0x0a || b == 0x0c || b == 0x0d
}

/// Strips the whitespace around a line.
fn trim(line: &[u8]) -> (r: &[u8])
    ensures
        r@ == trim_end(trim_start(line@)),
{
    let n: usize = line.len();
    let mut start: usize = 0;
    assert(line@.subrange(0, n as int) =~= line@);
    while start < n && space_byte(line[start])
        invariant
            start <= n,
            n == line@.len(),
            trim_start(line@) == trim_start(line@.subrange(start as int, n as int)),
        decreases n - start,
    {
        proof {
            let left = line@.subrange(start as int, n as int);
            assert(left.subrange(1, left.len() as int) =~= line@.subrange(start + 1, n as int));
        }
        start += 1;
    }
    let ghost front = line@.subrange(start as int, n as int);
    assert(trim_start(line@) == front) by {
        if start < n {
            assert(front[0] == line@[start as int]);
        }
    }
    let mut end: usize = n;
    while end > start && space_byte(line[end - 1])
        invariant
            start <= end <= n,
            n == line@.len(),
            front == line@.subrange(start as int, n as int),
            trim_end(front) == trim_end(line@.subrange(start as int, end as int)),
        decreases end,
    {
        proof {
            let left = line@.subrange(start as int, end as int);
            assert(left.last() == line@[end - 1]);
            assert(left.drop_last() =~= line@.subrange(start as int, end - 1));
        }
        end -= 1;
    }
    proof {
        let left = line@.subrange(start as int, end as int);
        if end > start {
            assert(left.last() == line@[end - 1]);
        }
        assert(trim_end(left) == left);
    }
    &line[start..end]
}

/// The command lines of an autoexec manifest: one shell command per line, each
/// without the whitespace around it; blank lines and `#` comments are skipped.
pub fn autoexec_lines(manifest: &[u8]) -> (lines: Vec<&[u8]>)
    ensures
        lines@.map_values(|l: &[u8]| l@) == manifest_lines(manifest@),
{
    let mut lines: Vec<&[u8]> = Vec::new();
    let n: usize = manifest.len();
    let mut start: usize = 0;
    let mut more: bool = true;
    assert(manifest@.subrange(0, n as int) =~= manifest@);
    while more
        invariant
            start <= n,
            n == manifest@.len(),
            manifest_lines(manifest@) =~= lines@.map_values(|l: &[u8]| l@) + (if more {
                manifest_lines(manifest@.subrange(start as int, n as int))
            } else {
                Seq::empty()
            }),
        decreases (if more {
            n - start + 1
        } else {
            0
        }),
    {
        let rest: &[u8] = &manifest[start..n];
        let end: usize = bytes::find_byte(rest, 0x0a);
        let line: &[u8] = trim(&rest[0..end]);
        let ghost before = lines@.map_values(|l: &[u8]| l@);
        let ghost here = if is_command_line(line@) {
            seq![line@]
        } else {
            Seq::empty()
        };
        if line.len() > 0 && line[0] != 0x23 {
            lines.push(line);
        }
        assert(lines@.map_values(|l: &[u8]| l@) =~= before + here);
        if end < rest.len() {
            assert(rest@.subrange(end + 1, rest@.len() as int) =~= manifest@.subrange(
                start + end + 1,
                n as int,
            ));
            start = start + end + 1;
        } else {
            more = false;
        }
    }
    lines
}

/// A text wrapped in quotes is one word, whatever it holds besides that quote.
pub proof fn quoted_text_is_one_word(w: Seq<char>, q: char, ops: bool)
    requires
        is_quote(q),
        forall|i: int| 0 <= i < w.len() ==> w[i] != q,
    ensures
        scan(seq![q] + w + seq![q], Mode::Plain, None, ops) == seq![Token::Word(w)],
{
    let s = seq![q] + w + seq![q];
    assert(s[0] == q);
    assert(s.subrange(1, s.len() as int) =~= w + seq![q]);
    lemma_quoted(w, Seq::empty(), q, ops);
    assert(Seq::<char>::empty() + w =~= w);
}

proof fn lemma_quoted(w: Seq<char>, had: Seq<char>, q: char, ops: bool)
    requires
        forall|i: int| 0 <= i < w.len() ==> w[i] != q,
    ensures
        scan(w + seq![q], Mode::Quoted(q), Some(had), ops) == seq![Token::Word(had + w)],
    decreases w.len(),
{
    let s = w + seq![q];
    if w.len() == 0 {
        assert(s[0] == q);
        assert(s.subrange(1, s.len() as int).len() == 0);
        assert(had + w =~= had);
        reveal_with_fuel(scan, 2);
    } else {
        let rest = w.subrange(1, w.len() as int);
        assert(s[0] == w[0]);
        assert(s.subrange(1, s.len() as int) =~= rest + seq![q]);
        lemma_quoted(rest, had.push(w[0]), q, ops);
        assert(had.push(w[0]) + rest =~= had + w);
    }
}

/// `w` with a backslash before every character.
pub open spec fn escaped(w: Seq<char>) -> Seq<char>
    decreases w.len(),
{
    if w.len() == 0 {
        Seq::empty()
    } else {
        seq!['\\', w[0]] + escaped(w.subrange(1, w.len() as int))
    }
}

/// A text whose characters are all escaped is one word, whatever it holds.
pub proof fn escaped_text_is_one_word(w: Seq<char>, ops: bool)
    requires
        w.len() > 0,
    ensures
        scan(escaped(w), Mode::Plain, None, ops) == seq![Token::Word(w)],
{
    lemma_escaped(w, None, ops);
    assert(so_far(None) + w =~= w);
}

proof fn lemma_escaped(w: Seq<char>, had: Option<Seq<char>>, ops: bool)
    ensures
        w.len() > 0 ==> scan(escaped(w), Mode::Plain, had, ops) == seq![
            Token::Word(so_far(had) + w),
        ],
        w.len() == 0 ==> scan(escaped(w), Mode::Plain, had, ops) == finish(had),
    decreases w.len(),
{
    if w.len() > 0 {
        let rest = w.subrange(1, w.len() as int);
        let s = escaped(w);
        let s1 = s.subrange(1, s.len() as int);
        assert(s[0] == '\\');
        assert(s1[0] == w[0]);
        assert(s1.subrange(1, s1.len() as int) =~= escaped(rest));
        let now = Some(so_far(had).push(w[0]));
        assert(scan(s, Mode::Plain, had, ops) == scan(s1, Mode::Escaped, had, ops));
        assert(scan(s1, Mode::Escaped, had, ops) == scan(escaped(rest), Mode::Plain, now, ops));
        lemma_escaped(rest, now, ops);
        assert(so_far(now) + rest =~= so_far(had) + w);
        if rest.len() == 0 {
            assert(so_far(had).push(w[0]) =~= so_far(had) + w);
        }
    }
}

/// Quoting or escaping a text keeps its pipes from splitting it.
pub proof fn quoted_pipes_do_not_split(w: Seq<char>, q: char)
    requires
        is_quote(q),
        forall|i: int| 0 <= i < w.len() ==> w[i] != q,
    ensures
        split(seq![q] + w + seq![q], Mode::Plain, Seq::empty()) == seq![seq![q] + w + seq![q]],
{
    let s = seq![q] + w + seq![q];
    assert(s[0] == q);
    assert(s.subrange(1, s.len() as int) =~= w + seq![q]);
    lemma_quoted_split(w, seq![q], q);
    assert(Seq::<char>::empty().push(q) =~= seq![q]);
}

proof fn lemma_quoted_split(w: Seq<char>, had: Seq<char>, q: char)
    requires
        forall|i: int| 0 <= i < w.len() ==> w[i] != q,
    ensures
        split(w + seq![q], Mode::Quoted(q), had) == seq![had + w + seq![q]],
    decreases w.len(),
{
    let s = w + seq![q];
    if w.len() == 0 {
        assert(s[0] == q);
        assert(s.subrange(1, s.len() as int).len() == 0);
        assert(had.push(q) =~= had + w + seq![q]);
        reveal_with_fuel(split, 2);
    } else {
        let rest = w.subrange(1, w.len() as int);
        assert(s[0] == w[0]);
        assert(s.subrange(1, s.len() as int) =~= rest + seq![q]);
        lemma_quoted_split(rest, had.push(w[0]), q);
        assert(had.push(w[0]) + rest + seq![q] =~= had + w + seq![q]);
    }
}

/// No character of `s` is an operator.
pub open spec fn operator_free(s: Seq<char>) -> bool {
    forall|i: int| 0 <= i < s.len() ==> s[i] != '|' && !is_redirect(#[trigger] s[i])
}

/// On a line without operators, parsing and tokenizing agree: one command, the
/// same one, and no redirects, or nothing at all.
pub proof fn parse_agrees_with_tokenize(line: Seq<char>)
    requires
        operator_free(line),
    ensures
        statement_of(line) == (match command_of(line_words(line)) {
            Some(c) => Some(StatementView { commands: seq![c], redirects: Seq::empty() }),
            None => None,
        }),
{
    lemma_unsplit(line, Mode::Plain, Seq::empty());
    assert(Seq::<char>::empty() + line =~= line);
    let segments = split(line, Mode::Plain, Seq::empty());
    assert(segments =~= seq![line]);
    lemma_same_tokens(line, Mode::Plain, None);
    lemma_words_only(line, Mode::Plain, None);
    let toks = scan(line, Mode::Plain, None, false);
    lemma_no_redirects(toks, Seq::empty());
    reveal_with_fuel(gather, 2);
    let rest = segments.subrange(1, segments.len() as int);
    assert(rest.len() == 0);
    assert(Seq::<RedirectView>::empty() + Seq::<RedirectView>::empty()
        =~= Seq::<RedirectView>::empty());
    match command_of(line_words(line)) {
        Some(c) => {
            assert(Seq::<CommandView>::empty().push(c) =~= seq![c]);
        },
        None => {},
    }
}

proof fn lemma_unsplit(s: Seq<char>, mode: Mode, piece: Seq<char>)
    requires
        operator_free(s),
    ensures
        split(s, mode, piece) == seq![piece + s],
    decreases s.len(),
{
    if s.len() == 0 {
        assert(piece + s =~= piece);
    } else {
        let rest = s.subrange(1, s.len() as int);
        assert forall|i: int| 0 <= i < rest.len() implies rest[i] != '|' && !is_redirect(
            #[trigger] rest[i],
        ) by {
            assert(rest[i] == s[i + 1]);
        }
        assert(!is_redirect(s[0]));
        assert(piece.push(s[0]) + rest =~= piece + s);
        let next = match mode {
            Mode::Escaped => Mode::Plain,
            Mode::Quoted(q) => if s[0] == q {
                Mode::Plain
            } else {
                mode
            },
            Mode::Plain => if s[0] == '\\' {
                Mode::Escaped
            } else if is_quote(s[0]) {
                Mode::Quoted(s[0])
            } else {
                Mode::Plain
            },
        };
        lemma_unsplit(rest, next, piece.push(s[0]));
    }
}

proof fn lemma_same_tokens(s: Seq<char>, mode: Mode, word: Option<Seq<char>>)
    requires
        operator_free(s),
    ensures
        scan(s, mode, word, true) == scan(s, mode, word, false),
    decreases s.len(),
{
    if s.len() > 0 {
        let c = s[0];
        let rest = s.subrange(1, s.len() as int);
        assert forall|i: int| 0 <= i < rest.len() implies rest[i] != '|' && !is_redirect(
            #[trigger] rest[i],
        ) by {
            assert(rest[i] == s[i + 1]);
        }
        assert(!is_redirect(c));
        lemma_same_tokens(rest, Mode::Plain, Some(so_far(word).push(c)));
        lemma_same_tokens(rest, Mode::Plain, word);
        lemma_same_tokens(rest, Mode::Plain, None);
        lemma_same_tokens(rest, Mode::Escaped, word);
        lemma_same_tokens(rest, Mode::Quoted(c), Some(so_far(word)));
        lemma_same_tokens(rest, mode, Some(so_far(word).push(c)));
    }
}

/// Without operators a text lexes to words alone.
proof fn lemma_words_only(s: Seq<char>, mode: Mode, word: Option<Seq<char>>)
    ensures
        forall|i: int|
            0 <= i < scan(s, mode, word, false).len() ==> (#[trigger] scan(
                s,
                mode,
                word,
                false,
            )[i]) is Word,
    decreases s.len(),
{
    if s.len() > 0 {
        let c = s[0];
        let rest = s.subrange(1, s.len() as int);
        lemma_words_only(rest, Mode::Plain, Some(so_far(word).push(c)));
        lemma_words_only(rest, Mode::Plain, word);
        lemma_words_only(rest, Mode::Plain, None);
        lemma_words_only(rest, Mode::Escaped, word);
        lemma_words_only(rest, Mode::Quoted(c), Some(so_far(word)));
        lemma_words_only(rest, mode, Some(so_far(word).push(c)));
        if mode is Plain && is_space(c) {
            let tail = scan(rest, Mode::Plain, None, false);
            let all = finish(word) + tail;
            assert forall|i: int| 0 <= i < all.len() implies (#[trigger] all[i]) is Word by {
                if i >= finish(word).len() {
                    assert(all[i] == tail[i - finish(word).len()]);
                }
            }
        }
    }
}

/// Words alone make no redirects.
proof fn lemma_no_redirects(toks: Seq<Token>, words: Seq<Seq<char>>)
    requires
        forall|i: int| 0 <= i < toks.len() ==> (#[trigger] toks[i]) is Word,
    ensures
        sort(toks, words, Seq::empty(), None).1 == Seq::<RedirectView>::empty(),
    decreases toks.len(),
{
    if toks.len() > 0 {
        let rest = toks.subrange(1, toks.len() as int);
        assert forall|i: int| 0 <= i < rest.len() implies (#[trigger] rest[i]) is Word by {
            assert(rest[i] == toks[i + 1]);
        }
        assert(toks[0] is Word);
        lemma_no_redirects(rest, words.push(toks[0]->Word_0));
    }
}

/// The operator that still waits for its word after some tokens: the last one, if it is an
/// operator.
pub open spec fn waiting_after(
    toks: Seq<Token>,
    pending: Option<(Option<u32>, bool)>,
) -> Option<(Option<u32>, bool)> {
    if toks.len() == 0 {
        pending
    } else {
        match toks.last() {
            Token::Redir { fd, output } => Some((fd, output)),
            Token::Word(_) => None,
        }
    }
}

proof fn lemma_sort_chain(
    a: Seq<Token>,
    b: Seq<Token>,
    words: Seq<Seq<char>>,
    redirects: Seq<RedirectView>,
    pending: Option<(Option<u32>, bool)>,
)
    ensures
        sort(a + b, words, redirects, pending) == sort(
            b,
            sort(a, words, redirects, pending).0,
            sort(a, words, redirects, pending).1,
            waiting_after(a, pending),
        ),
    decreases a.len(),
{
    if a.len() == 0 {
        assert(a + b =~= b);
    } else {
        let rest = a.subrange(1, a.len() as int);
        assert((a + b)[0] == a[0]);
        assert((a + b).subrange(1, (a + b).len() as int) =~= rest + b);
        match a[0] {
            Token::Redir { fd, output } => {
                lemma_sort_chain(rest, b, words, redirects, Some((fd, output)));
            },
            Token::Word(w) => match pending {
                Some((fd, output)) => {
                    lemma_sort_chain(
                        rest,
                        b,
                        words,
                        redirects.push(redirect_of(fd, output, w)),
                        None,
                    );
                },
                None => {
                    lemma_sort_chain(rest, b, words.push(w), redirects, None);
                },
            },
        }
    }
}

proof fn lemma_sort_shift(
    toks: Seq<Token>,
    words: Seq<Seq<char>>,
    redirects: Seq<RedirectView>,
    pending: Option<(Option<u32>, bool)>,
)
    ensures
        sort(toks, words, redirects, pending).0 == words + sort(
            toks,
            Seq::empty(),
            Seq::empty(),
            pending,
        ).0,
        sort(toks, words, redirects, pending).1 == redirects + sort(
            toks,
            Seq::empty(),
            Seq::empty(),
            pending,
        ).1,
    decreases toks.len(),
{
    let no_words = Seq::<Seq<char>>::empty();
    let no_redirects = Seq::<RedirectView>::empty();
    if toks.len() == 0 {
        assert(words + no_words =~= words);
        assert(redirects + no_redirects =~= redirects);
    } else {
        let rest = toks.subrange(1, toks.len() as int);
        match toks[0] {
            Token::Redir { fd, output } => {
                lemma_sort_shift(rest, words, redirects, Some((fd, output)));
            },
            Token::Word(w) => match pending {
                Some((fd, output)) => {
                    let r = redirect_of(fd, output, w);
                    lemma_sort_shift(rest, words, redirects.push(r), None);
                    lemma_sort_shift(rest, no_words, no_redirects.push(r), None);
                    let after = sort(rest, no_words, no_redirects, None);
                    assert(no_words + after.0 =~= after.0);
                    assert(redirects.push(r) + after.1 =~= redirects + (no_redirects.push(r)
                        + after.1));
                },
                None => {
                    lemma_sort_shift(rest, words.push(w), redirects, None);
                    lemma_sort_shift(rest, no_words.push(w), no_redirects, None);
                    let after = sort(rest, no_words, no_redirects, None);
                    assert(no_redirects + after.1 =~= after.1);
                    assert(words.push(w) + after.0 =~= words + (no_words.push(w) + after.0));
                },
            },
        }
    }
}

/// Stretches of tokens add up: where the first ends with no operator waiting, the words of both
/// are the words of the first and then those of the second, and so are the redirects.
pub proof fn stretches_add_up(a: Seq<Token>, b: Seq<Token>)
    requires
        a.len() == 0 || a.last() is Word,
    ensures
        ({
            let whole = sort(a + b, Seq::empty(), Seq::empty(), None);
            let first = sort(a, Seq::empty(), Seq::empty(), None);
            let second = sort(b, Seq::empty(), Seq::empty(), None);
            &&& whole.0 == first.0 + second.0
            &&& whole.1 == first.1 + second.1
        }),
{
    lemma_sort_chain(a, b, Seq::empty(), Seq::empty(), None);
    let first = sort(a, Seq::empty(), Seq::empty(), None);
    lemma_sort_shift(b, first.0, first.1, None);
}

/// A word alone is a command word. An operator and the word behind it are one redirect: `n>` goes
/// from descriptor `n`, or 1, to what the word names, and `n<` from what the word names to
/// descriptor `n`, or 0. Of several operators in a row the last counts, and one without a word
/// behind it is nothing.
pub proof fn operators_take_the_next_word(
    fd: Option<u32>,
    output: bool,
    w: Seq<char>,
    lost: Token,
)
    requires
        lost is Redir,
    ensures
        ({
            let op = Token::Redir { fd, output };
            let redirect = if output {
                RedirectView {
                    source: TargetView::Fd(
                        if fd is Some {
                            fd->0
                        } else {
                            1
                        },
                    ),
                    dest: target_of(w),
                }
            } else {
                RedirectView {
                    source: target_of(w),
                    dest: TargetView::Fd(
                        if fd is Some {
                            fd->0
                        } else {
                            0
                        },
                    ),
                }
            };
            &&& sort(seq![Token::Word(w)], Seq::empty(), Seq::empty(), None) == (
                seq![w],
                Seq::<RedirectView>::empty(),
            )
            &&& sort(seq![op, Token::Word(w)], Seq::empty(), Seq::empty(), None) == (
                Seq::<Seq<char>>::empty(),
                seq![redirect],
            )
            &&& sort(seq![lost, op, Token::Word(w)], Seq::empty(), Seq::empty(), None) == (
                Seq::<Seq<char>>::empty(),
                seq![redirect],
            )
            &&& sort(seq![lost], Seq::empty(), Seq::empty(), None) == (
                Seq::<Seq<char>>::empty(),
                Seq::<RedirectView>::empty(),
            )
            &&& sort(Seq::empty(), Seq::empty(), Seq::empty(), None) == (
                Seq::<Seq<char>>::empty(),
                Seq::<RedirectView>::empty(),
            )
        }),
{
    reveal_with_fuel(sort, 4);
    let op = Token::Redir { fd, output };
    let word = Token::Word(w);
    let one = seq![word];
    let two = seq![op, word];
    let three = seq![lost, op, word];
    let alone = seq![lost];
    assert(one.subrange(1, 1) =~= Seq::empty());
    assert(two.subrange(1, 2) =~= one);
    assert(three.subrange(1, 3) =~= two);
    assert(alone.subrange(1, 1) =~= Seq::empty());
    assert(Seq::<Seq<char>>::empty().push(w) =~= seq![w]);
    assert(Seq::<RedirectView>::empty().push(redirect_of(fd, output, w)) =~= seq![
        redirect_of(fd, output, w),
    ]);
}

/// A redirect goes to a descriptor just where its word is an ampersand and then a number that a
/// descriptor can hold; any other word is a path, unchanged.
pub proof fn targets_are_descriptors_or_paths(w: Seq<char>)
    ensures
        ({
            let digits = w.subrange(1, w.len() as int);
            let numeric = w.len() > 1 && w[0] == '&' && forall|i: int|
                1 <= i < w.len() ==> '0' <= #[trigger] w[i] && w[i] <= '9';
            &&& numeric && decimal(digits) <= 0xffff_ffff ==> target_of(w) == TargetView::Fd(
                decimal(digits) as u32,
            )
            &&& !numeric || decimal(digits) > 0xffff_ffff ==> target_of(w) == TargetView::Path(w)
        }),
{
    if w.len() > 0 && w[0] == '&' {
        let digits = w.subrange(1, w.len() as int);
        assert forall|i: int| 1 <= i < w.len() implies #[trigger] w[i] == digits[i - 1] by {}
        if forall|i: int| 1 <= i < w.len() ==> '0' <= #[trigger] w[i] && w[i] <= '9' {
            assert forall|i: int| 0 <= i < digits.len() implies is_digit(#[trigger] digits[i]) by {
                assert(w[i + 1] == digits[i]);
            }
        } else {
            let i = choose|i: int| 1 <= i < w.len() && !('0' <= #[trigger] w[i] && w[i] <= '9');
            assert(!is_digit(digits[i - 1]));
        }
    }
}

/// Numbers are decimal: another digit makes ten times as much, and the digit on top.
pub proof fn numbers_are_decimal(w: Seq<char>, d: char)
    requires
        '0' <= d,
        d <= '9',
    ensures
        decimal(Seq::empty()) == 0,
        decimal(w.push(d)) == 10 * decimal(w) + (d as int - 48),
{
    assert(w.push(d).drop_last() =~= w);
}

/// A character that ends no word and opens nothing.
pub open spec fn is_ordinary(c: char, ops: bool) -> bool {
    &&& c != ' ' && c != '\t' && c != '\n' && c != '\x0c' && c != '\r'
    &&& c != '"' && c != '\'' && c != '\\'
    &&& ops ==> c != '<' && c != '>'
}

/// The word that was begun, with more characters behind it.
pub open spec fn longer(word: Option<Seq<char>>, more: Seq<char>) -> Option<Seq<char>> {
    match word {
        Some(w) => Some(w + more),
        None => Some(more),
    }
}

proof fn lemma_scan_head(c: char, rest: Seq<char>)
    ensures
        (seq![c] + rest).len() == rest.len() + 1,
        (seq![c] + rest)[0] == c,
        (seq![c] + rest).subrange(1, rest.len() as int + 1) == rest,
{
    assert((seq![c] + rest).subrange(1, rest.len() as int + 1) =~= rest);
}

proof fn lemma_longer(word: Option<Seq<char>>, c: char, more: Seq<char>)
    ensures
        Some(so_far(word).push(c)) == longer(word, seq![c]),
        longer(longer(word, seq![c]), more) == longer(word, seq![c] + more),
{
    assert(so_far(word).push(c) =~= longer(word, seq![c])->0);
    assert(longer(longer(word, seq![c]), more)->0 =~= longer(word, seq![c] + more)->0);
}

/// Ordinary characters make up the word that they stand in.
pub proof fn ordinary_characters_make_words(
    w: Seq<char>,
    rest: Seq<char>,
    word: Option<Seq<char>>,
    ops: bool,
)
    requires
        w.len() > 0,
        forall|i: int| 0 <= i < w.len() ==> is_ordinary(#[trigger] w[i], ops),
    ensures
        scan(w + rest, Mode::Plain, word, ops) == scan(rest, Mode::Plain, longer(word, w), ops),
    decreases w.len(),
{
    let c = w[0];
    let tail = w.subrange(1, w.len() as int);
    assert(w =~= seq![c] + tail);
    assert(w + rest =~= seq![c] + (tail + rest));
    lemma_scan_head(c, tail + rest);
    lemma_longer(word, c, tail);
    assert(is_ordinary(w[0], ops));
    if tail.len() > 0 {
        assert forall|i: int| 0 <= i < tail.len() implies is_ordinary(#[trigger] tail[i], ops) by {
            assert(tail[i] == w[i + 1]);
        }
        ordinary_characters_make_words(tail, rest, longer(word, seq![c]), ops);
    } else {
        assert(tail + rest =~= rest);
        assert(w =~= seq![c]);
    }
}

/// Blanks end the word that they stand behind, and are nothing by themselves. So does the end of
/// the text.
pub proof fn blanks_end_words(c: char, rest: Seq<char>, w: Seq<char>, ops: bool)
    requires
        c == ' ' || c == '\t' || c == '\n' || c == '\x0c' || c == '\r',
    ensures
        scan(seq![c] + rest, Mode::Plain, Some(w), ops) == seq![Token::Word(w)] + scan(
            rest,
            Mode::Plain,
            None,
            ops,
        ),
        scan(seq![c] + rest, Mode::Plain, None, ops) == scan(rest, Mode::Plain, None, ops),
        scan(Seq::empty(), Mode::Plain, Some(w), ops) == seq![Token::Word(w)],
        scan(Seq::empty(), Mode::Plain, None, ops) == Seq::<Token>::empty(),
{
    lemma_scan_head(c, rest);
    assert(Seq::<Token>::empty() + scan(rest, Mode::Plain, None, ops) =~= scan(
        rest,
        Mode::Plain,
        None,
        ops,
    ));
}

/// What stands between two equal quotes, single or double, belongs to the word that they stand
/// in, whatever it is; so does what stands behind a quote that is never closed. A pair of quotes
/// around nothing still makes a word.
pub proof fn quotes_keep_what_they_hold(
    q: char,
    body: Seq<char>,
    rest: Seq<char>,
    word: Option<Seq<char>>,
    ops: bool,
)
    requires
        q == '"' || q == '\'',
        forall|i: int| 0 <= i < body.len() ==> #[trigger] body[i] != q,
    ensures
        scan(seq![q] + body + seq![q] + rest, Mode::Plain, word, ops) == scan(
            rest,
            Mode::Plain,
            longer(word, body),
            ops,
        ),
        scan(seq![q] + body, Mode::Plain, word, ops) == seq![Token::Word(longer(word, body)->0)],
{
    let none = Seq::<char>::empty();
    assert(seq![q] + body + seq![q] + rest =~= seq![q] + (body + seq![q] + rest));
    lemma_scan_head(q, body + seq![q] + rest);
    lemma_scan_head(q, body);
    lemma_quoted_body(q, body, rest, so_far(word), ops);
    assert(so_far(word) + body =~= longer(word, body)->0);
}

proof fn lemma_quoted_body(q: char, body: Seq<char>, rest: Seq<char>, had: Seq<char>, ops: bool)
    requires
        forall|i: int| 0 <= i < body.len() ==> #[trigger] body[i] != q,
    ensures
        scan(body + seq![q] + rest, Mode::Quoted(q), Some(had), ops) == scan(
            rest,
            Mode::Plain,
            Some(had + body),
            ops,
        ),
        scan(body, Mode::Quoted(q), Some(had), ops) == seq![Token::Word(had + body)],
    decreases body.len(),
{
    if body.len() == 0 {
        assert(body + seq![q] + rest =~= seq![q] + rest);
        lemma_scan_head(q, rest);
        assert(had + body =~= had);
    } else {
        let c = body[0];
        let tail = body.subrange(1, body.len() as int);
        assert(body =~= seq![c] + tail);
        assert(body + seq![q] + rest =~= seq![c] + (tail + seq![q] + rest));
        lemma_scan_head(c, tail + seq![q] + rest);
        lemma_scan_head(c, tail);
        assert forall|i: int| 0 <= i < tail.len() implies #[trigger] tail[i] != q by {
            assert(tail[i] == body[i + 1]);
        }
        lemma_quoted_body(q, tail, rest, had.push(c), ops);
        assert(had.push(c) + tail =~= had + body);
    }
}

/// The character behind a backslash belongs to the word that it stands in, whatever it is. A
/// backslash at the end of the text is nothing.
pub proof fn backslashes_keep_one_character(
    c: char,
    rest: Seq<char>,
    word: Option<Seq<char>>,
    ops: bool,
)
    ensures
        scan(seq!['\\', c] + rest, Mode::Plain, word, ops) == scan(
            rest,
            Mode::Plain,
            longer(word, seq![c]),
            ops,
        ),
        scan(seq!['\\'], Mode::Plain, word, ops) == (match word {
            Some(w) => seq![Token::Word(w)],
            None => Seq::empty(),
        }),
{
    reveal_with_fuel(scan, 3);
    assert(seq!['\\', c] + rest =~= seq!['\\'] + (seq![c] + rest));
    lemma_scan_head('\\', seq![c] + rest);
    lemma_scan_head(c, rest);
    lemma_longer(word, c, Seq::empty());
    assert(seq!['\\'].subrange(1, 1) =~= Seq::empty());
}

/// An angle bracket is an operator, `>` for output and `<` for input. Digits that touch it from
/// the left are its descriptor, as far as one can hold their value; any other word that touches it
/// stands before it.
pub proof fn brackets_are_operators(bracket: char, rest: Seq<char>, w: Seq<char>)
    requires
        bracket == '<' || bracket == '>',
    ensures
        ({
            let output = bracket == '>';
            let more = scan(rest, Mode::Plain, None, true);
            let numeric = w.len() > 0 && forall|i: int|
                0 <= i < w.len() ==> '0' <= #[trigger] w[i] && w[i] <= '9';
            &&& scan(seq![bracket] + rest, Mode::Plain, None, true) == seq![
                Token::Redir { fd: None, output },
            ] + more
            &&& !numeric ==> scan(seq![bracket] + rest, Mode::Plain, Some(w), true) == seq![
                Token::Word(w),
                Token::Redir { fd: None, output },
            ] + more
            &&& numeric && decimal(w) <= 0xffff_ffff ==> scan(
                seq![bracket] + rest,
                Mode::Plain,
                Some(w),
                true,
            ) == seq![Token::Redir { fd: Some(decimal(w) as u32), output }] + more
            &&& numeric && decimal(w) > 0xffff_ffff ==> scan(
                seq![bracket] + rest,
                Mode::Plain,
                Some(w),
                true,
            ) == seq![Token::Redir { fd: None, output }] + more
        }),
{
    lemma_scan_head(bracket, rest);
    let numeric = w.len() > 0 && forall|i: int|
        0 <= i < w.len() ==> '0' <= #[trigger] w[i] && w[i] <= '9';
    if numeric {
        assert forall|i: int| 0 <= i < w.len() implies is_digit(#[trigger] w[i]) by {}
        assert(is_number(w));
    } else if w.len() > 0 {
        let i = choose|i: int| 0 <= i < w.len() && !('0' <= #[trigger] w[i] && w[i] <= '9');
        assert(!is_digit(w[i]));
    }
}

/// A pipe ends a stage and begins the next one. Any other plain character belongs to its stage,
/// and the end of the text ends the last one.
pub proof fn pipes_end_stages(c: char, rest: Seq<char>, piece: Seq<char>)
    requires
        c != '|' && c != '\\' && c != '"' && c != '\'',
    ensures
        split(seq!['|'] + rest, Mode::Plain, piece) == seq![piece] + split(
            rest,
            Mode::Plain,
            Seq::empty(),
        ),
        split(seq![c] + rest, Mode::Plain, piece) == split(rest, Mode::Plain, piece.push(c)),
        split(Seq::empty(), Mode::Plain, piece) == seq![piece],
{
    lemma_scan_head('|', rest);
    lemma_scan_head(c, rest);
}

/// A pipe that is escaped or stands in quotes does not end a stage; the stage keeps the quotes and
/// the backslash.
pub proof fn kept_pipes_stay_in_their_stage(
    q: char,
    body: Seq<char>,
    c: char,
    rest: Seq<char>,
    piece: Seq<char>,
)
    requires
        q == '"' || q == '\'',
        forall|i: int| 0 <= i < body.len() ==> #[trigger] body[i] != q,
    ensures
        split(seq!['\\', c] + rest, Mode::Plain, piece) == split(
            rest,
            Mode::Plain,
            piece + seq!['\\', c],
        ),
        split(seq![q] + body + seq![q] + rest, Mode::Plain, piece) == split(
            rest,
            Mode::Plain,
            piece + seq![q] + body + seq![q],
        ),
        split(seq![q] + body, Mode::Plain, piece) == seq![piece + seq![q] + body],
{
    reveal_with_fuel(split, 3);
    assert(seq!['\\', c] + rest =~= seq!['\\'] + (seq![c] + rest));
    lemma_scan_head('\\', seq![c] + rest);
    lemma_scan_head(c, rest);
    assert(piece.push('\\').push(c) =~= piece + seq!['\\', c]);
    assert(seq![q] + body + seq![q] + rest =~= seq![q] + (body + seq![q] + rest));
    lemma_scan_head(q, body + seq![q] + rest);
    lemma_scan_head(q, body);
    lemma_quoted_piece(q, body, rest, piece.push(q));
    assert(piece.push(q) =~= piece + seq![q]);
}

proof fn lemma_quoted_piece(q: char, body: Seq<char>, rest: Seq<char>, had: Seq<char>)
    requires
        forall|i: int| 0 <= i < body.len() ==> #[trigger] body[i] != q,
    ensures
        split(body + seq![q] + rest, Mode::Quoted(q), had) == split(
            rest,
            Mode::Plain,
            had + body + seq![q],
        ),
        split(body, Mode::Quoted(q), had) == seq![had + body],
    decreases body.len(),
{
    if body.len() == 0 {
        assert(body + seq![q] + rest =~= seq![q] + rest);
        lemma_scan_head(q, rest);
        assert(had.push(q) =~= had + body + seq![q]);
        assert(had + body =~= had);
    } else {
        let c = body[0];
        let tail = body.subrange(1, body.len() as int);
        assert(body =~= seq![c] + tail);
        assert(body + seq![q] + rest =~= seq![c] + (tail + seq![q] + rest));
        lemma_scan_head(c, tail + seq![q] + rest);
        lemma_scan_head(c, tail);
        assert forall|i: int| 0 <= i < tail.len() implies #[trigger] tail[i] != q by {
            assert(tail[i] == body[i + 1]);
        }
        lemma_quoted_piece(q, tail, rest, had.push(c));
        assert(had.push(c) + tail + seq![q] =~= had + body + seq![q]);
        assert(had.push(c) + tail =~= had + body);
    }
}

proof fn lemma_gather_shift(
    segments: Seq<Seq<char>>,
    commands: Seq<CommandView>,
    redirects: Seq<RedirectView>,
)
    ensures
        gather(segments, commands, redirects).0 == commands + gather(
            segments,
            Seq::empty(),
            Seq::empty(),
        ).0,
        gather(segments, commands, redirects).1 == redirects + gather(
            segments,
            Seq::empty(),
            Seq::empty(),
        ).1,
    decreases segments.len(),
{
    let no_commands = Seq::<CommandView>::empty();
    let no_redirects = Seq::<RedirectView>::empty();
    if segments.len() == 0 {
        assert(commands + no_commands =~= commands);
        assert(redirects + no_redirects =~= redirects);
    } else {
        let rest = segments.subrange(1, segments.len() as int);
        match segment_of(segments[0]) {
            None => {
                lemma_gather_shift(rest, commands, redirects);
            },
            Some((c, r)) => {
                lemma_gather_shift(rest, commands.push(c), redirects + r);
                lemma_gather_shift(rest, no_commands.push(c), no_redirects + r);
                let after = gather(rest, no_commands, no_redirects);
                assert(commands.push(c) + after.0 =~= commands + (no_commands.push(c) + after.0));
                assert(redirects + r + after.1 =~= redirects + (no_redirects + r + after.1));
            },
        }
    }
}

/// The stages of a pipeline add up: each brings its own command and its own redirects, behind
/// those of the stages before it. A stage without a word brings nothing.
pub proof fn stages_add_up(stage: Seq<char>, later: Seq<Seq<char>>)
    ensures
        ({
            let toks = scan(stage, Mode::Plain, None, true);
            let (words, redirects) = sort(toks, Seq::empty(), Seq::empty(), None);
            let whole = gather(seq![stage] + later, Seq::empty(), Seq::empty());
            let rest = gather(later, Seq::empty(), Seq::empty());
            &&& words.len() == 0 ==> whole == rest
            &&& words.len() > 0 ==> {
                &&& whole.0 == seq![
                    CommandView {
                        name: words[0],
                        args: words.subrange(1, words.len() as int),
                    },
                ] + rest.0
                &&& whole.1 == redirects + rest.1
            }
            &&& gather(Seq::empty(), Seq::empty(), Seq::empty()) == (
                Seq::<CommandView>::empty(),
                Seq::<RedirectView>::empty(),
            )
        }),
{
    let toks = scan(stage, Mode::Plain, None, true);
    let (words, redirects) = sort(toks, Seq::empty(), Seq::empty(), None);
    let all = seq![stage] + later;
    assert(all[0] == stage);
    assert(all.subrange(1, all.len() as int) =~= later);
    if words.len() > 0 {
        let c = CommandView { name: words[0], args: words.subrange(1, words.len() as int) };
        assert(segment_of(stage) == Some((c, redirects)));
        let none = Seq::<RedirectView>::empty();
        assert(none + redirects =~= redirects);
        lemma_gather_shift(later, Seq::<CommandView>::empty().push(c), none + redirects);
        assert(Seq::<CommandView>::empty().push(c) =~= seq![c]);
    }
}

/// A line is a statement just where one of its stages has a word; the statement is what its
/// stages bring together.
pub proof fn statements_are_their_stages(line: Seq<char>)
    ensures
        ({
            let brought = gather(
                split(line, Mode::Plain, Seq::empty()),
                Seq::empty(),
                Seq::empty(),
            );
            &&& brought.0.len() == 0 ==> statement_of(line) is None
            &&& brought.0.len() > 0 ==> statement_of(line) == Some(
                StatementView { commands: brought.0, redirects: brought.1 },
            )
        }),
{
}

/// Tokenizing a line makes its first word the name and the others the arguments, in order, and
/// knows no operators.
pub proof fn tokenizing_takes_every_word(line: Seq<char>, i: int)
    ensures
        ({
            let toks = scan(line, Mode::Plain, None, false);
            let words = line_words(line);
            &&& words.len() == toks.len()
            &&& 0 <= i < toks.len() ==> toks[i] == Token::Word(words[i])
            &&& words.len() == 0 ==> command_of(words) is None
            &&& words.len() > 0 ==> {
                &&& command_of(words) is Some
                &&& command_of(words)->0.name == words[0]
                &&& command_of(words)->0.args.len() == words.len() - 1
                &&& 0 < i < words.len() ==> command_of(words)->0.args[i - 1] == words[i]
            }
        }),
{
    let toks = scan(line, Mode::Plain, None, false);
    lemma_words_only(line, Mode::Plain, None);
    lemma_sort_words(toks, i);
}

proof fn lemma_sort_words(toks: Seq<Token>, i: int)
    requires
        forall|j: int| 0 <= j < toks.len() ==> (#[trigger] toks[j]) is Word,
    ensures
        sort(toks, Seq::empty(), Seq::empty(), None).0.len() == toks.len(),
        0 <= i < toks.len() ==> toks[i] == Token::Word(
            sort(toks, Seq::empty(), Seq::empty(), None).0[i],
        ),
    decreases toks.len(),
{
    if toks.len() > 0 {
        let rest = toks.subrange(1, toks.len() as int);
        assert forall|j: int| 0 <= j < rest.len() implies (#[trigger] rest[j]) is Word by {
            assert(rest[j] == toks[j + 1]);
        }
        assert(toks[0] is Word);
        let w = toks[0]->Word_0;
        lemma_sort_words(rest, i - 1);
        lemma_sort_shift(rest, Seq::<Seq<char>>::empty().push(w), Seq::empty(), None);
    }
}

/// `echo` prints its arguments with one space between two of them, and then a newline, which a
/// first argument `-n` leaves out together with itself.
pub proof fn echo_puts_spaces_between(args: Seq<Seq<char>>, last: Seq<char>)
    ensures
        joined(Seq::empty()) == Seq::<u8>::empty(),
        args.len() == 0 ==> joined(args.push(last)) == encode_utf8(last),
        args.len() > 0 ==> joined(args.push(last)) == joined(args) + seq![0x20u8] + encode_utf8(
            last,
        ),
        args.len() == 0 || args[0] != "-n"@ ==> builtin_output(
            CommandView { name: "echo"@, args },
        ) == Some(joined(args).push(0x0a)),
        args.len() > 0 && args[0] == "-n"@ ==> builtin_output(CommandView { name: "echo"@, args })
            == Some(joined(args.subrange(1, args.len() as int))),
{
    assert(args.push(last).drop_last() =~= args);
    assert(joined(args).push(0x0a) =~= joined(args) + seq![0x0au8]);
}

/// `true` and `false` print nothing, `help` prints the help text, and a command that is none of
/// the four is not answered here.
pub proof fn other_builtins_print_nothing(c: CommandView)
    ensures
        c.name == "true"@ || c.name == "false"@ ==> builtin_output(c) == Some(Seq::<u8>::empty()),
        c.name == "help"@ ==> builtin_output(c) == Some(encode_utf8(HELP_TEXT@)),
        c.name != "echo"@ && c.name != "help"@ && c.name != "true"@ && c.name != "false"@
            ==> builtin_output(c) is None,
{
    reveal_strlit("echo");
    reveal_strlit("help");
    reveal_strlit("true");
    reveal_strlit("false");
    assert("echo"@[0] == 'e');
    assert("help"@[0] == 'h');
    assert("true"@[0] == 't');
    assert("false"@[0] == 'f');
}

/// The blanks around a line are taken off, and nothing else is.
proof fn lemma_trim(front: Seq<u8>, w: Seq<u8>, back: Seq<u8>)
    requires
        forall|i: int| 0 <= i < front.len() ==> is_space_byte(#[trigger] front[i]),
        forall|i: int| 0 <= i < back.len() ==> is_space_byte(#[trigger] back[i]),
        w.len() > 0 ==> !is_space_byte(w[0]) && !is_space_byte(w.last()),
    ensures
        trim_end(trim_start(front + w + back)) == w,
    decreases front.len() + back.len(),
{
    let s = front + w + back;
    if front.len() > 0 {
        let tail = front.subrange(1, front.len() as int);
        assert(is_space_byte(front[0]));
        assert(s.subrange(1, s.len() as int) =~= tail + w + back);
        assert forall|i: int| 0 <= i < tail.len() implies is_space_byte(#[trigger] tail[i]) by {
            assert(tail[i] == front[i + 1]);
        }
        lemma_trim(tail, w, back);
    } else if w.len() > 0 {
        assert(s =~= w + back);
        assert(s[0] == w[0]);
        lemma_trim_back(w, back);
    } else {
        assert(s =~= back);
        lemma_trim_blank(back);
    }
}

proof fn lemma_trim_back(w: Seq<u8>, back: Seq<u8>)
    requires
        w.len() > 0,
        !is_space_byte(w.last()),
        forall|i: int| 0 <= i < back.len() ==> is_space_byte(#[trigger] back[i]),
    ensures
        trim_end(w + back) == w,
    decreases back.len(),
{
    if back.len() == 0 {
        assert(w + back =~= w);
    } else {
        let fewer = back.drop_last();
        assert(is_space_byte(back[back.len() - 1]));
        assert((w + back).drop_last() =~= w + fewer);
        assert forall|i: int| 0 <= i < fewer.len() implies is_space_byte(#[trigger] fewer[i]) by {
            assert(fewer[i] == back[i]);
        }
        lemma_trim_back(w, fewer);
    }
}

proof fn lemma_trim_blank(s: Seq<u8>)
    requires
        forall|i: int| 0 <= i < s.len() ==> is_space_byte(#[trigger] s[i]),
    ensures
        trim_start(s) == Seq::<u8>::empty(),
    decreases s.len(),
{
    if s.len() > 0 {
        let rest = s.subrange(1, s.len() as int);
        assert(is_space_byte(s[0]));
        assert forall|i: int| 0 <= i < rest.len() implies is_space_byte(#[trigger] rest[i]) by {
            assert(rest[i] == s[i + 1]);
        }
        lemma_trim_blank(rest);
    } else {
        assert(s =~= Seq::empty());
    }
}

/// A byte that a line is trimmed of.
pub open spec fn is_blank(b: u8) -> bool {
    b == 0x20 || b == 0x09 || b == 0x0c || b == 0x0d
}

/// A line of a manifest that does not begin with `#` is a command, without the blanks around it,
/// and comes before the commands of the lines behind it. A blank line and a comment are none.
pub proof fn manifests_hold_one_command_per_line(
    front: Seq<u8>,
    w: Seq<u8>,
    back: Seq<u8>,
    rest: Seq<u8>,
)
    requires
        forall|i: int| 0 <= i < front.len() ==> is_blank(#[trigger] front[i]),
        forall|i: int| 0 <= i < back.len() ==> is_blank(#[trigger] back[i]),
        forall|i: int| 0 <= i < w.len() ==> #[trigger] w[i] != 0x0a,
        w.len() > 0 ==> !is_blank(w[0]) && !is_blank(w.last()),
    ensures
        ({
            let line = front + w + back;
            let here = if w.len() > 0 && w[0] != 0x23 {
                seq![w]
            } else {
                Seq::empty()
            };
            &&& manifest_lines(line) == here
            &&& manifest_lines(line + seq![0x0au8] + rest) == here + manifest_lines(rest)
        }),
{
    let line = front + w + back;
    assert forall|i: int| 0 <= i < front.len() implies is_space_byte(#[trigger] front[i]) by {
        assert(is_blank(front[i]));
    }
    assert forall|i: int| 0 <= i < back.len() implies is_space_byte(#[trigger] back[i]) by {
        assert(is_blank(back[i]));
    }
    assert forall|i: int| 0 <= i < line.len() implies line[i] != 0x0a by {
        if i < front.len() {
            assert(is_blank(front[i]));
        } else if i < front.len() + w.len() {
            assert(w[i - front.len()] != 0x0a);
        } else {
            assert(is_blank(back[i - front.len() - w.len()]));
        }
    }
    if w.len() > 0 {
        assert(w[0] != 0x0a);
        assert(w[w.len() - 1] != 0x0a);
    }
    lemma_trim(front, w, back);
    bytes::lemma_first_index(line, 0x0a, line.len() as int);
    assert(line.subrange(0, line.len() as int) =~= line);
    let more = line + seq![0x0au8] + rest;
    assert forall|i: int| 0 <= i < line.len() implies more[i] != 0x0a by {
        assert(more[i] == line[i]);
    }
    bytes::lemma_first_index(more, 0x0a, line.len() as int);
    assert(more.subrange(0, line.len() as int) =~= line);
    assert(more.subrange(line.len() as int + 1, more.len() as int) =~= rest);
}

} // verus!

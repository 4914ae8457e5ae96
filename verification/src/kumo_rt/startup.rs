//! The start-up message: a process drains its bootstrap channel and sorts the handles that come
//! with the one-byte tags.

use vstd::prelude::*;

use crate::abi::{handle_of, to_handle, Handle};

verus! {

/// The tag `i`.
pub const STARTUP_TAG_STDIN: u8 = 0x69;

/// The tag `o`.
pub const STARTUP_TAG_STDOUT: u8 = 0x6f;

/// The tag `e`.
pub const STARTUP_TAG_STDERR: u8 = 0x65;

/// The tag `a`.
pub const STARTUP_TAG_ARGV: u8 = 0x61;

/// The tag `c`.
pub const STARTUP_TAG_CAP0: u8 = 0x63;

/// The handles that a process was started with.
#[derive(Clone, Copy, Debug, PartialEq, Eq)]
pub struct Startup {
    pub stdin: Option<Handle>,
    pub stdout: Option<Handle>,
    pub stderr: Option<Handle>,
    pub argv: Option<Handle>,
    pub cap0: Option<Handle>,
}

impl Default for Startup {
    fn default() -> (s: Self)
        ensures
            s == Startup::nothing(),
    {
        Startup { stdin: None, stdout: None, stderr: None, argv: None, cap0: None }
    }
}

impl Startup {
    /// No handle at all.
    pub open spec fn nothing() -> Startup {
        Startup { stdin: None, stdout: None, stderr: None, argv: None, cap0: None }
    }

    /// The handle under a tag.
    pub open spec fn slot(self, tag: u8) -> Option<Handle> {
        if tag == STARTUP_TAG_STDIN {
            self.stdin
        } else if tag == STARTUP_TAG_STDOUT {
            self.stdout
        } else if tag == STARTUP_TAG_STDERR {
            self.stderr
        } else if tag == STARTUP_TAG_ARGV {
            self.argv
        } else if tag == STARTUP_TAG_CAP0 {
            self.cap0
        } else {
            None
        }
    }

    /// Whether a tag names a slot.
    pub open spec fn is_known(tag: u8) -> bool {
        tag == STARTUP_TAG_STDIN || tag == STARTUP_TAG_STDOUT || tag == STARTUP_TAG_STDERR || tag
            == STARTUP_TAG_ARGV || tag == STARTUP_TAG_CAP0
    }

    /// The handles after `handle` came with `tag`.
    pub open spec fn installed(self, tag: u8, handle: Handle) -> Startup {
        if tag == STARTUP_TAG_STDIN {
            Startup { stdin: Some(handle), ..self }
        } else if tag == STARTUP_TAG_STDOUT {
            Startup { stdout: Some(handle), ..self }
        } else if tag == STARTUP_TAG_STDERR {
            Startup { stderr: Some(handle), ..self }
        } else if tag == STARTUP_TAG_ARGV {
            Startup { argv: Some(handle), ..self }
        } else if tag == STARTUP_TAG_CAP0 {
            Startup { cap0: Some(handle), ..self }
        } else {
            self
        }
    }

    /// The handle that is no longer needed after `handle` came with `tag`: the one it replaces,
    /// or itself where the tag is unknown.
    pub open spec fn displaced(self, tag: u8, handle: Handle) -> Option<Handle> {
        if Startup::is_known(tag) {
            self.slot(tag)
        } else {
            Some(handle)
        }
    }

    /// Keeps `handle` under its tag and returns the handle to close, if there is one.
    pub fn install(&mut self, tag: u8, handle: Handle) -> (unused: Option<Handle>)
        ensures
            *final(self) == old(self).installed(tag, handle),
            unused == old(self).displaced(tag, handle),
    {
        let before: Option<Handle>;
        if tag == STARTUP_TAG_STDIN {
            before = self.stdin;
            self.stdin = Some(handle);
        } else if tag == STARTUP_TAG_STDOUT {
            before = self.stdout;
            self.stdout = Some(handle);
        } else if tag == STARTUP_TAG_STDERR {
            before = self.stderr;
            self.stderr = Some(handle);
        } else if tag == STARTUP_TAG_ARGV {
            before = self.argv;
            self.argv = Some(handle);
        } else if tag == STARTUP_TAG_CAP0 {
            before = self.cap0;
            self.cap0 = Some(handle);
        } else {
            before = Some(handle);
        }
        before
    }

    /// What one read of the bootstrap channel leads to. A read of nothing ends the message, and
    /// a tag without a handle is skipped.
    pub open spec fn after_read(self, n: usize, tag: u8, raw_handle: u64) -> (Startup, StartupStep) {
        if n == 0 {
            (self, StartupStep::Done)
        } else if raw_handle == 0 {
            (self, StartupStep::Next)
        } else {
            let handle = handle_of(raw_handle);
            (
                self.installed(tag, handle),
                match self.displaced(tag, handle) {
                    None => StartupStep::Next,
                    Some(unused) => StartupStep::Close { unused },
                },
            )
        }
    }

    /// Takes in one read of the bootstrap channel.
    pub fn on_read(&mut self, n: usize, tag: u8, raw_handle: u64) -> (step: StartupStep)
        ensures
            (*final(self), step) == old(self).after_read(n, tag, raw_handle),
    {
        if n == 0 {
            return StartupStep::Done;
        }
        if raw_handle == 0 {
            return StartupStep::Next;
        }
        match self.install(tag, to_handle(raw_handle)) {
            None => StartupStep::Next,
            Some(unused) => StartupStep::Close { unused },
        }
    }
}

/// What to do after a read of the bootstrap channel.
#[derive(Clone, Copy, Debug, PartialEq, Eq, Structural)]
pub enum StartupStep {
    /// Read again.
    Next,
    /// Close the handle and read again.
    Close { unused: Handle },
    /// Close the bootstrap channel: the message is complete.
    Done,
}

/// Every handle ends up in one place: after it came with a tag, a handle is either the one under
/// that tag or the one to close, and every other slot holds what it held.
pub proof fn handles_are_kept_or_closed(s: Startup, tag: u8, handle: Handle, other: u8)
    ensures
        Startup::is_known(tag) ==> s.installed(tag, handle).slot(tag) == Some(handle),
        Startup::is_known(tag) ==> s.displaced(tag, handle) == s.slot(tag),
        !Startup::is_known(tag) ==> s.displaced(tag, handle) == Some(handle),
        other != tag ==> s.installed(tag, handle).slot(other) == s.slot(other),
{
}

/// The letters of the handles: `i` for standard input, `o` for output, `e` for errors, `a` for the words and `c`
/// for the capability. The handle under any other letter is to be closed.
pub proof fn letters_name_the_handles(s: Startup, h: Handle, tag: u8)
    ensures
        s.installed(0x69, h) == (Startup { stdin: Some(h), ..s }),
        s.installed(0x6f, h) == (Startup { stdout: Some(h), ..s }),
        s.installed(0x65, h) == (Startup { stderr: Some(h), ..s }),
        s.installed(0x61, h) == (Startup { argv: Some(h), ..s }),
        s.installed(0x63, h) == (Startup { cap0: Some(h), ..s }),
        s.displaced(0x69, h) == s.stdin,
        s.displaced(0x6f, h) == s.stdout,
        s.displaced(0x65, h) == s.stderr,
        s.displaced(0x61, h) == s.argv,
        s.displaced(0x63, h) == s.cap0,
        tag != 0x69 && tag != 0x6f && tag != 0x65 && tag != 0x61 && tag != 0x63 ==> s.installed(tag, h)
            == s && s.displaced(tag, h) == Some(h),
{
}

/// A read of nothing ends the message; a letter without a handle is skipped; and a letter with one keeps it and
/// closes what it displaces.
pub proof fn reads_go_on_until_nothing_comes(s: Startup, n: usize, tag: u8, raw: u64)
    ensures
        s.after_read(0, tag, raw) == (s, StartupStep::Done),
        n > 0 ==> s.after_read(n, tag, 0) == (s, StartupStep::Next),
        n > 0 && raw != 0 ==> {
            let h = Handle(raw as u32);
            let (after, step) = s.after_read(n, tag, raw);
            &&& after == s.installed(tag, h)
            &&& s.displaced(tag, h) is None ==> step == StartupStep::Next
            &&& s.displaced(tag, h) is Some ==> step == (StartupStep::Close {
                unused: s.displaced(tag, h)->0,
            })
        },
{
}

} // verus!

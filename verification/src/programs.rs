//! The small programs: `hello`, `args`, `ls` and `cat`, and what `cat` and `wc` share. A program
//! reads an image through a capability, in parts that one system call can carry.

use vstd::prelude::*;

use crate::abi::Handle;
use crate::bytes;
use crate::numerals;
use crate::sora::initrd::HEADER_LEN;
use crate::text;

verus! {

/// The most bytes that one read of a memory object returns.
pub const READ_CHUNK: usize = 256;

/// Bytes of the buffer for the image's entry table.
pub const TABLE_ROOM: usize = 2048;

/// Columns for a file size in a listing.
pub const SIZE_COLUMNS: usize = 10;

/// What `hello` prints.
pub const HELLO: &'static str = "hello from a native KUMO program!\n";

/// What `args` prints when it got no arguments.
pub const ARGS_NONE: &'static str = "args: (no argv)\n";

pub const ARGS_READ_FAIL: &'static str = "args: read fail\n";

pub const ARGS_CLOSE_FAIL: &'static str = "args: close fail\n";

pub const ARGS_CLOSE_OK: &'static str = "args: close ok\n";

pub const LS_NO_INITRD: &'static str = "ls: no initrd handle\n";

pub const LS_READ_FAIL: &'static str = "ls: read fail\n";

pub const LS_TABLE_TOO_LARGE: &'static str = "ls: table too large\n";

pub const LS_BAD_INITRD: &'static str = "ls: bad initrd\n";

pub const CAT_NO_INITRD: &'static str = "cat: no initrd handle\n";

pub const CAT_NO_ARGV: &'static str = "cat: no argv handle\n";

pub const WC_NO_CAPABILITY: &'static str = "wc: missing capability\n";

/// Where a program's output goes.
#[derive(Clone, Copy, Debug, PartialEq, Eq, Structural)]
pub enum Sink {
    /// The kernel's debug output.
    Debug,
    /// The channel that the shell granted.
    Channel(Handle),
}

/// The sink of a program that was started with `stdout`. No handle, and the handle zero, leave
/// the debug output.
pub open spec fn sink_of(stdout: Option<Handle>) -> Sink {
    match stdout {
        Some(h) => if h.0 == 0 {
            Sink::Debug
        } else {
            Sink::Channel(h)
        },
        None => Sink::Debug,
    }
}

/// Computes [`sink_of`].
pub fn sink(stdout: Option<Handle>) -> (s: Sink)
    ensures
        s == sink_of(stdout),
{
    match stdout {
        Some(h) => if h.0 == 0 {
            Sink::Debug
        } else {
            Sink::Channel(h)
        },
        None => Sink::Debug,
    }
}

/// The line that `args` prints for one argument. Only the last digit of the index is shown.
pub open spec fn argument_of(index: int, arg: Seq<u8>) -> Seq<u8> {
    seq![0x61u8, 0x72, 0x67, 0x76, 0x5b, numerals::digit(index % 10), 0x5d, 0x20, 0x3d, 0x20]
        + arg + seq![0x0au8]
}

/// Writes [`argument_of`].
pub fn argument_line(index: usize, arg: &[u8]) -> (line: Vec<u8>)
    ensures
        line@ == argument_of(index as int, arg@),
{
    let mut out: Vec<u8> = Vec::new();
    out.push(0x61);
    out.push(0x72);
    out.push(0x67);
    out.push(0x76);
    out.push(0x5b);
    out.push(0x30 + (index % 10) as u8);
    out.push(0x5d);
    out.push(0x20);
    out.push(0x3d);
    out.push(0x20);
    assert(out@ =~= seq![
        0x61u8,
        0x72,
        0x67,
        0x76,
        0x5b,
        numerals::digit(index as int % 10),
        0x5d,
        0x20,
        0x3d,
        0x20,
    ]);
    bytes::append(&mut out, arg);
    out.push(0x0a);
    assert(out@ =~= argument_of(index as int, arg@));
    out
}

/// Whether closing a handle took its authority away: the close went through, and a read through
/// the same handle is then refused.
pub fn close_is_proved(close_status: i32, read_status: u64) -> (proved: bool)
    ensures
        proved == (close_status == 0 && read_status != 0),
{
    close_status == 0 && read_status != 0
}

/// The last `n` elements of `s`.
pub open spec fn tail(s: Seq<u8>, n: int) -> Seq<u8> {
    s.subrange(s.len() - n, s.len() as int)
}

/// `field` with the digits of `value` at its right end. A number that is too long keeps its low
/// digits.
pub open spec fn right_aligned(value: nat, field: Seq<u8>) -> Seq<u8> {
    let digits = numerals::decimal(value);
    if digits.len() >= field.len() {
        tail(digits, field.len() as int)
    } else {
        field.take(field.len() - digits.len()) + digits
    }
}

/// Writes the digits of `value` into the right end of `field`.
pub fn fmt_dec_right(value: u64, field: &mut [u8])
    requires
        old(field).len() > 0,
    ensures
        final(field)@ == right_aligned(value as nat, old(field)@),
{
    let ghost given = field@;
    let ghost all = numerals::decimal(value as nat);
    let mut digits: Vec<u8> = Vec::new();
    numerals::push_decimal(&mut digits, value);
    assert(digits@ =~= all);
    let width: usize = field.len();
    let shown: usize = if digits.len() < width {
        digits.len()
    } else {
        width
    };
    let from: usize = digits.len() - shown;
    let at: usize = width - shown;
    bytes::put_bytes(field, at, &digits.as_slice()[from..digits.len()]);
    assert(field@ =~= right_aligned(value as nat, given));
}

/// The line of a listing: the size in its columns, two blanks, the path.
pub open spec fn listing_of(size: nat, path: Seq<u8>) -> Seq<u8> {
    right_aligned(size, Seq::new(SIZE_COLUMNS as nat, |i: int| 0x20u8)) + seq![0x20u8, 0x20u8]
        + path + seq![0x0au8]
}

/// Writes [`listing_of`].
pub fn listing_line(size: u64, path: &[u8]) -> (line: Vec<u8>)
    ensures
        line@ == listing_of(size as nat, path@),
{
    let mut field = [0x20u8; 10];
    assert(field@ =~= Seq::new(SIZE_COLUMNS as nat, |i: int| 0x20u8));
    fmt_dec_right(size, &mut field);
    let mut out: Vec<u8> = Vec::new();
    bytes::append(&mut out, &field);
    out.push(0x20);
    out.push(0x20);
    bytes::append(&mut out, path);
    out.push(0x0a);
    assert(out@ =~= listing_of(size as nat, path@));
    out
}

/// Why `cat` or `wc` gives up.
#[derive(Clone, Copy, Debug, PartialEq, Eq, Structural)]
pub enum Failure {
    ArgvRead,
    Usage,
    BadPath,
    InitrdRead,
    TableTooLarge,
    BadInitrd,
    NotFound,
    FileRead,
}

/// What a failure reads like behind the program's name.
pub open spec fn complaint(f: Failure) -> Seq<char> {
    match f {
        Failure::ArgvRead => ": argv read fail\n"@,
        Failure::Usage => " <path>\n"@,
        Failure::BadPath => ": bad path\n"@,
        Failure::InitrdRead => ": initrd read fail\n"@,
        Failure::TableTooLarge => ": table too large\n"@,
        Failure::BadInitrd => ": bad initrd\n"@,
        Failure::NotFound => ": not found\n"@,
        Failure::FileRead => ": file read fail\n"@,
    }
}

/// The message for a failure: what is wrong, or how the program is used.
pub open spec fn message_of(program: Seq<char>, f: Failure) -> Seq<u8> {
    let front = if f == Failure::Usage {
        vstd::utf8::encode_utf8("usage: "@)
    } else {
        Seq::<u8>::empty()
    };
    front + vstd::utf8::encode_utf8(program) + vstd::utf8::encode_utf8(complaint(f))
}

/// Writes [`message_of`].
pub fn failure_message(program: &str, f: Failure) -> (message: Vec<u8>)
    ensures
        message@ == message_of(program@, f),
{
    let mut out: Vec<u8> = if f == Failure::Usage {
        text::to_bytes("usage: ")
    } else {
        Vec::new()
    };
    text::append_text(&mut out, program);
    text::append_text(
        &mut out,
        match f {
            Failure::ArgvRead => ": argv read fail\n",
            Failure::Usage => " <path>\n",
            Failure::BadPath => ": bad path\n",
            Failure::InitrdRead => ": initrd read fail\n",
            Failure::TableTooLarge => ": table too large\n",
            Failure::BadInitrd => ": bad initrd\n",
            Failure::NotFound => ": not found\n",
            Failure::FileRead => ": file read fail\n",
        },
    );
    out
}

/// The path among the arguments: the second of exactly two, if it is text.
pub open spec fn chosen_path(args: Seq<Seq<u8>>) -> Result<Seq<u8>, Failure> {
    if args.len() != 2 {
        Err(Failure::Usage)
    } else if !vstd::utf8::valid_utf8(args[1]) {
        Err(Failure::BadPath)
    } else {
        Ok(args[1])
    }
}

/// The bytes of each argument.
pub open spec fn arguments(args: Seq<Vec<u8>>) -> Seq<Seq<u8>> {
    Seq::new(args.len(), |i: int| args[i]@)
}

/// Finds the path that `cat` or `wc` was called with.
pub fn choose_path(args: &Vec<Vec<u8>>) -> (r: Result<&Vec<u8>, Failure>)
    ensures
        match r {
            Ok(path) => chosen_path(arguments(args@)) == Ok::<Seq<u8>, Failure>(path@),
            Err(f) => chosen_path(arguments(args@)) == Err::<Seq<u8>, Failure>(f),
        },
{
    if args.len() != 2 {
        return Err(Failure::Usage);
    }
    if text::checked_text(args[1].as_slice()).is_none() {
        return Err(Failure::BadPath);
    }
    Ok(&args[1])
}

/// The length of the entry table, as the header gives it, if the buffer holds it.
pub fn table_length(announced: Option<usize>) -> (r: Result<usize, Failure>)
    ensures
        r == (match announced {
            None => Err::<usize, Failure>(Failure::BadInitrd),
            Some(len) => if len <= TABLE_ROOM {
                Ok(len)
            } else {
                Err(Failure::TableTooLarge)
            },
        }),
{
    match announced {
        None => Err(Failure::BadInitrd),
        Some(len) => if len <= TABLE_ROOM {
            Ok(len)
        } else {
            Err(Failure::TableTooLarge)
        },
    }
}

/// A stretch of a memory object that is read in parts.
#[derive(Clone, Copy, Debug, PartialEq, Eq, Structural)]
pub struct Stretch {
    pub offset: u64,
    pub remaining: u64,
}

impl Stretch {
    pub open spec fn wf(self) -> bool {
        self.offset + self.remaining <= u64::MAX
    }

    /// The next part: its offset and length. Nothing is left of an empty stretch.
    pub open spec fn part(self) -> Option<(u64, usize)> {
        if self.remaining == 0 {
            None
        } else if self.remaining < READ_CHUNK {
            Some((self.offset, self.remaining as usize))
        } else {
            Some((self.offset, READ_CHUNK))
        }
    }

    /// What is left behind the next part.
    pub open spec fn rest(self) -> Stretch {
        match self.part() {
            None => self,
            Some((_, len)) => Stretch {
                offset: (self.offset + len) as u64,
                remaining: (self.remaining - len) as u64,
            },
        }
    }

    /// The part of the entry table that comes behind the header.
    pub fn table(table_len: usize) -> (s: Stretch)
        requires
            table_len <= TABLE_ROOM,
        ensures
            s.wf(),
            s == (Stretch {
                offset: HEADER_LEN as u64,
                remaining: if table_len > HEADER_LEN {
                    (table_len - HEADER_LEN) as u64
                } else {
                    0
                },
            }),
    {
        let remaining: u64 = if table_len > HEADER_LEN {
            (table_len - HEADER_LEN) as u64
        } else {
            0
        };
        Stretch { offset: HEADER_LEN as u64, remaining }
    }

    /// Takes the next part off.
    pub fn advance(&mut self) -> (part: Option<(u64, usize)>)
        requires
            old(self).wf(),
        ensures
            part == old(self).part(),
            *final(self) == old(self).rest(),
            final(self).wf(),
    {
        if self.remaining == 0 {
            return None;
        }
        let at: u64 = self.offset;
        let len: usize = if self.remaining < READ_CHUNK as u64 {
            self.remaining as usize
        } else {
            READ_CHUNK
        };
        self.offset = self.offset + len as u64;
        self.remaining = self.remaining - len as u64;
        Some((at, len))
    }
}

/// What comes out when every part of a stretch is read from `image` and appended.
pub open spec fn streamed(image: Seq<u8>, s: Stretch) -> Seq<u8>
    decreases s.remaining,
{
    match s.part() {
        None => Seq::empty(),
        Some((at, len)) => image.subrange(at as int, at + len) + streamed(image, s.rest()),
    }
}

/// Reading in parts loses nothing: the parts of a stretch put together are the stretch itself,
/// each byte once and in order.
pub proof fn parts_make_up_the_stretch(image: Seq<u8>, s: Stretch)
    requires
        s.wf(),
        s.offset + s.remaining <= image.len(),
    ensures
        streamed(image, s) == image.subrange(s.offset as int, s.offset + s.remaining),
    decreases s.remaining,
{
    if s.remaining > 0 {
        parts_make_up_the_stretch(image, s.rest());
    }
    assert(streamed(image, s) =~= image.subrange(s.offset as int, s.offset + s.remaining));
}

/// A part is never empty, and never longer than one read may be.
pub proof fn parts_fit_one_read(s: Stretch)
    requires
        s.remaining > 0,
    ensures
        s.part() matches Some((at, len)) && 1 <= len <= READ_CHUNK && at == s.offset,
        s.rest().remaining < s.remaining,
{
}

/// Output goes to the channel that a program was given, and to the debug output without one.
pub proof fn output_goes_to_the_granted_channel(h: Handle)
    ensures
        sink_of(None) == Sink::Debug,
        h.0 == 0 ==> sink_of(Some(h)) == Sink::Debug,
        h.0 != 0 ==> sink_of(Some(h)) == Sink::Channel(h),
{
}

/// An argument's line is `argv[`, the last digit of its index, `] = `, the argument and a newline.
pub proof fn arguments_are_numbered(index: int, arg: Seq<u8>, i: int)
    requires
        0 <= index,
    ensures
        ({
            let line = argument_of(index, arg);
            &&& line.len() == 11 + arg.len()
            &&& line.subrange(0, 5) == seq![0x61u8, 0x72u8, 0x67u8, 0x76u8, 0x5bu8]
            &&& line[5] == 0x30 + index % 10
            &&& line.subrange(6, 10) == seq![0x5du8, 0x20u8, 0x3du8, 0x20u8]
            &&& 0 <= i < arg.len() ==> line[10 + i] == arg[i]
            &&& line.last() == 0x0a
        }),
{
    let line = argument_of(index, arg);
    assert(line.subrange(0, 5) =~= seq![0x61u8, 0x72u8, 0x67u8, 0x76u8, 0x5bu8]);
    assert(line.subrange(6, 10) =~= seq![0x5du8, 0x20u8, 0x3du8, 0x20u8]);
}

/// A number stands at the right end of its field, digit by digit; the field shows what it held where
/// the number does not reach, and only the low digits of a number that is too long.
pub proof fn numbers_stand_at_the_right(value: nat, field: Seq<u8>, i: int)
    ensures
        ({
            let digits = numerals::decimal(value);
            let r = right_aligned(value, field);
            &&& r.len() == field.len()
            &&& 0 <= i < field.len() && i < digits.len() ==> r[field.len() - 1 - i]
                == digits[digits.len() - 1 - i]
            &&& digits.len() <= i < field.len() ==> r[field.len() - 1 - i] == field[field.len() - 1
                - i]
        }),
{
}

/// A listing's line is ten columns for the size, two blanks, the path and a newline.
pub proof fn listings_have_ten_columns(size: nat, path: Seq<u8>, i: int)
    ensures
        ({
            let line = listing_of(size, path);
            let digits = numerals::decimal(size);
            &&& line.len() == 13 + path.len()
            &&& 0 <= i < 10 && i < digits.len() ==> line[9 - i] == digits[digits.len() - 1 - i]
            &&& digits.len() <= i < 10 ==> line[9 - i] == 0x20
            &&& line[10] == 0x20 && line[11] == 0x20
            &&& 0 <= i < path.len() ==> line[12 + i] == path[i]
            &&& line.last() == 0x0a
        }),
{
    let blanks = Seq::new(10, |i: int| 0x20u8);
    let field = right_aligned(size, blanks);
    numbers_stand_at_the_right(size, blanks, i);
    let line = listing_of(size, path);
    assert(SIZE_COLUMNS as nat == 10);
    assert(Seq::new(SIZE_COLUMNS as nat, |i: int| 0x20u8) =~= blanks);
    assert(line =~= field + seq![0x20u8, 0x20u8] + path + seq![0x0au8]);
}

/// A program with a path takes just one argument behind its own name, and it has to be text.
pub proof fn programs_take_one_path(args: Seq<Seq<u8>>)
    ensures
        args.len() != 2 ==> chosen_path(args) == Err::<Seq<u8>, Failure>(Failure::Usage),
        args.len() == 2 && !vstd::utf8::valid_utf8(args[1]) ==> chosen_path(args) == Err::<
            Seq<u8>,
            Failure,
        >(Failure::BadPath),
        args.len() == 2 && vstd::utf8::valid_utf8(args[1]) ==> chosen_path(args) == Ok::<
            Seq<u8>,
            Failure,
        >(args[1]),
{
}

/// A part is 256 bytes long, or the whole rest where that is less, and the stretch goes on behind it.
pub proof fn parts_are_256_bytes(s: Stretch)
    requires
        s.wf(),
    ensures
        s.remaining == 0 ==> s.part() is None && s.rest() == s,
        s.remaining > 0 ==> {
            let len = if s.remaining < 256 {
                s.remaining as int
            } else {
                256
            };
            &&& s.part() is Some
            &&& s.part() == Some((s.offset, len as usize))
            &&& s.rest().offset == s.offset + len
            &&& s.rest().remaining == s.remaining - len
        },
{
}

/// A failure is told as the program's name and what is wrong; only a wrong number of arguments is told
/// as `usage: `, the name and ` <path>`.
pub proof fn failures_name_the_program(program: Seq<char>, f: Failure)
    ensures
        f != Failure::Usage ==> message_of(program, f) == vstd::utf8::encode_utf8(program)
            + vstd::utf8::encode_utf8(complaint(f)),
        f == Failure::Usage ==> message_of(program, f) == vstd::utf8::encode_utf8("usage: "@)
            + vstd::utf8::encode_utf8(program) + vstd::utf8::encode_utf8(" <path>\n"@),
{
    assert(Seq::<u8>::empty() + vstd::utf8::encode_utf8(program) =~= vstd::utf8::encode_utf8(
        program,
    ));
}

} // verus!

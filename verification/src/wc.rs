//! Line, word and byte counts. A line is a newline byte; a word is a maximal run of bytes that
//! are not whitespace.

use vstd::prelude::*;

use crate::bytes;
use crate::numerals;

verus! {

/// The newline byte.
pub const NEWLINE: u8 = 0x0a;

/// Bytes of the buffer for the printed line.
pub const LINE_ROOM: usize = 160;

/// Space, tab, line feed, form feed or carriage return.
pub open spec fn is_space(b: u8) -> bool {
    b == 0x20 || b == 0x09 || b == 0x0a || b == 0x0c || b == 0x0d
}

/// Computes [`is_space`].
pub fn space(b: u8) -> (r: bool)
    ensures
        r == is_space(b),
{
    b == 0x20 || b == 0x09 || b == 0x0a || b == 0x0c || b == 0x0d
}

/// Line, word and byte tally of a byte stream.
#[derive(Clone, Copy, Debug, PartialEq, Eq, Structural)]
pub struct Counts {
    pub lines: usize,
    pub words: usize,
    pub bytes: usize,
}

impl Default for Counts {
    fn default() -> (c: Self)
        ensures
            c == (Counts { lines: 0, words: 0, bytes: 0 }),
    {
        Counts { lines: 0, words: 0, bytes: 0 }
    }
}

/// The number of newlines in `s`.
pub open spec fn line_count(s: Seq<u8>) -> nat
    decreases s.len(),
{
    if s.len() == 0 {
        0
    } else {
        line_count(s.drop_last()) + if s.last() == NEWLINE {
            1nat
        } else {
            0
        }
    }
}

/// Whether a word starts at position `i`: no whitespace there, and whitespace or nothing before.
pub open spec fn starts_word(s: Seq<u8>, i: int) -> bool {
    !is_space(s[i]) && (i == 0 || is_space(s[i - 1]))
}

/// The number of words in `s`, each counted where it starts.
pub open spec fn word_count(s: Seq<u8>) -> nat
    decreases s.len(),
{
    if s.len() == 0 {
        0
    } else {
        word_count(s.drop_last()) + if starts_word(s, s.len() - 1) {
            1nat
        } else {
            0
        }
    }
}

/// An incremental counter. `in_word` carries over from one chunk to the next, so that a word
/// across the boundary is counted once.
#[derive(Clone, Copy, Debug, PartialEq, Eq, Structural)]
pub struct Counter {
    pub lines: usize,
    pub words: usize,
    pub bytes: usize,
    pub in_word: bool,
}

impl Default for Counter {
    fn default() -> (c: Self)
        ensures
            c.has_seen(Seq::<u8>::empty()),
    {
        Counter { lines: 0, words: 0, bytes: 0, in_word: false }
    }
}

impl Counter {
    /// Whether the counter holds the tally of `s`.
    pub open spec fn has_seen(self, s: Seq<u8>) -> bool {
        &&& self.bytes == s.len()
        &&& self.lines == line_count(s)
        &&& self.words == word_count(s)
        &&& self.in_word == (s.len() > 0 && !is_space(s.last()))
    }

    /// A counter that has seen nothing.
    pub fn new() -> (c: Counter)
        ensures
            c.has_seen(Seq::<u8>::empty()),
    {
        Counter { lines: 0, words: 0, bytes: 0, in_word: false }
    }

    /// The counter after one byte.
    pub open spec fn stepped(self, b: u8) -> Counter {
        Counter {
            lines: (self.lines + if b == NEWLINE {
                1int
            } else {
                0
            }) as usize,
            words: (self.words + if !is_space(b) && !self.in_word {
                1int
            } else {
                0
            }) as usize,
            bytes: (self.bytes + 1) as usize,
            in_word: !is_space(b),
        }
    }

    /// The counter after a chunk.
    pub open spec fn fed(self, chunk: Seq<u8>) -> Counter
        decreases chunk.len(),
    {
        if chunk.len() == 0 {
            self
        } else {
            self.fed(chunk.drop_last()).stepped(chunk.last())
        }
    }

    /// Adds one chunk to the tally. No count is larger than the number of bytes, which is as far
    /// as the machine can count.
    pub fn feed(&mut self, chunk: &[u8])
        requires
            old(self).lines <= old(self).bytes,
            old(self).words <= old(self).bytes,
            old(self).bytes + chunk.len() <= usize::MAX,
        ensures
            *final(self) == old(self).fed(chunk@),
            final(self).lines <= final(self).bytes,
            final(self).words <= final(self).bytes,
            final(self).bytes == old(self).bytes + chunk.len(),
    {
        let mut i: usize = 0;
        let ghost before = *self;
        while i < chunk.len()
            invariant
                i <= chunk@.len(),
                before.bytes + chunk@.len() <= usize::MAX,
                *self == before.fed(chunk@.take(i as int)),
                self.lines <= self.bytes,
                self.words <= self.bytes,
                self.bytes == before.bytes + i,
            decreases chunk@.len() - i,
        {
            let b: u8 = chunk[i];
            assert(chunk@.take(i + 1).drop_last() =~= chunk@.take(i as int));
            if b == NEWLINE {
                self.lines += 1;
            }
            if space(b) {
                self.in_word = false;
            } else if !self.in_word {
                self.in_word = true;
                self.words += 1;
            }
            self.bytes += 1;
            i += 1;
        }
        assert(chunk@.take(chunk@.len() as int) =~= chunk@);
    }

    /// The tally so far.
    pub fn counts(&self) -> (c: Counts)
        ensures
            c == (Counts { lines: self.lines, words: self.words, bytes: self.bytes }),
    {
        Counts { lines: self.lines, words: self.words, bytes: self.bytes }
    }
}

proof fn lemma_counts_are_small(s: Seq<u8>)
    ensures
        line_count(s) <= s.len(),
        word_count(s) <= s.len(),
    decreases s.len(),
{
    if s.len() > 0 {
        lemma_counts_are_small(s.drop_last());
    }
}

/// Chunks do not matter: a counter that has seen `seen` and is fed `chunk` holds the tally of
/// the two in a row.
pub proof fn chunks_add_up(c: Counter, seen: Seq<u8>, chunk: Seq<u8>)
    requires
        c.has_seen(seen),
        seen.len() + chunk.len() <= usize::MAX,
    ensures
        c.fed(chunk).has_seen(seen + chunk),
    decreases chunk.len(),
{
    if chunk.len() == 0 {
        assert(seen + chunk =~= seen);
    } else {
        chunks_add_up(c, seen, chunk.drop_last());
        let all = seen + chunk;
        assert(all.drop_last() =~= seen + chunk.drop_last());
        lemma_counts_are_small(all);
    }
}

/// Two chunks give the same counter as the two in a row, whatever it held before.
pub proof fn feeding_in_parts_is_feeding_whole(c: Counter, a: Seq<u8>, b: Seq<u8>)
    ensures
        c.fed(a).fed(b) == c.fed(a + b),
    decreases b.len(),
{
    if b.len() == 0 {
        assert(a + b =~= a);
    } else {
        feeding_in_parts_is_feeding_whole(c, a, b.drop_last());
        assert((a + b).drop_last() =~= a + b.drop_last());
    }
}

/// Counts a whole slice.
pub fn count(input: &[u8]) -> (c: Counts)
    ensures
        c.bytes == input.len(),
        c.lines == line_count(input@),
        c.words == word_count(input@),
{
    let mut counter = Counter::new();
    let ghost fresh = counter;
    counter.feed(input);
    proof {
        chunks_add_up(fresh, Seq::empty(), input@);
        assert(Seq::<u8>::empty() + input@ =~= input@);
    }
    counter.counts()
}

/// The line that is printed: the three counts, the path, a newline, cut at the buffer's end.
pub open spec fn report_of(c: Counts, path: Seq<u8>) -> Seq<u8> {
    let line = numerals::decimal(c.lines as nat) + seq![0x20u8] + numerals::decimal(
        c.words as nat,
    ) + seq![0x20u8] + numerals::decimal(c.bytes as nat) + seq![0x20u8] + path + seq![NEWLINE];
    if line.len() > LINE_ROOM {
        line.take(LINE_ROOM as int)
    } else {
        line
    }
}

/// Writes [`report_of`].
pub fn report(c: Counts, path: &[u8]) -> (line: Vec<u8>)
    ensures
        line@ == report_of(c, path@),
{
    let mut out: Vec<u8> = Vec::new();
    numerals::push_decimal(&mut out, c.lines as u64);
    assert(out@ =~= numerals::decimal(c.lines as nat));
    out.push(0x20);
    numerals::push_decimal(&mut out, c.words as u64);
    out.push(0x20);
    numerals::push_decimal(&mut out, c.bytes as u64);
    out.push(0x20);
    bytes::append(&mut out, path);
    out.push(NEWLINE);
    assert(out@ =~= numerals::decimal(c.lines as nat) + seq![0x20u8] + numerals::decimal(
        c.words as nat,
    ) + seq![0x20u8] + numerals::decimal(c.bytes as nat) + seq![0x20u8] + path@ + seq![NEWLINE]);
    if out.len() > LINE_ROOM {
        out.truncate(LINE_ROOM);
    }
    out
}

/// A byte more is a line more where it is a newline, and a word more where it is no blank and stands
/// behind one, or first.
pub proof fn counts_grow_byte_by_byte(s: Seq<u8>, b: u8)
    ensures
        line_count(Seq::empty()) == 0,
        word_count(Seq::empty()) == 0,
        b == 0x0a ==> line_count(s.push(b)) == line_count(s) + 1,
        b != 0x0a ==> line_count(s.push(b)) == line_count(s),
        ({
            let blank = b == 0x20 || b == 0x09 || b == 0x0a || b == 0x0c || b == 0x0d;
            let l = s.last();
            let open = s.len() > 0 && l != 0x20 && l != 0x09 && l != 0x0a && l != 0x0c && l != 0x0d;
            &&& !blank && !open ==> word_count(s.push(b)) == word_count(s) + 1
            &&& blank || open ==> word_count(s.push(b)) == word_count(s)
        }),
{
    assert(s.push(b).drop_last() =~= s);
    if s.len() > 0 {
        assert(s.push(b)[s.len() - 1] == s.last());
    }
}

/// A blank between two texts parts their words, and their lines and words add up.
pub proof fn texts_add_up(a: Seq<u8>, blank: u8, b: Seq<u8>)
    requires
        blank == 0x20 || blank == 0x09 || blank == 0x0a || blank == 0x0c || blank == 0x0d,
    ensures
        line_count(a + seq![blank] + b) == line_count(a) + line_count(b) + (if blank == 0x0a {
            1nat
        } else {
            0
        }),
        word_count(a + seq![blank] + b) == word_count(a) + word_count(b),
    decreases b.len(),
{
    let s = a + seq![blank] + b;
    if b.len() == 0 {
        assert(s =~= a.push(blank));
        counts_grow_byte_by_byte(a, blank);
    } else {
        let part = b.drop_last();
        texts_add_up(a, blank, part);
        assert(s.drop_last() =~= a + seq![blank] + part);
        assert(s.last() == b.last());
        if b.len() > 1 {
            assert(s[s.len() - 2] == b[b.len() - 2]);
        } else {
            assert(s[s.len() - 2] == blank);
        }
    }
}

/// The printed line is the three counts in decimal and the path, with a space between two of them, and a
/// newline, as far as 160 bytes go.
pub proof fn reports_are_one_line(c: Counts, path: Seq<u8>)
    ensures
        ({
            let line = numerals::decimal(c.lines as nat) + seq![0x20u8] + numerals::decimal(
                c.words as nat,
            ) + seq![0x20u8] + numerals::decimal(c.bytes as nat) + seq![0x20u8] + path + seq![
                0x0au8,
            ];
            &&& line.len() <= 160 ==> report_of(c, path) == line
            &&& line.len() > 160 ==> report_of(c, path) == line.subrange(0, 160)
        }),
{
}

} // verus!

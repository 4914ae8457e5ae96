//! The `threads` program: two threads of one process pass a turn back and forth, compute side by
//! side, and then share a serial work queue. What each of them checks and reports is here.

use vstd::prelude::*;
use vstd::utf8::encode_utf8;

use crate::numerals;
use crate::text;

verus! {

/// How often the two threads hand the turn over.
pub const ROUNDS: u32 = 6;

/// How many separate runs of its peer each thread must see.
pub const FAIR_EPOCHS: u32 = 8;

/// Bytes of the pattern that each thread keeps on its own stack.
pub const CANARY: usize = 64;

/// What the value that a thread carries through every sleep starts from.
pub const CARRIED: u32 = 0x1000_0000;

/// The value of a thread's argument that is its number: the lowest bit.
pub fn thread_number(index: u64) -> (me: u32)
    ensures
        me == index % 2,
{
    (index % 2) as u32
}

/// The number of the other thread.
pub fn peer_of(me: u32) -> (peer: u32)
    requires
        me < 2,
    ensures
        peer == 1 - me,
{
    1 - me
}

/// Byte `i` of the pattern of thread `me`.
pub open spec fn pattern(i: int, me: int) -> u8 {
    ((i * 3 + me * 0x5a) % 256) as u8
}

/// The pattern of thread `me`.
pub fn canary(me: u32) -> (slots: Vec<u8>)
    requires
        me < 2,
    ensures
        slots@ == Seq::new(CANARY as nat, |i: int| pattern(i, me as int)),
{
    let mut out: Vec<u8> = Vec::new();
    let mut i: usize = 0;
    while i < CANARY
        invariant
            i <= CANARY,
            me < 2,
            out@ == Seq::new(i as nat, |j: int| pattern(j, me as int)),
        decreases CANARY - i,
    {
        out.push(((i as u32 * 3 + me * 0x5a) % 256) as u8);
        i += 1;
        assert(out@ =~= Seq::new(i as nat, |j: int| pattern(j, me as int)));
    }
    out
}

/// Whether the pattern is as the thread left it.
pub fn canary_is_intact(slots: &[u8], me: u32) -> (intact: bool)
    requires
        me < 2,
        slots.len() <= CANARY,
    ensures
        intact == (slots@ == Seq::new(slots@.len(), |i: int| pattern(i, me as int))),
{
    let mut i: usize = 0;
    while i < slots.len()
        invariant
            i <= slots@.len() <= CANARY,
            me < 2,
            forall|j: int| 0 <= j < i ==> slots@[j] == pattern(j, me as int),
        decreases slots@.len() - i,
    {
        if slots[i] != ((i as u32 * 3 + me * 0x5a) % 256) as u8 {
            assert(slots@[i as int] != Seq::new(
                slots@.len(),
                |j: int| pattern(j, me as int),
            )[i as int]);
            return false;
        }
        i += 1;
    }
    assert(slots@ =~= Seq::new(slots@.len(), |j: int| pattern(j, me as int)));
    true
}

/// How many of its checks a thread sees fail when it gets its turn.
pub fn faults(slots: &[u8], carried: u32, me: u32) -> (n: u32)
    requires
        me < 2,
        slots.len() <= CANARY,
    ensures
        n == (if slots@ == Seq::new(slots@.len(), |i: int| pattern(i, me as int)) {
            0int
        } else {
            1
        }) + (if carried == CARRIED + me {
            0int
        } else {
            1
        }),
{
    let mut n: u32 = 0;
    if !canary_is_intact(slots, me) {
        n += 1;
    }
    if carried != CARRIED + me {
        n += 1;
    }
    n
}

/// A shared stack cannot go unnoticed: the patterns of the two threads differ in every byte.
pub proof fn patterns_differ_everywhere(i: int)
    requires
        0 <= i < CANARY,
    ensures
        pattern(i, 0) != pattern(i, 1),
{
}

/// What a thread prints in a round.
pub open spec fn round_text(me: int, round: nat) -> Seq<u8> {
    seq![if me == 0 {
        0x41u8
    } else {
        0x42u8
    }] + numerals::decimal(round) + seq![0x20u8]
}

/// Writes [`round_text`].
pub fn round_mark(me: u32, round: u32) -> (out: Vec<u8>)
    ensures
        out@ == round_text(me as int, round as nat),
{
    let mut out: Vec<u8> = Vec::new();
    out.push(
        if me == 0 {
            0x41
        } else {
            0x42
        },
    );
    numerals::push_decimal(&mut out, round as u64);
    out.push(0x20);
    assert(out@ =~= round_text(me as int, round as nat));
    out
}

/// The digits of a number.
pub open spec fn number(v: u32) -> Seq<u8> {
    numerals::decimal(v as nat)
}

/// Whether the handover phase went well: no check failed, and each thread had all its rounds.
pub open spec fn handover_ok(a: u32, b: u32, faults: u32) -> bool {
    faults == 0 && a == ROUNDS && b == ROUNDS
}

/// The report on the handover phase.
pub open spec fn handover_text(completed: u32, a: u32, b: u32, faults: u32) -> Seq<u8> {
    encode_utf8("\nthreads: handoffs="@) + number(completed) + encode_utf8(" A="@) + number(a)
        + encode_utf8(" B="@) + number(b) + encode_utf8(" stack+reg faults="@) + number(faults)
        + encode_utf8(
        if handover_ok(a, b, faults) {
            " -> OK: two threads, one address space, futex handoff\n"@
        } else {
            " -> FAIL\n"@
        },
    )
}

/// Writes [`handover_text`].
pub fn handover_report(completed: u32, a: u32, b: u32, faults: u32) -> (out: Vec<u8>)
    ensures
        out@ == handover_text(completed, a, b, faults),
{
    let mut out: Vec<u8> = text::to_bytes("\nthreads: handoffs=");
    numerals::push_decimal(&mut out, completed as u64);
    text::append_text(&mut out, " A=");
    numerals::push_decimal(&mut out, a as u64);
    text::append_text(&mut out, " B=");
    numerals::push_decimal(&mut out, b as u64);
    text::append_text(&mut out, " stack+reg faults=");
    numerals::push_decimal(&mut out, faults as u64);
    if faults == 0 && a == ROUNDS && b == ROUNDS {
        text::append_text(&mut out, " -> OK: two threads, one address space, futex handoff\n");
    } else {
        text::append_text(&mut out, " -> FAIL\n");
    }
    out
}

/// Whether two threads of the same priority made even progress: both worked, neither more than
/// twice as much as the other, and each saw its peer run often enough.
pub open spec fn is_balanced(work_a: u32, work_b: u32, epochs_a: u32, epochs_b: u32) -> bool {
    &&& work_a > 0
    &&& work_b > 0
    &&& work_a <= 2 * work_b
    &&& work_b <= 2 * work_a
    &&& epochs_a >= FAIR_EPOCHS
    &&& epochs_b >= FAIR_EPOCHS
}

/// Computes [`is_balanced`].
pub fn balanced(work_a: u32, work_b: u32, epochs_a: u32, epochs_b: u32) -> (r: bool)
    ensures
        r == is_balanced(work_a, work_b, epochs_a, epochs_b),
{
    let least: u32 = if work_a < work_b {
        work_a
    } else {
        work_b
    };
    let most: u32 = if work_a < work_b {
        work_b
    } else {
        work_a
    };
    least > 0 && most as u64 <= 2 * least as u64 && epochs_a >= FAIR_EPOCHS && epochs_b
        >= FAIR_EPOCHS
}

/// The report on the compute phase.
pub open spec fn fairness_text(work_a: u32, work_b: u32, epochs_a: u32, epochs_b: u32) -> Seq<u8> {
    encode_utf8("threads: fair epochs A="@) + number(epochs_a) + encode_utf8(" B="@) + number(
        epochs_b,
    ) + encode_utf8(" work A="@) + number(work_a) + encode_utf8(" B="@) + number(work_b)
        + encode_utf8(
        if is_balanced(work_a, work_b, epochs_a, epochs_b) {
            " -> OK: equal-priority compute peers made even progress\n"@
        } else {
            " -> FAIL: unfair compute progress\n"@
        },
    )
}

/// Writes [`fairness_text`].
pub fn fairness_report(work_a: u32, work_b: u32, epochs_a: u32, epochs_b: u32) -> (out: Vec<u8>)
    ensures
        out@ == fairness_text(work_a, work_b, epochs_a, epochs_b),
{
    let mut out: Vec<u8> = text::to_bytes("threads: fair epochs A=");
    numerals::push_decimal(&mut out, epochs_a as u64);
    text::append_text(&mut out, " B=");
    numerals::push_decimal(&mut out, epochs_b as u64);
    text::append_text(&mut out, " work A=");
    numerals::push_decimal(&mut out, work_a as u64);
    text::append_text(&mut out, " B=");
    numerals::push_decimal(&mut out, work_b as u64);
    if balanced(work_a, work_b, epochs_a, epochs_b) {
        text::append_text(&mut out, " -> OK: equal-priority compute peers made even progress\n");
    } else {
        text::append_text(&mut out, " -> FAIL: unfair compute progress\n");
    }
    out
}

/// Balance has no favourite: swapping the two threads changes nothing.
pub proof fn balance_is_symmetric(work_a: u32, work_b: u32, epochs_a: u32, epochs_b: u32)
    ensures
        is_balanced(work_a, work_b, epochs_a, epochs_b) == is_balanced(
            work_b,
            work_a,
            epochs_b,
            epochs_a,
        ),
{
}

/// The log of the serial worker after one more digit, up to what a word holds.
pub open spec fn logged(log: int, digit: int) -> int {
    let shifted = if log * 10 > u32::MAX {
        u32::MAX as int
    } else {
        log * 10
    };
    if shifted + digit > u32::MAX {
        u32::MAX as int
    } else {
        shifted + digit
    }
}

/// Computes [`logged`].
pub fn log_digit(log: u32, digit: u32) -> (next: u32)
    ensures
        next == logged(log as int, digit as int),
{
    let shifted: u32 = match log.checked_mul(10) {
        Some(v) => v,
        None => u32::MAX,
    };
    shifted.saturating_add(digit)
}

/// Whether the queue did its work: no submission failed, the jobs ran in the order in which they
/// were submitted, the last one's result came back, and nothing is left.
pub open spec fn queue_ok(failures: u32, log: u32, result: u32, empty: bool) -> bool {
    failures == 0 && log == 1234 && result == 40 && empty
}

/// The report on the queue.
pub open spec fn queue_text(failures: u32, log: u32, result: u32, empty: bool) -> Seq<u8> {
    encode_utf8("threads: serial async log="@) + number(log) + encode_utf8(" sync="@) + number(
        result,
    ) + encode_utf8(
        if queue_ok(failures, log, result, empty) {
            " -> OK: FIFO queue and synchronous completion\n"@
        } else {
            " -> FAIL: serial queue\n"@
        },
    )
}

/// Writes [`queue_text`].
pub fn queue_report(failures: u32, log: u32, result: u32, empty: bool) -> (out: Vec<u8>)
    ensures
        out@ == queue_text(failures, log, result, empty),
{
    let mut out: Vec<u8> = text::to_bytes("threads: serial async log=");
    numerals::push_decimal(&mut out, log as u64);
    text::append_text(&mut out, " sync=");
    numerals::push_decimal(&mut out, result as u64);
    if failures == 0 && log == 1234 && result == 40 && empty {
        text::append_text(&mut out, " -> OK: FIFO queue and synchronous completion\n");
    } else {
        text::append_text(&mut out, " -> FAIL: serial queue\n");
    }
    out
}

/// One look at the peer's work counter: whether the peer ran since the last look.
pub struct PeerWatch {
    pub last: u32,
    pub epochs: u32,
}

impl PeerWatch {
    /// Takes in the peer's counter. A counter that moved is one more run of the peer.
    pub fn observe(&mut self, work: u32) -> (moved: bool)
        requires
            old(self).epochs < u32::MAX,
        ensures
            moved == (work != old(self).last),
            final(self).last == work,
            final(self).epochs == old(self).epochs + (if moved {
                1int
            } else {
                0
            }),
    {
        if work != self.last {
            self.last = work;
            self.epochs += 1;
            true
        } else {
            false
        }
    }
}

/// The two patterns start at 0 and at 0x5a, and each byte is three more than the one before it.
pub proof fn patterns_step_by_three(i: int, me: int)
    requires
        0 <= i,
        0 <= me < 2,
    ensures
        pattern(0, 0) == 0,
        pattern(0, 1) == 0x5a,
        pattern(i + 1, me) == (pattern(i, me) + 3) % 256,
{
}

/// A round is marked by the thread's letter, the round's number and a blank.
pub proof fn rounds_are_marked(round: nat)
    ensures
        round_text(0, round) == seq![0x41u8] + numerals::decimal(round) + seq![0x20u8],
        round_text(1, round) == seq![0x42u8] + numerals::decimal(round) + seq![0x20u8],
{
}

/// The handover went well just where both threads had six rounds and nothing failed, the queue where its jobs
/// ran in the order one to four, the last one brought forty, nothing failed and nothing is left, and progress
/// was even where both worked, neither more than twice the other, and each saw eight runs of its peer.
pub proof fn verdicts_ask_for_everything(a: u32, b: u32, c: u32, d: u32, empty: bool)
    ensures
        handover_ok(a, b, c) <==> a == 6 && b == 6 && c == 0,
        queue_ok(a, b, c, empty) <==> a == 0 && b == 1234 && c == 40 && empty,
        is_balanced(a, b, c, d) <==> a > 0 && b > 0 && a <= b + b && b <= a + a && c >= 8 && d >= 8,
{
}

/// A digit is logged behind the others, as far as a word holds them.
pub proof fn digits_are_logged_in_order(log: int, digit: int)
    requires
        0 <= log,
        0 <= digit <= 9,
    ensures
        10 * log + digit <= 0xffff_ffff ==> logged(log, digit) == 10 * log + digit,
        10 * log + digit > 0xffff_ffff ==> logged(log, digit) == 0xffff_ffff,
{
}

/// The reports give the numbers in their order and then the verdict.
pub proof fn reports_end_with_the_verdict(a: u32, b: u32, c: u32, d: u32, empty: bool)
    ensures
        handover_text(a, b, c, d) == encode_utf8("\nthreads: handoffs="@) + numerals::decimal(
            a as nat,
        ) + encode_utf8(" A="@) + numerals::decimal(b as nat) + encode_utf8(" B="@)
            + numerals::decimal(c as nat) + encode_utf8(" stack+reg faults="@) + numerals::decimal(
            d as nat,
        ) + encode_utf8(
            if b == 6 && c == 6 && d == 0 {
                " -> OK: two threads, one address space, futex handoff\n"@
            } else {
                " -> FAIL\n"@
            },
        ),
        fairness_text(a, b, c, d) == encode_utf8("threads: fair epochs A="@) + numerals::decimal(
            c as nat,
        ) + encode_utf8(" B="@) + numerals::decimal(d as nat) + encode_utf8(" work A="@)
            + numerals::decimal(a as nat) + encode_utf8(" B="@) + numerals::decimal(b as nat)
            + encode_utf8(
            if is_balanced(a, b, c, d) {
                " -> OK: equal-priority compute peers made even progress\n"@
            } else {
                " -> FAIL: unfair compute progress\n"@
            },
        ),
        queue_text(a, b, c, empty) == encode_utf8("threads: serial async log="@)
            + numerals::decimal(b as nat) + encode_utf8(" sync="@) + numerals::decimal(c as nat)
            + encode_utf8(
            if a == 0 && b == 1234 && c == 40 && empty {
                " -> OK: FIFO queue and synchronous completion\n"@
            } else {
                " -> FAIL: serial queue\n"@
            },
        ),
{
}

} // verus!

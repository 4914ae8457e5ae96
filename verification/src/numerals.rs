//! Numbers as text.

use vstd::prelude::*;

verus! {

/// The character of a digit below sixteen.
pub open spec fn digit(d: int) -> u8 {
    if d < 10 {
        (0x30 + d) as u8
    } else {
        (0x57 + d) as u8
    }
}

/// A number written in a base, most significant digit first, without leading
/// zeros.
pub open spec fn digits(v: nat, base: nat) -> Seq<u8>
    decreases v,
    when base >= 2
    via digits_get_shorter
{
    if v < base {
        seq![digit(v as int)]
    } else {
        digits(v / base, base).push(digit((v % base) as int))
    }
}

#[via_fn]
proof fn digits_get_shorter(v: nat, base: nat) {
    if v >= base && base >= 2 {
        assert(v / base < v) by (nonlinear_arith)
            requires
                v >= base,
                base >= 2,
        ;
    }
}

/// A number in base ten.
pub open spec fn decimal(v: nat) -> Seq<u8> {
    digits(v, 10)
}

/// A number in base sixteen, after `0x`.
pub open spec fn hex(v: nat) -> Seq<u8> {
    seq![0x30u8, 0x78u8] + digits(v, 16)
}

/// Text with as many copies of `fill` in front as it takes to reach `width`.
pub open spec fn padded(s: Seq<u8>, width: int, fill: u8) -> Seq<u8> {
    if s.len() >= width {
        s
    } else {
        Seq::new((width - s.len()) as nat, |i: int| fill) + s
    }
}

/// The number that digits stand for.
pub open spec fn value(s: Seq<u8>, base: nat) -> nat
    decreases s.len(),
{
    if s.len() == 0 {
        0
    } else {
        let d: int = if s.last() < 0x60 {
            s.last() - 0x30
        } else {
            s.last() - 0x57
        };
        (value(s.drop_last(), base) * base + d) as nat
    }
}

/// Written digits stand for the number that was written.
pub proof fn written_numbers_read_back(v: nat, base: nat)
    requires
        2 <= base <= 16,
    ensures
        value(digits(v, base), base) == v,
    decreases v,
{
    if v < base {
        let s = digits(v, base);
        assert(s =~= seq![digit(v as int)]);
        reveal_with_fuel(value, 2);
        assert(s.drop_last() =~= Seq::empty());
        assert(0 * base == 0);
    } else {
        let s = digits(v, base);
        assert(v / base < v) by (nonlinear_arith)
            requires
                v >= base,
                base >= 2,
        ;
        written_numbers_read_back(v / base, base);
        assert(s.drop_last() =~= digits(v / base, base));
        assert(v == v / base * base + v % base) by (nonlinear_arith)
            requires
                base >= 2,
        ;
    }
}

proof fn lemma_digits_room(v: nat, base: nat, room: nat)
    requires
        base == 10 && v < 0x1_0000_0000_0000_0000 && room == 20 || base == 16 && v
            < 0x1_0000_0000_0000_0000 && room == 16,
    ensures
        1 <= digits(v, base).len() <= room,
{
    reveal_with_fuel(digits, 20);
}

/// The digits of a number, in a buffer from its end.
fn push_digits(out: &mut Vec<u8>, v: u64, base: u64, width: usize, fill: u8)
    requires
        base == 10 || base == 16,
        width <= 20,
    ensures
        final(out)@ == old(out)@ + padded(digits(v as nat, base as nat), width as int, fill),
{
    let mut buf = [0u8; 20];
    let mut at: usize = 20;
    let mut rest: u64 = v;
    let ghost all = digits(v as nat, base as nat);
    proof {
        lemma_digits_room(
            v as nat,
            base as nat,
            if base == 10 {
                20
            } else {
                16
            },
        );
    }
    assert(buf@.subrange(20, 20) =~= Seq::empty());
    assert(all =~= digits(rest as nat, base as nat) + buf@.subrange(20, 20));
    while rest >= base
        invariant
            base == 10 || base == 16,
            0 < at <= 20,
            all.len() <= 20,
            all == digits(rest as nat, base as nat) + buf@.subrange(at as int, 20),
        decreases rest,
    {
        let d: u64 = rest % base;
        let c: u8 = if d < 10 {
            0x30 + d as u8
        } else {
            0x57 + d as u8
        };
        let ghost shown = buf@.subrange(at as int, 20);
        let ghost more = digits((rest / base) as nat, base as nat);
        assert(digits(rest as nat, base as nat) == more.push(c));
        assert(more.len() >= 1);
        assert(shown.len() == 20 - at);
        at -= 1;
        buf[at] = c;
        rest = rest / base;
        assert(buf@.subrange(at as int, 20) =~= seq![c] + shown);
        assert(more.push(c) + shown =~= more + (seq![c] + shown));
    }
    let c: u8 = if rest < 10 {
        0x30 + rest as u8
    } else {
        0x57 + rest as u8
    };
    let ghost shown = buf@.subrange(at as int, 20);
    at -= 1;
    buf[at] = c;
    assert(buf@.subrange(at as int, 20) =~= seq![c] + shown);
    assert(buf@.subrange(at as int, 20) =~= all);
    let len: usize = 20 - at;
    let ghost given = out@;
    let mut k: usize = len;
    while k < width
        invariant
            len <= k,
            len >= width ==> k == len,
            k <= width || k == len,
            out@ == given + Seq::new((k - len) as nat, |i: int| fill),
        decreases width - k,
    {
        out.push(fill);
        k += 1;
        assert(out@ =~= given + Seq::new((k - len) as nat, |i: int| fill));
    }
    let ghost front = out@;
    let mut i: usize = at;
    while i < 20
        invariant
            at <= i <= 20,
            out@ == front + buf@.subrange(at as int, i as int),
        decreases 20 - i,
    {
        out.push(buf[i]);
        i += 1;
        assert(out@ =~= front + buf@.subrange(at as int, i as int));
    }
    assert(out@ =~= given + padded(all, width as int, fill));
}

/// Appends a number in base ten.
pub fn push_decimal(out: &mut Vec<u8>, v: u64)
    ensures
        final(out)@ == old(out)@ + decimal(v as nat),
{
    proof {
        lemma_digits_room(v as nat, 10, 20);
    }
    push_digits(out, v, 10, 0, 0x30);
}

/// Appends a number in base ten, right-aligned in `width` columns.
pub fn push_decimal_right(out: &mut Vec<u8>, v: u64, width: usize)
    requires
        width <= 20,
    ensures
        final(out)@ == old(out)@ + padded(decimal(v as nat), width as int, 0x20),
{
    push_digits(out, v, 10, width, 0x20);
}

/// Appends a number in base sixteen, after `0x`.
pub fn push_hex(out: &mut Vec<u8>, v: u64)
    ensures
        final(out)@ == old(out)@ + hex(v as nat),
{
    proof {
        lemma_digits_room(v as nat, 16, 16);
    }
    let ghost before = out@;
    out.push(0x30);
    out.push(0x78);
    push_digits(out, v, 16, 0, 0x30);
    assert(out@ =~= before + hex(v as nat));
}

/// Appends a number in base sixteen, with leading zeros up to `width` digits.
pub fn push_hex_wide(out: &mut Vec<u8>, v: u64, width: usize)
    requires
        width <= 20,
    ensures
        final(out)@ == old(out)@ + padded(digits(v as nat, 16), width as int, 0x30),
{
    push_digits(out, v, 16, width, 0x30);
}

/// The characters of the digits are `0` to `9` and then `a` to `f`.
pub proof fn digits_are_hexadecimal(d: int)
    ensures
        0 <= d <= 9 ==> digit(d) == 0x30 + d,
        10 <= d <= 15 ==> digit(d) == 0x61 + (d - 10),
{
}

/// A number below the base is one digit, and one more digit makes the base times as much and the digit
/// on top; no number but zero begins with a zero.
pub proof fn numbers_are_written_digit_by_digit(v: nat, d: nat, base: nat)
    requires
        2 <= base <= 16,
        d < base,
    ensures
        digits(d, base) == seq![digit(d as int)],
        v > 0 ==> digits(v * base + d, base) == digits(v, base) + seq![digit(d as int)],
        v > 0 ==> digits(v, base)[0] != 0x30,
        decimal(v) == digits(v, 10),
        hex(v) == seq![0x30u8, 0x78u8] + digits(v, 16),
{
    reveal_with_fuel(digits, 2);
    if v > 0 {
        let n = v * base + d;
        assert(n >= base) by (nonlinear_arith)
            requires
                n == v * base + d,
                v >= 1,
                base >= 2,
        ;
        vstd::arithmetic::div_mod::lemma_fundamental_div_mod_converse(
            n as int,
            base as int,
            v as int,
            d as int,
        );
        assert(v * base == base * v) by (nonlinear_arith);
        assert(digits(v, base).push(digit(d as int)) =~= digits(v, base) + seq![digit(d as int)]);
        lemma_no_leading_zero(v, base);
    }
}

proof fn lemma_no_leading_zero(v: nat, base: nat)
    requires
        2 <= base <= 16,
        v > 0,
    ensures
        digits(v, base).len() > 0,
        digits(v, base)[0] != 0x30,
    decreases v,
{
    if v >= base {
        assert(0 < v / base < v) by (nonlinear_arith)
            requires
                v >= base,
                base >= 2,
        ;
        lemma_no_leading_zero(v / base, base);
    }
}

/// Padding goes in front, as often as it takes, and changes nothing of a text that is long enough.
pub proof fn padding_goes_in_front(s: Seq<u8>, width: int, fill: u8, i: int)
    ensures
        s.len() >= width ==> padded(s, width, fill) == s,
        s.len() < width ==> {
            let p = padded(s, width, fill);
            &&& p.len() == width
            &&& 0 <= i < width - s.len() ==> p[i] == fill
            &&& 0 <= i < s.len() ==> p[width - s.len() + i] == s[i]
        },
{
}

} // verus!

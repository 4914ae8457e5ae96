//! Little-endian fields, comparisons and copies on byte slices.

use vstd::prelude::*;

verus! {

/// The 16-bit little-endian field of `s` at offset `at`.
pub open spec fn le16(s: Seq<u8>, at: int) -> int {
    s[at] + 0x100 * s[at + 1]
}

/// The 32-bit little-endian field of `s` at offset `at`.
pub open spec fn le32(s: Seq<u8>, at: int) -> int {
    le16(s, at) + 0x1_0000 * le16(s, at + 2)
}

/// The 64-bit little-endian field of `s` at offset `at`.
pub open spec fn le64(s: Seq<u8>, at: int) -> int {
    le32(s, at) + 0x1_0000_0000 * le32(s, at + 4)
}

/// The two bytes that hold `v`, least significant first.
pub open spec fn le_bytes2(v: int) -> Seq<u8> {
    seq![(v % 0x100) as u8, (v / 0x100 % 0x100) as u8]
}

/// The four bytes that hold `v`, least significant first.
pub open spec fn le_bytes4(v: int) -> Seq<u8> {
    le_bytes2(v % 0x1_0000) + le_bytes2(v / 0x1_0000)
}

/// The eight bytes that hold `v`, least significant first.
pub open spec fn le_bytes8(v: int) -> Seq<u8> {
    le_bytes4(v % 0x1_0000_0000) + le_bytes4(v / 0x1_0000_0000)
}

/// `s` with the bytes from offset `at` on replaced by those of `t`.
pub open spec fn overwrite<A>(s: Seq<A>, at: int, t: Seq<A>) -> Seq<A> {
    Seq::new(s.len(), |i: int| if at <= i < at + t.len() { t[i - at] } else { s[i] })
}

/// Index of the first occurrence of `b` in `s`, or the length of `s` when
/// there is none.
pub open spec fn first_index(s: Seq<u8>, b: u8) -> int
    decreases s.len(),
{
    if s.len() == 0 {
        0
    } else if s[0] == b {
        0
    } else {
        1 + first_index(s.subrange(1, s.len() as int), b)
    }
}

/// `first_index` is the one index before which `b` does not occur and at which
/// it does (or the length of the sequence).
pub proof fn lemma_first_index(s: Seq<u8>, b: u8, n: int)
    requires
        0 <= n <= s.len(),
        forall|i: int| 0 <= i < n ==> s[i] != b,
        n < s.len() ==> s[n] == b,
    ensures
        first_index(s, b) == n,
    decreases s.len(),
{
    if s.len() > 0 && s[0] != b {
        let rest = s.subrange(1, s.len() as int);
        assert forall|i: int| 0 <= i < n - 1 implies rest[i] != b by {
            assert(rest[i] == s[i + 1]);
        }
        lemma_first_index(rest, b, n - 1);
    }
}

/// What `first_index` returns is in range, marks an occurrence, and nothing
/// before it does.
pub proof fn lemma_first_index_bounds(s: Seq<u8>, b: u8)
    ensures
        0 <= first_index(s, b) <= s.len(),
        first_index(s, b) < s.len() ==> s[first_index(s, b)] == b,
        forall|i: int| 0 <= i < first_index(s, b) ==> s[i] != b,
    decreases s.len(),
{
    if s.len() > 0 && s[0] != b {
        let rest = s.subrange(1, s.len() as int);
        lemma_first_index_bounds(rest, b);
        let n = first_index(rest, b);
        assert(first_index(s, b) == 1 + n);
        assert forall|i: int| 0 <= i < 1 + n implies s[i] != b by {
            if i > 0 {
                assert(rest[i - 1] == s[i]);
            }
        }
    }
}

/// Reading a 16-bit field back from its bytes gives the value.
pub proof fn lemma_le16_round_trip(v: int)
    requires
        0 <= v < 0x1_0000,
    ensures
        le_bytes2(v).len() == 2,
        le16(le_bytes2(v), 0) == v,
{
}

/// Reading a 32-bit field back from its bytes gives the value.
pub proof fn lemma_le32_round_trip(v: int)
    requires
        0 <= v < 0x1_0000_0000,
    ensures
        le_bytes4(v).len() == 4,
        le32(le_bytes4(v), 0) == v,
{
    let lo = v % 0x1_0000;
    let hi = v / 0x1_0000;
    let s = le_bytes4(v);
    assert(s[0] == le_bytes2(lo)[0] && s[1] == le_bytes2(lo)[1]);
    assert(s[2] == le_bytes2(hi)[0] && s[3] == le_bytes2(hi)[1]);
}

/// Reading a 64-bit field back from its bytes gives the value.
pub proof fn lemma_le64_round_trip(v: int)
    requires
        0 <= v < 0x1_0000_0000_0000_0000,
    ensures
        le_bytes8(v).len() == 8,
        le64(le_bytes8(v), 0) == v,
{
    let lo = v % 0x1_0000_0000;
    let hi = v / 0x1_0000_0000;
    lemma_le32_round_trip(lo);
    lemma_le32_round_trip(hi);
    let s = le_bytes8(v);
    assert(forall|i: int| 0 <= i < 4 ==> s[i] == le_bytes4(lo)[i]);
    assert(forall|i: int| 0 <= i < 4 ==> s[i + 4] == #[trigger] le_bytes4(hi)[i]);
    assert(s[4] == le_bytes4(hi)[0] && s[5] == le_bytes4(hi)[1] && s[6] == le_bytes4(hi)[2]
        && s[7] == le_bytes4(hi)[3]);
}

/// A field depends only on the bytes it covers.
pub proof fn lemma_fields_agree(s: Seq<u8>, at: int, t: Seq<u8>)
    requires
        0 <= at,
        at + t.len() <= s.len(),
        forall|i: int| 0 <= i < t.len() ==> s[at + i] == t[i],
    ensures
        t.len() >= 2 ==> le16(s, at) == le16(t, 0),
        t.len() >= 4 ==> le32(s, at) == le32(t, 0),
        t.len() >= 8 ==> le64(s, at) == le64(t, 0),
{
    if t.len() >= 2 {
        assert(s[at + 0] == t[0] && s[at + 1] == t[1]);
    }
    if t.len() >= 4 {
        assert(s[at + 2] == t[2] && s[at + 3] == t[3]);
    }
    if t.len() >= 8 {
        assert(s[at + 4] == t[4] && s[at + 5] == t[5] && s[at + 6] == t[6] && s[at + 7] == t[7]);
    }
}

/// Reads the 16-bit field of `s` at `at`.
pub fn read_u16(s: &[u8], at: usize) -> (v: u16)
    requires
        at + 2 <= s.len(),
    ensures
        v == le16(s@, at as int),
{
    s[at] as u16 + 0x100 * (s[at + 1] as u16)
}

/// Reads the 32-bit field of `s` at `at`.
pub fn read_u32(s: &[u8], at: usize) -> (v: u32)
    requires
        at + 4 <= s.len(),
    ensures
        v == le32(s@, at as int),
{
    read_u16(s, at) as u32 + 0x1_0000 * (read_u16(s, at + 2) as u32)
}

/// Reads the 64-bit field of `s` at `at`.
pub fn read_u64(s: &[u8], at: usize) -> (v: u64)
    requires
        at + 8 <= s.len(),
    ensures
        v == le64(s@, at as int),
{
    read_u32(s, at) as u64 + 0x1_0000_0000 * (read_u32(s, at + 4) as u64)
}

/// Stores `data` in `buf` from offset `at` on.
pub fn put_bytes(buf: &mut [u8], at: usize, data: &[u8])
    requires
        at + data.len() <= old(buf).len(),
    ensures
        final(buf)@ == overwrite(old(buf)@, at as int, data@),
{
    let n: usize = data.len();
    let mut i: usize = 0;
    while i < n
        invariant
            i <= n,
            n == data@.len(),
            at + n <= buf.len(),
            buf@.len() == old(buf)@.len(),
            forall|j: int|
                0 <= j < buf@.len() ==> buf@[j] == (if at <= j < at + i {
                    data@[j - at]
                } else {
                    old(buf)@[j]
                }),
        decreases n - i,
    {
        let b: u8 = data[i];
        buf[at + i] = b;
        i += 1;
    }
    assert(buf@ =~= overwrite(old(buf)@, at as int, data@));
}

/// Stores the 16-bit value `v` in `buf` at `at`.
pub fn put_u16(buf: &mut [u8], at: usize, v: u16)
    requires
        at + 2 <= old(buf).len(),
    ensures
        final(buf)@ == overwrite(old(buf)@, at as int, le_bytes2(v as int)),
{
    buf[at] = (v % 0x100) as u8;
    buf[at + 1] = (v / 0x100) as u8;
    assert(buf@ =~= overwrite(old(buf)@, at as int, le_bytes2(v as int)));
}

/// Stores the 32-bit value `v` in `buf` at `at`.
pub fn put_u32(buf: &mut [u8], at: usize, v: u32)
    requires
        at + 4 <= old(buf).len(),
    ensures
        final(buf)@ == overwrite(old(buf)@, at as int, le_bytes4(v as int)),
{
    put_u16(buf, at, (v % 0x1_0000) as u16);
    put_u16(buf, at + 2, (v / 0x1_0000) as u16);
    assert(buf@ =~= overwrite(old(buf)@, at as int, le_bytes4(v as int)));
}

/// Stores the 64-bit value `v` in `buf` at `at`.
pub fn put_u64(buf: &mut [u8], at: usize, v: u64)
    requires
        at + 8 <= old(buf).len(),
    ensures
        final(buf)@ == overwrite(old(buf)@, at as int, le_bytes8(v as int)),
{
    put_u32(buf, at, (v % 0x1_0000_0000) as u32);
    put_u32(buf, at + 4, (v / 0x1_0000_0000) as u32);
    assert(buf@ =~= overwrite(old(buf)@, at as int, le_bytes8(v as int)));
}

/// Whether two byte strings are the same.
pub fn bytes_equal(a: &[u8], b: &[u8]) -> (same: bool)
    ensures
        same == (a@ == b@),
{
    if a.len() != b.len() {
        return false;
    }
    let mut i: usize = 0;
    while i < a.len()
        invariant
            i <= a@.len(),
            a@.len() == b@.len(),
            forall|j: int| 0 <= j < i ==> a@[j] == b@[j],
        decreases a@.len() - i,
    {
        if a[i] != b[i] {
            return false;
        }
        i += 1;
    }
    assert(a@ =~= b@);
    true
}

/// Index of the first `b` in `s`, or the length of `s`.
pub fn find_byte(s: &[u8], b: u8) -> (n: usize)
    ensures
        n == first_index(s@, b),
        n <= s@.len(),
{
    let mut i: usize = 0;
    while i < s.len()
        invariant
            i <= s@.len(),
            forall|j: int| 0 <= j < i ==> s@[j] != b,
        decreases s@.len() - i,
    {
        if s[i] == b {
            proof {
                lemma_first_index(s@, b, i as int);
            }
            return i;
        }
        i += 1;
    }
    proof {
        lemma_first_index(s@, b, i as int);
    }
    i
}

/// Appends bytes.
pub fn append(out: &mut Vec<u8>, data: &[u8])
    ensures
        final(out)@ == old(out)@ + data@,
{
    let mut i: usize = 0;
    while i < data.len()
        invariant
            i <= data@.len(),
            out@ == old(out)@ + data@.subrange(0, i as int),
        decreases data@.len() - i,
    {
        out.push(data[i]);
        i += 1;
        assert(out@ =~= old(out)@ + data@.subrange(0, i as int));
    }
    assert(data@.subrange(0, i as int) =~= data@);
}

/// The smaller of two lengths.
pub fn min_len(a: usize, b: usize) -> (m: usize)
    ensures
        m == if a <= b { a } else { b },
{
    if a <= b {
        a
    } else {
        b
    }
}

/// A field is the sum of its bytes, each 256 times as heavy as the one before it.
pub proof fn fields_are_sums_of_bytes(s: Seq<u8>, at: int)
    ensures
        le16(s, at) == s[at] + 0x100 * s[at + 1],
        le32(s, at) == s[at] + 0x100 * s[at + 1] + 0x1_0000 * s[at + 2] + 0x100_0000 * s[at + 3],
        le64(s, at) == s[at] + 0x100 * s[at + 1] + 0x1_0000 * s[at + 2] + 0x100_0000 * s[at + 3]
            + 0x1_0000_0000 * s[at + 4] + 0x100_0000_0000 * s[at + 5] + 0x1_0000_0000_0000 * s[at
            + 6] + 0x100_0000_0000_0000 * s[at + 7],
{
}

/// The bytes of a value are its digits to base 256, the lowest first.
pub proof fn values_are_cut_into_bytes(v: int)
    ensures
        0 <= v < 0x1_0000 ==> {
            let b = le_bytes2(v);
            b.len() == 2 && v == b[0] + 0x100 * b[1]
        },
        0 <= v < 0x1_0000_0000 ==> {
            let b = le_bytes4(v);
            b.len() == 4 && v == b[0] + 0x100 * b[1] + 0x1_0000 * b[2] + 0x100_0000 * b[3]
        },
        0 <= v < 0x1_0000_0000_0000_0000 ==> {
            let b = le_bytes8(v);
            b.len() == 8 && v == b[0] + 0x100 * b[1] + 0x1_0000 * b[2] + 0x100_0000 * b[3]
                + 0x1_0000_0000 * b[4] + 0x100_0000_0000 * b[5] + 0x1_0000_0000_0000 * b[6]
                + 0x100_0000_0000_0000 * b[7]
        },
{
    if 0 <= v < 0x1_0000_0000 {
        lemma_le32_round_trip(v);
        fields_are_sums_of_bytes(le_bytes4(v), 0);
    }
    if 0 <= v < 0x1_0000_0000_0000_0000 {
        lemma_le64_round_trip(v);
        fields_are_sums_of_bytes(le_bytes8(v), 0);
    }
}

/// Writing over a sequence puts the new items where they belong and leaves the others.
pub proof fn overwriting_keeps_the_rest<A>(s: Seq<A>, at: int, t: Seq<A>, i: int)
    requires
        0 <= at,
        at + t.len() <= s.len(),
        0 <= i < s.len(),
    ensures
        overwrite(s, at, t).len() == s.len(),
        i < at || i >= at + t.len() ==> overwrite(s, at, t)[i] == s[i],
        at <= i < at + t.len() ==> overwrite(s, at, t)[i] == t[i - at],
{
}

} // verus!

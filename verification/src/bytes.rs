//! Little-endian integers in byte sequences, and ASCII case.

use vstd::prelude::*;

verus! {

/// Whether `s` has `n` bytes from `at` on.
pub open spec fn in_bounds(s: Seq<u8>, at: int, n: int) -> bool {
    0 <= at && at + n <= s.len()
}

/// The 16-bit little-endian integer at `at`.
pub open spec fn u16_at(s: Seq<u8>, at: int) -> u16 {
    (s[at] + 0x100 * s[at + 1]) as u16
}

/// The 32-bit little-endian integer at `at`.
pub open spec fn u32_at(s: Seq<u8>, at: int) -> u32 {
    (s[at] + 0x100 * s[at + 1] + 0x1_0000 * s[at + 2] + 0x100_0000 * s[at + 3]) as u32
}

/// The two's-complement reading of a 32-bit pattern.
pub open spec fn as_signed(v: u32) -> i32 {
    if v < 0x8000_0000 {
        v as i32
    } else {
        (v - 0x1_0000_0000) as i32
    }
}

/// The 32-bit pattern of a signed integer.
pub open spec fn as_unsigned(v: i32) -> u32 {
    if v >= 0 {
        v as u32
    } else {
        (v + 0x1_0000_0000) as u32
    }
}

/// The two little-endian bytes of `v`.
pub open spec fn le16(v: u16) -> Seq<u8> {
    seq![(v % 0x100) as u8, (v / 0x100) as u8]
}

/// The four little-endian bytes of `v`.
pub open spec fn le32(v: u32) -> Seq<u8> {
    seq![
        (v % 0x100) as u8,
        (v / 0x100 % 0x100) as u8,
        (v / 0x1_0000 % 0x100) as u8,
        (v / 0x100_0000) as u8,
    ]
}

/// Reading back what was written gives the integer.
pub proof fn lemma_read_back(v: u32, w: u16)
    ensures
        u32_at(le32(v), 0) == v,
        u16_at(le16(w), 0) == w,
        as_unsigned(as_signed(v)) == v,
{
    assert(v % 0x100 + 0x100 * (v / 0x100 % 0x100) + 0x1_0000 * (v / 0x1_0000 % 0x100) + 0x100_0000
        * (v / 0x100_0000) == v) by (bit_vector);
}

/// Writing what was read gives the bytes back.
pub proof fn lemma_write_back(s: Seq<u8>)
    requires
        s.len() == 4,
    ensures
        le32(u32_at(s, 0)) == s,
{
    let (a, b, c, d) = (s[0] as u32, s[1] as u32, s[2] as u32, s[3] as u32);
    let r = (a + 0x100 * b + 0x1_0000 * c + 0x100_0000 * d) as u32;
    assert(r % 0x100 == a && r / 0x100 % 0x100 == b && r / 0x1_0000 % 0x100 == c && r / 0x100_0000
        == d) by (bit_vector)
        requires
            a < 0x100,
            b < 0x100,
            c < 0x100,
            d < 0x100,
            r == (a + 0x100 * b + 0x1_0000 * c + 0x100_0000 * d) as u32,
    ;
    assert(le32(r) =~= s);
}

/// Reads the 16-bit little-endian integer at `at`, if it lies within `bytes`.
pub fn read_u16(bytes: &[u8], at: usize) -> (res: Option<u16>)
    ensures
        match res {
            Some(v) => in_bounds(bytes@, at as int, 2) && v == u16_at(bytes@, at as int),
            None => !in_bounds(bytes@, at as int, 2),
        },
{
    if at > bytes.len() || bytes.len() - at < 2 {
        return None;
    }
    Some(bytes[at] as u16 + 0x100 * (bytes[at + 1] as u16))
}

/// Reads the 32-bit little-endian integer at `at`, if it lies within `bytes`.
pub fn read_u32(bytes: &[u8], at: usize) -> (res: Option<u32>)
    ensures
        match res {
            Some(v) => in_bounds(bytes@, at as int, 4) && v == u32_at(bytes@, at as int),
            None => !in_bounds(bytes@, at as int, 4),
        },
{
    if at > bytes.len() || bytes.len() - at < 4 {
        return None;
    }
    Some(
        bytes[at] as u32 + 0x100 * (bytes[at + 1] as u32) + 0x1_0000 * (bytes[at + 2] as u32)
            + 0x100_0000 * (bytes[at + 3] as u32),
    )
}

/// Reinterprets a 32-bit pattern as a signed integer.
pub fn cast_signed(v: u32) -> (res: i32)
    ensures
        res == as_signed(v),
{
    if v < 0x8000_0000 {
        v as i32
    } else {
        (v as i64 - 0x1_0000_0000) as i32
    }
}

/// Reinterprets a signed integer as its 32-bit pattern.
pub fn cast_unsigned(v: i32) -> (res: u32)
    ensures
        res == as_unsigned(v),
{
    if v >= 0 {
        v as u32
    } else {
        (v as i64 + 0x1_0000_0000) as u32
    }
}

/// `s` with `part` written over what stood from `at` on.
pub open spec fn spliced(s: Seq<u8>, at: int, part: Seq<u8>) -> Seq<u8> {
    s.take(at) + part + s.skip(at + part.len())
}

/// Overwrites the four bytes at `at` with `v`, little-endian.
pub fn write_u32(out: &mut Vec<u8>, at: usize, v: u32)
    requires
        in_bounds(old(out)@, at as int, 4),
    ensures
        final(out)@ == spliced(old(out)@, at as int, le32(v)),
{
    assert(out.len() >= at + 4);
    out.set(at, (v % 0x100) as u8);
    out.set(at + 1, (v / 0x100 % 0x100) as u8);
    out.set(at + 2, (v / 0x1_0000 % 0x100) as u8);
    out.set(at + 3, (v / 0x100_0000) as u8);
    assert(out@ =~= spliced(old(out)@, at as int, le32(v)));
}

/// Appends the two little-endian bytes of `v`.
pub fn push_u16(out: &mut Vec<u8>, v: u16)
    ensures
        final(out)@ == old(out)@ + le16(v),
{
    out.push((v % 0x100) as u8);
    out.push((v / 0x100) as u8);
    assert(out@ =~= old(out)@ + le16(v));
}

/// Appends the four little-endian bytes of `v`.
pub fn push_u32(out: &mut Vec<u8>, v: u32)
    ensures
        final(out)@ == old(out)@ + le32(v),
{
    out.push((v % 0x100) as u8);
    out.push((v / 0x100 % 0x100) as u8);
    out.push((v / 0x1_0000 % 0x100) as u8);
    out.push((v / 0x100_0000) as u8);
    assert(out@ =~= old(out)@ + le32(v));
}

/// Appends all of `src`.
pub fn push_all(out: &mut Vec<u8>, src: &[u8])
    ensures
        final(out)@ == old(out)@ + src@,
{
    let mut i: usize = 0;
    while i < src.len()
        invariant
            i <= src.len(),
            out@ == old(out)@ + src@.take(i as int),
        decreases src.len() - i,
    {
        out.push(src[i]);
        assert(src@.take(i + 1) =~= src@.take(i as int).push(src@[i as int]));
        i += 1;
    }
    assert(src@.take(i as int) =~= src@);
}

/// Copies `src` into a vector.
pub fn to_vec(src: &[u8]) -> (out: Vec<u8>)
    ensures
        out@ == src@,
{
    let mut out: Vec<u8> = Vec::new();
    push_all(&mut out, src);
    assert(out@ =~= src@);
    out
}

/// Returns whether two byte sequences are equal.
pub fn bytes_equal(a: &[u8], b: &[u8]) -> (res: bool)
    ensures
        res == (a@ == b@),
{
    if a.len() != b.len() {
        return false;
    }
    let mut i: usize = 0;
    while i < a.len()
        invariant
            i <= a.len(),
            a.len() == b.len(),
            forall|k: int| 0 <= k < i ==> a@[k] == b@[k],
        decreases a.len() - i,
    {
        if a[i] != b[i] {
            return false;
        }
        i += 1;
    }
    assert(a@ =~= b@);
    true
}

/// The ASCII lower case of a byte.
pub open spec fn lower(b: u8) -> u8 {
    if 65 <= b <= 90 {
        (b + 32) as u8
    } else {
        b
    }
}

/// Equality up to ASCII case.
pub open spec fn same_ignoring_case(a: Seq<u8>, b: Seq<u8>) -> bool {
    a.len() == b.len() && forall|i: int| 0 <= i < a.len() ==> lower(#[trigger] a[i]) == lower(b[i])
}

/// Returns the ASCII lower case of a byte.
pub fn to_lower(b: u8) -> (res: u8)
    ensures
        res == lower(b),
{
    if b >= 65 && b <= 90 {
        b + 32
    } else {
        b
    }
}

/// Returns whether two byte sequences are equal up to ASCII case.
pub fn eq_ignore_case(a: &[u8], b: &[u8]) -> (res: bool)
    ensures
        res == same_ignoring_case(a@, b@),
{
    if a.len() != b.len() {
        return false;
    }
    let mut i: usize = 0;
    while i < a.len()
        invariant
            i <= a.len(),
            a.len() == b.len(),
            forall|k: int| 0 <= k < i ==> lower(#[trigger] a@[k]) == lower(b@[k]),
        decreases a.len() - i,
    {
        if to_lower(a[i]) != to_lower(b[i]) {
            assert(lower(a@[i as int]) != lower(b@[i as int]));
            return false;
        }
        i += 1;
    }
    true
}

/// An integer is the sum of its bytes, each 256 times the weight of the one before it.
pub proof fn lemma_little_endian(s: Seq<u8>, at: int)
    requires
        in_bounds(s, at, 4),
    ensures
        u16_at(s, at) == s[at] + 256 * s[at + 1],
        u32_at(s, at) == u16_at(s, at) + 65536 * u16_at(s, at + 2),
        u32_at(s, at) == s[at] + 256 * (s[at + 1] + 256 * (s[at + 2] + 256 * s[at + 3])),
{
}

/// Reading a pattern as a signed integer keeps it modulo 2^32, and both readings undo each
/// other.
pub proof fn lemma_signed(v: u32, n: i32)
    ensures
        as_signed(v) == v || as_signed(v) == v - 0x1_0000_0000,
        as_unsigned(n) == n || as_unsigned(n) == n + 0x1_0000_0000,
        as_signed(as_unsigned(n)) == n,
        as_unsigned(as_signed(v)) == v,
{
}

/// Writing a part over bytes changes just those bytes.
pub proof fn lemma_spliced(s: Seq<u8>, at: int, part: Seq<u8>, i: int)
    requires
        in_bounds(s, at, part.len() as int),
        0 <= i < s.len(),
    ensures
        spliced(s, at, part).len() == s.len(),
        spliced(s, at, part)[i] == (if at <= i < at + part.len() {
            part[i - at]
        } else {
            s[i]
        }),
        spliced(s, at, part).subrange(at, at + part.len()) == part,
{
    assert(spliced(s, at, part).subrange(at, at + part.len()) =~= part);
}

/// Only the 26 capital letters have another lower case, 32 behind them; and no byte that
/// is one differs from its own.
pub proof fn lemma_lower(b: u8)
    ensures
        0x41 <= b <= 0x5a ==> lower(b) == b + 0x20,
        lower(b) != b ==> 0x41 <= b <= 0x5a,
        lower(lower(b)) == lower(b),
{
}

/// Equality up to case is an equality, under which changing the case of a text changes
/// nothing.
pub proof fn lemma_same_ignoring_case(a: Seq<u8>, b: Seq<u8>, c: Seq<u8>)
    ensures
        same_ignoring_case(a, a),
        same_ignoring_case(a, b) ==> same_ignoring_case(b, a) && a.len() == b.len(),
        same_ignoring_case(a, b) && same_ignoring_case(b, c) ==> same_ignoring_case(a, c),
        same_ignoring_case(a, a.map_values(|x: u8| lower(x))),
        same_ignoring_case(a, b) ==> forall|i: int|
            0 <= i < a.len() && !(0x41 <= a[i] <= 0x5a) && !(0x41 <= #[trigger] b[i] <= 0x5a)
                ==> a[i] == b[i],
{
    if same_ignoring_case(a, b) && same_ignoring_case(b, c) {
        assert forall|i: int| 0 <= i < a.len() implies lower(#[trigger] a[i]) == lower(c[i]) by {
            assert(lower(b[i]) == lower(c[i]));
        }
    }
    if same_ignoring_case(a, b) {
        assert forall|i: int| 0 <= i < b.len() implies lower(#[trigger] b[i]) == lower(a[i]) by {
            assert(lower(a[i]) == lower(b[i]));
        }
        assert forall|i: int|
            0 <= i < a.len() && !(0x41 <= a[i] <= 0x5a) && !(0x41 <= #[trigger] b[i]
                <= 0x5a) implies a[i] == b[i] by {
            assert(lower(a[i]) == lower(b[i]));
        }
    }
}

/// Bytes are in bounds when the first and the last of them are.
pub proof fn lemma_in_bounds(s: Seq<u8>, at: int, n: int)
    requires
        n > 0,
    ensures
        in_bounds(s, at, n) <==> 0 <= at && at + n - 1 < s.len(),
{
}

} // verus!

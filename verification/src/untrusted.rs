//! Reads from memory whose validity isn't established by code we control.
//!
//! A guarded read copies as many bytes as it can reach. What is made of a short read
//! is decided here.

use vstd::prelude::*;

verus! {

/// An element type for which the all-zero bit pattern is a valid value.
pub trait Zeroable: Copy {
    /// The value whose bits are all zero.
    spec fn zero_value() -> Self;

    fn zero() -> (z: Self)
        ensures
            z == Self::zero_value(),
    ;

    fn same(&self, other: &Self) -> (eq: bool)
        ensures
            eq == (*self == *other),
    ;
}

impl Zeroable for u8 {
    open spec fn zero_value() -> u8 {
        0
    }

    fn zero() -> (z: u8) {
        0
    }

    fn same(&self, other: &u8) -> (eq: bool) {
        *self == *other
    }
}

impl Zeroable for u16 {
    open spec fn zero_value() -> u16 {
        0
    }

    fn zero() -> (z: u16) {
        0
    }

    fn same(&self, other: &u16) -> (eq: bool) {
        *self == *other
    }
}

impl Zeroable for u32 {
    open spec fn zero_value() -> u32 {
        0
    }

    fn zero() -> (z: u32) {
        0
    }

    fn same(&self, other: &u32) -> (eq: bool) {
        *self == *other
    }
}

/// What a buffer holds once a read of `bytes` bytes into it has been settled: a
/// partially read element is overwritten with zero.
pub open spec fn settled<T: Zeroable>(buf: Seq<T>, bytes: int, size: int) -> Seq<T> {
    if bytes % size != 0 {
        buf.update(bytes / size, T::zero_value())
    } else {
        buf
    }
}

/// Settles a guarded read into `buf` that copied `bytes` bytes, with elements of `size`
/// bytes. Returns the number of complete elements; a partially read one at the end is
/// zeroed and not counted.
pub fn safe_read<T: Zeroable>(buf: &mut Vec<T>, bytes: usize, size: usize) -> (n: usize)
    requires
        size > 0,
        bytes <= old(buf)@.len() * size,
    ensures
        n == bytes as int / size as int,
        n <= old(buf)@.len(),
        final(buf)@ == settled(old(buf)@, bytes as int, size as int),
{
    let n: usize = bytes / size;
    let len: usize = buf.len();
    let rest: usize = bytes % size;
    proof {
        vstd::arithmetic::div_mod::lemma_fundamental_div_mod(bytes as int, size as int);
        vstd::arithmetic::div_mod::lemma_mod_bound(bytes as int, size as int);
        assert(n <= len && (rest != 0 ==> n < len)) by (nonlinear_arith)
            requires
                bytes == size * n + rest,
                bytes <= len * size,
                size > 0,
                rest >= 0,
        ;
    }
    if rest != 0 && n < len {
        buf.set(n, T::zero());
    }
    n
}

/// The elements of `read` in front of the first `terminator`, or all of them.
pub open spec fn until<T>(read: Seq<T>, terminator: T) -> Seq<T>
    decreases read.len(),
{
    if read.len() == 0 || read[0] == terminator {
        seq![]
    } else {
        seq![read[0]] + until(read.skip(1), terminator)
    }
}

/// What stands in front of the first terminator holds none, is as long as it can be,
/// and is a prefix of what was read.
pub proof fn lemma_until<T>(read: Seq<T>, terminator: T)
    ensures
        until(read, terminator).len() <= read.len(),
        until(read, terminator) == read.take(until(read, terminator).len() as int),
        !until(read, terminator).contains(terminator),
        until(read, terminator).len() < read.len() ==> read[until(read, terminator).len() as int]
            == terminator,
    decreases read.len(),
{
    let head = until(read, terminator);
    if read.len() > 0 && read[0] != terminator {
        lemma_until(read.skip(1), terminator);
        let tail = until(read.skip(1), terminator);
        assert(head =~= read.take(head.len() as int));
        assert forall|i: int| 0 <= i < head.len() implies head[i] != terminator by {
            if i > 0 {
                assert(head[i] == tail[i - 1]);
                assert(tail.contains(tail[i - 1]));
            }
        }
    }
}

/// The first `n` elements of `buf` up to, but excluding, the first `terminator`.
pub fn safe_read_until<T: Zeroable>(buf: &[T], n: usize, terminator: T) -> (read: Vec<T>)
    requires
        n <= buf@.len(),
    ensures
        read@ == until(buf@.take(n as int), terminator),
{
    let mut read: Vec<T> = Vec::new();
    let mut i: usize = 0;
    let ghost whole = buf@.take(n as int);
    assert(read@ + until(whole.skip(0), terminator) =~= until(whole, terminator)) by {
        assert(whole.skip(0) =~= whole);
    }
    while i < n && !buf[i].same(&terminator)
        invariant
            i <= n <= buf@.len(),
            whole == buf@.take(n as int),
            read@ + until(whole.skip(i as int), terminator) == until(whole, terminator),
        decreases n - i,
    {
        proof {
            assert(whole.skip(i as int)[0] == buf@[i as int]);
            assert(whole.skip(i as int).skip(1) =~= whole.skip(i + 1));
        }
        read.push(buf[i]);
        i += 1;
        assert(read@ + until(whole.skip(i as int), terminator) =~= until(whole, terminator));
    }
    assert(until(whole.skip(i as int), terminator) =~= seq![]);
    assert(read@ =~= until(whole, terminator));
    read
}

/// The first `n` elements of `buf` up to the first `terminator`, or `None` when there is no
/// terminator among them.
pub fn safe_read_terminated<T: Zeroable>(buf: &[T], n: usize, terminator: T) -> (read: Option<
    Vec<T>,
>)
    requires
        n <= buf@.len(),
    ensures
        match read {
            Some(read) => buf@.take(n as int).contains(terminator) && read@ == until(
                buf@.take(n as int),
                terminator,
            ),
            None => !buf@.take(n as int).contains(terminator),
        },
{
    let read = safe_read_until(buf, n, terminator);
    proof {
        lemma_until(buf@.take(n as int), terminator);
    }
    if read.len() < n {
        assert(buf@.take(n as int)[read@.len() as int] == terminator);
        Some(read)
    } else {
        assert(read@ =~= buf@.take(n as int));
        None
    }
}

/// Whether a read of `n` elements shows exactly `expected` followed by a zero. A short
/// read fails to match.
pub fn matches_nul_terminated<T: Zeroable>(buf: &[T], n: usize, expected: &[T]) -> (res: bool)
    requires
        n <= buf@.len(),
        expected.len() < usize::MAX,
    ensures
        res == (n == expected@.len() + 1 && buf@.take(n as int) == expected@.push(T::zero_value())),
{
    if n != expected.len() + 1 {
        return false;
    }
    let mut i: usize = 0;
    while i < expected.len()
        invariant
            i <= expected@.len(),
            n == expected@.len() + 1,
            n <= buf@.len(),
            forall|k: int| 0 <= k < i ==> buf@[k] == expected@[k],
        decreases expected.len() - i,
    {
        if !buf[i].same(&expected[i]) {
            proof {
                assert(buf@.take(n as int)[i as int] != expected@.push(T::zero_value())[i as int]);
            }
            return false;
        }
        i += 1;
    }
    let res = buf[i].same(&T::zero());
    proof {
        let want = expected@.push(T::zero_value());
        if res {
            assert(buf@.take(n as int) =~= want);
        } else {
            assert(buf@.take(n as int)[i as int] != want[i as int]);
        }
    }
    res
}

/// Settling a read zeroes at most one element: the one that was read in part. Whole elements
/// and those that were not reached are as the read left them.
pub proof fn lemma_settled<T: Zeroable>(buf: Seq<T>, bytes: int, size: int, i: int)
    requires
        size > 0,
        0 <= bytes <= buf.len() * size,
        0 <= i < buf.len(),
    ensures
        settled(buf, bytes, size).len() == buf.len(),
        i * size < bytes < (i + 1) * size ==> settled(buf, bytes, size)[i] == T::zero_value(),
        (i + 1) * size <= bytes || bytes <= i * size ==> settled(buf, bytes, size)[i] == buf[i],
{
    vstd::arithmetic::div_mod::lemma_fundamental_div_mod(bytes, size);
    vstd::arithmetic::div_mod::lemma_mod_bound(bytes, size);
    let (q, r) = (bytes / size, bytes % size);
    let n = buf.len() as int;
    assert(r != 0 ==> 0 <= q < n) by (nonlinear_arith)
        requires
            bytes == size * q + r,
            0 <= r < size,
            0 <= bytes <= n * size,
    ;
    assert(i * size < bytes < (i + 1) * size ==> q == i && r != 0) by (nonlinear_arith)
        requires
            bytes == size * q + r,
            0 <= r < size,
    ;
    assert(((i + 1) * size <= bytes || bytes <= i * size) && q == i ==> r == 0) by (nonlinear_arith)
        requires
            bytes == size * q + r,
            0 <= r < size,
    ;
}

/// What stands before a terminator is read back, whatever stands behind it.
pub proof fn lemma_until_reads_back<T>(text: Seq<T>, terminator: T, rest: Seq<T>)
    requires
        !text.contains(terminator),
    ensures
        until(text.push(terminator) + rest, terminator) == text,
        until(text, terminator) == text,
{
    let read = text.push(terminator) + rest;
    let head = until(read, terminator);
    lemma_until(read, terminator);
    assert(read[text.len() as int] == terminator);
    if head.len() > text.len() {
        assert(head[text.len() as int] == terminator);
        assert(head.contains(terminator));
    }
    if head.len() < text.len() {
        assert(text[head.len() as int] == terminator);
        assert(text.contains(terminator));
    }
    assert(head =~= text);
    lemma_until(text, terminator);
    let short = until(text, terminator);
    if short.len() < text.len() {
        assert(text.contains(text[short.len() as int]));
    }
    assert(short =~= text);
}

/// Nothing of an element of any width is left when it is zeroed.
pub proof fn lemma_zero_values()
    ensures
        u8::zero_value() == 0u8,
        u16::zero_value() == 0u16,
        u32::zero_value() == 0u32,
{
}

} // verus!

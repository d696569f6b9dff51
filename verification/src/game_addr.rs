//! Typed handles for fixed game-memory addresses.
//!
//! A [`GameAddr`] pairs a constant address with the layout that stands there. Reads and
//! writes go to an image of the game's memory.

use crate::bytes;
use crate::bytes::{cast_signed, read_u32, write_u32};
use crate::patches::HostImage;
use std::marker::PhantomData;
use vstd::prelude::*;

verus! {

/// A handle for the value of layout `T` at a fixed address.
pub struct GameAddr<T> {
    addr: u32,
    _t: PhantomData<T>,
}

/// Whether `n` bytes at `addr` lie within an image of `len` bytes at `base`.
pub open spec fn in_image(addr: u32, base: u32, len: int, n: int) -> bool {
    base <= addr && addr - base + n <= len
}

impl<T> GameAddr<T> {
    pub closed spec fn addr(&self) -> u32 {
        self.addr
    }

    pub fn new(addr: u32) -> (handle: GameAddr<T>)
        ensures
            handle.addr() == addr,
    {
        GameAddr { addr, _t: PhantomData }
    }

    /// The address.
    pub fn get(&self) -> (addr: u32)
        ensures
            addr == self.addr(),
    {
        self.addr
    }
}

impl GameAddr<u32> {
    /// The value in `image`, where it holds the address.
    pub fn read(&self, image: &HostImage) -> (res: Option<u32>)
        ensures
            match res {
                Some(v) => in_image(self.addr(), image.base, image.bytes@.len() as int, 4) && v
                    == bytes::u32_at(image.bytes@, self.addr() - image.base),
                None => !in_image(self.addr(), image.base, image.bytes@.len() as int, 4),
            },
    {
        if self.addr < image.base {
            return None;
        }
        read_u32(image.bytes.as_slice(), (self.addr - image.base) as usize)
    }

    /// Writes the value in `image`, where it holds the address. Returns whether it does.
    pub fn write(&self, image: &mut HostImage, v: u32) -> (ok: bool)
        ensures
            ok == in_image(self.addr(), old(image).base, old(image).bytes@.len() as int, 4),
            final(image).base == old(image).base,
            final(image).bytes@ == (if ok {
                bytes::spliced(
                    old(image).bytes@,
                    self.addr() - old(image).base,
                    bytes::le32(v),
                )
            } else {
                old(image).bytes@
            }),
    {
        if self.addr < image.base {
            return false;
        }
        let at: usize = (self.addr - image.base) as usize;
        if at > image.bytes.len() || image.bytes.len() - at < 4 {
            return false;
        }
        write_u32(&mut image.bytes, at, v);
        true
    }
}

impl GameAddr<i32> {
    /// The value in `image`, where it holds the address.
    pub fn read_signed(&self, image: &HostImage) -> (res: Option<i32>)
        ensures
            match res {
                Some(v) => in_image(self.addr(), image.base, image.bytes@.len() as int, 4) && v
                    == bytes::as_signed(bytes::u32_at(image.bytes@, self.addr() - image.base)),
                None => !in_image(self.addr(), image.base, image.bytes@.len() as int, 4),
            },
    {
        if self.addr < image.base {
            return None;
        }
        match read_u32(image.bytes.as_slice(), (self.addr - image.base) as usize) {
            Some(v) => Some(cast_signed(v)),
            None => None,
        }
    }
}

/// A read at an address gives back what was written there.
pub proof fn lemma_read_after_write(image: Seq<u8>, at: int, v: u32)
    requires
        bytes::in_bounds(image, at, 4),
    ensures
        bytes::u32_at(bytes::spliced(image, at, bytes::le32(v)), at) == v,
{
    let after = bytes::spliced(image, at, bytes::le32(v));
    assert(after.subrange(at, at + 4) =~= bytes::le32(v));
    assert(bytes::u32_at(after, at) == bytes::u32_at(after.subrange(at, at + 4), 0));
    bytes::lemma_read_back(v, 0);
}

/// Bytes are in an image when the first and the last of them are.
pub proof fn lemma_in_image(addr: u32, base: u32, len: int, n: int)
    requires
        n > 0,
    ensures
        in_image(addr, base, len, n) <==> base <= addr && addr + n - 1 < base + len,
{
}

} // verus!

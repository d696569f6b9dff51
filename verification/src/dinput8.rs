//! The `dinput8.dll` proxy: where the system's own library is, and which interfaces are
//! handed to the registered callback.

use crate::d3d;
use crate::d3d::{is_ok, HResult};
use crate::once::FirstWins;
use vstd::prelude::*;

verus! {

/// What the proxy returns when the system's library cannot be resolved.
pub const E_FAIL: HResult = -0x7fff_bffb;

/// The room for a path, with its terminator.
pub const MAX_PATH: usize = 260;

/// The library's file name in UTF-16, behind a separator and with its terminator.
pub open spec fn dll_suffix() -> Seq<u16> {
    seq![
        0x5cu16, 0x64u16, 0x69u16, 0x6eu16, 0x70u16, 0x75u16, 0x74u16, 0x38u16, 0x2eu16, 0x64u16,
        0x6cu16, 0x6cu16, 0u16,
    ]
}

/// The full path of the system's library, from the `len` units of the system directory in
/// `dir`. The full path keeps the bare name from resolving back to the proxy. `None` when
/// the directory is unknown or the path would not fit.
pub fn system_dinput8_path(dir: &Vec<u16>, len: u32) -> (path: Option<Vec<u16>>)
    requires
        len <= MAX_PATH ==> len <= dir@.len(),
    ensures
        match path {
            Some(path) => {
                &&& 0 < len
                &&& len + 13 <= MAX_PATH
                &&& path@ == dir@.take(len as int) + dll_suffix()
            },
            None => len == 0 || len + 13 > MAX_PATH,
        },
{
    let suffix: [u16; 13] = [
        0x5c,
        0x64,
        0x69,
        0x6e,
        0x70,
        0x75,
        0x74,
        0x38,
        0x2e,
        0x64,
        0x6c,
        0x6c,
        0,
    ];
    assert(suffix@ =~= dll_suffix());
    if len == 0 || len > (MAX_PATH - 13) as u32 {
        return None;
    }
    let n: usize = len as usize;
    let mut path: Vec<u16> = Vec::new();
    let mut i: usize = 0;
    while i < n
        invariant
            i <= n,
            n <= dir@.len(),
            path@ == dir@.take(i as int),
        decreases n - i,
    {
        path.push(dir[i]);
        i += 1;
        assert(path@ =~= dir@.take(i as int));
    }
    let mut k: usize = 0;
    while k < 13
        invariant
            k <= 13,
            n <= dir@.len(),
            suffix@ == dll_suffix(),
            path@ == dir@.take(n as int) + dll_suffix().take(k as int),
        decreases 13 - k,
    {
        path.push(suffix[k]);
        k += 1;
        assert(path@ =~= dir@.take(n as int) + dll_suffix().take(k as int));
    }
    assert(dll_suffix().take(13) =~= dll_suffix());
    Some(path)
}

/// An interface identifier.
#[derive(Clone, Copy, Debug, PartialEq, Eq, Structural)]
pub struct Guid {
    pub data1: u32,
    pub data2: u16,
    pub data3: u16,
    /// The last eight bytes, the first of them highest.
    pub data4: u64,
}

/// The identifier of the ANSI interface.
pub fn iid_direct_input8_a() -> (iid: Guid)
    ensures
        iid == (Guid { data1: 0xbf79_8030, data2: 0x483a, data3: 0x4da2, data4: 0xaa99_5d64_ed36_9700 }),
{
    Guid { data1: 0xbf79_8030, data2: 0x483a, data3: 0x4da2, data4: 0xaa99_5d64_ed36_9700 }
}

/// The identifier of the wide interface.
pub fn iid_direct_input8_w() -> (iid: Guid)
    ensures
        iid == (Guid { data1: 0xbf79_8031, data2: 0x483a, data3: 0x4da2, data4: 0xaa99_5d64_ed36_9700 }),
{
    Guid { data1: 0xbf79_8031, data2: 0x483a, data3: 0x4da2, data4: 0xaa99_5d64_ed36_9700 }
}

/// Whether `iid` names one of the two interfaces that coincide at the patched slots.
pub open spec fn is_direct_input8(iid: Guid) -> bool {
    &&& iid.data1 == 0xbf79_8030 || iid.data1 == 0xbf79_8031
    &&& iid.data2 == 0x483a && iid.data3 == 0x4da2 && iid.data4 == 0xaa99_5d64_ed36_9700
}

/// Registers a callback to run with each new interface; the first caller wins.
pub fn set_on_created<F: Copy>(on_created: &mut FirstWins<F>, f: F)
    ensures
        final(on_created).value() == (match old(on_created).value() {
            Some(first) => Some(first),
            None => Some(f),
        }),
{
    on_created.set(f);
}

/// The callback to run after the system's function returned `hr`: `requested` is the
/// identifier asked for, where the caller gave one, and `out` whether it gave a place for
/// the interface. Other interfaces just pass through.
pub fn forward<F: Copy>(
    on_created: &FirstWins<F>,
    hr: HResult,
    requested: Option<Guid>,
    out: bool,
) -> (res: Option<F>)
    ensures
        res == (if d3d::succeeded(hr) && out && requested is Some && is_direct_input8(
            requested->0,
        ) {
            on_created.value()
        } else {
            None
        }),
{
    if !is_ok(hr) || !out {
        return None;
    }
    match requested {
        Some(iid) => {
            if iid == iid_direct_input8_a() || iid == iid_direct_input8_w() {
                on_created.get()
            } else {
                None
            }
        },
        None => None,
    }
}

/// The suffix spells the file name behind a backslash, with a NUL behind it.
pub proof fn lemma_dll_suffix()
    ensures
        dll_suffix().len() == "\\dinput8.dll"@.len() + 1,
        forall|i: int|
            0 <= i < "\\dinput8.dll"@.len() ==> #[trigger] dll_suffix()[i] == "\\dinput8.dll"@[i],
        dll_suffix().last() == 0,
{
    reveal_strlit("\\dinput8.dll");
    let s = "\\dinput8.dll"@;
    assert(s.len() == 12);
    assert(s[0] == '\\' && s[1] == 'd' && s[2] == 'i' && s[3] == 'n' && s[4] == 'p' && s[5] == 'u'
        && s[6] == 't' && s[7] == '8' && s[8] == '.' && s[9] == 'd' && s[10] == 'l' && s[11]
        == 'l');
}

/// The two interfaces differ in the lowest bit of their identifiers, and in nothing else.
pub proof fn lemma_interfaces(iid: Guid)
    ensures
        is_direct_input8(iid) <==> iid.data1 / 2 == 0x5fbc_c018 && iid.data2 == 0x483a && iid.data3
            == 0x4da2 && iid.data4 == 0xaa99_5d64_ed36_9700,
        E_FAIL == -2147467259,
        MAX_PATH == 260,
{
}

} // verus!

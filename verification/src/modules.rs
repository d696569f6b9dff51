//! Loaded modules: address ranges, and labels for addresses inside them.

use vstd::prelude::*;
use crate::decode;
use crate::decode::from_utf16_lossy;
use crate::text;
use crate::text::{push_number, push_padded};

verus! {

/// Half-open range `[base, end)` of a loaded module.
#[derive(Clone, Copy, Debug, PartialEq, Eq, Structural)]
pub struct ModuleRange {
    pub base: u32,
    pub end: u32,
}

impl ModuleRange {
    /// Whether `addr` lies in the range.
    pub open spec fn has(self, addr: int) -> bool {
        self.base <= addr < self.end
    }

    /// The range of an image of `size` bytes at `base`; the end wraps at 32 bits.
    pub fn of_image(base: u32, size: u32) -> (range: ModuleRange)
        ensures
            range.base == base,
            range.end == (base + size) % 0x1_0000_0000,
    {
        ModuleRange { base, end: base.wrapping_add(size) }
    }

    /// Returns whether `addr` lies in the range.
    pub fn contains(&self, addr: u32) -> (res: bool)
        ensures
            res == self.has(addr as int),
    {
        addr >= self.base && addr < self.end
    }

    /// Returns whether the entirety of `[addr, addr + len)` lies inside this range. A
    /// `len` of 0 or an `addr + len` that overflows is not contained.
    pub fn contains_span(&self, addr: u32, len: usize) -> (res: bool)
        ensures
            res == (0 < len && self.base <= addr && addr + len <= self.end),
            res <==> len > 0 && forall|a: int| addr <= a < addr + len ==> #[trigger] self.has(a),
    {
        let res = if len > u32::MAX as usize {
            false
        } else {
            match addr.checked_add(len as u32) {
                Some(last) => len != 0 && addr >= self.base && last <= self.end,
                None => false,
            }
        };
        proof {
            if len > 0 {
                assert(self.has(addr as int) && self.has(addr + len - 1) ==> self.base <= addr
                    && addr + len <= self.end);
            }
        }
        res
    }
}

/// Returns whether `[addr, addr + len)` is within the host executable's image range;
/// nothing is while that range is unresolved.
pub fn in_host_image(host: Option<ModuleRange>, addr: u32, len: usize) -> (res: bool)
    ensures
        res == (host is Some && 0 < len && host->0.base <= addr && addr + len <= host->0.end),
{
    match host {
        Some(range) => range.contains_span(addr, len),
        None => false,
    }
}

/// The part of `path` behind its last backslash.
pub open spec fn file_part(path: Seq<char>) -> Seq<char>
    decreases path.len(),
{
    if path.len() == 0 {
        path
    } else if path.last() == '\\' {
        seq![]
    } else {
        file_part(path.drop_last()).push(path.last())
    }
}

/// The label of `addr` in the module at `base` with file path `path`.
pub open spec fn label(addr: u32, base: u32, path: Seq<char>) -> Seq<char> {
    seq!['0', 'x'] + text::padded(addr as nat, 16, 8) + seq![' ', '('] + file_part(path) + seq![
        '+',
        '0',
        'x',
    ] + text::hex((addr - base) as nat) + seq![')']
}

/// Returns the index behind the last backslash of `path`.
fn file_start(path: &Vec<char>) -> (start: usize)
    ensures
        start <= path@.len(),
        file_part(path@) == path@.skip(start as int),
{
    let mut i: usize = path.len();
    let ghost n = path@.len() as int;
    assert(path@.take(n) =~= path@);
    assert(path@.skip(n) =~= seq![]);
    assert(file_part(path@) =~= file_part(path@.take(n)) + path@.skip(n));
    while i > 0
        invariant
            i <= path@.len(),
            file_part(path@) == file_part(path@.take(i as int)) + path@.skip(i as int),
        decreases i,
    {
        let ghost head = path@.take(i as int);
        assert(head.last() == path@[i - 1]);
        assert(head.drop_last() =~= path@.take(i - 1));
        if path[i - 1] == '\\' {
            assert(file_part(path@) =~= path@.skip(i as int));
            return i;
        }
        assert(file_part(head.drop_last()).push(head.last()) + path@.skip(i as int) =~= file_part(
            path@.take(i - 1),
        ) + path@.skip(i - 1));
        i -= 1;
    }
    assert(file_part(path@) =~= path@.skip(0));
    0
}

/// Labels `addr` as `address (module+offset)`: `base` is where the module that
/// contains `addr` starts, and `path` its file path.
pub fn label_in_module(addr: u32, base: u32, path: &str) -> (res: String)
    requires
        base <= addr,
    ensures
        res@ == label(addr, base, path@),
{
    let chars = text::to_chars(path);
    let start: usize = file_start(&chars);
    let mut out = String::new();
    out.push('0');
    out.push('x');
    push_padded(&mut out, addr as u64, 16, 8);
    out.push(' ');
    out.push('(');
    text::push_chars(&mut out, &chars, start);
    out.push('+');
    out.push('0');
    out.push('x');
    push_number(&mut out, (addr - base) as u64, 16);
    out.push(')');
    assert(out@ =~= label(addr, base, path@));
    out
}

/// The path of a module as it was read; one that could not be read is unknown.
pub open spec fn path_of(read: Option<&[u16]>) -> Seq<char> {
    if read is Some && read->0@.len() > 0 {
        decode::utf16_lossy(read->0@)
    } else {
        "<unknown>"@
    }
}

/// The path of a module as it was read, or `<unknown>`.
pub fn read_path(read: Option<&[u16]>) -> (path: String)
    ensures
        path@ == path_of(read),
{
    match read {
        Some(units) if units.len() > 0 => from_utf16_lossy(units),
        _ => text::owned("<unknown>"),
    }
}

/// Labels `addr` by the module that contains it, whose path was read as `read`. There is
/// no label for address 0 and outside all modules.
pub fn annotate_addr(addr: u32, module: Option<ModuleRange>, read: Option<&[u16]>) -> (res: Option<
    String,
>)
    requires
        module is Some ==> module->0.base <= addr,
    ensures
        match res {
            Some(s) => {
                &&& addr != 0
                &&& module is Some
                &&& s@ == label(addr, module->0.base, path_of(read))
            },
            None => addr == 0 || module is None,
        },
{
    if addr == 0 {
        return None;
    }
    match module {
        Some(range) => {
            let path = read_path(read);
            Some(label_in_module(addr, range.base, path.as_str()))
        },
        None => None,
    }
}

/// The last component of a path follows its last backslash; a path without one is a
/// component already.
pub proof fn lemma_file_part(dir: Seq<char>, name: Seq<char>)
    requires
        !name.contains('\\'),
    ensures
        file_part(dir.push('\\') + name) == name,
        file_part(name) == name,
    decreases name.len(),
{
    let path = dir.push('\\') + name;
    if name.len() > 0 {
        let front = name.drop_last();
        assert forall|i: int| 0 <= i < front.len() implies front[i] != '\\' by {
            assert(front[i] == name[i]);
            assert(name.contains(name[i]));
        }
        lemma_file_part(dir, front);
        assert(name.contains(name.last()));
        assert(path.drop_last() =~= dir.push('\\') + front);
        assert(path.last() == name.last());
        assert(front.push(name.last()) =~= name);
    } else {
        assert(path =~= dir.push('\\'));
        assert(path.last() == '\\');
        assert(name =~= Seq::<char>::empty());
    }
}

/// A label has the address in eight digits, then the file and how far into it the address
/// lies.
pub proof fn lemma_label(addr: u32, base: u32, path: Seq<char>)
    requires
        base <= addr,
    ensures
        ({
            let file = file_part(path);
            let m = file.len() as int;
            let far = text::hex((addr - base) as nat);
            let s = label(addr, base, path);
            &&& s.len() == 10 + 2 + file.len() + 3 + far.len() + 1
            &&& s[0] == '0' && s[1] == 'x'
            &&& s.subrange(2, 10) == text::padded(addr as nat, 16, 8)
            &&& s[10] == ' ' && s[11] == '('
            &&& s.subrange(12, 12 + m) == file
            &&& s.subrange(12 + m, 15 + m) == seq!['+', '0', 'x']
            &&& s.subrange(15 + m, s.len() - 1) == far
            &&& s.last() == ')'
        }),
{
    let file = file_part(path);
    let m = file.len() as int;
    let far = text::hex((addr - base) as nat);
    let s = label(addr, base, path);
    lemma_address_digits(addr as nat);
    assert(text::padded(addr as nat, 16, 8).len() == 8);
    assert(s.subrange(2, 10) =~= text::padded(addr as nat, 16, 8));
    assert(s.subrange(12, 12 + m) =~= file);
    assert(s.subrange(12 + m, 15 + m) =~= seq!['+', '0', 'x']);
    assert(s.subrange(15 + m, s.len() - 1) =~= far);
}

/// An address has no more than eight hexadecimal digits.
proof fn lemma_address_digits(n: nat)
    requires
        n < 0x1_0000_0000,
    ensures
        text::number(n, 16).len() <= 8,
{
    reveal_with_fuel(text::number, 9);
}

/// A path that could not be read, or is empty, is unknown.
pub proof fn lemma_path_of(read: Option<&[u16]>)
    ensures
        read is None ==> path_of(read) == "<unknown>"@,
        read is Some && read->0@.len() == 0 ==> path_of(read) == "<unknown>"@,
        read is Some && read->0@.len() > 0 ==> path_of(read) == decode::utf16_lossy(read->0@),
{
}

/// A module has the addresses from its base up to its end, which is not its own.
pub proof fn lemma_module_range(range: ModuleRange, addr: int)
    ensures
        range.base < range.end ==> range.has(range.base as int) && range.has(range.end - 1),
        !range.has(range.end as int),
        range.has(addr) ==> addr >= range.base && addr < range.end,
        addr >= range.base && addr < range.end ==> range.has(addr),
{
}

} // verus!

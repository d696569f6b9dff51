//! In-process byte patching.

use vstd::prelude::*;
use crate::bytes::{bytes_equal, push_u32, read_u32, to_vec};
use crate::modules::ModuleRange;
use crate::text::push_padded;
use crate::{bytes, text};

verus! {

/// The longest patch.
pub const MAX_PATCH_LEN: usize = 8;

/// Length of a rel32 branch (opcode + `disp32`).
pub const REL32_LEN: usize = 5;

pub const OPCODE_NOP: u8 = 0x90;

pub const OPCODE_JMP: u8 = 0xe9;

pub const OPCODE_CALL: u8 = 0xe8;

/// What is written over the expected bytes.
#[derive(Debug)]
pub enum PatchAction {
    /// A static byte replacement of the same length as the expected bytes.
    Replace(Vec<u8>),
    /// A rel32 branch to `dest`; the bytes behind it are filled with NOPs.
    Branch { opcode: u8, dest: u32 },
}

/// A planned code edit.
#[derive(Debug)]
pub struct PatchSite {
    addr: u32,
    expected: Vec<u8>,
    action: PatchAction,
    name: &'static str,
}

/// The displacement that takes a rel32 branch at `addr` to `dest`.
pub open spec fn rel32(addr: u32, dest: u32) -> u32 {
    ((dest - addr - 5) % 0x1_0000_0000) as u32
}

/// The bytes of a rel32 branch at `addr`, filled with NOPs up to `len`.
pub open spec fn branch_bytes(opcode: u8, addr: u32, dest: u32, len: int) -> Seq<u8> {
    seq![opcode] + bytes::le32(rel32(addr, dest)) + Seq::new(
        (len - 5) as nat,
        |i: int| OPCODE_NOP,
    )
}

/// Where the branch with displacement `disp` at `addr` leads.
pub open spec fn branch_target(addr: u32, disp: u32) -> u32 {
    ((addr + 5 + disp) % 0x1_0000_0000) as u32
}

/// A rel32 branch leads where it was meant to.
pub proof fn lemma_branch_resolves(addr: u32, dest: u32)
    ensures
        branch_target(addr, rel32(addr, dest)) == dest,
{
}

impl PatchSite {
    /// Where the site is.
    pub closed spec fn addr(self) -> u32 {
        self.addr
    }

    /// The bytes that must stand there before the edit.
    pub closed spec fn expected(self) -> Seq<u8> {
        self.expected@
    }

    /// The bytes that stand there after the edit.
    pub closed spec fn replacement(self) -> Seq<u8> {
        match self.action {
            PatchAction::Replace(replacement) => replacement@,
            PatchAction::Branch { opcode, dest } => branch_bytes(
                opcode,
                self.addr,
                dest,
                self.expected@.len() as int,
            ),
        }
    }

    /// The opcode and destination of a branch.
    pub closed spec fn branch_to(self) -> Option<(u8, u32)> {
        match self.action {
            PatchAction::Branch { opcode, dest } => Some((opcode, dest)),
            PatchAction::Replace(_) => None,
        }
    }

    /// What the edit is called in diagnostics.
    pub closed spec fn label(self) -> Seq<char> {
        self.name@
    }

    /// An edit keeps the length, and a branch has room for its displacement.
    pub closed spec fn wf(self) -> bool {
        &&& self.expected@.len() <= MAX_PATCH_LEN
        &&& match self.action {
            PatchAction::Replace(replacement) => replacement@.len() == self.expected@.len(),
            PatchAction::Branch { .. } => self.expected@.len() >= REL32_LEN,
        }
    }

    /// Static byte patch: `expected` is overwritten with `replacement`.
    pub fn replace<const N: usize>(
        addr: u32,
        expected: &[u8; N],
        replacement: &[u8; N],
        name: &'static str,
    ) -> (site: PatchSite)
        requires
            N <= MAX_PATCH_LEN,
        ensures
            site.wf(),
            site.addr() == addr,
            site.expected() == expected@,
            site.replacement() == replacement@,
            site.branch_to() is None,
            site.label() == name@,
    {
        PatchSite {
            addr,
            expected: to_vec(expected.as_slice()),
            action: PatchAction::Replace(to_vec(replacement.as_slice())),
            name,
        }
    }

    /// Overwrites `expected` with NOPs.
    pub fn nop<const N: usize>(addr: u32, expected: &[u8; N], name: &'static str) -> (site:
        PatchSite)
        requires
            N <= MAX_PATCH_LEN,
        ensures
            site.wf(),
            site.addr() == addr,
            site.expected() == expected@,
            site.replacement() == Seq::new(N as nat, |i: int| OPCODE_NOP),
            site.branch_to() is None,
            site.label() == name@,
    {
        let mut nops: Vec<u8> = Vec::new();
        push_nops(&mut nops, N);
        assert(nops@ =~= Seq::new(N as nat, |i: int| OPCODE_NOP));
        PatchSite {
            addr,
            expected: to_vec(expected.as_slice()),
            action: PatchAction::Replace(nops),
            name,
        }
    }

    fn branch<const N: usize>(
        addr: u32,
        expected: &[u8; N],
        opcode: u8,
        dest: u32,
        name: &'static str,
    ) -> (site: PatchSite)
        requires
            REL32_LEN <= N <= MAX_PATCH_LEN,
        ensures
            site.wf(),
            site.addr() == addr,
            site.expected() == expected@,
            site.replacement() == branch_bytes(opcode, addr, dest, N as int),
            site.branch_to() == Some((opcode, dest)),
            site.label() == name@,
    {
        PatchSite {
            addr,
            expected: to_vec(expected.as_slice()),
            action: PatchAction::Branch { opcode, dest },
            name,
        }
    }

    /// 5-byte relative jmp at `addr` to `target`. `expected` is the full
    /// displaced-instruction byte sequence; the bytes past the jmp become NOPs.
    pub fn jmp<const N: usize>(addr: u32, expected: &[u8; N], target: u32, name: &'static str) -> (
    site: PatchSite)
        requires
            REL32_LEN <= N <= MAX_PATCH_LEN,
        ensures
            site.wf(),
            site.addr() == addr,
            site.expected() == expected@,
            site.replacement() == branch_bytes(OPCODE_JMP, addr, target, N as int),
            site.branch_to() == Some((OPCODE_JMP, target)),
            site.label() == name@,
    {
        PatchSite::branch(addr, expected, OPCODE_JMP, target, name)
    }

    /// Rewrite of a direct-call or indirect-call site so it targets `hook` instead of the
    /// original callee: 5 bytes for an `E8 disp32` direct call, 6 bytes for an
    /// `FF 15 disp32` indirect call. The bytes past the call become NOPs.
    pub fn call<const N: usize>(addr: u32, expected: &[u8; N], hook: u32, name: &'static str) -> (
    site: PatchSite)
        requires
            REL32_LEN <= N <= MAX_PATCH_LEN,
        ensures
            site.wf(),
            site.addr() == addr,
            site.expected() == expected@,
            site.replacement() == branch_bytes(OPCODE_CALL, addr, hook, N as int),
            site.branch_to() == Some((OPCODE_CALL, hook)),
            site.label() == name@,
    {
        PatchSite::branch(addr, expected, OPCODE_CALL, hook, name)
    }

    /// Shifts the site's address by `slide`, for a host image not loaded at its preferred
    /// base. A branch still leads to the same destination.
    pub fn rebase(self, slide: u32) -> (site: PatchSite)
        requires
            self.wf(),
        ensures
            site.wf(),
            site.addr() == (self.addr() + slide) % 0x1_0000_0000,
            site.expected() == self.expected(),
            site.branch_to() == self.branch_to(),
            site.label() == self.label(),
            site.replacement() == match self.branch_to() {
                Some((opcode, dest)) => branch_bytes(
                    opcode,
                    site.addr(),
                    dest,
                    self.expected().len() as int,
                ),
                None => self.replacement(),
            },
    {
        PatchSite {
            addr: self.addr.wrapping_add(slide),
            expected: self.expected,
            action: self.action,
            name: self.name,
        }
    }

    /// Where the site is.
    pub fn site_addr(&self) -> (addr: u32)
        ensures
            addr == self.addr(),
    {
        self.addr
    }

    /// What the edit is called in diagnostics.
    pub fn name(&self) -> (name: &'static str)
        ensures
            name@ == self.label(),
    {
        self.name
    }

    /// The exact bytes that the edit writes at the site.
    pub fn written_bytes(&self) -> (written: Vec<u8>)
        requires
            self.wf(),
        ensures
            written@ == self.replacement(),
            written@.len() == self.expected().len(),
    {
        match &self.action {
            PatchAction::Replace(replacement) => to_vec(replacement.as_slice()),
            PatchAction::Branch { opcode, dest } => {
                let disp: u32 = dest.wrapping_sub(self.addr.wrapping_add(REL32_LEN as u32));
                assert(disp == rel32(self.addr, *dest));
                let mut written: Vec<u8> = Vec::new();
                written.push(*opcode);
                push_u32(&mut written, disp);
                push_nops(&mut written, self.expected.len() - REL32_LEN);
                assert(written@ =~= self.replacement());
                written
            },
        }
    }
}

/// Appends `n` NOPs.
fn push_nops(out: &mut Vec<u8>, n: usize)
    ensures
        final(out)@ == old(out)@ + Seq::new(n as nat, |i: int| OPCODE_NOP),
{
    let mut i: usize = 0;
    while i < n
        invariant
            i <= n,
            out@ == old(out)@ + Seq::new(i as nat, |k: int| OPCODE_NOP),
        decreases n - i,
    {
        out.push(OPCODE_NOP);
        i += 1;
        assert(out@ =~= old(out)@ + Seq::new(i as nat, |k: int| OPCODE_NOP));
    }
}

/// Whether `site` overwrites `expected` at `addr` with `replacement`.
pub open spec fn is_edit(
    site: PatchSite,
    addr: u32,
    expected: Seq<u8>,
    replacement: Seq<u8>,
    label: Seq<char>,
) -> bool {
    &&& site.wf()
    &&& site.addr() == addr
    &&& site.expected() == expected
    &&& site.replacement() == replacement
    &&& site.branch_to() is None
    &&& site.label() == label
}

/// Whether `site` overwrites `expected` at `addr` with a branch to `dest`.
pub open spec fn is_branch(
    site: PatchSite,
    opcode: u8,
    addr: u32,
    expected: Seq<u8>,
    dest: u32,
    label: Seq<char>,
) -> bool {
    &&& site.wf()
    &&& site.addr() == addr
    &&& site.expected() == expected
    &&& site.replacement() == branch_bytes(opcode, addr, dest, expected.len() as int)
    &&& site.branch_to() == Some((opcode, dest))
    &&& site.label() == label
}

/// Whether no two of `sites` touch the same byte.
pub open spec fn disjoint(sites: Seq<PatchSite>) -> bool {
    forall|i: int, j: int|
        0 <= i < j < sites.len() ==> (#[trigger] sites[i]).addr() + sites[i].expected().len() <= (
        #[trigger] sites[j]).addr() || sites[j].addr() + sites[j].expected().len()
            <= sites[i].addr()
}

/// The host executable's mapped image.
#[derive(Debug)]
pub struct HostImage {
    pub base: u32,
    pub bytes: Vec<u8>,
}

/// Whether a site can be patched.
#[derive(Clone, Copy, Debug, PartialEq, Eq, Structural)]
pub enum SiteCheck {
    /// The expected bytes stand at the site.
    Held,
    /// The site does not lie within the image.
    OutOfImage,
    /// Other bytes stand at the site.
    Drifted,
}

impl HostImage {
    /// The image ends within the address space.
    pub open spec fn wf(self) -> bool {
        self.base + self.bytes@.len() <= u32::MAX
    }
}

/// Whether `site` lies within `[base, base + len)` and is not empty.
pub open spec fn site_fits(site: PatchSite, base: u32, len: int) -> bool {
    0 < site.expected().len() && base <= site.addr() && site.addr() + site.expected().len() <= base
        + len
}

/// Whether `site` holds its expected bytes in the image `image` at `base`.
pub open spec fn site_check(site: PatchSite, base: u32, image: Seq<u8>) -> SiteCheck {
    if !site_fits(site, base, image.len() as int) {
        SiteCheck::OutOfImage
    } else if image.subrange(
        site.addr() - base,
        site.addr() - base + site.expected().len(),
    ) == site.expected() {
        SiteCheck::Held
    } else {
        SiteCheck::Drifted
    }
}

/// The image after `site` was applied.
pub open spec fn patched(site: PatchSite, base: u32, image: Seq<u8>) -> Seq<u8> {
    let at = site.addr() - base;
    image.take(at) + site.replacement() + image.skip(at + site.expected().len())
}

/// The image after `sites` were applied in order.
pub open spec fn patched_all(sites: Seq<PatchSite>, base: u32, image: Seq<u8>) -> Seq<u8>
    decreases sites.len(),
{
    if sites.len() == 0 {
        image
    } else {
        patched(sites.last(), base, patched_all(sites.drop_last(), base, image))
    }
}

/// All the sites of `groups`, in order.
pub open spec fn all_sites(groups: Seq<&[PatchSite]>) -> Seq<PatchSite>
    decreases groups.len(),
{
    if groups.len() == 0 {
        seq![]
    } else {
        all_sites(groups.drop_last()) + groups.last()@
    }
}

/// Whether every site is well-formed.
pub open spec fn sites_wf(sites: Seq<PatchSite>) -> bool {
    forall|i: int| 0 <= i < sites.len() ==> (#[trigger] sites[i]).wf()
}

/// How many sites hold their expected bytes.
pub open spec fn held_count(sites: Seq<PatchSite>, base: u32, image: Seq<u8>) -> nat
    decreases sites.len(),
{
    if sites.len() == 0 {
        0
    } else {
        held_count(sites.drop_last(), base, image) + if site_check(sites.last(), base, image)
            is Held {
            1nat
        } else {
            0
        }
    }
}

/// The first site that does not hold its expected bytes.
pub open spec fn first_mismatch(sites: Seq<PatchSite>, base: u32, image: Seq<u8>) -> Option<int>
    decreases sites.len(),
{
    if sites.len() == 0 {
        None
    } else {
        match first_mismatch(sites.drop_last(), base, image) {
            Some(i) => Some(i),
            None => if site_check(sites.last(), base, image) is Held {
                None
            } else {
                Some(sites.len() - 1)
            },
        }
    }
}

/// There is no mismatch exactly when every site holds.
pub proof fn lemma_first_mismatch(sites: Seq<PatchSite>, base: u32, image: Seq<u8>)
    ensures
        match first_mismatch(sites, base, image) {
            Some(k) => {
                &&& 0 <= k < sites.len()
                &&& !(site_check(sites[k], base, image) is Held)
                &&& forall|i: int|
                    0 <= i < k ==> site_check(#[trigger] sites[i], base, image) is Held
            },
            None => forall|i: int|
                0 <= i < sites.len() ==> site_check(#[trigger] sites[i], base, image) is Held,
        },
        held_count(sites, base, image) <= sites.len(),
    decreases sites.len(),
{
    if sites.len() > 0 {
        let front = sites.drop_last();
        lemma_first_mismatch(front, base, image);
        let held = match first_mismatch(front, base, image) {
            Some(k) => k,
            None => front.len() as int,
        };
        assert forall|i: int| 0 <= i < held implies site_check(
            #[trigger] sites[i],
            base,
            image,
        ) is Held by {
            assert(front[i] == sites[i]);
        }
        if held < front.len() {
            assert(front[held] == sites[held]);
        }
    }
}

impl PatchSite {
    /// Reports whether the expected bytes currently stand at the site.
    pub fn holds_expected(&self, image: &HostImage) -> (check: SiteCheck)
        requires
            image.wf(),
        ensures
            check == site_check(*self, image.base, image.bytes@),
    {
        let range = ModuleRange {
            base: image.base,
            end: image.base + image.bytes.len() as u32,
        };
        let len: usize = self.expected.len();
        if !range.contains_span(self.addr, len) {
            return SiteCheck::OutOfImage;
        }
        let at: usize = (self.addr - image.base) as usize;
        let mut i: usize = 0;
        while i < len
            invariant
                i <= len,
                len == self.expected@.len(),
                at + len <= image.bytes.len(),
                at == self.addr - image.base,
                site_fits(*self, image.base, image.bytes@.len() as int),
                forall|k: int| 0 <= k < i ==> image.bytes@[at + k] == self.expected@[k],
            decreases len - i,
        {
            if image.bytes[at + i] != self.expected[i] {
                proof {
                    let here = image.bytes@.subrange(at as int, at + len);
                    assert(here[i as int] != self.expected@[i as int]);
                }
                return SiteCheck::Drifted;
            }
            i += 1;
        }
        assert(image.bytes@.subrange(at as int, at + len) =~= self.expected@);
        SiteCheck::Held
    }

    /// Writes the edit into the image.
    fn apply(&self, image: &mut HostImage)
        requires
            self.wf(),
            old(image).wf(),
            site_fits(*self, old(image).base, old(image).bytes@.len() as int),
        ensures
            final(image).base == old(image).base,
            final(image).bytes@ == patched(*self, old(image).base, old(image).bytes@),
            final(image).bytes@.len() == old(image).bytes@.len(),
    {
        let written = self.written_bytes();
        let at: usize = (self.addr - image.base) as usize;
        let ghost before = image.bytes@;
        let mut i: usize = 0;
        while i < written.len()
            invariant
                i <= written@.len(),
                written@ == self.replacement(),
                at + written@.len() <= image.bytes.len(),
                image.base == old(image).base,
                image.bytes@.len() == before.len(),
                image.bytes@ == before.take(at as int) + written@.take(i as int) + before.skip(
                    at + i,
                ),
            decreases written.len() - i,
        {
            image.bytes.set(at + i, written[i]);
            i += 1;
            assert(image.bytes@ =~= before.take(at as int) + written@.take(i as int) + before.skip(
                at + i,
            ));
        }
        assert(written@.take(i as int) =~= written@);
    }

    /// Compares the bytes found at the site with those written.
    pub fn verify(&self, written: &[u8], actual: &[u8]) -> (report: PatchReport)
        requires
            self.wf(),
            written@.len() == self.expected().len(),
            actual@.len() == self.expected().len(),
        ensures
            report.ok == (actual@ == written@),
            report.resolved_target == if self.branch_to() is Some {
                Some(branch_target(self.addr(), bytes::u32_at(actual@, 1)))
            } else {
                None
            },
    {
        let ok = bytes_equal(actual, written);
        let resolved_target = match &self.action {
            PatchAction::Replace(_) => None,
            PatchAction::Branch { .. } => {
                match read_u32(actual, 1) {
                    Some(disp) => Some(
                        self.addr.wrapping_add(REL32_LEN as u32).wrapping_add(disp),
                    ),
                    None => None,
                }
            },
        };
        PatchReport { ok, resolved_target }
    }
}

/// What reading a patched site back shows.
#[derive(Clone, Copy, Debug, PartialEq, Eq, Structural)]
pub struct PatchReport {
    pub ok: bool,
    /// Where the branch found at the site leads.
    pub resolved_target: Option<u32>,
}

/// The state of all sites before anything is written.
#[derive(Clone, Copy, Debug, PartialEq, Eq, Structural)]
pub struct Preflight {
    pub total: usize,
    pub held: usize,
    /// The first site that does not hold its expected bytes.
    pub first_mismatch: Option<usize>,
}

/// Checks every site of `groups` against the image.
pub fn sites_hold(groups: &[&[PatchSite]], image: &HostImage) -> (report: Preflight)
    requires
        image.wf(),
        all_sites(groups@).len() <= usize::MAX,
    ensures
        report.total == all_sites(groups@).len(),
        report.held == held_count(all_sites(groups@), image.base, image.bytes@),
        match report.first_mismatch {
            Some(i) => first_mismatch(all_sites(groups@), image.base, image.bytes@) == Some(
                i as int,
            ),
            None => first_mismatch(all_sites(groups@), image.base, image.bytes@) is None,
        },
{
    let mut total: usize = 0;
    let mut held: usize = 0;
    let mut mismatch: Option<usize> = None;
    let mut g: usize = 0;
    let ghost flat = all_sites(groups@);
    while g < groups.len()
        invariant
            g <= groups@.len(),
            image.wf(),
            flat == all_sites(groups@),
            flat.len() <= usize::MAX,
            total == all_sites(groups@.take(g as int)).len(),
            flat.take(total as int) == all_sites(groups@.take(g as int)),
            total <= flat.len(),
            held <= total,
            held == held_count(flat.take(total as int), image.base, image.bytes@),
            mismatch is Some <==> first_mismatch(
                flat.take(total as int),
                image.base,
                image.bytes@,
            ) is Some,
            mismatch is Some ==> first_mismatch(flat.take(total as int), image.base, image.bytes@)
                == Some(mismatch->0 as int),
        decreases groups.len() - g,
    {
        let group = groups[g];
        let ghost start = total as int;
        proof {
            assert(groups@.take(g + 1).drop_last() =~= groups@.take(g as int));
            assert(groups@.take(g + 1).last() == group);
            lemma_all_sites_prefix(groups@, g + 1);
        }
        let mut j: usize = 0;
        while j < group.len()
            invariant
                j <= group@.len(),
                image.wf(),
                flat.len() <= usize::MAX,
                start + group@.len() <= flat.len(),
                total == start + j,
                forall|k: int| 0 <= k < group@.len() ==> flat[start + k] == group@[k],
                held <= total,
                held == held_count(flat.take(total as int), image.base, image.bytes@),
                mismatch is Some <==> first_mismatch(
                    flat.take(total as int),
                    image.base,
                    image.bytes@,
                ) is Some,
                mismatch is Some ==> first_mismatch(
                    flat.take(total as int),
                    image.base,
                    image.bytes@,
                ) == Some(mismatch->0 as int),
            decreases group.len() - j,
        {
            proof {
                let next = flat.take(total + 1);
                assert(next.drop_last() =~= flat.take(total as int));
                assert(next.last() == group@[j as int]);
            }
            match group[j].holds_expected(image) {
                SiteCheck::Held => {
                    held += 1;
                },
                _ => {
                    if mismatch.is_none() {
                        mismatch = Some(total);
                    }
                },
            }
            total += 1;
            j += 1;
        }
        g += 1;
    }
    assert(groups@.take(g as int) =~= groups@);
    assert(flat.take(total as int) =~= flat);
    Preflight { total, held, first_mismatch: mismatch }
}

/// The sites of the first groups are the first sites.
proof fn lemma_all_sites_prefix(groups: Seq<&[PatchSite]>, n: int)
    requires
        0 <= n <= groups.len(),
    ensures
        ({
            let head = all_sites(groups.take(n));
            &&& head.len() <= all_sites(groups).len()
            &&& all_sites(groups).take(head.len() as int) == head
            &&& n > 0 ==> {
                let group = groups[n - 1]@;
                let start = all_sites(groups.take(n - 1)).len() as int;
                &&& start + group.len() == head.len()
                &&& forall|k: int|
                    0 <= k < group.len() ==> #[trigger] all_sites(groups)[start + k] == group[k]
            }
        }),
    decreases groups.len() - n,
{
    if n == groups.len() {
        assert(groups.take(n) =~= groups);
        assert(all_sites(groups).take(all_sites(groups).len() as int) =~= all_sites(groups));
        if n > 0 {
            assert(groups.drop_last() =~= groups.take(n - 1));
        }
    } else {
        lemma_all_sites_prefix(groups, n + 1);
        let longer = all_sites(groups.take(n + 1));
        let head = all_sites(groups.take(n));
        assert(groups.take(n + 1).drop_last() =~= groups.take(n));
        assert(longer.take(head.len() as int) =~= head);
        assert(all_sites(groups).take(head.len() as int) =~= longer.take(head.len() as int));
        if n > 0 {
            assert(groups.take(n).drop_last() =~= groups.take(n - 1));
            let group = groups[n - 1]@;
            let start = all_sites(groups.take(n - 1)).len() as int;
            assert forall|k: int| 0 <= k < group.len() implies #[trigger] all_sites(groups)[start
                + k] == group[k] by {
                assert(all_sites(groups).take(head.len() as int)[start + k] == head[start + k]);
            }
        }
    }
}

/// The first entry of `ok` before `n` that is false, or `n`.
pub open spec fn first_refusal(ok: Seq<bool>, n: int) -> int
    decreases n,
{
    if n <= 0 {
        0
    } else {
        let k = first_refusal(ok, n - 1);
        if k < n - 1 {
            k
        } else if ok[n - 1] {
            n
        } else {
            n - 1
        }
    }
}

/// How an installation ended.
#[derive(Clone, Copy, Debug, PartialEq, Eq, Structural)]
pub enum InstallOutcome {
    /// Every site was written.
    Installed,
    /// Nothing was written.
    Refused,
    /// The write of this site was refused after earlier ones had been written. The
    /// process is partially patched and has to be aborted.
    Partial(usize),
}

/// What follows the attempt to write a site.
#[derive(Clone, Copy, Debug, PartialEq, Eq, Structural)]
pub enum InstallStep {
    /// The next site is to be written.
    Next,
    Done(InstallOutcome),
}

/// Decides what follows the attempt to write site `index` of `total`.
pub fn install_step(index: usize, total: usize, write_ok: bool) -> (step: InstallStep)
    requires
        index < total,
    ensures
        step == if !write_ok {
            InstallStep::Done(
                if index > 0 {
                    InstallOutcome::Partial(index)
                } else {
                    InstallOutcome::Refused
                },
            )
        } else if index + 1 == total {
            InstallStep::Done(InstallOutcome::Installed)
        } else {
            InstallStep::Next
        },
{
    if !write_ok {
        if index > 0 {
            InstallStep::Done(InstallOutcome::Partial(index))
        } else {
            InstallStep::Done(InstallOutcome::Refused)
        }
    } else if index + 1 == total {
        InstallStep::Done(InstallOutcome::Installed)
    } else {
        InstallStep::Next
    }
}

/// Verifies every patch site in `groups`, then writes all of them in order. `write_ok`
/// says of each site whether its protection window could be opened. Nothing is
/// written if any site does not hold its expected bytes.
pub fn install_all(groups: &[&[PatchSite]], image: &mut HostImage, write_ok: &[bool]) -> (outcome:
    InstallOutcome)
    requires
        old(image).wf(),
        sites_wf(all_sites(groups@)),
        all_sites(groups@).len() <= write_ok@.len(),
    ensures
        final(image).base == old(image).base,
        ({
            let sites = all_sites(groups@);
            let n = sites.len() as int;
            let k = first_refusal(write_ok@, n);
            if first_mismatch(sites, old(image).base, old(image).bytes@) is Some {
                &&& outcome == InstallOutcome::Refused
                &&& final(image).bytes@ == old(image).bytes@
            } else {
                &&& final(image).bytes@ == patched_all(
                    sites.take(k),
                    old(image).base,
                    old(image).bytes@,
                )
                &&& outcome == if k == n {
                    InstallOutcome::Installed
                } else if k == 0 {
                    InstallOutcome::Refused
                } else {
                    InstallOutcome::Partial(k as usize)
                }
            }
        }),
{
    let decisions: usize = write_ok.len();
    assert(all_sites(groups@).len() <= decisions);
    let report = sites_hold(groups, image);
    if report.first_mismatch.is_some() {
        return InstallOutcome::Refused;
    }
    let ghost flat = all_sites(groups@);
    let ghost before = image.bytes@;
    let ghost base = image.base;
    let total: usize = report.total;
    let mut done: usize = 0;
    let mut g: usize = 0;
    proof {
        lemma_first_mismatch(flat, base, before);
    }
    while g < groups.len()
        invariant
            g <= groups@.len(),
            image.wf(),
            image.base == base,
            image.bytes@.len() == before.len(),
            flat == all_sites(groups@),
            sites_wf(flat),
            total == flat.len(),
            flat.len() <= write_ok@.len(),
            done == all_sites(groups@.take(g as int)).len(),
            done <= flat.len(),
            image.bytes@ == patched_all(flat.take(done as int), base, before),
            first_refusal(write_ok@, done as int) == done,
            forall|i: int|
                0 <= i < flat.len() ==> site_check(#[trigger] flat[i], base, before) is Held,
            g > 0 && done == total ==> first_refusal(write_ok@, total as int) == total,
            old(image).base == base,
            old(image).bytes@ == before,
            first_mismatch(flat, base, before) is None,
        decreases groups.len() - g,
    {
        let group = groups[g];
        let ghost start = done as int;
        proof {
            assert(groups@.take(g + 1).drop_last() =~= groups@.take(g as int));
            assert(groups@.take(g + 1).last() == group);
            lemma_all_sites_prefix(groups@, g + 1);
        }
        let mut j: usize = 0;
        while j < group.len()
            invariant
                j <= group@.len(),
                image.wf(),
                image.base == base,
                image.bytes@.len() == before.len(),
                sites_wf(flat),
                total == flat.len(),
                flat == all_sites(groups@),
                flat.len() <= write_ok@.len(),
                start + group@.len() <= flat.len(),
                done == start + j,
                forall|k: int| 0 <= k < group@.len() ==> flat[start + k] == group@[k],
                image.bytes@ == patched_all(flat.take(done as int), base, before),
                first_refusal(write_ok@, done as int) == done,
                forall|i: int|
                    0 <= i < flat.len() ==> site_check(#[trigger] flat[i], base, before) is Held,
                old(image).base == base,
                old(image).bytes@ == before,
                first_mismatch(flat, base, before) is None,
            decreases group.len() - j,
        {
            assert(flat[done as int] == group@[j as int]);
            assert(site_check(flat[done as int], base, before) is Held);
            let ok = write_ok[done];
            match install_step(done, total, ok) {
                InstallStep::Next | InstallStep::Done(InstallOutcome::Installed) => {},
                InstallStep::Done(outcome) => {
                    proof {
                        lemma_refusal_found(write_ok@, done as int, flat.len() as int);
                    }
                    return outcome;
                },
            }
            group[j].apply(image);
            proof {
                let next = flat.take(done + 1);
                assert(next.drop_last() =~= flat.take(done as int));
                assert(next.last() == group@[j as int]);
            }
            done += 1;
            j += 1;
        }
        g += 1;
    }
    assert(groups@.take(g as int) =~= groups@);
    assert(flat.take(done as int) =~= flat);
    InstallOutcome::Installed
}

/// Once an entry is false with only true ones before it, it is the first.
proof fn lemma_refusal_found(ok: Seq<bool>, k: int, n: int)
    requires
        0 <= k < n,
        first_refusal(ok, k) == k,
        !ok[k],
    ensures
        first_refusal(ok, n) == k,
    decreases n,
{
    if n > k + 1 {
        lemma_refusal_found(ok, k, n - 1);
    }
}

/// A refused installation leaves the image as it was.
pub proof fn lemma_refused_writes_nothing(sites: Seq<PatchSite>, base: u32, image: Seq<u8>)
    ensures
        patched_all(sites.take(0), base, image) == image,
{
}

/// Once every site of a disjoint list is written, each holds its replacement, and a byte
/// outside all of them is what it was.
pub proof fn lemma_installed_sites_hold(sites: Seq<PatchSite>, base: u32, image: Seq<u8>)
    requires
        sites_wf(sites),
        disjoint(sites),
        forall|i: int|
            0 <= i < sites.len() ==> site_fits(#[trigger] sites[i], base, image.len() as int),
    ensures
        ({
            let after = patched_all(sites, base, image);
            &&& after.len() == image.len()
            &&& forall|i: int|
                0 <= i < sites.len() ==> after.subrange(
                    (#[trigger] sites[i]).addr() - base,
                    sites[i].addr() - base + sites[i].expected().len(),
                ) == sites[i].replacement()
            &&& forall|at: int|
                0 <= at < image.len() && untouched(sites, base + at) ==> #[trigger] after[at]
                    == image[at]
        }),
    decreases sites.len(),
{
    if sites.len() > 0 {
        let front = sites.drop_last();
        let last = sites.last();
        assert(last == sites[sites.len() - 1]);
        assert forall|i: int| 0 <= i < front.len() implies #[trigger] front[i] == sites[i] by {}
        lemma_installed_sites_hold(front, base, image);
        let before = patched_all(front, base, image);
        let after = patched_all(sites, base, image);
        let start = last.addr() - base;
        let end = start + last.expected().len();
        assert(last.wf());
        assert(last.replacement().len() == last.expected().len());
        assert(after == patched(last, base, before));
        assert(after.len() == image.len());
        assert(after.subrange(start, end) =~= last.replacement());
        assert forall|i: int| 0 <= i < sites.len() implies after.subrange(
            (#[trigger] sites[i]).addr() - base,
            sites[i].addr() - base + sites[i].expected().len(),
        ) == sites[i].replacement() by {
            if i < front.len() {
                let lo = sites[i].addr() - base;
                let hi = lo + sites[i].expected().len();
                assert(site_fits(sites[i], base, image.len() as int));
                assert(front[i] == sites[i]);
                assert(sites[i].addr() + sites[i].expected().len() <= last.addr() || last.addr()
                    + last.expected().len() <= sites[i].addr());
                assert(after.subrange(lo, hi) =~= before.subrange(lo, hi));
            }
        }
        assert forall|at: int|
            0 <= at < image.len() && untouched(sites, base + at) implies #[trigger] after[at]
            == image[at] by {
            assert(!covers(last, base + at));
            assert forall|i: int| 0 <= i < front.len() implies !covers(
                #[trigger] front[i],
                base + at,
            ) by {
                assert(!covers(sites[i], base + at));
            }
            assert(untouched(front, base + at));
            assert(before[at] == image[at]);
        }
    }
}

/// Whether an address lies in the bytes of `site`.
pub open spec fn covers(site: PatchSite, at: int) -> bool {
    site.addr() <= at < site.addr() + site.expected().len()
}

/// Whether no site covers an address.
pub open spec fn untouched(sites: Seq<PatchSite>, at: int) -> bool {
    forall|i: int| 0 <= i < sites.len() ==> !covers(#[trigger] sites[i], at)
}

/// The bytes in two-digit hexadecimal, separated by spaces.
pub open spec fn hex_list(bs: Seq<u8>) -> Seq<char>
    decreases bs.len(),
{
    if bs.len() == 0 {
        seq![]
    } else if bs.len() == 1 {
        text::padded(bs[0] as nat, 16, 2)
    } else {
        hex_list(bs.drop_last()).push(' ') + text::padded(bs.last() as nat, 16, 2)
    }
}

/// Formats bytes as two-digit hexadecimal, separated by spaces.
pub fn bytes_hex(bs: &[u8]) -> (s: String)
    ensures
        s@ == hex_list(bs@),
{
    let mut s = String::new();
    let mut i: usize = 0;
    while i < bs.len()
        invariant
            i <= bs@.len(),
            s@ == hex_list(bs@.take(i as int)),
        decreases bs.len() - i,
    {
        proof {
            let next = bs@.take(i + 1);
            assert(next.drop_last() =~= bs@.take(i as int));
            assert(next.last() == bs@[i as int]);
        }
        if i > 0 {
            s.push(' ');
        }
        push_padded(&mut s, bs[i] as u64, 16, 2);
        i += 1;
        assert(s@ =~= hex_list(bs@.take(i as int)));
    }
    assert(bs@.take(i as int) =~= bs@);
    s
}

/// A rel32 branch is its opcode, the distance from the byte behind it to its destination,
/// and filler that does nothing; it takes exactly the room it was given.
pub proof fn lemma_branch_bytes(opcode: u8, addr: u32, dest: u32, len: int)
    requires
        len >= 5,
    ensures
        branch_bytes(opcode, addr, dest, len).len() == len,
        branch_bytes(opcode, addr, dest, len)[0] == opcode,
        (addr + 5 + bytes::u32_at(branch_bytes(opcode, addr, dest, len), 1)) % 0x1_0000_0000
            == dest,
        forall|i: int|
            5 <= i < len ==> #[trigger] branch_bytes(opcode, addr, dest, len)[i] == 0x90,
{
    let written = branch_bytes(opcode, addr, dest, len);
    bytes::lemma_read_back(rel32(addr, dest), 0);
    assert(written.subrange(1, 5) =~= bytes::le32(rel32(addr, dest)));
    assert(bytes::u32_at(written, 1) == bytes::u32_at(written.subrange(1, 5), 0));
}

/// A branch whose displacement is zero leads to the byte behind it, and a displacement more
/// leads a byte further, around the end of the address space.
pub proof fn lemma_branch_target(addr: u32, disp: u32)
    ensures
        branch_target(addr, 0) == (addr + 5) % 0x1_0000_0000,
        disp < u32::MAX ==> branch_target(addr, (disp + 1) as u32) == (branch_target(addr, disp)
            + 1) % 0x1_0000_0000,
        rel32(addr, branch_target(addr, disp)) == disp,
{
}

/// The opcodes of a jump, a call and an instruction that does nothing, and what a patch may
/// span.
pub proof fn lemma_opcodes()
    ensures
        OPCODE_JMP == 0xe9,
        OPCODE_CALL == 0xe8,
        OPCODE_NOP == 0x90,
        REL32_LEN == 5,
        MAX_PATCH_LEN == 8,
{
}

/// A site holds when each of its bytes is the expected one; it is outside of the image when
/// one of its bytes is, or when it has none.
pub proof fn lemma_site_check(site: PatchSite, base: u32, image: Seq<u8>)
    ensures
        site_check(site, base, image) is OutOfImage <==> site.expected().len() == 0 || exists|k: int|
            0 <= k < site.expected().len() && !(0 <= #[trigger] (site.addr() + k - base)
                < image.len()),
        site_check(site, base, image) is Held <==> site.expected().len() > 0 && forall|k: int|
            0 <= k < site.expected().len() ==> 0 <= site.addr() + k - base < image.len()
                && image[site.addr() + k - base] == #[trigger] site.expected()[k],
{
    let n = site.expected().len() as int;
    let at = site.addr() - base;
    if n > 0 && !site_fits(site, base, image.len() as int) {
        if at < 0 {
            assert(!(0 <= site.addr() + 0 - base));
            assert(site.expected()[0] >= 0);
        } else {
            assert(!(site.addr() + (n - 1) - base < image.len()));
            assert(site.expected()[n - 1] >= 0);
        }
    }
    if site_fits(site, base, image.len() as int) {
        let here = image.subrange(at, at + n);
        if here == site.expected() {
            assert forall|k: int| 0 <= k < n implies image[site.addr() + k - base]
                == #[trigger] site.expected()[k] by {
                assert(here[k] == image[at + k]);
            }
        }
        if forall|k: int|
            0 <= k < n ==> 0 <= site.addr() + k - base < image.len() && image[site.addr() + k
                - base] == #[trigger] site.expected()[k] {
            assert(here =~= site.expected());
        }
    }
}

/// The sites that hold are counted one for one: all of them are as many as there are only
/// if each holds, and none only if none does.
pub proof fn lemma_held_count(sites: Seq<PatchSite>, base: u32, image: Seq<u8>)
    ensures
        held_count(sites, base, image) <= sites.len(),
        held_count(sites, base, image) == sites.len() <==> forall|i: int|
            0 <= i < sites.len() ==> site_check(#[trigger] sites[i], base, image) is Held,
        held_count(sites, base, image) == 0 <==> forall|i: int|
            0 <= i < sites.len() ==> !(site_check(#[trigger] sites[i], base, image) is Held),
    decreases sites.len(),
{
    if sites.len() > 0 {
        let front = sites.drop_last();
        lemma_held_count(front, base, image);
        assert(forall|i: int| 0 <= i < front.len() ==> #[trigger] front[i] == sites[i]);
        assert(sites.last() == sites[sites.len() - 1]);
        if forall|i: int|
            0 <= i < front.len() ==> site_check(#[trigger] front[i], base, image) is Held {
            assert forall|i: int| 0 <= i < front.len() implies site_check(
                #[trigger] sites[i],
                base,
                image,
            ) is Held by {
                assert(front[i] == sites[i]);
            }
        } else {
            let i = choose|i: int|
                0 <= i < front.len() && !(site_check(#[trigger] front[i], base, image) is Held);
            assert(!(site_check(sites[i], base, image) is Held));
        }
        if forall|i: int|
            0 <= i < front.len() ==> !(site_check(#[trigger] front[i], base, image) is Held) {
            assert forall|i: int| 0 <= i < front.len() implies !(site_check(
                #[trigger] sites[i],
                base,
                image,
            ) is Held) by {
                assert(front[i] == sites[i]);
            }
        } else {
            let i = choose|i: int|
                0 <= i < front.len() && site_check(#[trigger] front[i], base, image) is Held;
            assert(site_check(sites[i], base, image) is Held);
        }
    }
}

/// One more site counts when it holds.
pub proof fn lemma_held_count_grows(
    sites: Seq<PatchSite>,
    site: PatchSite,
    base: u32,
    image: Seq<u8>,
)
    ensures
        held_count(sites.push(site), base, image) - held_count(sites, base, image) == if site_check(
            site,
            base,
            image,
        ) is Held {
            1int
        } else {
            0
        },
{
    assert(sites.push(site).drop_last() =~= sites);
}

/// Writes go on up to the first refusal.
pub proof fn lemma_first_refusal(ok: Seq<bool>, n: int)
    requires
        0 <= n,
    ensures
        0 <= first_refusal(ok, n) <= n,
        forall|i: int| 0 <= i < first_refusal(ok, n) ==> #[trigger] ok[i],
        first_refusal(ok, n) < n ==> !ok[first_refusal(ok, n)],
    decreases n,
{
    if n > 0 {
        lemma_first_refusal(ok, n - 1);
    }
}

/// Applying a site changes its own bytes and no others.
pub proof fn lemma_patched(site: PatchSite, base: u32, image: Seq<u8>)
    requires
        site.wf(),
        site_fits(site, base, image.len() as int),
    ensures
        patched(site, base, image).len() == image.len(),
        forall|i: int|
            0 <= i < image.len() && !covers(site, base + i) ==> #[trigger] patched(
                site,
                base,
                image,
            )[i] == image[i],
        forall|k: int|
            0 <= k < site.expected().len() ==> patched(site, base, image)[site.addr() - base + k]
                == #[trigger] site.replacement()[k],
{
    assert(site.replacement().len() == site.expected().len());
}

/// Groups are taken one after the other, each with all its sites in order.
pub proof fn lemma_groups_in_order(groups: Seq<&[PatchSite]>, group: &[PatchSite])
    ensures
        all_sites(groups.push(group)) == all_sites(groups) + group@,
        all_sites(seq![group]) == group@,
        all_sites(seq![]) == Seq::<PatchSite>::empty(),
{
    assert(groups.push(group).drop_last() =~= groups);
    assert(seq![group].drop_last() =~= Seq::<&[PatchSite]>::empty());
    assert(all_sites(Seq::<&[PatchSite]>::empty()) =~= Seq::<PatchSite>::empty());
    assert(all_sites(seq![group]) =~= group@);
}

/// Bytes in hexadecimal take two digits each with a space between two of them, and the
/// digits are those of the byte.
pub proof fn lemma_hex_list(bs: Seq<u8>)
    requires
        bs.len() > 0,
    ensures
        hex_list(bs).len() == 3 * bs.len() - 1,
        forall|i: int|
            0 <= i < bs.len() ==> hex_list(bs)[3 * i] == text::digit_char(
                (#[trigger] bs[i] / 16) as nat,
            ) && hex_list(bs)[3 * i + 1] == text::digit_char((bs[i] % 16) as nat),
        forall|i: int| 0 < i < bs.len() ==> #[trigger] hex_list(bs)[3 * i - 1] == ' ',
    decreases bs.len(),
{
    let last = bs.last();
    lemma_hex_byte(last);
    if bs.len() > 1 {
        let front = bs.drop_last();
        lemma_hex_list(front);
        assert forall|i: int| 0 <= i < bs.len() implies hex_list(bs)[3 * i] == text::digit_char(
            (#[trigger] bs[i] / 16) as nat,
        ) && hex_list(bs)[3 * i + 1] == text::digit_char((bs[i] % 16) as nat) by {
            if i < front.len() {
                assert(front[i] == bs[i]);
            }
        }
        assert forall|i: int| 0 < i < bs.len() implies #[trigger] hex_list(bs)[3 * i - 1]
            == ' ' by {
            if i < front.len() {
                assert(hex_list(front)[3 * i - 1] == ' ');
            }
        }
    }
}

/// The two hexadecimal digits of a byte.
proof fn lemma_hex_byte(b: u8)
    ensures
        text::padded(b as nat, 16, 2) == seq![
            text::digit_char((b / 16) as nat),
            text::digit_char((b % 16) as nat),
        ],
{
    reveal_with_fuel(text::number, 3);
    assert(text::padded(b as nat, 16, 2) =~= seq![
        text::digit_char((b / 16) as nat),
        text::digit_char((b % 16) as nat),
    ]);
}

} // verus!

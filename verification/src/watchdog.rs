//! Hang diagnostics: when the render thread is stuck, which threads are sampled, and how
//! a chain of stack frames is walked.

use crate::decode;
use crate::decode::from_utf16_lossy;
use crate::nonzero::NonZeroU32;
use vstd::prelude::*;

verus! {

/// The most frames that are walked.
pub const MAX_FRAMES: usize = 32;

/// How far above the stack pointer frames are looked for.
pub const MAX_STACK_SPAN: u32 = 0x0010_0000;

/// What the watchdog saw last.
pub struct Watchdog {
    iter: u64,
    prev_frame: Option<u32>,
}

/// What a tick of the watchdog found.
#[derive(Clone, Copy, Debug, PartialEq, Eq, Structural)]
pub enum Tick {
    /// A frame was presented since the last tick.
    Alive,
    /// No frame was presented since the last tick.
    Stuck,
}

impl Watchdog {
    /// The ticks so far.
    pub closed spec fn ticks(&self) -> nat {
        self.iter as nat
    }

    /// The frame count at the last tick.
    pub closed spec fn last_frame(&self) -> Option<u32> {
        self.prev_frame
    }

    pub fn new() -> (dog: Watchdog)
        ensures
            dog.ticks() == 0,
            dog.last_frame() is None,
    {
        Watchdog { iter: 0, prev_frame: None }
    }

    /// Compares the frame count with that of the last tick. The first tick has nothing to
    /// compare with.
    pub fn tick(&mut self, frame: u32) -> (tick: Tick)
        requires
            old(self).ticks() < u64::MAX,
        ensures
            tick == (if old(self).last_frame() == Some(frame) {
                Tick::Stuck
            } else {
                Tick::Alive
            }),
            final(self).ticks() == old(self).ticks() + 1,
            final(self).last_frame() == Some(frame),
    {
        self.iter = self.iter + 1;
        let stuck = match self.prev_frame {
            Some(prev) => prev == frame,
            None => false,
        };
        self.prev_frame = Some(frame);
        if stuck {
            Tick::Stuck
        } else {
            Tick::Alive
        }
    }
}

/// What a snapshot of a stuck process covers.
#[derive(Clone, Copy, Debug, PartialEq, Eq, Structural)]
pub enum Snapshot {
    /// The render thread is not known: the headers of all threads.
    AllHeaders,
    /// The render thread could not be sampled.
    Unavailable,
    /// The render thread in full, and the headers of the others.
    Full,
}

pub fn snapshot_stuck(main_tid: u32, main_sampled: bool) -> (snapshot: Snapshot)
    ensures
        snapshot == (if main_tid == 0 {
            Snapshot::AllHeaders
        } else if !main_sampled {
            Snapshot::Unavailable
        } else {
            Snapshot::Full
        }),
{
    if main_tid == 0 {
        Snapshot::AllHeaders
    } else if !main_sampled {
        Snapshot::Unavailable
    } else {
        Snapshot::Full
    }
}

/// Whether a thread is sampled: it belongs to this process, and is neither the watchdog
/// nor the one to skip.
pub fn wants_sample(owner: u32, tid: u32, pid: u32, self_tid: u32, skip_tid: u32) -> (res: bool)
    ensures
        res == (owner == pid && tid != self_tid && tid != skip_tid),
{
    owner == pid && tid != self_tid && tid != skip_tid
}

/// The entry point of a thread, where the query gave one.
pub fn lookup_thread_start(status: i32, returned: u32, start: u32) -> (res: Option<NonZeroU32>)
    ensures
        match res {
            Some(a) => status >= 0 && returned == 4 && a@ == start,
            None => status < 0 || returned != 4 || start == 0,
        },
{
    if status >= 0 && returned == 4 {
        NonZeroU32::new(start)
    } else {
        None
    }
}

/// Where the type name lies in the reply to a query, as an offset and a number of UTF-16
/// units. The reply holds `len` bytes at address `base`; its header gives the name's size
/// in bytes and its address. A name that is not wholly within the reply is refused.
pub fn lookup_handle_type(status: i32, base: usize, len: usize, length: u16, name: usize) -> (res:
    Option<(usize, usize)>)
    requires
        base + len < usize::MAX,
    ensures
        match res {
            Some((at, units)) => {
                &&& status >= 0 && length != 0 && name != 0 && name % 2 == 0
                &&& at == name - base
                &&& units == length as int / 2
                &&& at + length <= len
            },
            None => {
                ||| status < 0
                ||| length == 0
                ||| name == 0
                ||| name < base
                ||| name + length > base + len
                ||| name % 2 != 0
            },
        },
{
    if status < 0 || length == 0 || name == 0 {
        return None;
    }
    let end: usize = base + len;
    let name_end: usize = match name.checked_add(length as usize) {
        Some(name_end) => name_end,
        None => {
            return None;
        },
    };
    if name < base || name_end > end || name % 2 != 0 {
        return None;
    }
    Some((name - base, length as usize / 2))
}

/// The top of the range in which frames are looked for.
pub open spec fn stack_top(esp: u32) -> int {
    if esp + MAX_STACK_SPAN > u32::MAX {
        u32::MAX as int
    } else {
        esp + MAX_STACK_SPAN
    }
}

/// A walk along the saved frame pointers of a stack.
pub struct FrameWalk {
    esp: u32,
    ebp: u32,
    prev: u32,
    done: bool,
    frames: Vec<u32>,
}

impl FrameWalk {
    /// The return addresses found so far.
    pub closed spec fn frames(&self) -> Seq<u32> {
        self.frames@
    }

    /// The frame pointer to follow.
    pub closed spec fn ebp(&self) -> u32 {
        self.ebp
    }

    /// The frame pointer followed last.
    pub closed spec fn prev(&self) -> u32 {
        self.prev
    }

    pub closed spec fn esp(&self) -> u32 {
        self.esp
    }

    /// The walk came to an end.
    pub closed spec fn done(&self) -> bool {
        self.done
    }

    /// Whether the frame pointer is followed: it is aligned, lies above the stack pointer
    /// within reach, and above the last one.
    pub open spec fn follows(&self) -> bool {
        &&& !self.done()
        &&& self.frames().len() < MAX_FRAMES
        &&& self.ebp() % 4 == 0
        &&& self.esp() <= self.ebp()
        &&& self.ebp() < stack_top(self.esp())
        &&& self.ebp() > self.prev()
    }

    /// Starts a walk. Without a stack pointer there is nothing to walk.
    pub fn start(ebp: u32, esp: u32) -> (walk: FrameWalk)
        ensures
            walk.frames() == Seq::<u32>::empty(),
            walk.ebp() == ebp,
            walk.esp() == esp,
            walk.prev() == 0,
            walk.done() == (esp == 0),
    {
        FrameWalk { esp, ebp, prev: 0, done: esp == 0, frames: Vec::new() }
    }

    /// The address of the two words to read next, if the walk goes on.
    pub fn pending(&self) -> (res: Option<u32>)
        ensures
            match res {
                Some(at) => self.follows() && at == self.ebp(),
                None => !self.follows(),
            },
    {
        let hi: u32 = if self.esp > u32::MAX - MAX_STACK_SPAN {
            u32::MAX
        } else {
            self.esp + MAX_STACK_SPAN
        };
        if self.done || self.frames.len() >= MAX_FRAMES || self.ebp % 4 != 0 || self.ebp < self.esp
            || self.ebp >= hi || self.ebp <= self.prev {
            None
        } else {
            Some(self.ebp)
        }
    }

    /// Takes what was read at the pending address: the saved frame pointer and the return
    /// address, or `None` where both could not be read, which ends the walk.
    pub fn feed(&mut self, read: Option<(u32, u32)>)
        requires
            old(self).follows(),
        ensures
            final(self).esp() == old(self).esp(),
            final(self).prev() == old(self).ebp(),
            match read {
                Some((saved, ret)) => {
                    &&& final(self).frames() == old(self).frames().push(ret)
                    &&& final(self).ebp() == saved
                    &&& !final(self).done()
                },
                None => {
                    &&& final(self).frames() == old(self).frames()
                    &&& final(self).done()
                },
            },
    {
        self.prev = self.ebp;
        match read {
            Some((saved, ret)) => {
                self.frames.push(ret);
                self.ebp = saved;
            },
            None => {
                self.done = true;
            },
        }
    }

    /// The return addresses, innermost first.
    pub fn into_frames(self) -> (frames: Vec<u32>)
        ensures
            frames@ == self.frames(),
    {
        self.frames
    }
}

/// The return addresses along the frames of a stack window: `words` from address `base`
/// upwards.
pub open spec fn frames_in(
    words: Seq<u32>,
    base: u32,
    ebp: u32,
    esp: u32,
    prev: u32,
    left: nat,
) -> Seq<u32>
    decreases left,
{
    if left == 0 || ebp % 4 != 0 || ebp < esp || ebp >= stack_top(esp) || ebp <= prev || !holds_pair(
        words,
        base,
        ebp,
    ) {
        seq![]
    } else {
        let at = (ebp - base) / 4;
        seq![words[at + 1]] + frames_in(words, base, words[at], esp, ebp, (left - 1) as nat)
    }
}

/// Whether the two words at `ebp` lie in the window.
pub open spec fn holds_pair(words: Seq<u32>, base: u32, ebp: u32) -> bool {
    base <= ebp && (ebp - base) % 4 == 0 && (ebp - base) / 4 + 1 < words.len()
}

/// Walks the frames of a stack window.
pub fn walk_ebp_frames(words: &Vec<u32>, base: u32, ebp: u32, esp: u32) -> (frames: Vec<u32>)
    ensures
        frames@ == if esp == 0 {
            seq![]
        } else {
            frames_in(words@, base, ebp, esp, 0, MAX_FRAMES as nat)
        },
        frames@.len() <= MAX_FRAMES,
{
    let mut walk = FrameWalk::start(ebp, esp);
    let mut left: usize = MAX_FRAMES;
    let ghost whole = if esp == 0 {
        seq![]
    } else {
        frames_in(words@, base, ebp, esp, 0, MAX_FRAMES as nat)
    };
    assert(Seq::<u32>::empty() + whole =~= whole);
    loop
        invariant
            walk.esp() == esp,
            left + walk.frames().len() == MAX_FRAMES,
            walk.done() ==> walk.frames() =~= whole,
            !walk.done() ==> esp != 0 && walk.frames() + frames_in(
                words@,
                base,
                walk.ebp(),
                esp,
                walk.prev(),
                left as nat,
            ) =~= whole,
        ensures
            walk.frames() =~= whole,
            walk.frames().len() <= MAX_FRAMES,
        decreases left, if walk.done() {
            0int
        } else {
            1int
        },
    {
        let at: u32 = match walk.pending() {
            Some(at) => at,
            None => {
                break;
            },
        };
        let mut read: Option<(u32, u32)> = None;
        if base <= at && (at - base) % 4 == 0 {
            let i: usize = ((at - base) / 4) as usize;
            if i + 1 < words.len() {
                read = Some((words[i], words[i + 1]));
            }
        }
        assert(read is Some == holds_pair(words@, base, at));
        walk.feed(read);
        if read.is_some() {
            left = left - 1;
        }
    }
    walk.into_frames()
}

/// The name of a handle's type, if it could be read.
pub fn handle_type_name(read: Option<&[u16]>) -> (name: Option<String>)
    ensures
        match name {
            Some(s) => read is Some && s@ == decode::utf16_lossy(read->0@),
            None => read is None,
        },
{
    match read {
        Some(units) => Some(from_utf16_lossy(units)),
        None => None,
    }
}

/// The thread that a handle stands for: `tid`, unless the handle is null, its type is
/// unknown, or it is no thread's. Only for a handle of a known type `tid` has to be asked
/// for.
pub fn wait_target(handle: u32, type_known: bool, tid: u32) -> (target: Option<NonZeroU32>)
    ensures
        match target {
            Some(t) => handle != 0 && type_known && t@ == tid,
            None => handle == 0 || !type_known || tid == 0,
        },
{
    if handle != 0 && type_known {
        NonZeroU32::new(tid)
    } else {
        None
    }
}

/// Whether the whole chain of thread `tid` is reported, besides its header: of the others,
/// only that of the thread which the main thread waits for.
pub fn gets_full_chain(tid: u32, target: Option<NonZeroU32>) -> (res: bool)
    ensures
        res == (target is Some && target->0@ == tid),
{
    match target {
        Some(t) => t.get() == tid,
        None => false,
    }
}

/// Frames are looked for within a megabyte above the stack pointer, and not past the end of
/// the address space; no more than 32 of them are walked.
pub proof fn lemma_stack_range(esp: u32)
    ensures
        esp <= 0xffef_ffff ==> stack_top(esp) == esp + 0x10_0000,
        esp >= 0xffef_ffff ==> stack_top(esp) == 0xffff_ffff,
        MAX_FRAMES == 32,
        MAX_STACK_SPAN == 0x10_0000,
{
}

/// The frame pointer that leads to return address `i` of a walk.
pub open spec fn followed(words: Seq<u32>, base: u32, ebp: u32, i: nat) -> u32
    decreases i,
{
    if i == 0 {
        ebp
    } else {
        words[(followed(words, base, ebp, (i - 1) as nat) - base) / 4]
    }
}

/// Each return address stands behind the saved frame pointer that the one before it led to.
/// The frame pointers are aligned, lie above the stack pointer within reach, and rise.
pub proof fn lemma_frames(
    words: Seq<u32>,
    base: u32,
    ebp: u32,
    esp: u32,
    prev: u32,
    left: nat,
    i: nat,
)
    requires
        i < frames_in(words, base, ebp, esp, prev, left).len(),
    ensures
        ({
            let at = followed(words, base, ebp, i);
            let frames = frames_in(words, base, ebp, esp, prev, left);
            &&& frames.len() <= left
            &&& at % 4 == 0 && (at - base) % 4 == 0
            &&& esp <= at < esp + 0x10_0000 && base <= at && prev < at
            &&& i > 0 ==> followed(words, base, ebp, (i - 1) as nat) < at
            &&& (at - base) / 4 + 1 < words.len()
            &&& frames[i as int] == words[(at - base) / 4 + 1]
        }),
    decreases i,
{
    let rest = frames_in(
        words,
        base,
        words[(ebp - base) / 4],
        esp,
        ebp,
        (left - 1) as nat,
    );
    lemma_frames_bounded(words, base, ebp, esp, prev, left);
    if i > 0 {
        let next = words[(ebp - base) / 4];
        lemma_frames(words, base, next, esp, ebp, (left - 1) as nat, (i - 1) as nat);
        lemma_followed(words, base, ebp, (i - 1) as nat);
        if i > 1 {
            lemma_followed(words, base, ebp, (i - 2) as nat);
        }
        assert(frames_in(words, base, ebp, esp, prev, left)[i as int] == rest[i - 1]);
    }
}

/// A walk has no more frames than it may.
proof fn lemma_frames_bounded(
    words: Seq<u32>,
    base: u32,
    ebp: u32,
    esp: u32,
    prev: u32,
    left: nat,
)
    ensures
        frames_in(words, base, ebp, esp, prev, left).len() <= left,
    decreases left,
{
    if frames_in(words, base, ebp, esp, prev, left).len() > 0 {
        lemma_frames_bounded(
            words,
            base,
            words[(ebp - base) / 4],
            esp,
            ebp,
            (left - 1) as nat,
        );
    }
}

/// Following the chain from its second frame on skips the first.
proof fn lemma_followed(words: Seq<u32>, base: u32, ebp: u32, i: nat)
    ensures
        followed(words, base, words[(ebp - base) / 4], i) == followed(words, base, ebp, i + 1),
    decreases i,
{
    reveal_with_fuel(followed, 2);
    if i > 0 {
        lemma_followed(words, base, ebp, (i - 1) as nat);
    }
}

/// A walk goes on as long as it can: it stops at a frame pointer that is not aligned, not
/// within reach, not above the last one or not readable, and takes one frame at any other.
pub proof fn lemma_walk_goes_on(
    words: Seq<u32>,
    base: u32,
    ebp: u32,
    esp: u32,
    prev: u32,
    left: nat,
)
    requires
        left > 0,
    ensures
        frames_in(words, base, ebp, esp, prev, left).len() == 0 <==> ebp % 4 != 0 || ebp < esp
            || ebp >= stack_top(esp) || ebp <= prev || base > ebp || (ebp - base) % 4 != 0 || 4 * (
        words.len() - 2) < ebp - base,
        frames_in(words, base, ebp, esp, prev, left).len() > 0 ==> frames_in(
            words,
            base,
            ebp,
            esp,
            prev,
            left,
        ).skip(1) == frames_in(
            words,
            base,
            words[(ebp - base) / 4],
            esp,
            ebp,
            (left - 1) as nat,
        ),
{
    let frames = frames_in(words, base, ebp, esp, prev, left);
    if frames.len() > 0 {
        assert(frames.skip(1) =~= frames_in(
            words,
            base,
            words[(ebp - base) / 4],
            esp,
            ebp,
            (left - 1) as nat,
        ));
    }
}

/// A walk follows a frame pointer that is a multiple of four, not below the stack pointer,
/// below the top of its reach, and above the last one; it ends after 32 frames.
pub proof fn lemma_follows(walk: FrameWalk)
    ensures
        walk.follows() <==> !walk.done() && walk.frames().len() < 32 && walk.ebp() % 4 == 0
            && walk.esp() <= walk.ebp() < stack_top(walk.esp()) && walk.prev() < walk.ebp(),
{
}

} // verus!

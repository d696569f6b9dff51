//! Disabling of frameskip in the games' configuration files.
//!
//! The games must present every logic tick, so their loaders are handed a frameskip of
//! zero, and what the player saved is put back into every image that is written out.

use vstd::prelude::*;
use vstd::string::*;
use crate::bytes;
use crate::bytes::{bytes_equal, cast_signed, read_u32, to_lower, to_vec};

verus! {

/// A compare instruction from a game's validation of its configuration.
#[allow(inconsistent_fields)]
#[derive(Clone, Copy, Debug, PartialEq, Eq, Structural)]
pub enum CfgCheck {
    /// An unsigned byte below `bound`.
    ByteMax { offset: u32, bound: u8 },
    /// A signed dword below `bound`.
    SdwordMax { offset: u32, bound: i32 },
    /// A dword equal to `value`.
    DwordEq { offset: u32, value: u32 },
}

impl CfgCheck {
    /// Where the checked field starts.
    pub open spec fn at(self) -> int {
        match self {
            CfgCheck::ByteMax { offset, .. } => offset as int,
            CfgCheck::SdwordMax { offset, .. } => offset as int,
            CfgCheck::DwordEq { offset, .. } => offset as int,
        }
    }

    /// How many bytes the checked field has.
    pub open spec fn bytes_wide(self) -> int {
        match self {
            CfgCheck::ByteMax { .. } => 1,
            _ => 4,
        }
    }

    /// Whether the field lies inside an image of `size` bytes.
    pub open spec fn inside(self, size: int) -> bool {
        self.at() + self.bytes_wide() <= size
    }

    /// Whether the image passes.
    pub open spec fn accepts(self, image: Seq<u8>) -> bool {
        match self {
            CfgCheck::ByteMax { offset, bound } => image[offset as int] < bound,
            CfgCheck::SdwordMax { offset, bound } => bytes::as_signed(
                bytes::u32_at(image, offset as int),
            ) < bound,
            CfgCheck::DwordEq { offset, value } => bytes::u32_at(image, offset as int) == value,
        }
    }

    pub fn byte_max(offset: u32, bound: u8) -> (check: CfgCheck)
        ensures
            check == (CfgCheck::ByteMax { offset, bound }),
    {
        CfgCheck::ByteMax { offset, bound }
    }

    pub fn sdword_max(offset: u32, bound: i32) -> (check: CfgCheck)
        ensures
            check == (CfgCheck::SdwordMax { offset, bound }),
    {
        CfgCheck::SdwordMax { offset, bound }
    }

    pub fn dword_eq(offset: u32, value: u32) -> (check: CfgCheck)
        ensures
            check == (CfgCheck::DwordEq { offset, value }),
    {
        CfgCheck::DwordEq { offset, value }
    }

    /// Where the checked field starts.
    pub fn offset(&self) -> (res: u32)
        ensures
            res == self.at(),
    {
        match self {
            CfgCheck::ByteMax { offset, .. } => *offset,
            CfgCheck::SdwordMax { offset, .. } => *offset,
            CfgCheck::DwordEq { offset, .. } => *offset,
        }
    }

    /// How many bytes the checked field has.
    pub fn width(&self) -> (res: u32)
        ensures
            res == self.bytes_wide(),
    {
        match self {
            CfgCheck::ByteMax { .. } => 1,
            CfgCheck::SdwordMax { .. } | CfgCheck::DwordEq { .. } => 4,
        }
    }

    /// Returns whether this check's field lies inside a `size`-byte image.
    pub fn fits(&self, size: u32) -> (res: bool)
        ensures
            res == self.inside(size as int),
    {
        self.width() <= size && self.offset() <= size - self.width()
    }

    /// Returns whether a whole image passes this check.
    pub fn passes(&self, image: &[u8]) -> (res: bool)
        requires
            self.inside(image@.len() as int),
        ensures
            res == self.accepts(image@),
    {
        match self {
            CfgCheck::ByteMax { offset, bound } => image[*offset as usize] < *bound,
            CfgCheck::SdwordMax { offset, bound } => match read_u32(image, *offset as usize) {
                Some(v) => cast_signed(v) < *bound,
                None => false,
            },
            CfgCheck::DwordEq { offset, value } => match read_u32(image, *offset as usize) {
                Some(v) => v == *value,
                None => false,
            },
        }
    }
}

/// The frameskip byte: where it is, and the bound that the loader accepts values below.
#[derive(Clone, Copy, Debug, PartialEq, Eq, Structural)]
pub struct ByteField {
    pub offset: u32,
    pub bound: u8,
}

impl ByteField {
    /// The check that the loader makes of the byte.
    pub open spec fn check(self) -> CfgCheck {
        CfgCheck::ByteMax { offset: self.offset, bound: self.bound }
    }

    /// The check that the loader makes of the byte.
    pub fn as_check(&self) -> (res: CfgCheck)
        ensures
            res == self.check(),
    {
        CfgCheck::ByteMax { offset: self.offset, bound: self.bound }
    }
}

/// A game's configuration file format.
#[derive(Debug)]
pub struct CfgFile {
    /// The base name of the file in ASCII.
    pub file_name: &'static str,
    /// The magic/version dword at file offset 0.
    pub magic: u32,
    /// The exact byte size of a current-version file.
    pub size: u32,
    pub frameskip: ByteField,
    /// The loader's checks of the remaining fields, in the game's own order.
    pub other_checks: Vec<CfgCheck>,
}

/// What is wrong with a format.
#[derive(Clone, Copy, Debug, PartialEq, Eq, Structural)]
pub enum CfgDefect {
    /// The image does not hold the magic dword.
    TooSmall,
    /// The frameskip byte is outside the image.
    FrameskipOutside,
    /// This check is outside the image.
    CheckOutside(usize),
}

/// What the read hook should do with an identified image.
#[derive(Clone, Copy, Debug, PartialEq, Eq, Structural)]
pub enum ReadVerdict {
    /// The image is valid with frameskip already 0.
    AlreadyOff,
    /// The image passes the game's whole validation and holds this nonzero frameskip.
    Force(u8),
    /// The check at this offset fails, so the game will reset everything to defaults. The
    /// image is left alone.
    Reject { offset: u32 },
}

/// The first of `checks` that the image fails.
pub open spec fn first_failing(checks: Seq<CfgCheck>, image: Seq<u8>) -> Option<int>
    decreases checks.len(),
{
    if checks.len() == 0 {
        None
    } else {
        match first_failing(checks.drop_last(), image) {
            Some(i) => Some(i),
            None => if checks.last().accepts(image) {
                None
            } else {
                Some(checks.len() - 1)
            },
        }
    }
}

/// The first of `checks` that lies outside an image of `size` bytes.
pub open spec fn first_outside(checks: Seq<CfgCheck>, size: int) -> Option<int>
    decreases checks.len(),
{
    if checks.len() == 0 {
        None
    } else {
        match first_outside(checks.drop_last(), size) {
            Some(i) => Some(i),
            None => if checks.last().inside(size) {
                None
            } else {
                Some(checks.len() - 1)
            },
        }
    }
}

proof fn lemma_all_inside(checks: Seq<CfgCheck>, size: int)
    requires
        first_outside(checks, size) is None,
    ensures
        forall|i: int| 0 <= i < checks.len() ==> (#[trigger] checks[i]).inside(size),
    decreases checks.len(),
{
    if checks.len() > 0 {
        let front = checks.drop_last();
        lemma_all_inside(front, size);
        assert forall|i: int| 0 <= i < checks.len() implies (#[trigger] checks[i]).inside(size) by {
            if i < front.len() {
                assert(front[i] == checks[i]);
            }
        }
    }
}

proof fn lemma_failing_is_at(checks: Seq<CfgCheck>, image: Seq<u8>)
    ensures
        match first_failing(checks, image) {
            Some(i) => 0 <= i < checks.len() && !checks[i].accepts(image),
            None => forall|i: int| 0 <= i < checks.len() ==> (#[trigger] checks[i]).accepts(image),
        },
    decreases checks.len(),
{
    if checks.len() > 0 {
        let front = checks.drop_last();
        lemma_failing_is_at(front, image);
        if first_failing(front, image) is None {
            assert forall|i: int|
                0 <= i < checks.len() && first_failing(checks, image) is None implies (
            #[trigger] checks[i]).accepts(image) by {
                if i < front.len() {
                    assert(front[i] == checks[i]);
                }
            }
        }
    }
}

impl CfgFile {
    /// Every field of the format lies inside its image.
    pub open spec fn wf(self) -> bool {
        &&& self.size >= 4
        &&& self.frameskip.offset < self.size
        &&& first_outside(self.other_checks@, self.size as int) is None
    }

    /// Whether the image starts with the magic dword.
    pub open spec fn magic_matches(self, image: Seq<u8>) -> bool {
        image.len() >= 4 && bytes::u32_at(image, 0) == self.magic
    }

    /// The verdict on an identified image.
    pub open spec fn verdict(self, image: Seq<u8>) -> ReadVerdict {
        let user = image[self.frameskip.offset as int];
        match first_failing(self.other_checks@, image) {
            Some(i) => ReadVerdict::Reject { offset: self.other_checks@[i].at() as u32 },
            None => if user == 0 {
                ReadVerdict::AlreadyOff
            } else if user < self.frameskip.bound {
                ReadVerdict::Force(user)
            } else {
                ReadVerdict::Reject { offset: self.frameskip.offset }
            },
        }
    }

    /// The image with the frameskip byte set to `value`.
    pub open spec fn with_frameskip(self, image: Seq<u8>, value: u8) -> Seq<u8> {
        image.update(self.frameskip.offset as int, value)
    }

    /// Checks that every field of the format lies inside its image.
    pub fn validate(&self) -> (res: Result<(), CfgDefect>)
        ensures
            res is Ok <==> self.wf(),
            res == if self.size < 4 {
                Err(CfgDefect::TooSmall)
            } else if !self.frameskip.check().inside(self.size as int) {
                Err(CfgDefect::FrameskipOutside)
            } else {
                match first_outside(self.other_checks@, self.size as int) {
                    Some(i) => Err(CfgDefect::CheckOutside(i as usize)),
                    None => Ok(()),
                }
            },
    {
        if self.size < 4 {
            return Err(CfgDefect::TooSmall);
        }
        if !self.frameskip.as_check().fits(self.size) {
            return Err(CfgDefect::FrameskipOutside);
        }
        let mut i: usize = 0;
        while i < self.other_checks.len()
            invariant
                i <= self.other_checks@.len(),
                self.size >= 4,
                self.frameskip.check().inside(self.size as int),
                first_outside(self.other_checks@.take(i as int), self.size as int) is None,
            decreases self.other_checks.len() - i,
        {
            proof {
                let next = self.other_checks@.take(i + 1);
                assert(next.drop_last() =~= self.other_checks@.take(i as int));
                assert(next.last() == self.other_checks@[i as int]);
            }
            if !self.other_checks[i].fits(self.size) {
                proof {
                    lemma_outside_found(self.other_checks@, self.size as int, i as int);
                }
                return Err(CfgDefect::CheckOutside(i));
            }
            i += 1;
        }
        assert(self.other_checks@.take(i as int) =~= self.other_checks@);
        Ok(())
    }

    /// Returns whether the image starts with the magic dword.
    pub fn has_magic(&self, image: &[u8]) -> (res: bool)
        ensures
            res == self.magic_matches(image@),
    {
        match read_u32(image, 0) {
            Some(v) => v == self.magic,
            None => false,
        }
    }

    /// Judges an identified image as the game's own loader does.
    pub fn read_verdict(&self, image: &[u8]) -> (res: ReadVerdict)
        requires
            self.wf(),
            image@.len() == self.size,
        ensures
            res == self.verdict(image@),
    {
        proof {
            lemma_all_inside(self.other_checks@, self.size as int);
        }
        let mut i: usize = 0;
        while i < self.other_checks.len()
            invariant
                i <= self.other_checks@.len(),
                self.wf(),
                image@.len() == self.size,
                forall|k: int|
                    0 <= k < self.other_checks@.len() ==> (#[trigger] self.other_checks@[k]).inside(
                        image@.len() as int,
                    ),
                first_failing(self.other_checks@.take(i as int), image@) is None,
            decreases self.other_checks.len() - i,
        {
            proof {
                let next = self.other_checks@.take(i + 1);
                assert(next.drop_last() =~= self.other_checks@.take(i as int));
                assert(next.last() == self.other_checks@[i as int]);
            }
            if !self.other_checks[i].passes(image) {
                proof {
                    lemma_failure_found(self.other_checks@, image@, i as int);
                }
                return ReadVerdict::Reject { offset: self.other_checks[i].offset() };
            }
            i += 1;
        }
        assert(self.other_checks@.take(i as int) =~= self.other_checks@);
        let user: u8 = image[self.frameskip.offset as usize];
        if user == 0 {
            ReadVerdict::AlreadyOff
        } else if user < self.frameskip.bound {
            ReadVerdict::Force(user)
        } else {
            ReadVerdict::Reject { offset: self.frameskip.offset }
        }
    }

    /// Restores the player's frameskip value into an outgoing image. A byte that the game
    /// has changed from zero is its own choice, and the image is not touched.
    pub fn restore_in_place(&self, image: &mut Vec<u8>, user: u8) -> (res: Result<
        (),
        &'static str,
    >)
        requires
            self.wf(),
            old(image)@.len() == self.size,
        ensures
            old(image)@[self.frameskip.offset as int] == 0 ==> res is Ok && final(image)@
                == self.with_frameskip(old(image)@, user),
            old(image)@[self.frameskip.offset as int] != 0 ==> res is Err && res->Err_0@
                == "byte_not_forced"@ && final(image)@ == old(image)@,
    {
        let offset: usize = self.frameskip.offset as usize;
        if image[offset] != 0 {
            return Err("byte_not_forced");
        }
        image.set(offset, user);
        Ok(())
    }
}

proof fn lemma_outside_found(checks: Seq<CfgCheck>, size: int, i: int)
    requires
        0 <= i < checks.len(),
        first_outside(checks.take(i), size) is None,
        !checks[i].inside(size),
    ensures
        first_outside(checks, size) == Some(i),
    decreases checks.len() - i,
{
    lemma_outside_prefix(checks, size, i, checks.len() as int);
    assert(checks.take(checks.len() as int) =~= checks);
}

proof fn lemma_outside_prefix(checks: Seq<CfgCheck>, size: int, i: int, n: int)
    requires
        0 <= i < n <= checks.len(),
        first_outside(checks.take(i), size) is None,
        !checks[i].inside(size),
    ensures
        first_outside(checks.take(n), size) == Some(i),
    decreases n,
{
    let head = checks.take(n);
    assert(head.drop_last() =~= checks.take(n - 1));
    assert(head.last() == checks[n - 1]);
    if n > i + 1 {
        lemma_outside_prefix(checks, size, i, n - 1);
    }
}

proof fn lemma_failure_found(checks: Seq<CfgCheck>, image: Seq<u8>, i: int)
    requires
        0 <= i < checks.len(),
        first_failing(checks.take(i), image) is None,
        !checks[i].accepts(image),
    ensures
        first_failing(checks, image) == Some(i),
{
    lemma_failure_prefix(checks, image, i, checks.len() as int);
    assert(checks.take(checks.len() as int) =~= checks);
}

proof fn lemma_failure_prefix(checks: Seq<CfgCheck>, image: Seq<u8>, i: int, n: int)
    requires
        0 <= i < n <= checks.len(),
        first_failing(checks.take(i), image) is None,
        !checks[i].accepts(image),
    ensures
        first_failing(checks.take(n), image) == Some(i),
    decreases n,
{
    let head = checks.take(n);
    assert(head.drop_last() =~= checks.take(n - 1));
    assert(head.last() == checks[n - 1]);
    if n > i + 1 {
        lemma_failure_prefix(checks, image, i, n - 1);
    }
}

/// A value is only ever forced away if the game's own validation accepts the image.
pub proof fn lemma_force_only_accepted(cfg: CfgFile, image: Seq<u8>)
    requires
        cfg.verdict(image) is Force,
    ensures
        forall|i: int|
            0 <= i < cfg.other_checks@.len() ==> (#[trigger] cfg.other_checks@[i]).accepts(image),
        cfg.frameskip.check().accepts(image),
        cfg.verdict(image)->Force_0 == image[cfg.frameskip.offset as int],
        cfg.verdict(image)->Force_0 != 0,
{
    lemma_failing_is_at(cfg.other_checks@, image);
}

/// Forcing frameskip off and restoring the player's value gives the image back, and no
/// other byte is ever touched.
pub proof fn lemma_restore_undoes_force(cfg: CfgFile, image: Seq<u8>)
    requires
        cfg.frameskip.offset < image.len(),
    ensures
        cfg.with_frameskip(
            cfg.with_frameskip(image, 0),
            image[cfg.frameskip.offset as int],
        ) == image,
        forall|value: u8, i: int|
            0 <= i < image.len() && i != cfg.frameskip.offset ==> #[trigger] cfg.with_frameskip(
                image,
                value,
            )[i] == image[i],
{
    assert(cfg.with_frameskip(cfg.with_frameskip(image, 0), image[cfg.frameskip.offset as int])
        =~= image);
}

/// Whether `path` ends with `name` (ASCII case-insensitive) as a whole path component.
pub open spec fn names_file(path: Seq<u16>, name: Seq<u8>) -> bool {
    let start = path.len() - name.len();
    &&& start >= 0
    &&& forall|i: int|
        0 <= i < name.len() ==> (#[trigger] path[start + i]) < 0x100 && bytes::lower(
            path[start + i] as u8,
        ) == bytes::lower(name[i])
    &&& start == 0 || path[start - 1] == 0x5c || path[start - 1] == 0x2f
}

/// Returns whether `path` ends with `expect` (ASCII case-insensitive) as a whole path
/// component.
pub fn is_cfg_path(path: &[u16], expect: &str) -> (res: bool)
    ensures
        res == names_file(path@, expect.spec_bytes()),
{
    let name = expect.as_bytes();
    if path.len() < name.len() {
        return false;
    }
    let start: usize = path.len() - name.len();
    let mut i: usize = 0;
    while i < name.len()
        invariant
            i <= name@.len(),
            start + name@.len() == path.len(),
            name@ == expect.spec_bytes(),
            forall|k: int|
                0 <= k < i ==> (#[trigger] path@[start + k]) < 0x100 && bytes::lower(
                    path@[start + k] as u8,
                ) == bytes::lower(name@[k]),
        decreases name.len() - i,
    {
        let c: u16 = path[start + i];
        if c >= 0x100 || to_lower(c as u8) != to_lower(name[i]) {
            assert(!(path@[start + i] < 0x100 && bytes::lower(path@[start + i] as u8)
                == bytes::lower(name@[i as int])));
            return false;
        }
        i += 1;
    }
    start == 0 || path[start - 1] == 0x5c || path[start - 1] == 0x2f
}

/// What asking the system for a file's path gave.
#[derive(Clone, Copy, Debug, PartialEq, Eq, Structural)]
pub enum Identity {
    /// The path is that of the configuration file.
    Cfg,
    Other,
    /// The query failed.
    Unknown { error: u32 },
}

/// How many units the first query for a path has room for: the `\\?\` prefix, a path, and
/// the terminating NUL.
pub const MAX_PATH_LEN: u32 = 265;

/// The system's code for a buffer that is too small.
pub const ERROR_INSUFFICIENT_BUFFER: u32 = 122;

/// What follows the first query for a path.
#[derive(Clone, Copy, Debug, PartialEq, Eq, Structural)]
pub enum PathQuery {
    Done(Identity),
    /// The path is longer: ask again with room for this many units.
    Retry { capacity: u32 },
}

/// The identity of a file at `path`.
pub open spec fn identity_of(path: Seq<u16>, cfg: CfgFile) -> Identity {
    if names_file(path, cfg.file_name.spec_bytes()) {
        Identity::Cfg
    } else {
        Identity::Other
    }
}

/// Judges the first query for a file's path: `n` is what it returned, `error` the last
/// error, and `buf` the buffer of [`MAX_PATH_LEN`] units. A result at or above that is the
/// room that the path and its NUL take.
pub fn identify_cfg_handle(n: u32, error: u32, buf: &[u16], cfg: &CfgFile) -> (res: PathQuery)
    requires
        buf@.len() == MAX_PATH_LEN,
    ensures
        res == if n == 0 {
            PathQuery::Done(Identity::Unknown { error })
        } else if n < MAX_PATH_LEN {
            PathQuery::Done(identity_of(buf@.take(n as int), *cfg))
        } else {
            PathQuery::Retry { capacity: n }
        },
{
    if n == 0 {
        return PathQuery::Done(Identity::Unknown { error });
    }
    if n >= MAX_PATH_LEN {
        return PathQuery::Retry { capacity: n };
    }
    PathQuery::Done(identify_path(n, buf, cfg))
}

/// Judges the second query, made with a buffer of `capacity` units.
pub fn identify_cfg_handle_again(
    m: u32,
    capacity: u32,
    error: u32,
    buf: &[u16],
    cfg: &CfgFile,
) -> (res: Identity)
    requires
        buf@.len() == capacity,
    ensures
        res == if m == 0 {
            Identity::Unknown { error }
        } else if m >= capacity {
            Identity::Unknown { error: ERROR_INSUFFICIENT_BUFFER }
        } else {
            identity_of(buf@.take(m as int), *cfg)
        },
{
    if m == 0 {
        return Identity::Unknown { error };
    }
    if m >= capacity {
        return Identity::Unknown { error: ERROR_INSUFFICIENT_BUFFER };
    }
    identify_path(m, buf, cfg)
}

fn identify_path(n: u32, buf: &[u16], cfg: &CfgFile) -> (res: Identity)
    requires
        n <= buf@.len(),
    ensures
        res == identity_of(buf@.take(n as int), *cfg),
{
    let path = vstd::slice::slice_subrange(buf, 0, n as usize);
    assert(path@ =~= buf@.take(n as int));
    if is_cfg_path(path, cfg.file_name) {
        Identity::Cfg
    } else {
        Identity::Other
    }
}

/// What was forced when the game loaded its configuration.
struct PinState {
    user: u8,
    forced_image: Vec<u8>,
    first_write_checked: bool,
}

/// The configuration file of the running game, and what was forced in it.
pub struct CfgPin {
    cfg: CfgFile,
    pin: Option<PinState>,
}

/// What becomes of an outgoing image.
#[derive(Debug)]
pub struct WritePlan {
    /// The image to write in place of the game's own buffer.
    pub image: Option<Vec<u8>>,
    /// Why a restore was called for and not made.
    pub skipped: Option<&'static str>,
    /// The first image that the game writes is not the one it was handed.
    pub first_write_diverged: bool,
}

impl CfgPin {
    /// The format of the file.
    pub closed spec fn cfg(self) -> CfgFile {
        self.cfg
    }

    /// The player's saved frameskip, once it was forced away.
    pub closed spec fn user(self) -> Option<u8> {
        match self.pin {
            Some(pin) => Some(pin.user),
            None => None,
        }
    }

    /// The image that the game was handed.
    pub closed spec fn forced_image(self) -> Seq<u8> {
        match self.pin {
            Some(pin) => pin.forced_image@,
            None => seq![],
        }
    }

    /// Whether the first identified write was compared with it.
    pub closed spec fn first_write_checked(self) -> bool {
        match self.pin {
            Some(pin) => pin.first_write_checked,
            None => false,
        }
    }

    /// Nothing was forced yet.
    pub fn new(cfg: CfgFile) -> (res: CfgPin)
        requires
            cfg.wf(),
        ensures
            res.cfg() == cfg,
            res.user() is None,
            res.forced_image() == Seq::<u8>::empty(),
            !res.first_write_checked(),
    {
        CfgPin { cfg, pin: None }
    }

    /// Returns whether a finished read can have delivered the configuration: it succeeded,
    /// is not overlapped, reports its count, and delivered exactly one image, which starts
    /// with the magic dword. Only then the file's identity has to be asked for.
    pub fn hook_read_file(
        &self,
        ok: bool,
        overlapped: bool,
        bytes_to_read: u32,
        bytes_read: Option<u32>,
        buffer: &[u8],
    ) -> (res: bool)
        ensures
            res == (ok && !overlapped && bytes_to_read >= self.cfg().size && bytes_read == Some(
                self.cfg().size,
            ) && buffer@.len() >= self.cfg().size && self.cfg().magic_matches(buffer@)),
    {
        if !ok || overlapped || bytes_to_read < self.cfg.size {
            return false;
        }
        match bytes_read {
            Some(n) => n == self.cfg.size && buffer.len() >= self.cfg.size as usize
                && self.cfg.has_magic(buffer),
            None => false,
        }
    }

    /// Forces frameskip off in an image that the game is loading. The first force wins.
    /// Gives the verdict on an identified image.
    pub fn force_frameskip(&mut self, identity: Identity, image: &mut Vec<u8>) -> (verdict: Option<
        ReadVerdict,
    >)
        requires
            old(self).cfg().wf(),
            old(image)@.len() == old(self).cfg().size,
        ensures
            final(self).cfg() == old(self).cfg(),
            verdict == if identity is Cfg {
                Some(old(self).cfg().verdict(old(image)@))
            } else {
                None
            },
            verdict is Some && verdict->0 is Force ==> {
                let forced = old(self).cfg().with_frameskip(old(image)@, 0);
                &&& final(image)@ == forced
                &&& old(self).user() is None ==> final(self).user() == Some(
                    verdict->0->Force_0,
                ) && final(self).forced_image() == forced && !final(self).first_write_checked()
                &&& old(self).user() is Some ==> *final(self) == *old(self)
            },
            !(verdict is Some && verdict->0 is Force) ==> final(image)@ == old(image)@
                && *final(self) == *old(self),
    {
        match identity {
            Identity::Cfg => {},
            _ => {
                return None;
            },
        }
        let verdict = self.cfg.read_verdict(image.as_slice());
        if let ReadVerdict::Force(user) = verdict {
            image.set(self.cfg.frameskip.offset as usize, 0);
            if self.pin.is_none() {
                let forced_image = to_vec(image.as_slice());
                self.pin = Some(PinState { user, forced_image, first_write_checked: false });
            }
        }
        Some(verdict)
    }

    /// Returns whether a write can carry the configuration: it is not overlapped, has a
    /// buffer and the exact size, and something was forced before.
    pub fn wants_write(&self, overlapped: bool, has_buffer: bool, bytes_to_write: u32) -> (res:
        bool)
        ensures
            res == (!overlapped && has_buffer && bytes_to_write == self.cfg().size
                && self.user() is Some),
    {
        !overlapped && has_buffer && bytes_to_write == self.cfg.size && self.pin.is_some()
    }

    /// Decides what is written in place of an outgoing image (`None` when the game's buffer
    /// could not be read). An image with the magic dword gets the player's value back,
    /// unless the system says that it goes to another file, or the game has changed the
    /// byte itself. Where the system does not know the file, the image's exact size and
    /// magic are evidence enough.
    pub fn hook_write_file(&mut self, outgoing: Option<Vec<u8>>, identity: Identity) -> (plan: WritePlan)
        requires
            old(self).cfg().wf(),
            old(self).user() is Some,
            outgoing is Some ==> outgoing->0@.len() == old(self).cfg().size,
        ensures
            final(self).cfg() == old(self).cfg(),
            final(self).user() == old(self).user(),
            final(self).forced_image() == old(self).forced_image(),
            ({
                let cfg = old(self).cfg();
                let ours = outgoing is Some && cfg.magic_matches(outgoing->0@);
                let identified = ours && identity is Cfg;
                let restore = ours && !(identity is Other);
                let at = cfg.frameskip.offset as int;
                &&& plan.image is Some <==> restore && outgoing->0@[at] == 0
                &&& plan.image is Some ==> plan.image->0@ == cfg.with_frameskip(
                    outgoing->0@,
                    old(self).user()->0,
                )
                &&& plan.skipped is Some <==> outgoing is None || (restore && outgoing->0@[at] != 0)
                &&& plan.skipped is Some ==> plan.skipped->0@ == if outgoing is None {
                    "unreadable_buffer"@
                } else {
                    "byte_not_forced"@
                }
                &&& plan.first_write_diverged == (identified && !old(self).first_write_checked()
                    && old(self).forced_image() != outgoing->0@)
                &&& final(self).first_write_checked() == (old(self).first_write_checked()
                    || identified)
            }),
    {
        let mut image = match outgoing {
            Some(image) => image,
            None => {
                return WritePlan {
                    image: None,
                    skipped: Some("unreadable_buffer"),
                    first_write_diverged: false,
                };
            },
        };
        if !self.cfg.has_magic(image.as_slice()) {
            return WritePlan { image: None, skipped: None, first_write_diverged: false };
        }
        let mut diverged = false;
        let user: u8 = match &self.pin {
            Some(pin) => pin.user,
            None => 0,
        };
        match identity {
            Identity::Cfg => {
                diverged = self.check_first_write(image.as_slice());
            },
            Identity::Other => {
                return WritePlan { image: None, skipped: None, first_write_diverged: false };
            },
            Identity::Unknown { .. } => {},
        }
        match self.cfg.restore_in_place(&mut image, user) {
            Ok(()) => WritePlan {
                image: Some(image),
                skipped: None,
                first_write_diverged: diverged,
            },
            Err(reason) => WritePlan {
                image: None,
                skipped: Some(reason),
                first_write_diverged: diverged,
            },
        }
    }

    /// Compares the first identified outgoing image with the one the game was handed, once.
    /// Returns whether they differ.
    fn check_first_write(&mut self, outgoing: &[u8]) -> (diverged: bool)
        requires
            old(self).user() is Some,
        ensures
            final(self).cfg() == old(self).cfg(),
            final(self).user() == old(self).user(),
            final(self).forced_image() == old(self).forced_image(),
            final(self).first_write_checked(),
            diverged == (!old(self).first_write_checked() && old(self).forced_image()
                != outgoing@),
    {
        match self.pin.take() {
            None => false,
            Some(pin) => {
                let diverged = !pin.first_write_checked && !bytes_equal(
                    pin.forced_image.as_slice(),
                    outgoing,
                );
                self.pin = Some(
                    PinState {
                        user: pin.user,
                        forced_image: pin.forced_image,
                        first_write_checked: true,
                    },
                );
                diverged
            },
        }
    }
}

/// Starts to watch a game's configuration file, which takes both file hooks in place.
pub fn install(read: bool, write: bool, cfg: CfgFile) -> (res: Option<CfgPin>)
    requires
        cfg.wf(),
    ensures
        res is Some <==> read && write,
        res is Some ==> {
            &&& res->0.cfg() == cfg
            &&& res->0.user() is None
            &&& res->0.forced_image() == Seq::<u8>::empty()
            &&& !res->0.first_write_checked()
        },
{
    if read && write {
        Some(CfgPin::new(cfg))
    } else {
        None
    }
}

/// Returns whether a write of the whole image went through; `written` is the reported
/// count, where the game asked for one and it could be read, and `counted` whether it
/// asked.
pub fn write_back_ok(ret: i32, counted: bool, written: Option<u32>, size: u32) -> (res: bool)
    ensures
        res == (ret != 0 && (!counted || written == Some(size))),
{
    if ret == 0 {
        return false;
    }
    if !counted {
        return true;
    }
    match written {
        Some(n) => n == size,
        None => false,
    }
}

/// What the three checks take: a byte is one byte wide and the others four, a field is
/// inside an image when its last byte is, and what is compared is the field itself.
pub proof fn lemma_checks(offset: u32, byte: u8, below: i32, value: u32, image: Seq<u8>)
    ensures
        ({
            let b = CfgCheck::ByteMax { offset, bound: byte };
            let s = CfgCheck::SdwordMax { offset, bound: below };
            let d = CfgCheck::DwordEq { offset, value };
            &&& b.at() == offset && s.at() == offset && d.at() == offset
            &&& b.inside(image.len() as int) <==> offset < image.len()
            &&& s.inside(image.len() as int) <==> offset + 3 < image.len()
            &&& d.inside(image.len() as int) <==> offset + 3 < image.len()
            &&& b.accepts(image) <==> image[offset as int] < byte
            &&& s.inside(image.len() as int) ==> (d.accepts(image) <==> image.subrange(
                offset as int,
                offset + 4,
            ) == bytes::le32(value))
            &&& bytes::u32_at(image, offset as int) >= 0x8000_0000 ==> (s.accepts(image)
                <==> bytes::u32_at(image, offset as int) - 0x1_0000_0000 < below)
            &&& bytes::u32_at(image, offset as int) < 0x8000_0000 ==> (s.accepts(image)
                <==> bytes::u32_at(image, offset as int) < below)
        }),
{
    if offset + 3 < image.len() {
        let here = image.subrange(offset as int, offset + 4);
        bytes::lemma_read_back(value, 0);
        if here == bytes::le32(value) {
            assert(bytes::u32_at(image, offset as int) == bytes::u32_at(here, 0));
        }
        if bytes::u32_at(image, offset as int) == value {
            bytes::lemma_write_back(here);
            assert(bytes::u32_at(image, offset as int) == bytes::u32_at(here, 0));
        }
    }
}

/// The check that is reported is the first one that the image fails.
pub proof fn lemma_first_failing(checks: Seq<CfgCheck>, image: Seq<u8>)
    ensures
        match first_failing(checks, image) {
            Some(k) => {
                &&& 0 <= k < checks.len()
                &&& !checks[k].accepts(image)
                &&& forall|i: int| 0 <= i < k ==> (#[trigger] checks[i]).accepts(image)
            },
            None => forall|i: int| 0 <= i < checks.len() ==> (#[trigger] checks[i]).accepts(image),
        },
    decreases checks.len(),
{
    if checks.len() > 0 {
        let front = checks.drop_last();
        lemma_first_failing(front, image);
        let held = match first_failing(front, image) {
            Some(k) => k,
            None => front.len() as int,
        };
        assert forall|i: int| 0 <= i < held implies (#[trigger] checks[i]).accepts(image) by {
            assert(front[i] == checks[i]);
        }
        if held < front.len() {
            assert(front[held] == checks[held]);
        }
    }
}

/// The check that is reported to lie outside is the first one that does.
pub proof fn lemma_first_outside(checks: Seq<CfgCheck>, size: int)
    ensures
        match first_outside(checks, size) {
            Some(k) => {
                &&& 0 <= k < checks.len()
                &&& !checks[k].inside(size)
                &&& forall|i: int| 0 <= i < k ==> (#[trigger] checks[i]).inside(size)
            },
            None => forall|i: int| 0 <= i < checks.len() ==> (#[trigger] checks[i]).inside(size),
        },
    decreases checks.len(),
{
    if checks.len() > 0 {
        let front = checks.drop_last();
        lemma_first_outside(front, size);
        let held = match first_outside(front, size) {
            Some(k) => k,
            None => front.len() as int,
        };
        assert forall|i: int| 0 <= i < held implies (#[trigger] checks[i]).inside(size) by {
            assert(front[i] == checks[i]);
        }
        if held < front.len() {
            assert(front[held] == checks[held]);
        }
    }
}

/// An image that fails a check is rejected there, the frameskip byte being checked last. One
/// that passes is left alone with frameskip off, and is otherwise to be forced.
pub proof fn lemma_verdicts(cfg: CfgFile, image: Seq<u8>)
    ensures
        ({
            let user = image[cfg.frameskip.offset as int];
            let passed = forall|i: int|
                0 <= i < cfg.other_checks@.len() ==> (#[trigger] cfg.other_checks@[i]).accepts(
                    image,
                );
            &&& cfg.verdict(image) is AlreadyOff <==> passed && user == 0
            &&& cfg.verdict(image) == ReadVerdict::Force(user) <==> passed && 0 < user
                < cfg.frameskip.bound
            &&& cfg.verdict(image) is Reject <==> !passed || (user > 0 && user
                >= cfg.frameskip.bound)
            &&& passed && cfg.verdict(image) is Reject ==> cfg.verdict(image)->offset
                == cfg.frameskip.offset
            &&& forall|k: int|
                0 <= k < cfg.other_checks@.len() && !(#[trigger] cfg.other_checks@[k]).accepts(
                    image,
                ) && (forall|i: int|
                    0 <= i < k ==> (#[trigger] cfg.other_checks@[i]).accepts(image))
                    ==> cfg.verdict(image) == (ReadVerdict::Reject {
                    offset: cfg.other_checks@[k].at() as u32,
                })
        }),
{
    lemma_first_failing(cfg.other_checks@, image);
}

/// The magic is the first four bytes of the image, in little-endian order.
pub proof fn lemma_magic(cfg: CfgFile, image: Seq<u8>)
    ensures
        cfg.magic_matches(image) <==> image.len() >= 4 && image.take(4) == bytes::le32(cfg.magic),
{
    if image.len() >= 4 {
        let here = image.take(4);
        bytes::lemma_read_back(cfg.magic, 0);
        if here == bytes::le32(cfg.magic) {
            assert(bytes::u32_at(image, 0) == bytes::u32_at(here, 0));
        }
        if bytes::u32_at(image, 0) == cfg.magic {
            bytes::lemma_write_back(here);
            assert(bytes::u32_at(image, 0) == bytes::u32_at(here, 0));
        }
    }
}

/// Where frameskip is set, the byte there has the value that was asked for.
pub proof fn lemma_frameskip_set(cfg: CfgFile, image: Seq<u8>, value: u8)
    requires
        cfg.frameskip.offset < image.len(),
    ensures
        cfg.with_frameskip(image, value).len() == image.len(),
        cfg.with_frameskip(image, value)[cfg.frameskip.offset as int] == value,
        cfg.frameskip.check().accepts(image) <==> image[cfg.frameskip.offset as int]
            < cfg.frameskip.bound,
{
}

/// A path names the file it was built from, whatever stands before its separator, and so
/// does the bare name; behind anything else the last component is a longer name.
pub proof fn lemma_names_file(dir: Seq<u16>, sep: u16, name: Seq<u8>)
    requires
        name.len() > 0,
    ensures
        ({
            let wide = Seq::new(name.len(), |i: int| name[i] as u16);
            &&& names_file(wide, name)
            &&& names_file(dir.push(sep) + wide, name) <==> sep as int == '\\' as int || sep as int
                == '/' as int
        }),
{
    let wide = Seq::new(name.len(), |i: int| name[i] as u16);
    let path = dir.push(sep) + wide;
    assert(path.len() - name.len() == dir.len() + 1);
    assert forall|i: int| 0 <= i < name.len() implies (#[trigger] path[dir.len() + 1 + i]) < 0x100
        && bytes::lower(path[dir.len() + 1 + i] as u8) == bytes::lower(name[i]) by {
        assert(path[dir.len() + 1 + i] == wide[i]);
    }
    assert(path[dir.len() as int] == sep);
}

/// Letters of either case stand for one another in a file's name, and nothing else does.
pub proof fn lemma_names_file_case(path: Seq<u16>, name: Seq<u8>, i: int)
    requires
        names_file(path, name),
        0 <= i < name.len(),
    ensures
        ({
            let c = path[path.len() - name.len() + i] as int;
            let n = name[i] as int;
            c == n || (65 <= c <= 90 && n == c + 32) || (65 <= n <= 90 && c == n + 32)
        }),
{
    let c = path[path.len() - name.len() + i] as u8;
    bytes::lemma_lower(c);
    bytes::lemma_lower(name[i]);
}

/// The room for a path, and the code that says there was not enough of it.
pub proof fn lemma_path_query()
    ensures
        MAX_PATH_LEN == 265,
        ERROR_INSUFFICIENT_BUFFER == 122,
{
}

/// A file is the configuration exactly when its path names it.
pub proof fn lemma_identities(path: Seq<u16>, cfg: CfgFile)
    ensures
        identity_of(path, cfg) is Cfg <==> names_file(path, cfg.file_name.spec_bytes()),
        identity_of(path, cfg) is Other <==> !names_file(path, cfg.file_name.spec_bytes()),
{
}

} // verus!

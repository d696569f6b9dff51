//! Code page logic for games with strings in a code page of their own.
//!
//! ANSI entry points convert bytes with the system's code page. A registered game code
//! page makes the hooks convert with it instead, and call the wide entry point. What the
//! system's converter returns is decided on here.

use crate::nonzero::NonZeroU32;
use crate::untrusted;
use crate::untrusted::{safe_read_terminated, safe_read_until};
use vstd::prelude::*;

verus! {

pub const CP_SHIFT_JIS: u32 = 932;

pub const MB_ERR_INVALID_CHARS: u32 = 8;

pub const OPEN_EXISTING: u32 = 3;

pub const ERROR_FILE_NOT_FOUND: u32 = 2;

pub const ERROR_PATH_NOT_FOUND: u32 = 3;

/// The longest string that is read, without its terminator.
pub const MAX_ANSI_LEN: usize = 520;

/// The code page that a game registered; none means that every hook passes through.
pub struct CodePage {
    value: u32,
}

impl View for CodePage {
    type V = u32;

    closed spec fn view(&self) -> u32 {
        self.value
    }
}

impl CodePage {
    pub fn new() -> (page: CodePage)
        ensures
            page@ == 0,
    {
        CodePage { value: 0 }
    }

    /// Registers a code page.
    pub fn install(&mut self, codepage: NonZeroU32)
        ensures
            final(self)@ == codepage@,
    {
        self.value = codepage.get();
    }

    /// The registered code page, if any.
    pub fn codepage(&self) -> (res: Option<NonZeroU32>)
        ensures
            match res {
                Some(cp) => self@ != 0 && cp@ == self@,
                None => self@ == 0,
            },
    {
        NonZeroU32::new(self.value)
    }
}

/// What the system's converter is asked for: its flags, and the room for the result.
#[derive(Clone, Copy, Debug, PartialEq, Eq, Structural)]
pub struct WideRequest {
    pub flags: u32,
    pub len: i32,
}

/// What to ask the converter for `bytes`; nothing when there is nothing to convert. With
/// `strict`, bytes that are invalid in the code page fail the conversion.
pub fn wide_request(bytes: &[u8], strict: bool) -> (req: Option<WideRequest>)
    requires
        bytes@.len() <= i32::MAX,
    ensures
        match req {
            Some(req) => bytes@.len() > 0 && req.len == bytes@.len() && req.flags == (if strict {
                MB_ERR_INVALID_CHARS
            } else {
                0u32
            }),
            None => bytes@.len() == 0,
        },
{
    if bytes.len() == 0 {
        return None;
    }
    let flags: u32 = if strict {
        MB_ERR_INVALID_CHARS
    } else {
        0
    };
    Some(WideRequest { flags, len: bytes.len() as i32 })
}

/// Frames what the converter wrote: `written` units of `wide`, NUL-terminated. `None` when
/// it failed.
pub fn finish_wide(wide: Vec<u16>, written: i32) -> (res: Option<Vec<u16>>)
    requires
        written <= wide@.len(),
    ensures
        match res {
            Some(out) => written > 0 && out@ == wide@.take(written as int).push(0),
            None => written <= 0,
        },
{
    if written <= 0 {
        return None;
    }
    let mut wide = wide;
    wide.truncate(written as usize);
    wide.push(0);
    Some(wide)
}

/// The bytes to convert of a string of which `n` bytes of `buf` could be read: none
/// without a code page, or when the string doesn't terminate there.
pub fn convert_z(codepage: Option<NonZeroU32>, buf: &[u8], n: usize) -> (res: Option<Vec<u8>>)
    requires
        n <= buf@.len(),
    ensures
        match res {
            Some(bytes) => {
                &&& codepage is Some
                &&& buf@.take(n as int).contains(0u8)
                &&& bytes@ == untrusted::until(buf@.take(n as int), 0u8)
            },
            None => codepage is None || !buf@.take(n as int).contains(0u8),
        },
{
    if codepage.is_none() {
        return None;
    }
    safe_read_terminated(buf, n, 0u8)
}

/// Whether an error says that there is no such file.
pub open spec fn not_found(error: u32) -> bool {
    error == ERROR_FILE_NOT_FOUND || error == ERROR_PATH_NOT_FOUND
}

pub fn is_not_found(error: u32) -> (res: bool)
    ensures
        res == not_found(error),
{
    error == ERROR_FILE_NOT_FOUND || error == ERROR_PATH_NOT_FOUND
}

/// Whether a failed open of the converted name is tried again under the name as it is.
/// That is never done where it could create a file under a mangled name.
pub open spec fn falls_back(creation_disposition: u32, error: u32) -> bool {
    creation_disposition == OPEN_EXISTING && not_found(error)
}

pub fn should_fall_back(creation_disposition: u32, error: u32) -> (res: bool)
    ensures
        res == falls_back(creation_disposition, error),
{
    creation_disposition == OPEN_EXISTING && is_not_found(error)
}

/// What a hook returns.
#[derive(Clone, Copy, Debug, PartialEq, Eq, Structural)]
pub enum HookNext {
    /// What the wide call returned.
    ReturnWide,
    /// Failure, with this error set again.
    Fail { error: u32 },
    /// What the original returns for the same arguments.
    CallReal,
}

/// Decides on an open. `wide` is how the call with the converted name ended, where the
/// name could be converted: fine, or with an error.
pub fn hook_create_file_a(wide: Option<Result<(), u32>>, creation_disposition: u32) -> (next:
    HookNext)
    ensures
        next == match wide {
            None => HookNext::CallReal,
            Some(Ok(())) => HookNext::ReturnWide,
            Some(Err(error)) => if falls_back(creation_disposition, error) {
                HookNext::CallReal
            } else {
                HookNext::Fail { error }
            },
        },
{
    match wide {
        None => HookNext::CallReal,
        Some(Ok(())) => HookNext::ReturnWide,
        Some(Err(error)) => if should_fall_back(creation_disposition, error) {
            HookNext::CallReal
        } else {
            HookNext::Fail { error }
        },
    }
}

/// Decides on a deletion, in the same way.
pub fn hook_delete_file_a(wide: Option<Result<(), u32>>) -> (next: HookNext)
    ensures
        next == match wide {
            None => HookNext::CallReal,
            Some(Ok(())) => HookNext::ReturnWide,
            Some(Err(error)) => if not_found(error) {
                HookNext::CallReal
            } else {
                HookNext::Fail { error }
            },
        },
{
    match wide {
        None => HookNext::CallReal,
        Some(Ok(())) => HookNext::ReturnWide,
        Some(Err(error)) => if is_not_found(error) {
            HookNext::CallReal
        } else {
            HookNext::Fail { error }
        },
    }
}

/// Decides on a font: the one made with the converted face name, where there is one.
pub fn hook_create_font(wide: Option<usize>) -> (next: HookNext)
    ensures
        next == (if wide is Some && wide->0 != 0 {
            HookNext::ReturnWide
        } else {
            HookNext::CallReal
        }),
{
    match wide {
        Some(font) => if font != 0 {
            HookNext::ReturnWide
        } else {
            HookNext::CallReal
        },
        None => HookNext::CallReal,
    }
}

/// The part of a logical font that both encodings share.
#[derive(Clone, Copy, Debug, PartialEq, Eq, Structural)]
pub struct LogFontHead {
    pub height: i32,
    pub width: i32,
    pub escapement: i32,
    pub orientation: i32,
    pub weight: i32,
    pub italic: u8,
    pub underline: u8,
    pub strike_out: u8,
    pub char_set: u8,
    pub out_precision: u8,
    pub clip_precision: u8,
    pub quality: u8,
    pub pitch_and_family: u8,
}

/// A logical font with a face name in bytes.
#[derive(Clone, Copy, Debug)]
pub struct LogFontA {
    pub head: LogFontHead,
    pub face: [u8; 32],
}

/// A logical font with a face name in UTF-16.
#[derive(Clone, Copy, Debug)]
pub struct LogFontW {
    pub head: LogFontHead,
    pub face: [u16; 32],
}

/// The bytes of the face name that are converted.
pub fn face_name(a: &LogFontA) -> (name: Vec<u8>)
    ensures
        name@ == untrusted::until(a.face@, 0u8),
        name@.len() <= 32,
{
    let name = safe_read_until(a.face.as_slice(), 32, 0u8);
    assert(a.face@.take(32) =~= a.face@);
    proof {
        untrusted::lemma_until(a.face@, 0u8);
    }
    name
}

/// A face name of 32 units: as much of `wide` as fits, filled with zeros, and always
/// terminated.
pub open spec fn face_of(wide: Seq<u16>) -> Seq<u16> {
    Seq::new(
        32,
        |i: int|
            if i < wide.len() && i < 31 {
                wide[i]
            } else {
                0u16
            },
    )
}

/// The font with its face name converted to `wide`; `None` when that failed.
pub fn convert_logfont(a: &LogFontA, wide: Option<Vec<u16>>) -> (res: Option<LogFontW>)
    ensures
        match wide {
            Some(wide) => {
                &&& res is Some
                &&& res->0.head == a.head
                &&& res->0.face@ == face_of(wide@)
            },
            None => res is None,
        },
{
    match wide {
        None => None,
        Some(wide) => {
            let mut face: [u16; 32] = [0;32];
            let n: usize = if wide.len() < 31 {
                wide.len()
            } else {
                31
            };
            let mut i: usize = 0;
            while i < n
                invariant
                    i <= n <= 31,
                    n <= wide@.len(),
                    forall|k: int| 0 <= k < i ==> face@[k] == wide@[k],
                    forall|k: int| i <= k < 32 ==> face@[k] == 0,
                decreases n - i,
            {
                face[i] = wide[i];
                i += 1;
            }
            assert(face@ =~= face_of(wide@));
            Some(LogFontW { head: a.head, face })
        },
    }
}

/// A face name ends within its room, whatever was converted; one that fits stays whole.
pub proof fn lemma_face_terminated(wide: Seq<u16>)
    ensures
        face_of(wide)[31] == 0,
        0 < wide.len() <= 32 && wide.last() == 0 ==> face_of(wide).take(wide.len() as int) == wide,
{
    if 0 < wide.len() <= 32 && wide.last() == 0 {
        assert(face_of(wide).take(wide.len() as int) =~= wide);
    }
}

/// A file is missing when the system says so of it or of its path. Only an open of a file
/// that has to exist is tried again then.
pub proof fn lemma_fallback(creation_disposition: u32, error: u32)
    ensures
        not_found(error) <==> error == 2 || error == 3,
        falls_back(creation_disposition, error) <==> creation_disposition == 3 && (error == 2
            || error == 3),
{
}

/// A face name has 32 units, of which the first 31 are those of the text as far as it goes,
/// and all others are zero.
pub proof fn lemma_face(wide: Seq<u16>, i: int)
    requires
        0 <= i < 32,
    ensures
        face_of(wide).len() == 32,
        i < 31 && i < wide.len() ==> face_of(wide)[i] == wide[i],
        i >= 31 || i >= wide.len() ==> face_of(wide)[i] == 0,
{
}

/// The codes that the system knows, and the longest string that is read.
pub proof fn lemma_ansi_codes()
    ensures
        CP_SHIFT_JIS == 932,
        MB_ERR_INVALID_CHARS == 8,
        OPEN_EXISTING == 3,
        ERROR_FILE_NOT_FOUND == 2,
        ERROR_PATH_NOT_FOUND == 3,
        MAX_ANSI_LEN == 520,
{
}

} // verus!

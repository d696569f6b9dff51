//! Message boxes: which ones are shown through the wide entry point, and how their texts
//! are widened and logged.

use crate::decode;
use crate::decode::{from_utf16_lossy, from_utf8_lossy};
use crate::nonzero::NonZeroU32;
use crate::text::owned;
use vstd::prelude::*;
use vstd::slice::slice_subrange;

verus! {

/// The longest text that is read.
pub const MAX_MSGBOX_LEN: usize = 4096;

/// Whether all of `bytes` are ASCII.
pub open spec fn all_ascii(bytes: Seq<u8>) -> bool {
    forall|i: int| 0 <= i < bytes.len() ==> #[trigger] bytes[i] < 0x80
}

fn is_ascii(bytes: &[u8]) -> (res: bool)
    ensures
        res == all_ascii(bytes@),
{
    let mut i: usize = 0;
    while i < bytes.len()
        invariant
            i <= bytes@.len(),
            forall|k: int| 0 <= k < i ==> #[trigger] bytes@[k] < 0x80,
        decreases bytes.len() - i,
    {
        if bytes[i] >= 0x80 {
            return false;
        }
        i += 1;
    }
    true
}

/// Whether a text needs the game's code page; a missing one does not.
pub open spec fn needs_wide(side: Option<&[u8]>) -> bool {
    side is Some && !all_ascii(side->0@)
}

pub fn has_non_ascii(side: Option<&[u8]>) -> (res: bool)
    ensures
        res == needs_wide(side),
{
    match side {
        Some(bytes) => !is_ascii(bytes),
        None => false,
    }
}

/// ASCII bytes as NUL-terminated UTF-16.
pub open spec fn widened(bytes: Seq<u8>) -> Seq<u16> {
    bytes.map_values(|b: u8| b as u16).push(0)
}

/// Widens one text: a missing one stays missing, ASCII is widened one to one, and
/// anything else is what the code page made of it. Fails where that failed.
pub fn widen(side: Option<&[u8]>, converted: Option<Vec<u16>>) -> (res: Result<
    Option<Vec<u16>>,
    (),
>)
    ensures
        match side {
            None => res == Ok::<Option<Vec<u16>>, ()>(None),
            Some(bytes) => if all_ascii(bytes@) {
                res is Ok && res->Ok_0 is Some && res->Ok_0->0@ == widened(bytes@)
            } else {
                match converted {
                    Some(wide) => res == Ok::<Option<Vec<u16>>, ()>(Some(wide)),
                    None => res is Err,
                }
            },
        },
{
    match side {
        None => Ok(None),
        Some(bytes) => {
            if !is_ascii(bytes) {
                return match converted {
                    Some(wide) => Ok(Some(wide)),
                    None => Err(()),
                };
            }
            let mut wide: Vec<u16> = Vec::new();
            let mut i: usize = 0;
            while i < bytes.len()
                invariant
                    i <= bytes@.len(),
                    wide@ == bytes@.take(i as int).map_values(|b: u8| b as u16),
                decreases bytes.len() - i,
            {
                wide.push(bytes[i] as u16);
                i += 1;
                assert(wide@ =~= bytes@.take(i as int).map_values(|b: u8| b as u16));
            }
            assert(bytes@.take(i as int) =~= bytes@);
            wide.push(0);
            Ok(Some(wide))
        },
    }
}

/// Whether a message box goes to the wide entry point: a code page is registered, and one
/// of its texts needs it. Text that is ASCII throughout is left to the original call.
pub fn wants_wide(codepage: Option<NonZeroU32>, text: Option<&[u8]>, caption: Option<&[u8]>) -> (res:
    bool)
    ensures
        res == (codepage is Some && (needs_wide(text) || needs_wide(caption))),
{
    codepage.is_some() && (has_non_ascii(text) || has_non_ascii(caption))
}

/// The two texts of a wide message box.
pub struct WideBox {
    pub text: Option<Vec<u16>>,
    pub caption: Option<Vec<u16>>,
}

/// The texts to show, unless one could not be widened: a half-converted box would be
/// worse than the original.
pub fn try_show_wide(
    text: Result<Option<Vec<u16>>, ()>,
    caption: Result<Option<Vec<u16>>, ()>,
) -> (res: Option<WideBox>)
    ensures
        match res {
            Some(shown) => text == Ok::<Option<Vec<u16>>, ()>(shown.text) && caption == Ok::<
                Option<Vec<u16>>,
                (),
            >(shown.caption),
            None => text is Err || caption is Err,
        },
{
    match (text, caption) {
        (Ok(text), Ok(caption)) => Some(WideBox { text, caption }),
        _ => None,
    }
}

/// A wide text without its terminator.
pub open spec fn unterminated(wide: Seq<u16>) -> Seq<u16> {
    if wide.len() > 0 && wide.last() == 0 {
        wide.drop_last()
    } else {
        wide
    }
}

/// A widened text as it is logged.
pub fn wide_log_string(side: Option<&[u16]>) -> (s: String)
    ensures
        s@ == match side {
            Some(wide) => decode::utf16_lossy(unterminated(wide@)),
            None => "<null>"@,
        },
{
    match side {
        None => owned("<null>"),
        Some(wide) => {
            let n: usize = wide.len();
            if n > 0 && wide[n - 1] == 0 {
                let body = slice_subrange(wide, 0, n - 1);
                assert(body@ =~= wide@.drop_last());
                from_utf16_lossy(body)
            } else {
                from_utf16_lossy(wide)
            }
        },
    }
}

/// A text of bytes as it is logged.
pub fn pcstr_to_string(read: Option<&[u8]>) -> (s: String)
    ensures
        s@ == match read {
            Some(bytes) => decode::utf8_lossy(bytes@),
            None => "<null>"@,
        },
{
    match read {
        None => owned("<null>"),
        Some(bytes) => from_utf8_lossy(bytes),
    }
}

/// A wide text as it is logged.
pub fn pcwstr_to_string(read: Option<&[u16]>) -> (s: String)
    ensures
        s@ == match read {
            Some(wide) => decode::utf16_lossy(wide@),
            None => "<null>"@,
        },
{
    match read {
        None => owned("<null>"),
        Some(wide) => from_utf16_lossy(wide),
    }
}

/// A text needs the code page exactly when it has a byte past ASCII.
pub proof fn lemma_needs_wide(bytes: &[u8])
    ensures
        needs_wide(Some(bytes)) <==> exists|i: int| 0 <= i < bytes@.len() && bytes@[i] >= 128,
        !needs_wide(None),
        all_ascii(bytes@) <==> forall|i: int| 0 <= i < bytes@.len() ==> bytes@[i] <= 127,
{
}

/// Widening keeps every character and ends the text with a single NUL; taking that away
/// again gives the characters.
pub proof fn lemma_widened(bytes: Seq<u8>)
    ensures
        widened(bytes).len() == bytes.len() + 1,
        forall|i: int| 0 <= i < bytes.len() ==> #[trigger] widened(bytes)[i] == bytes[i],
        widened(bytes).last() == 0,
        unterminated(widened(bytes)) == bytes.map_values(|b: u8| b as u16),
{
    assert(unterminated(widened(bytes)) =~= bytes.map_values(|b: u8| b as u16));
}

/// One NUL at the end is taken away, and nothing else.
pub proof fn lemma_unterminated(text: Seq<u16>)
    ensures
        unterminated(text.push(0)) == text,
        (text.len() == 0 || text.last() != 0) ==> unterminated(text) == text,
{
    assert(text.push(0).drop_last() =~= text);
}

/// The longest text that is read.
pub proof fn lemma_longest_text()
    ensures
        MAX_MSGBOX_LEN == 4096,
{
}

} // verus!

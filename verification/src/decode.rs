//! Decoding of configuration text from bytes.

use vstd::prelude::*;
use vstd::slice::slice_subrange;
use crate::text;

verus! {

/// The characters that `String::from_utf8_lossy` decodes bytes to.
pub uninterp spec fn utf8_lossy(bytes: Seq<u8>) -> Seq<char>;

/// The characters that `String::from_utf16_lossy` decodes code units to.
pub uninterp spec fn utf16_lossy(units: Seq<u16>) -> Seq<char>;

/// Decodes UTF-8 with `String::from_utf8_lossy`. The result is a function of the bytes
/// alone; valid UTF-8 is decoded to the characters it encodes, and what is not becomes
/// U+FFFD.
#[verifier::external_body]
pub(crate) fn from_utf8_lossy(bytes: &[u8]) -> (s: String)
    ensures
        s@ == utf8_lossy(bytes@),
        vstd::utf8::valid_utf8(bytes@) ==> s@ == vstd::utf8::decode_utf8(bytes@),
{
    String::from_utf8_lossy(bytes).into_owned()
}

/// Decodes UTF-16 with `String::from_utf16_lossy`. The result is a function of the code
/// units alone; the code units of a text, surrogate pairs included, are decoded to that
/// text. What becomes of units that no text has is not said, but that it is named.
#[verifier::external_body]
pub(crate) fn from_utf16_lossy(units: &[u16]) -> (s: String)
    ensures
        s@ == utf16_lossy(units@),
        forall|t: Seq<char>| units@ == #[trigger] text::utf16(t) ==> s@ == t,
{
    String::from_utf16_lossy(units)
}

/// The 16-bit units of `body`, each of two bytes; an odd byte at the end is dropped.
pub open spec fn units_of(body: Seq<u8>, big_endian: bool) -> Seq<u16> {
    Seq::new(
        body.len() / 2,
        |i: int|
            if big_endian {
                (0x100 * body[2 * i] + body[2 * i + 1]) as u16
            } else {
                (body[2 * i] + 0x100 * body[2 * i + 1]) as u16
            },
    )
}

/// Whether `bytes` starts with `mark`.
pub open spec fn starts_with(bytes: Seq<u8>, mark: Seq<u8>) -> bool {
    mark.len() <= bytes.len() && bytes.take(mark.len() as int) == mark
}

/// The text in `bytes`: UTF-16 behind a byte order mark of either order, else UTF-8
/// behind an optional mark of its own, which is dropped once.
pub open spec fn decoded(bytes: Seq<u8>) -> Seq<char> {
    if starts_with(bytes, seq![0xffu8, 0xfeu8]) {
        utf16_lossy(units_of(bytes.skip(2), false))
    } else if starts_with(bytes, seq![0xfeu8, 0xffu8]) {
        utf16_lossy(units_of(bytes.skip(2), true))
    } else if starts_with(bytes, seq![0xefu8, 0xbbu8, 0xbfu8]) {
        utf8_lossy(bytes.skip(3))
    } else {
        utf8_lossy(bytes)
    }
}

/// How a text is written to a file.
pub enum TextForm {
    /// UTF-8 without a byte order mark.
    Utf8,
    /// UTF-8 behind its mark.
    Utf8Marked,
    /// UTF-16 with the low byte first, behind its mark.
    Utf16Le,
    /// UTF-16 with the high byte first, behind its mark.
    Utf16Be,
}

/// The bytes of 16-bit units.
pub open spec fn bytes_of(units: Seq<u16>, big_endian: bool) -> Seq<u8> {
    Seq::new(
        2 * units.len(),
        |i: int|
            if (i % 2 == 0) == big_endian {
                (units[i / 2] / 0x100) as u8
            } else {
                (units[i / 2] % 0x100) as u8
            },
    )
}

/// The bytes of a file that holds `t`.
pub open spec fn written(t: Seq<char>, form: TextForm) -> Seq<u8> {
    match form {
        TextForm::Utf8 => vstd::utf8::encode_utf8(t),
        TextForm::Utf8Marked => seq![0xefu8, 0xbbu8, 0xbfu8] + vstd::utf8::encode_utf8(t),
        TextForm::Utf16Le => seq![0xffu8, 0xfeu8] + bytes_of(text::utf16(t), false),
        TextForm::Utf16Be => seq![0xfeu8, 0xffu8] + bytes_of(text::utf16(t), true),
    }
}

/// Whether the form of a file can be told from its bytes. Without a mark, a text that
/// starts with U+FEFF looks marked.
pub open spec fn recognisable(t: Seq<char>, form: TextForm) -> bool {
    form is Utf8 ==> t.len() == 0 || t[0] as u32 != 0xfeff
}

/// The units of the bytes of units are these units.
proof fn lemma_units_of_bytes(units: Seq<u16>, big_endian: bool)
    ensures
        units_of(bytes_of(units, big_endian), big_endian) == units,
{
    let body = bytes_of(units, big_endian);
    assert forall|i: int| 0 <= i < units.len() implies #[trigger] units_of(body, big_endian)[i]
        == units[i] by {
        assert((2 * i) / 2 == i && (2 * i) % 2 == 0);
        assert((2 * i + 1) / 2 == i && (2 * i + 1) % 2 == 1);
    }
    assert(units_of(body, big_endian) =~= units);
}

/// UTF-8 never starts with a UTF-16 mark, and starts with its own mark only where the
/// text starts with U+FEFF.
proof fn lemma_utf8_start(t: Seq<char>)
    ensures
        ({
            let bytes = vstd::utf8::encode_utf8(t);
            &&& bytes.len() > 0 ==> bytes[0] < 0xf8
            &&& starts_with(bytes, seq![0xefu8, 0xbbu8, 0xbfu8]) ==> t.len() > 0 && t[0] as u32
                == 0xfeff
        }),
{
    let bytes = vstd::utf8::encode_utf8(t);
    if t.len() > 0 {
        vstd::utf8::encode_utf8_first_scalar(t);
        if starts_with(bytes, seq![0xefu8, 0xbbu8, 0xbfu8]) {
            assert(bytes.take(3)[0] == bytes[0]);
            assert(bytes.take(3)[1] == bytes[1]);
            assert(bytes.take(3)[2] == bytes[2]);
            assert(vstd::utf8::codepoint_width_3(0xef, 0xbb, 0xbf) == 0xfeff) by (bit_vector);
        }
    }
}

/// A written text shows its form, and its encoding stands behind the mark.
proof fn lemma_written(t: Seq<char>, form: TextForm)
    requires
        recognisable(t, form),
    ensures
        ({
            let bytes = written(t, form);
            let le = starts_with(bytes, seq![0xffu8, 0xfeu8]);
            let be = starts_with(bytes, seq![0xfeu8, 0xffu8]);
            let marked = starts_with(bytes, seq![0xefu8, 0xbbu8, 0xbfu8]);
            match form {
                TextForm::Utf8 => !le && !be && !marked,
                TextForm::Utf8Marked => !le && !be && marked && bytes.skip(3)
                    == vstd::utf8::encode_utf8(t),
                TextForm::Utf16Le => le && units_of(bytes.skip(2), false) == text::utf16(t),
                TextForm::Utf16Be => !le && be && units_of(bytes.skip(2), true) == text::utf16(t),
            }
        }),
{
    let bytes = written(t, form);
    lemma_utf8_start(t);
    lemma_units_of_bytes(text::utf16(t), false);
    lemma_units_of_bytes(text::utf16(t), true);
    if bytes.len() >= 2 {
        assert(bytes.take(2)[0] == bytes[0] && bytes.take(2)[1] == bytes[1]);
    }
    match form {
        TextForm::Utf8 => {},
        TextForm::Utf8Marked => {
            assert(bytes.take(3) =~= seq![0xefu8, 0xbbu8, 0xbfu8]);
            assert(bytes.skip(3) =~= vstd::utf8::encode_utf8(t));
        },
        TextForm::Utf16Le => {
            assert(bytes.take(2) =~= seq![0xffu8, 0xfeu8]);
            assert(bytes.skip(2) =~= bytes_of(text::utf16(t), false));
        },
        TextForm::Utf16Be => {
            assert(bytes.take(2) =~= seq![0xfeu8, 0xffu8]);
            assert(bytes.skip(2) =~= bytes_of(text::utf16(t), true));
        },
    }
}

/// Pairs up bytes to 16-bit units.
pub fn utf16_units(body: &[u8], big_endian: bool) -> (units: Vec<u16>)
    ensures
        units@ == units_of(body@, big_endian),
{
    let n: usize = body.len() / 2;
    let mut units: Vec<u16> = Vec::new();
    let mut i: usize = 0;
    while i < n
        invariant
            i <= n,
            n == body.len() / 2,
            units@ == units_of(body@, big_endian).take(i as int),
            units_of(body@, big_endian).len() == n,
        decreases n - i,
    {
        let a: u16 = body[2 * i] as u16;
        let b: u16 = body[2 * i + 1] as u16;
        let unit: u16 = if big_endian {
            0x100 * a + b
        } else {
            a + 0x100 * b
        };
        units.push(unit);
        i += 1;
        assert(units@ =~= units_of(body@, big_endian).take(i as int));
    }
    assert(units@ =~= units_of(body@, big_endian));
    units
}

/// Decodes text by its byte order mark, lossily, and strips the mark. A text that was
/// written to a file in any of the forms is given back.
pub fn decode_text(bytes: &[u8]) -> (s: String)
    ensures
        s@ == decoded(bytes@),
        forall|t: Seq<char>, form: TextForm|
            bytes@ == #[trigger] written(t, form) && recognisable(t, form) ==> s@ == t,
{
    let n: usize = bytes.len();
    proof {
        if n >= 2 {
            assert(bytes@.take(2)[0] == bytes@[0] && bytes@.take(2)[1] == bytes@[1]);
        }
        if n >= 3 {
            assert(bytes@.take(3)[0] == bytes@[0] && bytes@.take(3)[1] == bytes@[1] && bytes@.take(
                3,
            )[2] == bytes@[2]);
        }
    }
    let s = if n >= 2 && bytes[0] == 0xff && bytes[1] == 0xfe {
        let body = slice_subrange(bytes, 2, n);
        assert(body@ =~= bytes@.skip(2));
        assert(bytes@.take(2) =~= seq![0xffu8, 0xfeu8]);
        let units = utf16_units(body, false);
        from_utf16_lossy(units.as_slice())
    } else if n >= 2 && bytes[0] == 0xfe && bytes[1] == 0xff {
        let body = slice_subrange(bytes, 2, n);
        assert(body@ =~= bytes@.skip(2));
        assert(bytes@.take(2) =~= seq![0xfeu8, 0xffu8]);
        let units = utf16_units(body, true);
        from_utf16_lossy(units.as_slice())
    } else if n >= 3 && bytes[0] == 0xef && bytes[1] == 0xbb && bytes[2] == 0xbf {
        let body = slice_subrange(bytes, 3, n);
        assert(body@ =~= bytes@.skip(3));
        assert(bytes@.take(3) =~= seq![0xefu8, 0xbbu8, 0xbfu8]);
        from_utf8_lossy(body)
    } else {
        from_utf8_lossy(bytes)
    };
    proof {
        assert forall|t: Seq<char>, form: TextForm|
            bytes@ == #[trigger] written(t, form) && recognisable(t, form) implies s@ == t by {
            lemma_written(t, form);
            vstd::utf8::encode_utf8_valid_utf8(t);
            vstd::utf8::encode_utf8_decode_utf8(t);
        }
    }
    s
}

/// Two bytes make a unit, the second being the higher one unless the first is; an odd byte at
/// the end makes none.
pub proof fn lemma_units_of(body: Seq<u8>, i: int)
    requires
        0 <= i,
        2 * i + 1 < body.len(),
    ensures
        2 * units_of(body, false).len() <= body.len() <= 2 * units_of(body, false).len() + 1,
        units_of(body, true).len() == units_of(body, false).len(),
        units_of(body, false)[i] == body[2 * i] + 256 * body[2 * i + 1],
        units_of(body, true)[i] == 256 * body[2 * i] + body[2 * i + 1],
{
}

/// A text is recognised by the bytes it starts with, which are not part of it.
pub proof fn lemma_marks(body: Seq<u8>)
    ensures
        decoded(seq![0xffu8, 0xfeu8] + body) == utf16_lossy(units_of(body, false)),
        decoded(seq![0xfeu8, 0xffu8] + body) == utf16_lossy(units_of(body, true)),
        decoded(seq![0xefu8, 0xbbu8, 0xbfu8] + body) == utf8_lossy(body),
        body.len() == 0 || body[0] < 0xef ==> decoded(body) == utf8_lossy(body),
        body.len() == 1 ==> decoded(body) == utf8_lossy(body),
{
    let le = seq![0xffu8, 0xfeu8] + body;
    let be = seq![0xfeu8, 0xffu8] + body;
    let marked = seq![0xefu8, 0xbbu8, 0xbfu8] + body;
    assert(le.take(2) =~= seq![0xffu8, 0xfeu8] && le.skip(2) =~= body);
    assert(be.take(2) =~= seq![0xfeu8, 0xffu8] && be.skip(2) =~= body);
    assert(be.take(2)[0] == 0xfe);
    assert(marked.take(3) =~= seq![0xefu8, 0xbbu8, 0xbfu8] && marked.skip(3) =~= body);
    assert(marked.take(2)[0] == 0xef);
    if body.len() > 0 && body[0] < 0xef {
        assert(body.take(2)[0] == body[0] || body.len() < 2);
        assert(body.take(3)[0] == body[0] || body.len() < 3);
    }
}

} // verus!

//! Text building: numbers in decimal and hexadecimal, and what is assembled from
//! them.

use vstd::prelude::*;

verus! {

/// `String::push` appends one character.
pub assume_specification[ String::push ](s: &mut String, c: char)
    ensures
        final(s)@ == old(s)@.push(c),
;

/// `String::push_str` appends the characters of a slice.
pub assume_specification[ String::push_str ](s: &mut String, tail: &str)
    ensures
        final(s)@ == old(s)@ + tail@,
;

/// Collects the characters of `s`.
pub fn to_chars(s: &str) -> (chars: Vec<char>)
    ensures
        chars@ == s@,
{
    let mut chars: Vec<char> = Vec::new();
    for c in it: s.chars()
        invariant
            chars@ == s@.take(it.index() as int),
            it.seq() == s@,
    {
        chars.push(c);
    }
    assert(chars@ =~= s@);
    chars
}

/// The string made of `chars`.
pub fn from_chars(chars: &[char]) -> (s: String)
    ensures
        s@ == chars@,
{
    let mut s = String::new();
    let mut i: usize = 0;
    while i < chars.len()
        invariant
            i <= chars@.len(),
            s@ == chars@.take(i as int),
        decreases chars.len() - i,
    {
        s.push(chars[i]);
        i += 1;
        assert(s@ =~= chars@.take(i as int));
    }
    assert(s@ =~= chars@);
    s
}

/// A copy of `s` of its own.
pub fn owned(s: &str) -> (res: String)
    ensures
        res@ == s@,
{
    let mut res = String::new();
    res.push_str(s);
    assert(res@ =~= s@);
    res
}

/// Appends the characters of `chars` from `start` on.
pub fn push_chars(s: &mut String, chars: &Vec<char>, start: usize)
    requires
        start <= chars@.len(),
    ensures
        final(s)@ == old(s)@ + chars@.skip(start as int),
{
    let mut i: usize = start;
    while i < chars.len()
        invariant
            start <= i <= chars@.len(),
            s@ == old(s)@ + chars@.subrange(start as int, i as int),
        decreases chars.len() - i,
    {
        s.push(chars[i]);
        i += 1;
        assert(s@ =~= old(s)@ + chars@.subrange(start as int, i as int));
    }
    assert(chars@.subrange(start as int, i as int) =~= chars@.skip(start as int));
}

/// The lower-case digit for `d` below 16.
pub open spec fn digit_char(d: nat) -> char {
    if d < 10 {
        (48 + d) as char
    } else {
        (87 + d) as char
    }
}

/// `n` written in `base`, without leading zeros; zero is a single digit.
pub open spec fn number(n: nat, base: nat) -> Seq<char>
    decreases n,
{
    if base < 2 || n < base {
        seq![digit_char(n)]
    } else {
        proof {
            assert(n / base < n) by (nonlinear_arith)
                requires
                    base >= 2,
                    n >= base,
            ;
        }
        number(n / base, base).push(digit_char(n % base))
    }
}

/// `n` in decimal.
pub open spec fn decimal(n: nat) -> Seq<char> {
    number(n, 10)
}

/// `n` in hexadecimal.
pub open spec fn hex(n: nat) -> Seq<char> {
    number(n, 16)
}

/// `n` in `base`, filled with zeros on the left up to `width` characters.
pub open spec fn padded(n: nat, base: nat, width: nat) -> Seq<char> {
    let digits = number(n, base);
    if digits.len() >= width {
        digits
    } else {
        Seq::new((width - digits.len()) as nat, |i: int| '0') + digits
    }
}

/// A signed number in decimal.
pub open spec fn signed_decimal(n: int) -> Seq<char> {
    if n < 0 {
        seq!['-'] + decimal((-n) as nat)
    } else {
        decimal(n as nat)
    }
}

fn digit(d: u64) -> (c: char)
    requires
        d < 16,
    ensures
        c == digit_char(d as nat),
{
    if d < 10 {
        (48u8 + d as u8) as char
    } else {
        (87u8 + d as u8) as char
    }
}

/// Appends `n` in `base`.
pub fn push_number(s: &mut String, n: u64, base: u64)
    requires
        2 <= base <= 16,
    ensures
        final(s)@ == old(s)@ + number(n as nat, base as nat),
    decreases n,
{
    if n >= base {
        assert(n / base < n) by (nonlinear_arith)
            requires
                base >= 2,
                n >= base,
        ;
        push_number(s, n / base, base);
    } else {
        proof {
            vstd::arithmetic::div_mod::lemma_small_mod(n as nat, base as nat);
        }
    }
    assert(n % base < base) by (nonlinear_arith)
        requires
            base > 0,
    ;
    s.push(digit(n % base));
    assert(s@ =~= old(s)@ + number(n as nat, base as nat));
}

/// Appends `n` in decimal.
pub fn push_decimal(s: &mut String, n: u64)
    ensures
        final(s)@ == old(s)@ + decimal(n as nat),
{
    push_number(s, n, 10);
}

/// Appends `n` in decimal with its sign.
pub fn push_signed(s: &mut String, n: i64)
    ensures
        final(s)@ == old(s)@ + signed_decimal(n as int),
{
    if n < 0 {
        s.push('-');
        let magnitude: u64 = if n == i64::MIN {
            0x8000_0000_0000_0000
        } else {
            (-n) as u64
        };
        push_decimal(s, magnitude);
    } else {
        push_decimal(s, n as u64);
    }
}

/// Appends `n` in `base`, filled with zeros on the left up to `width` characters.
pub fn push_padded(s: &mut String, n: u64, base: u64, width: usize)
    requires
        2 <= base <= 16,
    ensures
        final(s)@ == old(s)@ + padded(n as nat, base as nat, width as nat),
{
    let ghost digits = number(n as nat, base as nat);
    let len: usize = number_len(n, base);
    let mut i: usize = len;
    while i < width
        invariant
            len == digits.len(),
            len <= i,
            i <= width || i == len,
            s@ == old(s)@ + Seq::new((i - len) as nat, |k: int| '0'),
        decreases width - i,
    {
        s.push('0');
        i += 1;
    }
    push_number(s, n, base);
}

/// The number of digits of `n` in `base`.
fn number_len(n: u64, base: u64) -> (len: usize)
    requires
        2 <= base <= 16,
    ensures
        len == number(n as nat, base as nat).len(),
        len <= 64,
{
    let mut rest: u64 = n;
    let mut len: usize = 1;
    let ghost total = number(n as nat, base as nat).len();
    proof {
        vstd::arithmetic::power2::lemma2_to64();
        lemma_number_len(n as nat, base as nat, 64);
    }
    while rest >= base
        invariant
            2 <= base <= 16,
            1 <= len <= 64,
            total <= 64,
            total == number(rest as nat, base as nat).len() + len - 1,
        decreases rest,
    {
        proof {
            assert(rest / base < rest) by (nonlinear_arith)
                requires
                    base >= 2,
                    rest >= base,
            ;
            lemma_number_nonempty((rest / base) as nat, base as nat);
        }
        rest = rest / base;
        len += 1;
    }
    len
}

proof fn lemma_number_nonempty(n: nat, base: nat)
    ensures
        number(n, base).len() >= 1,
    decreases n,
{
}

/// A number below `2^bits` has at most `bits` digits.
proof fn lemma_number_len(n: nat, base: nat, bits: nat)
    requires
        base >= 2,
        bits >= 1,
        n < vstd::arithmetic::power2::pow2(bits),
    ensures
        number(n, base).len() <= bits,
    decreases bits,
{
    if n >= base {
        if bits == 1 {
            vstd::arithmetic::power2::lemma2_to64();
        } else {
            vstd::arithmetic::power2::lemma_pow2_unfold(bits);
            let half = vstd::arithmetic::power2::pow2((bits - 1) as nat);
            assert(n / base < half) by (nonlinear_arith)
                requires
                    base >= 2,
                    n < 2 * half,
            ;
            lemma_number_len(n / base, base, (bits - 1) as nat);
        }
    }
}

/// The UTF-16 code units of one character: itself, or a surrogate pair.
pub open spec fn utf16_units(c: char) -> Seq<u16> {
    let n = c as u32;
    if n < 0x1_0000 {
        seq![n as u16]
    } else {
        seq![
            (0xd800 + (n - 0x1_0000) / 0x400) as u16,
            (0xdc00 + (n - 0x1_0000) % 0x400) as u16,
        ]
    }
}

/// The UTF-16 code units of a text.
pub open spec fn utf16(chars: Seq<char>) -> Seq<u16>
    decreases chars.len(),
{
    if chars.len() == 0 {
        seq![]
    } else {
        utf16(chars.drop_last()) + utf16_units(chars.last())
    }
}

/// Appends the UTF-16 code units of `s`.
pub fn push_utf16(units: &mut Vec<u16>, s: &str)
    ensures
        final(units)@ == old(units)@ + utf16(s@),
{
    let chars = to_chars(s);
    let mut i: usize = 0;
    assert(units@ =~= old(units)@ + utf16(chars@.take(0)));
    while i < chars.len()
        invariant
            i <= chars@.len(),
            units@ == old(units)@ + utf16(chars@.take(i as int)),
        decreases chars.len() - i,
    {
        let c: u32 = chars[i] as u32;
        proof {
            vstd::utf8::char_is_scalar(chars@[i as int]);
        }
        if c < 0x1_0000 {
            units.push(c as u16);
        } else {
            units.push((0xd800 + (c - 0x1_0000) / 0x400) as u16);
            units.push((0xdc00 + (c - 0x1_0000) % 0x400) as u16);
        }
        i += 1;
        assert(chars@.take(i as int).drop_last() =~= chars@.take(i - 1));
        assert(units@ =~= old(units)@ + utf16(chars@.take(i as int)));
    }
    assert(chars@.take(i as int) =~= chars@);
}

/// A text of ASCII characters has one code unit per character.
pub proof fn lemma_utf16_ascii(chars: Seq<char>)
    requires
        forall|i: int| 0 <= i < chars.len() ==> (#[trigger] chars[i] as u32) < 0x80,
    ensures
        utf16(chars) == chars.map_values(|c: char| (c as u32) as u16),
    decreases chars.len(),
{
    if chars.len() > 0 {
        lemma_utf16_ascii(chars.drop_last());
        assert((chars[chars.len() - 1] as u32) < 0x80);
        assert(utf16(chars) =~= chars.map_values(|c: char| (c as u32) as u16));
    } else {
        assert(utf16(chars) =~= chars.map_values(|c: char| (c as u32) as u16));
    }
}

/// No two texts have the same UTF-16 code units.
pub proof fn lemma_utf16_injective(a: Seq<char>, b: Seq<char>)
    requires
        utf16(a) == utf16(b),
    ensures
        a == b,
    decreases a.len(),
{
    let units = utf16(a);
    if a.len() == 0 {
        assert(units.len() == 0);
        if b.len() > 0 {
            assert(utf16_units(b.last()).len() > 0);
            assert(false);
        }
        assert(a =~= b);
    } else {
        assert(utf16_units(a.last()).len() > 0);
        assert(b.len() > 0);
        let (x, y) = (a.last(), b.last());
        vstd::utf8::char_is_scalar(x);
        vstd::utf8::char_is_scalar(y);
        let (front_a, front_b) = (utf16(a.drop_last()), utf16(b.drop_last()));
        assert(units.last() == utf16_units(x).last());
        assert(units.last() == utf16_units(y).last());
        assert(utf16_units(x).len() == utf16_units(y).len());
        if x as u32 >= 0x1_0000 {
            let n = units.len() as int;
            assert(units[n - 2] == utf16_units(x)[0]);
            assert(units[n - 2] == utf16_units(y)[0]);
        }
        assert(x as u32 == y as u32);
        vstd::utf8::char_u32_cast(x, x as u32);
        vstd::utf8::char_u32_cast(y, x as u32);
        assert(front_a =~= units.take(units.len() - utf16_units(x).len()));
        assert(front_b =~= units.take(units.len() - utf16_units(y).len()));
        lemma_utf16_injective(a.drop_last(), b.drop_last());
        assert(a =~= a.drop_last().push(x));
        assert(b =~= b.drop_last().push(y));
    }
}

/// A character outside the basic plane is the pair of a high and a low surrogate that count
/// its place behind that plane; any other is its own unit.
pub proof fn lemma_utf16_units(c: char)
    ensures
        (c as u32) < 0x1_0000 ==> utf16_units(c).len() == 1 && utf16_units(c)[0] == c as u32,
        c as u32 >= 0x1_0000 ==> {
            let u = utf16_units(c);
            &&& u.len() == 2
            &&& 0xd800 <= u[0] < 0xdc00
            &&& 0xdc00 <= u[1] < 0xe000
            &&& (u[0] - 0xd800) * 0x400 + (u[1] - 0xdc00) == c as u32 - 0x1_0000
        },
{
    vstd::utf8::char_is_scalar(c);
}

/// The units of a longer text are those of its parts.
pub proof fn lemma_utf16_concat(a: Seq<char>, b: Seq<char>)
    ensures
        utf16(a + b) == utf16(a) + utf16(b),
    decreases b.len(),
{
    if b.len() == 0 {
        assert(a + b =~= a);
        assert(utf16(a) + utf16(b) =~= utf16(a));
    } else {
        lemma_utf16_concat(a, b.drop_last());
        assert((a + b).drop_last() =~= a + b.drop_last());
        assert(utf16(a + b) =~= utf16(a) + utf16(b));
    }
}

/// The digits are the ASCII ones, continued by the small letters from `a` on.
pub proof fn lemma_digit_char(d: nat)
    requires
        d < 16,
    ensures
        d < 10 ==> digit_char(d) as u32 == '0' as u32 + d,
        d >= 10 ==> digit_char(d) as u32 == 'a' as u32 + (d - 10),
{
}

/// Padding adds nothing but zeros on the left, up to the width and not beyond it.
pub proof fn lemma_padded(n: nat, base: nat, width: nat)
    ensures
        ({
            let (s, digits) = (padded(n, base, width), number(n, base));
            &&& s.len() == if digits.len() > width {
                digits.len()
            } else {
                width
            }
            &&& s.skip(s.len() - digits.len()) == digits
            &&& forall|i: int| 0 <= i < s.len() - digits.len() ==> #[trigger] s[i] == '0'
        }),
{
    let (s, digits) = (padded(n, base, width), number(n, base));
    assert(s.skip(s.len() - digits.len()) =~= digits);
}

/// A negative number is a minus sign in front of its absolute value.
pub proof fn lemma_signed_decimal(n: int)
    ensures
        n >= 0 ==> signed_decimal(n) == decimal(n as nat),
        n < 0 ==> signed_decimal(n).len() > 0 && signed_decimal(n)[0] == '-'
            && signed_decimal(n).drop_first() == decimal((-n) as nat),
{
    if n < 0 {
        assert(signed_decimal(n).drop_first() =~= decimal((-n) as nat));
    }
}

} // verus!

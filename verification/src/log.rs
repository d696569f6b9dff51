//! Per-session logging: session names, which sessions are kept, and where they go.

use crate::bytes;
use crate::bytes::eq_ignore_case;
use crate::config;
use crate::config::{CoreConfig, LevelFilter};
use crate::ini;
use crate::manifest;
use crate::manifest::write_manifest_common;
use crate::nonzero::NonZeroU32;
use crate::text;
use crate::text::{push_decimal, push_padded, to_chars};
use vstd::prelude::*;

verus! {

/// A local time, as the system reports it.
#[derive(Clone, Copy, Debug, PartialEq, Eq, Structural)]
pub struct SystemTime {
    pub year: u16,
    pub month: u16,
    pub day: u16,
    pub hour: u16,
    pub minute: u16,
    pub second: u16,
}

/// The name of the session of process `pid` that started at `t`.
pub open spec fn id_of(t: SystemTime, pid: u32) -> Seq<char> {
    stamp_of(t) + "_p"@ + text::decimal(pid as nat)
}

/// The time in the name of a session.
pub open spec fn stamp_of(t: SystemTime) -> Seq<char> {
    text::padded(t.year as nat, 10, 4) + text::padded(t.month as nat, 10, 2) + text::padded(
        t.day as nat,
        10,
        2,
    ) + "_"@ + text::padded(t.hour as nat, 10, 2) + text::padded(t.minute as nat, 10, 2)
        + text::padded(t.second as nat, 10, 2)
}

/// Names a session. The process id tells sessions apart that start within one second.
pub fn make_session_id(t: SystemTime, pid: u32) -> (id: String)
    ensures
        id@ == id_of(t, pid),
{
    let mut id = String::new();
    push_padded(&mut id, t.year as u64, 10, 4);
    push_padded(&mut id, t.month as u64, 10, 2);
    push_padded(&mut id, t.day as u64, 10, 2);
    id.push_str("_");
    push_padded(&mut id, t.hour as u64, 10, 2);
    push_padded(&mut id, t.minute as u64, 10, 2);
    push_padded(&mut id, t.second as u64, 10, 2);
    assert(id@ =~= stamp_of(t));
    id.push_str("_p");
    push_decimal(&mut id, pid as u64);
    id
}

pub open spec fn is_digit(c: char) -> bool {
    '0' <= c <= '9'
}

/// Whether `name` has the form `YYYYMMDD_HHMMSS_pPID` of a session name.
pub open spec fn is_id(name: Seq<char>) -> bool {
    &&& name.len() >= 18
    &&& name[8] == '_' && name[15] == '_' && name[16] == 'p'
    &&& forall|i: int|
        0 <= i < name.len() && i != 8 && i != 15 && i != 16 ==> is_digit(#[trigger] name[i])
}

fn is_id_chars(name: &Vec<char>) -> (res: bool)
    ensures
        res == is_id(name@),
{
    if name.len() < 18 {
        return false;
    }
    if name[8] != '_' || name[15] != '_' || name[16] != 'p' {
        return false;
    }
    let mut i: usize = 0;
    while i < name.len()
        invariant
            i <= name@.len(),
            forall|k: int|
                0 <= k < i && k != 8 && k != 15 && k != 16 ==> is_digit(#[trigger] name@[k]),
        decreases name.len() - i,
    {
        if i != 8 && i != 15 && i != 16 && !(name[i] >= '0' && name[i] <= '9') {
            return false;
        }
        i += 1;
    }
    true
}

/// Returns whether `name` is the name of a session.
pub fn is_session_id(name: &str) -> (res: bool)
    ensures
        res == is_id(name@),
{
    is_id_chars(&to_chars(name))
}

/// `n` in decimal with exactly `w` digits, from the right.
pub open spec fn fixed(n: nat, w: nat) -> Seq<char>
    decreases w,
{
    if w == 0 {
        seq![]
    } else {
        fixed(n / 10, (w - 1) as nat).push(text::digit_char(n % 10))
    }
}

pub open spec fn pow10(w: nat) -> nat
    decreases w,
{
    if w == 0 {
        1
    } else {
        10 * pow10((w - 1) as nat)
    }
}

proof fn lemma_fixed_zero(w: nat)
    ensures
        fixed(0, w) == Seq::new(w, |i: int| '0'),
    decreases w,
{
    if w > 0 {
        lemma_fixed_zero((w - 1) as nat);
        assert(fixed(0, w) =~= Seq::new(w, |i: int| '0'));
    } else {
        assert(fixed(0, w) =~= Seq::new(w, |i: int| '0'));
    }
}

proof fn lemma_padded_fixed(n: nat, w: nat)
    requires
        w >= 1,
        n < pow10(w),
    ensures
        text::padded(n, 10, w) == fixed(n, w),
        text::number(n, 10).len() <= w,
    decreases w,
{
    if n < 10 {
        lemma_fixed_zero((w - 1) as nat);
        assert(text::number(n, 10) =~= seq![text::digit_char(n)]);
        assert(text::padded(n, 10, w) =~= fixed(n, w));
    } else {
        if w == 1 {
            assert(pow10(1) == 10 * pow10(0));
        }
        lemma_padded_fixed(n / 10, (w - 1) as nat);
        let shorter = text::number(n / 10, 10);
        assert(text::number(n, 10) =~= shorter.push(text::digit_char(n % 10)));
        assert(text::padded(n, 10, w) =~= text::padded(n / 10, 10, (w - 1) as nat).push(
            text::digit_char(n % 10),
        ));
    }
}

proof fn lemma_fixed_digits(n: nat, w: nat)
    ensures
        fixed(n, w).len() == w,
        forall|i: int| 0 <= i < w ==> is_digit(#[trigger] fixed(n, w)[i]),
    decreases w,
{
    if w > 0 {
        lemma_fixed_digits(n / 10, (w - 1) as nat);
        let shorter = fixed(n / 10, (w - 1) as nat);
        assert forall|i: int| 0 <= i < w implies is_digit(#[trigger] fixed(n, w)[i]) by {
            if i < w - 1 {
                assert(fixed(n, w)[i] == shorter[i]);
            }
        }
    }
}

proof fn lemma_decimal_digits(n: nat)
    ensures
        text::decimal(n).len() >= 1,
        forall|i: int| 0 <= i < text::decimal(n).len() ==> is_digit(#[trigger] text::decimal(n)[i]),
    decreases n,
{
    if n >= 10 {
        lemma_decimal_digits(n / 10);
        let shorter = text::decimal(n / 10);
        assert forall|i: int| 0 <= i < text::decimal(n).len() implies is_digit(
            #[trigger] text::decimal(n)[i],
        ) by {
            if i < shorter.len() {
                assert(text::decimal(n)[i] == shorter[i]);
            }
        }
    }
}

/// Whether each field has no more digits than its place in a session name.
pub open spec fn fields_fit(t: SystemTime) -> bool {
    t.year < 10000 && t.month < 100 && t.day < 100 && t.hour < 100 && t.minute < 100 && t.second
        < 100
}

proof fn lemma_stamp(t: SystemTime)
    requires
        fields_fit(t),
    ensures
        stamp_of(t) == fixed(t.year as nat, 4) + fixed(t.month as nat, 2) + fixed(t.day as nat, 2)
            + seq!['_'] + fixed(t.hour as nat, 2) + fixed(t.minute as nat, 2) + fixed(
            t.second as nat,
            2,
        ),
        stamp_of(t).len() == 15,
{
    assert(pow10(2) == 100 && pow10(4) == 10000) by {
        reveal_with_fuel(pow10, 5);
    }
    reveal_strlit("_");
    assert("_"@ =~= seq!['_']);
    lemma_padded_fixed(t.year as nat, 4);
    lemma_padded_fixed(t.month as nat, 2);
    lemma_padded_fixed(t.day as nat, 2);
    lemma_padded_fixed(t.hour as nat, 2);
    lemma_padded_fixed(t.minute as nat, 2);
    lemma_padded_fixed(t.second as nat, 2);
    lemma_fixed_digits(t.year as nat, 4);
    lemma_fixed_digits(t.month as nat, 2);
    lemma_fixed_digits(t.day as nat, 2);
    lemma_fixed_digits(t.hour as nat, 2);
    lemma_fixed_digits(t.minute as nat, 2);
    lemma_fixed_digits(t.second as nat, 2);
}

/// What a session is named is recognised as the name of a session.
pub proof fn lemma_session_id_recognised(t: SystemTime, pid: u32)
    requires
        fields_fit(t),
    ensures
        is_id(id_of(t, pid)),
{
    lemma_stamp(t);
    lemma_decimal_digits(pid as nat);
    reveal_strlit("_p");
    assert("_p"@ =~= seq!['_', 'p']);
    lemma_fixed_digits(t.year as nat, 4);
    lemma_fixed_digits(t.month as nat, 2);
    lemma_fixed_digits(t.day as nat, 2);
    lemma_fixed_digits(t.hour as nat, 2);
    lemma_fixed_digits(t.minute as nat, 2);
    lemma_fixed_digits(t.second as nat, 2);
    let a = fixed(t.year as nat, 4);
    let b = fixed(t.month as nat, 2);
    let c = fixed(t.day as nat, 2);
    let d = fixed(t.hour as nat, 2);
    let e = fixed(t.minute as nat, 2);
    let f = fixed(t.second as nat, 2);
    let g = text::decimal(pid as nat);
    let id = id_of(t, pid);
    assert(id =~= a + b + c + seq!['_'] + d + e + f + seq!['_', 'p'] + g);
    assert forall|i: int| 0 <= i < id.len() && i != 8 && i != 15 && i != 16 implies is_digit(
        #[trigger] id[i],
    ) by {
        if i < 4 {
            assert(id[i] == a[i]);
        } else if i < 6 {
            assert(id[i] == b[i - 4]);
        } else if i < 8 {
            assert(id[i] == c[i - 6]);
        } else if i < 11 {
            assert(id[i] == d[i - 9]);
        } else if i < 13 {
            assert(id[i] == e[i - 11]);
        } else if i < 15 {
            assert(id[i] == f[i - 13]);
        } else {
            assert(id[i] == g[i - 17]);
        }
    }
}

proof fn lemma_decimal_differs(m: nat, n: nat)
    requires
        m != n,
    ensures
        text::decimal(m) != text::decimal(n),
    decreases m,
{
    let (a, b) = (text::decimal(m), text::decimal(n));
    lemma_decimal_digits(m / 10);
    lemma_decimal_digits(n / 10);
    assert(a.last() == text::digit_char(m % 10));
    assert(b.last() == text::digit_char(n % 10));
    if m % 10 != n % 10 {
        assert(a.last() as nat != b.last() as nat);
    } else if m >= 10 && n >= 10 {
        lemma_decimal_differs(m / 10, n / 10);
        assert(a.drop_last() =~= text::decimal(m / 10));
        assert(b.drop_last() =~= text::decimal(n / 10));
    } else {
        assert(a.len() != b.len());
    }
}

/// Sessions that start within the same second are told apart by their process.
pub proof fn lemma_session_ids_differ(t: SystemTime, a: u32, b: u32)
    requires
        a != b,
    ensures
        id_of(t, a) != id_of(t, b),
{
    lemma_decimal_differs(a as nat, b as nat);
    let prefix = stamp_of(t) + "_p"@;
    let n = prefix.len() as int;
    assert(id_of(t, a).skip(n) =~= text::decimal(a as nat));
    assert(id_of(t, b).skip(n) =~= text::decimal(b as nat));
}

/// Whether `a` sorts in front of `b`.
pub open spec fn precedes(a: Seq<char>, b: Seq<char>) -> bool
    decreases a.len(),
{
    if b.len() == 0 {
        false
    } else if a.len() == 0 {
        true
    } else if a[0] != b[0] {
        a[0] < b[0]
    } else {
        precedes(a.skip(1), b.skip(1))
    }
}

/// Sorting is a strict total order: not both ways round, never in front of oneself, and
/// what is not in front of either of two is not in front of what lies behind both.
pub proof fn lemma_precedes_order(a: Seq<char>, b: Seq<char>, c: Seq<char>)
    ensures
        !precedes(a, a),
        precedes(a, b) ==> !precedes(b, a),
        precedes(a, b) || precedes(b, a) || a == b,
        !precedes(b, a) && !precedes(c, b) ==> !precedes(c, a),
    decreases a.len() + b.len() + c.len(),
{
    if a.len() > 0 && b.len() > 0 && c.len() > 0 {
        lemma_precedes_order(a.skip(1), b.skip(1), c.skip(1));
        if a.skip(1) == b.skip(1) && a[0] == b[0] {
            assert(a =~= seq![a[0]] + a.skip(1));
            assert(b =~= seq![b[0]] + b.skip(1));
        }
    } else if a.len() > 0 && b.len() > 0 {
        lemma_precedes_order(a.skip(1), b.skip(1), c);
        if a.skip(1) == b.skip(1) && a[0] == b[0] {
            assert(a =~= seq![a[0]] + a.skip(1));
            assert(b =~= seq![b[0]] + b.skip(1));
        }
    } else if a.len() == 0 && b.len() == 0 {
        assert(a =~= b);
    } else if a.len() > 0 {
        lemma_precedes_order(a.skip(1), b, c);
    }
}

proof fn lemma_precedes_prefix(p: Seq<char>, a: Seq<char>, b: Seq<char>)
    ensures
        precedes(p + a, p + b) == precedes(a, b),
    decreases p.len(),
{
    if p.len() == 0 {
        assert(p + a =~= a);
        assert(p + b =~= b);
    } else {
        assert((p + a).skip(1) =~= p.skip(1) + a);
        assert((p + b).skip(1) =~= p.skip(1) + b);
        lemma_precedes_prefix(p.skip(1), a, b);
    }
}

proof fn lemma_precedes_extend(a: Seq<char>, b: Seq<char>, x: Seq<char>, y: Seq<char>)
    requires
        a.len() == b.len(),
        precedes(a, b),
    ensures
        precedes(a + x, b + y),
    decreases a.len(),
{
    if a.len() > 0 && a[0] == b[0] {
        assert((a + x).skip(1) =~= a.skip(1) + x);
        assert((b + y).skip(1) =~= b.skip(1) + y);
        lemma_precedes_extend(a.skip(1), b.skip(1), x, y);
    }
}

proof fn lemma_fixed_order(m: nat, n: nat, w: nat)
    requires
        m < n < pow10(w),
    ensures
        precedes(fixed(m, w), fixed(n, w)),
    decreases w,
{
    if w > 0 {
        let (mh, nh) = (fixed(m / 10, (w - 1) as nat), fixed(n / 10, (w - 1) as nat));
        let (ml, nl) = (seq![text::digit_char(m % 10)], seq![text::digit_char(n % 10)]);
        assert(fixed(m, w) =~= mh + ml);
        assert(fixed(n, w) =~= nh + nl);
        if m / 10 < n / 10 {
            lemma_fixed_order(m / 10, n / 10, (w - 1) as nat);
            lemma_fixed_digits(m / 10, (w - 1) as nat);
            lemma_fixed_digits(n / 10, (w - 1) as nat);
            lemma_precedes_extend(mh, nh, ml, nl);
        } else {
            assert(m / 10 == n / 10 && m % 10 < n % 10);
            assert(precedes(ml, nl));
            lemma_precedes_prefix(mh, ml, nl);
        }
    }
}

/// Whether `a` is earlier than `b`.
pub open spec fn earlier(a: SystemTime, b: SystemTime) -> bool {
    if a.year != b.year {
        a.year < b.year
    } else if a.month != b.month {
        a.month < b.month
    } else if a.day != b.day {
        a.day < b.day
    } else if a.hour != b.hour {
        a.hour < b.hour
    } else if a.minute != b.minute {
        a.minute < b.minute
    } else {
        a.second < b.second
    }
}

proof fn lemma_field_step(p: Seq<char>, m: nat, n: nat, w: nat, x: Seq<char>, y: Seq<char>)
    requires
        m < n < pow10(w),
    ensures
        precedes(p + fixed(m, w) + x, p + fixed(n, w) + y),
{
    lemma_fixed_order(m, n, w);
    lemma_fixed_digits(m, w);
    lemma_fixed_digits(n, w);
    lemma_precedes_extend(fixed(m, w), fixed(n, w), x, y);
    lemma_precedes_prefix(p, fixed(m, w) + x, fixed(n, w) + y);
    assert(p + (fixed(m, w) + x) =~= p + fixed(m, w) + x);
    assert(p + (fixed(n, w) + y) =~= p + fixed(n, w) + y);
}

proof fn lemma_groups(
    a: Seq<char>,
    b: Seq<char>,
    c: Seq<char>,
    u: Seq<char>,
    d: Seq<char>,
    e: Seq<char>,
    f: Seq<char>,
    t: Seq<char>,
)
    ensures
        ({
            let id = a + b + c + u + d + e + f + t;
            &&& id == Seq::<char>::empty() + a + (b + c + u + d + e + f + t)
            &&& id == a + b + (c + u + d + e + f + t)
            &&& id == (a + b) + c + (u + d + e + f + t)
            &&& id == (a + b + c + u) + d + (e + f + t)
            &&& id == (a + b + c + u + d) + e + (f + t)
            &&& id == (a + b + c + u + d + e) + f + t
        }),
{
    let id = a + b + c + u + d + e + f + t;
    assert(id =~= Seq::<char>::empty() + a + (b + c + u + d + e + f + t));
    assert(id =~= a + b + (c + u + d + e + f + t));
    assert(id =~= (a + b) + c + (u + d + e + f + t));
    assert(id =~= (a + b + c + u) + d + (e + f + t));
    assert(id =~= (a + b + c + u + d) + e + (f + t));
    assert(id =~= (a + b + c + u + d + e) + f + t);
}

/// Session names sort by time: an earlier session's name stands in front, whatever the
/// process ids.
pub proof fn lemma_session_order(a: SystemTime, b: SystemTime, pid_a: u32, pid_b: u32)
    requires
        fields_fit(a),
        fields_fit(b),
        earlier(a, b),
    ensures
        precedes(id_of(a, pid_a), id_of(b, pid_b)),
{
    assert(pow10(2) == 100 && pow10(4) == 10000) by {
        reveal_with_fuel(pow10, 5);
    }
    lemma_stamp(a);
    lemma_stamp(b);
    let ta = "_p"@ + text::decimal(pid_a as nat);
    let tb = "_p"@ + text::decimal(pid_b as nat);
    let e = Seq::<char>::empty();
    let (ay, by) = (fixed(a.year as nat, 4), fixed(b.year as nat, 4));
    let (am, bm) = (fixed(a.month as nat, 2), fixed(b.month as nat, 2));
    let (ad, bd) = (fixed(a.day as nat, 2), fixed(b.day as nat, 2));
    let (ah, bh) = (fixed(a.hour as nat, 2), fixed(b.hour as nat, 2));
    let (an, bn) = (fixed(a.minute as nat, 2), fixed(b.minute as nat, 2));
    let (az, bz) = (fixed(a.second as nat, 2), fixed(b.second as nat, 2));
    let u = seq!['_'];
    assert(id_of(a, pid_a) =~= stamp_of(a) + ta);
    assert(id_of(b, pid_b) =~= stamp_of(b) + tb);
    lemma_groups(ay, am, ad, u, ah, an, az, ta);
    lemma_groups(by, bm, bd, u, bh, bn, bz, tb);
    if a.year != b.year {
        let (x, y) = (am + ad + u + ah + an + az + ta, bm + bd + u + bh + bn + bz + tb);
        lemma_field_step(e, a.year as nat, b.year as nat, 4, x, y);
    } else if a.month != b.month {
        let (x, y) = (ad + u + ah + an + az + ta, bd + u + bh + bn + bz + tb);
        lemma_field_step(ay, a.month as nat, b.month as nat, 2, x, y);
    } else if a.day != b.day {
        let (x, y) = (u + ah + an + az + ta, u + bh + bn + bz + tb);
        lemma_field_step(ay + am, a.day as nat, b.day as nat, 2, x, y);
    } else if a.hour != b.hour {
        let (x, y) = (an + az + ta, bn + bz + tb);
        lemma_field_step(ay + am + ad + u, a.hour as nat, b.hour as nat, 2, x, y);
    } else if a.minute != b.minute {
        let (x, y) = (az + ta, bz + tb);
        lemma_field_step(ay + am + ad + u + ah, a.minute as nat, b.minute as nat, 2, x, y);
    } else {
        let p = ay + am + ad + u + ah + an;
        lemma_field_step(p, a.second as nat, b.second as nat, 2, ta, tb);
    }
}

fn name_precedes(a: &Vec<char>, b: &Vec<char>) -> (res: bool)
    ensures
        res == precedes(a@, b@),
{
    let mut i: usize = 0;
    assert(a@.skip(0) =~= a@);
    assert(b@.skip(0) =~= b@);
    while i < a.len() && i < b.len() && a[i] == b[i]
        invariant
            i <= a@.len(),
            i <= b@.len(),
            precedes(a@, b@) == precedes(a@.skip(i as int), b@.skip(i as int)),
        decreases a.len() - i,
    {
        assert(a@.skip(i as int).skip(1) =~= a@.skip(i + 1));
        assert(b@.skip(i as int).skip(1) =~= b@.skip(i + 1));
        i += 1;
    }
    if i == b.len() {
        false
    } else if i == a.len() {
        true
    } else {
        a[i] < b[i]
    }
}

/// An entry of the log root.
pub struct DirEntry {
    pub name: Vec<char>,
    pub is_dir: bool,
}

/// Whether an entry is the directory of another session.
pub open spec fn is_stale(entry: DirEntry, current: Seq<char>) -> bool {
    entry.name@ != current && is_id(entry.name@) && entry.is_dir
}

/// Which of the other sessions are removed, oldest first, and which are kept, by their
/// place among the entries.
pub struct Retention {
    pub remove: Vec<usize>,
    pub kept: Vec<usize>,
}

impl Retention {
    /// All other sessions, in the order of their names.
    pub open spec fn all(self) -> Seq<usize> {
        self.remove@ + self.kept@
    }
}

/// Whether `all` lists the other sessions among the first `n` entries, each once and in
/// the order of their names.
pub open spec fn lists_stale(
    all: Seq<usize>,
    entries: Seq<DirEntry>,
    n: int,
    current: Seq<char>,
) -> bool {
    &&& all.no_duplicates()
    &&& forall|i: usize| #[trigger]
        all.contains(i) <==> i < n && is_stale(entries[i as int], current)
    &&& forall|i: int, j: int|
        0 <= i < j < all.len() ==> !precedes(
            (#[trigger] entries[all[j] as int]).name@,
            (#[trigger] entries[all[i] as int]).name@,
        )
}

fn chars_equal(a: &Vec<char>, b: &Vec<char>) -> (res: bool)
    ensures
        res == (a@ == b@),
{
    if a.len() != b.len() {
        return false;
    }
    let mut i: usize = 0;
    while i < a.len()
        invariant
            i <= a@.len(),
            a@.len() == b@.len(),
            forall|k: int| 0 <= k < i ==> a@[k] == b@[k],
        decreases a.len() - i,
    {
        if a[i] != b[i] {
            return false;
        }
        i += 1;
    }
    assert(a@ =~= b@);
    true
}

/// Puts entry `k` in its place among those already listed.
fn insert_entry(all: &mut Vec<usize>, entries: &Vec<DirEntry>, k: usize, current: &Vec<char>)
    requires
        k < entries@.len(),
        lists_stale(old(all)@, entries@, k as int, current@),
        is_stale(entries@[k as int], current@),
    ensures
        lists_stale(final(all)@, entries@, k + 1, current@),
{
    let ghost before = all@;
    assert forall|i: int| 0 <= i < before.len() implies (#[trigger] before[i]) < k by {
        assert(before.contains(before[i]));
    }
    let mut p: usize = 0;
    while p < all.len() && !name_precedes(&entries[k].name, &entries[all[p]].name)
        invariant
            p <= all@.len(),
            all@ == before,
            k < entries@.len(),
            forall|i: int| 0 <= i < before.len() ==> (#[trigger] before[i]) < k,
            forall|i: int|
                0 <= i < p ==> !precedes(
                    entries@[k as int].name@,
                    (#[trigger] entries@[before[i] as int]).name@,
                ),
        decreases all.len() - p,
    {
        p += 1;
    }
    all.insert(p, k);
    proof {
        let after = all@;
        assert(after == before.insert(p as int, k));
        let name = |i: int| entries@[after[i] as int].name@;
        assert forall|i: int, j: int| 0 <= i < j < after.len() implies !precedes(
            (#[trigger] entries@[after[j] as int]).name@,
            (#[trigger] entries@[after[i] as int]).name@,
        ) by {
            let e = entries@[k as int].name@;
            if i == p {
                let first = entries@[before[p as int] as int].name@;
                let other = entries@[before[j - 1] as int].name@;
                assert(after[j] == before[j - 1]);
                lemma_precedes_order(e, first, other);
                if j - 1 > p {
                    assert(!precedes(other, first));
                } else {
                    lemma_precedes_order(e, first, first);
                }
            } else if j == p {
                assert(after[i] == before[i]);
            } else {
                let bi = if i < p {
                    i
                } else {
                    i - 1
                };
                let bj = if j < p {
                    j
                } else {
                    j - 1
                };
                assert(after[i] == before[bi] && after[j] == before[bj]);
            }
        }
        assert forall|i: usize| #[trigger] after.contains(i) <==> i < k + 1 && is_stale(
            entries@[i as int],
            current@,
        ) by {
            if i == k {
                assert(after[p as int] == k);
            } else if before.contains(i) {
                let at = before.index_of(i);
                assert(after[if at < p {
                    at
                } else {
                    at + 1
                }] == i);
            } else if after.contains(i) {
                let at = after.index_of(i);
                assert(before[if at < p {
                    at
                } else {
                    at - 1
                }] == i);
            }
        }
        assert(after.no_duplicates());
    }
}

/// Decides which sessions in the log root are removed, so that with the one about to
/// start at most `keep` remain. The newest are kept.
pub fn apply_retention(entries: &Vec<DirEntry>, keep: NonZeroU32, current: &Vec<char>) -> (res:
    Retention)
    ensures
        lists_stale(res.all(), entries@, entries@.len() as int, current@),
        res.kept@.len() == (if res.all().len() < keep@ - 1 {
            res.all().len() as int
        } else {
            keep@ - 1
        }),
{
    let mut all: Vec<usize> = Vec::new();
    let mut k: usize = 0;
    while k < entries.len()
        invariant
            k <= entries@.len(),
            lists_stale(all@, entries@, k as int, current@),
        decreases entries.len() - k,
    {
        let stale = !chars_equal(&entries[k].name, current) && is_id_chars(&entries[k].name)
            && entries[k].is_dir;
        if stale {
            insert_entry(&mut all, entries, k, current);
        }
        k += 1;
    }
    let to_keep: u32 = keep.get() - 1;
    let n: usize = all.len();
    let cut: usize = if n as u64 > to_keep as u64 {
        n - to_keep as usize
    } else {
        0
    };
    let mut remove: Vec<usize> = Vec::new();
    let mut kept: Vec<usize> = Vec::new();
    let mut i: usize = 0;
    while i < n
        invariant
            n == all@.len(),
            cut <= n,
            i <= n,
            remove@ == all@.take(if i < cut {
                i as int
            } else {
                cut as int
            }),
            kept@ == all@.subrange(
                cut as int,
                if i < cut {
                    cut as int
                } else {
                    i as int
                },
            ),
        decreases n - i,
    {
        if i < cut {
            remove.push(all[i]);
        } else {
            kept.push(all[i]);
        }
        i += 1;
        assert(remove@ =~= all@.take(if i < cut {
            i as int
        } else {
            cut as int
        }));
        assert(kept@ =~= all@.subrange(
            cut as int,
            if i < cut {
                cut as int
            } else {
                i as int
            },
        ));
    }
    assert(remove@ + kept@ =~= all@);
    Retention { remove, kept }
}

/// No session that is removed is newer than one that is kept.
pub proof fn lemma_retention_keeps_newest(
    res: Retention,
    entries: Seq<DirEntry>,
    current: Seq<char>,
    removed: int,
    kept: int,
)
    requires
        lists_stale(res.all(), entries, entries.len() as int, current),
        0 <= removed < res.remove@.len(),
        0 <= kept < res.kept@.len(),
    ensures
        !precedes(
            entries[res.kept@[kept] as int].name@,
            entries[res.remove@[removed] as int].name@,
        ),
{
    let all = res.all();
    let (i, j) = (removed, res.remove@.len() + kept);
    assert(all[i] == res.remove@[removed]);
    assert(all[j] == res.kept@[kept]);
    assert(!precedes(entries[all[j] as int].name@, entries[all[i] as int].name@));
}

/// What became of a candidate for the log root.
#[derive(Clone, Copy, Debug, PartialEq, Eq, Structural)]
pub enum LogRootOutcome {
    Chosen,
    ChosenOverride,
    OverrideCreateFailed,
    CreateFailed,
    CanonicalizeFailed,
    VirtualStoreRedirected,
}

impl LogRootOutcome {
    pub open spec fn success(self) -> bool {
        self == LogRootOutcome::Chosen || self == LogRootOutcome::ChosenOverride
    }

    pub fn is_success(self) -> (res: bool)
        ensures
            res == self.success(),
    {
        match self {
            LogRootOutcome::Chosen | LogRootOutcome::ChosenOverride => true,
            _ => false,
        }
    }

    /// What the outcome is called in the log.
    pub fn label(self) -> (label: &'static str)
        ensures
            label@ == match self {
                LogRootOutcome::Chosen => "chosen"@,
                LogRootOutcome::ChosenOverride => "chosen_override"@,
                LogRootOutcome::OverrideCreateFailed => "override_create_failed"@,
                LogRootOutcome::CreateFailed => "create_failed"@,
                LogRootOutcome::CanonicalizeFailed => "canonicalize_failed"@,
                LogRootOutcome::VirtualStoreRedirected => "virtualstore_redirected"@,
            },
    {
        match self {
            LogRootOutcome::Chosen => "chosen",
            LogRootOutcome::ChosenOverride => "chosen_override",
            LogRootOutcome::OverrideCreateFailed => "override_create_failed",
            LogRootOutcome::CreateFailed => "create_failed",
            LogRootOutcome::CanonicalizeFailed => "canonicalize_failed",
            LogRootOutcome::VirtualStoreRedirected => "virtualstore_redirected",
        }
    }
}

/// Why a session directory could not be claimed at a root.
#[derive(Clone, Copy, Debug, PartialEq, Eq, Structural)]
pub enum ClaimFailure {
    Create,
    Canonicalize,
    VirtualStore,
}

/// The component that tells a redirected directory.
pub open spec fn virtual_store() -> Seq<u8> {
    seq![
        0x56u8, 0x69u8, 0x72u8, 0x74u8, 0x75u8, 0x61u8, 0x6cu8, 0x53u8, 0x74u8, 0x6fu8, 0x72u8, 0x65u8,
    ]
}

/// Whether a path with these components was redirected.
pub open spec fn redirected(components: Seq<Vec<u8>>) -> bool {
    exists|i: int|
        0 <= i < components.len() && bytes::same_ignoring_case(
            (#[trigger] components[i])@,
            virtual_store(),
        )
}

/// Whether a created session directory is where its path says, from the components of its
/// canonical path. One that is not is removed again, except where it was never created.
pub fn claim_session_dir(created: bool, canonical: Option<&Vec<Vec<u8>>>) -> (res: Result<
    (),
    ClaimFailure,
>)
    ensures
        match res {
            Ok(()) => created && canonical is Some && !redirected(canonical->0@),
            Err(ClaimFailure::Create) => !created,
            Err(ClaimFailure::Canonicalize) => created && canonical is None,
            Err(ClaimFailure::VirtualStore) => created && canonical is Some && redirected(
                canonical->0@,
            ),
        },
{
    if !created {
        return Err(ClaimFailure::Create);
    }
    match canonical {
        None => Err(ClaimFailure::Canonicalize),
        Some(components) => {
            let name: [u8; 12] = [
                0x56,
                0x69,
                0x72,
                0x74,
                0x75,
                0x61,
                0x6c,
                0x53,
                0x74,
                0x6f,
                0x72,
                0x65,
            ];
            assert(name@ =~= virtual_store());
            let mut i: usize = 0;
            while i < components.len()
                invariant
                    i <= components@.len(),
                    created,
                    canonical == Some(components),
                    name@ == virtual_store(),
                    forall|k: int|
                        0 <= k < i ==> !bytes::same_ignoring_case(
                            (#[trigger] components@[k])@,
                            virtual_store(),
                        ),
                decreases components.len() - i,
            {
                if eq_ignore_case(components[i].as_slice(), &name) {
                    assert(bytes::same_ignoring_case(components@[i as int]@, virtual_store()));
                    return Err(ClaimFailure::VirtualStore);
                }
                i += 1;
            }
            Ok(())
        },
    }
}

/// A place where the log root may go.
#[derive(Clone, Copy, Debug, PartialEq, Eq, Structural)]
pub struct Candidate {
    /// The source of its path is unset.
    pub empty: bool,
    /// It was configured, rather than one of the defaults.
    pub is_override: bool,
}

/// What was decided about a candidate.
#[derive(Clone, Copy, Debug, PartialEq, Eq, Structural)]
pub struct LogRootDecision {
    pub candidate: usize,
    pub outcome: LogRootOutcome,
}

/// The outcome of a claim at a candidate.
pub open spec fn outcome_of(candidate: Candidate, claim: Result<(), ClaimFailure>) -> LogRootOutcome {
    match claim {
        Ok(()) => if candidate.is_override {
            LogRootOutcome::ChosenOverride
        } else {
            LogRootOutcome::Chosen
        },
        Err(ClaimFailure::Create) => if candidate.is_override {
            LogRootOutcome::OverrideCreateFailed
        } else {
            LogRootOutcome::CreateFailed
        },
        Err(ClaimFailure::Canonicalize) => LogRootOutcome::CanonicalizeFailed,
        Err(ClaimFailure::VirtualStore) => LogRootOutcome::VirtualStoreRedirected,
    }
}

/// The first candidate from `i` on that has a path, or their number.
pub open spec fn next_with_path(candidates: Seq<Candidate>, i: int) -> int
    decreases candidates.len() - i,
{
    if i < 0 || i >= candidates.len() || !candidates[i].empty {
        i
    } else {
        next_with_path(candidates, i + 1)
    }
}

/// A search for the log root: candidates are tried in order, until one can be claimed.
pub struct LogRootSearch {
    candidates: Vec<Candidate>,
    next: usize,
    chosen: Option<usize>,
    trace: Vec<LogRootDecision>,
}

impl LogRootSearch {
    pub closed spec fn candidates(&self) -> Seq<Candidate> {
        self.candidates@
    }

    /// The candidate to try, or the number of candidates when none is left.
    pub closed spec fn next(&self) -> int {
        self.next as int
    }

    pub closed spec fn chosen(&self) -> Option<usize> {
        self.chosen
    }

    /// What was decided so far, in order.
    pub closed spec fn trace(&self) -> Seq<LogRootDecision> {
        self.trace@
    }

    /// Starts the search. A candidate without a path is passed over.
    pub fn start(candidates: Vec<Candidate>) -> (search: LogRootSearch)
        ensures
            search.candidates() == candidates@,
            search.next() == next_with_path(candidates@, 0),
            search.chosen() is None,
            search.trace() == Seq::<LogRootDecision>::empty(),
    {
        let next: usize = skip_empty(&candidates, 0);
        LogRootSearch { candidates, next, chosen: None, trace: Vec::new() }
    }

    /// The candidate to try, if one is left.
    pub fn pending(&self) -> (res: Option<usize>)
        ensures
            match res {
                Some(i) => i == self.next() && self.next() < self.candidates().len()
                    && self.chosen() is None,
                None => self.next() >= self.candidates().len() || self.chosen() is Some,
            },
    {
        if self.chosen.is_none() && self.next < self.candidates.len() {
            Some(self.next)
        } else {
            None
        }
    }

    /// Records the claim at the pending candidate: it is chosen, or the search goes on.
    pub fn record(&mut self, claim: Result<(), ClaimFailure>)
        requires
            old(self).chosen() is None,
            old(self).next() < old(self).candidates().len(),
        ensures
            final(self).candidates() == old(self).candidates(),
            final(self).trace() == old(self).trace().push(
                LogRootDecision {
                    candidate: old(self).next() as usize,
                    outcome: outcome_of(old(self).candidates()[old(self).next()], claim),
                },
            ),
            final(self).chosen() == (if claim is Ok {
                Some(old(self).next() as usize)
            } else {
                None
            }),
            final(self).next() == (if claim is Ok {
                old(self).next()
            } else {
                next_with_path(old(self).candidates(), old(self).next() + 1)
            }),
    {
        let at: usize = self.next;
        assert(at < self.candidates.len());
        let candidate = self.candidates[at];
        let outcome = match claim {
            Ok(()) => if candidate.is_override {
                LogRootOutcome::ChosenOverride
            } else {
                LogRootOutcome::Chosen
            },
            Err(ClaimFailure::Create) => if candidate.is_override {
                LogRootOutcome::OverrideCreateFailed
            } else {
                LogRootOutcome::CreateFailed
            },
            Err(ClaimFailure::Canonicalize) => LogRootOutcome::CanonicalizeFailed,
            Err(ClaimFailure::VirtualStore) => LogRootOutcome::VirtualStoreRedirected,
        };
        let next: usize = match claim {
            Ok(()) => at,
            Err(_) => skip_empty(&self.candidates, at + 1),
        };
        let chosen = match claim {
            Ok(()) => Some(at),
            Err(_) => None,
        };
        self.trace.push(LogRootDecision { candidate: at, outcome });
        self.chosen = chosen;
        self.next = next;
    }

    /// The decisions, in order.
    pub fn decisions(&self) -> (trace: &Vec<LogRootDecision>)
        ensures
            trace@ == self.trace(),
    {
        &self.trace
    }

    /// Gives the decisions up, in order.
    pub fn into_decisions(self) -> (trace: Vec<LogRootDecision>)
        ensures
            trace@ == self.trace(),
    {
        self.trace
    }

    /// The chosen candidate.
    pub fn choice(&self) -> (res: Option<usize>)
        ensures
            res == self.chosen(),
    {
        self.chosen
    }
}

fn skip_empty(candidates: &Vec<Candidate>, from: usize) -> (next: usize)
    requires
        from <= candidates@.len(),
    ensures
        next == next_with_path(candidates@, from as int),
        from <= next <= candidates@.len(),
{
    let mut i: usize = from;
    while i < candidates.len() && candidates[i].empty
        invariant
            from <= i <= candidates@.len(),
            next_with_path(candidates@, from as int) == next_with_path(candidates@, i as int),
        decreases candidates.len() - i,
    {
        i += 1;
    }
    i
}

/// A candidate without a path is never tried, and none with a path is passed over.
pub proof fn lemma_next_with_path(candidates: Seq<Candidate>, i: int)
    requires
        0 <= i <= candidates.len(),
    ensures
        ({
            let n = next_with_path(candidates, i);
            &&& i <= n <= candidates.len()
            &&& n < candidates.len() ==> !candidates[n].empty
            &&& forall|k: int| i <= k < n ==> (#[trigger] candidates[k]).empty
        }),
    decreases candidates.len() - i,
{
    if i < candidates.len() && candidates[i].empty {
        lemma_next_with_path(candidates, i + 1);
    }
}

/// The candidates for the log root, in order: the configured directory where there is
/// one, the game's own directory, and the two that the environment names, as far as it
/// does.
pub open spec fn candidates_of(
    override_empty: Option<bool>,
    local_app_data: bool,
    temp: bool,
) -> Seq<Candidate> {
    let defaults = seq![
        Candidate { empty: false, is_override: false },
        Candidate { empty: !local_app_data, is_override: false },
        Candidate { empty: !temp, is_override: false },
    ];
    match override_empty {
        Some(empty) => seq![Candidate { empty, is_override: true }] + defaults,
        None => defaults,
    }
}

/// Lists the candidates for the log root: `override_empty` says of a configured directory
/// whether its path is empty, the others whether the environment variables are set.
pub fn log_root_candidates(override_empty: Option<bool>, local_app_data: bool, temp: bool) -> (res:
    Vec<Candidate>)
    ensures
        res@ == candidates_of(override_empty, local_app_data, temp),
{
    let mut res: Vec<Candidate> = Vec::new();
    if let Some(empty) = override_empty {
        res.push(Candidate { empty, is_override: true });
    }
    res.push(Candidate { empty: false, is_override: false });
    res.push(Candidate { empty: !local_app_data, is_override: false });
    res.push(Candidate { empty: !temp, is_override: false });
    assert(res@ =~= candidates_of(override_empty, local_app_data, temp));
    res
}

/// The candidate that is chosen from `i` on, where a claim at each gives what `claims`
/// says.
pub open spec fn chosen_from(
    candidates: Seq<Candidate>,
    claims: Seq<Result<(), ClaimFailure>>,
    i: int,
) -> Option<usize>
    decreases candidates.len() - i,
{
    if i < 0 || i >= candidates.len() {
        None
    } else if !candidates[i].empty && claims[i] is Ok {
        Some(i as usize)
    } else {
        chosen_from(candidates, claims, i + 1)
    }
}

/// What is decided from `i` on.
pub open spec fn decided_from(
    candidates: Seq<Candidate>,
    claims: Seq<Result<(), ClaimFailure>>,
    i: int,
) -> Seq<LogRootDecision>
    decreases candidates.len() - i,
{
    if i < 0 || i >= candidates.len() {
        seq![]
    } else if candidates[i].empty {
        decided_from(candidates, claims, i + 1)
    } else {
        let decision = LogRootDecision {
            candidate: i as usize,
            outcome: outcome_of(candidates[i], claims[i]),
        };
        if claims[i] is Ok {
            seq![decision]
        } else {
            seq![decision] + decided_from(candidates, claims, i + 1)
        }
    }
}

/// The chosen log root is the first candidate that has a path and can be claimed.
pub proof fn lemma_first_claimable_root(
    candidates: Seq<Candidate>,
    claims: Seq<Result<(), ClaimFailure>>,
    i: int,
)
    requires
        0 <= i <= candidates.len() <= usize::MAX,
    ensures
        match chosen_from(candidates, claims, i) {
            Some(n) => {
                &&& i <= n < candidates.len()
                &&& !candidates[n as int].empty && claims[n as int] is Ok
                &&& forall|k: int|
                    i <= k < n ==> (#[trigger] candidates[k]).empty || claims[k] is Err
            },
            None => forall|k: int|
                i <= k < candidates.len() ==> (#[trigger] candidates[k]).empty || claims[k] is Err,
        },
    decreases candidates.len() - i,
{
    if i < candidates.len() && !(!candidates[i].empty && claims[i] is Ok) {
        lemma_first_claimable_root(candidates, claims, i + 1);
    }
}

proof fn lemma_skipped(
    candidates: Seq<Candidate>,
    claims: Seq<Result<(), ClaimFailure>>,
    i: int,
)
    requires
        0 <= i <= candidates.len(),
    ensures
        chosen_from(candidates, claims, i) == chosen_from(
            candidates,
            claims,
            next_with_path(candidates, i),
        ),
        decided_from(candidates, claims, i) == decided_from(
            candidates,
            claims,
            next_with_path(candidates, i),
        ),
    decreases candidates.len() - i,
{
    if i < candidates.len() && candidates[i].empty {
        lemma_skipped(candidates, claims, i + 1);
    }
}

/// Selects the log root by claiming a session directory at each candidate in turn, where
/// `claims` holds what a claim at each gives. Returns the chosen candidate and what was
/// decided about those considered.
pub fn claim_log_root(candidates: Vec<Candidate>, claims: &Vec<Result<(), ClaimFailure>>) -> (res: (
    Option<usize>,
    Vec<LogRootDecision>,
))
    requires
        claims@.len() == candidates@.len(),
    ensures
        res.0 == chosen_from(candidates@, claims@, 0),
        res.1@ == decided_from(candidates@, claims@, 0),
{
    let ghost all = candidates@;
    assert(candidates.len() <= usize::MAX);
    let mut search = LogRootSearch::start(candidates);
    proof {
        lemma_skipped(all, claims@, 0);
        lemma_next_with_path(all, 0);
    }
    let mut pending = search.pending();
    while pending.is_some()
        invariant
            match pending {
                Some(i) => i == search.next() && search.next() < all.len() && search.chosen()
                    is None,
                None => search.next() >= all.len() || search.chosen() is Some,
            },
            search.candidates() == all,
            claims@.len() == all.len(),
            all.len() <= usize::MAX,
            0 <= search.next() <= all.len(),
            search.chosen() is None ==> {
                &&& search.next() < all.len() ==> !all[search.next()].empty
                &&& chosen_from(all, claims@, 0) == chosen_from(all, claims@, search.next())
                &&& decided_from(all, claims@, 0) == search.trace() + decided_from(
                    all,
                    claims@,
                    search.next(),
                )
            },
            search.chosen() is Some ==> {
                &&& search.chosen() == chosen_from(all, claims@, 0)
                &&& search.trace() == decided_from(all, claims@, 0)
            },
        decreases
                all.len() - search.next(),
                if search.chosen() is None {
                    1int
                } else {
                    0
                },
    {
        let at: usize = match pending {
            Some(at) => at,
            None => 0,
        };
        let claim = claims[at];
        let ghost before = search;
        search.record(claim);
        pending = search.pending();
        proof {
            lemma_skipped(all, claims@, at + 1);
            lemma_next_with_path(all, at + 1);
            assert(search.trace() + decided_from(all, claims@, search.next()) =~= before.trace()
                + (seq![search.trace().last()] + decided_from(all, claims@, search.next())));
            assert(search.trace() =~= before.trace() + seq![search.trace().last()]);
        }
    }
    assert(search.trace() + Seq::<LogRootDecision>::empty() =~= search.trace());
    let chosen = search.choice();
    (chosen, search.into_decisions())
}

/// Whether logging starts.
#[derive(Clone, Copy, Debug, PartialEq, Eq, Structural)]
pub enum InitGate {
    /// Logging is off.
    Off,
    /// A session is already being logged.
    AlreadyUp,
    Proceed,
}

/// Decides whether a session is set up.
pub fn init_gate(level: LevelFilter, session_open: bool) -> (gate: InitGate)
    ensures
        gate == (if level == LevelFilter::Off {
            InitGate::Off
        } else if session_open {
            InitGate::AlreadyUp
        } else {
            InitGate::Proceed
        }),
{
    match level {
        LevelFilter::Off => InitGate::Off,
        _ => if session_open {
            InitGate::AlreadyUp
        } else {
            InitGate::Proceed
        },
    }
}

/// How setting up a session went.
#[derive(Debug)]
pub struct InitRun {
    /// A session is being logged.
    pub up: bool,
    /// The candidate that the log root was claimed at. Old sessions there are dropped and
    /// the manifest is written before the event log is opened.
    pub root: Option<usize>,
    /// What to log about the candidates once the session is up.
    pub decisions: Vec<LogRootDecision>,
}

/// Sets up logging: nothing where it is off or up already, else a session at the first
/// candidate that can be claimed, which is up once its event log is open.
pub fn init(
    level: LevelFilter,
    session_open: bool,
    candidates: Vec<Candidate>,
    claims: &Vec<Result<(), ClaimFailure>>,
    events_opened: bool,
) -> (run: InitRun)
    requires
        claims@.len() == candidates@.len(),
    ensures
        run.up == (level != LevelFilter::Off && (session_open || (chosen_from(
            candidates@,
            claims@,
            0,
        ) is Some && events_opened))),
        run.root == if level == LevelFilter::Off || session_open {
            None
        } else {
            chosen_from(candidates@, claims@, 0)
        },
        run.decisions@ == if run.up && !session_open {
            decided_from(candidates@, claims@, 0)
        } else {
            seq![]
        },
{
    match init_gate(level, session_open) {
        InitGate::Off => InitRun { up: false, root: None, decisions: Vec::new() },
        InitGate::AlreadyUp => InitRun { up: true, root: None, decisions: Vec::new() },
        InitGate::Proceed => {
            let (root, decisions) = claim_log_root(candidates, claims);
            if root.is_none() || !events_opened {
                return InitRun { up: false, root, decisions: Vec::new() };
            }
            InitRun { up: true, root, decisions }
        },
    }
}

/// Appends a field to an event's line: the free text of an event as `msg`, every other
/// field under its own name.
pub fn push_field(line: &mut String, name: &str, value: &str)
    ensures
        final(line)@ == old(line)@ + " "@ + (if name@ == "message"@ {
            "msg"@
        } else {
            name@
        }) + "="@ + value@,
{
    line.push_str(" ");
    if text::owned(name) == text::owned("message") {
        line.push_str("msg");
    } else {
        line.push_str(name);
    }
    line.push_str("=");
    line.push_str(value);
}

/// Keeps an event that a thread raises while it is writing another one from being
/// written: the writer is locked by that thread already.
pub struct EventGuard {
    busy: bool,
}

impl EventGuard {
    /// Whether the thread is writing an event.
    pub closed spec fn busy(&self) -> bool {
        self.busy
    }

    pub fn new() -> (guard: EventGuard)
        ensures
            !guard.busy(),
    {
        EventGuard { busy: false }
    }

    /// Begins an event; returns whether it is written.
    pub fn enter(&mut self) -> (write: bool)
        ensures
            write == !old(self).busy(),
            final(self).busy(),
    {
        let write = !self.busy;
        self.busy = true;
        write
    }

    /// Ends an event that was written.
    pub fn leave(&mut self)
        ensures
            !final(self).busy(),
    {
        self.busy = false;
    }
}

/// The level of an event.
#[derive(Clone, Copy, Debug, PartialEq, Eq, Structural)]
pub enum Level {
    Error,
    Warn,
    Info,
    Debug,
    Trace,
}

/// How verbose a level is.
pub open spec fn verbosity(level: Level) -> int {
    match level {
        Level::Error => 1,
        Level::Warn => 2,
        Level::Info => 3,
        Level::Debug => 4,
        Level::Trace => 5,
    }
}

/// The most verbose events that a filter lets through.
pub open spec fn filter_verbosity(filter: LevelFilter) -> int {
    match filter {
        LevelFilter::Off => 0,
        LevelFilter::Error => 1,
        LevelFilter::Warn => 2,
        LevelFilter::Info => 3,
        LevelFilter::Debug => 4,
        LevelFilter::Trace => 5,
    }
}

/// Whether an event of `level` is logged.
pub fn level_enabled(filter: LevelFilter, level: Level) -> (res: bool)
    ensures
        res == (verbosity(level) <= filter_verbosity(filter)),
{
    let limit: u8 = match filter {
        LevelFilter::Off => 0,
        LevelFilter::Error => 1,
        LevelFilter::Warn => 2,
        LevelFilter::Info => 3,
        LevelFilter::Debug => 4,
        LevelFilter::Trace => 5,
    };
    let n: u8 = match level {
        Level::Error => 1,
        Level::Warn => 2,
        Level::Info => 3,
        Level::Debug => 4,
        Level::Trace => 5,
    };
    n <= limit
}

/// What a filter is called in the manifest.
pub open spec fn level_label(filter: LevelFilter) -> Seq<char> {
    match filter {
        LevelFilter::Off => "off"@,
        LevelFilter::Error => "error"@,
        LevelFilter::Warn => "warn"@,
        LevelFilter::Info => "info"@,
        LevelFilter::Debug => "debug"@,
        LevelFilter::Trace => "trace"@,
    }
}

fn level_name(filter: LevelFilter) -> (name: &'static str)
    ensures
        name@ == level_label(filter),
{
    match filter {
        LevelFilter::Off => "off",
        LevelFilter::Error => "error",
        LevelFilter::Warn => "warn",
        LevelFilter::Info => "info",
        LevelFilter::Debug => "debug",
        LevelFilter::Trace => "trace",
    }
}

/// What the manifest says in front of the configuration.
pub struct ManifestHead<'a> {
    pub version: &'a str,
    pub host_exe: Option<&'a str>,
    /// Whether pointers are 32 bits wide.
    pub is_i686: bool,
    pub log_root: &'a str,
}

/// The lines about the build and the host.
pub open spec fn head_lines(head: ManifestHead) -> Seq<char> {
    "neopatch_version="@ + head.version@ + "\n"@ + (match head.host_exe {
        Some(exe) => "host_exe="@ + exe@ + "\n"@,
        None => seq![],
    }) + "build_target="@ + (if head.is_i686 {
        "i686"@
    } else {
        "non-i686"@
    }) + "\n"@ + "log_root="@ + head.log_root@ + "\n"@
}

/// The lines about logging.
pub open spec fn log_lines(level: LevelFilter, keep: u32) -> Seq<char> {
    "log.level="@ + level_label(level) + "\n"@ + "log.sessions_to_keep="@ + text::decimal(
        keep as nat,
    ) + "\n"@
}

fn push_head_lines(out: &mut String, head: &ManifestHead)
    ensures
        final(out)@ == old(out)@ + head_lines(*head),
{
    out.push_str("neopatch_version=");
    out.push_str(head.version);
    out.push_str("\n");
    match head.host_exe {
        Some(exe) => {
            out.push_str("host_exe=");
            out.push_str(exe);
            out.push_str("\n");
        },
        None => {},
    }
    out.push_str("build_target=");
    if head.is_i686 {
        out.push_str("i686");
    } else {
        out.push_str("non-i686");
    }
    out.push_str("\n");
    out.push_str("log_root=");
    out.push_str(head.log_root);
    out.push_str("\n");
    assert(out@ =~= old(out)@ + head_lines(*head));
}

fn push_log_lines(out: &mut String, level: LevelFilter, keep: u32)
    ensures
        final(out)@ == old(out)@ + log_lines(level, keep),
{
    out.push_str("log.level=");
    out.push_str(level_name(level));
    out.push_str("\n");
    out.push_str("log.sessions_to_keep=");
    push_decimal(out, keep as u64);
    out.push_str("\n");
    assert(out@ =~= old(out)@ + log_lines(level, keep));
}

/// Writes the manifest of a session; `extra` is what the game adds at its end.
pub fn write_manifest(head: &ManifestHead, core: &CoreConfig, extra: &str) -> (out: String)
    ensures
        out@ == head_lines(*head) + log_lines(core@.log.level, core@.log.sessions_to_keep@)
            + manifest::common_lines(core@) + extra@,
{
    let mut out = String::new();
    push_head_lines(&mut out, head);
    push_log_lines(&mut out, core.log.level, core.log.sessions_to_keep.get());
    write_manifest_common(&mut out, core);
    out.push_str(extra);
    assert(out@ =~= head_lines(*head) + log_lines(core@.log.level, core@.log.sessions_to_keep@)
        + manifest::common_lines(core@) + extra@);
    out
}

/// The milliseconds since logging started, as far as they fit; 0 before that.
pub fn elapsed_ms(millis: Option<u128>) -> (res: u64)
    ensures
        res == match millis {
            None => 0,
            Some(ms) => if ms > u64::MAX {
                u64::MAX as int
            } else {
                ms as int
            },
        },
{
    match millis {
        None => 0,
        Some(ms) => if ms > u64::MAX as u128 {
            u64::MAX
        } else {
            ms as u64
        },
    }
}

proof fn lemma_fixed_reads_back(n: nat, w: nat)
    requires
        n < pow10(w),
    ensures
        ini::digits_value(fixed(n, w), 10) == Some(n),
        fixed(n, w).len() == w,
    decreases w,
{
    if w > 0 {
        lemma_fixed_reads_back(n / 10, (w - 1) as nat);
        ini::lemma_digit_value('0', n % 10, 10);
        assert(fixed(n, w).drop_last() =~= fixed(n / 10, (w - 1) as nat));
        assert(fixed(n, w).last() == text::digit_char(n % 10));
    }
}

/// The date, the time and the process can be read off the name of a session, each from its
/// own place.
pub proof fn lemma_session_id_fields(t: SystemTime, pid: u32)
    requires
        fields_fit(t),
    ensures
        ({
            let id = id_of(t, pid);
            &&& ini::digits_value(id.subrange(0, 4), 10) == Some(t.year as nat)
            &&& ini::digits_value(id.subrange(4, 6), 10) == Some(t.month as nat)
            &&& ini::digits_value(id.subrange(6, 8), 10) == Some(t.day as nat)
            &&& ini::digits_value(id.subrange(9, 11), 10) == Some(t.hour as nat)
            &&& ini::digits_value(id.subrange(11, 13), 10) == Some(t.minute as nat)
            &&& ini::digits_value(id.subrange(13, 15), 10) == Some(t.second as nat)
            &&& id.subrange(15, 17) == seq!['_', 'p']
            &&& ini::digits_value(id.skip(17), 10) == Some(pid as nat)
        }),
{
    let id = id_of(t, pid);
    lemma_stamp(t);
    assert(pow10(2) == 100 && pow10(4) == 10000) by {
        reveal_with_fuel(pow10, 5);
    }
    reveal_strlit("_p");
    assert("_p"@ =~= seq!['_', 'p']);
    lemma_fixed_reads_back(t.year as nat, 4);
    lemma_fixed_reads_back(t.month as nat, 2);
    lemma_fixed_reads_back(t.day as nat, 2);
    lemma_fixed_reads_back(t.hour as nat, 2);
    lemma_fixed_reads_back(t.minute as nat, 2);
    lemma_fixed_reads_back(t.second as nat, 2);
    ini::lemma_number_reads_back(pid as nat, 10);
    assert(id.subrange(0, 4) =~= fixed(t.year as nat, 4));
    assert(id.subrange(4, 6) =~= fixed(t.month as nat, 2));
    assert(id.subrange(6, 8) =~= fixed(t.day as nat, 2));
    assert(id.subrange(9, 11) =~= fixed(t.hour as nat, 2));
    assert(id.subrange(11, 13) =~= fixed(t.minute as nat, 2));
    assert(id.subrange(13, 15) =~= fixed(t.second as nat, 2));
    assert(id.subrange(15, 17) =~= seq!['_', 'p']);
    assert(id.skip(17) =~= text::decimal(pid as nat));
}

/// A name is a session's exactly when it is eight digits, six digits and at least one digit,
/// joined by an underscore and by an underscore with a `p`.
pub proof fn lemma_session_id_form(date: Seq<char>, time: Seq<char>, pid: Seq<char>)
    requires
        date.len() == 8,
        time.len() == 6,
    ensures
        is_id(date + seq!['_'] + time + seq!['_', 'p'] + pid) <==> pid.len() > 0 && (forall|i: int|
            0 <= i < 8 ==> '0' <= #[trigger] date[i] && date[i] <= '9') && (forall|i: int|
            0 <= i < 6 ==> '0' <= #[trigger] time[i] && time[i] <= '9') && (forall|i: int|
            0 <= i < pid.len() ==> '0' <= #[trigger] pid[i] && pid[i] <= '9'),
{
    let name = date + seq!['_'] + time + seq!['_', 'p'] + pid;
    if is_id(name) {
        assert forall|i: int| 0 <= i < 8 implies '0' <= #[trigger] date[i] && date[i] <= '9' by {
            assert(name[i] == date[i]);
        }
        assert forall|i: int| 0 <= i < 6 implies '0' <= #[trigger] time[i] && time[i] <= '9' by {
            assert(name[i + 9] == time[i]);
        }
        assert forall|i: int| 0 <= i < pid.len() implies '0' <= #[trigger] pid[i] && pid[i]
            <= '9' by {
            assert(name[i + 17] == pid[i]);
        }
    }
    if pid.len() > 0 && (forall|i: int| 0 <= i < 8 ==> '0' <= #[trigger] date[i] && date[i] <= '9')
        && (forall|i: int| 0 <= i < 6 ==> '0' <= #[trigger] time[i] && time[i] <= '9') && (forall|
        i: int,
    |
        0 <= i < pid.len() ==> '0' <= #[trigger] pid[i] && pid[i] <= '9') {
        assert forall|i: int| 0 <= i < name.len() && i != 8 && i != 15 && i != 16 implies is_digit(
            #[trigger] name[i],
        ) by {
            if i < 8 {
                assert(name[i] == date[i]);
            } else if i < 15 {
                assert(name[i] == time[i - 9]);
            } else {
                assert(name[i] == pid[i - 17]);
            }
        }
    }
}

/// Off lets nothing through and the most verbose filter everything; between them, a filter
/// lets through the level of its name and the ones that are graver.
pub proof fn lemma_levels(level: Level, filter: LevelFilter)
    ensures
        verbosity(Level::Error) < verbosity(Level::Warn) < verbosity(Level::Info) < verbosity(
            Level::Debug,
        ) < verbosity(Level::Trace),
        filter == LevelFilter::Off ==> verbosity(level) > filter_verbosity(filter),
        filter == LevelFilter::Error ==> filter_verbosity(filter) == verbosity(Level::Error),
        filter == LevelFilter::Warn ==> filter_verbosity(filter) == verbosity(Level::Warn),
        filter == LevelFilter::Info ==> filter_verbosity(filter) == verbosity(Level::Info),
        filter == LevelFilter::Debug ==> filter_verbosity(filter) == verbosity(Level::Debug),
        filter == LevelFilter::Trace ==> filter_verbosity(filter) == verbosity(Level::Trace),
{
}

/// A filter is read from the name that the manifest prints for it, in any case, and from
/// nothing else.
pub proof fn lemma_level_names(c: LevelFilter, s: Seq<char>)
    ensures
        config::level_value(level_label(c)) == Some(c),
        config::level_value(s) == Some(c) ==> ini::lowered(s) == level_label(c),
        level_label(c)[0] == (match c {
            LevelFilter::Off => 'o',
            LevelFilter::Error => 'e',
            LevelFilter::Warn => 'w',
            LevelFilter::Info => 'i',
            LevelFilter::Debug => 'd',
            LevelFilter::Trace => 't',
        }),
{
    reveal_strlit("off");
    assert("off"@.len() == 3);
    reveal_strlit("error");
    assert("error"@.len() == 5);
    reveal_strlit("warn");
    assert("warn"@.len() == 4);
    reveal_strlit("info");
    assert("info"@.len() == 4);
    reveal_strlit("debug");
    assert("debug"@.len() == 5);
    reveal_strlit("trace");
    assert("trace"@.len() == 5);
    assert(ini::lowered("off"@) =~= "off"@);
    assert(ini::lowered("error"@) =~= "error"@);
    assert(ini::lowered("warn"@) =~= "warn"@);
    assert(ini::lowered("info"@) =~= "info"@);
    assert(ini::lowered("debug"@) =~= "debug"@);
    assert(ini::lowered("trace"@) =~= "trace"@);
    assert("warn"@[0] == 'w' && "info"@[0] == 'i');
    assert("error"@[0] == 'e' && "debug"@[0] == 'd' && "trace"@[0] == 't' && "off"@[0] == 'o');
}

/// A configured directory is tried first, then the installation's, the user's and the
/// temporary one; only the installation's always has a path.
pub proof fn lemma_candidates(override_empty: Option<bool>, local_app_data: bool, temp: bool)
    ensures
        ({
            let c = candidates_of(override_empty, local_app_data, temp);
            let n = c.len() as int;
            &&& n == if override_empty is Some {
                4
            } else {
                3int
            }
            &&& override_empty is Some ==> c[0].is_override && c[0].empty == override_empty->0
            &&& !c[n - 3].is_override && !c[n - 3].empty
            &&& !c[n - 2].is_override && c[n - 2].empty == !local_app_data
            &&& !c[n - 1].is_override && c[n - 1].empty == !temp
        }),
{
}

/// The outcome of a candidate is a success exactly when its claim is, and says whether the
/// candidate was configured; so does the outcome of a directory that cannot be created.
pub proof fn lemma_outcomes(candidate: Candidate, claim: Result<(), ClaimFailure>)
    ensures
        outcome_of(candidate, claim).success() <==> claim is Ok,
        outcome_of(candidate, claim) == LogRootOutcome::ChosenOverride <==> claim is Ok
            && candidate.is_override,
        outcome_of(candidate, claim) == LogRootOutcome::OverrideCreateFailed <==> claim == Err::<
            (),
            ClaimFailure,
        >(ClaimFailure::Create) && candidate.is_override,
        outcome_of(candidate, claim) == LogRootOutcome::CreateFailed <==> claim == Err::<
            (),
            ClaimFailure,
        >(ClaimFailure::Create) && !candidate.is_override,
        outcome_of(candidate, claim) == LogRootOutcome::CanonicalizeFailed <==> claim == Err::<
            (),
            ClaimFailure,
        >(ClaimFailure::Canonicalize),
        outcome_of(candidate, claim) == LogRootOutcome::VirtualStoreRedirected <==> claim == Err::<
            (),
            ClaimFailure,
        >(ClaimFailure::VirtualStore),
{
}

/// A decision says what became of a candidate with a path.
pub open spec fn decision_holds(
    d: LogRootDecision,
    candidates: Seq<Candidate>,
    claims: Seq<Result<(), ClaimFailure>>,
    from: int,
) -> bool {
    let n = d.candidate as int;
    &&& from <= n < candidates.len()
    &&& !candidates[n].empty
    &&& d.outcome == outcome_of(candidates[n], claims[n])
}

/// Each decision of a search says what became of its candidate, and candidates are decided
/// on in order. Only the last decision can be a success, and it is one exactly when a
/// candidate is chosen, which is then its own.
pub proof fn lemma_decisions(
    candidates: Seq<Candidate>,
    claims: Seq<Result<(), ClaimFailure>>,
    i: int,
)
    requires
        0 <= i <= candidates.len() <= usize::MAX,
    ensures
        ({
            let trace = decided_from(candidates, claims, i);
            &&& forall|k: int|
                0 <= k < trace.len() ==> decision_holds(#[trigger] trace[k], candidates, claims, i)
            &&& forall|k: int|
                0 <= k < trace.len() - 1 ==> !(#[trigger] trace[k]).outcome.success()
            &&& forall|j: int, k: int|
                0 <= j < k < trace.len() ==> (#[trigger] trace[j]).candidate < (
                #[trigger] trace[k]).candidate
            &&& match chosen_from(candidates, claims, i) {
                Some(n) => trace.len() > 0 && trace.last().candidate == n
                    && trace.last().outcome.success(),
                None => trace.len() > 0 ==> !trace.last().outcome.success(),
            }
        }),
    decreases candidates.len() - i,
{
    if i < candidates.len() {
        lemma_decisions(candidates, claims, i + 1);
        let rest = decided_from(candidates, claims, i + 1);
        let trace = decided_from(candidates, claims, i);
        if candidates[i].empty {
            assert forall|k: int| 0 <= k < trace.len() implies decision_holds(
                #[trigger] trace[k],
                candidates,
                claims,
                i,
            ) by {
                assert(decision_holds(rest[k], candidates, claims, i + 1));
            }
        } else if !(claims[i] is Ok) {
            let d = LogRootDecision {
                candidate: i as usize,
                outcome: outcome_of(candidates[i], claims[i]),
            };
            assert(trace == seq![d] + rest);
            assert forall|k: int| 0 <= k < trace.len() implies decision_holds(
                #[trigger] trace[k],
                candidates,
                claims,
                i,
            ) by {
                if k > 0 {
                    assert(trace[k] == rest[k - 1]);
                    assert(decision_holds(rest[k - 1], candidates, claims, i + 1));
                }
            }
            assert forall|k: int| 0 <= k < trace.len() - 1 implies !(
            #[trigger] trace[k]).outcome.success() by {
                if k > 0 {
                    assert(trace[k] == rest[k - 1]);
                }
            }
            assert forall|j: int, k: int| 0 <= j < k < trace.len() implies (
            #[trigger] trace[j]).candidate < (#[trigger] trace[k]).candidate by {
                assert(trace[k] == rest[k - 1]);
                assert(decision_holds(rest[k - 1], candidates, claims, i + 1));
                if j > 0 {
                    assert(trace[j] == rest[j - 1]);
                }
            }
            if rest.len() > 0 {
                assert(trace.last() == rest.last());
            }
        }
    }
}

/// Every candidate with a path up to the chosen one is decided on.
pub proof fn lemma_decisions_complete(
    candidates: Seq<Candidate>,
    claims: Seq<Result<(), ClaimFailure>>,
    i: int,
    n: int,
)
    requires
        0 <= i <= n < candidates.len() <= usize::MAX,
        !candidates[n].empty,
        chosen_from(candidates, claims, i) is None || n <= chosen_from(candidates, claims, i)->0,
    ensures
        exists|k: int|
            0 <= k < decided_from(candidates, claims, i).len() && (#[trigger] decided_from(
                candidates,
                claims,
                i,
            )[k]).candidate == n,
    decreases candidates.len() - i,
{
    let trace = decided_from(candidates, claims, i);
    if i == n {
        assert(trace[0].candidate == n);
    } else if candidates[i].empty {
        lemma_decisions_complete(candidates, claims, i + 1, n);
    } else {
        assert(!(claims[i] is Ok));
        lemma_decisions_complete(candidates, claims, i + 1, n);
        let rest = decided_from(candidates, claims, i + 1);
        let k = choose|k: int| 0 <= k < rest.len() && (#[trigger] rest[k]).candidate == n;
        assert(trace[k + 1] == rest[k]);
    }
}

/// A path is redirected when any of its parts is spelled like the system's store, in any
/// case.
pub proof fn lemma_redirected(a: Seq<Vec<u8>>, b: Seq<Vec<u8>>)
    ensures
        redirected(a + b) <==> redirected(a) || redirected(b),
        !redirected(seq![]),
        virtual_store().map_values(|x: u8| x as char) == "VirtualStore"@,
{
    reveal_strlit("VirtualStore");
    assert(virtual_store().map_values(|x: u8| x as char) =~= "VirtualStore"@);
    if redirected(a) {
        let i = choose|i: int|
            0 <= i < a.len() && bytes::same_ignoring_case((#[trigger] a[i])@, virtual_store());
        assert((a + b)[i] == a[i]);
    }
    if redirected(b) {
        let i = choose|i: int|
            0 <= i < b.len() && bytes::same_ignoring_case((#[trigger] b[i])@, virtual_store());
        assert((a + b)[a.len() + i] == b[i]);
    }
    if redirected(a + b) {
        let i = choose|i: int|
            0 <= i < (a + b).len() && bytes::same_ignoring_case(
                (#[trigger] (a + b)[i])@,
                virtual_store(),
            );
        if i < a.len() {
            assert(a[i] == (a + b)[i]);
        } else {
            assert(b[i - a.len()] == (a + b)[i]);
        }
    }
}

/// A text sorts in front of another where it is smaller at the first place at which they
/// differ, or where it is a beginning of it.
pub proof fn lemma_precedes(p: Seq<char>, a: Seq<char>, b: Seq<char>, x: char, y: char)
    ensures
        x < y ==> precedes(p + seq![x] + a, p + seq![y] + b),
        precedes(p, p + seq![y] + b),
        !precedes(p + seq![y] + b, p),
    decreases p.len(),
{
    let (s, t) = (p + seq![x] + a, p + seq![y] + b);
    if p.len() == 0 {
        assert(s[0] == x && t[0] == y);
    } else {
        let q = p.skip(1);
        lemma_precedes(q, a, b, x, y);
        assert(s.skip(1) =~= q + seq![x] + a);
        assert(t.skip(1) =~= q + seq![y] + b);
        assert(s[0] == p[0] && t[0] == p[0]);
    }
}

/// Another session is a directory whose name is that of a session, and not the current one's.
pub proof fn lemma_stale(entry: DirEntry, current: Seq<char>)
    ensures
        is_stale(entry, entry.name@) == false,
        !entry.is_dir ==> !is_stale(entry, current),
        !is_id(entry.name@) ==> !is_stale(entry, current),
        entry.is_dir && is_id(entry.name@) && entry.name@ != current ==> is_stale(entry, current),
{
}

/// The start of a manifest: the version, the host where it is known, the target and the
/// root, each on a line of its own behind its key.
pub proof fn lemma_head_lines(head: ManifestHead)
    ensures
        head.host_exe is Some ==> head_lines(head) == manifest::line(
            "neopatch_version"@,
            head.version@,
        ) + manifest::line("host_exe"@, head.host_exe->0@) + manifest::line(
            "build_target"@,
            if head.is_i686 {
                "i686"@
            } else {
                "non-i686"@
            },
        ) + manifest::line("log_root"@, head.log_root@),
        head.host_exe is None ==> head_lines(head) == manifest::line(
            "neopatch_version"@,
            head.version@,
        ) + manifest::line(
            "build_target"@,
            if head.is_i686 {
                "i686"@
            } else {
                "non-i686"@
            },
        ) + manifest::line("log_root"@, head.log_root@),
{
    let target = if head.is_i686 {
        "i686"@
    } else {
        "non-i686"@
    };
    reveal_strlit("neopatch_version");
    reveal_strlit("neopatch_version=");
    reveal_strlit("build_target");
    reveal_strlit("build_target=");
    reveal_strlit("log_root");
    reveal_strlit("log_root=");
    reveal_strlit("host_exe");
    reveal_strlit("host_exe=");
    reveal_strlit("\n");
    assert("neopatch_version="@ + head.version@ + "\n"@ =~= manifest::line(
        "neopatch_version"@,
        head.version@,
    ));
    assert("build_target="@ + target + "\n"@ =~= manifest::line("build_target"@, target));
    assert("log_root="@ + head.log_root@ + "\n"@ =~= manifest::line("log_root"@, head.log_root@));
    match head.host_exe {
        Some(exe) => {
            assert("host_exe="@ + exe@ + "\n"@ =~= manifest::line("host_exe"@, exe@));
            assert(head_lines(head) =~= manifest::line("neopatch_version"@, head.version@)
                + manifest::line("host_exe"@, exe@) + manifest::line("build_target"@, target)
                + manifest::line("log_root"@, head.log_root@));
        },
        None => {
            assert(head_lines(head) =~= manifest::line("neopatch_version"@, head.version@)
                + manifest::line("build_target"@, target) + manifest::line(
                "log_root"@,
                head.log_root@,
            ));
        },
    }
}

/// The lines about logging: the level, and how many sessions are kept.
pub proof fn lemma_log_lines(level: LevelFilter, keep: u32)
    ensures
        log_lines(level, keep) == manifest::line("log.level"@, level_label(level))
            + manifest::line("log.sessions_to_keep"@, text::decimal(keep as nat)),
{
    reveal_strlit("log.level");
    reveal_strlit("log.level=");
    reveal_strlit("log.sessions_to_keep");
    reveal_strlit("log.sessions_to_keep=");
    reveal_strlit("\n");
    assert(log_lines(level, keep) =~= manifest::line("log.level"@, level_label(level))
        + manifest::line("log.sessions_to_keep"@, text::decimal(keep as nat)));
}

/// The name of a session has a date of eight digits, a time of six and a process of any
/// number, with the separators between them, and nothing else.
pub proof fn lemma_is_id(name: Seq<char>)
    ensures
        is_id(name) ==> name.len() > 17 && name[8] == '_' && name[15] == '_' && name[16] == 'p',
        is_id(name) ==> forall|i: int|
            0 <= i < 8 || 9 <= i < 15 || 17 <= i < name.len() ==> 48 <= #[trigger] name[i] as int
                <= 57,
        name.len() > 17 && name[8] == '_' && name[15] == '_' && name[16] == 'p' && (forall|i: int|
            0 <= i < 8 || 9 <= i < 15 || 17 <= i < name.len() ==> 48 <= #[trigger] name[i] as int
                <= 57) ==> is_id(name),
{
}

} // verus!

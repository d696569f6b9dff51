//! The INI grammar, and the values that settings are read as.
//!
//! A line whose first significant character is `[` is a section header; any other line
//! with a `=` is a setting. `;` and `#` open comments, and one pair of quotation marks
//! around a value is dropped. Malformed lines are skipped.

use vstd::prelude::*;
use vstd::slice::slice_subrange;
use crate::text;
use crate::text::{from_chars, to_chars};

verus! {

/// The Unicode `White_Space` characters.
pub open spec fn is_space(c: char) -> bool {
    let n = c as u32;
    ||| 0x9 <= n <= 0xd
    ||| n == 0x20
    ||| n == 0x85
    ||| n == 0xa0
    ||| n == 0x1680
    ||| 0x2000 <= n <= 0x200a
    ||| n == 0x2028
    ||| n == 0x2029
    ||| n == 0x202f
    ||| n == 0x205f
    ||| n == 0x3000
}

/// Returns whether `c` is a Unicode `White_Space` character.
pub fn is_whitespace(c: char) -> (res: bool)
    ensures
        res == is_space(c),
{
    let n: u32 = c as u32;
    (0x9 <= n && n <= 0xd) || n == 0x20 || n == 0x85 || n == 0xa0 || n == 0x1680 || (0x2000 <= n
        && n <= 0x200a) || n == 0x2028 || n == 0x2029 || n == 0x202f || n == 0x205f || n == 0x3000
}

/// `s` without leading whitespace.
pub open spec fn trimmed_start(s: Seq<char>) -> Seq<char>
    decreases s.len(),
{
    if s.len() > 0 && is_space(s[0]) {
        trimmed_start(s.drop_first())
    } else {
        s
    }
}

/// `s` without trailing whitespace.
pub open spec fn trimmed_end(s: Seq<char>) -> Seq<char>
    decreases s.len(),
{
    if s.len() > 0 && is_space(s.last()) {
        trimmed_end(s.drop_last())
    } else {
        s
    }
}

/// `s` without whitespace around it.
pub open spec fn trimmed(s: Seq<char>) -> Seq<char> {
    trimmed_end(trimmed_start(s))
}

/// Whether `c` opens a comment.
pub open spec fn opens_comment(c: char) -> bool {
    c == ';' || c == '#'
}

/// The position of the first character that `p` accepts.
pub open spec fn first_at(s: Seq<char>, p: spec_fn(char) -> bool) -> Option<int>
    decreases s.len(),
{
    if s.len() == 0 {
        None
    } else if p(s[0]) {
        Some(0)
    } else {
        match first_at(s.drop_first(), p) {
            Some(i) => Some(i + 1),
            None => None,
        }
    }
}

/// `s` up to the first comment.
pub open spec fn uncommented(s: Seq<char>) -> Seq<char> {
    match first_at(s, |c: char| opens_comment(c)) {
        Some(i) => s.take(i),
        None => s,
    }
}

/// A value up to the start of a comment behind it. Inside quotation marks nothing is a
/// comment.
pub open spec fn value_part(v: Seq<char>) -> Seq<char> {
    if v.len() > 0 && (v[0] == '"' || v[0] == '\'') && v.drop_first().contains(v[0]) {
        v.take(first_at(v.drop_first(), |c: char| c == v[0])->0 + 2)
    } else {
        trimmed_end(uncommented(v))
    }
}

/// A value without one matching pair of quotation marks around it.
pub open spec fn unquoted(v: Seq<char>) -> Seq<char> {
    if v.len() >= 2 && (v[0] == '"' || v[0] == '\'') && v.last() == v[0] {
        v.subrange(1, v.len() - 1)
    } else {
        v
    }
}

/// What a line means.
pub enum LineMeaning {
    Section(Seq<char>),
    Setting(Seq<char>, Seq<char>),
    Nothing,
}

/// The meaning of a line. What it is is decided by its first significant character,
/// before any comment or `=` is looked for.
pub open spec fn meaning(line: Seq<char>) -> LineMeaning {
    let start = trimmed_start(line);
    if start.len() > 0 && start[0] == '[' {
        let name = trimmed_end(uncommented(start.drop_first()));
        if name.len() > 0 && name.last() == ']' {
            LineMeaning::Section(trimmed(name.drop_last()))
        } else {
            LineMeaning::Nothing
        }
    } else {
        match first_at(line, |c: char| c == '=') {
            None => LineMeaning::Nothing,
            Some(i) => {
                let key = trimmed(line.take(i));
                if first_at(line.take(i), |c: char| opens_comment(c)) is Some || key.len() == 0 {
                    LineMeaning::Nothing
                } else {
                    LineMeaning::Setting(key, unquoted(value_part(trimmed(line.skip(i + 1)))))
                }
            },
        }
    }
}

/// The lines of `s`, without their line endings.
pub open spec fn lines_of(s: Seq<char>) -> Seq<Seq<char>>
    decreases s.len(),
{
    if s.len() == 0 {
        seq![]
    } else {
        match first_at(s, |c: char| c == '\n') {
            None => seq![s],
            Some(i) => {
                let line = s.take(i);
                let bare = if line.len() > 0 && line.last() == '\r' {
                    line.drop_last()
                } else {
                    line
                };
                if 0 <= i < s.len() {
                    seq![bare] + lines_of(s.skip(i + 1))
                } else {
                    seq![s]
                }
            },
        }
    }
}

/// The section in force after `lines`.
pub open spec fn section_after(lines: Seq<Seq<char>>) -> Seq<char>
    decreases lines.len(),
{
    if lines.len() == 0 {
        seq![]
    } else {
        match meaning(lines.last()) {
            LineMeaning::Section(name) => name,
            _ => section_after(lines.drop_last()),
        }
    }
}

/// The section, key and value of every setting in `lines`, in order.
pub open spec fn settings_in(lines: Seq<Seq<char>>) -> Seq<(Seq<char>, Seq<char>, Seq<char>)>
    decreases lines.len(),
{
    if lines.len() == 0 {
        seq![]
    } else {
        let before = settings_in(lines.drop_last());
        match meaning(lines.last()) {
            LineMeaning::Setting(key, value) => before.push(
                (section_after(lines.drop_last()), key, value),
            ),
            _ => before,
        }
    }
}

/// The settings of a text.
pub open spec fn settings_of(s: Seq<char>) -> Seq<(Seq<char>, Seq<char>, Seq<char>)> {
    settings_in(lines_of(s))
}

/// One `key = value` line and the section it stands in.
#[derive(Debug)]
pub struct Setting {
    pub section: String,
    pub key: String,
    pub value: String,
}

impl View for Setting {
    type V = (Seq<char>, Seq<char>, Seq<char>);

    open spec fn view(&self) -> (Seq<char>, Seq<char>, Seq<char>) {
        (self.section@, self.key@, self.value@)
    }
}

fn trim_start(s: &[char]) -> (res: &[char])
    ensures
        res@ == trimmed_start(s@),
{
    let mut i: usize = 0;
    assert(s@.skip(0) =~= s@);
    while i < s.len() && is_whitespace(s[i])
        invariant
            i <= s@.len(),
            trimmed_start(s@) == trimmed_start(s@.skip(i as int)),
        decreases s.len() - i,
    {
        assert(s@.skip(i as int).drop_first() =~= s@.skip(i + 1));
        i += 1;
    }
    let res = slice_subrange(s, i, s.len());
    assert(res@ =~= s@.skip(i as int));
    res
}

fn trim_end(s: &[char]) -> (res: &[char])
    ensures
        res@ == trimmed_end(s@),
{
    let mut n: usize = s.len();
    assert(s@.take(n as int) =~= s@);
    while n > 0 && is_whitespace(s[n - 1])
        invariant
            n <= s@.len(),
            trimmed_end(s@) == trimmed_end(s@.take(n as int)),
        decreases n,
    {
        assert(s@.take(n as int).drop_last() =~= s@.take(n - 1));
        assert(s@.take(n as int).last() == s@[n - 1]);
        n -= 1;
    }
    let res = slice_subrange(s, 0, n);
    assert(res@ =~= s@.take(n as int));
    if n > 0 {
        assert(res@.last() == s@[n - 1]);
    }
    res
}

fn trim(s: &[char]) -> (res: &[char])
    ensures
        res@ == trimmed(s@),
{
    trim_end(trim_start(s))
}

/// What there is to know about [`first_at`].
proof fn lemma_first_at(s: Seq<char>, p: spec_fn(char) -> bool)
    ensures
        match first_at(s, p) {
            Some(i) => 0 <= i < s.len() && p(s[i]) && forall|k: int| 0 <= k < i ==> !p(s[k]),
            None => forall|k: int| 0 <= k < s.len() ==> !p(s[k]),
        },
    decreases s.len(),
{
    if s.len() > 0 && !p(s[0]) {
        let rest = s.drop_first();
        lemma_first_at(rest, p);
        assert(forall|k: int| 0 <= k < rest.len() ==> rest[k] == s[k + 1]);
        assert forall|k: int|
            0 <= k < s.len() && (first_at(s, p) is None || k < first_at(s, p)->0) implies !p(
            s[k],
        ) by {
            if k > 0 {
                assert(rest[k - 1] == s[k]);
            }
        }
    }
}

/// The position of the first character that `p` accepts, where one is known with none
/// before it.
proof fn lemma_first_at_is(s: Seq<char>, p: spec_fn(char) -> bool, i: int)
    requires
        0 <= i < s.len(),
        p(s[i]),
        forall|k: int| 0 <= k < i ==> !p(s[k]),
    ensures
        first_at(s, p) == Some(i),
{
    lemma_first_at(s, p);
}

/// Trimming the start does not lengthen, and a text that keeps its length is kept.
proof fn lemma_trimmed_start_len(s: Seq<char>)
    ensures
        trimmed_start(s).len() <= s.len(),
        trimmed_start(s).len() == s.len() ==> trimmed_start(s) == s,
    decreases s.len(),
{
    if s.len() > 0 && is_space(s[0]) {
        lemma_trimmed_start_len(s.drop_first());
    }
}

/// Trimming the end does not lengthen.
proof fn lemma_trimmed_end_len(s: Seq<char>)
    ensures
        trimmed_end(s).len() <= s.len(),
    decreases s.len(),
{
    if s.len() > 0 && is_space(s.last()) {
        lemma_trimmed_end_len(s.drop_last());
    }
}

/// The first significant character of a line is the key's, or the `=` behind it.
proof fn lemma_line_start(key: Seq<char>, rest: Seq<char>)
    requires
        rest.len() > 0,
        rest[0] == '=',
    ensures
        ({
            let start = trimmed_start(key + rest);
            &&& start.len() > 0
            &&& start[0] == (if trimmed_start(key).len() > 0 {
                trimmed_start(key)[0]
            } else {
                '='
            })
        }),
    decreases key.len(),
{
    if key.len() == 0 {
        assert(key + rest =~= rest);
    } else {
        assert((key + rest)[0] == key[0]);
        if is_space(key[0]) {
            assert((key + rest).drop_first() =~= key.drop_first() + rest);
            lemma_line_start(key.drop_first(), rest);
        }
    }
}

/// Whether a line that starts like this is a section header.
pub open spec fn opens_section(line: Seq<char>) -> bool {
    trimmed_start(line).len() > 0 && trimmed_start(line)[0] == '['
}

/// Whether a value reads the same without quotation marks: nothing of it is trimmed, taken
/// for a comment, or taken for a quotation mark around it.
pub open spec fn reads_plain(value: Seq<char>) -> bool {
    &&& trimmed(value) == value
    &&& forall|k: int| 0 <= k < value.len() ==> !opens_comment(#[trigger] value[k])
    &&& value.len() > 0 ==> value[0] != '"' && value[0] != '\''
}

/// The meaning of a line with this key and what follows its `=`.
proof fn lemma_meaning(key: Seq<char>, tail: Seq<char>)
    requires
        !key.contains('='),
        !opens_section(key),
    ensures
        meaning(key + seq!['='] + tail) == (if first_at(key, |c: char| opens_comment(c)) is Some
            || trimmed(key).len() == 0 {
            LineMeaning::Nothing
        } else {
            LineMeaning::Setting(trimmed(key), unquoted(value_part(trimmed(tail))))
        }),
{
    let line = key + seq!['='] + tail;
    let rest = seq!['='] + tail;
    assert(line =~= key + rest);
    lemma_line_start(key, rest);
    let p = |c: char| c == '=';
    assert forall|k: int| 0 <= k < key.len() implies !p(line[k]) by {
        assert(line[k] == key[k]);
        assert(key.contains(key[k]));
    }
    lemma_first_at_is(line, p, key.len() as int);
    assert(line.take(key.len() as int) =~= key);
    assert(line.skip(key.len() as int + 1) =~= tail);
}

/// A value in quotation marks stands for what is between them, comment characters and
/// spaces included, and a value that reads the same without them may be written without.
pub proof fn lemma_quotes(key: Seq<char>, value: Seq<char>, quote: char)
    requires
        quote == '"' || quote == '\'',
        !key.contains('='),
        !opens_section(key),
        !value.contains(quote),
    ensures
        ({
            let quoted = meaning(key + seq!['='] + (seq![quote] + value + seq![quote]));
            &&& quoted == (if first_at(key, |c: char| opens_comment(c)) is Some || trimmed(
                key,
            ).len() == 0 {
                LineMeaning::Nothing
            } else {
                LineMeaning::Setting(trimmed(key), value)
            })
            &&& reads_plain(value) ==> meaning(key + seq!['='] + value) == quoted
        }),
{
    let tail = seq![quote] + value + seq![quote];
    lemma_meaning(key, tail);
    assert(!is_space(quote));
    assert(tail[0] == quote && tail.last() == quote);
    assert(trimmed(tail) == tail);
    let inner = tail.drop_first();
    let p = |c: char| c == tail[0];
    assert(inner =~= value + seq![quote]);
    assert forall|k: int| 0 <= k < value.len() implies !p(inner[k]) by {
        assert(inner[k] == value[k]);
        assert(value.contains(value[k]));
    }
    assert(inner[value.len() as int] == quote);
    assert(inner.contains(quote));
    lemma_first_at_is(inner, p, value.len() as int);
    assert(tail.take(value.len() as int + 2) =~= tail);
    assert(tail.subrange(1, tail.len() - 1) =~= value);
    if reads_plain(value) {
        lemma_meaning(key, value);
        lemma_trimmed_start_len(value);
        lemma_trimmed_end_len(trimmed_start(value));
        lemma_first_at(value, |c: char| opens_comment(c));
        assert(trimmed_start(value) == value);
        assert(uncommented(value) == value);
    }
}

/// Finds the first occurrence of `c` from `from` on.
fn find_char(s: &[char], from: usize, c: char) -> (res: Option<usize>)
    requires
        from <= s@.len(),
    ensures
        match res {
            Some(i) => from <= i < s@.len() && first_at(s@.skip(from as int), |x: char| x == c)
                == Some(i - from),
            None => first_at(s@.skip(from as int), |x: char| x == c) is None,
        },
{
    let ghost p = |x: char| x == c;
    let ghost rest = s@.skip(from as int);
    let mut i: usize = from;
    while i < s.len()
        invariant
            from <= i <= s@.len(),
            rest == s@.skip(from as int),
            p == (|x: char| x == c),
            forall|k: int| 0 <= k < i - from ==> rest[k] != c,
        decreases s.len() - i,
    {
        if s[i] == c {
            proof {
                assert(rest[i - from] == c);
                lemma_first_at_is(rest, p, i - from);
            }
            return Some(i);
        }
        i += 1;
    }
    proof {
        lemma_first_at(rest, p);
    }
    None
}

/// Finds the first character that opens a comment.
fn find_comment(s: &[char]) -> (res: Option<usize>)
    ensures
        match res {
            Some(i) => i < s@.len() && first_at(s@, |c: char| opens_comment(c)) == Some(i as int),
            None => first_at(s@, |c: char| opens_comment(c)) is None,
        },
{
    let ghost p = |c: char| opens_comment(c);
    let mut i: usize = 0;
    while i < s.len()
        invariant
            i <= s@.len(),
            p == (|c: char| opens_comment(c)),
            forall|k: int| 0 <= k < i ==> !opens_comment(s@[k]),
        decreases s.len() - i,
    {
        if s[i] == ';' || s[i] == '#' {
            proof {
                lemma_first_at_is(s@, p, i as int);
            }
            return Some(i);
        }
        i += 1;
    }
    proof {
        lemma_first_at(s@, p);
    }
    None
}

/// Strips a comment from a line.
fn strip_comment(s: &[char]) -> (res: &[char])
    ensures
        res@ == uncommented(s@),
{
    match find_comment(s) {
        Some(i) => {
            let res = slice_subrange(s, 0, i);
            assert(res@ =~= s@.take(i as int));
            res
        },
        None => s,
    }
}

/// Gives a value up to the start of any trailing comment.
fn value_before_comment(v: &[char]) -> (res: &[char])
    ensures
        res@ == value_part(v@),
{
    if v.len() > 0 && (v[0] == '"' || v[0] == '\'') {
        let q: char = v[0];
        let found = find_char(v, 1, q);
        proof {
            assert(v@.skip(1) =~= v@.drop_first());
            lemma_first_at(v@.drop_first(), |c: char| c == v@[0]);
            assert((|x: char| x == q) =~= (|c: char| c == v@[0]));
        }
        match found {
            Some(end) => {
                // Both quotation marks are kept: the pair is dropped later.
                assert(v@.drop_first()[end - 1] == v@[0]);
                let res = slice_subrange(v, 0, end + 1);
                assert(res@ =~= v@.take(end + 1));
                return res;
            },
            None => {
                assert(!v@.drop_first().contains(v@[0]));
            },
        }
    }
    trim_end(strip_comment(v))
}

fn strip_quotes(v: &[char]) -> (res: &[char])
    ensures
        res@ == unquoted(v@),
{
    if v.len() >= 2 {
        let first: char = v[0];
        let last: char = v[v.len() - 1];
        if (first == '"' || first == '\'') && first == last {
            return slice_subrange(v, 1, v.len() - 1);
        }
    }
    v
}

/// Strips one matching `"..."` or `'...'` pair, so that quoted values read the same as
/// unquoted ones.
pub fn unquote(v: &str) -> (res: String)
    ensures
        res@ == unquoted(v@),
{
    let chars = to_chars(v);
    from_chars(strip_quotes(chars.as_slice()))
}

/// The state of a scan.
struct Scan {
    section: String,
    settings: Vec<Setting>,
}

impl Scan {
    /// The scan has taken in exactly `lines`.
    spec fn covers(self, lines: Seq<Seq<char>>) -> bool {
        &&& self.section@ == section_after(lines)
        &&& self.settings@.map_values(|s: Setting| s@) == settings_in(lines)
    }

    fn take_line(&mut self, line: &[char], Ghost(before): Ghost<Seq<Seq<char>>>)
        requires
            old(self).covers(before),
        ensures
            final(self).covers(before.push(line@)),
    {
        proof {
            assert(before.push(line@).drop_last() =~= before);
            assert(before.push(line@).last() == line@);
        }
        let start = trim_start(line);
        if start.len() > 0 && start[0] == '[' {
            let body = slice_subrange(start, 1, start.len());
            assert(body@ =~= start@.drop_first());
            let name = trim_end(strip_comment(body));
            if name.len() > 0 && name[name.len() - 1] == ']' {
                let inner = slice_subrange(name, 0, name.len() - 1);
                assert(inner@ =~= name@.drop_last());
                self.section = from_chars(trim(inner));
            }
            return;
        }
        let eq: usize = match find_char(line, 0, '=') {
            Some(i) => i,
            None => {
                assert(line@.skip(0) =~= line@);
                return;
            },
        };
        assert(line@.skip(0) =~= line@);
        let len: usize = line.len();
        let head = slice_subrange(line, 0, eq);
        let tail = slice_subrange(line, eq + 1, len);
        assert(head@ =~= line@.take(eq as int));
        assert(tail@ =~= line@.skip(eq + 1));
        if find_comment(head).is_some() {
            return;
        }
        let key = trim(head);
        if key.len() == 0 {
            return;
        }
        let value = strip_quotes(value_before_comment(trim(tail)));
        let setting = Setting {
            section: self.section.clone(),
            key: from_chars(key),
            value: from_chars(value),
        };
        self.settings.push(setting);
        assert(self.settings@.map_values(|s: Setting| s@) =~= settings_in(before.push(line@)));
    }
}

/// Scans `text` for its `key = value` lines. A section is that of the most recent
/// `[name]` header, empty before the first.
pub fn for_each_setting(text: &str) -> (settings: Vec<Setting>)
    ensures
        settings@.map_values(|s: Setting| s@) == settings_of(text@),
{
    let chars = to_chars(text);
    let mut scan = Scan { section: String::new(), settings: Vec::new() };
    let ghost mut done: Seq<Seq<char>> = Seq::empty();
    let mut at: usize = 0;
    proof {
        assert(chars@.skip(0) =~= chars@);
        assert(done + lines_of(chars@) =~= lines_of(chars@));
        assert(scan.settings@.map_values(|s: Setting| s@) =~= settings_in(done));
    }
    while at < chars.len()
        invariant
            at <= chars@.len(),
            scan.covers(done),
            lines_of(chars@) == done + lines_of(chars@.skip(at as int)),
        decreases chars.len() - at,
    {
        let ghost rest = chars@.skip(at as int);
        let all = chars.as_slice();
        match find_char(all, at, '\n') {
            Some(nl) => {
                let mut end: usize = nl;
                if end > at && all[end - 1] == '\r' {
                    end -= 1;
                }
                let line = slice_subrange(all, at, end);
                proof {
                    let whole = rest.take(nl - at);
                    if nl > at {
                        assert(whole.last() == chars@[nl - 1]);
                        assert(whole.drop_last() =~= chars@.subrange(at as int, nl - 1));
                    }
                    assert(whole =~= chars@.subrange(at as int, nl as int));
                    assert(rest.skip(nl - at + 1) =~= chars@.skip(nl + 1));
                    assert(lines_of(rest) == seq![line@] + lines_of(chars@.skip(nl + 1)));
                    assert(done.push(line@) + lines_of(chars@.skip(nl + 1)) =~= done + (seq![line@]
                        + lines_of(chars@.skip(nl + 1))));
                }
                scan.take_line(line, Ghost(done));
                proof {
                    done = done.push(line@);
                }
                at = nl + 1;
            },
            None => {
                let line = slice_subrange(all, at, all.len());
                proof {
                    assert(line@ =~= rest);
                    assert(lines_of(chars@.skip(chars@.len() as int)) =~= seq![]);
                    assert(done.push(line@) + lines_of(chars@.skip(chars@.len() as int)) =~= done
                        + seq![rest]);
                }
                scan.take_line(line, Ghost(done));
                proof {
                    done = done.push(line@);
                }
                at = chars.len();
            },
        }
    }
    proof {
        assert(lines_of(chars@.skip(at as int)) =~= seq![]);
        assert(done + lines_of(chars@.skip(at as int)) =~= done);
    }
    scan.settings
}

/// The ASCII lower case of a character.
pub open spec fn lower_char(c: char) -> char {
    if 'A' <= c && c <= 'Z' {
        (c as u32 + 32) as char
    } else {
        c
    }
}

/// `s` in ASCII lower case.
pub open spec fn lowered(s: Seq<char>) -> Seq<char> {
    s.map_values(|c: char| lower_char(c))
}

fn to_lower_char(c: char) -> (res: char)
    ensures
        res == lower_char(c),
{
    let n: u32 = c as u32;
    if 65 <= n && n <= 90 {
        (n as u8 + 32) as char
    } else {
        c
    }
}

/// Returns whether `s` is `word`, a lower-case word, up to ASCII case.
pub fn is_word(s: &str, word: &str) -> (res: bool)
    ensures
        res == (lowered(s@) == word@),
{
    let a = to_chars(s);
    let b = to_chars(word);
    if a.len() != b.len() {
        assert(lowered(s@).len() == s@.len());
        return false;
    }
    let mut i: usize = 0;
    while i < a.len()
        invariant
            i <= a@.len(),
            a@.len() == b@.len(),
            a@ == s@,
            b@ == word@,
            forall|k: int| 0 <= k < i ==> lower_char(a@[k]) == b@[k],
        decreases a.len() - i,
    {
        if to_lower_char(a[i]) != b[i] {
            assert(lowered(s@)[i as int] != word@[i as int]);
            return false;
        }
        i += 1;
    }
    assert(lowered(s@) =~= word@);
    true
}

/// The value of `c` as a digit in `radix`.
pub open spec fn digit_value(c: char, radix: nat) -> Option<nat> {
    let n = c as u32;
    let d: int = if 48 <= n <= 57 {
        n - 48
    } else if 97 <= n <= 122 {
        n - 87
    } else if 65 <= n <= 90 {
        n - 55
    } else {
        36
    };
    if d < radix {
        Some(d as nat)
    } else {
        None
    }
}

/// The value of `s` in `radix`, if it holds only digits.
pub open spec fn digits_value(s: Seq<char>, radix: nat) -> Option<nat>
    decreases s.len(),
{
    if s.len() == 0 {
        Some(0)
    } else {
        match (digits_value(s.drop_last(), radix), digit_value(s.last(), radix)) {
            (Some(high), Some(low)) => Some(high * radix + low),
            _ => None,
        }
    }
}

/// The digits of an unsigned number, behind an optional `+`.
pub open spec fn unsigned_digits(s: Seq<char>) -> Seq<char> {
    if s.len() > 0 && s[0] == '+' {
        s.drop_first()
    } else {
        s
    }
}

/// A number of at least one digit that is at most `max`.
pub open spec fn bounded_number(digits: Seq<char>, radix: nat, max: nat) -> Option<nat> {
    match digits_value(digits, radix) {
        Some(n) if digits.len() > 0 && n <= max => Some(n),
        _ => None,
    }
}

/// An unsigned 32-bit number in `radix`: an optional `+` and digits.
pub open spec fn unsigned_value(s: Seq<char>, radix: nat) -> Option<u32> {
    match bounded_number(unsigned_digits(s), radix, u32::MAX as nat) {
        Some(n) => Some(n as u32),
        None => None,
    }
}

/// A signed 32-bit decimal number: an optional sign and digits.
pub open spec fn signed_value(s: Seq<char>) -> Option<i32> {
    if s.len() > 0 && s[0] == '-' {
        match bounded_number(s.drop_first(), 10, 0x8000_0000) {
            Some(n) => Some((0 - n) as i32),
            None => None,
        }
    } else {
        match bounded_number(unsigned_digits(s), 10, 0x7fff_ffff) {
            Some(n) => Some(n as i32),
            None => None,
        }
    }
}

fn to_digit(c: char, radix: u32) -> (res: Option<u32>)
    requires
        radix <= 36,
    ensures
        match res {
            Some(d) => digit_value(c, radix as nat) == Some(d as nat) && d < radix,
            None => digit_value(c, radix as nat) is None,
        },
{
    let n: u32 = c as u32;
    let d: u32 = if 48 <= n && n <= 57 {
        n - 48
    } else if 97 <= n && n <= 122 {
        n - 87
    } else if 65 <= n && n <= 90 {
        n - 55
    } else {
        36
    };
    if d < radix {
        Some(d)
    } else {
        None
    }
}

/// More digits never make a number smaller.
proof fn lemma_digits_grow(s: Seq<char>, radix: nat, n: int)
    requires
        0 <= n <= s.len(),
        radix >= 1,
        digits_value(s, radix) is Some,
    ensures
        digits_value(s.take(n), radix) is Some,
        digits_value(s.take(n), radix)->0 <= digits_value(s, radix)->0,
    decreases s.len(),
{
    if n == s.len() {
        assert(s.take(n) =~= s);
    } else {
        lemma_digits_grow(s.drop_last(), radix, n);
        assert(s.drop_last().take(n) =~= s.take(n));
        let high = digits_value(s.drop_last(), radix)->0;
        assert(high * radix >= high) by (nonlinear_arith)
            requires
                radix >= 1,
        ;
    }
}

fn parse_digits(s: &[char], radix: u32, max: u32) -> (res: Option<u32>)
    requires
        2 <= radix <= 36,
    ensures
        match res {
            Some(n) => bounded_number(s@, radix as nat, max as nat) == Some(n as nat),
            None => bounded_number(s@, radix as nat, max as nat) is None,
        },
{
    if s.len() == 0 {
        return None;
    }
    let mut acc: u64 = 0;
    let mut i: usize = 0;
    while i < s.len()
        invariant
            i <= s@.len(),
            2 <= radix <= 36,
            acc <= max,
            digits_value(s@.take(i as int), radix as nat) == Some(acc as nat),
        decreases s.len() - i,
    {
        let ghost next = s@.take(i + 1);
        proof {
            assert(next.drop_last() =~= s@.take(i as int));
            assert(next.last() == s@[i as int]);
        }
        let d: u32 = match to_digit(s[i], radix) {
            Some(d) => d,
            None => {
                proof {
                    if digits_value(s@, radix as nat) is Some {
                        lemma_digits_grow(s@, radix as nat, i + 1);
                    }
                }
                return None;
            },
        };
        assert(acc * radix <= 0xffff_ffff * 36) by (nonlinear_arith)
            requires
                0 <= acc <= 0xffff_ffff,
                0 <= radix <= 36,
        ;
        acc = acc * radix as u64 + d as u64;
        if acc > max as u64 {
            proof {
                if digits_value(s@, radix as nat) is Some {
                    lemma_digits_grow(s@, radix as nat, i + 1);
                }
            }
            return None;
        }
        i += 1;
    }
    assert(s@.take(i as int) =~= s@);
    Some(acc as u32)
}

/// Parses an unsigned number in `radix`.
fn parse_unsigned(s: &[char], radix: u32) -> (res: Option<u32>)
    requires
        2 <= radix <= 36,
    ensures
        res == unsigned_value(s@, radix as nat),
{
    if s.len() > 0 && s[0] == '+' {
        let digits = slice_subrange(s, 1, s.len());
        assert(digits@ =~= s@.drop_first());
        parse_digits(digits, radix, u32::MAX)
    } else {
        parse_digits(s, radix, u32::MAX)
    }
}

/// Parses an unsigned decimal number.
pub fn parse_u32(v: &str) -> (res: Option<u32>)
    ensures
        res == unsigned_value(v@, 10),
{
    let chars = to_chars(v);
    parse_unsigned(chars.as_slice(), 10)
}

/// Parses a signed decimal number.
pub fn parse_i32(v: &str) -> (res: Option<i32>)
    ensures
        res == signed_value(v@),
{
    let chars = to_chars(v);
    let s = chars.as_slice();
    if s.len() > 0 && s[0] == '-' {
        let digits = slice_subrange(s, 1, s.len());
        assert(digits@ =~= s@.drop_first());
        match parse_digits(digits, 10, 0x8000_0000) {
            Some(n) => Some((0 - n as i64) as i32),
            None => None,
        }
    } else if s.len() > 0 && s[0] == '+' {
        let digits = slice_subrange(s, 1, s.len());
        assert(digits@ =~= s@.drop_first());
        match parse_digits(digits, 10, 0x7fff_ffff) {
            Some(n) => Some(n as i32),
            None => None,
        }
    } else {
        match parse_digits(s, 10, 0x7fff_ffff) {
            Some(n) => Some(n as i32),
            None => None,
        }
    }
}

/// A bit mask: `0x`, `0o` and `0b` set the radix, otherwise it is decimal.
pub open spec fn bitmask_value(s: Seq<char>) -> Option<u32> {
    if s.len() >= 2 && s[0] == '0' && lower_char(s[1]) == 'x' {
        unsigned_value(s.skip(2), 16)
    } else if s.len() >= 2 && s[0] == '0' && lower_char(s[1]) == 'o' {
        unsigned_value(s.skip(2), 8)
    } else if s.len() >= 2 && s[0] == '0' && lower_char(s[1]) == 'b' {
        unsigned_value(s.skip(2), 2)
    } else {
        unsigned_value(s, 10)
    }
}

/// Parses a bit mask.
pub fn parse_bitmask(v: &str) -> (res: Option<u32>)
    ensures
        res == bitmask_value(v@),
{
    let chars = to_chars(v);
    let s = chars.as_slice();
    if s.len() >= 2 && s[0] == '0' {
        let rest = slice_subrange(s, 2, s.len());
        assert(rest@ =~= s@.skip(2));
        let c: char = to_lower_char(s[1]);
        if c == 'x' {
            return parse_unsigned(rest, 16);
        } else if c == 'o' {
            return parse_unsigned(rest, 8);
        } else if c == 'b' {
            return parse_unsigned(rest, 2);
        }
    }
    parse_unsigned(s, 10)
}

/// Parses `0`, `false`, `off`, `no` and `1`, `true`, `on`, `yes`.
pub open spec fn bool_value(s: Seq<char>) -> Option<bool> {
    let v = lowered(s);
    if v == "0"@ || v == "false"@ || v == "off"@ || v == "no"@ {
        Some(false)
    } else if v == "1"@ || v == "true"@ || v == "on"@ || v == "yes"@ {
        Some(true)
    } else {
        None
    }
}

/// Parses a truth value and its aliases.
pub fn parse_bool(v: &str) -> (res: Option<bool>)
    ensures
        res == bool_value(v@),
{
    if is_word(v, "0") || is_word(v, "false") || is_word(v, "off") || is_word(v, "no") {
        Some(false)
    } else if is_word(v, "1") || is_word(v, "true") || is_word(v, "on") || is_word(v, "yes") {
        Some(true)
    } else {
        None
    }
}

/// White space is what Unicode calls so: of ASCII the space and the five characters from
/// the tab on; the next-line and the no-break spaces; and the spaces and separators of the
/// punctuation blocks.
pub proof fn lemma_spaces(c: char)
    ensures
        (c as u32) < 0x80 ==> (is_space(c) <==> c == ' ' || c == '\t' || c == '\n' || c == '\r' || c
            as u32 == 0xb || c as u32 == 0xc),
        0x80 <= c as u32 && (c as u32) < 0x1680 ==> (is_space(c) <==> c as u32 == 0x85 || c as u32
            == 0xa0),
        c as u32 >= 0x1680 ==> (is_space(c) <==> c as u32 == 0x1680 || (c as u32 >= 0x2000 && c
            as u32 <= 0x200a) || c as u32 == 0x2028 || c as u32 == 0x2029 || c as u32 == 0x202f || c
            as u32 == 0x205f || c as u32 == 0x3000),
{
}

/// Trimming takes white space off both ends, all of it and nothing else.
pub proof fn lemma_trimmed(s: Seq<char>)
    ensures
        ({
            let t = trimmed(s);
            &&& t.len() > 0 ==> !is_space(t[0]) && !is_space(t.last())
            &&& exists|a: int, b: int|
                #![trigger s.subrange(a, b)]
                0 <= a <= b <= s.len() && t == s.subrange(a, b) && (forall|i: int|
                    0 <= i < s.len() && !(a <= i < b) ==> is_space(#[trigger] s[i]))
        }),
{
    lemma_trim_front(s);
    let front = trimmed_start(s);
    let a = choose|a: int|
        0 <= a <= s.len() && front == #[trigger] s.skip(a) && forall|i: int|
            0 <= i < a ==> is_space(#[trigger] s[i]);
    lemma_trim_back(front);
    let n = trimmed_end(front).len() as int;
    let b = a + n;
    assert(trimmed(s) =~= s.subrange(a, b));
    assert forall|i: int| 0 <= i < s.len() && !(a <= i < b) implies is_space(#[trigger] s[i]) by {
        if i >= b {
            assert(front[i - a] == s[i]);
        }
    }
    if n > 0 {
        assert(trimmed(s)[0] == front[0]);
    }
}

proof fn lemma_trim_front(s: Seq<char>)
    ensures
        trimmed_start(s).len() > 0 ==> !is_space(trimmed_start(s)[0]),
        exists|a: int|
            0 <= a <= s.len() && trimmed_start(s) == #[trigger] s.skip(a) && forall|i: int|
                0 <= i < a ==> is_space(#[trigger] s[i]),
    decreases s.len(),
{
    if s.len() > 0 && is_space(s[0]) {
        let rest = s.drop_first();
        lemma_trim_front(rest);
        let a = choose|a: int|
            0 <= a <= rest.len() && trimmed_start(rest) == #[trigger] rest.skip(a) && forall|i: int|
                0 <= i < a ==> is_space(#[trigger] rest[i]);
        assert(rest.skip(a) =~= s.skip(a + 1));
        assert forall|i: int| 0 <= i < a + 1 implies is_space(#[trigger] s[i]) by {
            if i > 0 {
                assert(rest[i - 1] == s[i]);
            }
        }
    } else {
        assert(s.skip(0) =~= s);
    }
}

proof fn lemma_trim_back(s: Seq<char>)
    ensures
        trimmed_end(s).len() > 0 ==> !is_space(trimmed_end(s).last()),
        trimmed_end(s).len() <= s.len(),
        trimmed_end(s) == s.take(trimmed_end(s).len() as int),
        forall|i: int| trimmed_end(s).len() <= i < s.len() ==> is_space(#[trigger] s[i]),
    decreases s.len(),
{
    if s.len() > 0 && is_space(s.last()) {
        let front = s.drop_last();
        lemma_trim_back(front);
        assert(front.take(trimmed_end(s).len() as int) =~= s.take(trimmed_end(s).len() as int));
        assert forall|i: int| trimmed_end(s).len() <= i < s.len() implies is_space(
            #[trigger] s[i],
        ) by {
            if i < front.len() {
                assert(front[i] == s[i]);
            }
        }
    } else {
        assert(s.take(s.len() as int) =~= s);
    }
}

/// A line ends at its line feed, and a carriage return in front of that belongs to the end;
/// what follows is read as a text of its own. A last line needs no end.
pub proof fn lemma_lines(line: Seq<char>, rest: Seq<char>)
    requires
        !line.contains('\n'),
    ensures
        lines_of(line + seq!['\r', '\n'] + rest) == seq![line] + lines_of(rest),
        !(line.len() > 0 && line.last() == '\r') ==> lines_of(line + seq!['\n'] + rest)
            == seq![line] + lines_of(rest),
        lines_of(line) == (if line.len() == 0 {
            seq![]
        } else {
            seq![line]
        }),
{
    let p = |c: char| c == '\n';
    let dos = line + seq!['\r', '\n'] + rest;
    let unix = line + seq!['\n'] + rest;
    let n = line.len() as int;
    assert forall|k: int| 0 <= k < n implies !p(line[k]) by {
        assert(line.contains(line[k]));
    }
    assert forall|k: int| 0 <= k < n + 1 implies !p(dos[k]) by {
        if k < n {
            assert(dos[k] == line[k]);
        }
    }
    lemma_first_at_is(dos, p, n + 1);
    assert(dos.take(n + 1).drop_last() =~= line);
    assert(dos.skip(n + 2) =~= rest);
    assert forall|k: int| 0 <= k < n implies !p(unix[k]) by {
        assert(unix[k] == line[k]);
    }
    lemma_first_at_is(unix, p, n);
    assert(unix.take(n) =~= line);
    assert(unix.skip(n + 1) =~= rest);
    lemma_first_at(line, p);
}

/// A name in brackets opens the section of that name, without the white space around it.
pub proof fn lemma_section_line(name: Seq<char>)
    requires
        !name.contains(';'),
        !name.contains('#'),
    ensures
        meaning(seq!['['] + name + seq![']']) == LineMeaning::Section(trimmed(name)),
{
    let line = seq!['['] + name + seq![']'];
    assert(line[0] == '[' && !is_space('['));
    assert(trimmed_start(line) == line);
    let inner = line.drop_first();
    assert(inner =~= name + seq![']']);
    let p = |c: char| opens_comment(c);
    lemma_first_at(inner, p);
    if first_at(inner, p) is Some {
        let i = first_at(inner, p)->0;
        if i < name.len() {
            assert(inner[i] == name[i]);
            assert(name.contains(name[i]));
        }
    }
    assert(uncommented(inner) == inner);
    assert(inner.last() == ']' && !is_space(']'));
    assert(trimmed_end(inner) == inner);
    assert(inner.drop_last() =~= name);
}

/// A line whose first visible character opens a comment says nothing.
pub proof fn lemma_comment_line(line: Seq<char>)
    requires
        trimmed_start(line).len() > 0,
        trimmed_start(line)[0] == ';' || trimmed_start(line)[0] == '#',
    ensures
        meaning(line) == LineMeaning::Nothing,
{
    lemma_trim_front(line);
    let a = choose|a: int|
        0 <= a <= line.len() && trimmed_start(line) == #[trigger] line.skip(a) && forall|i: int|
            0 <= i < a ==> is_space(#[trigger] line[i]);
    assert(line[a] == trimmed_start(line)[0]);
    let p = |c: char| c == '=';
    lemma_first_at(line, p);
    if let Some(i) = first_at(line, p) {
        if i <= a {
            assert(line[i] == '=');
            assert(i < a ==> is_space(line[i]));
        }
        let key = line.take(i);
        assert(key[a] == line[a]);
        lemma_first_at(key, |c: char| opens_comment(c));
        if first_at(key, |c: char| opens_comment(c)) is None {
            assert(!opens_comment(key[a]));
        }
    }
}

/// What follows a comment character behind a plain value changes nothing.
pub proof fn lemma_trailing_comment(key: Seq<char>, value: Seq<char>, mark: char, note: Seq<char>)
    requires
        mark == ';' || mark == '#',
        !key.contains('='),
        !opens_section(key),
        reads_plain(value),
        value.len() > 0,
    ensures
        meaning(key + seq!['='] + (value + seq![mark] + note)) == meaning(key + seq!['='] + value),
{
    let tail = value + seq![mark] + note;
    lemma_meaning(key, tail);
    lemma_meaning(key, value);
    lemma_trimmed_start_len(value);
    lemma_trimmed_end_len(trimmed_start(value));
    assert(trimmed_start(value) == value);
    assert(tail[0] == value[0]);
    lemma_trimmed_start_len(value.drop_first());
    assert(!is_space(value[0]));
    assert(trimmed_start(tail) == tail);
    lemma_trim_back(tail);
    let cut = trimmed_end(tail);
    let n = value.len() as int;
    if cut.len() <= n {
        assert(tail[n] == mark);
        assert(is_space(tail[n]));
        assert(false);
    }
    let p = |c: char| opens_comment(c);
    assert forall|k: int| 0 <= k < n implies !p(cut[k]) by {
        assert(cut[k] == value[k]);
    }
    assert(cut[n] == mark);
    lemma_first_at_is(cut, p, n);
    assert(cut.take(n) =~= value);
    assert(uncommented(cut) == value);
    lemma_first_at(value, p);
    assert(uncommented(value) == value);
    assert(cut[0] == value[0]);
}

/// A setting belongs to the section that was opened last before it; other lines change
/// nothing about the settings.
pub proof fn lemma_settings(lines: Seq<Seq<char>>, line: Seq<char>)
    ensures
        match meaning(line) {
            LineMeaning::Section(name) => settings_in(lines.push(line)) == settings_in(lines)
                && section_after(lines.push(line)) == name,
            LineMeaning::Setting(key, value) => {
                &&& settings_in(lines.push(line)).len() == settings_in(lines).len() + 1
                &&& settings_in(lines.push(line)).drop_last() == settings_in(lines)
                &&& settings_in(lines.push(line)).last().0 == section_after(lines)
                &&& settings_in(lines.push(line)).last().1 == key
                &&& settings_in(lines.push(line)).last().2 == value
                &&& section_after(lines.push(line)) == section_after(lines)
            },
            LineMeaning::Nothing => settings_in(lines.push(line)) == settings_in(lines)
                && section_after(lines.push(line)) == section_after(lines),
        },
        section_after(seq![]) == Seq::<char>::empty(),
{
    assert(lines.push(line).drop_last() =~= lines);
    assert(lines.push(line).last() == line);
    if let LineMeaning::Setting(key, value) = meaning(line) {
        assert(settings_in(lines.push(line)).drop_last() =~= settings_in(lines));
    }
}

/// Only the 26 capital letters have another lower case, 32 behind them.
pub proof fn lemma_lower_char(c: char)
    ensures
        'A' <= c && c <= 'Z' ==> lower_char(c) as u32 == c as u32 + 32,
        lower_char(c) != c ==> 'A' <= c && c <= 'Z',
        lower_char(lower_char(c)) == lower_char(c),
{
}

/// A digit has the same value in either case, and nothing but digits and letters has one;
/// it is the digit that is written for that value, and below the radix.
pub proof fn lemma_digit_value(c: char, d: nat, radix: nat)
    requires
        2 <= radix <= 16,
    ensures
        digit_value(c, radix) == digit_value(lower_char(c), radix),
        digit_value(c, radix) is Some ==> digit_value(c, radix)->0 < radix && lower_char(c)
            == text::digit_char(digit_value(c, radix)->0),
        d < radix ==> digit_value(text::digit_char(d), radix) == Some(d),
{
}

/// A number reads as itself.
pub proof fn lemma_number_reads_back(n: nat, radix: nat)
    requires
        2 <= radix <= 16,
    ensures
        digits_value(text::number(n, radix), radix) == Some(n),
        text::number(n, radix).len() > 0,
        forall|i: int|
            0 <= i < text::number(n, radix).len() ==> digit_value(
                #[trigger] text::number(n, radix)[i],
                radix,
            ) is Some,
    decreases n,
{
    let s = text::number(n, radix);
    if n < radix {
        lemma_digit_value('0', n, radix);
        assert(s.drop_last() =~= seq![]);
        assert(s.last() == text::digit_char(n));
        assert(digits_value(s.drop_last(), radix) == Some(0nat));
        assert(0 * radix == 0) by (nonlinear_arith);
    } else {
        assert(n / radix < n) by (nonlinear_arith)
            requires
                radix >= 2,
                n >= radix,
        ;
        vstd::arithmetic::div_mod::lemma_fundamental_div_mod(n as int, radix as int);
        assert(0 <= n % radix < radix) by (nonlinear_arith)
            requires
                radix >= 2,
        ;
        lemma_number_reads_back(n / radix, radix);
        lemma_digit_value('0', n % radix, radix);
        let front = text::number(n / radix, radix);
        assert(s.drop_last() =~= front);
        assert(s.last() == text::digit_char(n % radix));
        assert((n / radix) * radix == radix * (n / radix)) by (nonlinear_arith);
        assert forall|i: int| 0 <= i < s.len() implies digit_value(#[trigger] s[i], radix)
            is Some by {
            if i < front.len() {
                assert(s[i] == front[i]);
            }
        }
    }
}

/// Every unsigned integer is read from its decimal digits, with or without a plus sign; a
/// number above the largest one, no digits, and anything but digits are refused.
pub proof fn lemma_unsigned_value(n: nat, s: Seq<char>)
    ensures
        unsigned_value(text::decimal(n), 10) == (if n <= u32::MAX {
            Some(n as u32)
        } else {
            None
        }),
        n <= u32::MAX ==> unsigned_value(seq!['+'] + text::decimal(n), 10) == Some(n as u32),
        unsigned_value(seq![], 10) is None,
        unsigned_value(s, 10) is Some ==> forall|i: int|
            1 <= i < s.len() ==> '0' <= #[trigger] s[i] && s[i] <= '9',
        unsigned_value(s, 10) is Some ==> s.len() > 0 && (s[0] == '+' || ('0' <= s[0] && s[0]
            <= '9')),
{
    lemma_number_reads_back(n, 10);
    let d = text::decimal(n);
    assert(digit_value(d[0], 10) is Some);
    assert(d[0] != '+');
    assert((seq!['+'] + d).drop_first() =~= d);
    if unsigned_value(s, 10) is Some {
        let digits = unsigned_digits(s);
        lemma_digits_only(digits, 10);
        assert forall|i: int| 1 <= i < s.len() implies '0' <= #[trigger] s[i] && s[i] <= '9' by {
            let k = if digits.len() == s.len() {
                i
            } else {
                i - 1
            };
            assert(digits[k] == s[i]);
            assert(digit_value(digits[k], 10) is Some);
            lemma_decimal_digit(s[i]);
        }
        if s[0] != '+' {
            assert(digits[0] == s[0]);
            assert(digit_value(digits[0], 10) is Some);
            lemma_decimal_digit(s[0]);
        }
    }
}

proof fn lemma_decimal_digit(c: char)
    ensures
        digit_value(c, 10) is Some <==> '0' <= c && c <= '9',
{
}

proof fn lemma_digits_only(s: Seq<char>, radix: nat)
    requires
        digits_value(s, radix) is Some,
    ensures
        forall|i: int| 0 <= i < s.len() ==> digit_value(#[trigger] s[i], radix) is Some,
    decreases s.len(),
{
    if s.len() > 0 {
        lemma_digits_only(s.drop_last(), radix);
        assert forall|i: int| 0 <= i < s.len() implies digit_value(#[trigger] s[i], radix)
            is Some by {
            if i < s.len() - 1 {
                assert(s.drop_last()[i] == s[i]);
            }
        }
    }
}

/// Every signed integer is read from its digits and sign.
pub proof fn lemma_signed_value(n: i32)
    ensures
        signed_value(text::signed_decimal(n as int)) == Some(n),
        n >= 0 ==> signed_value(seq!['+'] + text::decimal(n as nat)) == Some(n),
{
    let m: nat = if n < 0 {
        (-n) as nat
    } else {
        n as nat
    };
    lemma_number_reads_back(m, 10);
    let d = text::decimal(m);
    assert(digit_value(d[0], 10) is Some);
    assert(d[0] != '+' && d[0] != '-');
    assert((seq!['+'] + d).drop_first() =~= d);
    if n < 0 {
        assert((seq!['-'] + d).drop_first() =~= d);
    }
}

/// A mask is read in hexadecimal, octal or binary behind `0x`, `0o` or `0b` in either case,
/// and else in decimal.
pub proof fn lemma_bitmask_value(n: u32)
    ensures
        bitmask_value(text::decimal(n as nat)) == Some(n),
        bitmask_value(seq!['0', 'x'] + text::number(n as nat, 16)) == Some(n),
        bitmask_value(seq!['0', 'X'] + text::number(n as nat, 16)) == Some(n),
        bitmask_value(seq!['0', 'o'] + text::number(n as nat, 8)) == Some(n),
        bitmask_value(seq!['0', 'O'] + text::number(n as nat, 8)) == Some(n),
        bitmask_value(seq!['0', 'b'] + text::number(n as nat, 2)) == Some(n),
        bitmask_value(seq!['0', 'B'] + text::number(n as nat, 2)) == Some(n),
{
    lemma_number_reads_back(n as nat, 10);
    let a = text::number(n as nat, 10);
    assert(digit_value(a[0], 10) is Some);
    if a.len() > 1 {
        assert(digit_value(a[1], 10) is Some);
        lemma_decimal_digit(a[1]);
    }
    lemma_unsigned_value(n as nat, a);
    lemma_mask_digits(n, 'x', 16);
    lemma_mask_digits(n, 'X', 16);
    lemma_mask_digits(n, 'o', 8);
    lemma_mask_digits(n, 'O', 8);
    lemma_mask_digits(n, 'b', 2);
    lemma_mask_digits(n, 'B', 2);
}

proof fn lemma_mask_digits(n: u32, letter: char, radix: nat)
    requires
        radix == 2 || radix == 8 || radix == 16,
    ensures
        ({
            let s = seq!['0', letter] + text::number(n as nat, radix);
            s.len() >= 2 && s[0] == '0' && s[1] == letter && unsigned_value(s.skip(2), radix) == Some(
                n,
            )
        }),
{
    lemma_number_reads_back(n as nat, radix);
    let d = text::number(n as nat, radix);
    assert(digit_value(d[0], radix) is Some);
    assert((seq!['0', letter] + d).skip(2) =~= d);
}

/// A switch is on for each of four words and off for each of their opposites, in any case,
/// and neither for anything else.
pub proof fn lemma_bool_value(s: Seq<char>)
    ensures
        bool_value(s) == Some(true) <==> lowered(s) == seq!['1'] || lowered(s) == seq!['o', 'n']
            || lowered(s) == seq!['y', 'e', 's'] || lowered(s) == seq!['t', 'r', 'u', 'e'],
        bool_value(s) == Some(false) <==> lowered(s) == seq!['0'] || lowered(s) == seq![
            'o',
            'f',
            'f',
        ] || lowered(s) == seq!['n', 'o'] || lowered(s) == seq!['f', 'a', 'l', 's', 'e'],
{
    reveal_strlit("0");
    reveal_strlit("false");
    reveal_strlit("off");
    reveal_strlit("no");
    reveal_strlit("1");
    reveal_strlit("true");
    reveal_strlit("on");
    reveal_strlit("yes");
    let v = lowered(s);
    assert("0"@ =~= seq!['0']);
    assert("1"@ =~= seq!['1']);
    assert("on"@ =~= seq!['o', 'n']);
    assert("no"@ =~= seq!['n', 'o']);
    assert("off"@ =~= seq!['o', 'f', 'f']);
    assert("yes"@ =~= seq!['y', 'e', 's']);
    assert("true"@ =~= seq!['t', 'r', 'u', 'e']);
    assert("false"@ =~= seq!['f', 'a', 'l', 's', 'e']);
    if v == seq!['o', 'n'] {
        assert(v[0] == 'o');
    }
    if v == seq!['t', 'r', 'u', 'e'] || v == seq!['y', 'e', 's'] || v == seq!['1'] {
        assert(v[0] != 'f' && v[0] != 'n' && v[0] != 'o' && v[0] != '0');
    }
    assert(v == seq!['o', 'n'] ==> v.len() == 2);
    assert(v == seq!['n', 'o'] ==> v[0] == 'n');
}

/// A text that starts with a letter is no number.
pub proof fn lemma_words_are_no_numbers(s: Seq<char>)
    requires
        s.len() > 0,
        'a' <= s[0] && s[0] <= 'z',
    ensures
        unsigned_value(s, 10) is None,
        signed_value(s) is None,
{
    if digits_value(s, 10) is Some {
        lemma_digits_only(s, 10);
        lemma_decimal_digit(s[0]);
        assert(digit_value(s[0], 10) is Some);
    }
}

} // verus!

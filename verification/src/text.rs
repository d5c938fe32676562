//! Text primitives over sequences of characters.
//!
//! Every function here works on the characters of a string, and its
//! contract says which characters come out.

use vstd::prelude::*;

verus! {

/// `String::push` appends one character to the end of the string.
pub assume_specification[ String::push ](s: &mut String, c: char)
    ensures
        final(s)@ == old(s)@.push(c),
;

/// The characters of a string, as a vector.
pub fn chars_of(s: &str) -> (r: Vec<char>)
    ensures
        r@ == s@,
{
    let mut out: Vec<char> = Vec::new();
    for c in it: s.chars()
        invariant
            out@ == s@.take(it.index() as int),
            it.seq() == s@,
    {
        assert(s@.take(it.index() as int).push(c) =~= s@.take(it.index() + 1));
        out.push(c);
    }
    assert(s@.take(s@.len() as int) =~= s@);
    out
}

/// The string made of the characters from `start` up to `end`.
pub fn string_of(v: &[char], start: usize, end: usize) -> (r: String)
    requires
        start <= end <= v@.len(),
    ensures
        r@ == v@.subrange(start as int, end as int),
{
    let mut out = String::new();
    let mut i: usize = start;
    while i < end
        invariant
            start <= i <= end <= v@.len(),
            out@ == v@.subrange(start as int, i as int),
        decreases end - i,
    {
        out.push(v[i]);
        assert(v@.subrange(start as int, i as int).push(v@[i as int]) =~= v@.subrange(
            start as int,
            i + 1,
        ));
        i += 1;
    }
    out
}

/// Whether two strings have the same characters.
pub fn same(a: &str, b: &str) -> (r: bool)
    ensures
        r == (a@ == b@),
{
    a.to_owned() == b.to_owned()
}

// ─── Whitespace and trimming ───────────────────────────────────────────

/// The characters with the Unicode property `White_Space`.
pub open spec fn whitespace(c: char) -> bool {
    let n = c as u32;
    ||| 0x09 <= n <= 0x0D
    ||| n == 0x20
    ||| n == 0x85
    ||| n == 0xA0
    ||| n == 0x1680
    ||| 0x2000 <= n <= 0x200A
    ||| n == 0x2028
    ||| n == 0x2029
    ||| n == 0x202F
    ||| n == 0x205F
    ||| n == 0x3000
}

pub fn is_whitespace(c: char) -> (r: bool)
    ensures
        r == whitespace(c),
{
    let n: u32 = c as u32;
    (0x09 <= n && n <= 0x0D) || n == 0x20 || n == 0x85 || n == 0xA0 || n == 0x1680 || (0x2000 <= n
        && n <= 0x200A) || n == 0x2028 || n == 0x2029 || n == 0x202F || n == 0x205F || n == 0x3000
}

/// `s` without its leading whitespace.
pub open spec fn trimmed_start(s: Seq<char>) -> Seq<char>
    decreases s.len(),
{
    if s.len() > 0 && whitespace(s.first()) {
        trimmed_start(s.drop_first())
    } else {
        s
    }
}

/// `s` without its trailing whitespace.
pub open spec fn trimmed_end(s: Seq<char>) -> Seq<char>
    decreases s.len(),
{
    if s.len() > 0 && whitespace(s.last()) {
        trimmed_end(s.drop_last())
    } else {
        s
    }
}

/// `s` without its leading and trailing whitespace.
pub open spec fn trimmed(s: Seq<char>) -> Seq<char> {
    trimmed_end(trimmed_start(s))
}

/// The index of the first character that is not whitespace, or the length.
fn start_of_text(v: &[char]) -> (r: usize)
    ensures
        r <= v@.len(),
        v@.subrange(r as int, v@.len() as int) == trimmed_start(v@),
{
    let mut i: usize = 0;
    assert(v@.subrange(0, v@.len() as int) =~= v@);
    while i < v.len() && is_whitespace(v[i])
        invariant
            i <= v@.len(),
            trimmed_start(v@.subrange(i as int, v@.len() as int)) == trimmed_start(v@),
        decreases v@.len() - i,
    {
        assert(v@.subrange(i as int, v@.len() as int).drop_first() =~= v@.subrange(
            i + 1,
            v@.len() as int,
        ));
        i += 1;
    }
    i
}

/// The index after the last character past `start` that is not whitespace.
fn end_of_text(v: &[char], start: usize) -> (r: usize)
    requires
        start <= v@.len(),
    ensures
        start <= r <= v@.len(),
        v@.subrange(start as int, r as int) == trimmed_end(
            v@.subrange(start as int, v@.len() as int),
        ),
{
    let mut i: usize = v.len();
    while i > start && is_whitespace(v[i - 1])
        invariant
            start <= i <= v@.len(),
            trimmed_end(v@.subrange(start as int, i as int)) == trimmed_end(
                v@.subrange(start as int, v@.len() as int),
            ),
        decreases i,
    {
        assert(v@.subrange(start as int, i as int).drop_last() =~= v@.subrange(
            start as int,
            i - 1,
        ));
        i -= 1;
    }
    i
}

/// Removes leading and trailing whitespace.
pub fn trim(s: &str) -> (r: String)
    ensures
        r@ == trimmed(s@),
{
    let v = chars_of(s);
    let a = start_of_text(&v);
    let b = end_of_text(&v, a);
    string_of(&v, a, b)
}

/// Removes trailing whitespace.
pub fn trim_end(s: &str) -> (r: String)
    ensures
        r@ == trimmed_end(s@),
{
    let v = chars_of(s);
    assert(v@.subrange(0, v@.len() as int) =~= s@);
    let b = end_of_text(&v, 0);
    string_of(&v, 0, b)
}

/// Nothing is trimmed off a text without whitespace at its ends.
pub proof fn lemma_trimmed_already(s: Seq<char>)
    requires
        s.len() > 0 ==> !whitespace(s.first()) && !whitespace(s.last()),
    ensures
        trimmed(s) == s,
        trimmed_start(s) == s,
        trimmed_end(s) == s,
{
}

/// What [`trimmed_end`] leaves: the start of the text, up to a character that
/// is no whitespace.
pub proof fn lemma_trimmed_end(s: Seq<char>)
    ensures
        trimmed_end(s).len() <= s.len(),
        trimmed_end(s) == s.take(trimmed_end(s).len() as int),
        trimmed_end(s).len() > 0 ==> !whitespace(trimmed_end(s).last()),
    decreases s.len(),
{
    if s.len() > 0 && whitespace(s.last()) {
        lemma_trimmed_end(s.drop_last());
        assert(s.drop_last().take(trimmed_end(s).len() as int) =~= s.take(
            trimmed_end(s).len() as int,
        ));
    } else {
        assert(s.take(s.len() as int) =~= s);
    }
}

/// What [`trimmed_start`] leaves: the end of the text, from a character that is
/// no whitespace.
pub proof fn lemma_trimmed_start(s: Seq<char>)
    ensures
        trimmed_start(s).len() <= s.len(),
        trimmed_start(s) == s.skip(s.len() - trimmed_start(s).len()),
        trimmed_start(s).len() > 0 ==> !whitespace(trimmed_start(s).first()),
    decreases s.len(),
{
    if s.len() > 0 && whitespace(s.first()) {
        lemma_trimmed_start(s.drop_first());
        let n = trimmed_start(s).len();
        assert(s.drop_first().skip(s.len() - 1 - n) =~= s.skip(s.len() - n));
    } else {
        assert(s.skip(0) =~= s);
    }
}

/// A trimmed text has no whitespace at its ends.
pub proof fn lemma_trimmed_ends(s: Seq<char>)
    ensures
        trimmed(s).len() > 0 ==> !whitespace(trimmed(s).first()) && !whitespace(trimmed(s).last()),
{
    lemma_trimmed_start(s);
    lemma_trimmed_end(trimmed_start(s));
}

/// A trimmed text is a part of the text. Returns where the part starts.
pub proof fn lemma_trimmed_is_part(s: Seq<char>) -> (start: int)
    ensures
        0 <= start,
        start + trimmed(s).len() <= s.len(),
        trimmed(s) == s.subrange(start, start + trimmed(s).len()),
{
    lemma_trimmed_start(s);
    lemma_trimmed_end(trimmed_start(s));
    let start = s.len() - trimmed_start(s).len();
    assert(trimmed(s) =~= s.subrange(start, start + trimmed(s).len()));
    start
}

/// `s` without the trailing characters that equal `c`.
pub open spec fn without_trailing(s: Seq<char>, c: char) -> Seq<char>
    decreases s.len(),
{
    if s.len() > 0 && s.last() == c {
        without_trailing(s.drop_last(), c)
    } else {
        s
    }
}

/// Removes every trailing character that equals `c`.
pub fn trim_end_char(s: &str, c: char) -> (r: String)
    ensures
        r@ == without_trailing(s@, c),
{
    let v = chars_of(s);
    let mut i: usize = v.len();
    assert(v@.subrange(0, i as int) =~= s@);
    while i > 0 && v[i - 1] == c
        invariant
            i <= v@.len(),
            without_trailing(v@.subrange(0, i as int), c) == without_trailing(s@, c),
        decreases i,
    {
        assert(v@.subrange(0, i as int).drop_last() =~= v@.subrange(0, i - 1));
        i -= 1;
    }
    string_of(&v, 0, i)
}

// ─── Searching and replacing ───────────────────────────────────────────

/// Whether `s` begins with `prefix`.
pub open spec fn has_prefix(s: Seq<char>, prefix: Seq<char>) -> bool {
    prefix.len() <= s.len() && s.take(prefix.len() as int) == prefix
}

/// Whether `part` occurs in `s` at index `i`.
pub open spec fn occurs_at(s: Seq<char>, part: Seq<char>, i: int) -> bool {
    0 <= i && i + part.len() <= s.len() && s.subrange(i, i + part.len()) == part
}

/// Whether `part` occurs somewhere in `s`.
pub open spec fn occurs(s: Seq<char>, part: Seq<char>) -> bool {
    exists|i: int| occurs_at(s, part, i)
}

/// Whether `part` stands in `v` at index `i`.
fn matches_at(v: &[char], part: &[char], i: usize) -> (r: bool)
    requires
        i <= v@.len(),
    ensures
        r == occurs_at(v@, part@, i as int),
{
    let n: usize = v.len();
    if part.len() > n - i {
        return false;
    }
    let mut k: usize = 0;
    while k < part.len()
        invariant
            n == v@.len(),
            k <= part@.len(),
            i + part@.len() <= n,
            forall|j: int| 0 <= j < k ==> v@[i + j] == part@[j],
        decreases part@.len() - k,
    {
        if v[i + k] != part[k] {
            assert(v@.subrange(i as int, i + part@.len())[k as int] != part@[k as int]);
            return false;
        }
        k += 1;
    }
    assert(v@.subrange(i as int, i + part@.len()) =~= part@);
    true
}

pub fn starts_with(s: &str, prefix: &str) -> (r: bool)
    ensures
        r == has_prefix(s@, prefix@),
{
    let v = chars_of(s);
    let p = chars_of(prefix);
    assert(prefix@.len() <= s@.len() ==> s@.take(prefix@.len() as int) =~= s@.subrange(
        0,
        prefix@.len() as int,
    ));
    matches_at(&v, &p, 0)
}

pub fn contains(s: &str, part: &str) -> (r: bool)
    ensures
        r == occurs(s@, part@),
{
    let v = chars_of(s);
    let p = chars_of(part);
    let mut i: usize = 0;
    while i < v.len()
        invariant
            v@ == s@,
            p@ == part@,
            i <= v@.len(),
            forall|j: int| 0 <= j < i ==> !occurs_at(s@, part@, j),
        decreases v@.len() - i,
    {
        if matches_at(&v, &p, i) {
            return true;
        }
        i += 1;
    }
    matches_at(&v, &p, i)
}

/// `s` without its first `n` characters.
pub fn skip_chars(s: &str, n: usize) -> (r: String)
    requires
        n <= s@.len(),
    ensures
        r@ == s@.skip(n as int),
{
    let v = chars_of(s);
    let r = string_of(&v, n, v.len());
    assert(r@ =~= s@.skip(n as int));
    r
}

/// `s` without its last character.
pub fn drop_last_char(s: &str) -> (r: String)
    requires
        s@.len() > 0,
    ensures
        r@ == s@.drop_last(),
{
    let v = chars_of(s);
    let r = string_of(&v, 0, v.len() - 1);
    assert(r@ =~= s@.drop_last());
    r
}

/// An ASCII capital as the small letter, any other character as it is.
pub open spec fn ascii_lower(c: char) -> char {
    if 'A' <= c <= 'Z' {
        (c as u32 + 32) as char
    } else {
        c
    }
}

/// Whether two texts are the same but for the case of ASCII letters.
pub open spec fn same_but_case(a: Seq<char>, b: Seq<char>) -> bool {
    a.map_values(|c: char| ascii_lower(c)) == b.map_values(|c: char| ascii_lower(c))
}

fn lower(c: char) -> (r: u32)
    ensures
        r == ascii_lower(c) as u32,
{
    let n: u32 = c as u32;
    if 65 <= n && n <= 90 {
        n + 32
    } else {
        n
    }
}

pub fn eq_ignore_ascii_case(a: &str, b: &str) -> (r: bool)
    ensures
        r == same_but_case(a@, b@),
{
    let v = chars_of(a);
    let w = chars_of(b);
    let ghost la = a@.map_values(|c: char| ascii_lower(c));
    let ghost lb = b@.map_values(|c: char| ascii_lower(c));
    if v.len() != w.len() {
        assert(la.len() != lb.len());
        return false;
    }
    let mut i: usize = 0;
    while i < v.len()
        invariant
            v@ == a@,
            w@ == b@,
            v@.len() == w@.len(),
            i <= v@.len(),
            la == a@.map_values(|c: char| ascii_lower(c)),
            lb == b@.map_values(|c: char| ascii_lower(c)),
            forall|j: int| 0 <= j < i ==> la[j] == lb[j],
        decreases v@.len() - i,
    {
        if lower(v[i]) != lower(w[i]) {
            assert(la[i as int] != lb[i as int]);
            return false;
        }
        assert(la[i as int] == lb[i as int]);
        i += 1;
    }
    assert(la =~= lb);
    true
}

/// `s` with each occurrence of `from` replaced by `to`. Occurrences are
/// found from left to right and do not overlap.
pub open spec fn replaced(s: Seq<char>, from: Seq<char>, to: Seq<char>) -> Seq<char>
    decreases s.len(),
{
    if s.len() == 0 || from.len() == 0 {
        s
    } else if has_prefix(s, from) {
        to + replaced(s.skip(from.len() as int), from, to)
    } else {
        seq![s.first()] + replaced(s.drop_first(), from, to)
    }
}

/// Nothing is replaced where nothing occurs.
pub proof fn lemma_replaced_nothing(s: Seq<char>, from: Seq<char>, to: Seq<char>)
    requires
        !occurs(s, from),
    ensures
        replaced(s, from, to) == s,
    decreases s.len(),
{
    if s.len() > 0 && from.len() > 0 {
        if has_prefix(s, from) {
            assert(s.subrange(0, from.len() as int) =~= s.take(from.len() as int));
            assert(occurs_at(s, from, 0));
        }
        assert(!occurs(s.drop_first(), from)) by {
            if occurs(s.drop_first(), from) {
                let i = choose|i: int| occurs_at(s.drop_first(), from, i);
                assert(s.subrange(i + 1, i + 1 + from.len()) =~= s.drop_first().subrange(
                    i,
                    i + from.len(),
                ));
                assert(occurs_at(s, from, i + 1));
            }
        }
        lemma_replaced_nothing(s.drop_first(), from, to);
        assert(seq![s.first()] + s.drop_first() =~= s);
    }
}

pub fn replace(s: &str, from: &str, to: &str) -> (r: String)
    requires
        from@.len() > 0,
    ensures
        r@ == replaced(s@, from@, to@),
{
    let v = chars_of(s);
    let f = chars_of(from);
    let mut out = String::new();
    let mut i: usize = 0;
    assert(v@.skip(0) =~= s@);
    assert(out@ + replaced(v@.skip(0), from@, to@) =~= replaced(s@, from@, to@));
    while i < v.len()
        invariant
            v@ == s@,
            f@ == from@,
            from@.len() > 0,
            i <= v@.len(),
            out@ + replaced(v@.skip(i as int), from@, to@) == replaced(s@, from@, to@),
        decreases v@.len() - i,
    {
        let ghost rest = v@.skip(i as int);
        if matches_at(&v, &f, i) {
            assert(rest.take(from@.len() as int) =~= v@.subrange(i as int, i + from@.len()));
            assert(rest.skip(from@.len() as int) =~= v@.skip(i + from@.len()));
            assert(out@ + (to@ + replaced(v@.skip(i + from@.len()), from@, to@)) =~= (out@ + to@)
                + replaced(v@.skip(i + from@.len()), from@, to@));
            out.append(to);
            i += f.len();
        } else {
            assert(has_prefix(rest, from@) ==> rest.take(from@.len() as int) =~= v@.subrange(
                i as int,
                i + from@.len(),
            ));
            assert(rest.drop_first() =~= v@.skip(i + 1));
            assert(out@ + (seq![v@[i as int]] + replaced(v@.skip(i + 1), from@, to@))
                =~= out@.push(v@[i as int]) + replaced(v@.skip(i + 1), from@, to@));
            out.push(v[i]);
            i += 1;
        }
    }
    assert(v@.skip(i as int) =~= Seq::<char>::empty());
    assert(out@ + Seq::<char>::empty() =~= out@);
    out
}

// ─── Joining and splitting ─────────────────────────────────────────────

/// The characters of each string in turn.
pub open spec fn texts(v: Seq<String>) -> Seq<Seq<char>> {
    v.map_values(|s: String| s@)
}

/// The parts in order, with `sep` between each two.
pub open spec fn joined(parts: Seq<Seq<char>>, sep: Seq<char>) -> Seq<char>
    decreases parts.len(),
{
    if parts.len() == 0 {
        seq![]
    } else if parts.len() == 1 {
        parts[0]
    } else {
        joined(parts.drop_last(), sep) + sep + parts.last()
    }
}

/// The first part, then the others behind a separator.
pub proof fn lemma_joined_first(first: Seq<char>, rest: Seq<Seq<char>>, sep: Seq<char>)
    requires
        rest.len() > 0,
    ensures
        joined(seq![first] + rest, sep) == first + sep + joined(rest, sep),
    decreases rest.len(),
{
    let all = seq![first] + rest;
    if rest.len() == 1 {
        assert(all.drop_last() =~= seq![first]);
        assert(joined(seq![first], sep) == first);
        assert(all.last() == rest[0]);
    } else {
        lemma_joined_first(first, rest.drop_last(), sep);
        assert(all.drop_last() =~= seq![first] + rest.drop_last());
        assert(first + sep + joined(rest.drop_last(), sep) + sep + rest.last() =~= first + sep + (
        joined(rest.drop_last(), sep) + sep + rest.last()));
    }
}

pub fn join(parts: &[String], sep: &str) -> (r: String)
    ensures
        r@ == joined(texts(parts@), sep@),
{
    let mut out = String::new();
    let mut i: usize = 0;
    while i < parts.len()
        invariant
            i <= parts@.len(),
            out@ == joined(texts(parts@).take(i as int), sep@),
        decreases parts@.len() - i,
    {
        let ghost done = texts(parts@).take(i as int);
        let ghost next = texts(parts@).take(i + 1);
        assert(next.drop_last() =~= done);
        assert(next.last() == parts@[i as int]@);
        if i > 0 {
            out.append(sep);
        }
        out.append(parts[i].as_str());
        assert(i == 0 ==> out@ =~= next[0]);
        i += 1;
    }
    assert(texts(parts@).take(parts@.len() as int) =~= texts(parts@));
    out
}

/// How many characters stand before the first line feed.
pub open spec fn line_length(s: Seq<char>) -> nat
    decreases s.len(),
{
    if s.len() == 0 || s.first() == '\n' {
        0
    } else {
        1 + line_length(s.drop_first())
    }
}

/// `s` without one carriage return at its end.
pub open spec fn without_return(s: Seq<char>) -> Seq<char> {
    if s.len() > 0 && s.last() == '\r' {
        s.drop_last()
    } else {
        s
    }
}

/// The lines of `s`. A line ends in a line feed, with or without a carriage
/// return before it, or at the end of the text; the ending is not part of
/// the line, and no empty line follows the last ending.
pub open spec fn lines_of(s: Seq<char>) -> Seq<Seq<char>>
    decreases s.len(),
{
    let n = line_length(s);
    if s.len() == 0 {
        seq![]
    } else if n >= s.len() {
        seq![s]
    } else {
        seq![without_return(s.take(n as int))] + lines_of(s.skip(n as int + 1))
    }
}

/// Whether `n` characters stand before the first line feed of `s`.
proof fn lemma_line_length(s: Seq<char>, n: int)
    requires
        0 <= n <= s.len(),
        forall|i: int| 0 <= i < n ==> s[i] != '\n',
        n < s.len() ==> s[n] == '\n',
    ensures
        line_length(s) == n,
    decreases s.len(),
{
    if n > 0 {
        assert forall|i: int| 0 <= i < n - 1 implies s.drop_first()[i] != '\n' by {
            assert(s.drop_first()[i] == s[i + 1]);
        }
        lemma_line_length(s.drop_first(), n - 1);
    }
}

/// Where the first line ends: at a line feed or at the end.
pub proof fn lemma_line_length_is(s: Seq<char>)
    ensures
        line_length(s) <= s.len(),
        line_length(s) < s.len() ==> s[line_length(s) as int] == '\n',
        forall|i: int| 0 <= i < line_length(s) ==> s[i] != '\n',
    decreases s.len(),
{
    if s.len() > 0 && s.first() != '\n' {
        lemma_line_length_is(s.drop_first());
        assert forall|i: int| 0 <= i < line_length(s) implies s[i] != '\n' by {
            if i > 0 {
                assert(s[i] == s.drop_first()[i - 1]);
            }
        }
    }
}

/// No line holds a line feed.
pub proof fn lemma_lines_have_no_line_feed(s: Seq<char>)
    ensures
        forall|k: int| 0 <= k < lines_of(s).len() ==> !(#[trigger] lines_of(s)[k]).contains('\n'),
    decreases s.len(),
{
    lemma_line_length_is(s);
    let n = line_length(s) as int;
    if s.len() > 0 && n < s.len() {
        let rest = s.skip(n + 1);
        lemma_lines_have_no_line_feed(rest);
        assert forall|k: int| 0 <= k < lines_of(s).len() implies !(#[trigger] lines_of(
            s,
        )[k]).contains('\n') by {
            if k > 0 {
                assert(lines_of(s)[k] == lines_of(rest)[k - 1]);
            } else {
                let line = lines_of(s)[0];
                if line.contains('\n') {
                    let j = choose|j: int| 0 <= j < line.len() && line[j] == '\n';
                    assert(line[j] == s[j]);
                }
            }
        }
    }
}

/// The index of the first line feed at or after `start`, or the length.
fn end_of_line(v: &[char], start: usize) -> (r: usize)
    requires
        start <= v@.len(),
    ensures
        start <= r <= v@.len(),
        r - start == line_length(v@.skip(start as int)),
        r < v@.len() ==> v@[r as int] == '\n',
{
    let mut i: usize = start;
    while i < v.len() && v[i] != '\n'
        invariant
            start <= i <= v@.len(),
            forall|j: int| start <= j < i ==> v@[j] != '\n',
        decreases v@.len() - i,
    {
        i += 1;
    }
    proof {
        let rest = v@.skip(start as int);
        assert forall|j: int| 0 <= j < i - start implies rest[j] != '\n' by {
            assert(rest[j] == v@[start + j]);
        }
        lemma_line_length(rest, i - start);
    }
    i
}

/// The lines of a text.
pub fn lines(s: &str) -> (r: Vec<String>)
    ensures
        texts(r@) == lines_of(s@),
{
    let v = chars_of(s);
    let mut out: Vec<String> = Vec::new();
    let mut i: usize = 0;
    assert(v@.skip(0) =~= s@);
    assert(texts(out@) + lines_of(v@.skip(0)) =~= lines_of(s@));
    while i < v.len()
        invariant
            v@ == s@,
            i <= v@.len(),
            texts(out@) + lines_of(v@.skip(i as int)) == lines_of(s@),
        decreases v@.len() - i,
    {
        let ghost rest = v@.skip(i as int);
        let ghost before = texts(out@);
        let e = end_of_line(&v, i);
        if e == v.len() {
            let line = string_of(&v, i, e);
            assert(line@ =~= rest);
            out.push(line);
            assert(texts(out@) =~= before.push(rest));
            assert(before + seq![rest] =~= before.push(rest));
            assert(v@.skip(e as int) =~= Seq::<char>::empty());
            assert(texts(out@) + Seq::<Seq<char>>::empty() =~= texts(out@));
            i = e;
        } else {
            let ghost n = line_length(rest);
            let stop: usize = if e > i && v[e - 1] == '\r' {
                e - 1
            } else {
                e
            };
            let line = string_of(&v, i, stop);
            assert(line@ =~= without_return(rest.take(n as int)));
            out.push(line);
            assert(rest.skip(n as int + 1) =~= v@.skip(e + 1));
            assert(texts(out@) =~= before.push(line@));
            assert(before + (seq![line@] + lines_of(v@.skip(e + 1))) =~= before.push(line@)
                + lines_of(v@.skip(e + 1)));
            i = e + 1;
        }
    }
    assert(v@.skip(i as int) =~= Seq::<char>::empty());
    assert(texts(out@) + Seq::<Seq<char>>::empty() =~= texts(out@));
    out
}

// ─── Numbers ───────────────────────────────────────────────────────────

/// The character of a decimal digit.
pub open spec fn digit(d: int) -> char {
    (48 + d) as char
}

/// A number in decimal notation.
pub open spec fn decimal(n: nat) -> Seq<char>
    decreases n,
{
    if n < 10 {
        seq![digit(n as int)]
    } else {
        decimal(n / 10).push(digit(n as int % 10))
    }
}

/// Writes a number in decimal notation.
pub fn decimal_of(n: u64) -> (r: String)
    ensures
        r@ == decimal(n as nat),
    decreases n,
{
    if n < 10 {
        let mut out = String::new();
        out.push((48u8 + n as u8) as char);
        assert(out@ =~= seq![digit(n as int)]);
        out
    } else {
        let mut out = decimal_of(n / 10);
        out.push((48u8 + (n % 10) as u8) as char);
        out
    }
}

/// A number in decimal notation, with a minus sign before a negative one.
pub open spec fn signed_decimal(n: int) -> Seq<char> {
    if n < 0 {
        seq!['-'] + decimal((-n) as nat)
    } else {
        decimal(n as nat)
    }
}

pub fn signed_decimal_of(n: i32) -> (r: String)
    ensures
        r@ == signed_decimal(n as int),
{
    if n < 0 {
        let mut out = String::new();
        out.push('-');
        let magnitude: i64 = 0 - (n as i64);
        out.append(decimal_of(magnitude as u64).as_str());
        assert(out@ =~= signed_decimal(n as int));
        out
    } else {
        decimal_of(n as u64)
    }
}

/// The text as a quoted literal: what `Debug` of a string shows.
pub uninterp spec fn quoted(s: Seq<char>) -> Seq<char>;

/// `Debug` of `str`, which shows the text in double quotes with its special
/// characters escaped. Which characters are escaped is not said here.
#[verifier::external_body]
pub(crate) fn quote(s: &str) -> (r: String)
    ensures
        r@ == quoted(s@),
{
    format!("{:?}", s)
}

/// Whether every character is an ASCII decimal digit.
pub open spec fn all_digits(s: Seq<char>) -> bool {
    forall|i: int| 0 <= i < s.len() ==> '0' <= #[trigger] s[i] <= '9'
}

/// The number that a sequence of decimal digits denotes.
pub open spec fn digits_value(s: Seq<char>) -> nat
    decreases s.len(),
{
    if s.len() == 0 {
        0
    } else {
        digits_value(s.drop_last()) * 10 + (s.last() as u32 - 48) as nat
    }
}

/// The characters after one leading sign.
pub open spec fn without_sign(s: Seq<char>) -> Seq<char> {
    if s.len() > 0 && (s[0] == '+' || s[0] == '-') {
        s.skip(1)
    } else {
        s
    }
}

/// The number that a text denotes: an optional sign, then decimal digits.
pub open spec fn signed_value(s: Seq<char>) -> int {
    if s.len() > 0 && s[0] == '-' {
        -(digits_value(without_sign(s)) as int)
    } else {
        digits_value(without_sign(s)) as int
    }
}

/// Whether a text denotes a number between `lo` and `hi`.
pub open spec fn denotes_within(s: Seq<char>, lo: int, hi: int) -> bool {
    &&& without_sign(s).len() > 0
    &&& all_digits(without_sign(s))
    &&& lo <= signed_value(s) <= hi
}

/// The value of a longer run of digits is no smaller.
proof fn lemma_digits_value_grows(s: Seq<char>, k: int)
    requires
        0 <= k <= s.len(),
        all_digits(s),
    ensures
        digits_value(s.take(k)) <= digits_value(s),
    decreases s.len(),
{
    if k < s.len() {
        assert(s.drop_last().take(k) =~= s.take(k));
        assert forall|i: int| 0 <= i < s.drop_last().len() implies '0'
            <= #[trigger] s.drop_last()[i] <= '9' by {
            assert(s.drop_last()[i] == s[i]);
        }
        lemma_digits_value_grows(s.drop_last(), k);
        assert('0' <= s[s.len() - 1] <= '9');
    } else {
        assert(s.take(k) =~= s);
    }
}

/// Parses a decimal number with an optional sign. `None` unless the text
/// denotes a number of 32 bits.
pub fn parse_i32(s: &str) -> (r: Option<i32>)
    ensures
        r is Some <==> denotes_within(s@, i32::MIN as int, i32::MAX as int),
        r matches Some(n) ==> n == signed_value(s@),
{
    let v = chars_of(s);
    let negative = v.len() > 0 && v[0] == '-';
    let start: usize = if v.len() > 0 && (v[0] == '+' || v[0] == '-') {
        1
    } else {
        0
    };
    let ghost digits = without_sign(s@);
    assert(v@.skip(start as int) =~= digits);
    if start == v.len() {
        return None;
    }
    let mut total: i64 = 0;
    let mut i: usize = start;
    assert(digits.take(0) =~= Seq::<char>::empty());
    while i < v.len()
        invariant
            start <= i <= v@.len(),
            v@.skip(start as int) == digits,
            digits == without_sign(s@),
            negative == (s@.len() > 0 && s@[0] == '-'),
            0 <= total <= 2147483648,
            total == digits_value(digits.take(i - start)),
            all_digits(digits.take(i - start)),
        decreases v@.len() - i,
    {
        let c: char = v[i];
        assert(digits[i - start] == c);
        if c < '0' || c > '9' {
            return None;
        }
        let ghost next = digits.take(i - start + 1);
        assert(next.drop_last() =~= digits.take(i - start));
        assert(next.last() == c);
        let d: i64 = (c as u32 - 48) as i64;
        total = total * 10 + d;
        assert forall|j: int| 0 <= j < next.len() implies '0' <= #[trigger] next[j] <= '9' by {
            if j < i - start {
                assert(next[j] == digits.take(i - start)[j]);
            }
        }
        if total > 2147483648 {
            proof {
                if all_digits(digits) {
                    lemma_digits_value_grows(digits, i - start + 1);
                }
            }
            return None;
        }
        i += 1;
    }
    assert(digits.take(i - start) =~= digits);
    if negative {
        Some((0 - total) as i32)
    } else if total <= 2147483647 {
        Some(total as i32)
    } else {
        None
    }
}

/// Parses a decimal number with an optional plus sign. `None` unless the text
/// denotes a number of 64 bits.
pub fn parse_u64(s: &str) -> (r: Option<u64>)
    ensures
        ({
            let digits = if s@.len() > 0 && s@[0] == '+' {
                s@.skip(1)
            } else {
                s@
            };
            &&& r is Some <==> digits.len() > 0 && all_digits(digits) && digits_value(digits)
                <= u64::MAX
            &&& r matches Some(n) ==> n == digits_value(digits)
        }),
{
    let v = chars_of(s);
    let start: usize = if v.len() > 0 && v[0] == '+' {
        1
    } else {
        0
    };
    let ghost digits = if s@.len() > 0 && s@[0] == '+' {
        s@.skip(1)
    } else {
        s@
    };
    assert(v@.skip(start as int) =~= digits);
    if start == v.len() {
        return None;
    }
    let mut total: u64 = 0;
    let mut i: usize = start;
    assert(digits.take(0) =~= Seq::<char>::empty());
    while i < v.len()
        invariant
            start <= i <= v@.len(),
            v@.skip(start as int) == digits,
            total == digits_value(digits.take(i - start)),
            all_digits(digits.take(i - start)),
            digits == (if s@.len() > 0 && s@[0] == '+' {
                s@.skip(1)
            } else {
                s@
            }),
        decreases v@.len() - i,
    {
        let c: char = v[i];
        assert(digits[i - start] == c);
        if c < '0' || c > '9' {
            return None;
        }
        let ghost next = digits.take(i - start + 1);
        assert(next.drop_last() =~= digits.take(i - start));
        assert(next.last() == c);
        assert forall|j: int| 0 <= j < next.len() implies '0' <= #[trigger] next[j] <= '9' by {
            if j < i - start {
                assert(next[j] == digits.take(i - start)[j]);
            }
        }
        let d: u64 = (c as u32 - 48) as u64;
        let wider: u128 = total as u128 * 10 + d as u128;
        assert(wider == digits_value(next));
        if wider > u64::MAX as u128 {
            proof {
                if all_digits(digits) {
                    lemma_digits_value_grows(digits, i - start + 1);
                }
            }
            return None;
        }
        total = wider as u64;
        i += 1;
    }
    assert(digits.take(i - start) =~= digits);
    Some(total)
}

// ─── Laws ──────────────────────────────────────────────────────────────

/// Trimming takes all the whitespace off both ends and nothing else: the text
/// that is left neither starts nor ends in whitespace, and what was taken off is
/// whitespace. Returns where the text starts and where it ends.
pub proof fn law_trimming_takes_the_whitespace_off(s: Seq<char>) -> (r: (int, int))
    ensures
        0 <= r.0 <= r.1 <= s.len(),
        trimmed(s) == s.subrange(r.0, r.1),
        forall|i: int| 0 <= i < s.len() && !(r.0 <= i < r.1) ==> whitespace(#[trigger] s[i]),
        r.0 < r.1 ==> !whitespace(s[r.0]) && !whitespace(s[r.1 - 1]),
{
    let from = lemma_text_starts(s);
    let rest = s.skip(from);
    let to = lemma_text_ends(rest);
    assert(trimmed(s) =~= s.subrange(from, from + to));
    assert forall|i: int| 0 <= i < s.len() && !(from <= i < from + to) implies whitespace(
        #[trigger] s[i],
    ) by {
        if i >= from {
            assert(rest[i - from] == s[i]);
        }
    }
    if to > 0 {
        assert(rest[0] == s[from]);
        assert(rest[to - 1] == s[from + to - 1]);
    }
    (from, from + to)
}

proof fn lemma_text_starts(s: Seq<char>) -> (n: int)
    ensures
        0 <= n <= s.len(),
        trimmed_start(s) == s.skip(n),
        forall|i: int| 0 <= i < n ==> whitespace(#[trigger] s[i]),
        n < s.len() ==> !whitespace(s[n]),
    decreases s.len(),
{
    if s.len() > 0 && whitespace(s.first()) {
        let rest = s.drop_first();
        let n = lemma_text_starts(rest);
        assert(rest.skip(n) =~= s.skip(n + 1));
        assert forall|i: int| 0 <= i < n + 1 implies whitespace(#[trigger] s[i]) by {
            if i > 0 {
                assert(rest[i - 1] == s[i]);
            }
        }
        n + 1
    } else {
        assert(s.skip(0) =~= s);
        0
    }
}

proof fn lemma_text_ends(s: Seq<char>) -> (n: int)
    ensures
        0 <= n <= s.len(),
        trimmed_end(s) == s.take(n),
        forall|i: int| n <= i < s.len() ==> whitespace(#[trigger] s[i]),
        n > 0 ==> !whitespace(s[n - 1]),
    decreases s.len(),
{
    if s.len() > 0 && whitespace(s.last()) {
        let rest = s.drop_last();
        let n = lemma_text_ends(rest);
        assert(rest.take(n) =~= s.take(n));
        assert forall|i: int| n <= i < s.len() implies whitespace(#[trigger] s[i]) by {
            if i < rest.len() {
                assert(rest[i] == s[i]);
            }
        }
        if n > 0 {
            assert(rest[n - 1] == s[n - 1]);
        }
        n
    } else {
        assert(s.take(s.len() as int) =~= s);
        s.len() as int
    }
}

/// The whitespace characters are the controls from the tab to the carriage
/// return, the spaces of every width, and the separators of lines and
/// paragraphs.
pub proof fn law_whitespace(c: char)
    ensures
        whitespace(c) <==> seq![
            '\u{9}',
            '\u{a}',
            '\u{b}',
            '\u{c}',
            '\u{d}',
            '\u{20}',
            '\u{85}',
            '\u{a0}',
            '\u{1680}',
            '\u{2000}',
            '\u{2001}',
            '\u{2002}',
            '\u{2003}',
            '\u{2004}',
            '\u{2005}',
            '\u{2006}',
            '\u{2007}',
            '\u{2008}',
            '\u{2009}',
            '\u{200a}',
            '\u{2028}',
            '\u{2029}',
            '\u{202f}',
            '\u{205f}',
            '\u{3000}',
        ].contains(c),
{
    let all = seq![
        '\u{9}',
        '\u{a}',
        '\u{b}',
        '\u{c}',
        '\u{d}',
        '\u{20}',
        '\u{85}',
        '\u{a0}',
        '\u{1680}',
        '\u{2000}',
        '\u{2001}',
        '\u{2002}',
        '\u{2003}',
        '\u{2004}',
        '\u{2005}',
        '\u{2006}',
        '\u{2007}',
        '\u{2008}',
        '\u{2009}',
        '\u{200a}',
        '\u{2028}',
        '\u{2029}',
        '\u{202f}',
        '\u{205f}',
        '\u{3000}',
    ];
    let n = c as u32;
    if whitespace(c) {
        let k: int = if n <= 0x0D {
            n - 9
        } else if n == 0x20 {
            5
        } else if n == 0x85 {
            6
        } else if n == 0xA0 {
            7
        } else if n == 0x1680 {
            8
        } else if n <= 0x200A {
            9 + n - 0x2000
        } else if n == 0x2028 {
            20
        } else if n == 0x2029 {
            21
        } else if n == 0x202F {
            22
        } else if n == 0x205F {
            23
        } else {
            24
        };
        assert(all[k] as u32 == n);
        assert(all[k] == c);
    } else if all.contains(c) {
        let k = choose|k: int| 0 <= k < all.len() && all[k] == c;
        assert(all[k] == c);
    }
}

/// What is taken off the end of a text is all the copies of one character that
/// stand there. Returns how many they are.
pub proof fn law_trailing_characters_come_off(s: Seq<char>, c: char) -> (n: nat)
    ensures
        s == without_trailing(s, c) + Seq::new(n, |i: int| c),
        without_trailing(s, c).len() > 0 ==> without_trailing(s, c).last() != c,
    decreases s.len(),
{
    if s.len() > 0 && s.last() == c {
        let n = law_trailing_characters_come_off(s.drop_last(), c);
        let copies = Seq::new(n, |i: int| c);
        assert(s =~= s.drop_last().push(c));
        assert(copies.push(c) =~= Seq::new(n + 1, |i: int| c));
        assert((without_trailing(s, c) + copies).push(c) =~= without_trailing(s, c) + copies.push(
            c,
        ));
        n + 1
    } else {
        assert(s =~= s + Seq::new(0, |i: int| c));
        0
    }
}

/// Two texts are the same but for the case of ASCII letters exactly if they are
/// as long as each other, and at each place the same character stands, or the
/// same letter in both cases.
pub proof fn law_case_is_all_that_differs(a: Seq<char>, b: Seq<char>)
    ensures
        same_but_case(a, b) <==> a.len() == b.len() && forall|i: int|
            0 <= i < a.len() ==> {
                let x = (#[trigger] a[i]) as u32;
                let y = b[i] as u32;
                ||| x == y
                ||| 'A' as u32 <= x <= 'Z' as u32 && y == x + 32
                ||| 'A' as u32 <= y <= 'Z' as u32 && x == y + 32
            },
{
    let la = a.map_values(|c: char| ascii_lower(c));
    let lb = b.map_values(|c: char| ascii_lower(c));
    if same_but_case(a, b) {
        assert(la.len() == lb.len());
        assert forall|i: int| 0 <= i < a.len() implies {
            let x = (#[trigger] a[i]) as u32;
            let y = b[i] as u32;
            ||| x == y
            ||| 'A' as u32 <= x <= 'Z' as u32 && y == x + 32
            ||| 'A' as u32 <= y <= 'Z' as u32 && x == y + 32
        } by {
            assert(la[i] == lb[i]);
        }
    } else if a.len() == b.len() {
        let i = choose|i: int| 0 <= i < a.len() && la[i] != lb[i];
        assert(exists|i: int| 0 <= i < a.len() && la[i] != lb[i]) by {
            assert(!(la =~= lb));
        }
        assert(la[i] == ascii_lower(a[i]) && lb[i] == ascii_lower(b[i]));
        assert(a[i] as u32 != b[i] as u32);
    }
}

/// The first occurrence is replaced, what stands before it stays, and what
/// stands behind it is replaced likewise.
pub proof fn law_each_occurrence_is_replaced(
    s: Seq<char>,
    from: Seq<char>,
    to: Seq<char>,
    i: int,
)
    requires
        from.len() > 0,
        occurs_at(s, from, i),
        forall|j: int| 0 <= j < i ==> !occurs_at(s, from, j),
    ensures
        replaced(s, from, to) == s.take(i) + to + replaced(s.skip(i + from.len()), from, to),
    decreases s.len(),
{
    if i == 0 {
        assert(s.subrange(0, from.len() as int) =~= s.take(from.len() as int));
        assert(s.take(0) + to =~= to);
    } else {
        let rest = s.drop_first();
        if has_prefix(s, from) {
            assert(s.subrange(0, from.len() as int) =~= s.take(from.len() as int));
            assert(occurs_at(s, from, 0));
        }
        assert(rest.subrange(i - 1, i - 1 + from.len()) =~= s.subrange(i, i + from.len()));
        assert forall|j: int| 0 <= j < i - 1 implies !occurs_at(rest, from, j) by {
            if occurs_at(rest, from, j) {
                assert(rest.subrange(j, j + from.len()) =~= s.subrange(j + 1, j + 1 + from.len()));
                assert(occurs_at(s, from, j + 1));
            }
        }
        law_each_occurrence_is_replaced(rest, from, to, i - 1);
        assert(rest.skip(i - 1 + from.len()) =~= s.skip(i + from.len()));
        assert(seq![s.first()] + rest.take(i - 1) =~= s.take(i));
        let tail = replaced(s.skip(i + from.len()), from, to);
        assert(seq![s.first()] + (rest.take(i - 1) + to + tail) =~= s.take(i) + to + tail);
    }
}

/// Joining keeps all parts, in order, with the separator between each two and
/// nowhere else.
pub proof fn law_joining_keeps_all_parts(
    a: Seq<Seq<char>>,
    b: Seq<Seq<char>>,
    part: Seq<char>,
    sep: Seq<char>,
)
    ensures
        joined(seq![], sep) == Seq::<char>::empty(),
        joined(seq![part], sep) == part,
        a.len() > 0 && b.len() > 0 ==> joined(a + b, sep) == joined(a, sep) + sep + joined(b, sep),
    decreases b.len(),
{
    if a.len() > 0 && b.len() > 0 {
        assert((a + b).drop_last() =~= a + b.drop_last());
        if b.len() == 1 {
            assert(a + b.drop_last() =~= a);
        } else {
            law_joining_keeps_all_parts(a, b.drop_last(), part, sep);
            assert(joined(a + b, sep) =~= joined(a, sep) + sep + joined(b, sep));
        }
    }
}

/// Strings keep their order and their characters.
pub proof fn law_texts_are_in_order(v: Seq<String>)
    ensures
        texts(v).len() == v.len(),
        forall|i: int| 0 <= i < v.len() ==> #[trigger] texts(v)[i] == v[i]@,
{
}

/// A text of lines has those lines: a line that a line feed ends comes first,
/// without its ending, and the lines of what follows come behind it. A last line
/// need not end.
pub proof fn law_lines(line: Seq<char>, rest: Seq<char>)
    requires
        !line.contains('\n'),
    ensures
        lines_of(seq![]) == Seq::<Seq<char>>::empty(),
        line.len() > 0 ==> lines_of(line) == seq![line],
        lines_of(line + seq!['\n'] + rest) == seq![
            if line.len() > 0 && line[line.len() - 1] == '\r' {
                line.take(line.len() - 1)
            } else {
                line
            },
        ] + lines_of(rest),
{
    assert forall|i: int| 0 <= i < line.len() implies line[i] != '\n' by {
        assert(line.contains(line[i]));
    }
    lemma_line_length(line, line.len() as int);
    let all = line + seq!['\n'] + rest;
    assert forall|i: int| 0 <= i < line.len() implies all[i] != '\n' by {
        assert(all[i] == line[i]);
    }
    assert(all[line.len() as int] == '\n');
    lemma_line_length(all, line.len() as int);
    assert(all.take(line.len() as int) =~= line);
    assert(all.skip(line.len() as int + 1) =~= rest);
}

/// The value of a run of digits: each digit counts ten times what the one behind
/// it counts.
pub proof fn law_digits_are_decimal(s: Seq<char>, c: char)
    requires
        '0' <= c <= '9',
    ensures
        digits_value(seq![]) == 0,
        digits_value(s.push(c)) == 10 * digits_value(s) + (c as u32 - '0' as u32),
{
    assert(s.push(c).drop_last() =~= s);
}

/// A number in decimal notation reads back as the number. It is written in
/// digits, without needless zeros.
pub proof fn law_numbers_read_back(n: nat)
    ensures
        digits_value(decimal(n)) == n,
        decimal(n).len() > 0,
        forall|i: int| 0 <= i < decimal(n).len() ==> '0' <= #[trigger] decimal(n)[i] <= '9',
        decimal(n)[0] == '0' ==> n == 0 && decimal(n).len() == 1,
    decreases n,
{
    if n >= 10 {
        law_numbers_read_back(n / 10);
        assert(decimal(n).drop_last() =~= decimal(n / 10));
    } else {
        let d = seq![digit(n as int)];
        assert(d.drop_last() =~= Seq::<char>::empty());
        assert(digits_value(Seq::<char>::empty()) == 0);
    }
}

/// A number with a sign reads back as the number, and a plus sign changes
/// nothing.
pub proof fn law_signed_numbers_read_back(n: int)
    ensures
        signed_value(signed_decimal(n)) == n,
        denotes_within(signed_decimal(n), n, n),
        n >= 0 ==> signed_value(seq!['+'] + signed_decimal(n)) == n,
        n >= 0 ==> denotes_within(seq!['+'] + signed_decimal(n), n, n),
{
    let magnitude = if n < 0 {
        (-n) as nat
    } else {
        n as nat
    };
    law_numbers_read_back(magnitude);
    let d = decimal(magnitude);
    assert(d[0] != '-' && d[0] != '+');
    assert((seq!['-'] + d).skip(1) =~= d);
    assert((seq!['+'] + d).skip(1) =~= d);
}

/// Only digits behind at most one sign denote a number.
pub proof fn law_only_digits_denote_numbers(s: Seq<char>, lo: int, hi: int)
    requires
        denotes_within(s, lo, hi),
    ensures
        lo <= signed_value(s) <= hi,
        s.len() > 0,
        s[0] == '+' || s[0] == '-' || '0' <= s[0] <= '9',
        s.len() == 1 ==> '0' <= s[0] <= '9',
        forall|i: int| 1 <= i < s.len() ==> '0' <= #[trigger] s[i] <= '9',
{
    let d = without_sign(s);
    if s[0] == '+' || s[0] == '-' {
        assert forall|i: int| 1 <= i < s.len() implies '0' <= #[trigger] s[i] <= '9' by {
            assert(d[i - 1] == s[i]);
        }
    }
}

/// Trimming one end takes the whitespace off that end alone, and all of it.
/// Returns where the text starts without its leading whitespace, and where it ends
/// without its trailing whitespace.
pub proof fn law_one_end_is_trimmed_alone(s: Seq<char>) -> (r: (int, int))
    ensures
        0 <= r.0 <= s.len(),
        trimmed_start(s) == s.skip(r.0),
        forall|i: int| 0 <= i < r.0 ==> whitespace(#[trigger] s[i]),
        r.0 < s.len() ==> !whitespace(s[r.0]),
        0 <= r.1 <= s.len(),
        trimmed_end(s) == s.take(r.1),
        forall|i: int| r.1 <= i < s.len() ==> whitespace(#[trigger] s[i]),
        r.1 > 0 ==> !whitespace(s[r.1 - 1]),
{
    (lemma_text_starts(s), lemma_text_ends(s))
}

/// Digits are the ten ASCII digits.
pub proof fn law_digits(s: Seq<char>, c: char)
    ensures
        all_digits(seq![]),
        all_digits(s.push(c)) <==> all_digits(s) && '0' as u32 <= c as u32 <= '9' as u32,
{
    let longer = s.push(c);
    if all_digits(longer) {
        assert('0' <= longer[s.len() as int] <= '9');
        assert forall|i: int| 0 <= i < s.len() implies '0' <= #[trigger] s[i] <= '9' by {
            assert(longer[i] == s[i]);
        }
    }
}

} // verus!

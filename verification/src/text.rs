//! Text as a sequence of characters: searching, splitting, joining and lines.
//!
//! The specification functions speak of `Seq<char>`, the view of `str` and `String`.

use vstd::prelude::*;

verus! {

/// `String::push` appends one character.
pub assume_specification[ String::push ](s: &mut String, c: char)
    ensures
        final(s)@ == old(s)@.push(c),
;

/// The texts of a list of strings.
pub open spec fn texts(v: Seq<String>) -> Seq<Seq<char>> {
    v.map_values(|s: String| s@)
}

/// The texts of a list of string slices.
pub open spec fn str_texts(v: Seq<&str>) -> Seq<Seq<char>> {
    v.map_values(|s: &str| s@)
}

/// The text of an optional string slice.
pub open spec fn opt_text(s: Option<&str>) -> Option<Seq<char>> {
    match s {
        Some(t) => Some(t@),
        None => None,
    }
}

/// The text of an optional string.
pub open spec fn opt_string(s: Option<String>) -> Option<Seq<char>> {
    match s {
        Some(t) => Some(t@),
        None => None,
    }
}

/// `p` stands in `s` at position `i`.
pub open spec fn occurs_at(s: Seq<char>, p: Seq<char>, i: int) -> bool {
    0 <= i <= s.len() - p.len() && s.subrange(i, i + p.len()) == p
}

/// `p` stands somewhere in `s`.
pub open spec fn contains_text(s: Seq<char>, p: Seq<char>) -> bool {
    exists|i: int| occurs_at(s, p, i)
}

/// The first position at or after `from` at which `p` stands in `s`.
pub open spec fn first_from(s: Seq<char>, p: Seq<char>, from: int) -> Option<int>
    decreases s.len() - from + 1,
{
    if from < 0 || from > s.len() - p.len() {
        None
    } else if occurs_at(s, p, from) {
        Some(from)
    } else {
        first_from(s, p, from + 1)
    }
}

/// The number of disjoint occurrences of `p` in `s`, taken from the left, that
/// start at or after `from`. The empty text stands at every position.
pub open spec fn count_from(s: Seq<char>, p: Seq<char>, from: int) -> nat
    decreases s.len() - from + 1,
{
    if p.len() == 0 {
        if 0 <= from <= s.len() {
            (s.len() - from + 1) as nat
        } else {
            0
        }
    } else {
        match first_from(s, p, from) {
            Some(i) => if from <= i && i + p.len() <= s.len() {
                1 + count_from(s, p, i + p.len())
            } else {
                0
            },
            None => 0,
        }
    }
}

/// The parts of `s` from position `start` on, between the disjoint occurrences
/// of `p` taken from the left.
pub open spec fn split_from(s: Seq<char>, p: Seq<char>, start: int) -> Seq<Seq<char>>
    decreases s.len() - start,
{
    match first_from(s, p, start) {
        Some(i) => if 0 < p.len() && start <= i && i + p.len() <= s.len() {
            seq![s.subrange(start, i)] + split_from(s, p, i + p.len())
        } else {
            seq![s.subrange(start, s.len() as int)]
        },
        None => seq![s.subrange(start, s.len() as int)],
    }
}

/// The parts of `s` between the disjoint occurrences of `p` taken from the left.
pub open spec fn split(s: Seq<char>, p: Seq<char>) -> Seq<Seq<char>> {
    split_from(s, p, 0)
}

/// The parts put together with `sep` between neighbours.
pub open spec fn join(parts: Seq<Seq<char>>, sep: Seq<char>) -> Seq<char>
    decreases parts.len(),
{
    if parts.len() == 0 {
        Seq::empty()
    } else if parts.len() == 1 {
        parts[0]
    } else {
        join(parts.drop_last(), sep) + sep + parts.last()
    }
}

/// The position of the first line feed at or after `from`, or the length of `s`.
pub open spec fn line_end(s: Seq<char>, from: int) -> int
    decreases s.len() - from,
{
    if from >= s.len() {
        s.len() as int
    } else if s[from] == '\n' {
        from
    } else {
        line_end(s, from + 1)
    }
}

/// `line` without the carriage return that it ends with, if it does.
pub open spec fn without_cr(line: Seq<char>) -> Seq<char> {
    if line.len() > 0 && line.last() == '\r' {
        line.drop_last()
    } else {
        line
    }
}

/// The lines of `s` from position `from` on. A line ends at a line feed, with
/// the carriage return before it, or at the end of `s`; the last line feed
/// opens no further line.
pub open spec fn lines_from(s: Seq<char>, from: int) -> Seq<Seq<char>>
    decreases s.len() - from,
{
    if from < 0 || from >= s.len() {
        Seq::empty()
    } else {
        let e = line_end(s, from);
        if e < from || e >= s.len() {
            seq![s.subrange(from, s.len() as int)]
        } else {
            seq![without_cr(s.subrange(from, e))] + lines_from(s, e + 1)
        }
    }
}

/// The lines of `s`.
pub open spec fn lines(s: Seq<char>) -> Seq<Seq<char>> {
    lines_from(s, 0)
}

/// The number of line feeds in `s`.
pub open spec fn line_feeds(s: Seq<char>) -> nat
    decreases s.len(),
{
    if s.len() == 0 {
        0
    } else {
        line_feeds(s.drop_last()) + if s.last() == '\n' {
            1nat
        } else {
            0nat
        }
    }
}

/// The first position is one at which `p` stands, and it stands at none before; where
/// there is no first position, `p` stands nowhere from `from` on.
pub proof fn lemma_first_from(s: Seq<char>, p: Seq<char>, from: int)
    requires
        0 <= from,
    ensures
        match first_from(s, p, from) {
            Some(i) => from <= i && occurs_at(s, p, i) && forall|j: int|
                from <= j < i ==> !occurs_at(s, p, j),
            None => forall|j: int| from <= j ==> !occurs_at(s, p, j),
        },
    decreases s.len() - from + 1,
{
    if from <= s.len() - p.len() && !occurs_at(s, p, from) {
        lemma_first_from(s, p, from + 1);
    }
}

/// The characters of a text.
pub fn chars_of(s: &str) -> (v: Vec<char>)
    ensures
        v@ == s@,
{
    let mut v: Vec<char> = Vec::new();
    for c in it: s.chars()
        invariant
            v@ == it.seq().take(it.index()),
            it.seq() == s@,
    {
        v.push(c);
    }
    v
}

/// The text of the characters from `from` up to `to`.
pub fn text_of(chars: &[char], from: usize, to: usize) -> (s: String)
    requires
        from <= to <= chars@.len(),
    ensures
        s@ == chars@.subrange(from as int, to as int),
{
    let mut s = String::new();
    let mut i: usize = from;
    while i < to
        invariant
            from <= i <= to <= chars@.len(),
            s@ == chars@.subrange(from as int, i as int),
        decreases to - i,
    {
        s.push(chars[i]);
        i += 1;
    }
    s
}

/// Whether two texts are equal.
pub fn same_text(a: &str, b: &str) -> (r: bool)
    ensures
        r == (a@ == b@),
{
    a.to_owned() == b.to_owned()
}

/// Two texts put together.
pub fn appended(a: &str, b: &str) -> (s: String)
    ensures
        s@ == a@ + b@,
{
    let mut s = a.to_owned();
    s.append(b);
    s
}

/// Whether `p` stands in `s` at position `i`.
fn stands_at(s: &[char], p: &[char], i: usize) -> (r: bool)
    requires
        i <= s@.len() - p@.len(),
    ensures
        r == occurs_at(s@, p@, i as int),
{
    let n: usize = s.len();
    let mut k: usize = 0;
    while k < p.len()
        invariant
            n == s@.len(),
            i <= s@.len() - p@.len(),
            k <= p@.len(),
            forall|j: int| 0 <= j < k ==> s@[i + j] == p@[j],
        decreases p@.len() - k,
    {
        if s[i + k] != p[k] {
            proof {
                assert(s@.subrange(i as int, i + p@.len())[k as int] != p@[k as int]);
            }
            return false;
        }
        k += 1;
    }
    proof {
        assert(s@.subrange(i as int, i + p@.len()) =~= p@);
    }
    true
}

/// The first position at or after `from` at which `p` stands in `s`.
pub fn find_from(s: &[char], p: &[char], from: usize) -> (r: Option<usize>)
    requires
        from <= s@.len(),
    ensures
        match r {
            Some(i) => first_from(s@, p@, from as int) == Some(i as int) && from <= i && i
                + p@.len() <= s@.len(),
            None => first_from(s@, p@, from as int) is None,
        },
{
    if p.len() > s.len() {
        return None;
    }
    let last: usize = s.len() - p.len();
    let mut i: usize = from;
    while i <= last
        invariant
            from <= i <= s@.len(),
            p@.len() <= s@.len(),
            last == s@.len() - p@.len(),
            first_from(s@, p@, from as int) == first_from(s@, p@, i as int),
        decreases s@.len() - i + 1,
    {
        if stands_at(s, p, i) {
            return Some(i);
        }
        if i == s.len() {
            proof {
                assert(s@.subrange(i as int, i as int) =~= p@);
            }
            return None;
        }
        i += 1;
    }
    None
}

/// Whether `p` stands somewhere in `s`.
pub fn contains(s: &str, p: &str) -> (r: bool)
    ensures
        r == contains_text(s@, p@),
{
    let sc = chars_of(s);
    let pc = chars_of(p);
    let found = find_from(sc.as_slice(), pc.as_slice(), 0);
    proof {
        lemma_first_from(s@, p@, 0);
    }
    found.is_some()
}

/// The number of disjoint occurrences of `p` in `s`, saturating at `usize::MAX`.
pub fn count(s: &[char], p: &[char]) -> (n: usize)
    ensures
        n == if count_from(s@, p@, 0) <= usize::MAX {
            count_from(s@, p@, 0) as int
        } else {
            usize::MAX as int
        },
{
    if p.len() == 0 {
        return s.len().saturating_add(1);
    }
    let total: usize = s.len();
    let mut n: usize = 0;
    let mut from: usize = 0;
    loop
        invariant
            0 < p@.len(),
            from <= s@.len() == total,
            n <= from,
            count_from(s@, p@, 0) == n + count_from(s@, p@, from as int),
        decreases s@.len() - from,
    {
        match find_from(s, p, from) {
            Some(i) => {
                n += 1;
                from = i + p.len();
            },
            None => {
                return n;
            },
        }
    }
}

/// The parts of `s` between the disjoint occurrences of `sep` taken from the left.
pub fn split_on(s: &str, sep: &str) -> (parts: Vec<String>)
    requires
        0 < sep@.len(),
    ensures
        texts(parts@) == split(s@, sep@),
{
    let sc = chars_of(s);
    let pc = chars_of(sep);
    let total: usize = sc.len();
    let mut parts: Vec<String> = Vec::new();
    let mut start: usize = 0;
    loop
        invariant
            sc@ == s@,
            pc@ == sep@,
            0 < sep@.len(),
            start <= s@.len() == total,
            split(s@, sep@) == texts(parts@) + split_from(s@, sep@, start as int),
        decreases s@.len() - start,
    {
        let ghost before = parts@;
        match find_from(sc.as_slice(), pc.as_slice(), start) {
            Some(i) => {
                parts.push(text_of(sc.as_slice(), start, i));
                proof {
                    assert(texts(parts@) =~= texts(before).push(
                        s@.subrange(start as int, i as int),
                    ));
                    assert(texts(before) + split_from(s@, sep@, start as int) =~= texts(parts@)
                        + split_from(s@, sep@, i + sep@.len()));
                }
                start = i + pc.len();
            },
            None => {
                parts.push(text_of(sc.as_slice(), start, total));
                proof {
                    assert(texts(parts@) =~= texts(before) + seq![s@.subrange(
                        start as int,
                        s@.len() as int,
                    )]);
                }
                return parts;
            },
        }
    }
}

/// The strings put together with `sep` between neighbours.
pub fn join_strings(parts: &[String], sep: &str) -> (s: String)
    ensures
        s@ == join(texts(parts@), sep@),
{
    let mut s = String::new();
    let mut i: usize = 0;
    while i < parts.len()
        invariant
            i <= parts@.len(),
            s@ == join(texts(parts@.take(i as int)), sep@),
        decreases parts@.len() - i,
    {
        if i > 0 {
            s.append(sep);
        }
        s.append(parts[i].as_str());
        proof {
            let next = texts(parts@.take(i + 1));
            assert(next.drop_last() =~= texts(parts@.take(i as int)));
            assert(next.last() == parts@[i as int]@);
            assert(s@ =~= join(next, sep@));
        }
        i += 1;
    }
    proof {
        assert(parts@.take(i as int) =~= parts@);
    }
    s
}

/// The string slices put together with `sep` between neighbours.
pub fn join_strs(parts: &[&str], sep: &str) -> (s: String)
    ensures
        s@ == join(str_texts(parts@), sep@),
{
    let mut s = String::new();
    let mut i: usize = 0;
    while i < parts.len()
        invariant
            i <= parts@.len(),
            s@ == join(str_texts(parts@.take(i as int)), sep@),
        decreases parts@.len() - i,
    {
        if i > 0 {
            s.append(sep);
        }
        s.append(parts[i]);
        proof {
            let next = str_texts(parts@.take(i + 1));
            assert(next.drop_last() =~= str_texts(parts@.take(i as int)));
            assert(next.last() == parts@[i as int]@);
            assert(s@ =~= join(next, sep@));
        }
        i += 1;
    }
    proof {
        assert(parts@.take(i as int) =~= parts@);
    }
    s
}

/// The position of the first line feed at or after `from`, or the length of `s`.
fn end_of_line(s: &[char], from: usize) -> (e: usize)
    requires
        from <= s@.len(),
    ensures
        e == line_end(s@, from as int),
        from <= e <= s@.len(),
{
    let mut i: usize = from;
    while i < s.len() && s[i] != '\n'
        invariant
            from <= i <= s@.len(),
            line_end(s@, from as int) == line_end(s@, i as int),
        decreases s@.len() - i,
    {
        i += 1;
    }
    i
}

/// The lines of `s`.
pub fn lines_of(s: &str) -> (v: Vec<String>)
    ensures
        texts(v@) == lines(s@),
{
    let sc = chars_of(s);
    let mut v: Vec<String> = Vec::new();
    let mut from: usize = 0;
    while from < sc.len()
        invariant
            sc@ == s@,
            from <= s@.len(),
            lines(s@) == texts(v@) + lines_from(s@, from as int),
        decreases s@.len() - from,
    {
        let e = end_of_line(sc.as_slice(), from);
        let ghost before = v@;
        if e == sc.len() {
            v.push(text_of(sc.as_slice(), from, e));
            proof {
                assert(texts(v@) =~= texts(before) + seq![s@.subrange(from as int, e as int)]);
            }
            return v;
        }
        let stop: usize = if e > from && sc[e - 1] == '\r' {
            e - 1
        } else {
            e
        };
        v.push(text_of(sc.as_slice(), from, stop));
        proof {
            let line = s@.subrange(from as int, e as int);
            if e > from {
                assert(line.drop_last() =~= s@.subrange(from as int, e - 1));
            }
            assert(texts(v@) =~= texts(before).push(without_cr(line)));
            assert(texts(before) + lines_from(s@, from as int) =~= texts(v@) + lines_from(
                s@,
                e + 1,
            ));
        }
        from = e + 1;
    }
    proof {
        assert(lines_from(s@, from as int) =~= Seq::empty());
    }
    v
}

/// The number of line feeds among the characters up to `to`.
pub fn count_line_feeds(s: &[char], to: usize) -> (n: usize)
    requires
        to <= s@.len(),
    ensures
        n == line_feeds(s@.take(to as int)),
{
    let mut n: usize = 0;
    let mut i: usize = 0;
    while i < to
        invariant
            i <= to <= s@.len(),
            n <= i,
            n == line_feeds(s@.take(i as int)),
        decreases to - i,
    {
        proof {
            assert(s@.take(i + 1).drop_last() =~= s@.take(i as int));
        }
        if s[i] == '\n' {
            n += 1;
        }
        i += 1;
    }
    n
}

/// The characters with the Unicode property White_Space.
pub open spec fn white_space(c: char) -> bool {
    ||| '\u{9}' <= c <= '\u{d}'
    ||| c == '\u{20}'
    ||| c == '\u{85}'
    ||| c == '\u{a0}'
    ||| c == '\u{1680}'
    ||| '\u{2000}' <= c <= '\u{200a}'
    ||| c == '\u{2028}'
    ||| c == '\u{2029}'
    ||| c == '\u{202f}'
    ||| c == '\u{205f}'
    ||| c == '\u{3000}'
}

/// `char::is_whitespace` tells whether a character has the Unicode property
/// White_Space.
pub assume_specification[ char::is_whitespace ](c: char) -> (b: bool)
    ensures
        b == white_space(c),
;

/// The position of the first character at or after `from` that is white space
/// or not, as `white` says, or the length of `s`.
pub open spec fn next_white(s: Seq<char>, from: int, white: bool) -> int
    decreases s.len() - from,
{
    if from >= s.len() {
        s.len() as int
    } else if white_space(s[from]) == white {
        from
    } else {
        next_white(s, from + 1, white)
    }
}

/// The words of `s` from position `from` on: the longest runs without white space.
pub open spec fn words_from(s: Seq<char>, from: int) -> Seq<Seq<char>>
    decreases s.len() - from,
{
    let a = next_white(s, from, false);
    let e = next_white(s, a, true);
    if from < 0 || a < from || a >= s.len() || e <= a || e > s.len() {
        Seq::empty()
    } else {
        seq![s.subrange(a, e)] + words_from(s, e)
    }
}

/// The words of `s`: its longest runs without white space.
pub open spec fn words(s: Seq<char>) -> Seq<Seq<char>> {
    words_from(s, 0)
}

fn find_white(s: &[char], from: usize, white: bool) -> (i: usize)
    requires
        from <= s@.len(),
    ensures
        i == next_white(s@, from as int, white),
        from <= i <= s@.len(),
        i < s@.len() ==> white_space(s@[i as int]) == white,
{
    let mut i: usize = from;
    while i < s.len() && s[i].is_whitespace() != white
        invariant
            from <= i <= s@.len(),
            next_white(s@, from as int, white) == next_white(s@, i as int, white),
        decreases s@.len() - i,
    {
        i += 1;
    }
    i
}

/// The words among the characters from `start` on.
pub fn words_of(s: &[char], start: usize) -> (v: Vec<String>)
    requires
        start <= s@.len(),
    ensures
        texts(v@) == words_from(s@, start as int),
{
    let mut v: Vec<String> = Vec::new();
    let mut from: usize = start;
    loop
        invariant
            from <= s@.len(),
            words_from(s@, start as int) == texts(v@) + words_from(s@, from as int),
        decreases s@.len() - from,
    {
        let a = find_white(s, from, false);
        if a == s.len() {
            proof {
                assert(words_from(s@, from as int) =~= Seq::empty());
                assert(texts(v@) + Seq::empty() =~= texts(v@));
            }
            return v;
        }
        let e = find_white(s, a, true);
        let ghost before = v@;
        v.push(text_of(s, a, e));
        proof {
            assert(texts(v@) =~= texts(before).push(s@.subrange(a as int, e as int)));
            assert(texts(before) + words_from(s@, from as int) =~= texts(v@) + words_from(
                s@,
                e as int,
            ));
        }
        from = e;
    }
}

/// The lower-case form of a text, as the Unicode mappings give it.
pub uninterp spec fn lowercase(s: Seq<char>) -> Seq<char>;

/// The lower-case form of an ASCII character.
pub open spec fn ascii_lowercase(c: char) -> char {
    if 'A' <= c <= 'Z' {
        (c as int + 32) as char
    } else {
        c
    }
}

/// `str::to_lowercase` gives the lower-case form of a text. In an ASCII text it
/// changes the letters `A` to `Z` alone, each into the small letter.
pub assume_specification[ str::to_lowercase ](s: &str) -> (r: String)
    ensures
        r@ == lowercase(s@),
        vstd::utf8::is_ascii_chars(s@) ==> r@ == s@.map_values(|c: char| ascii_lowercase(c)),
;

/// The digit of a number below ten.
pub open spec fn digit(d: int) -> char {
    (48 + d) as char
}

/// A number in decimal, without leading zeros.
pub open spec fn decimal(n: int) -> Seq<char>
    decreases n,
{
    if n < 10 {
        seq![digit(n)]
    } else {
        decimal(n / 10).push(digit(n % 10))
    }
}

/// A number in decimal.
pub fn decimal_text(n: usize) -> (s: String)
    ensures
        s@ == decimal(n as int),
    decreases n,
{
    let mut s = if n < 10 {
        String::new()
    } else {
        decimal_text(n / 10)
    };
    let d: u8 = (n % 10) as u8;
    s.push((48 + d) as char);
    s
}

} // verus!

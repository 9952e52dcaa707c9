//! How splitting, joining and cutting into lines undo each other.

use vstd::prelude::*;

use crate::text::{
    contains_text, count_from, decimal, first_from, join, lemma_first_from, line_end, line_feeds,
    lines, lines_from, next_white, occurs_at, opt_string, opt_text, split, split_from, str_texts,
    texts, white_space, without_cr, words, words_from,
};

verus! {

/// `p` does not stand in `part`.
pub open spec fn free_of(part: Seq<char>, p: Seq<char>) -> bool {
    !contains_text(part, p)
}

/// Followed by the separator `p`, the part ends where `p` is first met.
pub open spec fn clean_before(part: Seq<char>, p: Seq<char>) -> bool {
    first_from(part + p, p, 0) == Some(part.len() as int)
}

/// Each part ends where the separator `p` is first met, and the last is free of it.
pub open spec fn separable(parts: Seq<Seq<char>>, p: Seq<char>) -> bool {
    &&& parts.len() > 0
    &&& forall|k: int| 0 <= k < parts.len() - 1 ==> #[trigger] clean_before(parts[k], p)
    &&& free_of(parts.last(), p)
}

proof fn lemma_first_is(s: Seq<char>, p: Seq<char>, from: int, i: int)
    requires
        0 <= from <= i,
        occurs_at(s, p, i),
        forall|j: int| from <= j < i ==> !occurs_at(s, p, j),
    ensures
        first_from(s, p, from) == Some(i),
{
    lemma_first_from(s, p, from);
}

proof fn lemma_occurs_shift(s: Seq<char>, p: Seq<char>, k: int, i: int)
    requires
        0 <= k <= s.len(),
        0 <= i,
    ensures
        occurs_at(s.skip(k), p, i) == occurs_at(s, p, k + i),
{
    if i <= s.len() - k - p.len() {
        assert(s.skip(k).subrange(i, i + p.len()) =~= s.subrange(k + i, k + i + p.len()));
    }
}

proof fn lemma_first_shift(s: Seq<char>, p: Seq<char>, k: int, from: int)
    requires
        0 <= k <= s.len(),
        0 <= from,
    ensures
        first_from(s.skip(k), p, from) == match first_from(s, p, k + from) {
            Some(i) => Some(i - k),
            None => None,
        },
    decreases s.len() - k - from + 1,
{
    lemma_occurs_shift(s, p, k, from);
    if from <= s.len() - k - p.len() {
        lemma_first_shift(s, p, k, from + 1);
    }
}

proof fn lemma_split_shift(s: Seq<char>, p: Seq<char>, k: int, start: int)
    requires
        0 < p.len(),
        0 <= k,
        0 <= start,
        k + start <= s.len(),
    ensures
        split_from(s.skip(k), p, start) == split_from(s, p, k + start),
    decreases s.len() - k - start,
{
    lemma_first_shift(s, p, k, start);
    lemma_first_from(s, p, k + start);
    match first_from(s, p, k + start) {
        Some(i) => {
            lemma_split_shift(s, p, k, i - k + p.len());
            assert(s.skip(k).subrange(start, i - k) =~= s.subrange(k + start, i));
        },
        None => {
            assert(s.skip(k).subrange(start, s.len() - k) =~= s.subrange(
                k + start,
                s.len() as int,
            ));
        },
    }
}

/// Joining peels off from the front as well as from the back.
pub proof fn lemma_join_front(parts: Seq<Seq<char>>, sep: Seq<char>)
    requires
        parts.len() >= 2,
    ensures
        join(parts, sep) == parts[0] + sep + join(parts.drop_first(), sep),
    decreases parts.len(),
{
    if parts.len() == 2 {
        assert(parts.drop_last().len() == 1);
        assert(join(parts.drop_last(), sep) == parts[0]);
        assert(join(parts.drop_first(), sep) == parts[1]);
    } else {
        lemma_join_front(parts.drop_last(), sep);
        assert(parts.drop_last().drop_first() =~= parts.drop_first().drop_last());
        assert(join(parts, sep) =~= parts[0] + sep + join(parts.drop_first(), sep));
    }
}

/// A text that is put together of separable parts is split into just those parts.
pub proof fn law_split_of_join(parts: Seq<Seq<char>>, p: Seq<char>)
    requires
        0 < p.len(),
        separable(parts, p),
    ensures
        split(join(parts, p), p) == parts,
    decreases parts.len(),
{
    let s = join(parts, p);
    lemma_first_from(s, p, 0);
    if parts.len() == 1 {
        assert(s == parts.last());
        assert(s.subrange(0, s.len() as int) =~= s);
        assert(split(s, p) =~= parts);
    } else {
        let head = parts[0];
        let rest = parts.drop_first();
        let k = head.len() + p.len();
        lemma_join_front(parts, p);
        assert(clean_before(parts[0], p));
        lemma_first_from(head + p, p, 0);
        assert forall|j: int| 0 <= j < head.len() implies !occurs_at(s, p, j) by {
            assert(!occurs_at(head + p, p, j));
            assert(s.subrange(j, j + p.len()) =~= (head + p).subrange(j, j + p.len()));
        }
        assert(s.subrange(head.len() as int, k as int) =~= p);
        lemma_first_is(s, p, 0, head.len() as int);
        assert(s.skip(k as int) =~= join(rest, p));
        lemma_split_shift(s, p, k as int, 0);
        assert(separable(rest, p)) by {
            assert forall|i: int| 0 <= i < rest.len() - 1 implies #[trigger] clean_before(
                rest[i],
                p,
            ) by {
                assert(clean_before(parts[i + 1], p));
            }
        }
        law_split_of_join(rest, p);
        assert(s.subrange(0, head.len() as int) =~= head);
        assert(seq![head] + rest =~= parts);
    }
}

proof fn lemma_split_parts(s: Seq<char>, p: Seq<char>, start: int)
    requires
        0 < p.len(),
        0 <= start <= s.len(),
    ensures
        separable(split_from(s, p, start), p),
        join(split_from(s, p, start), p) == s.skip(start),
    decreases s.len() - start,
{
    let parts = split_from(s, p, start);
    lemma_first_from(s, p, start);
    match first_from(s, p, start) {
        Some(i) => {
            let head = s.subrange(start, i);
            let rest = split_from(s, p, i + p.len());
            lemma_split_parts(s, p, i + p.len());
            assert(parts =~= seq![head] + rest);
            assert(parts.drop_first() =~= rest);
            lemma_join_front(parts, p);
            assert(head + p =~= s.subrange(start, i + p.len()));
            assert forall|j: int| 0 <= j < head.len() implies !occurs_at(head + p, p, j) by {
                assert(!occurs_at(s, p, start + j));
                assert((head + p).subrange(j, j + p.len()) =~= s.subrange(
                    start + j,
                    start + j + p.len(),
                ));
            }
            assert((head + p).subrange(head.len() as int, (head.len() + p.len()) as int) =~= p);
            lemma_first_is(head + p, p, 0, head.len() as int);
            assert forall|k: int| 0 <= k < parts.len() - 1 implies #[trigger] clean_before(
                parts[k],
                p,
            ) by {
                if k > 0 {
                    assert(parts[k] == rest[k - 1]);
                }
            }
            assert(head + p + s.skip(i + p.len()) =~= s.skip(start));
        },
        None => {
            let last = s.subrange(start, s.len() as int);
            assert forall|j: int| !occurs_at(last, p, j) by {
                if 0 <= j <= last.len() - p.len() {
                    assert(!occurs_at(s, p, start + j));
                    assert(last.subrange(j, j + p.len()) =~= s.subrange(
                        start + j,
                        start + j + p.len(),
                    ));
                }
            }
            assert(last =~= s.skip(start));
        },
    }
}

/// The parts of a text, put together again with the separator, are the text,
/// and they are separable.
pub proof fn law_join_of_split(s: Seq<char>, p: Seq<char>)
    requires
        0 < p.len(),
    ensures
        separable(split(s, p), p),
        join(split(s, p), p) == s,
{
    lemma_split_parts(s, p, 0);
    assert(s.skip(0) =~= s);
}

pub proof fn lemma_line_end(s: Seq<char>, from: int)
    requires
        0 <= from <= s.len(),
    ensures
        from <= line_end(s, from) <= s.len(),
        line_end(s, from) < s.len() ==> s[line_end(s, from)] == '\n',
        forall|j: int| from <= j < line_end(s, from) ==> s[j] != '\n',
    decreases s.len() - from,
{
    if from < s.len() && s[from] != '\n' {
        lemma_line_end(s, from + 1);
    }
}

proof fn lemma_line_end_is(s: Seq<char>, from: int, e: int)
    requires
        0 <= from <= e <= s.len(),
        forall|j: int| from <= j < e ==> s[j] != '\n',
        e < s.len() ==> s[e] == '\n',
    ensures
        line_end(s, from) == e,
{
    lemma_line_end(s, from);
}

proof fn lemma_lines_shift(s: Seq<char>, k: int, from: int)
    requires
        0 <= k,
        0 <= from,
        k + from <= s.len(),
    ensures
        lines_from(s.skip(k), from) == lines_from(s, k + from),
    decreases s.len() - k - from,
{
    lemma_line_end(s, k + from);
    let e = line_end(s, k + from);
    lemma_line_end_is(s.skip(k), from, e - k);
    if k + from < s.len() {
        assert(s.skip(k).subrange(from, e - k) =~= s.subrange(k + from, e));
        if e < s.len() {
            lemma_lines_shift(s, k, e + 1 - k);
        }
    }
}

/// A line that can stand on a line of its own: it holds no line feed and does
/// not end with a carriage return.
pub open spec fn is_line(line: Seq<char>) -> bool {
    &&& forall|i: int| 0 <= i < line.len() ==> line[i] != '\n'
    &&& line.len() > 0 ==> line.last() != '\r'
}

/// What stands before a line feed, but for a carriage return at its end, is the
/// first line, and the lines of what follows come behind it.
pub proof fn law_lines_front(line: Seq<char>, rest: Seq<char>)
    requires
        forall|i: int| 0 <= i < line.len() ==> line[i] != '\n',
    ensures
        lines(line + seq!['\n'] + rest) == seq![without_cr(line)] + lines(rest),
{
    let s = line + seq!['\n'] + rest;
    let e = line.len() as int;
    lemma_line_end_is(s, 0, e);
    assert(s.subrange(0, e) =~= line);
    lemma_lines_shift(s, e + 1, 0);
    assert(s.skip(e + 1) =~= rest);
}

proof fn lemma_next_white(s: Seq<char>, from: int, white: bool)
    requires
        0 <= from <= s.len(),
    ensures
        ({
            let i = next_white(s, from, white);
            &&& from <= i <= s.len()
            &&& i < s.len() ==> white_space(s[i]) == white
            &&& forall|j: int| from <= j < i ==> white_space(s[j]) != white
        }),
    decreases s.len() - from,
{
    if from < s.len() && white_space(s[from]) != white {
        lemma_next_white(s, from + 1, white);
    }
}

proof fn lemma_next_white_is(s: Seq<char>, from: int, white: bool, i: int)
    requires
        0 <= from <= i <= s.len(),
        i < s.len() ==> white_space(s[i]) == white,
        forall|j: int| from <= j < i ==> white_space(s[j]) != white,
    ensures
        next_white(s, from, white) == i,
{
    lemma_next_white(s, from, white);
}

pub proof fn lemma_words_shift(s: Seq<char>, k: int, from: int)
    requires
        0 <= k,
        0 <= from,
        k + from <= s.len(),
    ensures
        words_from(s.skip(k), from) == words_from(s, k + from),
    decreases s.len() - k - from,
{
    lemma_next_white(s, k + from, false);
    let a = next_white(s, k + from, false);
    lemma_next_white(s, a, true);
    let e = next_white(s, a, true);
    lemma_next_white_is(s.skip(k), from, false, a - k);
    lemma_next_white_is(s.skip(k), a - k, true, e - k);
    if a < s.len() {
        lemma_words_shift(s, k, e - k);
        assert(s.skip(k).subrange(a - k, e - k) =~= s.subrange(a, e));
    }
}

proof fn lemma_words_behind(s: Seq<char>, c: char, from: int)
    requires
        white_space(c),
        0 <= from <= s.len(),
    ensures
        words_from(s.push(c), from) == words_from(s, from),
    decreases s.len() - from,
{
    let t = s.push(c);
    lemma_next_white(s, from, false);
    let a = next_white(s, from, false);
    if a < s.len() {
        lemma_next_white_is(t, from, false, a);
        lemma_next_white(s, a, true);
        let e = next_white(s, a, true);
        lemma_next_white_is(t, a, true, e);
        assert(t.subrange(a, e) =~= s.subrange(a, e));
        lemma_words_behind(s, c, e);
    } else {
        lemma_next_white_is(t, from, false, t.len() as int);
        assert(words_from(t, from) =~= words_from(s, from));
    }
}

/// White space at the beginning or at the end of a text does not change its words.
pub proof fn law_words_within_white(s: Seq<char>, c: char)
    requires
        white_space(c),
    ensures
        words(seq![c] + s) == words(s),
        words(s.push(c)) == words(s),
{
    lemma_words_behind(s, c, 0);
    let t = seq![c] + s;
    assert(t.skip(1) =~= s);
    lemma_words_shift(t, 1, 0);
    assert(next_white(t, 0, false) == next_white(t, 1, false));
    lemma_next_white(t, 1, false);
    assert(words_from(t, 0) =~= words_from(t, 1));
}

/// A word: some characters, none of them white space.
pub open spec fn is_word(w: Seq<char>) -> bool {
    &&& w.len() > 0
    &&& forall|i: int| 0 <= i < w.len() ==> !white_space(w[i])
}

proof fn lemma_words_of_word(w: Seq<char>)
    requires
        is_word(w),
    ensures
        words(w) == seq![w],
{
    lemma_next_white_is(w, 0, false, 0);
    lemma_next_white_is(w, 0, true, w.len() as int);
    lemma_next_white_is(w, w.len() as int, false, w.len() as int);
    assert(w.subrange(0, w.len() as int) =~= w);
    assert(words_from(w, w.len() as int) =~= Seq::empty());
    assert(words(w) =~= seq![w]);
}

proof fn lemma_words_front(w: Seq<char>, rest: Seq<char>)
    requires
        is_word(w),
    ensures
        words(w + seq![' '] + rest) == seq![w] + words(rest),
{
    let s = w + seq![' '] + rest;
    let e = w.len() as int;
    lemma_next_white_is(s, 0, false, 0);
    lemma_next_white_is(s, 0, true, e);
    assert(s.subrange(0, e) =~= w);
    lemma_words_shift(s, e, 0);
    assert(s.skip(e) =~= seq![' '] + rest);
    law_words_within_white(rest, ' ');
}

/// Words put together with spaces are cut into just those words.
pub proof fn law_words_of_join(ws: Seq<Seq<char>>)
    requires
        forall|i: int| 0 <= i < ws.len() ==> #[trigger] is_word(ws[i]),
    ensures
        words(join(ws, seq![' '])) == ws,
    decreases ws.len(),
{
    let s = join(ws, seq![' ']);
    if ws.len() == 0 {
        assert(words(s) =~= ws);
    } else if ws.len() == 1 {
        assert(is_word(ws[0]));
        lemma_words_of_word(ws[0]);
        assert(seq![ws[0]] =~= ws);
    } else {
        let rest = ws.drop_first();
        assert forall|i: int| 0 <= i < rest.len() implies #[trigger] is_word(rest[i]) by {
            assert(is_word(ws[i + 1]));
        }
        assert(is_word(ws[0]));
        law_words_of_join(rest);
        lemma_join_front(ws, seq![' ']);
        lemma_words_front(ws[0], join(rest, seq![' ']));
        assert(seq![ws[0]] + rest =~= ws);
    }
}

/// The texts of strings are theirs, one by one, and that of an optional string is its
/// text, where there is one.
pub proof fn law_texts_are_those_of_the_strings(
    v: Seq<String>,
    w: Seq<&str>,
    s: String,
    t: &str,
)
    ensures
        texts(v).len() == v.len(),
        forall|i: int| 0 <= i < v.len() ==> #[trigger] texts(v)[i] == v[i]@,
        str_texts(w).len() == w.len(),
        forall|i: int| 0 <= i < w.len() ==> #[trigger] str_texts(w)[i] == w[i]@,
        opt_string(Some(s)) == Some(s@),
        opt_string(None) is None,
        opt_text(Some(t)) == Some(t@),
        opt_text(None) is None,
{
}

/// A text stands at a position where all of its characters stand from there on.
pub proof fn law_occurrences_agree_character_by_character(s: Seq<char>, p: Seq<char>, i: int)
    ensures
        occurs_at(s, p, i) <==> 0 <= i && i + p.len() <= s.len() && forall|k: int|
            0 <= k < p.len() ==> s[i + k] == #[trigger] p[k],
{
    if 0 <= i && i + p.len() <= s.len() {
        let part = s.subrange(i, i + p.len());
        if forall|k: int| 0 <= k < p.len() ==> s[i + k] == #[trigger] p[k] {
            assert(part =~= p);
        }
        if part == p {
            assert forall|k: int| 0 <= k < p.len() implies s[i + k] == #[trigger] p[k] by {
                assert(part[k] == p[k]);
            }
        }
    }
}

/// A text holds another exactly where it is something, the other, and something more.
pub proof fn law_contained_texts_can_be_cut_out(
    s: Seq<char>,
    before: Seq<char>,
    p: Seq<char>,
    behind: Seq<char>,
)
    ensures
        contains_text(before + p + behind, p),
        contains_text(s, p) ==> exists|a: Seq<char>, b: Seq<char>| s == #[trigger] (a + p + b),
{
    let all = before + p + behind;
    assert(all.subrange(before.len() as int, (before.len() + p.len()) as int) =~= p);
    assert(occurs_at(all, p, before.len() as int));
    if contains_text(s, p) {
        let i = choose|i: int| occurs_at(s, p, i);
        assert(s =~= s.take(i) + p + s.skip(i + p.len()));
    }
}

proof fn lemma_count_parts(s: Seq<char>, p: Seq<char>, start: int)
    requires
        p.len() > 0,
        0 <= start <= s.len(),
    ensures
        split_from(s, p, start).len() == count_from(s, p, start) + 1,
    decreases s.len() - start,
{
    lemma_first_from(s, p, start);
    if let Some(i) = first_from(s, p, start) {
        lemma_count_parts(s, p, i + p.len());
    }
}

/// A text stands in another one time less than there are parts between its
/// occurrences. The empty text stands before, between and behind all characters.
pub proof fn law_occurrences_are_counted(s: Seq<char>, p: Seq<char>)
    ensures
        p.len() > 0 ==> count_from(s, p, 0) + 1 == split(s, p).len(),
        p.len() == 0 ==> count_from(s, p, 0) == s.len() + 1,
{
    if p.len() > 0 {
        lemma_count_parts(s, p, 0);
    }
}

/// Nothing put together is nothing, and one part is itself. A further part comes
/// behind the others and the separator.
pub proof fn law_join_grows_part_by_part(
    parts: Seq<Seq<char>>,
    part: Seq<char>,
    sep: Seq<char>,
)
    ensures
        join(Seq::empty(), sep) == Seq::<char>::empty(),
        join(seq![part], sep) == part,
        parts.len() > 0 ==> join(parts.push(part), sep) == join(parts, sep) + sep + part,
{
    assert(parts.push(part).drop_last() =~= parts);
}

/// A text without line feeds is one line, unless it is empty: then it has none. A
/// line feed, alone or behind a carriage return, ends a line and belongs to none.
pub proof fn law_lines_end_at_line_feeds(line: Seq<char>, rest: Seq<char>)
    requires
        forall|i: int| 0 <= i < line.len() ==> line[i] != '\n',
    ensures
        lines(line) == if line.len() == 0 {
            Seq::empty()
        } else {
            seq![line]
        },
        line.len() == 0 || line.last() != '\r' ==> lines(line + seq!['\n'] + rest) == seq![line]
            + lines(rest),
        lines(line + seq!['\r', '\n'] + rest) == seq![line] + lines(rest),
{
    lemma_line_end_is(line, 0, line.len() as int);
    assert(line.subrange(0, line.len() as int) =~= line);
    law_lines_front(line, rest);
    let ended = line.push('\r');
    law_lines_front(ended, rest);
    assert(ended + seq!['\n'] + rest =~= line + seq!['\r', '\n'] + rest);
    assert(ended.drop_last() =~= line);
}

/// The line feeds of two texts, one behind the other, are those of both. One character
/// is one line feed or none.
pub proof fn law_line_feeds_add_up(a: Seq<char>, b: Seq<char>, c: char)
    ensures
        line_feeds(a + b) == line_feeds(a) + line_feeds(b),
        line_feeds(seq![c]) == if c == '\n' {
            1nat
        } else {
            0
        },
    decreases b.len(),
{
    assert(seq![c].drop_last() =~= Seq::<char>::empty());
    assert(line_feeds(Seq::empty()) == 0);
    if b.len() == 0 {
        assert(a + b =~= a);
    } else {
        assert((a + b).drop_last() =~= a + b.drop_last());
        law_line_feeds_add_up(a, b.drop_last(), c);
    }
}

proof fn lemma_words_apart(a: Seq<char>, c: char, b: Seq<char>, from: int)
    requires
        white_space(c),
        0 <= from <= a.len(),
    ensures
        words_from(a + seq![c] + b, from) == words_from(a, from) + words(b),
    decreases a.len() - from,
{
    let s = a + seq![c] + b;
    lemma_next_white(a, from, false);
    let i = next_white(a, from, false);
    if i < a.len() {
        lemma_next_white_is(s, from, false, i);
        lemma_next_white(a, i, true);
        let e = next_white(a, i, true);
        lemma_next_white_is(s, i, true, e);
        assert(s.subrange(i, e) =~= a.subrange(i, e));
        lemma_words_apart(a, c, b, e);
        assert(words_from(s, from) =~= words_from(a, from) + words(b));
    } else {
        let n = a.len() as int;
        lemma_next_white(s, n + 1, false);
        lemma_next_white_is(s, from, false, next_white(s, n + 1, false));
        assert(words_from(s, from) =~= words_from(s, n + 1));
        lemma_words_shift(s, n + 1, 0);
        assert(s.skip(n + 1) =~= b);
        assert(words_from(a, from) =~= Seq::empty());
        assert(words_from(s, from) =~= words_from(a, from) + words(b));
    }
}

/// White space parts the words of what stands before it from those of what stands
/// behind it. A text without white space is one word, unless it is empty.
pub proof fn law_white_space_parts_words(a: Seq<char>, c: char, b: Seq<char>, w: Seq<char>)
    requires
        white_space(c),
        forall|i: int| 0 <= i < w.len() ==> !white_space(#[trigger] w[i]),
    ensures
        words(a + seq![c] + b) == words(a) + words(b),
        words(w) == if w.len() == 0 {
            Seq::empty()
        } else {
            seq![w]
        },
{
    lemma_words_apart(a, c, b, 0);
    if w.len() > 0 {
        assert(is_word(w));
        lemma_words_of_word(w);
    }
}

/// The number that a row of decimal digits stands for.
pub open spec fn number_of(digits: Seq<char>) -> int
    decreases digits.len(),
{
    if digits.len() == 0 {
        0
    } else {
        10 * number_of(digits.drop_last()) + (digits.last() as int - '0' as int)
    }
}

/// A number in decimal is a row of digits that stands for the number, without a
/// leading zero unless it is zero.
pub proof fn law_decimal_stands_for_the_number(n: int)
    requires
        0 <= n,
    ensures
        number_of(decimal(n)) == n,
        forall|i: int| 0 <= i < decimal(n).len() ==> '0' <= #[trigger] decimal(n)[i] <= '9',
        decimal(n).len() > 0,
        n > 0 ==> decimal(n)[0] != '0',
        n == 0 ==> decimal(n) == seq!['0'],
    decreases n,
{
    let all = decimal(n);
    if n < 10 {
        assert(all.drop_last() =~= Seq::empty());
        assert(number_of(all.drop_last()) == 0);
    } else {
        law_decimal_stands_for_the_number(n / 10);
        assert(all.drop_last() =~= decimal(n / 10));
        assert forall|i: int| 0 <= i < all.len() implies '0' <= #[trigger] all[i] <= '9' by {
            if i < all.len() - 1 {
                assert(all[i] == decimal(n / 10)[i]);
            }
        }
    }
}

} // verus!

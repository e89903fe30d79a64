//! What trimming, lines, searching and replacing come to, said of the
//! characters themselves.

use vstd::prelude::*;
use crate::text::{
    ascii_lower, ascii_lowercase, contains, eq_ignore_ascii_case_spec, find_char, is_blank,
    is_first, is_last, is_white_space, join, lines, occurs_at, replace_char, starts_with, strip_cr,
    trim, trim_end, trim_start, unlines,
};
use crate::text_facts::{
    clean_ends, lemma_find_char, lemma_find_char_at, lemma_find_char_none, lemma_lines_front,
    lemma_lines_single, lemma_trim_clean, lemma_trim_result,
};

verus! {

/// Every character is white space.
pub open spec fn all_white(s: Seq<char>) -> bool {
    forall|i: int| 0 <= i < s.len() ==> is_white_space(#[trigger] s[i])
}

/// Blank, tab, line feed and carriage return are white space; no printable
/// ASCII character is. Beyond ASCII the spaces of Unicode are, up to the
/// ideographic one; the characters of no width are not.
pub proof fn law_white_space(c: char)
    ensures
        c == ' ' || c == '\t' || c == '\n' || c == '\r' ==> is_white_space(c),
        '!' <= c <= '~' ==> !is_white_space(c),
        is_white_space(c) && (c as u32) < 0x80 ==> c == ' ' || 0x09 <= c as u32 <= 0x0d,
        c == '\u{85}' || c == '\u{a0}' || c == '\u{1680}' || c == '\u{2028}' || c == '\u{2029}' || c
            == '\u{202f}' || c == '\u{205f}' || c == '\u{3000}' ==> is_white_space(c),
        '\u{2000}' <= c <= '\u{200a}' ==> is_white_space(c),
        c == '\u{180e}' || c == '\u{200b}' || c == '\u{2060}' || c == '\u{feff}' ==> !is_white_space(
            c,
        ),
        is_white_space(c) ==> (c as u32) <= 0x3000,
{
}

/// What is left of a text without its leading white space begins at its first
/// character that is not white space.
pub proof fn law_trim_start(white: Seq<char>, rest: Seq<char>)
    requires
        all_white(white),
        rest.len() > 0 ==> !is_white_space(rest[0]),
    ensures
        trim_start(white + rest) == rest,
    decreases white.len(),
{
    let s = white + rest;
    if white.len() > 0 {
        assert(is_white_space(white[0]));
        assert(s[0] == white[0]);
        let tail = white.drop_first();
        assert forall|i: int| 0 <= i < tail.len() implies is_white_space(#[trigger] tail[i]) by {
            assert(tail[i] == white[i + 1]);
        }
        assert(s.drop_first() == tail + rest);
        law_trim_start(tail, rest);
    } else {
        assert(s == rest);
    }
}

proof fn lemma_trim_end_white(rest: Seq<char>, white: Seq<char>)
    requires
        all_white(white),
        rest.len() > 0 ==> !is_white_space(rest.last()),
    ensures
        trim_end(rest + white) == rest,
    decreases white.len(),
{
    let s = rest + white;
    if white.len() > 0 {
        assert(is_white_space(white[white.len() - 1]));
        assert(s.last() == white.last());
        let head = white.drop_last();
        assert forall|i: int| 0 <= i < head.len() implies is_white_space(#[trigger] head[i]) by {
            assert(head[i] == white[i]);
        }
        assert(s.drop_last() == rest + head);
        lemma_trim_end_white(rest, head);
    } else {
        assert(s == rest);
    }
}

/// Trimming takes the white space off both ends and leaves what stands between
/// as it is.
pub proof fn law_trim(front: Seq<char>, core: Seq<char>, back: Seq<char>)
    requires
        all_white(front),
        all_white(back),
        clean_ends(core),
    ensures
        trim(front + core + back) == core,
        is_blank(front + core + back) <==> core.len() == 0,
{
    if core.len() > 0 {
        assert(front + core + back == front + (core + back));
        assert((core + back)[0] == core[0]);
        law_trim_start(front, core + back);
        lemma_trim_end_white(core, back);
    } else {
        let white = front + back;
        assert(front + core + back == white + Seq::<char>::empty());
        assert forall|i: int| 0 <= i < white.len() implies is_white_space(#[trigger] white[i]) by {
            if i < front.len() {
                assert(white[i] == front[i]);
            } else {
                assert(white[i] == back[i - front.len()]);
            }
        }
        law_trim_start(white, Seq::empty());
    }
}

/// A text with nothing but white space in it trims to nothing, and no other
/// text does.
pub proof fn law_blank(s: Seq<char>)
    ensures
        is_blank(s) <==> all_white(s),
        trim(s).len() == 0 <==> all_white(s),
{
    if all_white(s) {
        assert(s == s + Seq::<char>::empty() + Seq::<char>::empty());
        law_trim(s, Seq::empty(), Seq::empty());
    } else {
        let i = choose|i: int| 0 <= i < s.len() && !is_white_space(#[trigger] s[i]);
        lemma_keeps_ink(s, i);
    }
}

proof fn lemma_keeps_ink(s: Seq<char>, i: int)
    requires
        0 <= i < s.len(),
        !is_white_space(s[i]),
    ensures
        trim(s).len() > 0,
    decreases s.len(),
{
    if is_white_space(s[0]) {
        assert(s.drop_first()[i - 1] == s[i]);
        lemma_keeps_ink(s.drop_first(), i - 1);
    } else {
        lemma_end_keeps_ink(s);
    }
}

proof fn lemma_end_keeps_ink(s: Seq<char>)
    requires
        s.len() > 0,
        !is_white_space(s[0]),
    ensures
        trim_end(s).len() > 0,
    decreases s.len(),
{
    if is_white_space(s.last()) {
        assert(s.drop_last()[0] == s[0]);
        lemma_end_keeps_ink(s.drop_last());
    }
}

/// Where a text ends with a carriage return, it goes; nothing else does.
pub proof fn law_strip_cr(s: Seq<char>)
    ensures
        strip_cr(s.push('\r')) == s,
        s.len() == 0 || s.last() != '\r' ==> strip_cr(s) == s,
{
    assert(s.push('\r').drop_last() == s);
}

/// The lines of a text, told by its first line ending: what stands before it
/// is the first line, and the rest of the text gives the other lines. A text
/// without a line ending is one line, and the empty text has none.
pub proof fn law_lines(line: Seq<char>, rest: Seq<char>)
    requires
        !line.contains('\n'),
    ensures
        lines(Seq::<char>::empty()).len() == 0,
        line.len() > 0 ==> lines(line) == seq![line],
        lines(line + seq!['\n'] + rest) == seq![
            if line.len() > 0 && line.last() == '\r' {
                line.take(line.len() - 1)
            } else {
                line
            },
        ] + lines(rest),
{
    lemma_lines_front(line, rest);
    if line.len() > 0 {
        lemma_lines_single(line);
        assert(line.drop_last() == line.take(line.len() - 1));
    }
}

/// Lines put together end with a line feed each, in order.
pub proof fn law_unlines(line: Seq<char>, ls: Seq<Seq<char>>)
    ensures
        unlines(Seq::<Seq<char>>::empty()).len() == 0,
        unlines(seq![line] + ls) == line + seq!['\n'] + unlines(ls),
{
    let all = seq![line] + ls;
    assert(all[0] == line);
    assert(all.drop_first() == ls);
}

/// A text begins with another where it is that text and something after it.
pub proof fn law_starts_with(p: Seq<char>, s: Seq<char>)
    ensures
        starts_with(p + s, p),
        starts_with(s, p) <==> p.len() <= s.len() && forall|i: int|
            0 <= i < p.len() ==> #[trigger] s[i] == p[i],
{
    assert((p + s).take(p.len() as int) == p);
    if starts_with(s, p) {
        assert forall|i: int| 0 <= i < p.len() implies #[trigger] s[i] == p[i] by {
            assert(s.take(p.len() as int)[i] == s[i]);
        }
    } else if p.len() <= s.len() && forall|i: int|
        0 <= i < p.len() ==> #[trigger] s[i] == p[i] {
        assert(s.take(p.len() as int) == p);
    }
}

/// A text is contained in another where that one is something before it, the
/// text, and something after it.
pub proof fn law_contains(a: Seq<char>, p: Seq<char>, b: Seq<char>, s: Seq<char>)
    ensures
        contains(a + p + b, p),
        contains(s, p) <==> exists|i: int|
            0 <= i && i + p.len() <= s.len() && #[trigger] s.subrange(i, i + p.len()) == p,
{
    let all = a + p + b;
    let n = a.len() as int;
    assert(all.subrange(n, n + p.len()) == p);
    assert(occurs_at(all, p, n));
    if contains(s, p) {
        let i = choose|i: int| occurs_at(s, p, i);
        assert(s.subrange(i, i + p.len()) == p);
    }
    if exists|i: int| 0 <= i && i + p.len() <= s.len() && #[trigger] s.subrange(i, i + p.len())
        == p {
        let i = choose|i: int|
            0 <= i && i + p.len() <= s.len() && #[trigger] s.subrange(i, i + p.len()) == p;
        assert(occurs_at(s, p, i));
    }
}

/// The first place of a text has none before it, and the last has none after.
pub proof fn law_first_and_last(s: Seq<char>, p: Seq<char>, i: int, j: int)
    requires
        is_first(s, p, i),
        is_last(s, p, j),
    ensures
        i <= j,
        s.subrange(i, i + p.len()) == p,
        s.subrange(j, j + p.len()) == p,
        forall|k: int| 0 <= k < i ==> #[trigger] s.subrange(k, k + p.len()) != p,
        forall|k: int|
            j < k && k + p.len() <= s.len() ==> #[trigger] s.subrange(k, k + p.len()) != p,
{
    assert forall|k: int| 0 <= k < i implies #[trigger] s.subrange(k, k + p.len()) != p by {
        if s.subrange(k, k + p.len()) == p {
            assert(occurs_at(s, p, k));
        }
    }
    assert forall|k: int| j < k && k + p.len() <= s.len() implies #[trigger] s.subrange(
        k,
        k + p.len(),
    ) != p by {
        if s.subrange(k, k + p.len()) == p {
            assert(occurs_at(s, p, k));
        }
    }
}

/// A character is found where it stands for the first time.
pub proof fn law_find_char(a: Seq<char>, c: char, b: Seq<char>)
    requires
        !a.contains(c),
    ensures
        find_char(a + seq![c] + b, c) == a.len(),
        find_char(a, c) == a.len(),
{
    let s = a + seq![c] + b;
    assert forall|j: int| 0 <= j < a.len() implies s[j] != c by {
        assert(s[j] == a[j]);
    }
    lemma_find_char_at(s, c, a.len() as int);
    lemma_find_char(a, c);
    lemma_find_char_none(a, c);
}

/// Replacing a character touches that character and no other, and keeps every
/// place.
pub proof fn law_replace_char(s: Seq<char>, from: char, to: char, i: int)
    requires
        0 <= i < s.len(),
    ensures
        replace_char(s, from, to).len() == s.len(),
        s[i] == from ==> replace_char(s, from, to)[i] == to,
        s[i] != from ==> replace_char(s, from, to)[i] == s[i],
{
}

/// Joined parts have the separator between any two, and nowhere else.
pub proof fn law_join(part: Seq<char>, rest: Seq<Seq<char>>, sep: Seq<char>)
    ensures
        join(Seq::<Seq<char>>::empty(), sep).len() == 0,
        join(seq![part], sep) == part,
        rest.len() > 0 ==> join(seq![part] + rest, sep) == part + sep + join(rest, sep),
{
    let all = seq![part] + rest;
    assert(all[0] == part);
    assert(all.drop_first() == rest);
}

/// Lower case: the letters from `A` to `Z` become those from `a` to `z`, in the
/// same order, and every other character stays.
pub proof fn law_ascii_lower(c: char, d: char)
    ensures
        'A' <= c <= 'Z' ==> 'a' <= ascii_lower(c) <= 'z',
        'A' <= c <= 'Z' ==> ascii_lower(c) as int - 'a' as int == c as int - 'A' as int,
        !('A' <= c <= 'Z') ==> ascii_lower(c) == c,
        ascii_lower(ascii_lower(c)) == ascii_lower(c),
        ascii_lower(c) == ascii_lower(d) && 'A' <= c <= 'Z' && 'A' <= d <= 'Z' ==> c == d,
{
}

/// Texts are equal but for the case of their letters where their lower-case
/// forms are equal.
pub proof fn law_eq_ignore_case(a: Seq<char>, b: Seq<char>)
    ensures
        eq_ignore_ascii_case_spec(a, b) <==> ascii_lowercase(a) == ascii_lowercase(b),
        eq_ignore_ascii_case_spec(ascii_lowercase(a), a),
        ascii_lowercase(a).len() == a.len(),
        forall|i: int| 0 <= i < a.len() ==> #[trigger] ascii_lowercase(a)[i] == ascii_lower(a[i]),
{
    let x = ascii_lowercase(a);
    let y = ascii_lowercase(b);
    if x == y {
        assert(x.len() == a.len() && y.len() == b.len());
        assert forall|i: int| 0 <= i < a.len() implies ascii_lower(#[trigger] a[i]) == ascii_lower(
            b[i],
        ) by {
            assert(x[i] == y[i]);
        }
    } else if eq_ignore_ascii_case_spec(a, b) {
        assert forall|i: int| 0 <= i < x.len() implies x[i] == y[i] by {
            assert(ascii_lower(a[i]) == ascii_lower(b[i]));
        }
        assert(x == y);
    }
    assert forall|i: int| 0 <= i < a.len() implies ascii_lower(#[trigger] x[i]) == ascii_lower(
        a[i],
    ) by {
        law_ascii_lower(a[i], a[i]);
    }
}

/// Trimming a trimmed text changes nothing, and what is left is a run of the
/// text's characters with nothing but white space on either side.
pub proof fn law_trim_is_run(s: Seq<char>)
    ensures
        trim(trim(s)) == trim(s),
        clean_ends(trim(s)),
        exists|i: int| 0 <= i && i + trim(s).len() <= s.len() && #[trigger] s.subrange(
            i,
            i + trim(s).len(),
        ) == trim(s),
{
    lemma_trim_result(s);
    lemma_trim_clean(trim(s));
}

} // verus!

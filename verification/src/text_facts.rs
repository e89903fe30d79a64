//! Facts about trimming, searching and lines.

use vstd::prelude::*;
use crate::text::{
    contains, find_char, is_white_space, lines, occurs_at, strip_cr, trim, trim_end, trim_start,
    unlines,
};

verus! {

/// A text that neither begins nor ends with white space.
pub open spec fn clean_ends(s: Seq<char>) -> bool {
    s.len() > 0 ==> !is_white_space(s[0]) && !is_white_space(s.last())
}

/// A text that keeps its place on a line of its own: no line feed in it, and
/// no white space at either end.
pub open spec fn fits_line(s: Seq<char>) -> bool {
    clean_ends(s) && !s.contains('\n')
}

/// No line feed among the first `n` characters.
pub open spec fn no_break_upto(s: Seq<char>, n: nat) -> bool
    decreases n,
{
    n == 0 || (s[n - 1] != '\n' && no_break_upto(s, (n - 1) as nat))
}

/// Only lower-case ASCII letters and underscores among the first `n` characters.
pub open spec fn word_upto(s: Seq<char>, n: nat) -> bool
    decreases n,
{
    n == 0 || (('a' <= s[n - 1] <= 'z' || s[n - 1] == '_') && word_upto(s, (n - 1) as nat))
}

/// A key: at least one lower-case ASCII letter or underscore, and nothing else.
pub open spec fn is_word(s: Seq<char>) -> bool {
    s.len() > 0 && word_upto(s, s.len())
}

/// What `no_break_upto` says of each character.
pub proof fn lemma_no_break(s: Seq<char>, n: nat)
    requires
        no_break_upto(s, n),
    ensures
        forall|i: int| 0 <= i < n ==> s[i] != '\n',
    decreases n,
{
    if n > 0 {
        lemma_no_break(s, (n - 1) as nat);
    }
}

/// What `word_upto` says of each character.
pub proof fn lemma_word(s: Seq<char>, n: nat)
    requires
        word_upto(s, n),
    ensures
        forall|i: int| 0 <= i < n ==> 'a' <= #[trigger] s[i] <= 'z' || s[i] == '_',
    decreases n,
{
    if n > 0 {
        lemma_word(s, (n - 1) as nat);
    }
}

proof fn lemma_trim_start_result(s: Seq<char>)
    ensures
        trim_start(s).len() > 0 ==> !is_white_space(trim_start(s)[0]),
        trim_start(s).len() <= s.len(),
        trim_start(s) == s.skip(s.len() - trim_start(s).len()),
    decreases s.len(),
{
    if s.len() > 0 && is_white_space(s[0]) {
        lemma_trim_start_result(s.drop_first());
    }
}

proof fn lemma_trim_end_result(s: Seq<char>)
    ensures
        trim_end(s).len() > 0 ==> !is_white_space(trim_end(s).last()),
        trim_end(s).len() <= s.len(),
        trim_end(s) == s.take(trim_end(s).len() as int),
    decreases s.len(),
{
    if s.len() > 0 && is_white_space(s.last()) {
        lemma_trim_end_result(s.drop_last());
    }
}

/// A trimmed text has clean ends, and its characters are a run of the text's.
pub proof fn lemma_trim_result(s: Seq<char>)
    ensures
        clean_ends(trim(s)),
        trim(s).len() <= s.len(),
        exists|i: int| 0 <= i && i + trim(s).len() <= s.len() && #[trigger] s.subrange(
            i,
            i + trim(s).len(),
        ) == trim(s),
{
    let t = trim_start(s);
    lemma_trim_start_result(s);
    lemma_trim_end_result(t);
    let i = s.len() - t.len();
    assert(s.subrange(i, i + trim(s).len()) == trim(s));
}

/// A text that does not begin with white space keeps its front when trimmed.
pub proof fn lemma_trim_at_front(s: Seq<char>)
    requires
        s.len() > 0,
        !is_white_space(s[0]),
    ensures
        trim(s).len() <= s.len(),
        trim(s) == s.take(trim(s).len() as int),
{
    lemma_trim_end_result(s);
}

/// A trimmed text holds no character that the text does not hold.
pub proof fn lemma_trim_contains(s: Seq<char>, c: char)
    requires
        trim(s).contains(c),
    ensures
        s.contains(c),
{
    lemma_trim_result(s);
    let i = choose|i: int|
        0 <= i && i + trim(s).len() <= s.len() && #[trigger] s.subrange(i, i + trim(s).len())
            == trim(s);
    let k = choose|k: int| 0 <= k < trim(s).len() && trim(s)[k] == c;
    assert(s.subrange(i, i + trim(s).len())[k] == s[i + k]);
}

/// Trimming leaves a text with clean ends as it is.
pub proof fn lemma_trim_clean(s: Seq<char>)
    requires
        clean_ends(s),
    ensures
        trim(s) == s,
{
}

/// Trimming does not mind white space at the end.
proof fn lemma_trim_drop_white(s: Seq<char>)
    requires
        s.len() > 0,
        is_white_space(s.last()),
    ensures
        trim(s.drop_last()) == trim(s),
    decreases s.len(),
{
    if is_white_space(s[0]) {
        if s.len() > 1 {
            assert(s.drop_first().last() == s.last());
            assert(s.drop_last().drop_first() == s.drop_first().drop_last());
            lemma_trim_drop_white(s.drop_first());
            assert(s.drop_last()[0] == s[0]);
        } else {
            assert(s.drop_first() == s.drop_last());
        }
    } else {
        assert(s.drop_last()[0] == s[0]);
    }
}

/// Trimming does not mind a carriage return at the end.
pub proof fn lemma_trim_strip_cr(s: Seq<char>)
    ensures
        trim(strip_cr(s)) == trim(s),
{
    if s.len() > 0 && s.last() == '\r' {
        lemma_trim_drop_white(s);
    }
}

/// Trimming does not mind trimming the end first.
pub proof fn lemma_trim_trim_end(s: Seq<char>)
    ensures
        trim(trim_end(s)) == trim(s),
    decreases s.len(),
{
    if s.len() > 0 && is_white_space(s.last()) {
        lemma_trim_trim_end(s.drop_last());
        lemma_trim_drop_white(s);
    }
}

/// What stands behind a character that is not white space is trimmed alone.
pub proof fn lemma_trim_end_behind(a: Seq<char>, s: Seq<char>)
    requires
        a.len() > 0,
        !is_white_space(a.last()),
    ensures
        trim_end(a + s) == a + trim_end(s),
    decreases s.len(),
{
    let all = a + s;
    if s.len() == 0 {
        assert(all == a);
        assert(a + trim_end(s) == a);
    } else {
        assert(all.last() == s.last());
        if is_white_space(s.last()) {
            assert(all.drop_last() == a + s.drop_last());
            lemma_trim_end_behind(a, s.drop_last());
        }
    }
}

/// `find_char` gives the first place of the character.
pub proof fn lemma_find_char(s: Seq<char>, c: char)
    ensures
        find_char(s, c) <= s.len(),
        forall|j: int| 0 <= j < find_char(s, c) ==> s[j] != c,
        find_char(s, c) < s.len() ==> s[find_char(s, c) as int] == c,
    decreases s.len(),
{
    if s.len() > 0 && s[0] != c {
        let t = s.drop_first();
        lemma_find_char(t, c);
        assert forall|j: int| 0 <= j < find_char(s, c) implies s[j] != c by {
            if j > 0 {
                assert(t[j - 1] == s[j]);
            }
        }
    }
}

/// The first place of a character is where it stands with none before it.
pub proof fn lemma_find_char_at(s: Seq<char>, c: char, i: int)
    requires
        0 <= i < s.len(),
        s[i] == c,
        forall|j: int| 0 <= j < i ==> s[j] != c,
    ensures
        find_char(s, c) == i,
{
    lemma_find_char(s, c);
}

/// A character that a text does not hold is found at the text's length.
pub proof fn lemma_find_char_none(s: Seq<char>, c: char)
    ensures
        find_char(s, c) >= s.len() <==> !s.contains(c),
{
    lemma_find_char(s, c);
    if find_char(s, c) < s.len() {
        assert(s.contains(c));
    }
}

/// A key, `=` and a value part at the `=` again, whatever white space stands
/// around the value.
pub proof fn lemma_keyed_line(key: Seq<char>, value: Seq<char>)
    requires
        is_word(key),
        !value.contains('\n'),
    ensures
        ({
            let line = trim(key + seq!['='] + value);
            &&& line.len() > key.len()
            &&& line[0] == key[0]
            &&& 'a' <= key[0] <= 'z' || key[0] == '_'
            &&& find_char(line, '=') == key.len()
            &&& trim(line.take(key.len() as int)) == key
            &&& trim(line.skip(key.len() as int + 1)) == trim(value)
        }),
        !(key + seq!['='] + value).contains('\n'),
{
    let front = key + seq!['='];
    let all = key + seq!['='] + value;
    let n = key.len() as int;
    lemma_word(key, key.len());
    assert(all[0] == key[0]);
    assert(key.last() == key[n - 1]);
    assert(front.last() == '=');
    lemma_trim_end_behind(front, value);
    let line = front + trim_end(value);
    assert(trim(all) == line);
    assert forall|j: int| 0 <= j < n implies line[j] != '=' by {
        assert(line[j] == key[j]);
    }
    assert(line[n] == '=');
    lemma_find_char_at(line, '=', n);
    assert(line.take(n) == key);
    assert(line.skip(n + 1) == trim_end(value));
    lemma_trim_clean(key);
    lemma_trim_trim_end(value);
    if all.contains('\n') {
        let k = choose|k: int| 0 <= k < all.len() && all[k] == '\n';
        if k < n {
            assert(all[k] == key[k]);
        } else if k > n {
            assert(all[k] == value[k - n - 1]);
        }
    }
}

/// A first line, its line feed and the rest read back as that line and the
/// lines of the rest.
pub proof fn lemma_lines_front(line: Seq<char>, rest: Seq<char>)
    requires
        !line.contains('\n'),
    ensures
        lines(line + seq!['\n'] + rest) == seq![strip_cr(line)] + lines(rest),
{
    let s = line + seq!['\n'] + rest;
    assert forall|j: int| 0 <= j < line.len() implies s[j] != '\n' by {
        assert(s[j] == line[j]);
    }
    lemma_find_char_at(s, '\n', line.len() as int);
    assert(s.take(line.len() as int) == line);
    assert(s.skip(line.len() as int + 1) == rest);
}

/// A text without line feed is a line of its own.
pub proof fn lemma_lines_single(s: Seq<char>)
    requires
        !s.contains('\n'),
        s.len() > 0,
    ensures
        lines(s) == seq![s],
{
    lemma_find_char_none(s, '\n');
}

/// Lines that hold no line feed read back as they were written, but for a
/// carriage return at the end, which is taken for a part of the line ending.
pub proof fn lemma_lines_unlines(ls: Seq<Seq<char>>)
    requires
        forall|i: int| 0 <= i < ls.len() ==> !(#[trigger] ls[i]).contains('\n'),
    ensures
        lines(unlines(ls)) == ls.map_values(|l: Seq<char>| strip_cr(l)),
    decreases ls.len(),
{
    let f = |l: Seq<char>| strip_cr(l);
    if ls.len() > 0 {
        let rest = ls.drop_first();
        assert forall|i: int| 0 <= i < rest.len() implies !(#[trigger] rest[i]).contains('\n') by {
            assert(rest[i] == ls[i + 1]);
        }
        lemma_lines_unlines(rest);
        assert(!ls[0].contains('\n'));
        lemma_lines_front(ls[0], unlines(rest));
        assert(seq![strip_cr(ls[0])] + rest.map_values(f) == ls.map_values(f));
    } else {
        assert(ls.map_values(f) == Seq::<Seq<char>>::empty());
    }
}

/// No line of a text holds a line feed.
pub proof fn lemma_lines_no_break(s: Seq<char>, i: int)
    requires
        0 <= i < lines(s).len(),
    ensures
        !lines(s)[i].contains('\n'),
    decreases s.len(),
{
    lemma_find_char(s, '\n');
    let end = find_char(s, '\n') as int;
    if end >= s.len() {
        lemma_find_char_none(s, '\n');
    } else {
        let first = strip_cr(s.take(end));
        if i == 0 {
            if first.contains('\n') {
                let k = choose|k: int| 0 <= k < first.len() && first[k] == '\n';
                assert(first[k] == s[k]);
            }
        } else {
            lemma_lines_no_break(s.skip(end + 1), i - 1);
        }
    }
}

/// What stands in the middle of a text is contained in it.
pub proof fn lemma_contains_middle(a: Seq<char>, p: Seq<char>, b: Seq<char>)
    ensures
        contains(a + p + b, p),
{
    let s = a + p + b;
    assert(s.subrange(a.len() as int, a.len() as int + p.len()) == p);
    assert(occurs_at(s, p, a.len() as int));
}

} // verus!

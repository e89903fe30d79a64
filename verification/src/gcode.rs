//! Macros: named rows of G-code commands.

use vstd::prelude::*;
use crate::text::{
    join, lines, replace_char, replaced, split_lines, starts_with, strip_cr, texts, trim, trimmed,
    begins_with, find_char,
};
use crate::text_facts::{
    fits_line, lemma_find_char, lemma_lines_front, lemma_lines_no_break, lemma_lines_single,
    lemma_trim_clean, lemma_trim_contains, lemma_trim_result, lemma_trim_strip_cr,
};

verus! {

/// A macro of the test stand.
#[derive(Debug)]
pub struct MacroDef {
    pub name: String,
    pub label: String,
    /// Newline-separated G-code lines (semicolons stand between them in the
    /// configuration file).
    pub gcode: String,
}

/// What a macro holds.
#[verifier::ext_equal]
pub struct MacroView {
    pub name: Seq<char>,
    pub label: Seq<char>,
    pub gcode: Seq<char>,
}

impl View for MacroDef {
    type V = MacroView;

    open spec fn view(&self) -> MacroView {
        MacroView { name: self.name@, label: self.label@, gcode: self.gcode@ }
    }
}

/// What a row of macros holds.
pub open spec fn macro_views(v: Seq<MacroDef>) -> Seq<MacroView> {
    Seq::new(v.len(), |i: int| v[i]@)
}

/// The lines of a G-code text that are not blank, trimmed.
pub open spec fn kept_lines(gcode: Seq<char>) -> Seq<Seq<char>> {
    lines(gcode).map_values(|l: Seq<char>| trim(l)).filter(|l: Seq<char>| l.len() > 0)
}

/// The commands of a G-code text: its lines, trimmed, without blank lines and
/// without comments, which begin with `#`.
pub open spec fn commands(gcode: Seq<char>) -> Seq<Seq<char>> {
    kept_lines(gcode).filter(|l: Seq<char>| !starts_with(l, "#"@))
}

/// A G-code text on one line: its lines that are not blank, trimmed, with
/// semicolons between them.
pub open spec fn flat(gcode: Seq<char>) -> Seq<char> {
    join(kept_lines(gcode), seq![';'])
}

/// The G-code text that a line with semicolons stands for.
pub open spec fn unflat(line: Seq<char>) -> Seq<char> {
    replace_char(line, ';', '\n')
}

/// The lines of a G-code text that are not blank, trimmed.
fn keep_lines(gcode: &str) -> (r: Vec<String>)
    ensures
        texts(r@) == kept_lines(gcode@),
{
    let all: Vec<String> = split_lines(gcode);
    let mut out: Vec<String> = Vec::new();
    let mut i: usize = 0;
    let ghost cut = lines(gcode@).map_values(|l: Seq<char>| trim(l));
    let ghost keep = |l: Seq<char>| l.len() > 0;
    assert(cut.take(0).filter(keep) == Seq::<Seq<char>>::empty()) by {
        reveal(Seq::filter);
    }
    assert(texts(out@) == Seq::<Seq<char>>::empty());
    while i < all.len()
        invariant
            i <= all.len(),
            texts(all@) == lines(gcode@),
            cut == lines(gcode@).map_values(|l: Seq<char>| trim(l)),
            keep == (|l: Seq<char>| l.len() > 0),
            texts(out@) == cut.take(i as int).filter(keep),
        decreases all.len() - i,
    {
        let line: String = trimmed(all[i].as_str());
        let ghost before = texts(out@);
        proof {
            reveal(Seq::filter);
            assert(texts(all@)[i as int] == all[i as int]@);
            assert(cut.take(i + 1).drop_last() == cut.take(i as int));
            assert(cut.take(i + 1).last() == line@);
        }
        if !line.as_str().is_empty() {
            out.push(line);
            assert(texts(out@) == before.push(line@));
        }
        i += 1;
    }
    assert(cut.take(i as int) == cut);
    out
}

/// The commands of a G-code text, in order.
pub fn command_lines(gcode: &str) -> (r: Vec<String>)
    ensures
        texts(r@) == commands(gcode@),
{
    let kept: Vec<String> = keep_lines(gcode);
    let mut out: Vec<String> = Vec::new();
    let mut i: usize = 0;
    let ghost all = kept_lines(gcode@);
    let ghost pick = |l: Seq<char>| !starts_with(l, "#"@);
    assert(all.take(0).filter(pick) == Seq::<Seq<char>>::empty()) by {
        reveal(Seq::filter);
    }
    assert(texts(out@) == Seq::<Seq<char>>::empty());
    while i < kept.len()
        invariant
            i <= kept.len(),
            texts(kept@) == all,
            pick == (|l: Seq<char>| !starts_with(l, "#"@)),
            texts(out@) == all.take(i as int).filter(pick),
        decreases kept.len() - i,
    {
        let ghost before = texts(out@);
        proof {
            reveal(Seq::filter);
            assert(texts(kept@)[i as int] == kept[i as int]@);
            assert(all.take(i + 1).drop_last() == all.take(i as int));
        }
        if !begins_with(kept[i].as_str(), "#") {
            out.push(kept[i].clone());
            assert(texts(out@) == before.push(kept[i as int]@));
        }
        i += 1;
    }
    assert(all.take(i as int) == all);
    out
}

/// A G-code text on one line, with semicolons between its lines.
pub fn flatten(gcode: &str) -> (r: String)
    ensures
        r@ == flat(gcode@),
{
    let kept: Vec<String> = keep_lines(gcode);
    let ghost all = kept_lines(gcode@);
    let mut out: String = String::new();
    let mut i: usize = 0;
    assert(all.skip(0) == all);
    while i < kept.len()
        invariant
            i <= kept.len(),
            texts(kept@) == all,
            i == 0 ==> out@.len() == 0,
            0 < i < kept.len() ==> flat(gcode@) == out@ + seq![';'] + join(
                all.skip(i as int),
                seq![';'],
            ),
            0 < i == kept.len() ==> flat(gcode@) == out@,
            flat(gcode@) == join(all, seq![';']),
            i == 0 ==> all.skip(i as int) == all,
        decreases kept.len() - i,
    {
        assert(texts(kept@)[i as int] == kept[i as int]@);
        assert(all.skip(i as int).drop_first() == all.skip(i + 1));
        if i > 0 {
            out.push(';');
        }
        out.append(kept[i].as_str());
        i += 1;
    }
    out
}

/// The G-code text that a line with semicolons stands for.
pub fn unflatten(line: &str) -> (r: String)
    ensures
        r@ == unflat(line@),
{
    replaced(line, ';', '\n')
}

/// What a filter keeps satisfies its predicate and comes from the sequence.
proof fn lemma_filter_from(s: Seq<Seq<char>>, pred: spec_fn(Seq<char>) -> bool, i: int)
    requires
        0 <= i < s.filter(pred).len(),
    ensures
        pred(s.filter(pred)[i]),
        s.contains(s.filter(pred)[i]),
    decreases s.len(),
{
    reveal(Seq::filter);
    let head = s.drop_last();
    if i < head.filter(pred).len() {
        lemma_filter_from(head, pred, i);
        let k = choose|k: int| 0 <= k < head.len() && head[k] == head.filter(pred)[i];
        assert(s[k] == head[k]);
    } else {
        assert(s[s.len() - 1] == s.last());
    }
}

/// What `kept_lines` keeps: lines that are not blank and have clean ends, of
/// characters of the text.
proof fn lemma_kept(gcode: Seq<char>, i: int)
    requires
        0 <= i < kept_lines(gcode).len(),
    ensures
        kept_lines(gcode)[i].len() > 0,
        fits_line(kept_lines(gcode)[i]),
        forall|c: char| kept_lines(gcode)[i].contains(c) ==> #[trigger] gcode.contains(c),
{
    let cut = lines(gcode).map_values(|l: Seq<char>| trim(l));
    let keep = |l: Seq<char>| l.len() > 0;
    let line = kept_lines(gcode)[i];
    lemma_filter_from(cut, keep, i);
    let k = choose|k: int| 0 <= k < cut.len() && cut[k] == line;
    let raw = lines(gcode)[k];
    lemma_trim_result(raw);
    lemma_lines_no_break(gcode, k);
    if line.contains('\n') {
        lemma_trim_contains(raw, '\n');
    }
    assert forall|c: char| line.contains(c) implies #[trigger] gcode.contains(c) by {
        lemma_trim_contains(raw, c);
        lemma_line_contains(gcode, k, c);
    }
}

/// A line of a text holds no character that the text does not hold.
pub proof fn lemma_line_contains(s: Seq<char>, i: int, c: char)
    requires
        0 <= i < lines(s).len(),
        lines(s)[i].contains(c),
    ensures
        s.contains(c),
    decreases s.len(),
{
    lemma_find_char(s, '\n');
    let end = find_char(s, '\n') as int;
    if end < s.len() {
        if i == 0 {
            let first = strip_cr(s.take(end));
            let k = choose|k: int| 0 <= k < first.len() && first[k] == c;
            assert(first[k] == s[k]);
        } else {
            let rest = s.skip(end + 1);
            lemma_line_contains(rest, i - 1, c);
            let k = choose|k: int| 0 <= k < rest.len() && rest[k] == c;
            assert(rest[k] == s[end + 1 + k]);
        }
    }
}

/// Every part fits a line and is not empty.
spec fn all_fit(parts: Seq<Seq<char>>) -> bool {
    forall|i: int|
        0 <= i < parts.len() ==> (#[trigger] parts[i]).len() > 0 && fits_line(parts[i])
}

proof fn lemma_all_fit_tail(parts: Seq<Seq<char>>)
    requires
        all_fit(parts),
        parts.len() > 0,
    ensures
        all_fit(parts.drop_first()),
{
    let rest = parts.drop_first();
    assert forall|i: int| 0 <= i < rest.len() implies (#[trigger] rest[i]).len() > 0 && fits_line(
        rest[i],
    ) by {
        assert(rest[i] == parts[i + 1]);
    }
}

/// Parts that fit a line, with semicolons between them, fit a line.
proof fn lemma_join_fits(parts: Seq<Seq<char>>)
    requires
        all_fit(parts),
    ensures
        fits_line(join(parts, seq![';'])),
        parts.len() > 0 ==> join(parts, seq![';']).len() > 0,
    decreases parts.len(),
{
    if parts.len() > 1 {
        let sep = seq![';'];
        let rest = join(parts.drop_first(), sep);
        let whole = join(parts, sep);
        lemma_all_fit_tail(parts);
        lemma_join_fits(parts.drop_first());
        assert(whole == parts[0] + sep + rest);
        assert(whole[0] == parts[0][0]);
        assert(whole.last() == rest.last());
        if whole.contains('\n') {
            let k = choose|k: int| 0 <= k < whole.len() && whole[k] == '\n';
            let n = parts[0].len() as int;
            if k < n {
                assert(parts[0][k] == '\n');
            } else if k > n {
                assert(rest[k - n - 1] == '\n');
            }
        }
    }
}

/// The flat form of a G-code text fits a line.
pub proof fn lemma_flat_fits(gcode: Seq<char>)
    ensures
        fits_line(flat(gcode)),
{
    let parts = kept_lines(gcode);
    assert forall|i: int| 0 <= i < parts.len() implies (#[trigger] parts[i]).len() > 0 && fits_line(
        parts[i],
    ) by {
        lemma_kept(gcode, i);
    }
    lemma_join_fits(parts);
}

/// Where no part holds a semicolon, reading the flat form puts line feeds
/// between the parts.
proof fn lemma_unflat_join(parts: Seq<Seq<char>>)
    requires
        forall|i: int| 0 <= i < parts.len() ==> !(#[trigger] parts[i]).contains(';'),
    ensures
        unflat(join(parts, seq![';'])) == join(parts, seq!['\n']),
    decreases parts.len(),
{
    if parts.len() == 1 {
        assert(!parts[0].contains(';'));
        assert(unflat(parts[0]) == parts[0]);
    } else if parts.len() > 1 {
        let tail = parts.drop_first();
        assert forall|i: int| 0 <= i < tail.len() implies !(#[trigger] tail[i]).contains(';') by {
            assert(tail[i] == parts[i + 1]);
        }
        lemma_unflat_join(tail);
        assert(!parts[0].contains(';'));
        let rest = join(tail, seq![';']);
        let a = unflat(parts[0] + seq![';'] + rest);
        let b = parts[0] + seq!['\n'] + unflat(rest);
        assert forall|i: int| 0 <= i < a.len() implies a[i] == b[i] by {
            let n = parts[0].len() as int;
            if i < n {
                assert(parts[0][i] != ';');
            }
        }
        assert(a == b);
    } else {
        assert(unflat(Seq::<char>::empty()) == Seq::<char>::empty());
    }
}

/// Parts that fit a line, with line feeds between them, read back as lines.
proof fn lemma_lines_join(parts: Seq<Seq<char>>)
    requires
        all_fit(parts),
    ensures
        lines(join(parts, seq!['\n'])) == parts,
    decreases parts.len(),
{
    if parts.len() == 1 {
        assert(fits_line(parts[0]));
        lemma_lines_single(parts[0]);
    } else if parts.len() > 1 {
        lemma_all_fit_tail(parts);
        lemma_lines_join(parts.drop_first());
        assert(fits_line(parts[0]));
        lemma_lines_front(parts[0], join(parts.drop_first(), seq!['\n']));
        assert(strip_cr(parts[0]) == parts[0]);
        assert(seq![parts[0]] + parts.drop_first() == parts);
    }
}

/// A filter that drops nothing changes nothing.
proof fn lemma_filter_all(s: Seq<Seq<char>>, pred: spec_fn(Seq<char>) -> bool)
    requires
        forall|i: int| 0 <= i < s.len() ==> pred(#[trigger] s[i]),
    ensures
        s.filter(pred) == s,
    decreases s.len(),
{
    reveal(Seq::filter);
    if s.len() > 0 {
        assert(pred(s[s.len() - 1]));
        lemma_filter_all(s.drop_last(), pred);
        assert(s.drop_last().push(s.last()) == s);
    }
}

/// Parts that fit a line are kept as they are.
proof fn lemma_cut_fits(parts: Seq<Seq<char>>)
    requires
        all_fit(parts),
    ensures
        parts.map_values(|l: Seq<char>| trim(l)).filter(|l: Seq<char>| l.len() > 0) == parts,
{
    let cut = parts.map_values(|l: Seq<char>| trim(l));
    assert forall|i: int| 0 <= i < parts.len() implies cut[i] == parts[i] by {
        lemma_trim_clean(parts[i]);
    }
    assert(cut == parts);
    lemma_filter_all(parts, |l: Seq<char>| l.len() > 0);
}

/// A macro keeps its commands when it is written to the configuration file and
/// read back: the G-code text that the flat form stands for has the commands
/// that the text had, unless the text itself holds semicolons.
pub proof fn law_flat_keeps_commands(gcode: Seq<char>)
    requires
        !gcode.contains(';'),
    ensures
        commands(unflat(flat(gcode))) == commands(gcode),
        kept_lines(unflat(flat(gcode))) == kept_lines(gcode),
        flat(unflat(flat(gcode))) == flat(gcode),
{
    let parts = kept_lines(gcode);
    assert forall|i: int| 0 <= i < parts.len() implies (#[trigger] parts[i]).len() > 0 && fits_line(
        parts[i],
    ) && !parts[i].contains(';') by {
        lemma_kept(gcode, i);
    }
    lemma_unflat_join(parts);
    lemma_lines_join(parts);
    assert(lines(unflat(flat(gcode))) == parts);
    lemma_cut_fits(parts);
}

/// Commands as an editor would hold them: each on a line of its own, not
/// empty, without white space around it and without a semicolon in it.
pub open spec fn command_rows(parts: Seq<Seq<char>>) -> bool {
    forall|i: int|
        0 <= i < parts.len() ==> (#[trigger] parts[i]).len() > 0 && fits_line(parts[i])
            && !parts[i].contains(';')
}

/// A G-code text in the form that the file gives it: such lines, with a line
/// feed between any two; the empty text has none.
pub open spec fn canonical(gcode: Seq<char>) -> bool {
    exists|parts: Seq<Seq<char>>| #[trigger]
        command_rows(parts) && gcode == join(parts, seq!['\n'])
}

/// A G-code text in that form comes back from its flat form as it was, comments
/// among its lines included.
pub proof fn law_canonical_comes_back(gcode: Seq<char>)
    requires
        canonical(gcode),
    ensures
        unflat(flat(gcode)) == gcode,
{
    let parts = choose|parts: Seq<Seq<char>>| #[trigger]
        command_rows(parts) && gcode == join(parts, seq!['\n']);
    assert(all_fit(parts));
    lemma_lines_join(parts);
    lemma_cut_fits(parts);
    lemma_unflat_join(parts);
}

/// Whatever G-code text was written, what comes back from its flat form is in
/// that form, unless the text itself holds semicolons. From then on it does not
/// change any more.
pub proof fn law_comes_back_canonical(gcode: Seq<char>)
    requires
        !gcode.contains(';'),
    ensures
        canonical(unflat(flat(gcode))),
{
    let parts = kept_lines(gcode);
    assert forall|i: int| 0 <= i < parts.len() implies (#[trigger] parts[i]).len() > 0 && fits_line(
        parts[i],
    ) && !parts[i].contains(';') by {
        lemma_kept(gcode, i);
    }
    lemma_unflat_join(parts);
    assert(command_rows(parts));
}

/// The commands of a G-code text, told by its first line: a line that is blank
/// or begins with `#`, white space aside, gives none; any other gives itself,
/// without the white space around it. The other lines give theirs after it.
pub proof fn law_commands_line_by_line(line: Seq<char>, rest: Seq<char>)
    requires
        !line.contains('\n'),
    ensures
        commands(Seq::empty()).len() == 0,
        commands(line + seq!['\n'] + rest) == if trim(line).len() == 0 || trim(line)[0] == '#' {
            commands(rest)
        } else {
            seq![trim(line)] + commands(rest)
        },
        commands(line) == commands(line + seq!['\n']),
{
    reveal(Seq::filter);
    let pick = |l: Seq<char>| !starts_with(l, "#"@);
    let cut = trim(line);
    lemma_kept_line_by_line(line, rest);
    lemma_kept_line_by_line(line, Seq::empty());
    assert(line + seq!['\n'] + Seq::<char>::empty() == line + seq!['\n']);
    reveal_strlit("#");
    assert("#"@.len() == 1 && "#"@[0] == '#');
    if cut.len() > 0 {
        let one = seq![cut];
        assert(one.drop_last().filter(pick) == Seq::<Seq<char>>::empty());
        Seq::filter_distributes_over_add(one, kept_lines(rest), pick);
        if cut[0] == '#' {
            assert(cut.take(1) == "#"@);
            assert(one.filter(pick) == Seq::<Seq<char>>::empty());
            assert(one.filter(pick) + commands(rest) == commands(rest));
        } else {
            assert(cut.take(1)[0] != "#"@[0]);
            assert(one.filter(pick) == one);
        }
    }
    assert(kept_lines(Seq::<char>::empty()).filter(pick) == Seq::<Seq<char>>::empty());
}

/// The lines that are kept, told by the first line.
proof fn lemma_kept_line_by_line(line: Seq<char>, rest: Seq<char>)
    requires
        !line.contains('\n'),
    ensures
        kept_lines(Seq::<char>::empty()) == Seq::<Seq<char>>::empty(),
        kept_lines(line + seq!['\n'] + rest) == if trim(line).len() == 0 {
            kept_lines(rest)
        } else {
            seq![trim(line)] + kept_lines(rest)
        },
        kept_lines(line) == if trim(line).len() == 0 {
            Seq::<Seq<char>>::empty()
        } else {
            seq![trim(line)]
        },
{
    reveal(Seq::filter);
    let f = |l: Seq<char>| trim(l);
    let keep = |l: Seq<char>| l.len() > 0;
    lemma_lines_front(line, rest);
    lemma_trim_strip_cr(line);
    let one = seq![trim(line)];
    assert((seq![strip_cr(line)] + lines(rest)).map_values(f) == one + lines(rest).map_values(f));
    Seq::filter_distributes_over_add(one, lines(rest).map_values(f), keep);
    assert(one.drop_last().filter(keep) == Seq::<Seq<char>>::empty());
    if trim(line).len() == 0 {
        assert(one.filter(keep) == Seq::<Seq<char>>::empty());
        assert(one.filter(keep) + kept_lines(rest) == kept_lines(rest));
    } else {
        assert(one.filter(keep) == one);
    }
    assert(lines(Seq::<char>::empty()).map_values(f) == Seq::<Seq<char>>::empty());
    if line.len() > 0 {
        lemma_lines_single(line);
        assert(lines(line).map_values(f) == one);
    }
}

/// The flat form of a G-code text, told by its first line: a blank line leaves
/// no trace; any other stands first, without the white space around it, with a
/// semicolon before what follows.
pub proof fn law_flat_line_by_line(line: Seq<char>, rest: Seq<char>)
    requires
        !line.contains('\n'),
    ensures
        flat(Seq::empty()).len() == 0,
        flat(line + seq!['\n'] + rest) == if trim(line).len() == 0 {
            flat(rest)
        } else if flat(rest).len() == 0 {
            trim(line)
        } else {
            trim(line) + seq![';'] + flat(rest)
        },
        flat(line) == trim(line),
{
    lemma_kept_line_by_line(line, rest);
    let parts = kept_lines(rest);
    assert forall|i: int| 0 <= i < parts.len() implies (#[trigger] parts[i]).len() > 0 && fits_line(
        parts[i],
    ) by {
        lemma_kept(rest, i);
    }
    lemma_join_fits(parts);
    let all = seq![trim(line)] + parts;
    if parts.len() == 0 {
        assert(all == seq![trim(line)]);
    } else {
        assert(all.drop_first() == parts);
        assert(all[0] == trim(line));
    }
}

/// Reading the flat form puts a line feed where a semicolon stands, and changes
/// nothing else.
pub proof fn law_unflat(line: Seq<char>, i: int)
    requires
        0 <= i < line.len(),
    ensures
        unflat(line).len() == line.len(),
        unflat(line)[i] == if line[i] == ';' {
            '\n'
        } else {
            line[i]
        },
{
}

/// Every command of a macro is one line: not empty, without white space around
/// it, without a line feed in it, and no comment.
pub proof fn law_commands_are_lines(gcode: Seq<char>, i: int)
    requires
        0 <= i < commands(gcode).len(),
    ensures
        commands(gcode)[i].len() > 0,
        fits_line(commands(gcode)[i]),
        !starts_with(commands(gcode)[i], "#"@),
{
    let kept = kept_lines(gcode);
    let pick = |l: Seq<char>| !starts_with(l, "#"@);
    lemma_filter_from(kept, pick, i);
    let k = choose|k: int| 0 <= k < kept.len() && kept[k] == kept.filter(pick)[i];
    lemma_kept(gcode, k);
}

} // verus!

//! The settings of the application itself: the firmware directory, kept in a
//! small file next to the executable.

use vstd::prelude::*;
use crate::config::entry_line;
use crate::text::{
    find_char, is_blank, join_lines, lines, same_text, split_lines, split_once, strip_cr, texts,
    to_chars, trim, trimmed, unlines,
};
use crate::text_facts::{
    fits_line, lemma_keyed_line, lemma_lines_unlines, lemma_no_break, lemma_trim_clean,
    lemma_trim_strip_cr, no_break_upto, word_upto,
};

verus! {

/// The text of the settings file.
pub open spec fn settings_spec(firmware_dir: Seq<char>) -> Seq<char> {
    unlines(
        seq![
            "# Zeus Test Stand settings — auto-generated"@,
            entry_line("firmware_dir"@, firmware_dir),
        ],
    )
}

/// The firmware directory that a line of the settings file sets. A comment, a
/// line without `=`, another key and a blank value set none.
pub open spec fn dir_on_line(raw: Seq<char>) -> Option<Seq<char>> {
    let line = trim(raw);
    let eq = find_char(line, '=') as int;
    if line.len() == 0 || line[0] == '#' || eq >= line.len() {
        None
    } else if trim(line.take(eq)) == "firmware_dir"@ && trim(line.skip(eq + 1)).len() > 0 {
        Some(trim(line.skip(eq + 1)))
    } else {
        None
    }
}

/// The firmware directory after these lines: the last that one of them sets,
/// or the one before where none does.
pub open spec fn dir_after(dir: Seq<char>, ls: Seq<Seq<char>>) -> Seq<char>
    decreases ls.len(),
{
    if ls.len() == 0 {
        dir
    } else {
        match dir_on_line(ls.last()) {
            Some(d) => d,
            None => dir_after(dir, ls.drop_last()),
        }
    }
}

/// The text of the settings file.
pub fn settings_text(firmware_dir: &str) -> (r: String)
    ensures
        r@ == settings_spec(firmware_dir@),
{
    let mut out: Vec<String> = Vec::new();
    out.push("# Zeus Test Stand settings — auto-generated".to_string());
    let mut line: String = "firmware_dir".to_string();
    line.push('=');
    line.append(firmware_dir);
    assert(line@ == entry_line("firmware_dir"@, firmware_dir@));
    out.push(line);
    assert(texts(out@) == seq![
        "# Zeus Test Stand settings — auto-generated"@,
        entry_line("firmware_dir"@, firmware_dir@),
    ]);
    join_lines(&out)
}

/// The firmware directory that a line of the settings file sets.
fn parse_dir(raw: &str) -> (r: Option<String>)
    ensures
        match r {
            Some(d) => dir_on_line(raw@) == Some(d@),
            None => dir_on_line(raw@) is None,
        },
{
    let line: String = trimmed(raw);
    let v: Vec<char> = to_chars(line.as_str());
    if v.len() == 0 || v[0] == '#' {
        return None;
    }
    match split_once(line.as_str(), '=') {
        Some((key, value)) => {
            let key: String = trimmed(key.as_str());
            let value: String = trimmed(value.as_str());
            if same_text(key.as_str(), "firmware_dir") && !value.as_str().is_empty() {
                Some(value)
            } else {
                None
            }
        },
        None => None,
    }
}

/// The firmware directory after the settings file was read; `dir` is the one
/// before.
pub fn read_settings(dir: &str, text: &str) -> (r: String)
    ensures
        r@ == dir_after(dir@, lines(text@)),
{
    let all: Vec<String> = split_lines(text);
    let ghost ls = lines(text@);
    let mut out: String = dir.to_string();
    let mut i: usize = 0;
    while i < all.len()
        invariant
            i <= all.len(),
            texts(all@) == ls,
            out@ == dir_after(dir@, ls.take(i as int)),
        decreases all.len() - i,
    {
        assert(texts(all@)[i as int] == all[i as int]@);
        assert(ls.take(i + 1).drop_last() == ls.take(i as int));
        assert(ls.take(i + 1).last() == all[i as int]@);
        if let Some(d) = parse_dir(all[i].as_str()) {
            out = d;
        }
        i += 1;
    }
    assert(ls.take(i as int) == ls);
    out
}

/// The firmware directory is restored from the settings that were saved,
/// whatever it was before, without the white space around it. A blank one
/// leaves the one before in place.
pub proof fn law_settings_restore_dir(before: Seq<char>, dir: Seq<char>)
    requires
        !dir.contains('\n'),
    ensures
        dir_after(before, lines(settings_spec(dir))) == if is_blank(dir) {
            before
        } else {
            trim(dir)
        },
        dir.len() > 0 && fits_line(dir) ==> dir_after(before, lines(settings_spec(dir))) == dir,
{
    let comment = "# Zeus Test Stand settings — auto-generated"@;
    let key = "firmware_dir"@;
    let line = entry_line(key, dir);
    reveal_strlit("# Zeus Test Stand settings — auto-generated");
    reveal_strlit("firmware_dir");
    reveal_with_fuel(no_break_upto, 45);
    reveal_with_fuel(word_upto, 13);
    lemma_no_break(comment, comment.len());
    lemma_keyed_line(key, dir);
    let ls = seq![comment, line];
    assert(!ls[0].contains('\n'));
    assert(!ls[1].contains('\n'));
    lemma_lines_unlines(ls);
    let back = seq![comment, strip_cr(line)];
    assert(ls.map_values(|l: Seq<char>| strip_cr(l)) == back);
    lemma_trim_clean(comment);
    lemma_trim_strip_cr(line);
    if fits_line(dir) {
        lemma_trim_clean(dir);
    }
    reveal_with_fuel(dir_after, 3);
    assert(back.drop_last() == seq![comment]);
    assert(back.drop_last().drop_last().len() == 0);
}

} // verus!

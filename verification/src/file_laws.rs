//! What reading the configuration file and the settings file comes to, told by
//! their lines.

use vstd::prelude::*;
use crate::config::{
    bool_text, compile_lines, entry_line, line_view, loaded, lookup, macro_section, macro_sections,
    read_line, read_lines, runtime_lines, saved, setting_of, with_setting, ConfigTexts, ConfigView,
    LineView, NumberTable, Reader,
};
use crate::config_laws::{
    lemma_comments, lemma_entry, lemma_flags, lemma_head, lemma_keys, lemma_read_add,
    lemma_read_push,
};
use crate::decimal::{decimal, read_i32, signed_decimal};
use crate::firmware_laws::{lemma_all_plain, lemma_decimal_line, lemma_lines_begin, value_fits};
use crate::gcode::{flat, lemma_flat_fits, lemma_line_contains, MacroView};
use crate::num::{lemma_saturated_range, Num};
use crate::serial_laws::lemma_first_ink;
use crate::settings::{dir_after, dir_on_line, settings_spec};
use crate::text::{
    find_char, is_blank, is_white_space, lines, replace_char, starts_with, strip_cr, trim, trim_end,
    trim_start, unlines,
};
use crate::text_facts::{
    clean_ends, is_word, lemma_find_char, lemma_find_char_at, lemma_keyed_line, lemma_lines_front,
    lemma_no_break, lemma_trim_at_front, lemma_trim_clean, lemma_trim_contains,
    lemma_trim_end_behind, lemma_trim_result, lemma_trim_strip_cr, lemma_trim_trim_end,
    no_break_upto, word_upto,
};
use crate::text_laws::law_trim_start;

verus! {

/// A text that holds whole lines: it is empty, or ends with a line feed.
pub open spec fn whole_lines(s: Seq<char>) -> bool {
    s.len() > 0 ==> s.last() == '\n'
}

/// The lines of whole lines and of what follows them.
pub proof fn lemma_lines_add(a: Seq<char>, b: Seq<char>)
    requires
        whole_lines(a),
    ensures
        lines(a + b) == lines(a) + lines(b),
    decreases a.len(),
{
    if a.len() == 0 {
        assert(a + b == b);
        assert(lines(a) + lines(b) == lines(b));
    } else {
        lemma_find_char(a, '\n');
        let end = find_char(a, '\n') as int;
        assert(a[a.len() - 1] == '\n');
        let first = a.take(end);
        let rest = a.skip(end + 1);
        if first.contains('\n') {
            let k = choose|k: int| 0 <= k < first.len() && first[k] == '\n';
            assert(a[k] == '\n');
        }
        assert(a == first + seq!['\n'] + rest);
        if rest.len() > 0 {
            assert(rest.last() == a.last());
        }
        lemma_lines_add(rest, b);
        lemma_lines_front(first, rest);
        lemma_lines_front(first, rest + b);
        assert(a + b == first + seq!['\n'] + (rest + b));
        assert(seq![strip_cr(first)] + (lines(rest) + lines(b)) == seq![strip_cr(first)] + lines(
            rest,
        ) + lines(b));
    }
}

/// The reader before any line of a file.
spec fn start(c: ConfigView) -> Reader {
    Reader { config: ConfigView { macros: Seq::empty(), ..c }, open: None }
}

/// A single whole line, as the reader sees it.
proof fn lemma_read_one(
    r: Reader,
    line: Seq<char>,
    read: spec_fn(Seq<char>) -> Option<Num>,
)
    requires
        !line.contains('\n'),
    ensures
        read_lines(r, lines(line + seq!['\n']), read) == read_line(r, line_view(line), read),
{
    lemma_lines_front(line, Seq::empty());
    assert(line + seq!['\n'] + Seq::<char>::empty() == line + seq!['\n']);
    let ls = lines(line + seq!['\n']);
    assert(ls == Seq::<Seq<char>>::empty().push(strip_cr(line)));
    lemma_read_push(r, Seq::empty(), strip_cr(line), read);
    lemma_trim_strip_cr(line);
}

/// Lines in which no bracket opens begin and end no section.
proof fn lemma_no_heads(
    r: Reader,
    ls: Seq<Seq<char>>,
    read: spec_fn(Seq<char>) -> Option<Num>,
)
    requires
        forall|i: int| 0 <= i < ls.len() ==> !(#[trigger] ls[i]).contains('['),
    ensures
        ({
            let end = read_lines(r, ls, read);
            &&& end.open is Some <==> r.open is Some
            &&& end.config.macros == r.config.macros
            &&& r.open is Some ==> end.config == r.config && end.open->0.name == r.open->0.name
        }),
    decreases ls.len(),
{
    if ls.len() > 0 {
        let line = ls[0];
        assert(!ls[0].contains('['));
        if trim(line).len() > 0 && trim(line)[0] == '[' {
            assert(trim(line).contains('['));
            lemma_trim_contains(line, '[');
        }
        let rest = ls.drop_first();
        assert forall|i: int| 0 <= i < rest.len() implies !(#[trigger] rest[i]).contains('[') by {
            assert(rest[i] == ls[i + 1]);
        }
        lemma_no_heads(read_line(r, line_view(line), read), rest, read);
    }
}

proof fn lemma_lines_without(s: Seq<char>, c: char)
    requires
        !s.contains(c),
    ensures
        forall|i: int| 0 <= i < lines(s).len() ==> !(#[trigger] lines(s)[i]).contains(c),
{
    assert forall|i: int| 0 <= i < lines(s).len() implies !(#[trigger] lines(s)[i]).contains(c) by {
        if lines(s)[i].contains(c) {
            lemma_line_contains(s, i, c);
        }
    }
}

/// The keys of the file are these eleven, to the letter, and each names a
/// setting of its own.
pub proof fn law_keys(key: Seq<char>, other: Seq<char>)
    ensures
        setting_of(key) is Some <==> key == "steps_per_mm"@ || key == "max_feedrate"@ || key
            == "max_accel"@ || key == "motor_current"@ || key == "y_home_dir"@ || key
            == "y_min_pos"@ || key == "y_max_pos"@ || key == "y_min_endstop_override"@ || key
            == "y_min_endstop_pin"@ || key == "y_max_endstop_override"@ || key
            == "y_max_endstop_pin"@,
        setting_of(key) is Some && setting_of(key) == setting_of(other) ==> key == other,
{
}

/// A line with `=` parts at the first one: what stands before it is the key,
/// what stands behind it is the value, both without the white space around
/// them. Only a line that begins with `#` or a bracket is something else.
pub proof fn law_line_parts_at_equals(key: Seq<char>, value: Seq<char>)
    requires
        !key.contains('='),
        trim(key).len() > 0,
        trim(key)[0] != '#',
        trim(key)[0] != '[',
    ensures
        line_view(key + seq!['='] + value) == LineView::Entry(trim(key), trim(value)),
{
    let all = key + seq!['='] + value;
    let k = lemma_first_ink(key);
    let white = key.take(k);
    let rest = key.skip(k);
    lemma_trim_result(key);
    assert(trim_start(key) == rest);
    if rest.len() == 0 {
        assert(trim(key).len() == 0);
    }
    lemma_ink_first(key);
    assert(!is_white_space(rest[0]));
    let front = rest + seq!['='];
    assert(all == white + (front + value));
    assert((front + value)[0] == rest[0]);
    law_trim_start(white, front + value);
    assert(front.last() == '=');
    lemma_trim_end_behind(front, value);
    let line = front + trim_end(value);
    assert(trim(all) == line);
    let n = rest.len() as int;
    assert forall|j: int| 0 <= j < n implies line[j] != '=' by {
        assert(line[j] == key[k + j]);
    }
    lemma_find_char_at(line, '=', n);
    assert(line.take(n) == rest);
    assert(line.skip(n + 1) == trim_end(value));
    lemma_trim_trim_end(value);
    assert(trim(rest) == trim(key));
    lemma_trim_at_front(rest);
    assert(trim(key)[0] == rest[0]);
    assert(line[0] == rest[0]);
}

proof fn lemma_ink_first(s: Seq<char>)
    ensures
        trim_start(s).len() > 0 ==> !is_white_space(trim_start(s)[0]),
    decreases s.len(),
{
    if s.len() > 0 && is_white_space(s[0]) {
        lemma_ink_first(s.drop_first());
    }
}

/// An empty file sets nothing and leaves no macros.
pub proof fn law_load_nothing(c: ConfigView, read: spec_fn(Seq<char>) -> Option<Num>)
    ensures
        loaded(c, Seq::empty(), read) == (ConfigView { macros: Seq::empty(), ..c }),
{
}

/// A macro section adds one macro behind those before it, with its name, label
/// and G-code text: each without the white space around it, and the text with a
/// line feed for every semicolon. Nothing else changes.
pub proof fn law_load_macro_section(
    c: ConfigView,
    front: Seq<char>,
    name: Seq<char>,
    label: Seq<char>,
    gcode: Seq<char>,
    read: spec_fn(Seq<char>) -> Option<Num>,
)
    requires
        whole_lines(front),
        !name.contains('\n'),
        !label.contains('\n'),
        !gcode.contains('\n'),
    ensures
        ({
            let before = loaded(c, front, read);
            let text = front + ("[macro:"@ + name + "]"@ + seq!['\n']) + ("label"@ + seq!['=']
                + label + seq!['\n']) + ("gcode"@ + seq!['='] + gcode + seq!['\n']);
            loaded(c, text, read) == ConfigView {
                macros: before.macros.push(
                    MacroView {
                        name: trim(name),
                        label: trim(label),
                        gcode: replace_char(trim(gcode), ';', '\n'),
                    },
                ),
                ..before
            }
        }),
{
    let head = "[macro:"@ + name + "]"@;
    let l = "label"@ + seq!['='] + label;
    let g = "gcode"@ + seq!['='] + gcode;
    let a = front + (head + seq!['\n']);
    let b = a + (l + seq!['\n']);
    let text = b + (g + seq!['\n']);
    let r = start(c);
    lemma_keys();
    lemma_head(name);
    lemma_entry("label"@, label);
    lemma_entry("gcode"@, gcode);
    assert(a.last() == '\n');
    assert(b.last() == '\n');
    lemma_lines_add(front, head + seq!['\n']);
    lemma_lines_add(a, l + seq!['\n']);
    lemma_lines_add(b, g + seq!['\n']);
    let r0 = read_lines(r, lines(front), read);
    lemma_read_add(r, lines(front), lines(head + seq!['\n']), read);
    lemma_read_one(r0, head, read);
    let r1 = read_lines(r, lines(a), read);
    lemma_read_add(r, lines(a), lines(l + seq!['\n']), read);
    lemma_read_one(r1, l, read);
    let r2 = read_lines(r, lines(b), read);
    lemma_read_add(r, lines(b), lines(g + seq!['\n']), read);
    lemma_read_one(r2, g, read);
}

/// A macro section without entries gives a macro that is labelled with its name
/// and does nothing.
pub proof fn law_load_bare_macro(
    c: ConfigView,
    front: Seq<char>,
    name: Seq<char>,
    read: spec_fn(Seq<char>) -> Option<Num>,
)
    requires
        whole_lines(front),
        !name.contains('\n'),
    ensures
        ({
            let before = loaded(c, front, read);
            loaded(c, front + ("[macro:"@ + name + "]"@ + seq!['\n']), read) == ConfigView {
                macros: before.macros.push(
                    MacroView { name: trim(name), label: trim(name), gcode: Seq::empty() },
                ),
                ..before
            }
        }),
{
    let head = "[macro:"@ + name + "]"@;
    let r = start(c);
    lemma_head(name);
    lemma_lines_add(front, head + seq!['\n']);
    lemma_read_add(r, lines(front), lines(head + seq!['\n']), read);
    lemma_read_one(read_lines(r, lines(front), read), head, read);
}

/// What stands inside a macro section sets nothing outside it: whatever lines
/// follow the head, as long as no other section begins, there is one macro
/// more, under the name of the head, and every setting is as before.
pub proof fn law_section_keeps_settings(
    c: ConfigView,
    front: Seq<char>,
    name: Seq<char>,
    body: Seq<char>,
    read: spec_fn(Seq<char>) -> Option<Num>,
)
    requires
        whole_lines(front),
        !name.contains('\n'),
        !body.contains('['),
    ensures
        ({
            let before = loaded(c, front, read);
            let after = loaded(
                c,
                front + ("[macro:"@ + name + "]"@ + seq!['\n']) + body,
                read,
            );
            &&& after == (ConfigView { macros: after.macros, ..before })
            &&& after.macros.len() == before.macros.len() + 1
            &&& after.macros.drop_last() == before.macros
            &&& after.macros.last().name == trim(name)
        }),
{
    let head = "[macro:"@ + name + "]"@;
    let a = front + (head + seq!['\n']);
    let r = start(c);
    lemma_head(name);
    assert(a.last() == '\n');
    lemma_lines_add(front, head + seq!['\n']);
    lemma_lines_add(a, body);
    let r0 = read_lines(r, lines(front), read);
    lemma_read_add(r, lines(front), lines(head + seq!['\n']), read);
    lemma_read_one(r0, head, read);
    let r1 = read_lines(r, lines(a), read);
    lemma_read_add(r, lines(a), lines(body), read);
    lemma_lines_without(body, '[');
    lemma_no_heads(r1, lines(body), read);
    let end = read_lines(r1, lines(body), read);
    let before = loaded(c, front, read);
    assert(end.config == before);
    assert(before.macros.push(end.open->0).drop_last() == before.macros);
}

/// Lines without sections set the same whatever macros there are.
proof fn lemma_macros_apart(
    c: ConfigView,
    macros: Seq<MacroView>,
    ls: Seq<Seq<char>>,
    read: spec_fn(Seq<char>) -> Option<Num>,
)
    requires
        forall|i: int| 0 <= i < ls.len() ==> !(#[trigger] ls[i]).contains('['),
    ensures
        read_lines(Reader { config: ConfigView { macros, ..c }, open: None }, ls, read) == (Reader {
            config: ConfigView { macros, ..read_lines(start(c), ls, read).config },
            open: None,
        }),
    decreases ls.len(),
{
    if ls.len() > 0 {
        let line = ls[0];
        assert(!ls[0].contains('['));
        if trim(line).len() > 0 && trim(line)[0] == '[' {
            assert(trim(line).contains('['));
            lemma_trim_contains(line, '[');
        }
        let rest = ls.drop_first();
        assert forall|i: int| 0 <= i < rest.len() implies !(#[trigger] rest[i]).contains('[') by {
            assert(rest[i] == ls[i + 1]);
        }
        let next = read_line(start(c), line_view(line), read).config;
        lemma_macros_apart(next, macros, rest, read);
        assert(read_line(start(c), line_view(line), read) == start(next));
        assert(read_line(
            Reader { config: ConfigView { macros, ..c }, open: None },
            line_view(line),
            read,
        ) == (Reader { config: ConfigView { macros, ..next }, open: None }));
    }
}

/// Any other head ends a macro section: what follows sets settings again, as it
/// would in a file of its own, and the macros stay those before the head.
pub proof fn law_other_section_ends_macro(
    c: ConfigView,
    front: Seq<char>,
    name: Seq<char>,
    body: Seq<char>,
    read: spec_fn(Seq<char>) -> Option<Num>,
)
    requires
        whole_lines(front),
        !name.contains('\n'),
        name.len() == 0 || name[0] != 'm',
        !body.contains('['),
    ensures
        ({
            let before = loaded(c, front, read);
            loaded(c, front + (seq!['['] + name + seq![']', '\n']) + body, read) == ConfigView {
                macros: before.macros,
                ..loaded(before, body, read)
            }
        }),
{
    let head = seq!['['] + name + seq![']'];
    assert(seq!['['] + name + seq![']', '\n'] == head + seq!['\n']);
    let a = front + (head + seq!['\n']);
    let r = start(c);
    assert(a.last() == '\n');
    assert(head[0] == '[' && head.last() == ']');
    if head.contains('\n') {
        let k = choose|k: int| 0 <= k < head.len() && head[k] == '\n';
        assert(head[k] == name[k - 1]);
    }
    lemma_trim_clean(head);
    let inner = head.subrange(1, head.len() - 1);
    assert(inner == name);
    reveal_strlit("macro:");
    if starts_with(inner, "macro:"@) {
        assert(inner.take(6)[0] == 'm');
    }
    lemma_lines_add(front, head + seq!['\n']);
    lemma_lines_add(a, body);
    let r0 = read_lines(r, lines(front), read);
    lemma_read_add(r, lines(front), lines(head + seq!['\n']), read);
    lemma_read_one(r0, head, read);
    let before = loaded(c, front, read);
    let r1 = read_lines(r, lines(a), read);
    assert(r1 == (Reader { config: before, open: None }));
    lemma_read_add(r, lines(a), lines(body), read);
    lemma_lines_without(body, '[');
    lemma_macros_apart(before, before.macros, lines(body), read);
    lemma_no_heads(start(before), lines(body), read);
    assert(before == (ConfigView { macros: before.macros, ..before }));
}

/// The configuration with one line more that gives a value to a key, outside
/// any section.
proof fn lemma_load_entry(
    c: ConfigView,
    front: Seq<char>,
    key: Seq<char>,
    value: Seq<char>,
    read: spec_fn(Seq<char>) -> Option<Num>,
)
    requires
        whole_lines(front),
        !front.contains('['),
        is_word(key),
        !value.contains('\n'),
    ensures
        loaded(c, front + (key + seq!['='] + value + seq!['\n']), read) == match setting_of(key) {
            Some(s) => with_setting(loaded(c, front, read), s, trim(value), read),
            None => loaded(c, front, read),
        },
{
    let line = entry_line(key, value);
    let r = start(c);
    lemma_entry(key, value);
    lemma_lines_add(front, line + seq!['\n']);
    lemma_lines_without(front, '[');
    lemma_no_heads(r, lines(front), read);
    lemma_read_add(r, lines(front), lines(line + seq!['\n']), read);
    lemma_read_one(read_lines(r, lines(front), read), line, read);
}

/// Each key that holds a number sets its own setting to what its value reads
/// as, without the white space around it, and no other; a value that does not
/// read as a number sets nothing. The last line counts.
pub proof fn law_load_number_keys(
    c: ConfigView,
    front: Seq<char>,
    value: Seq<char>,
    read: spec_fn(Seq<char>) -> Option<Num>,
    n: Num,
)
    requires
        whole_lines(front),
        !front.contains('['),
        !value.contains('\n'),
        read(trim(value)) == Some(n),
    ensures
        ({
            let before = loaded(c, front, read);
            let tail = seq!['='] + value + seq!['\n'];
            &&& loaded(c, front + ("steps_per_mm"@ + tail), read) == ConfigView {
                steps_y: n,
                ..before
            }
            &&& loaded(c, front + ("max_feedrate"@ + tail), read) == ConfigView {
                max_feedrate_y: n,
                ..before
            }
            &&& loaded(c, front + ("max_accel"@ + tail), read) == ConfigView {
                max_accel_y: n,
                ..before
            }
            &&& loaded(c, front + ("motor_current"@ + tail), read) == ConfigView {
                motor_current_y: n,
                ..before
            }
            &&& loaded(c, front + ("y_min_pos"@ + tail), read) == ConfigView {
                y_min_pos: n,
                ..before
            }
            &&& loaded(c, front + ("y_max_pos"@ + tail), read) == ConfigView {
                y_max_pos: n,
                ..before
            }
        }),
{
    lemma_keys();
    lemma_tail("steps_per_mm"@, value);
    lemma_tail("max_feedrate"@, value);
    lemma_tail("max_accel"@, value);
    lemma_tail("motor_current"@, value);
    lemma_tail("y_min_pos"@, value);
    lemma_tail("y_max_pos"@, value);
    lemma_load_entry(c, front, "steps_per_mm"@, value, read);
    lemma_load_entry(c, front, "max_feedrate"@, value, read);
    lemma_load_entry(c, front, "max_accel"@, value, read);
    lemma_load_entry(c, front, "motor_current"@, value, read);
    lemma_load_entry(c, front, "y_min_pos"@, value, read);
    lemma_load_entry(c, front, "y_max_pos"@, value, read);
}

proof fn lemma_tail(key: Seq<char>, value: Seq<char>)
    ensures
        key + (seq!['='] + value + seq!['\n']) == key + seq!['='] + value + seq!['\n'],
{
}

/// A value that does not read as a number leaves the number before in place.
pub proof fn law_load_bad_number(
    c: ConfigView,
    front: Seq<char>,
    value: Seq<char>,
    read: spec_fn(Seq<char>) -> Option<Num>,
)
    requires
        whole_lines(front),
        !front.contains('['),
        !value.contains('\n'),
        read(trim(value)) is None,
    ensures
        ({
            let before = loaded(c, front, read);
            let tail = seq!['='] + value + seq!['\n'];
            &&& loaded(c, front + ("steps_per_mm"@ + tail), read) == before
            &&& loaded(c, front + ("max_feedrate"@ + tail), read) == before
            &&& loaded(c, front + ("max_accel"@ + tail), read) == before
            &&& loaded(c, front + ("motor_current"@ + tail), read) == before
            &&& loaded(c, front + ("y_min_pos"@ + tail), read) == before
            &&& loaded(c, front + ("y_max_pos"@ + tail), read) == before
        }),
{
    lemma_keys();
    lemma_tail("steps_per_mm"@, value);
    lemma_tail("max_feedrate"@, value);
    lemma_tail("max_accel"@, value);
    lemma_tail("motor_current"@, value);
    lemma_tail("y_min_pos"@, value);
    lemma_tail("y_max_pos"@, value);
    lemma_load_entry(c, front, "steps_per_mm"@, value, read);
    lemma_load_entry(c, front, "max_feedrate"@, value, read);
    lemma_load_entry(c, front, "max_accel"@, value, read);
    lemma_load_entry(c, front, "motor_current"@, value, read);
    lemma_load_entry(c, front, "y_min_pos"@, value, read);
    lemma_load_entry(c, front, "y_max_pos"@, value, read);
}

/// The other keys: the home direction is set where the value reads as an
/// integer, an override is on exactly where the value is `true`, and a pin is
/// the value without the white space around it.
pub proof fn law_load_other_keys(
    c: ConfigView,
    front: Seq<char>,
    value: Seq<char>,
    read: spec_fn(Seq<char>) -> Option<Num>,
)
    requires
        whole_lines(front),
        !front.contains('['),
        !value.contains('\n'),
    ensures
        ({
            let before = loaded(c, front, read);
            let tail = seq!['='] + value + seq!['\n'];
            let on = trim(value) == seq!['t', 'r', 'u', 'e'];
            &&& loaded(c, front + ("y_home_dir"@ + tail), read) == ConfigView {
                y_home_dir: match read_i32(trim(value)) {
                    Some(n) => n,
                    None => before.y_home_dir,
                },
                ..before
            }
            &&& loaded(c, front + ("y_min_endstop_override"@ + tail), read) == ConfigView {
                y_min_endstop_override: on,
                ..before
            }
            &&& loaded(c, front + ("y_max_endstop_override"@ + tail), read) == ConfigView {
                y_max_endstop_override: on,
                ..before
            }
            &&& loaded(c, front + ("y_min_endstop_pin"@ + tail), read) == ConfigView {
                y_min_endstop_pin: trim(value),
                ..before
            }
            &&& loaded(c, front + ("y_max_endstop_pin"@ + tail), read) == ConfigView {
                y_max_endstop_pin: trim(value),
                ..before
            }
        }),
{
    reveal_strlit("true");
    assert("true"@ == seq!['t', 'r', 'u', 'e']);
    lemma_keys();
    lemma_tail("y_home_dir"@, value);
    lemma_tail("y_min_endstop_override"@, value);
    lemma_tail("y_max_endstop_override"@, value);
    lemma_tail("y_min_endstop_pin"@, value);
    lemma_tail("y_max_endstop_pin"@, value);
    lemma_load_entry(c, front, "y_home_dir"@, value, read);
    lemma_load_entry(c, front, "y_min_endstop_override"@, value, read);
    lemma_load_entry(c, front, "y_max_endstop_override"@, value, read);
    lemma_load_entry(c, front, "y_min_endstop_pin"@, value, read);
    lemma_load_entry(c, front, "y_max_endstop_pin"@, value, read);
}

/// A key that is none of the eleven sets nothing.
pub proof fn law_load_unknown_key(
    c: ConfigView,
    front: Seq<char>,
    key: Seq<char>,
    value: Seq<char>,
    read: spec_fn(Seq<char>) -> Option<Num>,
)
    requires
        whole_lines(front),
        !front.contains('['),
        is_word(key),
        !value.contains('\n'),
        key != "steps_per_mm"@,
        key != "max_feedrate"@,
        key != "max_accel"@,
        key != "motor_current"@,
        key != "y_home_dir"@,
        key != "y_min_pos"@,
        key != "y_max_pos"@,
        key != "y_min_endstop_override"@,
        key != "y_min_endstop_pin"@,
        key != "y_max_endstop_override"@,
        key != "y_max_endstop_pin"@,
    ensures
        loaded(c, front + (key + seq!['='] + value + seq!['\n']), read) == loaded(c, front, read),
{
    lemma_load_entry(c, front, key, value, read);
}

/// A blank line, a comment and a line without `=` and brackets change nothing,
/// wherever they stand.
pub proof fn law_load_idle_line(
    c: ConfigView,
    front: Seq<char>,
    line: Seq<char>,
    back: Seq<char>,
    read: spec_fn(Seq<char>) -> Option<Num>,
)
    requires
        whole_lines(front),
        !line.contains('\n'),
        trim(line).len() == 0 || trim(line)[0] == '#' || (trim(line)[0] != '[' && !line.contains(
            '=',
        )),
    ensures
        loaded(c, front + (line + seq!['\n']) + back, read) == loaded(c, front + back, read),
{
    let r = start(c);
    let a = front + (line + seq!['\n']);
    assert(a.last() == '\n');
    lemma_lines_add(front, line + seq!['\n']);
    lemma_lines_add(a, back);
    lemma_lines_add(front, back);
    let r0 = read_lines(r, lines(front), read);
    lemma_read_add(r, lines(front), lines(line + seq!['\n']), read);
    lemma_read_one(r0, line, read);
    lemma_read_add(r, lines(a), lines(back), read);
    lemma_read_add(r, lines(front), lines(back), read);
    lemma_find_char(trim(line), '=');
    let eq = find_char(trim(line), '=') as int;
    if eq < trim(line).len() && !line.contains('=') {
        assert(trim(line)[eq] == '=');
        lemma_trim_contains(line, '=');
    }
    assert(line_view(line) is Nothing);
}

/// A table reads a text as the number beside its first entry for it; a text
/// that it does not hold does not read as a number.
pub proof fn law_table_reads_first_entry(t: NumberTable, text: Seq<char>, i: int)
    requires
        0 <= i < t.entries@.len(),
        t.entries@[i].0@ == text,
        forall|j: int| 0 <= j < i ==> (#[trigger] t.entries@[j]).0@ != text,
    ensures
        (t.reading())(text) == Some(t.entries@[i].1),
{
    lemma_lookup_from(t.entries@, 0, text, i);
}

/// A text that no entry of a table holds does not read as a number.
pub proof fn law_table_reads_no_other_text(t: NumberTable, text: Seq<char>)
    requires
        forall|j: int| 0 <= j < t.entries@.len() ==> (#[trigger] t.entries@[j]).0@ != text,
    ensures
        (t.reading())(text) is None,
{
    lemma_lookup_none(t.entries@, 0, text);
}

proof fn lemma_lookup_from(entries: Seq<(String, Num)>, from: int, text: Seq<char>, i: int)
    requires
        0 <= from <= i < entries.len(),
        entries[i].0@ == text,
        forall|j: int| from <= j < i ==> (#[trigger] entries[j]).0@ != text,
    ensures
        lookup(entries, from, text) == Some(entries[i].1),
    decreases i - from,
{
    if from < i {
        assert(entries[from].0@ != text);
        lemma_lookup_from(entries, from + 1, text, i);
    }
}

proof fn lemma_lookup_none(entries: Seq<(String, Num)>, from: int, text: Seq<char>)
    requires
        0 <= from <= entries.len(),
        forall|j: int| 0 <= j < entries.len() ==> (#[trigger] entries[j]).0@ != text,
    ensures
        lookup(entries, from, text) is None,
    decreases entries.len() - from,
{
    if from < entries.len() {
        assert(entries[from].0@ != text);
        lemma_lookup_none(entries, from + 1, text);
    }
}

/// The settings file: a line that gives `firmware_dir` a value sets the
/// directory to it, without the white space around it, whatever stood there
/// before; a blank value leaves it.
pub proof fn law_dir_line(before: Seq<char>, front: Seq<char>, value: Seq<char>)
    requires
        whole_lines(front),
        !value.contains('\n'),
    ensures
        dir_after(
            before,
            lines(front + ("firmware_dir"@ + seq!['='] + value + seq!['\n'])),
        ) == if is_blank(value) {
            dir_after(before, lines(front))
        } else {
            trim(value)
        },
{
    let key = "firmware_dir"@;
    let line = key + seq!['='] + value;
    reveal_strlit("firmware_dir");
    reveal_with_fuel(word_upto, 13);
    lemma_keyed_line(key, value);
    lemma_lines_add(front, line + seq!['\n']);
    lemma_lines_front(line, Seq::empty());
    assert(line + seq!['\n'] + Seq::<char>::empty() == line + seq!['\n']);
    let ls = lines(front);
    assert(ls + lines(line + seq!['\n']) == ls.push(strip_cr(line)));
    assert(ls.push(strip_cr(line)).drop_last() == ls);
    lemma_trim_strip_cr(line);
}

/// A line of the settings file that does not begin with `firmware_dir`, white
/// space aside, sets nothing.
pub proof fn law_dir_other_line(before: Seq<char>, front: Seq<char>, line: Seq<char>)
    requires
        whole_lines(front),
        !line.contains('\n'),
        !starts_with(trim(line), "firmware_dir"@),
    ensures
        dir_after(before, lines(front + (line + seq!['\n']))) == dir_after(before, lines(front)),
{
    lemma_lines_add(front, line + seq!['\n']);
    lemma_lines_front(line, Seq::empty());
    assert(line + seq!['\n'] + Seq::<char>::empty() == line + seq!['\n']);
    let ls = lines(front);
    assert(ls + lines(line + seq!['\n']) == ls.push(strip_cr(line)));
    assert(ls.push(strip_cr(line)).drop_last() == ls);
    lemma_trim_strip_cr(line);
    let cut = trim(line);
    lemma_trim_result(line);
    lemma_find_char(cut, '=');
    let eq = find_char(cut, '=') as int;
    if dir_on_line(line) is Some {
        let key = cut.take(eq);
        assert(trim(key) == "firmware_dir"@);
        reveal_strlit("firmware_dir");
        lemma_trim_front(cut, key);
    }
}

/// Another key of the settings file, however it begins, sets nothing.
pub proof fn law_dir_other_key(
    before: Seq<char>,
    front: Seq<char>,
    key: Seq<char>,
    value: Seq<char>,
)
    requires
        whole_lines(front),
        is_word(key),
        key != "firmware_dir"@,
        !value.contains('\n'),
    ensures
        dir_after(before, lines(front + (key + seq!['='] + value + seq!['\n']))) == dir_after(
            before,
            lines(front),
        ),
{
    let line = key + seq!['='] + value;
    lemma_keyed_line(key, value);
    lemma_lines_add(front, line + seq!['\n']);
    lemma_lines_front(line, Seq::empty());
    assert(line + seq!['\n'] + Seq::<char>::empty() == line + seq!['\n']);
    let ls = lines(front);
    assert(ls + lines(line + seq!['\n']) == ls.push(strip_cr(line)));
    assert(ls.push(strip_cr(line)).drop_last() == ls);
    lemma_trim_strip_cr(line);
}

/// The settings file holds the firmware directory to the letter, behind its
/// key, on its second line; the first line is a comment.
pub proof fn law_settings_lines(dir: Seq<char>)
    requires
        value_fits(dir),
    ensures
        lines(settings_spec(dir)).len() == 2,
        lines(settings_spec(dir))[0][0] == '#',
        lines(settings_spec(dir))[1] == "firmware_dir="@ + dir,
{
    let comment = "# Zeus Test Stand settings — auto-generated"@;
    let key = "firmware_dir"@;
    reveal_strlit("# Zeus Test Stand settings — auto-generated");
    reveal_strlit("firmware_dir");
    reveal_strlit("firmware_dir=");
    reveal_with_fuel(no_break_upto, 45);
    reveal_with_fuel(word_upto, 13);
    lemma_no_break(comment, comment.len());
    lemma_entry_fits(key, dir);
    let all = seq![comment, entry_line(key, dir)];
    assert(value_fits(all[0]) && value_fits(all[1]));
    lemma_lines_of(all);
    assert("firmware_dir="@ == key + seq!['=']);
}

/// What a run of a trimmed text trims to stands at its front.
proof fn lemma_trim_front(cut: Seq<char>, key: Seq<char>)
    requires
        clean_ends(cut),
        key.len() <= cut.len(),
        key == cut.take(key.len() as int),
    ensures
        starts_with(cut, trim(key)),
{
    if key.len() > 0 {
        assert(key[0] == cut[0]);
        lemma_trim_at_front(key);
        assert(cut.take(trim(key).len() as int) == trim(key));
    } else {
        assert(trim(key).len() == 0);
        assert(cut.take(0) == trim(key));
    }
}

/// The lines of a row of lines that keep to themselves.
proof fn lemma_lines_of(all: Seq<Seq<char>>)
    requires
        forall|i: int| 0 <= i < all.len() ==> value_fits(#[trigger] all[i]),
    ensures
        lines(unlines(all)) == all,
{
    let none = Seq::<Seq<char>>::empty();
    lemma_lines_begin(all, none);
    assert(all + none == all);
    assert(lines(unlines(none)).len() == 0);
    assert(all + lines(unlines(none)) == all);
}

proof fn lemma_entry_fits(key: Seq<char>, value: Seq<char>)
    requires
        is_word(key),
        value_fits(value),
    ensures
        value_fits(entry_line(key, value)),
{
    lemma_entry(key, value);
    let line = entry_line(key, value);
    if value.len() > 0 {
        assert(line.last() == value.last());
    } else {
        assert(line.last() == '=');
    }
}

/// The texts of a configuration and of its numbers keep to their lines.
pub open spec fn file_fits(c: ConfigView, t: ConfigTexts) -> bool {
    &&& value_fits(t.steps_y@) && value_fits(t.max_feedrate_y@) && value_fits(t.max_accel_y@)
    &&& value_fits(t.y_min_pos@) && value_fits(t.y_max_pos@)
    &&& value_fits(c.y_min_endstop_pin) && value_fits(c.y_max_endstop_pin)
    &&& forall|i: int|
        0 <= i < c.macros.len() ==> !(#[trigger] c.macros[i]).name.contains('\n') && value_fits(
            c.macros[i].label,
        )
}

/// The runtime lines of the file keep to themselves.
proof fn lemma_runtime_fits(c: ConfigView, t: ConfigTexts)
    requires
        file_fits(c, t),
    ensures
        forall|i: int|
            0 <= i < runtime_lines(c, t).len() ==> value_fits(#[trigger] runtime_lines(c, t)[i]),
{
    let n = c.motor_current_y.saturated_u32();
    lemma_keys();
    lemma_comments();
    lemma_comment_ends();
    lemma_saturated_range(c.motor_current_y);
    lemma_decimal_line(n);
    lemma_entry_fits("steps_per_mm"@, t.steps_y@);
    lemma_entry_fits("max_feedrate"@, t.max_feedrate_y@);
    lemma_entry_fits("max_accel"@, t.max_accel_y@);
    lemma_entry_fits("motor_current"@, decimal(n as nat));
}

/// The compile-time lines of the file keep to themselves.
proof fn lemma_compile_fits(c: ConfigView, t: ConfigTexts)
    requires
        file_fits(c, t),
    ensures
        forall|i: int|
            0 <= i < compile_lines(c, t).len() ==> value_fits(#[trigger] compile_lines(c, t)[i]),
{
    lemma_keys();
    lemma_comments();
    lemma_comment_ends();
    lemma_flags(c.y_min_endstop_override);
    lemma_flags(c.y_max_endstop_override);
    lemma_decimal_line(c.y_home_dir as int);
    lemma_entry_fits("y_home_dir"@, signed_decimal(c.y_home_dir as int));
    lemma_entry_fits("y_min_pos"@, t.y_min_pos@);
    lemma_entry_fits("y_max_pos"@, t.y_max_pos@);
    lemma_entry_fits("y_min_endstop_override"@, bool_text(c.y_min_endstop_override));
    lemma_entry_fits("y_min_endstop_pin"@, c.y_min_endstop_pin);
    lemma_entry_fits("y_max_endstop_override"@, bool_text(c.y_max_endstop_override));
    lemma_entry_fits("y_max_endstop_pin"@, c.y_max_endstop_pin);
}

proof fn lemma_comment_ends()
    ensures
        value_fits("# Zeus Test Stand Configuration"@),
        value_fits("# Managed by Stepper Control app"@),
        value_fits(""@),
        value_fits("# Runtime settings (applied via G-code; also stored in EEPROM)"@),
        value_fits("# Compile-time settings (require Compile & Flash)"@),
{
    lemma_comments();
    reveal_strlit("# Zeus Test Stand Configuration");
    reveal_strlit("# Managed by Stepper Control app");
    reveal_strlit("");
    reveal_strlit("# Runtime settings (applied via G-code; also stored in EEPROM)");
    reveal_strlit("# Compile-time settings (require Compile & Flash)");
}

/// The macro sections keep to themselves, and the section of each macro stands
/// in its place.
proof fn lemma_sections(ms: Seq<MacroView>)
    requires
        forall|i: int|
            0 <= i < ms.len() ==> !(#[trigger] ms[i]).name.contains('\n') && value_fits(
                ms[i].label,
            ),
    ensures
        macro_sections(ms).len() == 4 * ms.len(),
        forall|i: int| 0 <= i < macro_sections(ms).len() ==> value_fits(
            #[trigger] macro_sections(ms)[i],
        ),
        forall|i: int, k: int|
            #![trigger macro_sections(ms)[4 * i + k], macro_section(ms[i])]
            0 <= i < ms.len() && 0 <= k < 4 ==> macro_sections(ms)[4 * i + k] == macro_section(
                ms[i],
            )[k],
    decreases ms.len(),
{
    if ms.len() > 0 {
        let head = ms.drop_last();
        let m = ms.last();
        let n = head.len() as int;
        assert(m == ms[n]);
        assert forall|i: int| 0 <= i < head.len() implies !(#[trigger] head[i]).name.contains(
            '\n',
        ) && value_fits(head[i].label) by {
            assert(head[i] == ms[i]);
        }
        lemma_sections(head);
        let section = macro_section(m);
        lemma_keys();
        lemma_comment_ends();
        lemma_head(m.name);
        reveal_strlit("]");
        assert(section[1].last() == ']');
        lemma_flat_fits(m.gcode);
        lemma_entry_fits("label"@, m.label);
        lemma_entry_fits("gcode"@, flat(m.gcode));
        let front = macro_sections(head);
        assert forall|i: int| 0 <= i < section.len() implies value_fits(#[trigger] section[i]) by {
        }
        lemma_all_plain(front, section);
        let all = macro_sections(ms);
        assert(all == front + section);
        assert forall|i: int, k: int|
            #![trigger macro_sections(ms)[4 * i + k], macro_section(ms[i])]
            0 <= i < ms.len() && 0 <= k < 4 implies macro_sections(ms)[4 * i + k] == macro_section(
            ms[i],
        )[k] by {
            if i < n {
                assert(ms[i] == head[i]);
                assert(front[4 * i + k] == macro_section(head[i])[k]);
                assert(all[4 * i + k] == front[4 * i + k]);
            } else {
                assert(all[4 * i + k] == section[k]);
            }
        }
    }
}

/// The file line by line: each setting stands behind its own key, on its own
/// line, in this order; the four lines of each macro follow, in the order of
/// the macros.
pub proof fn law_saved_lines(c: ConfigView, t: ConfigTexts, i: int)
    requires
        file_fits(c, t),
    ensures
        ({
            let ls = lines(saved(c, t));
            let at = 17 + 4 * i;
            &&& ls.len() == 17 + 4 * c.macros.len()
            &&& ls[4] == "steps_per_mm="@ + t.steps_y@
            &&& ls[5] == "max_feedrate="@ + t.max_feedrate_y@
            &&& ls[6] == "max_accel="@ + t.max_accel_y@
            &&& ls[7] == "motor_current="@ + decimal(c.motor_current_y.saturated_u32() as nat)
            &&& ls[10] == "y_home_dir="@ + signed_decimal(c.y_home_dir as int)
            &&& ls[11] == "y_min_pos="@ + t.y_min_pos@
            &&& ls[12] == "y_max_pos="@ + t.y_max_pos@
            &&& ls[13] == "y_min_endstop_override="@ + (if c.y_min_endstop_override {
                seq!['t', 'r', 'u', 'e']
            } else {
                seq!['f', 'a', 'l', 's', 'e']
            })
            &&& ls[14] == "y_min_endstop_pin="@ + c.y_min_endstop_pin
            &&& ls[15] == "y_max_endstop_override="@ + (if c.y_max_endstop_override {
                seq!['t', 'r', 'u', 'e']
            } else {
                seq!['f', 'a', 'l', 's', 'e']
            })
            &&& ls[16] == "y_max_endstop_pin="@ + c.y_max_endstop_pin
            &&& 0 <= i < c.macros.len() ==> {
                &&& ls[at].len() == 0
                &&& ls[at + 1] == "[macro:"@ + c.macros[i].name + "]"@
                &&& ls[at + 2] == "label="@ + c.macros[i].label
                &&& ls[at + 3] == "gcode="@ + flat(c.macros[i].gcode)
            }
        }),
{
    let a = runtime_lines(c, t);
    let b = compile_lines(c, t);
    let s = macro_sections(c.macros);
    let all = a + b + s;
    lemma_runtime_fits(c, t);
    lemma_compile_fits(c, t);
    lemma_sections(c.macros);
    lemma_all_plain(a, b);
    lemma_all_plain(a + b, s);
    lemma_lines_of(all);
    let ls = lines(saved(c, t));
    assert(ls == all);
    assert(ls[4] == a[4] && ls[5] == a[5] && ls[6] == a[6] && ls[7] == a[7]);
    assert(ls[10] == b[2] && ls[11] == b[3] && ls[12] == b[4] && ls[13] == b[5]);
    assert(ls[14] == b[6] && ls[15] == b[7] && ls[16] == b[8]);
    lemma_key_heads();
    reveal_strlit("");
    if 0 <= i < c.macros.len() {
        let section = macro_section(c.macros[i]);
        let at = 4 * i;
        assert(s[4 * i + 0] == section[0]);
        assert(s[4 * i + 1] == section[1]);
        assert(s[4 * i + 2] == section[2]);
        assert(s[4 * i + 3] == section[3]);
        assert(ls[17 + at] == s[at] && ls[17 + at + 1] == s[at + 1]);
        assert(ls[17 + at + 2] == s[at + 2] && ls[17 + at + 3] == s[at + 3]);
    }
}

proof fn lemma_key_heads()
    ensures
        "steps_per_mm="@ == "steps_per_mm"@ + seq!['='],
        "max_feedrate="@ == "max_feedrate"@ + seq!['='],
        "max_accel="@ == "max_accel"@ + seq!['='],
        "motor_current="@ == "motor_current"@ + seq!['='],
        "y_home_dir="@ == "y_home_dir"@ + seq!['='],
        "y_min_pos="@ == "y_min_pos"@ + seq!['='],
        "y_max_pos="@ == "y_max_pos"@ + seq!['='],
        "y_min_endstop_override="@ == "y_min_endstop_override"@ + seq!['='],
        "y_min_endstop_pin="@ == "y_min_endstop_pin"@ + seq!['='],
        "y_max_endstop_override="@ == "y_max_endstop_override"@ + seq!['='],
        "y_max_endstop_pin="@ == "y_max_endstop_pin"@ + seq!['='],
        "label="@ == "label"@ + seq!['='],
        "gcode="@ == "gcode"@ + seq!['='],
        "true"@ == seq!['t', 'r', 'u', 'e'],
        "false"@ == seq!['f', 'a', 'l', 's', 'e'],
{
    reveal_strlit("steps_per_mm=");
    reveal_strlit("steps_per_mm");
    reveal_strlit("max_feedrate=");
    reveal_strlit("max_feedrate");
    reveal_strlit("max_accel=");
    reveal_strlit("max_accel");
    reveal_strlit("motor_current=");
    reveal_strlit("motor_current");
    reveal_strlit("y_home_dir=");
    reveal_strlit("y_home_dir");
    reveal_strlit("y_min_pos=");
    reveal_strlit("y_min_pos");
    reveal_strlit("y_max_pos=");
    reveal_strlit("y_max_pos");
    reveal_strlit("y_min_endstop_override=");
    reveal_strlit("y_min_endstop_override");
    reveal_strlit("y_min_endstop_pin=");
    reveal_strlit("y_min_endstop_pin");
    reveal_strlit("y_max_endstop_override=");
    reveal_strlit("y_max_endstop_override");
    reveal_strlit("y_max_endstop_pin=");
    reveal_strlit("y_max_endstop_pin");
    reveal_strlit("label=");
    reveal_strlit("label");
    reveal_strlit("gcode=");
    reveal_strlit("gcode");
    reveal_strlit("true");
    reveal_strlit("false");
}

} // verus!

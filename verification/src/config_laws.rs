//! What saving and loading the configuration file have to do with each other.

use vstd::prelude::*;
use crate::config::{
    bool_text, compile_lines, entry_line, line_view, loaded, macro_section, macro_sections,
    number_on, numbers_on, open_after, read_line, read_lines, runtime_lines, saved, setting_of,
    with_macro, with_setting, ConfigTexts, ConfigView, LineView, Reader, Setting,
};
use crate::decimal::{decimal, law_i32_reads_back, lemma_decimal_plain, signed_decimal};
use crate::gcode::{
    canonical, commands, flat, law_canonical_comes_back, law_comes_back_canonical,
    law_flat_keeps_commands, lemma_flat_fits, unflat, MacroView,
};
use crate::num::{lemma_saturated_range, Num};
use crate::text::{find_char, lines, starts_with, strip_cr, trim};
use crate::text_facts::{
    fits_line, is_word, lemma_find_char, lemma_keyed_line, lemma_lines_no_break,
    lemma_lines_unlines, lemma_no_break, lemma_trim_clean, lemma_trim_contains, lemma_trim_result,
    lemma_trim_strip_cr, no_break_upto, word_upto,
};

verus! {

/// The macro that is read back from the section of `m`: its name and label
/// without the white space around them, and the G-code text that its flat form
/// stands for.
pub open spec fn reread(m: MacroView) -> MacroView {
    MacroView { name: trim(m.name), label: trim(m.label), gcode: unflat(flat(m.gcode)) }
}

/// What a text reads as, or `n` where it does not read as a number.
pub open spec fn read_or(
    read: spec_fn(Seq<char>) -> Option<Num>,
    text: Seq<char>,
    n: Num,
) -> Num {
    match read(text) {
        Some(m) => m,
        None => n,
    }
}

/// The texts of a configuration that keep to a line of the file: none holds a
/// line feed.
pub open spec fn unbroken(c: ConfigView) -> bool {
    &&& !c.y_min_endstop_pin.contains('\n')
    &&& !c.y_max_endstop_pin.contains('\n')
    &&& forall|i: int|
        0 <= i < c.macros.len() ==> !(#[trigger] c.macros[i]).name.contains('\n')
            && !c.macros[i].label.contains('\n')
}

/// No number text holds a line feed.
pub open spec fn unbroken_texts(t: ConfigTexts) -> bool {
    &&& !t.steps_y@.contains('\n')
    &&& !t.max_feedrate_y@.contains('\n')
    &&& !t.max_accel_y@.contains('\n')
    &&& !t.y_min_pos@.contains('\n')
    &&& !t.y_max_pos@.contains('\n')
}

/// The configuration that is read back from the file that holds `c`, where
/// `before` was in place: whatever the file says of a setting is taken in
/// without the white space around it, and a number text that does not read as a
/// number leaves the number before in place.
pub open spec fn restored(
    before: ConfigView,
    c: ConfigView,
    t: ConfigTexts,
    read: spec_fn(Seq<char>) -> Option<Num>,
) -> ConfigView {
    ConfigView {
        steps_y: read_or(read, trim(t.steps_y@), before.steps_y),
        max_feedrate_y: read_or(read, trim(t.max_feedrate_y@), before.max_feedrate_y),
        max_accel_y: read_or(read, trim(t.max_accel_y@), before.max_accel_y),
        motor_current_y: read_or(
            read,
            decimal(c.motor_current_y.saturated_u32() as nat),
            before.motor_current_y,
        ),
        y_home_dir: c.y_home_dir,
        y_min_pos: read_or(read, trim(t.y_min_pos@), before.y_min_pos),
        y_max_pos: read_or(read, trim(t.y_max_pos@), before.y_max_pos),
        y_min_endstop_override: c.y_min_endstop_override,
        y_min_endstop_pin: trim(c.y_min_endstop_pin),
        y_max_endstop_override: c.y_max_endstop_override,
        y_max_endstop_pin: trim(c.y_max_endstop_pin),
        macros: c.macros.map_values(|m: MacroView| reread(m)),
    }
}

/// The texts of a configuration that stand in the file as they are: each fits
/// a line.
pub open spec fn writable(c: ConfigView) -> bool {
    &&& fits_line(c.y_min_endstop_pin)
    &&& fits_line(c.y_max_endstop_pin)
    &&& forall|i: int|
        0 <= i < c.macros.len() ==> fits_line((#[trigger] c.macros[i]).name) && fits_line(
            c.macros[i].label,
        )
}

/// Every macro has its G-code text in the form that the file gives it.
pub open spec fn canonical_macros(c: ConfigView) -> bool {
    forall|i: int| 0 <= i < c.macros.len() ==> canonical((#[trigger] c.macros[i]).gcode)
}

/// The number texts hold no line feed, and each reads as the number of the
/// configuration.
pub open spec fn faithful(
    t: ConfigTexts,
    c: ConfigView,
    read: spec_fn(Seq<char>) -> Option<Num>,
) -> bool {
    &&& unbroken_texts(t)
    &&& read(trim(t.steps_y@)) == Some(c.steps_y)
    &&& read(trim(t.max_feedrate_y@)) == Some(c.max_feedrate_y)
    &&& read(trim(t.max_accel_y@)) == Some(c.max_accel_y)
    &&& read(trim(t.y_min_pos@)) == Some(c.y_min_pos)
    &&& read(trim(t.y_max_pos@)) == Some(c.y_max_pos)
}

/// A line that gives a value to a key reads as that key and that value, without
/// the white space around it.
pub proof fn lemma_entry(key: Seq<char>, value: Seq<char>)
    requires
        is_word(key),
        !value.contains('\n'),
    ensures
        line_view(entry_line(key, value)) == LineView::Entry(key, trim(value)),
        !entry_line(key, value).contains('\n'),
{
    lemma_keyed_line(key, value);
}

/// A carriage return at the end of a line does not matter.
proof fn lemma_read_strip_cr(
    r: Reader,
    ls: Seq<Seq<char>>,
    read: spec_fn(Seq<char>) -> Option<Num>,
)
    ensures
        read_lines(r, ls.map_values(|l: Seq<char>| strip_cr(l)), read) == read_lines(r, ls, read),
    decreases ls.len(),
{
    let f = |l: Seq<char>| strip_cr(l);
    let cut = ls.map_values(f);
    if ls.len() > 0 {
        assert(cut[0] == strip_cr(ls[0]));
        lemma_trim_strip_cr(ls[0]);
        assert(cut.drop_first() == ls.drop_first().map_values(f));
        lemma_read_strip_cr(read_line(r, line_view(ls[0]), read), ls.drop_first(), read);
    }
}

/// The keys of the settings are words, and each names its setting.
pub proof fn lemma_keys()
    ensures
        is_word("steps_per_mm"@) && setting_of("steps_per_mm"@) == Some(Setting::StepsPerMm),
        is_word("max_feedrate"@) && setting_of("max_feedrate"@) == Some(Setting::MaxFeedrate),
        is_word("max_accel"@) && setting_of("max_accel"@) == Some(Setting::MaxAccel),
        is_word("motor_current"@) && setting_of("motor_current"@) == Some(Setting::MotorCurrent),
        is_word("y_home_dir"@) && setting_of("y_home_dir"@) == Some(Setting::YHomeDir),
        is_word("y_min_pos"@) && setting_of("y_min_pos"@) == Some(Setting::YMinPos),
        is_word("y_max_pos"@) && setting_of("y_max_pos"@) == Some(Setting::YMaxPos),
        is_word("y_min_endstop_override"@) && setting_of("y_min_endstop_override"@) == Some(
            Setting::YMinEndstopOverride,
        ),
        is_word("y_min_endstop_pin"@) && setting_of("y_min_endstop_pin"@) == Some(
            Setting::YMinEndstopPin,
        ),
        is_word("y_max_endstop_override"@) && setting_of("y_max_endstop_override"@) == Some(
            Setting::YMaxEndstopOverride,
        ),
        is_word("y_max_endstop_pin"@) && setting_of("y_max_endstop_pin"@) == Some(
            Setting::YMaxEndstopPin,
        ),
        is_word("label"@),
        is_word("gcode"@),
        "label"@ != "gcode"@,
{
    reveal_strlit("steps_per_mm");
    reveal_strlit("max_feedrate");
    reveal_strlit("max_accel");
    reveal_strlit("motor_current");
    reveal_strlit("y_home_dir");
    reveal_strlit("y_min_pos");
    reveal_strlit("y_max_pos");
    reveal_strlit("y_min_endstop_override");
    reveal_strlit("y_min_endstop_pin");
    reveal_strlit("y_max_endstop_override");
    reveal_strlit("y_max_endstop_pin");
    reveal_strlit("label");
    reveal_strlit("gcode");
    reveal_with_fuel(word_upto, 23);
    // Keys of one length differ in a character.
    assert("steps_per_mm"@[0] != "max_feedrate"@[0]);
    assert("max_accel"@[0] != "y_min_pos"@[0]);
    assert("y_min_pos"@[3] != "y_max_pos"@[3]);
    assert("max_accel"@[0] != "y_max_pos"@[0]);
    assert("y_min_endstop_override"@[3] != "y_max_endstop_override"@[3]);
    assert("y_min_endstop_pin"@[3] != "y_max_endstop_pin"@[3]);
    assert("label"@[0] != "gcode"@[0]);
}

/// The comments of the file read as nothing.
pub proof fn lemma_comments()
    ensures
        line_view("# Zeus Test Stand Configuration"@) is Nothing,
        !"# Zeus Test Stand Configuration"@.contains('\n'),
        line_view("# Managed by Stepper Control app"@) is Nothing,
        !"# Managed by Stepper Control app"@.contains('\n'),
        line_view(""@) is Nothing,
        !""@.contains('\n'),
        line_view("# Runtime settings (applied via G-code; also stored in EEPROM)"@) is Nothing,
        !"# Runtime settings (applied via G-code; also stored in EEPROM)"@.contains('\n'),
        line_view("# Compile-time settings (require Compile & Flash)"@) is Nothing,
        !"# Compile-time settings (require Compile & Flash)"@.contains('\n'),
{
    let a = "# Zeus Test Stand Configuration"@;
    let b = "# Managed by Stepper Control app"@;
    let c = "# Runtime settings (applied via G-code; also stored in EEPROM)"@;
    let d = "# Compile-time settings (require Compile & Flash)"@;
    reveal_strlit("# Zeus Test Stand Configuration");
    reveal_strlit("# Managed by Stepper Control app");
    reveal_strlit("");
    reveal_strlit("# Runtime settings (applied via G-code; also stored in EEPROM)");
    reveal_strlit("# Compile-time settings (require Compile & Flash)");
    reveal_with_fuel(no_break_upto, 64);
    lemma_no_break(a, a.len());
    lemma_no_break(b, b.len());
    lemma_no_break(c, c.len());
    lemma_no_break(d, d.len());
    lemma_trim_clean(a);
    lemma_trim_clean(b);
    lemma_trim_clean(c);
    lemma_trim_clean(d);
}

/// `true` and `false` fit a line and differ.
pub proof fn lemma_flags(b: bool)
    ensures
        fits_line(bool_text(b)),
        (bool_text(b) == "true"@) == b,
{
    reveal_strlit("true");
    reveal_strlit("false");
    reveal_with_fuel(no_break_upto, 6);
    lemma_no_break("true"@, 4);
    lemma_no_break("false"@, 5);
}

/// Decimal notation fits a line.
proof fn lemma_decimal_fits(n: int)
    ensures
        fits_line(signed_decimal(n)),
{
    let s = signed_decimal(n);
    if s.len() > 0 {
        lemma_decimal_plain(n, 0);
        lemma_decimal_plain(n, s.len() - 1);
    }
    if s.contains('\n') {
        let k = choose|k: int| 0 <= k < s.len() && s[k] == '\n';
        lemma_decimal_plain(n, k);
    }
}

/// The head of a macro section reads as the macro's name, without the white
/// space around it.
pub proof fn lemma_head(name: Seq<char>)
    requires
        !name.contains('\n'),
    ensures
        line_view("[macro:"@ + name + "]"@) == LineView::MacroHead(trim(name)),
        !("[macro:"@ + name + "]"@).contains('\n'),
{
    reveal_strlit("[macro:");
    reveal_strlit("macro:");
    reveal_strlit("]");
    let line = "[macro:"@ + name + "]"@;
    assert(line[0] == '[');
    assert(line.last() == ']');
    lemma_trim_clean(line);
    let inner = line.subrange(1, line.len() - 1);
    assert(inner == "macro:"@ + name) by {
        assert forall|i: int| 0 <= i < inner.len() implies inner[i] == ("macro:"@ + name)[i] by {
            if i < 6 {
                assert(inner[i] == "[macro:"@[i + 1]);
                assert("macro:"@[0] == 'm' && "macro:"@[1] == 'a' && "macro:"@[2] == 'c'
                    && "macro:"@[3] == 'r' && "macro:"@[4] == 'o' && "macro:"@[5] == ':');
                assert("[macro:"@[1] == 'm' && "[macro:"@[2] == 'a' && "[macro:"@[3] == 'c'
                    && "[macro:"@[4] == 'r' && "[macro:"@[5] == 'o' && "[macro:"@[6] == ':');
            }
        }
    }
    assert(inner.take(6) == "macro:"@);
    assert(inner.skip(6) == name);
    reveal_with_fuel(no_break_upto, 8);
    lemma_no_break("[macro:"@, 7);
    if line.contains('\n') {
        let k = choose|k: int| 0 <= k < line.len() && line[k] == '\n';
        if k < 7 {
            assert(line[k] == "[macro:"@[k]);
        } else if k < 7 + name.len() {
            assert(line[k] == name[k - 7]);
        }
    }
}

/// Reading one more line at the end.
pub proof fn lemma_read_push(
    r: Reader,
    ls: Seq<Seq<char>>,
    line: Seq<char>,
    read: spec_fn(Seq<char>) -> Option<Num>,
)
    ensures
        read_lines(r, ls.push(line), read) == read_line(
            read_lines(r, ls, read),
            line_view(line),
            read,
        ),
    decreases ls.len(),
{
    let all = ls.push(line);
    if ls.len() == 0 {
        reveal_with_fuel(read_lines, 2);
    } else {
        assert(all.drop_first() == ls.drop_first().push(line));
        lemma_read_push(
            read_line(r, line_view(ls[0]), read),
            ls.drop_first(),
            line,
            read,
        );
    }
}

/// Reading lines and then more lines.
pub proof fn lemma_read_add(
    r: Reader,
    a: Seq<Seq<char>>,
    b: Seq<Seq<char>>,
    read: spec_fn(Seq<char>) -> Option<Num>,
)
    ensures
        read_lines(r, a + b, read) == read_lines(read_lines(r, a, read), b, read),
    decreases b.len(),
{
    if b.len() == 0 {
        assert(a + b == a);
    } else {
        lemma_read_add(r, a, b.drop_last(), read);
        assert(a + b == (a + b.drop_last()).push(b.last()));
        lemma_read_push(r, a + b.drop_last(), b.last(), read);
        lemma_read_push(read_lines(r, a, read), b.drop_last(), b.last(), read);
        assert(b.drop_last().push(b.last()) == b);
    }
}

/// Reading a line that reads as nothing, as line `n` of these lines.
proof fn lemma_skip_line(
    r: Reader,
    ls: Seq<Seq<char>>,
    n: int,
    d: ConfigView,
    read: spec_fn(Seq<char>) -> Option<Num>,
)
    requires
        0 <= n < ls.len(),
        read_lines(r, ls.take(n), read) == (Reader { config: d, open: None }),
        line_view(ls[n]) is Nothing,
    ensures
        read_lines(r, ls.take(n + 1), read) == (Reader { config: d, open: None }),
{
    lemma_read_take(r, ls, n + 1, read);
}

/// Reading a setting, as line `n` of these lines.
proof fn lemma_set_line(
    r: Reader,
    ls: Seq<Seq<char>>,
    n: int,
    d: ConfigView,
    key: Seq<char>,
    value: Seq<char>,
    read: spec_fn(Seq<char>) -> Option<Num>,
)
    requires
        0 <= n < ls.len(),
        read_lines(r, ls.take(n), read) == (Reader { config: d, open: None }),
        ls[n] == entry_line(key, value),
        is_word(key),
        !value.contains('\n'),
        setting_of(key) is Some,
    ensures
        read_lines(r, ls.take(n + 1), read) == (Reader {
            config: with_setting(d, setting_of(key)->0, trim(value), read),
            open: None,
        }),
        !ls[n].contains('\n'),
{
    lemma_read_take(r, ls, n + 1, read);
    lemma_entry(key, value);
}

/// Reading the lines of the runtime settings gives the runtime settings.
proof fn lemma_read_runtime(
    before: ConfigView,
    c: ConfigView,
    t: ConfigTexts,
    read: spec_fn(Seq<char>) -> Option<Num>,
)
    requires
        unbroken_texts(t),
    ensures
        read_lines(Reader { config: before, open: None }, runtime_lines(c, t), read) == (Reader {
            config: ConfigView {
                steps_y: restored(before, c, t, read).steps_y,
                max_feedrate_y: restored(before, c, t, read).max_feedrate_y,
                max_accel_y: restored(before, c, t, read).max_accel_y,
                motor_current_y: restored(before, c, t, read).motor_current_y,
                ..before
            },
            open: None,
        }),
        forall|i: int|
            0 <= i < runtime_lines(c, t).len() ==> !(#[trigger] runtime_lines(
                c,
                t,
            )[i]).contains('\n'),
{
    let ls = runtime_lines(c, t);
    let r = Reader { config: before, open: None };
    let back = restored(before, c, t, read);
    let current = decimal(c.motor_current_y.saturated_u32() as nat);
    lemma_keys();
    lemma_comments();
    lemma_saturated_range(c.motor_current_y);
    lemma_decimal_fits(c.motor_current_y.saturated_u32());
    lemma_trim_clean(current);
    assert(ls.take(0).len() == 0);
    lemma_skip_line(r, ls, 0, before, read);
    lemma_skip_line(r, ls, 1, before, read);
    lemma_skip_line(r, ls, 2, before, read);
    lemma_skip_line(r, ls, 3, before, read);
    lemma_set_line(r, ls, 4, before, "steps_per_mm"@, t.steps_y@, read);
    let d = ConfigView { steps_y: back.steps_y, ..before };
    lemma_set_line(r, ls, 5, d, "max_feedrate"@, t.max_feedrate_y@, read);
    let d = ConfigView { max_feedrate_y: back.max_feedrate_y, ..d };
    lemma_set_line(r, ls, 6, d, "max_accel"@, t.max_accel_y@, read);
    let d = ConfigView { max_accel_y: back.max_accel_y, ..d };
    lemma_set_line(r, ls, 7, d, "motor_current"@, current, read);
    assert(ls.take(8) == ls);
}

/// Reading the lines of the compile-time settings gives the compile-time settings.
proof fn lemma_read_compile(
    before: ConfigView,
    c: ConfigView,
    t: ConfigTexts,
    read: spec_fn(Seq<char>) -> Option<Num>,
)
    requires
        unbroken(c),
        unbroken_texts(t),
    ensures
        read_lines(Reader { config: before, open: None }, compile_lines(c, t), read) == (Reader {
            config: ConfigView {
                y_home_dir: c.y_home_dir,
                y_min_pos: restored(before, c, t, read).y_min_pos,
                y_max_pos: restored(before, c, t, read).y_max_pos,
                y_min_endstop_override: c.y_min_endstop_override,
                y_min_endstop_pin: trim(c.y_min_endstop_pin),
                y_max_endstop_override: c.y_max_endstop_override,
                y_max_endstop_pin: trim(c.y_max_endstop_pin),
                ..before
            },
            open: None,
        }),
        forall|i: int|
            0 <= i < compile_lines(c, t).len() ==> !(#[trigger] compile_lines(
                c,
                t,
            )[i]).contains('\n'),
{
    let ls = compile_lines(c, t);
    let r = Reader { config: before, open: None };
    let back = restored(before, c, t, read);
    let home_dir = signed_decimal(c.y_home_dir as int);
    let min_on = bool_text(c.y_min_endstop_override);
    let max_on = bool_text(c.y_max_endstop_override);
    lemma_keys();
    lemma_comments();
    lemma_flags(c.y_min_endstop_override);
    lemma_flags(c.y_max_endstop_override);
    lemma_trim_clean(min_on);
    lemma_trim_clean(max_on);
    law_i32_reads_back(c.y_home_dir);
    lemma_decimal_fits(c.y_home_dir as int);
    lemma_trim_clean(home_dir);
    assert(ls.take(0).len() == 0);
    lemma_skip_line(r, ls, 0, before, read);
    lemma_skip_line(r, ls, 1, before, read);
    lemma_set_line(r, ls, 2, before, "y_home_dir"@, home_dir, read);
    let d = ConfigView { y_home_dir: c.y_home_dir, ..before };
    lemma_set_line(r, ls, 3, d, "y_min_pos"@, t.y_min_pos@, read);
    let d = ConfigView { y_min_pos: back.y_min_pos, ..d };
    lemma_set_line(r, ls, 4, d, "y_max_pos"@, t.y_max_pos@, read);
    let d = ConfigView { y_max_pos: back.y_max_pos, ..d };
    lemma_set_line(r, ls, 5, d, "y_min_endstop_override"@, min_on, read);
    let d = ConfigView { y_min_endstop_override: c.y_min_endstop_override, ..d };
    lemma_set_line(r, ls, 6, d, "y_min_endstop_pin"@, c.y_min_endstop_pin, read);
    let d = ConfigView { y_min_endstop_pin: trim(c.y_min_endstop_pin), ..d };
    lemma_set_line(r, ls, 7, d, "y_max_endstop_override"@, max_on, read);
    let d = ConfigView { y_max_endstop_override: c.y_max_endstop_override, ..d };
    lemma_set_line(r, ls, 8, d, "y_max_endstop_pin"@, c.y_max_endstop_pin, read);
    assert(ls.take(9) == ls);
}

/// Reading the first `n` lines is reading one fewer and then the last of them.
proof fn lemma_read_take(
    r: Reader,
    ls: Seq<Seq<char>>,
    n: int,
    read: spec_fn(Seq<char>) -> Option<Num>,
)
    requires
        0 < n <= ls.len(),
    ensures
        read_lines(r, ls.take(n), read) == read_line(
            read_lines(r, ls.take(n - 1), read),
            line_view(ls[n - 1]),
            read,
        ),
{
    assert(ls.take(n) == ls.take(n - 1).push(ls[n - 1]));
    lemma_read_push(r, ls.take(n - 1), ls[n - 1], read);
}

/// Reading the macro sections gives the macros.
proof fn lemma_read_macros(
    c: ConfigView,
    ms: Seq<MacroView>,
    read: spec_fn(Seq<char>) -> Option<Num>,
)
    requires
        forall|i: int|
            0 <= i < ms.len() ==> !(#[trigger] ms[i]).name.contains('\n')
                && !ms[i].label.contains('\n'),
    ensures
        ({
            let end = read_lines(Reader { config: c, open: None }, macro_sections(ms), read);
            with_macro(end.config, end.open) == ConfigView {
                macros: c.macros + ms.map_values(|m: MacroView| reread(m)),
                ..c
            }
        }),
        forall|i: int|
            0 <= i < macro_sections(ms).len() ==> !(#[trigger] macro_sections(ms)[i]).contains(
                '\n',
            ),
    decreases ms.len(),
{
    let r = Reader { config: c, open: None };
    let f = |m: MacroView| reread(m);
    if ms.len() == 0 {
        assert(c.macros + ms.map_values(f) == c.macros);
    } else {
        let m = ms.last();
        let head = ms.drop_last();
        assert(m == ms[ms.len() - 1]);
        assert forall|i: int| 0 <= i < head.len() implies !(#[trigger] head[i]).name.contains('\n')
            && !head[i].label.contains('\n') by {
            assert(head[i] == ms[i]);
        }
        lemma_read_macros(c, head, read);
        lemma_keys();
        lemma_comments();
        lemma_head(m.name);
        lemma_flat_fits(m.gcode);
        lemma_trim_clean(flat(m.gcode));
        lemma_entry("label"@, m.label);
        lemma_entry("gcode"@, flat(m.gcode));
        let section = macro_section(m);
        let e = read_lines(r, macro_sections(head), read);
        lemma_read_add(r, macro_sections(head), section, read);
        assert(section.take(0).len() == 0);
        lemma_read_take(e, section, 1, read);
        lemma_read_take(e, section, 2, read);
        lemma_read_take(e, section, 3, read);
        lemma_read_take(e, section, 4, read);
        assert(section.take(4) == section);
        assert(read_lines(e, section, read).open == Some(reread(m)));
        assert((c.macros + head.map_values(f)).push(reread(m)) == c.macros + ms.map_values(f));
        let all = macro_sections(ms);
        assert forall|i: int| 0 <= i < all.len() implies !(#[trigger] all[i]).contains('\n') by {
            let n = macro_sections(head).len() as int;
            if i < n {
                assert(all[i] == macro_sections(head)[i]);
            } else {
                assert(all[i] == section[i - n]);
            }
        }
    }
}

/// Loading what was saved gives every setting and every macro back, in order,
/// in the form in which the file holds them, wherever no text in it holds a
/// line feed.
pub proof fn law_load_rereads_saved(
    before: ConfigView,
    c: ConfigView,
    t: ConfigTexts,
    read: spec_fn(Seq<char>) -> Option<Num>,
)
    requires
        unbroken(c),
        unbroken_texts(t),
    ensures
        loaded(before, saved(c, t), read) == restored(before, c, t, read),
{
    let empty = ConfigView { macros: Seq::empty(), ..before };
    let start = Reader { config: empty, open: None };
    let back = restored(before, c, t, read);
    let set = ConfigView {
        steps_y: back.steps_y,
        max_feedrate_y: back.max_feedrate_y,
        max_accel_y: back.max_accel_y,
        motor_current_y: back.motor_current_y,
        ..empty
    };
    let mid = ConfigView { macros: Seq::empty(), ..back };
    let runtime = runtime_lines(c, t);
    let compile = compile_lines(c, t);
    let tail = macro_sections(c.macros);
    lemma_read_runtime(empty, c, t, read);
    lemma_read_compile(set, c, t, read);
    lemma_read_macros(mid, c.macros, read);
    let head = runtime + compile;
    let all = head + tail;
    assert forall|i: int| 0 <= i < all.len() implies !(#[trigger] all[i]).contains('\n') by {
        if i < runtime.len() {
            assert(all[i] == runtime[i]);
        } else if i < head.len() {
            assert(all[i] == compile[i - runtime.len()]);
        } else {
            assert(all[i] == tail[i - head.len()]);
        }
    }
    lemma_lines_unlines(all);
    lemma_read_strip_cr(start, all, read);
    lemma_read_add(start, runtime, compile, read);
    lemma_read_add(start, head, tail, read);
    assert(mid.macros + back.macros == back.macros);
}

/// Loading what was saved restores the configuration, whatever was there
/// before: every setting and every macro, in order, as they were. The motor
/// current, which the file holds as a whole number, comes back as the number
/// that its text reads as.
pub proof fn law_load_restores_saved(
    before: ConfigView,
    c: ConfigView,
    t: ConfigTexts,
    read: spec_fn(Seq<char>) -> Option<Num>,
    motor_current: Num,
)
    requires
        writable(c),
        canonical_macros(c),
        faithful(t, c, read),
        read(decimal(c.motor_current_y.saturated_u32() as nat)) == Some(motor_current),
    ensures
        loaded(before, saved(c, t), read) == (ConfigView { motor_current_y: motor_current, ..c }),
        motor_current == c.motor_current_y ==> loaded(before, saved(c, t), read) == c,
{
    law_load_rereads_saved(before, c, t, read);
    lemma_trim_clean(c.y_min_endstop_pin);
    lemma_trim_clean(c.y_max_endstop_pin);
    let back = c.macros.map_values(|m: MacroView| reread(m));
    assert forall|i: int| 0 <= i < c.macros.len() implies back[i] == c.macros[i] by {
        let m = c.macros[i];
        lemma_trim_clean(m.name);
        lemma_trim_clean(m.label);
        law_canonical_comes_back(m.gcode);
    }
    assert(back == c.macros);
}

/// What was loaded from a saved file comes back unchanged when it is saved and
/// loaded once more, unless a G-code text holds semicolons. Only the number
/// texts have to read as the numbers, and the motor current as itself.
pub proof fn law_second_load_changes_nothing(
    before: ConfigView,
    c: ConfigView,
    t: ConfigTexts,
    u: ConfigTexts,
    read: spec_fn(Seq<char>) -> Option<Num>,
)
    requires
        unbroken(c),
        unbroken_texts(t),
        forall|i: int| 0 <= i < c.macros.len() ==> !(#[trigger] c.macros[i]).gcode.contains(';'),
        ({
            let once = loaded(before, saved(c, t), read);
            &&& faithful(u, once, read)
            &&& read(decimal(once.motor_current_y.saturated_u32() as nat)) == Some(
                once.motor_current_y,
            )
        }),
    ensures
        ({
            let once = loaded(before, saved(c, t), read);
            loaded(once, saved(once, u), read) == once
        }),
{
    let once = loaded(before, saved(c, t), read);
    law_load_rereads_saved(before, c, t, read);
    lemma_trim_fits(c.y_min_endstop_pin);
    lemma_trim_fits(c.y_max_endstop_pin);
    assert forall|i: int| 0 <= i < once.macros.len() implies fits_line(
        (#[trigger] once.macros[i]).name,
    ) && fits_line(once.macros[i].label) && canonical(once.macros[i].gcode) by {
        let m = c.macros[i];
        assert(once.macros[i] == reread(m));
        lemma_trim_fits(m.name);
        lemma_trim_fits(m.label);
        law_comes_back_canonical(m.gcode);
    }
    law_load_restores_saved(once, once, u, read, once.motor_current_y);
}

/// Two readings take each of these texts for the same.
pub open spec fn agree_on(
    vs: Seq<Seq<char>>,
    a: spec_fn(Seq<char>) -> Option<Num>,
    b: spec_fn(Seq<char>) -> Option<Num>,
) -> bool {
    forall|i: int| 0 <= i < vs.len() ==> a(#[trigger] vs[i]) == b(vs[i])
}

proof fn lemma_reads_only(
    r: Reader,
    ls: Seq<Seq<char>>,
    a: spec_fn(Seq<char>) -> Option<Num>,
    b: spec_fn(Seq<char>) -> Option<Num>,
)
    requires
        agree_on(numbers_on(r.open is Some, ls), a, b),
    ensures
        read_lines(r, ls, a) == read_lines(r, ls, b),
    decreases ls.len(),
{
    if ls.len() > 0 {
        let line = line_view(ls[0]);
        let rest = numbers_on(open_after(r.open is Some, line), ls.drop_first());
        let all = numbers_on(r.open is Some, ls);
        match number_on(r.open is Some, line) {
            Some(value) => {
                assert(all[0] == value);
            },
            None => {},
        }
        let next = read_line(r, line, a);
        assert(next == read_line(r, line, b));
        assert((next.open is Some) == open_after(r.open is Some, line));
        assert forall|i: int| 0 <= i < rest.len() implies a(#[trigger] rest[i]) == b(rest[i]) by {
            if all.len() > rest.len() {
                assert(all[i + 1] == rest[i]);
            } else {
                assert(all[i] == rest[i]);
            }
        }
        lemma_reads_only(next, ls.drop_first(), a, b);
    }
}

/// Loading depends on what the values listed by `number_texts` read as, and on
/// no other reading.
pub proof fn law_load_reads_listed_numbers(
    c: ConfigView,
    text: Seq<char>,
    a: spec_fn(Seq<char>) -> Option<Num>,
    b: spec_fn(Seq<char>) -> Option<Num>,
)
    requires
        agree_on(numbers_on(false, lines(text)), a, b),
    ensures
        loaded(c, text, a) == loaded(c, text, b),
{
    let start = Reader { config: ConfigView { macros: Seq::empty(), ..c }, open: None };
    lemma_reads_only(start, lines(text), a, b);
}

/// What two readings of the same lines have in common that began with `c` and
/// with `d`: each setting is the same in both, or is still the one that the
/// reading began with.
#[verifier::opaque]
spec fn alike(c: ConfigView, d: ConfigView, a: ConfigView, b: ConfigView) -> bool {
    &&& a.steps_y == b.steps_y || (a.steps_y == c.steps_y && b.steps_y == d.steps_y)
    &&& a.max_feedrate_y == b.max_feedrate_y || (a.max_feedrate_y == c.max_feedrate_y
        && b.max_feedrate_y == d.max_feedrate_y)
    &&& a.max_accel_y == b.max_accel_y || (a.max_accel_y == c.max_accel_y && b.max_accel_y
        == d.max_accel_y)
    &&& a.motor_current_y == b.motor_current_y || (a.motor_current_y == c.motor_current_y
        && b.motor_current_y == d.motor_current_y)
    &&& a.y_home_dir == b.y_home_dir || (a.y_home_dir == c.y_home_dir && b.y_home_dir
        == d.y_home_dir)
    &&& a.y_min_pos == b.y_min_pos || (a.y_min_pos == c.y_min_pos && b.y_min_pos == d.y_min_pos)
    &&& a.y_max_pos == b.y_max_pos || (a.y_max_pos == c.y_max_pos && b.y_max_pos == d.y_max_pos)
    &&& a.y_min_endstop_override == b.y_min_endstop_override || (a.y_min_endstop_override
        == c.y_min_endstop_override && b.y_min_endstop_override == d.y_min_endstop_override)
    &&& a.y_min_endstop_pin == b.y_min_endstop_pin || (a.y_min_endstop_pin == c.y_min_endstop_pin
        && b.y_min_endstop_pin == d.y_min_endstop_pin)
    &&& a.y_max_endstop_override == b.y_max_endstop_override || (a.y_max_endstop_override
        == c.y_max_endstop_override && b.y_max_endstop_override == d.y_max_endstop_override)
    &&& a.y_max_endstop_pin == b.y_max_endstop_pin || (a.y_max_endstop_pin == c.y_max_endstop_pin
        && b.y_max_endstop_pin == d.y_max_endstop_pin)
    &&& a.macros == b.macros
}

proof fn lemma_set_alike(
    c: ConfigView,
    d: ConfigView,
    a: ConfigView,
    b: ConfigView,
    s: Setting,
    value: Seq<char>,
    read: spec_fn(Seq<char>) -> Option<Num>,
)
    requires
        alike(c, d, a, b),
    ensures
        alike(c, d, with_setting(a, s, value, read), with_setting(b, s, value, read)),
{
    reveal(alike);
}

proof fn lemma_macro_alike(
    c: ConfigView,
    d: ConfigView,
    a: ConfigView,
    b: ConfigView,
    m: Option<MacroView>,
)
    requires
        alike(c, d, a, b),
    ensures
        alike(c, d, with_macro(a, m), with_macro(b, m)),
{
    reveal(alike);
}

proof fn lemma_read_alike(
    c: ConfigView,
    d: ConfigView,
    a: Reader,
    b: Reader,
    ls: Seq<Seq<char>>,
    read: spec_fn(Seq<char>) -> Option<Num>,
)
    requires
        alike(c, d, a.config, b.config),
        a.open == b.open,
    ensures
        alike(c, d, read_lines(a, ls, read).config, read_lines(b, ls, read).config),
        read_lines(a, ls, read).open == read_lines(b, ls, read).open,
    decreases ls.len(),
{
    if ls.len() > 0 {
        let line = line_view(ls[0]);
        lemma_macro_alike(c, d, a.config, b.config, a.open);
        if let LineView::Entry(key, value) = line {
            if setting_of(key) is Some {
                lemma_set_alike(c, d, a.config, b.config, setting_of(key)->0, value, read);
            }
        }
        lemma_read_alike(
            c,
            d,
            read_line(a, line, read),
            read_line(b, line, read),
            ls.drop_first(),
            read,
        );
    }
}

/// Loading a file twice gives what loading it once gives.
pub proof fn law_load_twice(
    c: ConfigView,
    text: Seq<char>,
    read: spec_fn(Seq<char>) -> Option<Num>,
)
    ensures
        loaded(loaded(c, text, read), text, read) == loaded(c, text, read),
{
    let once = loaded(c, text, read);
    let a = Reader { config: ConfigView { macros: Seq::empty(), ..c }, open: None };
    let b = Reader { config: ConfigView { macros: Seq::empty(), ..once }, open: None };
    let end = read_lines(a, lines(text), read);
    let again = read_lines(b, lines(text), read);
    assert(alike(a.config, b.config, a.config, b.config)) by {
        reveal(alike);
    }
    lemma_read_alike(a.config, b.config, a, b, lines(text), read);
    lemma_macro_alike(a.config, b.config, end.config, again.config, end.open);
    reveal(alike);
}

/// The lines that say something, taken apart: comments, blank lines and lines
/// of no known form are left out.
pub open spec fn said(ls: Seq<Seq<char>>) -> Seq<LineView>
    decreases ls.len(),
{
    if ls.len() == 0 {
        Seq::empty()
    } else if line_view(ls[0]) is Nothing {
        said(ls.drop_first())
    } else {
        seq![line_view(ls[0])] + said(ls.drop_first())
    }
}

/// The reader after lines that were taken apart.
spec fn read_said(
    r: Reader,
    ls: Seq<LineView>,
    read: spec_fn(Seq<char>) -> Option<Num>,
) -> Reader
    decreases ls.len(),
{
    if ls.len() == 0 {
        r
    } else {
        read_said(read_line(r, ls[0], read), ls.drop_first(), read)
    }
}

proof fn lemma_read_said(r: Reader, ls: Seq<Seq<char>>, read: spec_fn(Seq<char>) -> Option<Num>)
    ensures
        read_lines(r, ls, read) == read_said(r, said(ls), read),
    decreases ls.len(),
{
    if ls.len() > 0 {
        let line = line_view(ls[0]);
        let rest = said(ls.drop_first());
        lemma_read_said(read_line(r, line, read), ls.drop_first(), read);
        if !(line is Nothing) {
            assert((seq![line] + rest).drop_first() == rest);
        }
    }
}

/// The layout of a file does not matter: two texts whose lines say the same, in
/// the same order, load alike, whatever comments, blank lines and white space
/// around the lines there are in either.
pub proof fn law_layout_does_not_matter(
    c: ConfigView,
    a: Seq<char>,
    b: Seq<char>,
    read: spec_fn(Seq<char>) -> Option<Num>,
)
    requires
        said(lines(a)) == said(lines(b)),
    ensures
        loaded(c, a, read) == loaded(c, b, read),
{
    let start = Reader { config: ConfigView { macros: Seq::empty(), ..c }, open: None };
    lemma_read_said(start, lines(a), read);
    lemma_read_said(start, lines(b), read);
}

/// A line says the same without the white space around it and without a
/// carriage return at its end; a blank line and a comment say nothing.
pub proof fn law_line_layout(raw: Seq<char>)
    ensures
        line_view(trim(raw)) == line_view(raw),
        line_view(strip_cr(raw)) == line_view(raw),
        trim(raw).len() == 0 || trim(raw)[0] == '#' ==> line_view(raw) is Nothing,
{
    lemma_trim_result(raw);
    lemma_trim_clean(trim(raw));
    lemma_trim_strip_cr(raw);
}

/// A macro that was saved and loaded has the same commands as before, unless
/// its G-code text holds semicolons; the other texts of the file may be
/// anything that holds no line feed.
pub proof fn law_reloaded_macro_runs_alike(
    before: ConfigView,
    c: ConfigView,
    t: ConfigTexts,
    read: spec_fn(Seq<char>) -> Option<Num>,
    i: int,
)
    requires
        unbroken(c),
        unbroken_texts(t),
        0 <= i < c.macros.len(),
        !c.macros[i].gcode.contains(';'),
    ensures
        loaded(before, saved(c, t), read).macros.len() == c.macros.len(),
        commands(loaded(before, saved(c, t), read).macros[i].gcode) == commands(
            c.macros[i].gcode,
        ),
{
    law_load_rereads_saved(before, c, t, read);
    law_flat_keeps_commands(c.macros[i].gcode);
}

proof fn lemma_trim_fits(s: Seq<char>)
    requires
        !s.contains('\n'),
    ensures
        fits_line(trim(s)),
{
    lemma_trim_result(s);
    if trim(s).contains('\n') {
        lemma_trim_contains(s, '\n');
    }
}

proof fn lemma_part_unbroken(s: Seq<char>, i: int, j: int)
    requires
        !s.contains('\n'),
        0 <= i <= j <= s.len(),
    ensures
        !s.subrange(i, j).contains('\n'),
{
    let part = s.subrange(i, j);
    if part.contains('\n') {
        let k = choose|k: int| 0 <= k < part.len() && part[k] == '\n';
        assert(s[i + k] == '\n');
    }
}

/// The name of a macro section and the value of an entry fit a line.
spec fn parts_fit(line: LineView) -> bool {
    match line {
        LineView::MacroHead(name) => fits_line(name),
        LineView::Entry(_, value) => fits_line(value),
        _ => true,
    }
}

proof fn lemma_parts_fit(raw: Seq<char>)
    requires
        !raw.contains('\n'),
    ensures
        parts_fit(line_view(raw)),
{
    let line = trim(raw);
    let n = line.len() as int;
    lemma_trim_fits(raw);
    lemma_find_char(line, '=');
    let eq = find_char(line, '=') as int;
    if n > 0 && line[0] == '[' && line.last() == ']' {
        let inner = line.subrange(1, n - 1);
        lemma_part_unbroken(line, 1, n - 1);
        if starts_with(inner, "macro:"@) {
            reveal_strlit("macro:");
            lemma_part_unbroken(inner, 6, inner.len() as int);
            assert(inner.skip(6) == inner.subrange(6, inner.len() as int));
            lemma_trim_fits(inner.skip(6));
        }
    } else if eq < n {
        lemma_part_unbroken(line, eq + 1, n);
        assert(line.skip(eq + 1) == line.subrange(eq + 1, n));
        lemma_trim_fits(line.skip(eq + 1));
    }
}

/// What was read so far may be written.
spec fn reader_fits(r: Reader) -> bool {
    writable(r.config) && match r.open {
        Some(m) => fits_line(m.name) && fits_line(m.label),
        None => true,
    }
}

proof fn lemma_closed_fits(r: Reader)
    requires
        reader_fits(r),
    ensures
        writable(with_macro(r.config, r.open)),
{
    let c = with_macro(r.config, r.open);
    assert forall|i: int| 0 <= i < c.macros.len() implies fits_line((#[trigger] c.macros[i]).name)
        && fits_line(c.macros[i].label) by {
        if i < r.config.macros.len() {
            assert(c.macros[i] == r.config.macros[i]);
        }
    }
}

proof fn lemma_read_fits(r: Reader, ls: Seq<Seq<char>>, read: spec_fn(Seq<char>) -> Option<Num>)
    requires
        reader_fits(r),
        forall|i: int| 0 <= i < ls.len() ==> !(#[trigger] ls[i]).contains('\n'),
    ensures
        reader_fits(read_lines(r, ls, read)),
    decreases ls.len(),
{
    if ls.len() > 0 {
        let rest = ls.drop_first();
        assert(!ls[0].contains('\n'));
        lemma_parts_fit(ls[0]);
        lemma_closed_fits(r);
        let next = read_line(r, line_view(ls[0]), read);
        assert(reader_fits(next));
        assert forall|i: int| 0 <= i < rest.len() implies !(#[trigger] rest[i]).contains('\n') by {
            assert(rest[i] == ls[i + 1]);
        }
        lemma_read_fits(next, rest, read);
    }
}

/// Whatever a file holds, what is loaded from it may be written to a file
/// again and read back.
pub proof fn law_loaded_is_writable(
    c: ConfigView,
    text: Seq<char>,
    read: spec_fn(Seq<char>) -> Option<Num>,
)
    requires
        fits_line(c.y_min_endstop_pin),
        fits_line(c.y_max_endstop_pin),
    ensures
        writable(loaded(c, text, read)),
{
    let start = Reader { config: ConfigView { macros: Seq::empty(), ..c }, open: None };
    let ls = lines(text);
    assert forall|i: int| 0 <= i < ls.len() implies !(#[trigger] ls[i]).contains('\n') by {
        lemma_lines_no_break(text, i);
    }
    lemma_read_fits(start, ls, read);
    lemma_closed_fits(read_lines(start, ls, read));
}

} // verus!

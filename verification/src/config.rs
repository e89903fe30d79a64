//! The configuration file of the test stand: `key=value` settings, followed by
//! one `[macro:NAME]` section for each macro.

use vstd::prelude::*;
use crate::decimal::{decimal, i32_text, parse_i32, read_i32, signed_decimal, u32_text};
use crate::gcode::{flat, flatten, macro_views, unflat, unflatten, MacroDef, MacroView};
use crate::num::Num;
use crate::text::{
    after_prefix, find_char, join_lines, lines, same_text, slice_text, split_lines, split_once,
    starts_with, texts, to_chars, trim, trimmed, unlines,
};

verus! {

/// What the configuration file holds.
#[derive(Debug)]
pub struct Config {
    // Runtime settings, also kept in the EEPROM of the board.
    pub steps_y: Num,
    pub max_feedrate_y: Num,
    pub max_accel_y: Num,
    pub motor_current_y: Num,
    // Compile-time settings of the firmware.
    pub y_home_dir: i32,
    pub y_min_pos: Num,
    pub y_max_pos: Num,
    pub y_min_endstop_override: bool,
    pub y_min_endstop_pin: String,
    pub y_max_endstop_override: bool,
    pub y_max_endstop_pin: String,
    pub macros: Vec<MacroDef>,
}

/// What a configuration holds.
#[verifier::ext_equal]
pub struct ConfigView {
    pub steps_y: Num,
    pub max_feedrate_y: Num,
    pub max_accel_y: Num,
    pub motor_current_y: Num,
    pub y_home_dir: i32,
    pub y_min_pos: Num,
    pub y_max_pos: Num,
    pub y_min_endstop_override: bool,
    pub y_min_endstop_pin: Seq<char>,
    pub y_max_endstop_override: bool,
    pub y_max_endstop_pin: Seq<char>,
    pub macros: Seq<MacroView>,
}

impl View for Config {
    type V = ConfigView;

    open spec fn view(&self) -> ConfigView {
        ConfigView {
            steps_y: self.steps_y,
            max_feedrate_y: self.max_feedrate_y,
            max_accel_y: self.max_accel_y,
            motor_current_y: self.motor_current_y,
            y_home_dir: self.y_home_dir,
            y_min_pos: self.y_min_pos,
            y_max_pos: self.y_max_pos,
            y_min_endstop_override: self.y_min_endstop_override,
            y_min_endstop_pin: self.y_min_endstop_pin@,
            y_max_endstop_override: self.y_max_endstop_override,
            y_max_endstop_pin: self.y_max_endstop_pin@,
            macros: macro_views(self.macros@),
        }
    }
}

/// Texts that read as numbers, each with its number. A text that is not in the
/// table does not read as a number.
#[derive(Debug)]
pub struct NumberTable {
    pub entries: Vec<(String, Num)>,
}

/// What a text reads as, by the first entry of a table from `from` on that has it.
pub open spec fn lookup(entries: Seq<(String, Num)>, from: int, text: Seq<char>) -> Option<Num>
    decreases entries.len() - from,
{
    if from < 0 || from >= entries.len() {
        None
    } else if entries[from].0@ == text {
        Some(entries[from].1)
    } else {
        lookup(entries, from + 1, text)
    }
}

impl NumberTable {
    /// What texts read as.
    pub open spec fn reading(self) -> spec_fn(Seq<char>) -> Option<Num> {
        |text: Seq<char>| lookup(self.entries@, 0, text)
    }

    /// What a text reads as.
    pub fn read(&self, text: &str) -> (r: Option<Num>)
        ensures
            r == (self.reading())(text@),
    {
        let mut i: usize = 0;
        while i < self.entries.len()
            invariant
                i <= self.entries.len(),
                lookup(self.entries@, 0, text@) == lookup(self.entries@, i as int, text@),
            decreases self.entries.len() - i,
        {
            if same_text(self.entries[i].0.as_str(), text) {
                return Some(self.entries[i].1);
            }
            i += 1;
        }
        None
    }
}

/// The settings that the file may hold.
#[derive(Clone, Copy, Debug, PartialEq, Eq, Structural)]
pub enum Setting {
    StepsPerMm,
    MaxFeedrate,
    MaxAccel,
    MotorCurrent,
    YHomeDir,
    YMinPos,
    YMaxPos,
    YMinEndstopOverride,
    YMinEndstopPin,
    YMaxEndstopOverride,
    YMaxEndstopPin,
}

/// The setting that a key names.
pub open spec fn setting_of(key: Seq<char>) -> Option<Setting> {
    if key == "steps_per_mm"@ {
        Some(Setting::StepsPerMm)
    } else if key == "max_feedrate"@ {
        Some(Setting::MaxFeedrate)
    } else if key == "max_accel"@ {
        Some(Setting::MaxAccel)
    } else if key == "motor_current"@ {
        Some(Setting::MotorCurrent)
    } else if key == "y_home_dir"@ {
        Some(Setting::YHomeDir)
    } else if key == "y_min_pos"@ {
        Some(Setting::YMinPos)
    } else if key == "y_max_pos"@ {
        Some(Setting::YMaxPos)
    } else if key == "y_min_endstop_override"@ {
        Some(Setting::YMinEndstopOverride)
    } else if key == "y_min_endstop_pin"@ {
        Some(Setting::YMinEndstopPin)
    } else if key == "y_max_endstop_override"@ {
        Some(Setting::YMaxEndstopOverride)
    } else if key == "y_max_endstop_pin"@ {
        Some(Setting::YMaxEndstopPin)
    } else {
        None
    }
}

/// The setting's value is a single-precision number.
pub open spec fn holds_number(s: Setting) -> bool {
    match s {
        Setting::StepsPerMm
        | Setting::MaxFeedrate
        | Setting::MaxAccel
        | Setting::MotorCurrent
        | Setting::YMinPos
        | Setting::YMaxPos => true,
        _ => false,
    }
}

/// A configuration with one setting changed. A value that does not read as a
/// number changes nothing; an override is on where the value is `true`.
pub open spec fn with_setting(
    c: ConfigView,
    s: Setting,
    value: Seq<char>,
    read: spec_fn(Seq<char>) -> Option<Num>,
) -> ConfigView {
    match s {
        Setting::StepsPerMm => match read(value) {
            Some(n) => ConfigView { steps_y: n, ..c },
            None => c,
        },
        Setting::MaxFeedrate => match read(value) {
            Some(n) => ConfigView { max_feedrate_y: n, ..c },
            None => c,
        },
        Setting::MaxAccel => match read(value) {
            Some(n) => ConfigView { max_accel_y: n, ..c },
            None => c,
        },
        Setting::MotorCurrent => match read(value) {
            Some(n) => ConfigView { motor_current_y: n, ..c },
            None => c,
        },
        Setting::YHomeDir => match read_i32(value) {
            Some(n) => ConfigView { y_home_dir: n, ..c },
            None => c,
        },
        Setting::YMinPos => match read(value) {
            Some(n) => ConfigView { y_min_pos: n, ..c },
            None => c,
        },
        Setting::YMaxPos => match read(value) {
            Some(n) => ConfigView { y_max_pos: n, ..c },
            None => c,
        },
        Setting::YMinEndstopOverride => ConfigView {
            y_min_endstop_override: value == "true"@,
            ..c
        },
        Setting::YMinEndstopPin => ConfigView { y_min_endstop_pin: value, ..c },
        Setting::YMaxEndstopOverride => ConfigView {
            y_max_endstop_override: value == "true"@,
            ..c
        },
        Setting::YMaxEndstopPin => ConfigView { y_max_endstop_pin: value, ..c },
    }
}

/// What a line of the file is.
pub enum LineView {
    /// A comment, a blank line or a line of no known form.
    Nothing,
    /// The head of a macro section, with the macro's name.
    MacroHead(Seq<char>),
    /// The head of any other section.
    OtherHead,
    /// A key and its value.
    Entry(Seq<char>, Seq<char>),
}

/// What a line of the file is, whatever white space stands around its parts.
pub open spec fn line_view(raw: Seq<char>) -> LineView {
    let line = trim(raw);
    let eq = find_char(line, '=') as int;
    if line.len() == 0 || line[0] == '#' {
        LineView::Nothing
    } else if line[0] == '[' && line.last() == ']' {
        let inner = line.subrange(1, line.len() - 1);
        if starts_with(inner, "macro:"@) {
            LineView::MacroHead(trim(inner.skip(6)))
        } else {
            LineView::OtherHead
        }
    } else if eq < line.len() {
        LineView::Entry(trim(line.take(eq)), trim(line.skip(eq + 1)))
    } else {
        LineView::Nothing
    }
}

/// A file that is being read: what it has set so far, and the macro whose
/// section is open.
#[verifier::ext_equal]
pub struct Reader {
    pub config: ConfigView,
    pub open: Option<MacroView>,
}

/// A configuration with one more macro, where there is one.
pub open spec fn with_macro(c: ConfigView, m: Option<MacroView>) -> ConfigView {
    match m {
        Some(m) => ConfigView { macros: c.macros.push(m), ..c },
        None => c,
    }
}

/// A macro with one entry of its section read.
pub open spec fn with_entry(m: MacroView, key: Seq<char>, value: Seq<char>) -> MacroView {
    if key == "label"@ {
        MacroView { label: value, ..m }
    } else if key == "gcode"@ {
        MacroView { gcode: unflat(value), ..m }
    } else {
        m
    }
}

/// The reader after one more line.
pub open spec fn read_line(
    r: Reader,
    line: LineView,
    read: spec_fn(Seq<char>) -> Option<Num>,
) -> Reader {
    match line {
        LineView::Nothing => r,
        LineView::MacroHead(name) => Reader {
            config: with_macro(r.config, r.open),
            open: Some(MacroView { name, label: name, gcode: Seq::empty() }),
        },
        LineView::OtherHead => Reader { config: with_macro(r.config, r.open), open: None },
        LineView::Entry(key, value) => match r.open {
            Some(m) => Reader { config: r.config, open: Some(with_entry(m, key, value)) },
            None => match setting_of(key) {
                Some(s) => Reader { config: with_setting(r.config, s, value, read), open: None },
                None => r,
            },
        },
    }
}

/// The reader after these lines.
pub open spec fn read_lines(
    r: Reader,
    ls: Seq<Seq<char>>,
    read: spec_fn(Seq<char>) -> Option<Num>,
) -> Reader
    decreases ls.len(),
{
    if ls.len() == 0 {
        r
    } else {
        read_lines(read_line(r, line_view(ls[0]), read), ls.drop_first(), read)
    }
}

/// The configuration after a file was read: the file's macros replace those
/// that were there, and its settings override those that they name.
pub open spec fn loaded(
    c: ConfigView,
    text: Seq<char>,
    read: spec_fn(Seq<char>) -> Option<Num>,
) -> ConfigView {
    let start = Reader { config: ConfigView { macros: Seq::empty(), ..c }, open: None };
    let end = read_lines(start, lines(text), read);
    with_macro(end.config, end.open)
}

/// Whether a macro section is open after one more line.
pub open spec fn open_after(open: bool, line: LineView) -> bool {
    match line {
        LineView::Nothing => open,
        LineView::MacroHead(_) => true,
        LineView::OtherHead => false,
        LineView::Entry(_, _) => open,
    }
}

/// The value that a line gives to a setting that holds a number, outside any
/// macro section.
pub open spec fn number_on(open: bool, line: LineView) -> Option<Seq<char>> {
    match line {
        LineView::Entry(key, value) => match setting_of(key) {
            Some(s) => if !open && holds_number(s) {
                Some(value)
            } else {
                None
            },
            None => None,
        },
        _ => None,
    }
}

/// The values on these lines that have to be read as numbers, in order.
pub open spec fn numbers_on(open: bool, ls: Seq<Seq<char>>) -> Seq<Seq<char>>
    decreases ls.len(),
{
    if ls.len() == 0 {
        Seq::empty()
    } else {
        let line = line_view(ls[0]);
        let rest = numbers_on(open_after(open, line), ls.drop_first());
        match number_on(open, line) {
            Some(value) => seq![value] + rest,
            None => rest,
        }
    }
}

/// The numbers of a configuration as texts, in the form in which the file
/// holds them.
#[derive(Debug)]
pub struct ConfigTexts {
    pub steps_y: String,
    pub max_feedrate_y: String,
    pub max_accel_y: String,
    pub y_min_pos: String,
    pub y_max_pos: String,
}

/// A line that gives a value to a key.
pub open spec fn entry_line(key: Seq<char>, value: Seq<char>) -> Seq<char> {
    key + seq!['='] + value
}

/// `true` or `false`.
pub open spec fn bool_text(b: bool) -> Seq<char> {
    if b {
        "true"@
    } else {
        "false"@
    }
}

/// The lines of the file that hold the runtime settings.
pub open spec fn runtime_lines(c: ConfigView, t: ConfigTexts) -> Seq<Seq<char>> {
    seq![
        "# Zeus Test Stand Configuration"@,
        "# Managed by Stepper Control app"@,
        ""@,
        "# Runtime settings (applied via G-code; also stored in EEPROM)"@,
        entry_line("steps_per_mm"@, t.steps_y@),
        entry_line("max_feedrate"@, t.max_feedrate_y@),
        entry_line("max_accel"@, t.max_accel_y@),
        entry_line("motor_current"@, decimal(c.motor_current_y.saturated_u32() as nat)),
    ]
}

/// The lines of the file that hold the compile-time settings.
pub open spec fn compile_lines(c: ConfigView, t: ConfigTexts) -> Seq<Seq<char>> {
    seq![
        ""@,
        "# Compile-time settings (require Compile & Flash)"@,
        entry_line("y_home_dir"@, signed_decimal(c.y_home_dir as int)),
        entry_line("y_min_pos"@, t.y_min_pos@),
        entry_line("y_max_pos"@, t.y_max_pos@),
        entry_line("y_min_endstop_override"@, bool_text(c.y_min_endstop_override)),
        entry_line("y_min_endstop_pin"@, c.y_min_endstop_pin),
        entry_line("y_max_endstop_override"@, bool_text(c.y_max_endstop_override)),
        entry_line("y_max_endstop_pin"@, c.y_max_endstop_pin),
    ]
}

/// The lines of the file that hold one macro.
pub open spec fn macro_section(m: MacroView) -> Seq<Seq<char>> {
    seq![
        ""@,
        "[macro:"@ + m.name + "]"@,
        entry_line("label"@, m.label),
        entry_line("gcode"@, flat(m.gcode)),
    ]
}

/// The lines of the file that hold the macros.
pub open spec fn macro_sections(ms: Seq<MacroView>) -> Seq<Seq<char>>
    decreases ms.len(),
{
    if ms.len() == 0 {
        Seq::empty()
    } else {
        macro_sections(ms.drop_last()) + macro_section(ms.last())
    }
}

/// The text of the configuration file.
pub open spec fn saved(c: ConfigView, t: ConfigTexts) -> Seq<char> {
    unlines(runtime_lines(c, t) + compile_lines(c, t) + macro_sections(c.macros))
}

/// A line of the file, taken apart.
#[derive(Debug)]
pub enum ConfigLine {
    Nothing,
    MacroHead(String),
    OtherHead,
    Entry(String, String),
}

impl View for ConfigLine {
    type V = LineView;

    open spec fn view(&self) -> LineView {
        match self {
            ConfigLine::Nothing => LineView::Nothing,
            ConfigLine::MacroHead(name) => LineView::MacroHead(name@),
            ConfigLine::OtherHead => LineView::OtherHead,
            ConfigLine::Entry(key, value) => LineView::Entry(key@, value@),
        }
    }
}

/// Takes a line of the file apart.
pub fn parse_line(raw: &str) -> (r: ConfigLine)
    ensures
        r@ == line_view(raw@),
{
    let line: String = trimmed(raw);
    let v: Vec<char> = to_chars(line.as_str());
    if v.len() == 0 || v[0] == '#' {
        return ConfigLine::Nothing;
    }
    if v[0] == '[' && v[v.len() - 1] == ']' {
        let inner: String = slice_text(line.as_str(), 1, v.len() - 1);
        proof {
            reveal_strlit("macro:");
        }
        return match after_prefix(inner.as_str(), "macro:") {
            Some(name) => ConfigLine::MacroHead(trimmed(name.as_str())),
            None => ConfigLine::OtherHead,
        };
    }
    match split_once(line.as_str(), '=') {
        Some((key, value)) => ConfigLine::Entry(trimmed(key.as_str()), trimmed(value.as_str())),
        None => ConfigLine::Nothing,
    }
}

/// The setting that a key names.
pub fn find_setting(key: &str) -> (r: Option<Setting>)
    ensures
        r == setting_of(key@),
{
    if same_text(key, "steps_per_mm") {
        Some(Setting::StepsPerMm)
    } else if same_text(key, "max_feedrate") {
        Some(Setting::MaxFeedrate)
    } else if same_text(key, "max_accel") {
        Some(Setting::MaxAccel)
    } else if same_text(key, "motor_current") {
        Some(Setting::MotorCurrent)
    } else if same_text(key, "y_home_dir") {
        Some(Setting::YHomeDir)
    } else if same_text(key, "y_min_pos") {
        Some(Setting::YMinPos)
    } else if same_text(key, "y_max_pos") {
        Some(Setting::YMaxPos)
    } else if same_text(key, "y_min_endstop_override") {
        Some(Setting::YMinEndstopOverride)
    } else if same_text(key, "y_min_endstop_pin") {
        Some(Setting::YMinEndstopPin)
    } else if same_text(key, "y_max_endstop_override") {
        Some(Setting::YMaxEndstopOverride)
    } else if same_text(key, "y_max_endstop_pin") {
        Some(Setting::YMaxEndstopPin)
    } else {
        None
    }
}

impl Config {
    /// Changes one setting.
    fn set(&mut self, s: Setting, value: &str, numbers: &NumberTable)
        ensures
            final(self)@ == with_setting(old(self)@, s, value@, numbers.reading()),
    {
        match s {
            Setting::StepsPerMm => if let Some(n) = numbers.read(value) {
                self.steps_y = n;
            },
            Setting::MaxFeedrate => if let Some(n) = numbers.read(value) {
                self.max_feedrate_y = n;
            },
            Setting::MaxAccel => if let Some(n) = numbers.read(value) {
                self.max_accel_y = n;
            },
            Setting::MotorCurrent => if let Some(n) = numbers.read(value) {
                self.motor_current_y = n;
            },
            Setting::YHomeDir => if let Some(n) = parse_i32(value) {
                self.y_home_dir = n;
            },
            Setting::YMinPos => if let Some(n) = numbers.read(value) {
                self.y_min_pos = n;
            },
            Setting::YMaxPos => if let Some(n) = numbers.read(value) {
                self.y_max_pos = n;
            },
            Setting::YMinEndstopOverride => {
                self.y_min_endstop_override = same_text(value, "true");
            },
            Setting::YMinEndstopPin => {
                self.y_min_endstop_pin = value.to_string();
            },
            Setting::YMaxEndstopOverride => {
                self.y_max_endstop_override = same_text(value, "true");
            },
            Setting::YMaxEndstopPin => {
                self.y_max_endstop_pin = value.to_string();
            },
        }
    }

    /// Adds a macro at the end, where there is one.
    fn add_macro(&mut self, m: Option<MacroDef>)
        ensures
            final(self)@ == with_macro(
                old(self)@,
                match m {
                    Some(m) => Some(m@),
                    None => None,
                },
            ),
    {
        if let Some(m) = m {
            let ghost before = macro_views(self.macros@);
            self.macros.push(m);
            assert(macro_views(self.macros@) == before.push(m@));
        }
    }

    /// Reads the configuration file. `numbers` says what the values that are
    /// single-precision numbers read as; see `number_texts`.
    pub fn load(&mut self, text: &str, numbers: &NumberTable)
        ensures
            final(self)@ == loaded(old(self)@, text@, numbers.reading()),
    {
        self.macros = Vec::new();
        assert(macro_views(self.macros@) == Seq::<MacroView>::empty());
        let all: Vec<String> = split_lines(text);
        let mut open: Option<MacroDef> = None;
        let mut i: usize = 0;
        let ghost read = numbers.reading();
        let ghost ls = lines(text@);
        let ghost start = Reader { config: self@, open: None };
        assert(ls.skip(0) == ls);
        while i < all.len()
            invariant
                i <= all.len(),
                texts(all@) == ls,
                read == numbers.reading(),
                read_lines(start, ls, read) == read_lines(
                    Reader {
                        config: self@,
                        open: match open {
                            Some(m) => Some(m@),
                            None => None,
                        },
                    },
                    ls.skip(i as int),
                    read,
                ),
            decreases all.len() - i,
        {
            assert(texts(all@)[i as int] == all[i as int]@);
            assert(ls.skip(i as int)[0] == all[i as int]@);
            assert(ls.skip(i as int).drop_first() == ls.skip(i + 1));
            match parse_line(all[i].as_str()) {
                ConfigLine::Nothing => {},
                ConfigLine::MacroHead(name) => {
                    self.add_macro(open);
                    let label: String = name.clone();
                    open = Some(MacroDef { name, label, gcode: String::new() });
                },
                ConfigLine::OtherHead => {
                    self.add_macro(open);
                    open = None;
                },
                ConfigLine::Entry(key, value) => {
                    match open {
                        Some(m) => {
                            let mut m: MacroDef = m;
                            if same_text(key.as_str(), "label") {
                                m.label = value;
                            } else if same_text(key.as_str(), "gcode") {
                                m.gcode = unflatten(value.as_str());
                            }
                            open = Some(m);
                        },
                        None => {
                            open = None;
                            if let Some(s) = find_setting(key.as_str()) {
                                self.set(s, value.as_str(), numbers);
                            }
                        },
                    }
                },
            }
            i += 1;
        }
        self.add_macro(open);
    }
}

/// The values in the file that have to be read as single-precision numbers,
/// in order.
pub fn number_texts(text: &str) -> (r: Vec<String>)
    ensures
        texts(r@) == numbers_on(false, lines(text@)),
{
    let all: Vec<String> = split_lines(text);
    let mut out: Vec<String> = Vec::new();
    let mut open: bool = false;
    let mut i: usize = 0;
    let ghost ls = lines(text@);
    assert(ls.skip(0) == ls);
    assert(texts(out@) == Seq::<Seq<char>>::empty());
    while i < all.len()
        invariant
            i <= all.len(),
            texts(all@) == ls,
            numbers_on(false, ls) == texts(out@) + numbers_on(open, ls.skip(i as int)),
        decreases all.len() - i,
    {
        assert(texts(all@)[i as int] == all[i as int]@);
        assert(ls.skip(i as int)[0] == all[i as int]@);
        assert(ls.skip(i as int).drop_first() == ls.skip(i + 1));
        let ghost before = texts(out@);
        match parse_line(all[i].as_str()) {
            ConfigLine::Nothing => {},
            ConfigLine::MacroHead(_) => {
                open = true;
            },
            ConfigLine::OtherHead => {
                open = false;
            },
            ConfigLine::Entry(key, value) => {
                if let Some(s) = find_setting(key.as_str()) {
                    if !open && is_numeric(s) {
                        out.push(value);
                        assert(texts(out@) == before.push(value@));
                    }
                }
            },
        }
        i += 1;
    }
    out
}

/// Whether the setting's value is a single-precision number.
fn is_numeric(s: Setting) -> (r: bool)
    ensures
        r == holds_number(s),
{
    match s {
        Setting::StepsPerMm
        | Setting::MaxFeedrate
        | Setting::MaxAccel
        | Setting::MotorCurrent
        | Setting::YMinPos
        | Setting::YMaxPos => true,
        _ => false,
    }
}

/// A line that gives a value to a key.
fn entry(key: &str, value: &str) -> (r: String)
    ensures
        r@ == entry_line(key@, value@),
{
    let mut out: String = key.to_string();
    out.push('=');
    out.append(value);
    assert(out@ == entry_line(key@, value@));
    out
}

/// `true` or `false`.
fn flag(b: bool) -> (r: &'static str)
    ensures
        r@ == bool_text(b),
{
    if b {
        "true"
    } else {
        "false"
    }
}

impl Config {
    /// The text of the configuration file. `t` holds the numbers as texts.
    pub fn save(&self, t: &ConfigTexts) -> (r: String)
        ensures
            r@ == saved(self@, *t),
    {
        let mut out: Vec<String> = Vec::new();
        out.push("# Zeus Test Stand Configuration".to_string());
        out.push("# Managed by Stepper Control app".to_string());
        out.push("".to_string());
        out.push("# Runtime settings (applied via G-code; also stored in EEPROM)".to_string());
        out.push(entry("steps_per_mm", t.steps_y.as_str()));
        out.push(entry("max_feedrate", t.max_feedrate_y.as_str()));
        out.push(entry("max_accel", t.max_accel_y.as_str()));
        let current: String = u32_text(self.motor_current_y.to_u32());
        out.push(entry("motor_current", current.as_str()));
        out.push("".to_string());
        out.push("# Compile-time settings (require Compile & Flash)".to_string());
        let home_dir: String = i32_text(self.y_home_dir);
        out.push(entry("y_home_dir", home_dir.as_str()));
        out.push(entry("y_min_pos", t.y_min_pos.as_str()));
        out.push(entry("y_max_pos", t.y_max_pos.as_str()));
        out.push(entry("y_min_endstop_override", flag(self.y_min_endstop_override)));
        out.push(entry("y_min_endstop_pin", self.y_min_endstop_pin.as_str()));
        out.push(entry("y_max_endstop_override", flag(self.y_max_endstop_override)));
        out.push(entry("y_max_endstop_pin", self.y_max_endstop_pin.as_str()));
        let ghost head = runtime_lines(self@, *t) + compile_lines(self@, *t);
        assert(texts(out@) == head);

        let ghost ms = self@.macros;
        let mut i: usize = 0;
        assert(texts(out@) == head + macro_sections(ms.take(0)));
        while i < self.macros.len()
            invariant
                i <= self.macros.len(),
                ms == macro_views(self.macros@),
                texts(out@) == head + macro_sections(ms.take(i as int)),
            decreases self.macros.len() - i,
        {
            let ghost before = texts(out@);
            let m: &MacroDef = &self.macros[i];
            out.push("".to_string());
            let mut section: String = "[macro:".to_string();
            section.append(m.name.as_str());
            section.append("]");
            out.push(section);
            out.push(entry("label", m.label.as_str()));
            let gcode: String = flatten(m.gcode.as_str());
            out.push(entry("gcode", gcode.as_str()));
            proof {
                assert(texts(out@) == before + macro_section(m@));
                assert(ms.take(i + 1).drop_last() == ms.take(i as int));
                assert(ms.take(i + 1).last() == m@);
            }
            i += 1;
        }
        assert(ms.take(i as int) == ms);
        join_lines(&out)
    }
}

} // verus!

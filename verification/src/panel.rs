//! What the window shows and what it lets the user do, as functions of the
//! state.

use vstd::prelude::*;
use vstd::utf8::is_ascii_chars;
use crate::editor::name_ok;
use crate::stepper::{concat, AppView, HomingState, StepperApp};
use crate::text::{
    ascii_lowercase, begins_with, blank, contains, eq_ignore_ascii_case, eq_ignore_ascii_case_spec,
    has_char, has_text, is_blank, lowercase, same_text, starts_with, to_lowercase,
};
use crate::text_facts::lemma_contains_middle;
use crate::text_laws::{all_white, law_blank, law_eq_ignore_case, law_starts_with};

verus! {

/// The kinds of log entries that look different.
#[derive(Clone, Copy, Debug, PartialEq, Eq, Structural)]
pub enum LogKind {
    /// A command that was sent.
    Sent,
    /// A line that the board sent.
    Received,
    /// A message of the build.
    Build,
    Error,
    Plain,
}

/// What an endstop is known to be.
#[derive(Clone, Copy, Debug, PartialEq, Eq, Structural)]
pub enum EndstopKind {
    Triggered,
    Open,
    Unknown,
}

/// The kind of a log entry, whose lower-case form is `lower`.
pub open spec fn log_kind_spec(entry: Seq<char>, lower: Seq<char>) -> LogKind {
    if starts_with(entry, ">"@) {
        LogKind::Sent
    } else if starts_with(entry, "<"@) {
        LogKind::Received
    } else if starts_with(entry, "[pio]"@) {
        LogKind::Build
    } else if contains(lower, "error"@) || entry.contains('✗') {
        LogKind::Error
    } else {
        LogKind::Plain
    }
}

/// The kind of an endstop's state, in whatever case `triggered` is written.
pub open spec fn endstop_kind_spec(state: Seq<char>) -> EndstopKind {
    if eq_ignore_ascii_case_spec(state, "triggered"@) {
        EndstopKind::Triggered
    } else if state == "open"@ {
        EndstopKind::Open
    } else {
        EndstopKind::Unknown
    }
}

/// The kind of a log entry, whose lower-case form is `lower`.
pub fn log_kind_of(entry: &str, lower: &str) -> (r: LogKind)
    ensures
        r == log_kind_spec(entry@, lower@),
{
    if begins_with(entry, ">") {
        LogKind::Sent
    } else if begins_with(entry, "<") {
        LogKind::Received
    } else if begins_with(entry, "[pio]") {
        LogKind::Build
    } else if has_text(lower, "error") || has_char(entry, '✗') {
        LogKind::Error
    } else {
        LogKind::Plain
    }
}

/// The kind of a log entry.
pub fn log_kind(entry: &str) -> (r: LogKind)
    ensures
        r == log_kind_spec(entry@, lowercase(entry@)),
        is_ascii_chars(entry@) ==> r == log_kind_spec(entry@, ascii_lowercase(entry@)),
{
    let lower: String = to_lowercase(entry);
    log_kind_of(entry, lower.as_str())
}

/// The kind of an endstop's state.
pub fn endstop_kind(state: &str) -> (r: EndstopKind)
    ensures
        r == endstop_kind_spec(state@),
{
    if eq_ignore_ascii_case(state, "triggered") {
        EndstopKind::Triggered
    } else if same_text(state, "open") {
        EndstopKind::Open
    } else {
        EndstopKind::Unknown
    }
}

/// How many seconds an endstop query is shown as pending.
pub const ENDSTOP_PENDING_SECS: u64 = 2;

/// What the control tab shows.
#[derive(Debug)]
pub struct ControlTab {
    /// Homing may be started.
    pub can_home: bool,
    /// What is known of the position.
    pub status: String,
    /// An endstop query is pending.
    pub querying: bool,
    /// An endstop query may be started.
    pub can_query: bool,
    /// The endstops are shown.
    pub show_endstops: bool,
    pub y_min: String,
    pub y_min_kind: EndstopKind,
    pub y_max: String,
    pub y_max_kind: EndstopKind,
    /// Moves and macros may be started.
    pub can_move: bool,
    /// There are macros to show.
    pub show_macros: bool,
}

/// What the configuration tab shows.
#[derive(Debug)]
pub struct ConfigTab {
    /// The paths of the files, where a firmware directory is given.
    pub paths: Option<String>,
    /// The configuration file may be loaded and saved.
    pub can_use_files: bool,
    /// The board may be asked for its settings and given new ones.
    pub can_talk: bool,
    /// The header may be written, and a build started.
    pub can_flash: bool,
    /// The title of the macro editor, where it is open.
    pub editor_title: Option<String>,
    /// The macro in the editor may be saved under its name.
    pub can_save_macro: bool,
    /// The macro's name has blanks in it.
    pub warn_name: bool,
}

/// The axis is being homed.
pub open spec fn busy(v: AppView) -> bool {
    v.homing_state == HomingState::Homing
}

/// Homing, moves and macros need a connection and an axis that is not being homed.
pub open spec fn can_act(v: AppView) -> bool {
    v.connected && !busy(v)
}

/// An endstop query is pending for two seconds; `age` is its age in whole
/// seconds.
pub open spec fn query_pending(age: Option<u64>) -> bool {
    age matches Some(secs) && secs < ENDSTOP_PENDING_SECS
}

/// What is known of the position; `position` is the current one with two
/// decimals.
pub open spec fn status_spec(v: AppView, position: Seq<char>) -> Seq<char> {
    match v.homing_state {
        HomingState::NotHomed => "Not homed"@,
        HomingState::Homing => "Homing…"@,
        HomingState::Homed => "Position:  "@ + position + " mm"@,
    }
}

/// The board may be asked for its settings and given new ones.
pub open spec fn can_talk(v: AppView) -> bool {
    v.connected && !v.reading_config && !busy(v)
}

/// The header may be written, and a build started.
pub open spec fn can_flash(v: AppView) -> bool {
    !is_blank(v.firmware_dir) && !v.compiling
}

/// The paths of the files in a firmware directory.
pub open spec fn paths_spec(dir: Seq<char>) -> Seq<char> {
    "Config:  "@ + dir + "\\zeus_config.cfg\n"@ + "Header:  "@ + dir
        + "\\Marlin\\Configuration_Zeus.h"@
}

impl StepperApp {
    /// What the control tab shows. `position` is the current position with two
    /// decimals; `endstop_age` is how many whole seconds ago the endstops were
    /// last asked for.
    pub fn control_tab(&self, position: &str, endstop_age: Option<u64>) -> (r: ControlTab)
        ensures
            r.can_home == can_act(self@),
            r.status@ == status_spec(self@, position@),
            r.querying == query_pending(endstop_age),
            r.can_query == (can_act(self@) && !query_pending(endstop_age)),
            r.show_endstops == (!query_pending(endstop_age) && (self@.endstop_y_min.len() > 0
                || self@.endstop_y_max.len() > 0)),
            r.y_min@ == "y_min: "@ + self@.endstop_y_min,
            r.y_min_kind == endstop_kind_spec(self@.endstop_y_min),
            r.y_max@ == "y_max: "@ + self@.endstop_y_max,
            r.y_max_kind == endstop_kind_spec(self@.endstop_y_max),
            r.can_move == can_act(self@),
            r.show_macros == (self@.config.macros.len() > 0),
            r.can_home <==> self.connected && self.homing_state != HomingState::Homing,
            r.can_move <==> self.connected && self.homing_state != HomingState::Homing,
            r.can_query <==> r.can_home && !r.querying,
            r.querying <==> endstop_age == Some(0u64) || endstop_age == Some(1u64),
            r.show_endstops ==> !r.querying,
    {
        let can_act: bool = self.connected && self.homing_state != HomingState::Homing;
        let querying: bool = match endstop_age {
            Some(secs) => secs < ENDSTOP_PENDING_SECS,
            None => false,
        };
        let status: String = match self.homing_state {
            HomingState::NotHomed => "Not homed".to_string(),
            HomingState::Homing => "Homing…".to_string(),
            HomingState::Homed => {
                let mut text: String = concat("Position:  ", position);
                text.append(" mm");
                text
            },
        };
        ControlTab {
            can_home: can_act,
            status,
            querying,
            can_query: can_act && !querying,
            show_endstops: !querying && (!self.endstop_y_min.as_str().is_empty()
                || !self.endstop_y_max.as_str().is_empty()),
            y_min: concat("y_min: ", self.endstop_y_min.as_str()),
            y_min_kind: endstop_kind(self.endstop_y_min.as_str()),
            y_max: concat("y_max: ", self.endstop_y_max.as_str()),
            y_max_kind: endstop_kind(self.endstop_y_max.as_str()),
            can_move: can_act,
            show_macros: self.config.macros.len() > 0,
        }
    }

    /// What the configuration tab shows.
    pub fn config_tab(&self) -> (r: ConfigTab)
        ensures
            match r.paths {
                Some(p) => self@.firmware_dir.len() > 0 && p@ == paths_spec(self@.firmware_dir),
                None => self@.firmware_dir.len() == 0,
            },
            r.can_use_files == !is_blank(self@.firmware_dir),
            r.can_talk == can_talk(self@),
            r.can_flash == can_flash(self@),
            match r.editor_title {
                Some(t) => self@.editor.editing && t@ == if self@.editor.idx is Some {
                    "Edit Macro"@
                } else {
                    "New Macro"@
                },
                None => !self@.editor.editing,
            },
            r.can_save_macro == name_ok(self@.editor.name),
            r.warn_name == (!is_blank(self@.editor.name) && self@.editor.name.contains(' ')),
            r.can_talk <==> self.connected && !self.reading_config && self.homing_state
                != HomingState::Homing,
            r.can_flash <==> r.can_use_files && !self.compiling,
            !(r.can_save_macro && r.warn_name),
    {
        let dir: &str = self.firmware_dir.as_str();
        let paths: Option<String> = if dir.is_empty() {
            None
        } else {
            let mut text: String = concat("Config:  ", dir);
            text.append("\\zeus_config.cfg\n");
            text.append("Header:  ");
            text.append(dir);
            text.append("\\Marlin\\Configuration_Zeus.h");
            Some(text)
        };
        let no_dir: bool = blank(dir);
        let editor_title: Option<String> = if !self.editor.editing {
            None
        } else if self.editor.idx.is_some() {
            Some("Edit Macro".to_string())
        } else {
            Some("New Macro".to_string())
        };
        ConfigTab {
            paths,
            can_use_files: !no_dir,
            can_talk: self.connected && !self.reading_config && self.homing_state
                != HomingState::Homing,
            can_flash: !no_dir && !self.compiling,
            editor_title,
            can_save_macro: self.editor.has_good_name(),
            warn_name: self.editor.has_blank_in_name(),
        }
    }
}

/// Log entries are told apart by how they are written: a command that was sent
/// is shown as such, and so are a line that was received and a line that the
/// build printed, whatever they say.
pub proof fn law_entries_recognised(text: Seq<char>, lower: Seq<char>)
    ensures
        log_kind_spec("> "@ + text, lower) == LogKind::Sent,
        log_kind_spec("< "@ + text, lower) == LogKind::Received,
        log_kind_spec("[pio] "@ + text, lower) == LogKind::Build,
{
    reveal_strlit("> ");
    reveal_strlit("< ");
    reveal_strlit("[pio] ");
    reveal_strlit(">");
    reveal_strlit("<");
    reveal_strlit("[pio]");
    let sent = "> "@ + text;
    let received = "< "@ + text;
    let build = "[pio] "@ + text;
    assert(sent.take(1) == ">"@);
    assert(received.take(1)[0] != ">"@[0]);
    assert(received.take(1) == "<"@);
    assert(build.take(1)[0] != ">"@[0]);
    assert(build.take(1)[0] != "<"@[0]);
    assert(build.take(5) == "[pio]"@);
}

/// What may be done when: homing and moves with a connection while the axis is
/// not being homed; talking about settings in the same case while they are not
/// being read; the firmware with a directory while no build is running. An
/// endstop query is pending in the first two seconds only.
pub proof fn law_what_is_allowed(v: AppView, age: Option<u64>)
    ensures
        can_act(v) <==> v.connected && (v.homing_state == HomingState::NotHomed || v.homing_state
            == HomingState::Homed),
        can_talk(v) <==> can_act(v) && !v.reading_config,
        can_flash(v) <==> !all_white(v.firmware_dir) && !v.compiling,
        query_pending(age) <==> age == Some(0u64) || age == Some(1u64),
        busy(v) <==> v.homing_state == HomingState::Homing,
{
    law_blank(v.firmware_dir);
}

/// The status tells the three cases apart, and names the position where it is
/// known.
pub proof fn law_status(v: AppView, position: Seq<char>)
    ensures
        v.homing_state == HomingState::Homed <==> starts_with(
            status_spec(v, position),
            "Position:"@,
        ),
        v.homing_state == HomingState::Homed ==> contains(status_spec(v, position), position),
        v.homing_state == HomingState::NotHomed <==> status_spec(v, position) == "Not homed"@,
        v.homing_state == HomingState::Homing <==> status_spec(v, position) == "Homing…"@,
{
    reveal_strlit("Position:");
    reveal_strlit("Position:  ");
    reveal_strlit("Not homed");
    reveal_strlit("Homing…");
    let known = "Position:  "@ + position + " mm"@;
    lemma_contains_middle("Position:  "@, position, " mm"@);
    assert(known.take(9) == "Position:"@);
    assert(known[0] == 'P');
    assert("Not homed"@[0] == 'N');
    assert("Homing…"@[0] == 'H');
    law_starts_with("Position:"@, "Not homed"@);
    law_starts_with("Position:"@, "Homing…"@);
    assert("Position:"@[0] == 'P');
}

/// An endstop counts as triggered where its state is `triggered` in any case,
/// as open where it is `open` to the letter, and is unknown otherwise.
pub proof fn law_endstop_kind(state: Seq<char>)
    ensures
        endstop_kind_spec(state) == EndstopKind::Triggered <==> ascii_lowercase(state) == seq![
            't',
            'r',
            'i',
            'g',
            'g',
            'e',
            'r',
            'e',
            'd',
        ],
        endstop_kind_spec(state) == EndstopKind::Open <==> state == seq!['o', 'p', 'e', 'n'],
{
    reveal_strlit("triggered");
    reveal_strlit("open");
    let word = "triggered"@;
    law_eq_ignore_case(state, word);
    law_eq_ignore_case(word, word);
    assert(word == seq!['t', 'r', 'i', 'g', 'g', 'e', 'r', 'e', 'd']);
    assert(ascii_lowercase(word) == word);
    assert("open"@ == seq!['o', 'p', 'e', 'n']);
    assert(ascii_lowercase(state).len() == state.len());
}

/// What a log entry is shown as, told by its first character: `>` for what was
/// sent, `<` for what was received. Of the others, those marked `[pio]` are of
/// the build; of the rest, those that speak of an error in any case, or hold a
/// cross, are errors.
pub proof fn law_log_kind(entry: Seq<char>, lower: Seq<char>)
    ensures
        entry.len() > 0 && entry[0] == '>' ==> log_kind_spec(entry, lower) == LogKind::Sent,
        entry.len() > 0 && entry[0] == '<' ==> log_kind_spec(entry, lower) == LogKind::Received,
        log_kind_spec(entry, lower) == LogKind::Sent ==> entry[0] == '>',
        log_kind_spec(entry, lower) == LogKind::Received ==> entry[0] == '<',
        log_kind_spec(entry, lower) == LogKind::Build <==> entry.len() >= 5 && entry.take(5)
            == seq!['[', 'p', 'i', 'o', ']'],
        entry.len() == 0 || (entry[0] != '>' && entry[0] != '<' && entry[0] != '[') ==> (
        log_kind_spec(entry, lower) == LogKind::Error <==> contains(
            lower,
            seq!['e', 'r', 'r', 'o', 'r'],
        ) || entry.contains('✗')),
{
    reveal_strlit(">");
    reveal_strlit("<");
    reveal_strlit("[pio]");
    reveal_strlit("error");
    assert("[pio]"@ == seq!['[', 'p', 'i', 'o', ']']);
    assert("error"@ == seq!['e', 'r', 'r', 'o', 'r']);
    law_starts_with(">"@, entry);
    law_starts_with("<"@, entry);
    law_starts_with("[pio]"@, entry);
    if entry.len() >= 5 && entry.take(5) == seq!['[', 'p', 'i', 'o', ']'] {
        assert(entry[0] == entry.take(5)[0]);
    }
    if starts_with(entry, "[pio]"@) {
        assert(entry.take(5)[0] == '[');
    }
    assert(">"@[0] == '>' && "<"@[0] == '<' && "[pio]"@[0] == '[');
}

/// The paths that are shown name the firmware directory and both files in it.
pub proof fn law_paths(dir: Seq<char>)
    ensures
        contains(paths_spec(dir), dir + "\\zeus_config.cfg"@),
        contains(paths_spec(dir), dir + "\\Marlin\\Configuration_Zeus.h"@),
{
    reveal_strlit("\\zeus_config.cfg\n");
    reveal_strlit("\\zeus_config.cfg");
    let p = paths_spec(dir);
    let config = dir + "\\zeus_config.cfg"@;
    let header = dir + "\\Marlin\\Configuration_Zeus.h"@;
    assert("\\zeus_config.cfg\n"@ == "\\zeus_config.cfg"@ + seq!['\n']);
    let behind = seq!['\n'] + "Header:  "@ + header;
    lemma_contains_middle("Config:  "@, config, behind);
    assert("Config:  "@ + config + behind == p);
    let front = "Config:  "@ + dir + "\\zeus_config.cfg\n"@ + "Header:  "@;
    lemma_contains_middle(front, header, Seq::empty());
    assert(front + header + Seq::<char>::empty() == p);
}

} // verus!

//! What the board sends and what it does to the state.

use vstd::prelude::*;
use vstd::utf8::is_ascii_chars;
use crate::config::{ConfigView, NumberTable};
use crate::num::Num;
use crate::stepper::{
    concat, log, one, send, step_views, AppView, HomingState, Message, Step, StepView, StepperApp,
};
use crate::text::{
    after_prefix, ascii_lowercase, begins_with, contains, find_text, has_text, is_blank, is_first,
    lowercase, slice_text, starts_with, to_chars, to_lowercase, trim, trim_start, trimmed,
    trimmed_start,
};
use crate::text_facts::{clean_ends, lemma_trim_result};

verus! {

/// What stands before the value of an axis: a blank and the axis letter.
pub open spec fn axis_mark(axis: char) -> Seq<char> {
    seq![' ', axis]
}

/// The first position at which `p` stands in `s`.
pub open spec fn first_place(s: Seq<char>, p: Seq<char>) -> int {
    choose|i: int| is_first(s, p, i)
}

/// The value that a reply gives for an axis: what stands behind the first blank
/// with the axis letter, up to the next blank, tab or line ending.
pub open spec fn axis_value(line: Seq<char>, axis: char) -> Option<Seq<char>> {
    if contains(line, axis_mark(axis)) {
        Some(field(line.skip(first_place(line, axis_mark(axis)) + 2)))
    } else {
        None
    }
}

/// The number that a line gives for the axis of the stand, as `read` reads it.
pub open spec fn y_number(
    line: Seq<char>,
    read: spec_fn(Seq<char>) -> Option<Num>,
) -> Option<Num> {
    match axis_value(line, 'Y') {
        Some(value) => read(value),
        None => None,
    }
}

/// The characters before the first blank, tab or line ending.
pub open spec fn field(s: Seq<char>) -> Seq<char>
    decreases s.len(),
{
    if s.len() == 0 || s[0] == ' ' || s[0] == '\t' || s[0] == '\r' || s[0] == '\n' {
        Seq::empty()
    } else {
        seq![s[0]] + field(s.drop_first())
    }
}

/// The value that a reply gives for an axis, as text. Whether it reads as a
/// number is for the caller to say.
pub fn parse_axis_value(line: &str, axis: char) -> (r: Option<String>)
    requires
        (axis as u32) < 0x80 || !contains(line@, axis_mark(axis)),
    ensures
        match r {
            Some(value) => axis_value(line@, axis) == Some(value@),
            None => axis_value(line@, axis) is None,
        },
{
    let mut needle: String = " ".to_string();
    needle.push(axis);
    proof {
        reveal_strlit(" ");
        assert(needle@ == axis_mark(axis));
    }
    match find_text(line, needle.as_str()) {
        None => None,
        Some(pos) => {
            let v: Vec<char> = to_chars(line);
            assert(pos + axis_mark(axis).len() <= v.len());
            assert(pos == first_place(line@, axis_mark(axis))) by {
                assert(is_first(line@, axis_mark(axis), pos as int));
                let k = first_place(line@, axis_mark(axis));
                assert(is_first(line@, axis_mark(axis), k));
            }
            let start: usize = pos + 2;
            let mut end: usize = start;
            let ghost after = line@.skip(pos + 2);
            assert(after == v@.skip(end as int));
            assert(v@.subrange(start as int, end as int) + field(v@.skip(end as int)) == field(
                after,
            ));
            while end < v.len() && v[end] != ' ' && v[end] != '\t' && v[end] != '\r' && v[end]
                != '\n'
                invariant
                    start <= end <= v.len(),
                    v@.subrange(start as int, end as int) + field(v@.skip(end as int)) == field(
                        after,
                    ),
                decreases v.len() - end,
            {
                assert(v@.skip(end as int).drop_first() == v@.skip(end + 1));
                assert(v@.subrange(start as int, end + 1) == v@.subrange(
                    start as int,
                    end as int,
                ).push(v[end as int]));
                assert(v@.subrange(start as int, end + 1) + field(v@.skip(end + 1)) == field(
                    after,
                ));
                end += 1;
            }
            let value: String = slice_text(line, start, end);
            assert(value@ == field(after));
            Some(value)
        },
    }
}

/// A line from the board with the number that it gives for the axis. `numbers`
/// says what its value reads as.
pub fn read_message(text: String, numbers: &NumberTable) -> (m: Message)
    ensures
        m.text@ == text@,
        m.y == y_number(text@, numbers.reading()),
{
    let y: Option<Num> = match parse_axis_value(text.as_str(), 'Y') {
        Some(value) => numbers.read(value.as_str()),
        None => None,
    };
    Message { text, y }
}

/// What reading from the serial line gave.
#[derive(Debug)]
pub enum ReadEvent {
    /// The end of the stream.
    End,
    /// A line.
    Line(String),
    /// Nothing yet.
    TimedOut,
    /// An error that reading does not recover from.
    Failed,
}

/// What the reader does next.
#[derive(Debug)]
pub enum ReadAction {
    Stop,
    /// Hands this text on, then reads on.
    Forward(String),
    Again,
}

/// What the reader does after a read: blank lines are passed over, other lines
/// are handed on without the white space around them.
pub fn reader_step(event: &ReadEvent) -> (r: ReadAction)
    ensures
        match *event {
            ReadEvent::End => r is Stop,
            ReadEvent::Line(line) => if is_blank(line@) {
                r is Again
            } else {
                r matches ReadAction::Forward(t) && t@ == trim(line@)
            },
            ReadEvent::TimedOut => r is Again,
            ReadEvent::Failed => r is Stop,
        },
        r is Stop <==> event is End || event is Failed,
        r matches ReadAction::Forward(t) ==> t@.len() > 0 && clean_ends(t@),
{
    proof {
        if let ReadEvent::Line(line) = event {
            lemma_trim_result(line@);
        }
    }
    match event {
        ReadEvent::End => ReadAction::Stop,
        ReadEvent::Line(line) => {
            let t: String = trimmed(line.as_str());
            if t.as_str().is_empty() {
                ReadAction::Again
            } else {
                ReadAction::Forward(t)
            }
        },
        ReadEvent::TimedOut => ReadAction::Again,
        ReadEvent::Failed => ReadAction::Stop,
    }
}

/// The board reports that it is done.
pub open spec fn is_ok(msg: Seq<char>) -> bool {
    starts_with(trim_start(msg), "ok"@)
}

/// The configuration after a line of the board's report on its settings.
pub open spec fn reported(c: ConfigView, msg: Seq<char>, y: Option<Num>) -> ConfigView {
    match y {
        Some(n) => ConfigView {
            steps_y: if contains(msg, "M92"@) { n } else { c.steps_y },
            max_feedrate_y: if contains(msg, "M203"@) { n } else { c.max_feedrate_y },
            max_accel_y: if contains(msg, "M201"@) { n } else { c.max_accel_y },
            motor_current_y: if contains(msg, "M906"@) { n } else { c.motor_current_y },
            ..c
        },
        None => c,
    }
}

/// The state after a line on the endstops, given in lower case. Any other line
/// changes nothing.
pub open spec fn endstop_noted(v: AppView, lower: Seq<char>) -> AppView {
    if starts_with(lower, "y_min:"@) {
        AppView { endstop_y_min: trim(lower.skip(6)), ..v }
    } else if starts_with(lower, "y_max:"@) {
        AppView { endstop_y_max: trim(lower.skip(6)), ..v }
    } else {
        v
    }
}

/// The state after a line from the board, whose lower-case form is `lower`.
/// Endstop lines count at any time; settings count only while the
/// configuration is being read. `ok` ends reading, and ends homing with the
/// axis at its upper limit.
pub open spec fn after_line(
    v: AppView,
    msg: Seq<char>,
    lower: Seq<char>,
    y: Option<Num>,
) -> AppView {
    let noted = endstop_noted(v, lower);
    let homed = is_ok(msg) && v.homing_state == HomingState::Homing;
    AppView {
        config: if v.reading_config { reported(v.config, msg, y) } else { v.config },
        reading_config: v.reading_config && !is_ok(msg),
        homing_state: if homed { HomingState::Homed } else { v.homing_state },
        current_pos: if homed { v.max_pos } else { v.current_pos },
        ..noted
    }
}

/// The steps that follow on a line from the board.
pub open spec fn line_steps(v: AppView, msg: Seq<char>, max_pos: Seq<char>) -> Seq<StepView> {
    seq![StepView::Log("< "@ + msg)] + (if is_ok(msg) && v.reading_config {
        seq![StepView::Log("Config loaded from board."@)]
    } else {
        seq![]
    }) + (if is_ok(msg) && v.homing_state == HomingState::Homing {
        seq![
            StepView::Send("G91"@),
            StepView::Log(
                "Homed. Position set to "@ + max_pos + " mm. Relative moves active."@,
            ),
        ]
    } else {
        seq![]
    })
}

/// The state after lines from the board.
pub open spec fn after_messages(v: AppView, msgs: Seq<Message>) -> AppView
    decreases msgs.len(),
{
    if msgs.len() == 0 {
        v
    } else {
        let m = msgs.last();
        after_line(after_messages(v, msgs.drop_last()), m.text@, lowercase(m.text@), m.y)
    }
}

/// The steps that follow on lines from the board.
pub open spec fn message_steps(v: AppView, msgs: Seq<Message>, max_pos: Seq<char>) -> Seq<StepView>
    decreases msgs.len(),
{
    if msgs.len() == 0 {
        Seq::empty()
    } else {
        message_steps(v, msgs.drop_last(), max_pos) + line_steps(
            after_messages(v, msgs.drop_last()),
            msgs.last().text@,
            max_pos,
        )
    }
}

impl StepperApp {
    /// Takes note of a line on the endstops, given in lower case.
    pub fn note_endstop(&mut self, lower: &str)
        ensures
            final(self)@ == endstop_noted(old(self)@, lower@),
    {
        proof {
            reveal_strlit("y_min:");
            reveal_strlit("y_max:");
        }
        if let Some(rest) = after_prefix(lower, "y_min:") {
            self.endstop_y_min = trimmed(rest.as_str());
        } else if let Some(rest) = after_prefix(lower, "y_max:") {
            self.endstop_y_max = trimmed(rest.as_str());
        }
    }

    /// Handles a line from the board, whose lower-case form is `lower`.
    /// `max_pos` is the upper limit with one decimal.
    pub fn handle_line(
        &mut self,
        msg: &str,
        lower: &str,
        y: Option<Num>,
        max_pos: &str,
    ) -> (r: Vec<Step>)
        ensures
            final(self)@ == after_line(old(self)@, msg@, lower@, y),
            step_views(r@) == line_steps(old(self)@, msg@, max_pos@),
    {
        if self.reading_config {
            if let Some(n) = y {
                if has_text(msg, "M92") {
                    self.config.steps_y = n;
                }
                if has_text(msg, "M203") {
                    self.config.max_feedrate_y = n;
                }
                if has_text(msg, "M201") {
                    self.config.max_accel_y = n;
                }
                if has_text(msg, "M906") {
                    self.config.motor_current_y = n;
                }
            }
        }
        self.note_endstop(lower);

        let mut out: Vec<Step> = one(Step::Log(concat("< ", msg)));
        let start: String = trimmed_start(msg);
        let ok: bool = begins_with(start.as_str(), "ok");
        if ok && self.reading_config {
            self.reading_config = false;
            out.push(log("Config loaded from board."));
        }
        if ok && self.homing_state == HomingState::Homing {
            self.homing_state = HomingState::Homed;
            self.current_pos = self.max_pos;
            out.push(send("G91"));
            let mut done: String = concat("Homed. Position set to ", max_pos);
            done.append(" mm. Relative moves active.");
            out.push(Step::Log(done));
        }
        assert(step_views(out@) == line_steps(old(self)@, msg@, max_pos@));
        out
    }

    /// Handles lines from the board, in order. `max_pos` is the upper limit
    /// with one decimal.
    pub fn poll_serial(&mut self, msgs: &Vec<Message>, max_pos: &str) -> (r: Vec<Step>)
        ensures
            final(self)@ == after_messages(old(self)@, msgs@),
            step_views(r@) == message_steps(old(self)@, msgs@, max_pos@),
            forall|i: int|
                0 <= i < msgs@.len() && is_ascii_chars(msgs@[i].text@) ==> lowercase(
                    #[trigger] msgs@[i].text@,
                ) == ascii_lowercase(msgs@[i].text@),
    {
        let ghost before = self@;
        let mut out: Vec<Step> = Vec::new();
        let mut i: usize = 0;
        assert(step_views(out@) == Seq::<StepView>::empty());
        while i < msgs.len()
            invariant
                i <= msgs.len(),
                self@ == after_messages(before, msgs@.take(i as int)),
                step_views(out@) == message_steps(before, msgs@.take(i as int), max_pos@),
                forall|j: int|
                    0 <= j < i && is_ascii_chars(msgs@[j].text@) ==> lowercase(
                        #[trigger] msgs@[j].text@,
                    ) == ascii_lowercase(msgs@[j].text@),
            decreases msgs.len() - i,
        {
            let m: &Message = &msgs[i];
            let lower: String = to_lowercase(m.text.as_str());
            let ghost so_far = step_views(out@);
            let mut steps: Vec<Step> = self.handle_line(
                m.text.as_str(),
                lower.as_str(),
                m.y,
                max_pos,
            );
            let ghost new = step_views(steps@);
            out.append(&mut steps);
            proof {
                assert(msgs@.take(i + 1).drop_last() == msgs@.take(i as int));
                assert(step_views(out@) == so_far + new);
            }
            i += 1;
        }
        assert(msgs@.take(i as int) == msgs@);
        out
    }
}

/// What the board sends changes the configuration only while it is being read,
/// and then only the four runtime settings.
pub proof fn law_config_only_while_reading(v: AppView, msgs: Seq<Message>)
    ensures
        !v.reading_config ==> after_messages(v, msgs).config == v.config,
        after_messages(v, msgs).config == (ConfigView {
            steps_y: after_messages(v, msgs).config.steps_y,
            max_feedrate_y: after_messages(v, msgs).config.max_feedrate_y,
            max_accel_y: after_messages(v, msgs).config.max_accel_y,
            motor_current_y: after_messages(v, msgs).config.motor_current_y,
            ..v.config
        }),
    decreases msgs.len(),
{
    if msgs.len() > 0 {
        law_config_only_while_reading(v, msgs.drop_last());
        law_reading_ends_with_ok(v, msgs.drop_last());
    }
}

/// Reading the configuration goes on until the board says `ok`.
pub proof fn law_reading_ends_with_ok(v: AppView, msgs: Seq<Message>)
    ensures
        after_messages(v, msgs).reading_config <==> v.reading_config && forall|i: int|
            0 <= i < msgs.len() ==> !is_ok((#[trigger] msgs[i]).text@),
    decreases msgs.len(),
{
    if msgs.len() > 0 {
        let head = msgs.drop_last();
        law_reading_ends_with_ok(v, head);
        assert(msgs.last() == msgs[msgs.len() - 1]);
        assert(forall|i: int| 0 <= i < head.len() ==> #[trigger] head[i] == msgs[i]);
        if after_messages(v, msgs).reading_config {
            assert forall|i: int| 0 <= i < msgs.len() implies !is_ok(
                (#[trigger] msgs[i]).text@,
            ) by {
                if i < head.len() {
                    assert(head[i] == msgs[i]);
                }
            }
        }
    }
}

/// Lines on the endstops count at any time, whatever else is going on: what is
/// known of the endstops after a line depends on that line and on what was
/// known before, and on nothing else.
pub proof fn law_endstops_noted_at_any_time(
    v: AppView,
    w: AppView,
    msg: Seq<char>,
    lower: Seq<char>,
    y: Option<Num>,
    z: Option<Num>,
)
    requires
        v.endstop_y_min == w.endstop_y_min,
        v.endstop_y_max == w.endstop_y_max,
    ensures
        after_line(v, msg, lower, y).endstop_y_min == after_line(w, msg, lower, z).endstop_y_min,
        after_line(v, msg, lower, y).endstop_y_max == after_line(w, msg, lower, z).endstop_y_max,
{
}

} // verus!

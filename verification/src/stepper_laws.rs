//! What the log, the commands to the board and the state at start-up come to.

use vstd::arithmetic::power2::lemma2_to64;
use vstd::prelude::*;
use crate::config::Config;
use crate::decimal::{all_digits, decimal, digits_value, lemma_decimal};
use crate::gcode::{commands, law_commands_line_by_line, macro_views, MacroDef};
use crate::num::{lemma_saturated_range, Num};
use crate::num_laws::stands_for;
use crate::project::{
    after_build, after_build_message, build_done, file_message, flash_steps, header_steps,
    FileStep,
};
use crate::serial::after_line;
use crate::serial_laws::{law_endstop_is_what_the_line_says, y_max_mark, y_min_mark};
use crate::stepper::{
    after_query, after_read, after_send, after_step, apply_steps, connect_steps, initial,
    keep_steps, log_tail, macro_steps, on_the_wire, query_steps, read_steps, reset_steps, sent,
    step_views, AppView, ConnectOutcome, HomingState, RuntimeTexts, SendOutcome, Step, StepView,
    StepperApp, Tab,
};
use crate::text::{contains, texts, trim};
use crate::text_facts::lemma_contains_middle;
use crate::text_laws::{all_white, law_blank};

verus! {

/// A log keeps its last 500 entries, in order, and all of them where there are
/// no more.
pub proof fn law_log_keeps_last(log: Seq<Seq<char>>, i: int)
    requires
        0 <= i < log_tail(log).len(),
    ensures
        log_tail(log).len() == if log.len() > 500 {
            500
        } else {
            log.len() as int
        },
        log_tail(log)[i] == log[i + log.len() - log_tail(log).len()],
{
}

/// A message goes behind all others in the log; what was there stays, but for
/// the oldest entries where there would be more than 500.
pub proof fn law_logged_last(v: AppView, msg: Seq<char>, outcome: SendOutcome)
    ensures
        ({
            let after = after_step(v, StepView::Log(msg), outcome);
            &&& after == (AppView { log: after.log, ..v })
            &&& after.log.last() == msg
            &&& v.log.len() < 500 ==> after.log == v.log.push(msg)
            &&& v.log.len() >= 500 ==> after.log == v.log.push(msg).skip(v.log.len() - 499)
        }),
{
}

/// A command that was sent is logged behind `> `; one that could not be sent
/// ends the connection and has its error logged; without a port nothing
/// happens.
pub proof fn law_send_outcomes(v: AppView, cmd: Seq<char>, outcome: SendOutcome)
    ensures
        ({
            let after = after_step(v, StepView::Send(cmd), outcome);
            &&& after == after_send(v, cmd, outcome)
            &&& outcome is NoPort ==> after == v
            &&& outcome is Sent ==> after == (AppView {
                log: v.log.push(seq!['>', ' '] + cmd),
                ..v
            })
            &&& outcome matches SendOutcome::Failed(e) ==> {
                &&& after == (AppView { log: after.log, connected: false, ..v })
                &&& after.log.drop_last() == v.log
                &&& contains(after.log.last(), e@)
                &&& after.log.last().skip(12) == e@
            }
        }),
{
    reveal_strlit("> ");
    reveal_strlit("Send error: ");
    assert("> "@ == seq!['>', ' ']);
    if let SendOutcome::Failed(e) = outcome {
        let entry = "Send error: "@ + e@;
        lemma_contains_middle("Send error: "@, e@, Seq::empty());
        assert("Send error: "@ + e@ + Seq::<char>::empty() == entry);
        assert(entry.skip(12) == e@);
        assert(v.log.push(entry).drop_last() == v.log);
    }
}

/// A command goes over the line with one line feed behind it.
pub proof fn law_wire_line(cmd: Seq<char>)
    ensures
        on_the_wire(cmd) == cmd.push('\n'),
        on_the_wire(cmd).drop_last() == cmd,
{
    reveal_strlit("\n");
    assert(on_the_wire(cmd) == cmd.push('\n'));
}

/// The commands to the board, character by character: `G91` on a new
/// connection, `M119` for the endstops, `M503` to read the settings, `M500` to
/// keep and `M502` to reset them. Each of these sends that command and no other.
pub proof fn law_board_commands(error: String)
    ensures
        sent(connect_steps(ConnectOutcome::Open)) == seq![seq!['G', '9', '1']],
        sent(connect_steps(ConnectOutcome::CloneFailed(error))).len() == 0,
        sent(connect_steps(ConnectOutcome::OpenFailed(error))).len() == 0,
        sent(query_steps()) == seq![seq!['M', '1', '1', '9']],
        sent(read_steps()) == seq![seq!['M', '5', '0', '3']],
        sent(keep_steps()) == seq![seq!['M', '5', '0', '0']],
        sent(reset_steps()) == seq![seq!['M', '5', '0', '2']],
{
    reveal_strlit("G91");
    reveal_strlit("M119");
    reveal_strlit("M503");
    reveal_strlit("M500");
    reveal_strlit("M502");
    assert("G91"@ == seq!['G', '9', '1']);
    assert("M119"@ == seq!['M', '1', '1', '9']);
    assert("M503"@ == seq!['M', '5', '0', '3']);
    assert("M500"@ == seq!['M', '5', '0', '0']);
    assert("M502"@ == seq!['M', '5', '0', '2']);
    lemma_sent_one(query_steps());
    lemma_sent_one(read_steps());
    lemma_sent_one(connect_steps(ConnectOutcome::CloneFailed(error)));
    lemma_sent_one(connect_steps(ConnectOutcome::OpenFailed(error)));
    lemma_sent_two(connect_steps(ConnectOutcome::Open));
    lemma_sent_two(keep_steps());
    lemma_sent_two(reset_steps());
}

proof fn lemma_sent_one(steps: Seq<StepView>)
    requires
        steps.len() == 1,
    ensures
        sent(steps) == match steps[0] {
            StepView::Send(cmd) => seq![cmd],
            StepView::Log(_) => seq![],
        },
{
    reveal_with_fuel(sent, 2);
    assert(steps.drop_last().len() == 0);
}

proof fn lemma_sent_two(steps: Seq<StepView>)
    requires
        steps.len() == 2,
    ensures
        steps[0] is Send && steps[1] is Log ==> sent(steps) == seq![steps[0]->Send_0],
        steps[0] is Log && steps[1] is Send ==> sent(steps) == seq![steps[1]->Send_0],
{
    let head = steps.drop_last();
    lemma_sent_one(head);
    assert(head[0] == steps[0]);
    assert(steps.last() == steps[1]);
}

/// An error on connecting is told with its own words.
pub proof fn law_connect_errors(error: String)
    ensures
        contains(connect_steps(ConnectOutcome::CloneFailed(error))[0]->Log_0, error@),
        contains(connect_steps(ConnectOutcome::OpenFailed(error))[0]->Log_0, error@),
{
    lemma_contains_middle("Failed to clone port: "@, error@, Seq::empty());
    lemma_contains_middle("Connect error: "@, error@, Seq::empty());
    assert("Failed to clone port: "@ + error@ + Seq::<char>::empty() == "Failed to clone port: "@
        + error@);
    assert("Connect error: "@ + error@ + Seq::<char>::empty() == "Connect error: "@ + error@);
}

/// The commands that give the board its runtime settings: four, in order, each
/// with the text of its own setting behind the code and ` Y`.
pub proof fn law_apply_commands(v: AppView, t: RuntimeTexts)
    ensures
        ({
            let steps = apply_steps(v.config, t);
            &&& steps.len() == 5
            &&& steps[0] == StepView::Send(seq!['M', '9', '2', ' ', 'Y'] + t.steps_y@)
            &&& steps[1] == StepView::Send(seq!['M', '2', '0', '3', ' ', 'Y'] + t.max_feedrate_y@)
            &&& steps[2] == StepView::Send(seq!['M', '2', '0', '1', ' ', 'Y'] + t.max_accel_y@)
            &&& steps[3] is Send
            &&& steps[3]->Send_0.take(6) == seq!['M', '9', '0', '6', ' ', 'Y']
            &&& digits_value(steps[3]->Send_0.skip(6))
                == v.config.motor_current_y.saturated_u32()
            &&& all_digits(steps[3]->Send_0.skip(6))
            &&& steps[4] is Log
        }),
{
    reveal_strlit("M92 Y");
    reveal_strlit("M203 Y");
    reveal_strlit("M201 Y");
    reveal_strlit("M906 Y");
    assert("M92 Y"@ == seq!['M', '9', '2', ' ', 'Y']);
    assert("M203 Y"@ == seq!['M', '2', '0', '3', ' ', 'Y']);
    assert("M201 Y"@ == seq!['M', '2', '0', '1', ' ', 'Y']);
    assert("M906 Y"@ == seq!['M', '9', '0', '6', ' ', 'Y']);
    let n = v.config.motor_current_y.saturated_u32() as nat;
    lemma_saturated_range(v.config.motor_current_y);
    lemma_decimal(n);
    let cmd = "M906 Y"@ + decimal(n);
    assert(cmd.skip(6) == decimal(n));
    assert(cmd.take(6) == "M906 Y"@);
}

/// Asking for the endstops forgets what was known of them, and an answer then
/// tells of the endstop that it names and of no other.
pub proof fn law_query_then_answer(
    v: AppView,
    state: Seq<char>,
    msg: Seq<char>,
    y: Option<Num>,
)
    ensures
        after_query(v) == (AppView {
            endstop_y_min: Seq::empty(),
            endstop_y_max: Seq::empty(),
            ..v
        }),
        ({
            let after = after_line(after_query(v), msg, y_min_mark() + state, y);
            after.endstop_y_min == trim(state) && after.endstop_y_max.len() == 0
        }),
        ({
            let after = after_line(after_query(v), msg, y_max_mark() + state, y);
            after.endstop_y_max == trim(state) && after.endstop_y_min.len() == 0
        }),
{
    law_endstop_is_what_the_line_says(after_query(v), state, msg, y);
}

/// Asking for the settings begins reading and changes nothing else.
pub proof fn law_read_begins_reading(v: AppView)
    ensures
        after_read(v).reading_config,
        after_read(v) == (AppView { reading_config: true, ..v }),
        after_read(v).config == v.config,
{
}

/// Running a macro sends its lines, one command each, told by the first line of
/// its G-code text: a blank line and a comment send nothing, any other is sent
/// without the white space around it before the rest.
pub proof fn law_macro_sends_line_by_line(
    v: AppView,
    w: AppView,
    idx: int,
    line: Seq<char>,
    rest: Seq<char>,
)
    requires
        0 <= idx < v.config.macros.len(),
        idx < w.config.macros.len(),
        !line.contains('\n'),
        v.config.macros[idx].gcode == line + seq!['\n'] + rest,
        w.config.macros[idx].gcode == rest,
    ensures
        macro_steps(v, idx) == if all_white(line) || trim(line)[0] == '#' {
            macro_steps(w, idx)
        } else {
            seq![StepView::Send(trim(line))] + macro_steps(w, idx)
        },
        macro_steps(v, v.config.macros.len() as int).len() == 0,
{
    law_commands_line_by_line(line, rest);
    law_blank(line);
    let f = |c: Seq<char>| StepView::Send(c);
    if !(all_white(line) || trim(line)[0] == '#') {
        assert((seq![trim(line)] + commands(rest)).map_values(f) == seq![
            StepView::Send(trim(line)),
        ] + commands(rest).map_values(f));
    }
}

/// The numbers at start-up: moves of 10 mm at 1000 mm/min within 5 and 500 mm,
/// 80 steps per millimetre, a feedrate and an acceleration of 500, 800 mA, and
/// a range up to 500 mm.
pub proof fn law_start_values()
    ensures
        stands_for(initial().distance, 10),
        stands_for(initial().speed, 1000),
        stands_for(initial().min_pos, 5),
        stands_for(initial().max_pos, 500),
        stands_for(initial().config.steps_y, 80),
        stands_for(initial().config.max_feedrate_y, 500),
        stands_for(initial().config.max_accel_y, 500),
        stands_for(initial().config.motor_current_y, 800),
        stands_for(initial().config.y_max_pos, 500),
        initial().config.y_min_pos.bits == 0,
        initial().current_pos.bits == 0,
        initial().config.y_home_dir == 1,
        !initial().connected,
        !initial().compiling,
        !initial().reading_config,
        !initial().editor.editing,
        !initial().config.y_min_endstop_override,
        !initial().config.y_max_endstop_override,
        initial().homing_state == HomingState::NotHomed,
        initial().active_tab == Tab::Control,
        initial().config.macros.len() == 0,
        initial().log.len() == 0,
        initial().firmware_dir.len() == 0,
        initial().endstop_y_min.len() == 0,
        initial().endstop_y_max.len() == 0,
{
    lemma2_to64();
}

/// A message of the build goes into the log, but for the one that ends it,
/// which leaves no trace there.
pub proof fn law_build_messages_logged(v: AppView, msgs: Seq<Seq<char>>)
    requires
        v.log.len() + msgs.len() <= 500,
        forall|i: int| 0 <= i < msgs.len() ==> #[trigger] msgs[i] != build_done(),
    ensures
        after_build(v, msgs).log == v.log + msgs,
        after_build(v, msgs.push(build_done())).log == v.log + msgs,
        after_build(v, msgs).compiling == v.compiling,
        !after_build(v, msgs.push(build_done())).compiling,
    decreases msgs.len(),
{
    assert(msgs.push(build_done()).drop_last() == msgs);
    if msgs.len() == 0 {
        assert(v.log + msgs == v.log);
    } else {
        let head = msgs.drop_last();
        assert forall|i: int| 0 <= i < head.len() implies #[trigger] head[i] != build_done() by {
            assert(head[i] == msgs[i]);
        }
        law_build_messages_logged(v, head);
        assert(msgs[msgs.len() - 1] == msgs.last());
        assert((v.log + head).push(msgs.last()) == v.log + msgs);
    }
}

/// The message that ends a build begins with a character that no output line
/// has: nothing but that message ends a build.
pub proof fn law_build_end(v: AppView, msg: Seq<char>)
    ensures
        build_done() == seq!['\0', 'D', 'O', 'N', 'E'],
        v.compiling && !after_build_message(v, msg).compiling ==> msg[0] == '\0' && msg.len() == 5,
        after_build_message(v, msg).firmware_dir == v.firmware_dir,
        after_build_message(v, msg).config == v.config,
{
    reveal_strlit("\0DONE");
    assert("\0DONE"@ == seq!['\0', 'D', 'O', 'N', 'E']);
}

/// What is said of a file: the path where it went well, the error where it did
/// not, each behind its own words.
pub proof fn law_file_message(
    done: Seq<char>,
    path: Seq<char>,
    failed: Seq<char>,
    error: String,
)
    ensures
        file_message(done, path, failed, Ok(())) == StepView::Log(done + path),
        file_message(done, path, failed, Err(error)) == StepView::Log(failed + error@),
{
}

/// The order of the files: the header is written right before the patch that
/// brings it in; a build saves the configuration first and launches the tool
/// last; each of these is done once.
pub proof fn law_plan_order(v: AppView)
    ensures
        ({
            let steps = flash_steps(v);
            if all_white(v.firmware_dir) {
                steps.len() == 0
            } else {
                &&& steps.len() == 4
                &&& steps[0] == FileStep::SaveConfig
                &&& steps[1] == FileStep::WriteHeader
                &&& steps[2] == FileStep::PatchConfigurationH
                &&& steps[3] == FileStep::RunBuild
            }
        }),
        ({
            let steps = header_steps(v);
            if all_white(v.firmware_dir) || v.compiling {
                steps.len() == 0
            } else {
                &&& steps.len() == 2
                &&& steps[0] == FileStep::WriteHeader
                &&& steps[1] == FileStep::PatchConfigurationH
            }
        }),
{
    law_blank(v.firmware_dir);
}

/// The view of the state shows every field as it is.
pub proof fn law_view_of_state(a: StepperApp)
    ensures
        a@.port_name == a.port_name@,
        a@.connected == a.connected,
        a@.log.len() == a.log@.len(),
        forall|i: int| 0 <= i < a.log@.len() ==> #[trigger] a@.log[i] == a.log@[i]@,
        a@.distance == a.distance,
        a@.speed == a.speed,
        a@.min_pos == a.min_pos,
        a@.max_pos == a.max_pos,
        a@.current_pos == a.current_pos,
        a@.homing_state == a.homing_state,
        a@.endstop_y_min == a.endstop_y_min@,
        a@.endstop_y_max == a.endstop_y_max@,
        a@.active_tab == a.active_tab,
        a@.config == a.config@,
        a@.reading_config == a.reading_config,
        a@.firmware_dir == a.firmware_dir@,
        a@.compiling == a.compiling,
        a@.editor.editing == a.editor.editing,
        a@.editor.idx == a.editor.idx,
        a@.editor.name == a.editor.name@,
        a@.editor.label == a.editor.label@,
        a@.editor.gcode == a.editor.gcode@,
{
}

/// The view of a configuration shows every field as it is, and every macro in
/// its place.
pub proof fn law_view_of_config(c: Config)
    ensures
        c@.steps_y == c.steps_y,
        c@.max_feedrate_y == c.max_feedrate_y,
        c@.max_accel_y == c.max_accel_y,
        c@.motor_current_y == c.motor_current_y,
        c@.y_home_dir == c.y_home_dir,
        c@.y_min_pos == c.y_min_pos,
        c@.y_max_pos == c.y_max_pos,
        c@.y_min_endstop_override == c.y_min_endstop_override,
        c@.y_min_endstop_pin == c.y_min_endstop_pin@,
        c@.y_max_endstop_override == c.y_max_endstop_override,
        c@.y_max_endstop_pin == c.y_max_endstop_pin@,
        c@.macros.len() == c.macros@.len(),
        forall|i: int|
            0 <= i < c.macros@.len() ==> (#[trigger] c@.macros[i]).name == c.macros@[i].name@
                && c@.macros[i].label == c.macros@[i].label@ && c@.macros[i].gcode
                == c.macros@[i].gcode@,
{
}

/// The views of rows show every element in its place.
pub proof fn law_view_of_rows(steps: Seq<Step>, macros: Seq<MacroDef>, rows: Seq<String>, i: int)
    ensures
        step_views(steps).len() == steps.len(),
        macro_views(macros).len() == macros.len(),
        texts(rows).len() == rows.len(),
        0 <= i < steps.len() ==> step_views(steps)[i] == match steps[i] {
            Step::Send(cmd) => StepView::Send(cmd@),
            Step::Log(msg) => StepView::Log(msg@),
        },
        0 <= i < macros.len() ==> macro_views(macros)[i] == macros[i]@,
        0 <= i < rows.len() ==> texts(rows)[i] == rows[i]@,
{
}

} // verus!

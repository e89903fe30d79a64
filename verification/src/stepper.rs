//! The state of the test stand and what every event does to it.
//!
//! An operation changes the state and gives the steps that follow: commands to
//! send to the board and messages for the log, in order. Whoever sends the
//! commands hands each step back to [`StepperApp::perform`], with how sending
//! went.

use vstd::prelude::*;
use crate::config::{Config, ConfigView};
use crate::decimal::{decimal, u32_text};
use crate::gcode::{command_lines, commands, macro_views, MacroView};
use crate::motion::{limits_ok, within_limits};
use crate::num::{Num, ZERO_BITS};
use crate::text::texts;

verus! {

/// Whether the position of the axis is known.
#[derive(Clone, Copy, Debug, PartialEq, Eq, Structural)]
pub enum HomingState {
    NotHomed,
    Homing,
    Homed,
}

/// The two tabs of the window.
#[derive(Clone, Copy, Debug, PartialEq, Eq, Structural)]
pub enum Tab {
    Control,
    Config,
}

/// The macro editor.
#[derive(Debug)]
pub struct MacroEditor {
    /// The editor is open.
    pub editing: bool,
    /// The macro that is edited; none where a new one is made.
    pub idx: Option<usize>,
    pub name: String,
    pub label: String,
    pub gcode: String,
}

/// The state of the test stand.
#[derive(Debug)]
pub struct StepperApp {
    // Connection
    pub port_name: String,
    pub connected: bool,
    pub log: Vec<String>,
    // Motion
    pub distance: Num,
    pub speed: Num,
    pub min_pos: Num,
    pub max_pos: Num,
    pub current_pos: Num,
    pub homing_state: HomingState,
    pub endstop_y_min: String,
    pub endstop_y_max: String,
    // Window
    pub active_tab: Tab,
    // Configuration
    pub config: Config,
    pub reading_config: bool,
    // Firmware
    pub firmware_dir: String,
    pub compiling: bool,
    // Macros
    pub editor: MacroEditor,
}

/// What the macro editor holds.
#[verifier::ext_equal]
pub struct EditorView {
    pub editing: bool,
    pub idx: Option<usize>,
    pub name: Seq<char>,
    pub label: Seq<char>,
    pub gcode: Seq<char>,
}

/// What the state of the test stand holds.
#[verifier::ext_equal]
pub struct AppView {
    pub port_name: Seq<char>,
    pub connected: bool,
    pub log: Seq<Seq<char>>,
    pub distance: Num,
    pub speed: Num,
    pub min_pos: Num,
    pub max_pos: Num,
    pub current_pos: Num,
    pub homing_state: HomingState,
    pub endstop_y_min: Seq<char>,
    pub endstop_y_max: Seq<char>,
    pub active_tab: Tab,
    pub config: ConfigView,
    pub reading_config: bool,
    pub firmware_dir: Seq<char>,
    pub compiling: bool,
    pub editor: EditorView,
}

impl View for MacroEditor {
    type V = EditorView;

    open spec fn view(&self) -> EditorView {
        EditorView {
            editing: self.editing,
            idx: self.idx,
            name: self.name@,
            label: self.label@,
            gcode: self.gcode@,
        }
    }
}

impl View for StepperApp {
    type V = AppView;

    open spec fn view(&self) -> AppView {
        AppView {
            port_name: self.port_name@,
            connected: self.connected,
            log: texts(self.log@),
            distance: self.distance,
            speed: self.speed,
            min_pos: self.min_pos,
            max_pos: self.max_pos,
            current_pos: self.current_pos,
            homing_state: self.homing_state,
            endstop_y_min: self.endstop_y_min@,
            endstop_y_max: self.endstop_y_max@,
            active_tab: self.active_tab,
            config: self.config@,
            reading_config: self.reading_config,
            firmware_dir: self.firmware_dir@,
            compiling: self.compiling,
            editor: self.editor@,
        }
    }
}

/// Something to be done outside the state.
#[derive(Debug)]
pub enum Step {
    /// Send this command to the board.
    Send(String),
    /// Put this message into the log.
    Log(String),
}

/// What a step holds.
pub enum StepView {
    Send(Seq<char>),
    Log(Seq<char>),
}

impl View for Step {
    type V = StepView;

    open spec fn view(&self) -> StepView {
        match self {
            Step::Send(cmd) => StepView::Send(cmd@),
            Step::Log(msg) => StepView::Log(msg@),
        }
    }
}

/// What a row of steps holds.
pub open spec fn step_views(s: Seq<Step>) -> Seq<StepView> {
    Seq::new(s.len(), |i: int| s[i]@)
}

/// How sending a command went.
#[derive(Debug)]
pub enum SendOutcome {
    /// No port is open; nothing was sent.
    NoPort,
    Sent,
    Failed(String),
}

/// How opening the port went.
#[derive(Debug)]
pub enum ConnectOutcome {
    Open,
    CloneFailed(String),
    OpenFailed(String),
}

/// A line that the board sent, with the number that its Y value reads as; see
/// [`parse_axis_value`].
#[derive(Debug)]
pub struct Message {
    pub text: String,
    pub y: Option<Num>,
}

/// The runtime settings as texts with two decimals.
#[derive(Debug)]
pub struct RuntimeTexts {
    pub steps_y: String,
    pub max_feedrate_y: String,
    pub max_accel_y: String,
}

/// The numbers of a move as texts.
#[derive(Debug)]
pub struct MoveTexts {
    /// The current position, with one decimal.
    pub position: String,
    /// The distance that the limits leave, with two decimals.
    pub actual: String,
    /// The distance that was asked for, with two decimals.
    pub dist: String,
    /// The speed, without decimals.
    pub speed: String,
}

/// How many entries the log keeps.
pub const LOG_LIMIT: usize = 500;

/// The speed of the serial line.
pub const BAUD_RATE: u32 = 115200;

/// The last entries of a log, as many as it keeps.
pub open spec fn log_tail(log: Seq<Seq<char>>) -> Seq<Seq<char>> {
    if log.len() > LOG_LIMIT {
        log.skip(log.len() - LOG_LIMIT)
    } else {
        log
    }
}

/// The state after a command was given to the port. Where it was sent it goes
/// into the log; where sending failed the error does, and the connection is
/// taken for lost.
pub open spec fn after_send(v: AppView, cmd: Seq<char>, outcome: SendOutcome) -> AppView {
    match outcome {
        SendOutcome::NoPort => v,
        SendOutcome::Sent => AppView { log: v.log.push("> "@ + cmd), ..v },
        SendOutcome::Failed(e) => AppView {
            log: v.log.push("Send error: "@ + e@),
            connected: false,
            ..v
        },
    }
}

/// The state after a step was performed; `outcome` says how sending went,
/// where the step is a command.
pub open spec fn after_step(v: AppView, step: StepView, outcome: SendOutcome) -> AppView {
    match step {
        StepView::Send(cmd) => after_send(v, cmd, outcome),
        StepView::Log(msg) => AppView { log: log_tail(v.log.push(msg)), ..v },
    }
}

/// The state after steps were performed, in order.
pub open spec fn after_steps(
    v: AppView,
    steps: Seq<StepView>,
    outcomes: Seq<SendOutcome>,
) -> AppView
    decreases steps.len(),
{
    if steps.len() == 0 {
        v
    } else {
        after_step(
            after_steps(v, steps.drop_last(), outcomes),
            steps.last(),
            outcomes[steps.len() - 1],
        )
    }
}

/// The commands among the steps, in order.
pub open spec fn sent(steps: Seq<StepView>) -> Seq<Seq<char>>
    decreases steps.len(),
{
    if steps.len() == 0 {
        Seq::empty()
    } else {
        match steps.last() {
            StepView::Send(cmd) => sent(steps.drop_last()).push(cmd),
            StepView::Log(_) => sent(steps.drop_last()),
        }
    }
}

/// The steps that run a macro; none where there is no such macro.
pub open spec fn macro_steps(v: AppView, idx: int) -> Seq<StepView> {
    if 0 <= idx < v.config.macros.len() {
        commands(v.config.macros[idx].gcode).map_values(|c: Seq<char>| StepView::Send(c))
    } else {
        Seq::empty()
    }
}

/// The steps that give the board its runtime settings.
pub open spec fn apply_steps(c: ConfigView, t: RuntimeTexts) -> Seq<StepView> {
    seq![
        StepView::Send("M92 Y"@ + t.steps_y@),
        StepView::Send("M203 Y"@ + t.max_feedrate_y@),
        StepView::Send("M201 Y"@ + t.max_accel_y@),
        StepView::Send("M906 Y"@ + decimal(c.motor_current_y.saturated_u32() as nat)),
        StepView::Log("Changes applied. Click \"Save to EEPROM\" to persist across reboots."@),
    ]
}

/// The steps that follow on opening the port.
pub open spec fn connect_steps(outcome: ConnectOutcome) -> Seq<StepView> {
    match outcome {
        ConnectOutcome::Open => seq![StepView::Log("Connected."@), StepView::Send("G91"@)],
        ConnectOutcome::CloneFailed(e) => seq![StepView::Log("Failed to clone port: "@ + e@)],
        ConnectOutcome::OpenFailed(e) => seq![StepView::Log("Connect error: "@ + e@)],
    }
}

/// The state after the board was asked for its endstops.
pub open spec fn after_query(v: AppView) -> AppView {
    AppView { endstop_y_min: Seq::empty(), endstop_y_max: Seq::empty(), ..v }
}

/// The steps that ask the board for its endstops.
pub open spec fn query_steps() -> Seq<StepView> {
    seq![StepView::Send("M119"@)]
}

/// The state after the board was asked for its settings.
pub open spec fn after_read(v: AppView) -> AppView {
    AppView { reading_config: true, ..v }
}

/// The steps that ask the board for its settings.
pub open spec fn read_steps() -> Seq<StepView> {
    seq![StepView::Send("M503"@)]
}

/// The steps that have the board keep its settings.
pub open spec fn keep_steps() -> Seq<StepView> {
    seq![StepView::Send("M500"@), StepView::Log("Settings saved to EEPROM."@)]
}

/// The steps that have the board go back to the settings of its firmware.
pub open spec fn reset_steps() -> Seq<StepView> {
    seq![
        StepView::Send("M502"@),
        StepView::Log("EEPROM reset to firmware defaults. Click Read from Board to refresh."@),
    ]
}

/// A command as it goes over the line.
pub open spec fn on_the_wire(cmd: Seq<char>) -> Seq<char> {
    cmd + "\n"@
}

/// A step on its own.
pub(crate) fn one(step: Step) -> (r: Vec<Step>)
    ensures
        r@ == seq![step],
        step_views(r@) == seq![step@],
{
    let mut out: Vec<Step> = Vec::new();
    out.push(step);
    assert(step_views(out@) == seq![step@]);
    out
}

/// The step that sends a command.
pub(crate) fn send(cmd: &str) -> (r: Step)
    ensures
        r@ == StepView::Send(cmd@),
{
    Step::Send(cmd.to_string())
}

/// The step that logs a message.
pub(crate) fn log(msg: &str) -> (r: Step)
    ensures
        r@ == StepView::Log(msg@),
{
    Step::Log(msg.to_string())
}

/// A text and what follows it.
pub(crate) fn concat(a: &str, b: &str) -> (r: String)
    ensures
        r@ == a@ + b@,
{
    let mut out: String = a.to_string();
    out.append(b);
    out
}

/// A command as it goes over the line.
pub fn wire_line(cmd: &str) -> (r: String)
    ensures
        r@ == cmd@ + "\n"@,
        r@ == on_the_wire(cmd@),
{
    concat(cmd, "\n")
}

impl StepperApp {
    /// Puts a message into the log and drops the oldest entries beyond the limit.
    pub fn push_log(&mut self, msg: String)
        ensures
            final(self)@ == (AppView { log: log_tail(old(self)@.log.push(msg@)), ..old(self)@ }),
            final(self)@.log.len() <= LOG_LIMIT,
            final(self)@.log.last() == msg@,
    {
        let ghost before = texts(self.log@);
        self.log.push(msg);
        assert(texts(self.log@) == before.push(msg@));
        let n: usize = self.log.len();
        if n > LOG_LIMIT {
            let tail: Vec<String> = self.log.split_off(n - LOG_LIMIT);
            assert(texts(tail@) == before.push(msg@).skip(n - LOG_LIMIT));
            self.log = tail;
        }
    }

    /// Takes note of how sending a command went.
    pub fn send_raw(&mut self, cmd: &str, outcome: &SendOutcome)
        ensures
            final(self)@ == after_send(old(self)@, cmd@, *outcome),
    {
        let ghost before = texts(self.log@);
        match outcome {
            SendOutcome::NoPort => {},
            SendOutcome::Sent => {
                let entry: String = concat("> ", cmd);
                self.log.push(entry);
                assert(texts(self.log@) == before.push(entry@));
            },
            SendOutcome::Failed(e) => {
                let entry: String = concat("Send error: ", e.as_str());
                self.log.push(entry);
                assert(texts(self.log@) == before.push(entry@));
                self.connected = false;
            },
        }
    }

    /// Takes note that a step was performed; `outcome` says how sending went,
    /// where the step is a command.
    pub fn perform(&mut self, step: &Step, outcome: &SendOutcome)
        ensures
            final(self)@ == after_step(old(self)@, step@, *outcome),
    {
        match step {
            Step::Send(cmd) => self.send_raw(cmd.as_str(), outcome),
            Step::Log(msg) => self.push_log(msg.clone()),
        }
    }
}

impl Default for StepperApp {
    /// The state at start-up.
    fn default() -> (r: Self)
        ensures
            r@ == initial(),
            limits_ok(r@),
            within_limits(r@),
    {
        let r: StepperApp = StepperApp {
            port_name: "COM3".to_string(),
            connected: false,
            log: Vec::new(),
            distance: Num { bits: 0x4120_0000 },
            speed: Num { bits: 0x447a_0000 },
            min_pos: Num { bits: 0x40a0_0000 },
            max_pos: Num { bits: 0x43fa_0000 },
            current_pos: Num { bits: ZERO_BITS },
            homing_state: HomingState::NotHomed,
            endstop_y_min: String::new(),
            endstop_y_max: String::new(),
            active_tab: Tab::Control,
            config: Config {
                steps_y: Num { bits: 0x42a0_0000 },
                max_feedrate_y: Num { bits: 0x43fa_0000 },
                max_accel_y: Num { bits: 0x43fa_0000 },
                motor_current_y: Num { bits: 0x4448_0000 },
                y_home_dir: 1,
                y_min_pos: Num { bits: ZERO_BITS },
                y_max_pos: Num { bits: 0x43fa_0000 },
                y_min_endstop_override: false,
                y_min_endstop_pin: String::new(),
                y_max_endstop_override: false,
                y_max_endstop_pin: String::new(),
                macros: Vec::new(),
            },
            reading_config: false,
            firmware_dir: String::new(),
            compiling: false,
            editor: MacroEditor {
                editing: false,
                idx: None,
                name: String::new(),
                label: String::new(),
                gcode: String::new(),
            },
        };
        assert(texts(r.log@) == Seq::<Seq<char>>::empty());
        assert(macro_views(r.config.macros@) == Seq::<MacroView>::empty());
        r
    }
}

/// The configuration at start-up: 80 steps per millimetre, 500 mm/s, 500 mm/s²
/// and 800 mA, homing toward the upper end of a range from 0 to 500 mm.
pub open spec fn initial_config() -> ConfigView {
    ConfigView {
        steps_y: Num { bits: 0x42a0_0000 },
        max_feedrate_y: Num { bits: 0x43fa_0000 },
        max_accel_y: Num { bits: 0x43fa_0000 },
        motor_current_y: Num { bits: 0x4448_0000 },
        y_home_dir: 1,
        y_min_pos: Num { bits: ZERO_BITS },
        y_max_pos: Num { bits: 0x43fa_0000 },
        y_min_endstop_override: false,
        y_min_endstop_pin: Seq::empty(),
        y_max_endstop_override: false,
        y_max_endstop_pin: Seq::empty(),
        macros: Seq::empty(),
    }
}

/// The state at start-up: disconnected and not homed, moves of 10 mm at 1000
/// mm/min, limits at 5 mm and 500 mm.
pub open spec fn initial() -> AppView {
    AppView {
        port_name: "COM3"@,
        connected: false,
        log: Seq::empty(),
        distance: Num { bits: 0x4120_0000 },
        speed: Num { bits: 0x447a_0000 },
        min_pos: Num { bits: 0x40a0_0000 },
        max_pos: Num { bits: 0x43fa_0000 },
        current_pos: Num { bits: ZERO_BITS },
        homing_state: HomingState::NotHomed,
        endstop_y_min: Seq::empty(),
        endstop_y_max: Seq::empty(),
        active_tab: Tab::Control,
        config: initial_config(),
        reading_config: false,
        firmware_dir: Seq::empty(),
        compiling: false,
        editor: EditorView {
            editing: false,
            idx: None,
            name: Seq::empty(),
            label: Seq::empty(),
            gcode: Seq::empty(),
        },
    }
}

/// The state after the port was opened: connected, with the position unknown.
pub open spec fn after_connect(v: AppView) -> AppView {
    AppView {
        connected: true,
        homing_state: HomingState::NotHomed,
        current_pos: Num { bits: ZERO_BITS },
        reading_config: false,
        ..v
    }
}

/// The state after the port was closed.
pub open spec fn after_disconnect(v: AppView) -> AppView {
    AppView {
        connected: false,
        homing_state: HomingState::NotHomed,
        reading_config: false,
        ..v
    }
}

impl StepperApp {
    /// Takes note of how opening the port went. A new connection switches the
    /// board to relative moves.
    pub fn connect(&mut self, outcome: &ConnectOutcome) -> (r: Vec<Step>)
        ensures
            match *outcome {
                ConnectOutcome::Open => {
                    &&& final(self)@ == after_connect(old(self)@)
                    &&& step_views(r@) == seq![
                        StepView::Log("Connected."@),
                        StepView::Send("G91"@),
                    ]
                },
                ConnectOutcome::CloneFailed(e) => {
                    &&& final(self)@ == old(self)@
                    &&& step_views(r@) == seq![StepView::Log("Failed to clone port: "@ + e@)]
                },
                ConnectOutcome::OpenFailed(e) => {
                    &&& final(self)@ == old(self)@
                    &&& step_views(r@) == seq![StepView::Log("Connect error: "@ + e@)]
                },
            },
            step_views(r@) == connect_steps(*outcome),
            !(outcome is Open) ==> final(self)@ == old(self)@,
            final(self)@.connected <==> outcome is Open || old(self)@.connected,
    {
        match outcome {
            ConnectOutcome::Open => {
                self.connected = true;
                self.homing_state = HomingState::NotHomed;
                self.current_pos = Num { bits: ZERO_BITS };
                self.reading_config = false;
                let mut out: Vec<Step> = one(log("Connected."));
                out.push(send("G91"));
                assert(step_views(out@) == seq![
                    StepView::Log("Connected."@),
                    StepView::Send("G91"@),
                ]);
                out
            },
            ConnectOutcome::CloneFailed(e) => one(
                Step::Log(concat("Failed to clone port: ", e.as_str())),
            ),
            ConnectOutcome::OpenFailed(e) => one(Step::Log(concat("Connect error: ", e.as_str()))),
        }
    }

    /// Takes note that the port was closed.
    pub fn disconnect(&mut self) -> (r: Vec<Step>)
        ensures
            final(self)@ == after_disconnect(old(self)@),
            step_views(r@) == seq![StepView::Log("Disconnected."@)],
            r@.len() == 1 && r@[0] is Log,
    {
        self.connected = false;
        self.homing_state = HomingState::NotHomed;
        self.reading_config = false;
        one(log("Disconnected."))
    }

    /// Asks the board for the state of its endstops; what was known of them is
    /// forgotten.
    pub fn query_endstop(&mut self) -> (r: Vec<Step>)
        ensures
            final(self)@ == (AppView {
                endstop_y_min: Seq::empty(),
                endstop_y_max: Seq::empty(),
                ..old(self)@
            }),
            step_views(r@) == seq![StepView::Send("M119"@)],
            final(self)@ == after_query(old(self)@),
            step_views(r@) == query_steps(),
    {
        self.endstop_y_min = String::new();
        self.endstop_y_max = String::new();
        one(send("M119"))
    }

    /// Asks the board for its settings.
    pub fn read_config(&mut self) -> (r: Vec<Step>)
        ensures
            final(self)@ == (AppView { reading_config: true, ..old(self)@ }),
            step_views(r@) == seq![StepView::Send("M503"@)],
            final(self)@ == after_read(old(self)@),
            step_views(r@) == read_steps(),
    {
        self.reading_config = true;
        one(send("M503"))
    }

    /// Sends the runtime settings to the board.
    pub fn apply_config(&self, t: &RuntimeTexts) -> (r: Vec<Step>)
        ensures
            step_views(r@) == seq![
                StepView::Send("M92 Y"@ + t.steps_y@),
                StepView::Send("M203 Y"@ + t.max_feedrate_y@),
                StepView::Send("M201 Y"@ + t.max_accel_y@),
                StepView::Send(
                    "M906 Y"@ + decimal(self.config.motor_current_y.saturated_u32() as nat),
                ),
                StepView::Log(
                    "Changes applied. Click \"Save to EEPROM\" to persist across reboots."@,
                ),
            ],
            step_views(r@) == apply_steps(self@.config, *t),
    {
        let current: String = u32_text(self.config.motor_current_y.to_u32());
        let mut out: Vec<Step> = one(Step::Send(concat("M92 Y", t.steps_y.as_str())));
        out.push(Step::Send(concat("M203 Y", t.max_feedrate_y.as_str())));
        out.push(Step::Send(concat("M201 Y", t.max_accel_y.as_str())));
        out.push(Step::Send(concat("M906 Y", current.as_str())));
        out.push(log("Changes applied. Click \"Save to EEPROM\" to persist across reboots."));
        assert(step_views(out@) == seq![
            StepView::Send("M92 Y"@ + t.steps_y@),
            StepView::Send("M203 Y"@ + t.max_feedrate_y@),
            StepView::Send("M201 Y"@ + t.max_accel_y@),
            StepView::Send("M906 Y"@ + current@),
            StepView::Log(
                "Changes applied. Click \"Save to EEPROM\" to persist across reboots."@,
            ),
        ]);
        out
    }

    /// Has the board keep its settings.
    pub fn save_eeprom(&self) -> (r: Vec<Step>)
        ensures
            step_views(r@) == seq![
                StepView::Send("M500"@),
                StepView::Log("Settings saved to EEPROM."@),
            ],
            step_views(r@) == keep_steps(),
    {
        let mut out: Vec<Step> = one(send("M500"));
        out.push(log("Settings saved to EEPROM."));
        assert(step_views(out@) == seq![
            StepView::Send("M500"@),
            StepView::Log("Settings saved to EEPROM."@),
        ]);
        out
    }

    /// Has the board go back to the settings of its firmware.
    pub fn reset_eeprom(&self) -> (r: Vec<Step>)
        ensures
            step_views(r@) == seq![
                StepView::Send("M502"@),
                StepView::Log(
                    "EEPROM reset to firmware defaults. Click Read from Board to refresh."@,
                ),
            ],
            step_views(r@) == reset_steps(),
    {
        let mut out: Vec<Step> = one(send("M502"));
        out.push(log("EEPROM reset to firmware defaults. Click Read from Board to refresh."));
        assert(step_views(out@) == seq![
            StepView::Send("M502"@),
            StepView::Log("EEPROM reset to firmware defaults. Click Read from Board to refresh."@),
        ]);
        out
    }

    /// The commands of a macro, in order; none where there is no such macro.
    pub fn run_macro(&self, idx: usize) -> (r: Vec<Step>)
        ensures
            step_views(r@) == macro_steps(self@, idx as int),
    {
        let mut out: Vec<Step> = Vec::new();
        assert(step_views(out@) == Seq::<StepView>::empty());
        if idx >= self.config.macros.len() {
            return out;
        }
        let cmds: Vec<String> = command_lines(self.config.macros[idx].gcode.as_str());
        let ghost all = texts(cmds@);
        let ghost f = |c: Seq<char>| StepView::Send(c);
        let mut i: usize = 0;
        assert(all.take(0).map_values(f) == Seq::<StepView>::empty());
        while i < cmds.len()
            invariant
                i <= cmds.len(),
                all == texts(cmds@),
                f == (|c: Seq<char>| StepView::Send(c)),
                step_views(out@) == all.take(i as int).map_values(f),
            decreases cmds.len() - i,
        {
            let ghost so_far = step_views(out@);
            out.push(Step::Send(cmds[i].clone()));
            assert(step_views(out@) == so_far.push(StepView::Send(all[i as int])));
            assert(all.take(i + 1).map_values(f) == all.take(i as int).map_values(f).push(
                StepView::Send(all[i as int]),
            ));
            i += 1;
        }
        assert(all.take(i as int) == all);
        out
    }
}

/// Performing steps touches the log and nothing else, but that a command that
/// could not be sent ends the connection.
pub proof fn law_steps_touch_log_only(
    v: AppView,
    steps: Seq<StepView>,
    outcomes: Seq<SendOutcome>,
)
    ensures
        after_steps(v, steps, outcomes) == (AppView {
            log: after_steps(v, steps, outcomes).log,
            connected: after_steps(v, steps, outcomes).connected,
            ..v
        }),
        after_steps(v, steps, outcomes).connected <==> v.connected && forall|i: int|
            0 <= i < steps.len() && steps[i] is Send ==> !(#[trigger] outcomes[i] is Failed),
    decreases steps.len(),
{
    if steps.len() > 0 {
        let head = steps.drop_last();
        law_steps_touch_log_only(v, head, outcomes);
        let before = after_steps(v, head, outcomes);
        let last = steps.len() - 1;
        assert(forall|i: int| 0 <= i < head.len() ==> #[trigger] head[i] == steps[i]);
        assert(steps.last() == steps[last]);
        if after_steps(v, steps, outcomes).connected {
            assert(before.connected);
            assert forall|i: int| 0 <= i < steps.len() && steps[i] is Send implies !(
            #[trigger] outcomes[i] is Failed) by {
                if i < last {
                    assert(head[i] is Send);
                }
            }
        } else if before.connected {
            assert(steps[last] is Send && outcomes[last] is Failed);
        } else if v.connected {
            let i = choose|i: int|
                0 <= i < head.len() && head[i] is Send && #[trigger] outcomes[i] is Failed;
            assert(steps[i] is Send && outcomes[i] is Failed);
        }
    }
}

/// The commands among steps and further steps.
pub proof fn lemma_sent_add(a: Seq<StepView>, b: Seq<StepView>)
    ensures
        sent(a + b) == sent(a) + sent(b),
    decreases b.len(),
{
    if b.len() == 0 {
        assert(a + b == a);
    } else {
        assert((a + b).drop_last() == a + b.drop_last());
        assert((a + b).last() == b.last());
        lemma_sent_add(a, b.drop_last());
    }
}

/// The log does not grow without bound: performing steps leaves at most as many
/// entries as the log keeps, or had, and one more for every command.
pub proof fn law_log_bounded(v: AppView, steps: Seq<StepView>, outcomes: Seq<SendOutcome>)
    ensures
        after_steps(v, steps, outcomes).log.len() <= (if v.log.len() > LOG_LIMIT {
            v.log.len()
        } else {
            LOG_LIMIT as nat
        }) + sent(steps).len(),
        steps.len() > 0 && steps.last() is Log ==> after_steps(v, steps, outcomes).log.len()
            <= LOG_LIMIT,
    decreases steps.len(),
{
    if steps.len() > 0 {
        law_log_bounded(v, steps.drop_last(), outcomes);
    }
}

} // verus!

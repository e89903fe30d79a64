//! The files of the test stand and the firmware build: what is written, what
//! is read, and what is said about it.

use vstd::prelude::*;
use vstd::utf8::{decode_utf8, valid_utf8};
use crate::config::{loaded, saved, ConfigTexts, ConfigView, NumberTable};
use crate::config_laws::{
    canonical_macros, faithful, law_load_restores_saved, law_reloaded_macro_runs_alike, unbroken,
    unbroken_texts, writable,
};
use crate::decimal::decimal;
use crate::firmware::{
    build_launch_failed, build_output_report, build_start_line, launch_failed_lines, lossy_text,
    report_lines, report_of, succeeded, zeus_header, BuildOutcome,
};
use crate::num::Num;
use crate::panel::can_flash;
use crate::settings::{
    dir_after, law_settings_restore_dir, read_settings, settings_spec, settings_text,
};
use crate::stepper::{
    after_steps, concat, law_steps_touch_log_only, log, log_tail, macro_steps, one, step_views,
    AppView, SendOutcome, Step, StepView, StepperApp,
};
use crate::text::{blank, is_blank, lines, same_text, starts_with, texts};
use crate::text_facts::fits_line;

verus! {

/// The message that ends a build.
pub open spec fn build_done() -> Seq<char> {
    "\0DONE"@
}

/// The state after a message of the build: the last one ends it, any other
/// goes into the log.
pub open spec fn after_build_message(v: AppView, msg: Seq<char>) -> AppView {
    if msg == build_done() {
        AppView { compiling: false, ..v }
    } else {
        AppView { log: log_tail(v.log.push(msg)), ..v }
    }
}

/// The state after messages of the build.
pub open spec fn after_build(v: AppView, msgs: Seq<Seq<char>>) -> AppView
    decreases msgs.len(),
{
    if msgs.len() == 0 {
        v
    } else {
        after_build_message(after_build(v, msgs.drop_last()), msgs.last())
    }
}

/// The messages of one build, from the first to the one that ends it: the build
/// starts, the build tool runs, and what it did is reported.
pub open spec fn build_row(outcome: BuildOutcome) -> Seq<Seq<char>> {
    seq![build_start_line()] + report_of(outcome).push(build_done())
}

/// What a firmware button does outside the program, one after the other.
#[derive(Clone, Copy, Debug, PartialEq, Eq, Structural)]
pub enum FileStep {
    /// Writes the configuration file and, where that went well, the settings
    /// file.
    SaveConfig,
    /// Writes the generated header.
    WriteHeader,
    /// Has `Configuration.h` bring the header in.
    PatchConfigurationH,
    /// Launches the build tool.
    RunBuild,
}

/// How the build tool is launched.
#[derive(Debug)]
pub struct BuildCommand {
    pub program: String,
    pub args: Vec<String>,
    /// The directory that it runs in.
    pub dir: String,
}

/// What a build takes: every file is written, and then the build tool runs,
/// however writing the files goes. Without a firmware directory nothing is done.
pub open spec fn flash_steps(v: AppView) -> Seq<FileStep> {
    if is_blank(v.firmware_dir) {
        seq![]
    } else {
        seq![
            FileStep::SaveConfig,
            FileStep::WriteHeader,
            FileStep::PatchConfigurationH,
            FileStep::RunBuild,
        ]
    }
}

/// What writing the header alone takes: the header and the patch that brings it
/// in. Nothing is done while a build is running, or without a firmware directory.
pub open spec fn header_steps(v: AppView) -> Seq<FileStep> {
    if can_flash(v) {
        seq![FileStep::WriteHeader, FileStep::PatchConfigurationH]
    } else {
        seq![]
    }
}

/// The parts of the path of the configuration file.
pub open spec fn config_path(v: AppView) -> Seq<Seq<char>> {
    seq![v.firmware_dir, "zeus_config.cfg"@]
}

/// The parts of the path of the generated header.
pub open spec fn header_path(v: AppView) -> Seq<Seq<char>> {
    seq![v.firmware_dir, "Marlin"@, "Configuration_Zeus.h"@]
}

/// The parts of the path of the firmware's own configuration.
pub open spec fn configuration_path(v: AppView) -> Seq<Seq<char>> {
    seq![v.firmware_dir, "Marlin"@, "Configuration.h"@]
}

/// The state after the settings file was read.
pub open spec fn after_settings(v: AppView, text: Seq<char>) -> AppView {
    AppView { firmware_dir: dir_after(v.firmware_dir, lines(text)), ..v }
}

/// The state after the configuration file was read.
pub open spec fn after_load(
    v: AppView,
    text: Seq<char>,
    read: spec_fn(Seq<char>) -> Option<Num>,
) -> AppView {
    AppView { config: loaded(v.config, text, read), ..v }
}

/// A message about a file operation: what was done to which file, or the
/// error.
pub open spec fn file_message(
    done: Seq<char>,
    path: Seq<char>,
    failed: Seq<char>,
    outcome: Result<(), String>,
) -> StepView {
    match outcome {
        Ok(_) => StepView::Log(done + path),
        Err(e) => StepView::Log(failed + e@),
    }
}

/// The step that logs how a file operation went.
fn file_step(done: &str, path: &str, failed: &str, outcome: &Result<(), String>) -> (r: Step)
    ensures
        r@ == file_message(done@, path@, failed@, *outcome),
{
    match outcome {
        Ok(_) => Step::Log(concat(done, path)),
        Err(e) => Step::Log(concat(failed, e.as_str())),
    }
}

/// The message that ends a build.
pub fn build_done_message() -> (r: String)
    ensures
        r@ == build_done(),
{
    "\0DONE".to_string()
}

/// The messages of a build that follow on its first line, once it is known how
/// the build tool fared: the report and the message that ends the build.
pub fn build_messages(outcome: &BuildOutcome) -> (r: Vec<String>)
    ensures
        texts(r@) == report_of(*outcome).push(build_done()),
        build_row(*outcome) == seq![build_start_line()] + texts(r@),
        *outcome matches BuildOutcome::Ended { stdout, stderr, .. } ==> {
            &&& valid_utf8(stdout@) ==> lossy_text(stdout@) == decode_utf8(stdout@)
            &&& valid_utf8(stderr@) ==> lossy_text(stderr@) == decode_utf8(stderr@)
        },
{
    let mut out: Vec<String> = match outcome {
        BuildOutcome::NotLaunched(error) => build_launch_failed(error.as_str()),
        BuildOutcome::Ended { stdout, stderr, success, status } => build_output_report(
            stdout.as_slice(),
            stderr.as_slice(),
            *success,
            status.as_str(),
        ),
    };
    let ghost report = texts(out@);
    let end: String = build_done_message();
    out.push(end);
    assert(texts(out@) == report.push(end@));
    out
}

impl StepperApp {
    /// The parts of the path of the configuration file.
    pub fn config_file_path(&self) -> (r: Vec<String>)
        ensures
            texts(r@) == seq![self@.firmware_dir, "zeus_config.cfg"@],
            texts(r@) == config_path(self@),
    {
        let mut out: Vec<String> = Vec::new();
        out.push(self.firmware_dir.clone());
        out.push("zeus_config.cfg".to_string());
        assert(texts(out@) == seq![self@.firmware_dir, "zeus_config.cfg"@]);
        out
    }

    /// The parts of the path of the generated header.
    pub fn zeus_h_path(&self) -> (r: Vec<String>)
        ensures
            texts(r@) == seq![self@.firmware_dir, "Marlin"@, "Configuration_Zeus.h"@],
            texts(r@) == header_path(self@),
    {
        let mut out: Vec<String> = Vec::new();
        out.push(self.firmware_dir.clone());
        out.push("Marlin".to_string());
        out.push("Configuration_Zeus.h".to_string());
        assert(texts(out@) == seq![self@.firmware_dir, "Marlin"@, "Configuration_Zeus.h"@]);
        out
    }

    /// The parts of the path of the firmware's own configuration.
    pub fn configuration_h_path(&self) -> (r: Vec<String>)
        ensures
            texts(r@) == seq![self@.firmware_dir, "Marlin"@, "Configuration.h"@],
            texts(r@) == configuration_path(self@),
    {
        let mut out: Vec<String> = Vec::new();
        out.push(self.firmware_dir.clone());
        out.push("Marlin".to_string());
        out.push("Configuration.h".to_string());
        assert(texts(out@) == seq![self@.firmware_dir, "Marlin"@, "Configuration.h"@]);
        out
    }

    /// The text of the configuration file. `t` holds the numbers as texts.
    pub fn save_config(&self, t: &ConfigTexts) -> (r: String)
        ensures
            r@ == saved(self@.config, *t),
    {
        self.config.save(t)
    }

    /// What follows on writing the configuration file: a message and, where
    /// the file was written, the text of the settings file, to be written too.
    pub fn config_saved(&self, path: &str, outcome: &Result<(), String>) -> (r: (
        Vec<Step>,
        Option<String>,
    ))
        ensures
            step_views(r.0@) == seq![file_message("Saved "@, path@, "Save error: "@, *outcome)],
            match r.1 {
                Some(text) => outcome is Ok && text@ == settings_spec(self@.firmware_dir),
                None => outcome is Err,
            },
            r.1 is Some <==> outcome is Ok,
            r.0@.len() == 1 && r.0@[0] is Log,
    {
        let steps: Vec<Step> = one(file_step("Saved ", path, "Save error: ", outcome));
        match outcome {
            Ok(_) => (steps, Some(self.save_settings())),
            Err(_) => (steps, None),
        }
    }

    /// Takes in the configuration file, given what reading it gave: its text,
    /// or an error. `numbers` says what its numbers read as.
    pub fn load_config(
        &mut self,
        file: &Result<String, String>,
        numbers: &NumberTable,
        path: &str,
    ) -> (r: Vec<Step>)
        ensures
            match *file {
                Ok(text) => {
                    &&& final(self)@ == after_load(old(self)@, text@, numbers.reading())
                    &&& step_views(r@) == seq![StepView::Log("Loaded "@ + path@)]
                },
                Err(e) => {
                    &&& final(self)@ == old(self)@
                    &&& step_views(r@) == seq![StepView::Log("Load error: "@ + e@)]
                },
            },
            file is Err ==> final(self)@ == old(self)@,
            final(self)@ == (AppView { config: final(self)@.config, ..old(self)@ }),
            r@.len() == 1 && r@[0] is Log,
    {
        match file {
            Ok(text) => {
                self.config.load(text.as_str(), numbers);
                one(Step::Log(concat("Loaded ", path)))
            },
            Err(e) => one(Step::Log(concat("Load error: ", e.as_str()))),
        }
    }

    /// The generated header. `y_min_pos` and `y_max_pos` are the compile-time
    /// limits as texts.
    pub fn write_zeus_h(&self, y_min_pos: &str, y_max_pos: &str) -> (r: String)
        ensures
            r@ == zeus_header(self@.config, y_min_pos@, y_max_pos@),
    {
        self.config.zeus_h(y_min_pos, y_max_pos)
    }

    /// What follows on writing the generated header.
    pub fn zeus_h_written(&self, path: &str, outcome: &Result<(), String>) -> (r: Vec<Step>)
        ensures
            step_views(r@) == seq![file_message("Wrote "@, path@, "Write error: "@, *outcome)],
    {
        one(file_step("Wrote ", path, "Write error: ", outcome))
    }

    /// What follows on writing the patched `Configuration.h`.
    pub fn configuration_h_patched(&self, outcome: &Result<(), String>) -> (r: Vec<Step>)
        ensures
            step_views(r@) == seq![
                match *outcome {
                    Ok(_) => StepView::Log(
                        "Patched Configuration.h — added #include \"Configuration_Zeus.h\"."@,
                    ),
                    Err(e) => StepView::Log("Cannot patch Configuration.h: "@ + e@),
                },
            ],
    {
        match outcome {
            Ok(_) => one(
                log("Patched Configuration.h — added #include \"Configuration_Zeus.h\"."),
            ),
            Err(e) => one(Step::Log(concat("Cannot patch Configuration.h: ", e.as_str()))),
        }
    }

    /// What a build takes, in order. No step waits for how an earlier one went.
    pub fn flash_plan(&self) -> (r: Vec<FileStep>)
        ensures
            r@ == flash_steps(self@),
    {
        let mut out: Vec<FileStep> = Vec::new();
        if !blank(self.firmware_dir.as_str()) {
            out.push(FileStep::SaveConfig);
            out.push(FileStep::WriteHeader);
            out.push(FileStep::PatchConfigurationH);
            out.push(FileStep::RunBuild);
        }
        assert(out@ == flash_steps(self@));
        out
    }

    /// What writing the header alone takes, in order. The second step does not
    /// wait for how the first one went.
    pub fn header_plan(&self) -> (r: Vec<FileStep>)
        ensures
            r@ == header_steps(self@),
    {
        let mut out: Vec<FileStep> = Vec::new();
        if !blank(self.firmware_dir.as_str()) && !self.compiling {
            out.push(FileStep::WriteHeader);
            out.push(FileStep::PatchConfigurationH);
        }
        assert(out@ == header_steps(self@));
        out
    }

    /// How the build tool is launched: it builds and uploads, in the firmware
    /// directory.
    pub fn build_command(&self) -> (r: BuildCommand)
        ensures
            r.program@ == "pio"@,
            texts(r.args@) == seq!["run"@, "--target"@, "upload"@],
            r.dir@ == self@.firmware_dir,
    {
        let mut args: Vec<String> = Vec::new();
        args.push("run".to_string());
        args.push("--target".to_string());
        args.push("upload".to_string());
        assert(texts(args@) == seq!["run"@, "--target"@, "upload"@]);
        BuildCommand { program: "pio".to_string(), args, dir: self.firmware_dir.clone() }
    }

    /// Begins a build and says what it takes, in order, or says why there is
    /// none: without a firmware directory there is nothing to build.
    pub fn compile_and_flash(&mut self) -> (r: Result<Vec<FileStep>, Vec<Step>>)
        ensures
            match r {
                Ok(plan) => {
                    &&& !is_blank(old(self)@.firmware_dir)
                    &&& final(self)@ == (AppView { compiling: true, ..old(self)@ })
                    &&& plan@ == flash_steps(old(self)@)
                    &&& plan@ == seq![
                        FileStep::SaveConfig,
                        FileStep::WriteHeader,
                        FileStep::PatchConfigurationH,
                        FileStep::RunBuild,
                    ]
                },
                Err(steps) => {
                    &&& is_blank(old(self)@.firmware_dir)
                    &&& final(self)@ == old(self)@
                    &&& step_views(steps@) == seq![
                        StepView::Log("Set firmware directory before compiling."@),
                    ]
                },
            },
    {
        if blank(self.firmware_dir.as_str()) {
            return Err(one(log("Set firmware directory before compiling.")));
        }
        let plan: Vec<FileStep> = self.flash_plan();
        self.compiling = true;
        Ok(plan)
    }

    /// Takes in messages of the build, in order. The result says whether the
    /// build has ended with them.
    pub fn poll_compile(&mut self, msgs: &Vec<String>) -> (r: bool)
        ensures
            final(self)@ == after_build(old(self)@, texts(msgs@)),
            r == texts(msgs@).contains(build_done()),
    {
        let ghost before = self@;
        let ghost all = texts(msgs@);
        let mut done: bool = false;
        let mut i: usize = 0;
        while i < msgs.len()
            invariant
                i <= msgs.len(),
                all == texts(msgs@),
                self@ == after_build(before, all.take(i as int)),
                done == exists|j: int| 0 <= j < i && #[trigger] all[j] == build_done(),
            decreases msgs.len() - i,
        {
            assert(all[i as int] == msgs[i as int]@);
            assert(all.take(i + 1).drop_last() == all.take(i as int));
            if same_text(msgs[i].as_str(), "\0DONE") {
                self.compiling = false;
                done = true;
            } else {
                self.push_log(msgs[i].clone());
            }
            i += 1;
        }
        assert(all.take(i as int) == all);
        done
    }

    /// The text of the settings file.
    pub fn save_settings(&self) -> (r: String)
        ensures
            r@ == settings_spec(self@.firmware_dir),
    {
        settings_text(self.firmware_dir.as_str())
    }

    /// Takes in the settings file at start-up, where there is one. The result
    /// says whether a firmware directory is known, so that its configuration
    /// file is worth looking for.
    pub fn load_settings(&mut self, file: &Option<String>) -> (r: bool)
        ensures
            final(self)@ == match *file {
                Some(text) => after_settings(old(self)@, text@),
                None => old(self)@,
            },
            r == (final(self)@.firmware_dir.len() > 0),
    {
        if let Some(text) = file {
            self.firmware_dir = read_settings(self.firmware_dir.as_str(), text.as_str());
        }
        !self.firmware_dir.as_str().is_empty()
    }
}

/// Messages of a build change nothing but the log and whether it is running,
/// and only the last message ends it.
pub proof fn law_build_messages(v: AppView, msgs: Seq<Seq<char>>)
    ensures
        after_build(v, msgs) == (AppView {
            log: after_build(v, msgs).log,
            compiling: after_build(v, msgs).compiling,
            ..v
        }),
        after_build(v, msgs).compiling == (v.compiling && !msgs.contains(build_done())),
    decreases msgs.len(),
{
    if msgs.len() > 0 {
        let head = msgs.drop_last();
        law_build_messages(v, head);
        assert(msgs[msgs.len() - 1] == msgs.last());
        if msgs.contains(build_done()) && msgs.last() != build_done() {
            let k = choose|k: int| 0 <= k < msgs.len() && msgs[k] == build_done();
            assert(head[k] == build_done());
        }
        if head.contains(build_done()) {
            let k = choose|k: int| 0 <= k < head.len() && head[k] == build_done();
            assert(msgs[k] == build_done());
        }
    }
}

/// A build and the header alone treat the firmware's files alike: both write
/// the header and patch `Configuration.h` right after it. Only the build saves
/// the configuration, before that, and only the build launches the build tool,
/// at the very end.
pub proof fn law_header_is_part_of_build(v: AppView)
    requires
        can_flash(v),
    ensures
        flash_steps(v) == seq![FileStep::SaveConfig] + header_steps(v) + seq![FileStep::RunBuild],
        !header_steps(v).contains(FileStep::SaveConfig),
        !header_steps(v).contains(FileStep::RunBuild),
{
}

/// What is logged on the way does not change what there is to do: after any
/// steps that were performed the plans are the same, and so is the directory
/// that the build tool runs in.
pub proof fn law_plans_stand(v: AppView, steps: Seq<StepView>, outcomes: Seq<SendOutcome>)
    ensures
        flash_steps(after_steps(v, steps, outcomes)) == flash_steps(v),
        header_steps(after_steps(v, steps, outcomes)) == header_steps(v),
        after_steps(v, steps, outcomes).firmware_dir == v.firmware_dir,
        after_steps(v, steps, outcomes).config == v.config,
{
    law_steps_touch_log_only(v, steps, outcomes);
}

/// What the build tool printed is marked line by line.
proof fn lemma_report_marked(output: Seq<char>, i: int)
    requires
        0 <= i < report_lines(output).len(),
    ensures
        starts_with(report_lines(output)[i], "[pio] "@),
{
    let kept = lines(output).filter(|l: Seq<char>| !is_blank(l));
    assert(report_lines(output)[i] == "[pio] "@ + kept[i]);
    assert(("[pio] "@ + kept[i]).take("[pio] "@.len() as int) == "[pio] "@);
}

/// The lines of the program's own that belong to a build are marked too, and
/// the one that says that the build succeeded is like no other.
proof fn lemma_own_lines_marked(error: Seq<char>, status: Seq<char>)
    ensures
        starts_with(build_start_line(), "[pio] "@),
        starts_with(launch_failed_lines(error)[0], "[pio] "@),
        starts_with(launch_failed_lines(error)[1], "[pio] "@),
        starts_with("[pio] ✓ Flash complete."@, "[pio] "@),
        starts_with("[pio] ✗ Build failed (exit "@ + status + ")."@, "[pio] "@),
        "[pio] ✗ Build failed (exit "@ + status + ")."@ != "[pio] ✓ Flash complete."@,
        launch_failed_lines(error)[1] != "[pio] ✓ Flash complete."@,
{
    reveal_strlit("[pio] ");
    reveal_strlit("[pio] Starting PlatformIO compile & upload...");
    reveal_strlit("[pio] Failed to launch pio: ");
    reveal_strlit("[pio] Is PlatformIO Core installed and in PATH?");
    reveal_strlit("[pio] ✓ Flash complete.");
    reveal_strlit("[pio] ✗ Build failed (exit ");
    let mark = "[pio] "@;
    let failed = "[pio] ✗ Build failed (exit "@ + status + ")."@;
    assert(build_start_line().take(6) == mark);
    assert(launch_failed_lines(error)[0].take(6) == mark);
    assert(launch_failed_lines(error)[1].take(6) == mark);
    assert("[pio] ✓ Flash complete."@.take(6) == mark);
    assert(failed.take(6) == mark);
    assert("[pio] ✓ Flash complete."@[6] == '✓');
    assert(failed[6] == '✗');
    assert(launch_failed_lines(error)[1][6] == 'I');
}

/// A marked line does not end a build.
proof fn lemma_marked_is_no_end(msg: Seq<char>)
    requires
        starts_with(msg, "[pio] "@),
    ensures
        msg != build_done(),
{
    reveal_strlit("[pio] ");
    reveal_strlit("\0DONE");
    assert(msg.take(6)[0] == '[');
}

/// The messages of a build, however it went: the start comes first; every
/// message but the last is marked with `[pio] `, so that none of them is taken
/// for the end; the last one is the end; and the line before it says that the
/// build succeeded exactly where it did.
pub proof fn law_build_row(outcome: BuildOutcome)
    ensures
        build_row(outcome).len() >= 3,
        build_row(outcome)[0] == build_start_line(),
        forall|i: int|
            0 <= i < build_row(outcome).len() - 1 ==> starts_with(
                #[trigger] build_row(outcome)[i],
                "[pio] "@,
            ) && build_row(outcome)[i] != build_done(),
        build_row(outcome).last() == build_done(),
        build_row(outcome)[build_row(outcome).len() - 2] == "[pio] ✓ Flash complete."@
            <==> succeeded(outcome),
{
    let row = build_row(outcome);
    let report = report_of(outcome);
    let n = report.len() as int;
    assert(row == seq![build_start_line()] + report.push(build_done()));
    match outcome {
        BuildOutcome::NotLaunched(error) => {
            lemma_own_lines_marked(error@, error@);
        },
        BuildOutcome::Ended { stdout, stderr, success, status } => {
            lemma_own_lines_marked(status@, status@);
        },
    }
    assert forall|i: int| 0 <= i < n implies starts_with(#[trigger] report[i], "[pio] "@) by {
        if let BuildOutcome::Ended { stdout, stderr, success, status } = outcome {
            let a = report_lines(lossy_text(stdout@));
            let b = report_lines(lossy_text(stderr@));
            if i < a.len() {
                lemma_report_marked(lossy_text(stdout@), i);
                assert(report[i] == a[i]);
            } else if i < a.len() + b.len() {
                lemma_report_marked(lossy_text(stderr@), i - a.len());
                assert(report[i] == b[i - a.len()]);
            }
        }
    }
    assert forall|i: int| 0 <= i < row.len() - 1 implies starts_with(#[trigger] row[i], "[pio] "@)
        && row[i] != build_done() by {
        if i > 0 {
            assert(row[i] == report[i - 1]);
        }
        lemma_marked_is_no_end(row[i]);
    }
    assert(row[row.len() - 2] == report[n - 1]);
}

/// Messages of a build may come in several batches.
pub proof fn law_build_in_batches(v: AppView, a: Seq<Seq<char>>, b: Seq<Seq<char>>)
    ensures
        after_build(v, a + b) == after_build(after_build(v, a), b),
    decreases b.len(),
{
    if b.len() == 0 {
        assert(a + b == a);
    } else {
        assert((a + b).drop_last() == a + b.drop_last());
        assert((a + b).last() == b.last());
        law_build_in_batches(v, a, b.drop_last());
    }
}

/// The messages of a build end it, all of them together and no fewer: as long
/// as the last one has not come, the build is running.
pub proof fn law_build_row_ends_build(v: AppView, outcome: BuildOutcome, k: int)
    requires
        0 <= k <= build_row(outcome).len(),
    ensures
        after_build(v, build_row(outcome).take(k)).compiling == (v.compiling && k
            < build_row(outcome).len()),
        build_row(outcome).take(k).contains(build_done()) == (k == build_row(outcome).len()),
{
    let row = build_row(outcome);
    let part = row.take(k);
    law_build_row(outcome);
    law_build_messages(v, part);
    if k == row.len() {
        assert(part[k - 1] == build_done());
    } else if part.contains(build_done()) {
        let i = choose|i: int| 0 <= i < part.len() && part[i] == build_done();
        assert(part[i] == row[i]);
    }
}

/// What was saved is there again after the next start: reading the settings
/// file and then the configuration file that were written gives the firmware
/// directory, every setting and every macro back, and changes nothing else.
pub proof fn law_restart_restores(
    start: AppView,
    v: AppView,
    t: ConfigTexts,
    read: spec_fn(Seq<char>) -> Option<Num>,
    motor_current: Num,
)
    requires
        v.firmware_dir.len() > 0,
        fits_line(v.firmware_dir),
        writable(v.config),
        canonical_macros(v.config),
        faithful(t, v.config, read),
        read(decimal(v.config.motor_current_y.saturated_u32() as nat)) == Some(motor_current),
    ensures
        ({
            let set = after_settings(start, settings_spec(v.firmware_dir));
            let back = after_load(set, saved(v.config, t), read);
            &&& set.firmware_dir == v.firmware_dir
            &&& back == AppView {
                firmware_dir: v.firmware_dir,
                config: ConfigView { motor_current_y: motor_current, ..v.config },
                ..start
            }
            &&& motor_current == v.config.motor_current_y ==> back.config == v.config
        }),
{
    law_settings_restore_dir(start.firmware_dir, v.firmware_dir);
    law_load_restores_saved(start.config, v.config, t, read, motor_current);
}

/// A macro sends the same commands after the configuration was saved and
/// loaded, unless its G-code text holds semicolons; the other texts of the file
/// may be anything that holds no line feed.
pub proof fn law_macro_sends_alike_after_load(
    start: AppView,
    v: AppView,
    t: ConfigTexts,
    read: spec_fn(Seq<char>) -> Option<Num>,
    idx: int,
)
    requires
        unbroken(v.config),
        unbroken_texts(t),
        0 <= idx < v.config.macros.len(),
        !v.config.macros[idx].gcode.contains(';'),
    ensures
        macro_steps(after_load(start, saved(v.config, t), read), idx) == macro_steps(v, idx),
{
    law_reloaded_macro_runs_alike(start.config, v.config, t, read, idx);
}

} // verus!

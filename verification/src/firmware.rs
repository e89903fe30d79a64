//! The firmware side of the test stand: the generated header, the patch of
//! `Configuration.h`, and what the build reports.

use vstd::prelude::*;
use vstd::utf8::{decode_utf8, valid_utf8};
use crate::config::{Config, ConfigView};
use crate::decimal::{i32_text, signed_decimal};
use crate::text::{
    blank, contains, find_last_text, has_text, is_blank, is_last, join_lines, lines, occurs_at,
    slice_text, split_lines, texts, trim, trimmed, unlines,
};
use crate::text_facts::{lemma_contains_middle, lemma_no_break, no_break_upto};

verus! {

/// The lines that give a preprocessor symbol a value, whatever it had.
pub open spec fn define_lines(symbol: Seq<char>, value: Seq<char>) -> Seq<Seq<char>> {
    seq![
        ""@,
        "#ifdef "@ + symbol,
        "#  undef "@ + symbol,
        "#endif"@,
        "#define "@ + symbol + " "@ + value,
    ]
}

/// The lines that define a pin, where its override is on and the pin is not blank.
pub open spec fn pin_lines(symbol: Seq<char>, on: bool, pin: Seq<char>) -> Seq<Seq<char>> {
    if on && !is_blank(pin) {
        define_lines(symbol, trim(pin))
    } else {
        Seq::empty()
    }
}

/// The comment at the top of the generated header.
pub open spec fn header_comment() -> Seq<Seq<char>> {
    seq![
        "// Configuration_Zeus.h — Auto-generated by Stepper Control"@,
        "// Add to the end of Configuration.h:"@,
        "//   #include \"Configuration_Zeus.h\""@,
        "// Do not edit manually."@,
    ]
}

/// The generated header.
pub open spec fn zeus_header(c: ConfigView, y_min_pos: Seq<char>, y_max_pos: Seq<char>) -> Seq<
    char,
> {
    unlines(
        header_comment() + define_lines("Y_HOME_DIR"@, signed_decimal(c.y_home_dir as int))
            + define_lines("Y_MIN_POS"@, y_min_pos) + define_lines("Y_MAX_POS"@, y_max_pos)
            + pin_lines("Y_MIN_ENDSTOP_PIN"@, c.y_min_endstop_override, c.y_min_endstop_pin)
            + pin_lines("Y_MAX_ENDSTOP_PIN"@, c.y_max_endstop_override, c.y_max_endstop_pin),
    )
}

/// The line that brings the generated header into `Configuration.h`.
pub open spec fn include_line() -> Seq<char> {
    "#include \"Configuration_Zeus.h\""@
}

/// Where the last `#endif` of a text stands.
pub open spec fn last_endif(text: Seq<char>) -> int {
    choose|i: int| is_last(text, "#endif"@, i)
}

/// `Configuration.h` with the header brought in: just before the last
/// `#endif`, or at the end where there is none.
pub open spec fn patched(text: Seq<char>) -> Seq<char> {
    if contains(text, "#endif"@) {
        text.take(last_endif(text)) + "\n"@ + include_line() + "\n\n"@ + text.skip(
            last_endif(text),
        )
    } else {
        text + "\n"@ + include_line() + "\n"@
    }
}

/// What the build tool printed, line by line, without blank lines.
pub open spec fn report_lines(output: Seq<char>) -> Seq<Seq<char>> {
    lines(output).filter(|l: Seq<char>| !is_blank(l)).map_values(
        |l: Seq<char>| "[pio] "@ + l,
    )
}

/// What the build reports: what it printed, then how it ended.
pub open spec fn build_report_spec(
    stdout: Seq<char>,
    stderr: Seq<char>,
    success: bool,
    status: Seq<char>,
) -> Seq<Seq<char>> {
    (report_lines(stdout) + report_lines(stderr)).push(
        if success {
            "[pio] ✓ Flash complete."@
        } else {
            "[pio] ✗ Build failed (exit "@ + status + ")."@
        },
    )
}

/// What `String::from_utf8_lossy` makes of bytes.
pub uninterp spec fn lossy_text(bytes: Seq<u8>) -> Seq<char>;

/// Calls `String::from_utf8_lossy`. The result is a function of the bytes
/// alone; bytes that are valid UTF-8 give the text that they encode. How many
/// replacement characters stand for invalid bytes is not claimed.
#[verifier::external_body]
fn from_utf8_lossy(bytes: &[u8]) -> (r: String)
    ensures
        r@ == lossy_text(bytes@),
        valid_utf8(bytes@) ==> r@ == decode_utf8(bytes@),
{
    String::from_utf8_lossy(bytes).into_owned()
}

/// Appends the lines that give a preprocessor symbol a value.
fn push_define(out: &mut Vec<String>, symbol: &str, value: &str)
    ensures
        texts(final(out)@) == texts(old(out)@) + define_lines(symbol@, value@),
{
    let ghost before = texts(out@);
    let mut test: String = "#ifdef ".to_string();
    test.append(symbol);
    let mut drop_old: String = "#  undef ".to_string();
    drop_old.append(symbol);
    let mut define: String = "#define ".to_string();
    define.append(symbol);
    define.append(" ");
    define.append(value);
    out.push("".to_string());
    out.push(test);
    out.push(drop_old);
    out.push("#endif".to_string());
    out.push(define);
    assert(texts(out@) == before + define_lines(symbol@, value@));
}

/// Appends the lines that define a pin.
fn push_pin(out: &mut Vec<String>, symbol: &str, on: bool, pin: &str)
    ensures
        texts(final(out)@) == texts(old(out)@) + pin_lines(symbol@, on, pin@),
{
    let ghost before = texts(out@);
    let value: String = trimmed(pin);
    if on && !value.as_str().is_empty() {
        push_define(out, symbol, value.as_str());
    } else {
        assert(before == before + pin_lines(symbol@, on, pin@));
    }
}

impl Config {
    /// The generated header. `y_min_pos` and `y_max_pos` are the compile-time
    /// limits as texts.
    pub fn zeus_h(&self, y_min_pos: &str, y_max_pos: &str) -> (r: String)
        ensures
            r@ == zeus_header(self@, y_min_pos@, y_max_pos@),
    {
        let mut out: Vec<String> = Vec::new();
        out.push("// Configuration_Zeus.h — Auto-generated by Stepper Control".to_string());
        out.push("// Add to the end of Configuration.h:".to_string());
        out.push("//   #include \"Configuration_Zeus.h\"".to_string());
        out.push("// Do not edit manually.".to_string());
        assert(texts(out@) == header_comment());
        let home_dir: String = i32_text(self.y_home_dir);
        push_define(&mut out, "Y_HOME_DIR", home_dir.as_str());
        push_define(&mut out, "Y_MIN_POS", y_min_pos);
        push_define(&mut out, "Y_MAX_POS", y_max_pos);
        push_pin(
            &mut out,
            "Y_MIN_ENDSTOP_PIN",
            self.y_min_endstop_override,
            self.y_min_endstop_pin.as_str(),
        );
        push_pin(
            &mut out,
            "Y_MAX_ENDSTOP_PIN",
            self.y_max_endstop_override,
            self.y_max_endstop_pin.as_str(),
        );
        join_lines(&out)
    }
}

/// What is to be done about `Configuration.h`.
#[derive(Debug)]
pub enum PatchPlan {
    /// Nothing, for the reason that the message gives.
    Leave(String),
    /// Write this text.
    Write(String),
}

/// Decides what is to be done about `Configuration.h`, given what reading it
/// gave: its text, or an error.
pub fn patch_configuration_h(file: &Result<String, String>) -> (r: PatchPlan)
    ensures
        match *file {
            Err(e) => r matches PatchPlan::Leave(m) && m@ == "Cannot read Configuration.h: "@ + e@,
            Ok(text) => if contains(text@, include_line()) {
                r matches PatchPlan::Leave(m) && m@
                    == "Configuration.h already includes Configuration_Zeus.h."@
            } else {
                r matches PatchPlan::Write(p) && p@ == patched(text@)
            },
        },
        r is Write <==> (*file matches Ok(text) && !contains(text@, include_line())),
        r matches PatchPlan::Write(p) ==> contains(p@, include_line()),
{
    proof {
        if let Ok(text) = file {
            law_patch_settles(text@);
        }
    }
    match file {
        Err(e) => {
            let mut m: String = "Cannot read Configuration.h: ".to_string();
            m.append(e.as_str());
            PatchPlan::Leave(m)
        },
        Ok(text) => {
            if has_text(text.as_str(), "#include \"Configuration_Zeus.h\"") {
                return PatchPlan::Leave(
                    "Configuration.h already includes Configuration_Zeus.h.".to_string(),
                );
            }
            PatchPlan::Write(patch(text.as_str()))
        },
    }
}

/// `Configuration.h` with the header brought in.
fn patch(text: &str) -> (r: String)
    ensures
        r@ == patched(text@),
{
    match find_last_text(text, "#endif") {
        Some(pos) => {
            proof {
                assert(is_last(text@, "#endif"@, last_endif(text@)));
                assert(occurs_at(text@, "#endif"@, pos as int));
                assert(pos == last_endif(text@));
            }
            let n: usize = text.unicode_len();
            let mut out: String = slice_text(text, 0, pos);
            assert(out@ == text@.take(pos as int));
            out.append("\n");
            out.append("#include \"Configuration_Zeus.h\"");
            out.append("\n\n");
            let rest: String = slice_text(text, pos, n);
            assert(rest@ == text@.skip(pos as int));
            out.append(rest.as_str());
            out
        },
        None => {
            let mut out: String = text.to_string();
            out.append("\n");
            out.append("#include \"Configuration_Zeus.h\"");
            out.append("\n");
            out
        },
    }
}

/// Appends what the build tool printed.
fn push_report(out: &mut Vec<String>, output: &str)
    ensures
        texts(final(out)@) == texts(old(out)@) + report_lines(output@),
{
    let all: Vec<String> = split_lines(output);
    let ghost before = texts(out@);
    let ghost ls = lines(output@);
    let ghost keep = |l: Seq<char>| !is_blank(l);
    let ghost mark = |l: Seq<char>| "[pio] "@ + l;
    let mut i: usize = 0;
    assert(before == before + ls.take(0).filter(keep).map_values(mark)) by {
        reveal(Seq::filter);
    }
    while i < all.len()
        invariant
            i <= all.len(),
            texts(all@) == ls,
            keep == (|l: Seq<char>| !is_blank(l)),
            mark == (|l: Seq<char>| "[pio] "@ + l),
            texts(out@) == before + ls.take(i as int).filter(keep).map_values(mark),
        decreases all.len() - i,
    {
        let ghost so_far = texts(out@);
        let ghost kept = ls.take(i as int).filter(keep);
        proof {
            reveal(Seq::filter);
            assert(texts(all@)[i as int] == all[i as int]@);
            assert(ls.take(i + 1).drop_last() == ls.take(i as int));
        }
        if !blank(all[i].as_str()) {
            let mut line: String = "[pio] ".to_string();
            line.append(all[i].as_str());
            out.push(line);
            assert(texts(out@) == so_far.push(line@));
            assert(kept.push(all[i as int]@).map_values(mark) == kept.map_values(mark).push(
                line@,
            ));
        }
        i += 1;
    }
    assert(ls.take(i as int) == ls);
}

/// What the build reports, of what it printed as text and how it ended.
pub fn build_report(stdout: &str, stderr: &str, success: bool, status: &str) -> (r: Vec<String>)
    ensures
        texts(r@) == build_report_spec(stdout@, stderr@, success, status@),
{
    let mut out: Vec<String> = Vec::new();
    assert(texts(out@) == Seq::<Seq<char>>::empty());
    push_report(&mut out, stdout);
    push_report(&mut out, stderr);
    let ghost before = texts(out@);
    assert(before == report_lines(stdout@) + report_lines(stderr@));
    let end: String = if success {
        "[pio] ✓ Flash complete.".to_string()
    } else {
        let mut m: String = "[pio] ✗ Build failed (exit ".to_string();
        m.append(status);
        m.append(").");
        m
    };
    out.push(end);
    assert(texts(out@) == before.push(end@));
    out
}

/// What the build reports, of the bytes that it printed and how it ended.
pub fn build_output_report(
    stdout: &[u8],
    stderr: &[u8],
    success: bool,
    status: &str,
) -> (r: Vec<String>)
    ensures
        texts(r@) == build_report_spec(
            lossy_text(stdout@),
            lossy_text(stderr@),
            success,
            status@,
        ),
        valid_utf8(stdout@) ==> lossy_text(stdout@) == decode_utf8(stdout@),
        valid_utf8(stderr@) ==> lossy_text(stderr@) == decode_utf8(stderr@),
{
    let a: String = from_utf8_lossy(stdout);
    let b: String = from_utf8_lossy(stderr);
    build_report(a.as_str(), b.as_str(), success, status)
}

/// The first line that a build reports.
pub open spec fn build_start_line() -> Seq<char> {
    "[pio] Starting PlatformIO compile & upload..."@
}

/// The first line that a build reports.
pub fn build_start() -> (r: String)
    ensures
        r@ == build_start_line(),
{
    "[pio] Starting PlatformIO compile & upload...".to_string()
}

/// What a build reports that could not be launched.
pub open spec fn launch_failed_lines(error: Seq<char>) -> Seq<Seq<char>> {
    seq![
        "[pio] Failed to launch pio: "@ + error,
        "[pio] Is PlatformIO Core installed and in PATH?"@,
    ]
}

/// What a build reports that could not be launched.
pub fn build_launch_failed(error: &str) -> (r: Vec<String>)
    ensures
        texts(r@) == launch_failed_lines(error@),
{
    let mut out: Vec<String> = Vec::new();
    let mut m: String = "[pio] Failed to launch pio: ".to_string();
    m.append(error);
    out.push(m);
    out.push("[pio] Is PlatformIO Core installed and in PATH?".to_string());
    assert(texts(out@) == launch_failed_lines(error@));
    out
}

/// How the build tool fared.
#[derive(Debug)]
pub enum BuildOutcome {
    /// It could not be launched, with the error.
    NotLaunched(String),
    /// It ran to its end: the bytes that it printed, whether it succeeded, and
    /// its exit status as text.
    Ended { stdout: Vec<u8>, stderr: Vec<u8>, success: bool, status: String },
}

/// The build tool ran and succeeded.
pub open spec fn succeeded(outcome: BuildOutcome) -> bool {
    match outcome {
        BuildOutcome::NotLaunched(_) => false,
        BuildOutcome::Ended { success, .. } => success,
    }
}

/// What a build reports when the build tool has fared so.
pub open spec fn report_of(outcome: BuildOutcome) -> Seq<Seq<char>> {
    match outcome {
        BuildOutcome::NotLaunched(error) => launch_failed_lines(error@),
        BuildOutcome::Ended { stdout, stderr, success, status } => build_report_spec(
            lossy_text(stdout@),
            lossy_text(stderr@),
            success,
            status@,
        ),
    }
}

/// A patched text brings the header in, so that it is not patched again.
pub proof fn law_patch_settles(text: Seq<char>)
    ensures
        contains(patched(text), include_line()),
{
    let inc = include_line();
    if contains(text, "#endif"@) {
        let a = text.take(last_endif(text)) + "\n"@;
        let b = "\n\n"@ + text.skip(last_endif(text));
        lemma_contains_middle(a, inc, b);
        assert(patched(text) == a + inc + b);
    } else {
        lemma_contains_middle(text + "\n"@, inc, "\n"@);
    }
}

/// A text that did not bring the header in brings it in exactly once when it is
/// patched.
pub proof fn law_patch_includes_once(text: Seq<char>)
    requires
        !contains(text, include_line()),
    ensures
        exists|i: int| #[trigger] occurs_at(patched(text), include_line(), i) && forall|j: int| #[trigger]
            occurs_at(patched(text), include_line(), j) ==> j == i,
{
    let inc = include_line();
    let n = inc.len() as int;
    let out = patched(text);
    let pos = if contains(text, "#endif"@) {
        last_endif(text)
    } else {
        text.len() as int
    };
    let added = if contains(text, "#endif"@) {
        "\n"@ + inc + "\n\n"@
    } else {
        "\n"@ + inc + "\n"@
    };
    law_patch_inserts_before_last_endif(text);
    reveal_strlit("\n");
    reveal_strlit("\n\n");
    lemma_include_is_line();
    assert(out == text.take(pos) + added + text.skip(pos));
    assert(out.subrange(pos + 1, pos + 1 + n) == inc);
    assert(occurs_at(out, inc, pos + 1));
    assert(out[pos] == '\n');
    assert(out[pos + 1 + n] == '\n');
    assert(out[pos + added.len() - 1] == '\n');
    assert forall|j: int| #[trigger] occurs_at(out, inc, j) implies j == pos + 1 by {
        let here = out.subrange(j, j + n);
        assert(here == inc);
        if j <= pos < j + n {
            assert(here[pos - j] == out[pos]);
        }
        if j <= pos + 1 + n < j + n {
            assert(here[pos + 1 + n - j] == out[pos + 1 + n]);
        }
        if j + n <= pos {
            assert(text.subrange(j, j + n) == out.subrange(j, j + n));
            assert(occurs_at(text, inc, j));
        } else if j > pos + 1 + n {
            let last = pos + added.len() - 1;
            if j <= last {
                assert(here[last - j] == out[last]);
            }
            let m = added.len() as int;
            assert(text.subrange(j - m, j - m + n) == out.subrange(j, j + n));
            assert(occurs_at(text, inc, j - m));
        }
    }
}

/// The line that brings the header in is one line, and not an empty one.
proof fn lemma_include_is_line()
    ensures
        include_line().len() > 0,
        forall|i: int| 0 <= i < include_line().len() ==> include_line()[i] != '\n',
{
    reveal_strlit("#include \"Configuration_Zeus.h\"");
    reveal_with_fuel(no_break_upto, 32);
    lemma_no_break(include_line(), include_line().len());
}

/// The patch only inserts. Where the text has an `#endif`, the last one stays
/// the last one and follows directly on what was inserted; where it has none,
/// the insertion is at the end.
pub proof fn law_patch_inserts_before_last_endif(text: Seq<char>)
    ensures
        contains(text, "#endif"@) ==> ({
            let pos = last_endif(text);
            let added = "\n"@ + include_line() + "\n\n"@;
            &&& is_last(text, "#endif"@, pos)
            &&& patched(text) == text.take(pos) + added + text.skip(pos)
            &&& is_last(patched(text), "#endif"@, pos + added.len())
        }),
        !contains(text, "#endif"@) ==> patched(text) == text + ("\n"@ + include_line() + "\n"@),
{
    let p = "#endif"@;
    if contains(text, p) {
        let some = choose|i: int| occurs_at(text, p, i);
        lemma_has_last(text, p, some);
        let pos = last_endif(text);
        assert(is_last(text, p, pos));
        let added = "\n"@ + include_line() + "\n\n"@;
        let n = added.len() as int;
        let out = text.take(pos) + added + text.skip(pos);
        assert(patched(text) == out);
        assert(out.subrange(pos + n, pos + n + p.len()) == text.subrange(pos, pos + p.len()));
        assert forall|j: int| occurs_at(out, p, j) implies j <= pos + n by {
            if j > pos + n {
                assert(out.subrange(j, j + p.len()) == text.subrange(j - n, j - n + p.len()));
                assert(occurs_at(text, p, j - n));
            }
        }
    } else {
        assert(patched(text) == text + ("\n"@ + include_line() + "\n"@));
    }
}

/// A text in which `p` stands has a last place where it stands.
proof fn lemma_has_last(text: Seq<char>, p: Seq<char>, i: int)
    requires
        occurs_at(text, p, i),
    ensures
        exists|k: int| is_last(text, p, k),
    decreases text.len() - i,
{
    if exists|j: int| j > i && occurs_at(text, p, j) {
        let j = choose|j: int| j > i && occurs_at(text, p, j);
        lemma_has_last(text, p, j);
    } else {
        assert(is_last(text, p, i));
    }
}

} // verus!

//! What lines from the board do, said of their characters.

use vstd::prelude::*;
use crate::decimal::{decimal, is_digit, lemma_decimal};
use crate::num::Num;
use crate::serial::{
    after_line, after_messages, axis_mark, axis_value, endstop_noted, field, first_place, is_ok,
    line_steps, message_steps, y_number,
};
use crate::stepper::{
    apply_steps, sent, AppView, HomingState, Message, RuntimeTexts, StepView,
};
use crate::text::{
    contains, is_first, is_white_space, lowercase, occurs_at, starts_with, trim, trim_start,
};
use crate::text_facts::lemma_contains_middle;
use crate::text_laws::{all_white, law_starts_with, law_trim_start};

verus! {

/// The first two characters behind the leading white space are `o` and `k`.
pub open spec fn acknowledges(msg: Seq<char>) -> bool {
    exists|k: int|
        0 <= k && k + 1 < msg.len() && all_white(#[trigger] msg.take(k)) && msg[k] == 'o' && msg[k
            + 1] == 'k'
}

proof fn lemma_o_is_no_white()
    ensures
        !is_white_space('o'),
{
}

/// A line counts as an acknowledgement exactly where, behind its leading white
/// space, its first two characters are `o` and `k`.
pub proof fn law_ok_is_o_and_k(msg: Seq<char>)
    ensures
        is_ok(msg) <==> acknowledges(msg),
{
    reveal_strlit("ok");
    lemma_o_is_no_white();
    let ok = "ok"@;
    law_starts_with(ok, trim_start(msg));
    if acknowledges(msg) {
        let k = choose|k: int|
            0 <= k && k + 1 < msg.len() && all_white(#[trigger] msg.take(k)) && msg[k] == 'o'
                && msg[k + 1] == 'k';
        assert(msg == msg.take(k) + msg.skip(k));
        law_trim_start(msg.take(k), msg.skip(k));
        assert(trim_start(msg)[0] == 'o' && trim_start(msg)[1] == 'k');
    }
    if is_ok(msg) {
        let k = lemma_first_ink(msg);
        assert(trim_start(msg)[0] == 'o' && trim_start(msg)[1] == 'k');
        assert(msg[k] == msg.skip(k)[0] && msg[k + 1] == msg.skip(k)[1]);
    }
}

/// Where the leading white space of a text ends.
pub proof fn lemma_first_ink(s: Seq<char>) -> (k: int)
    ensures
        0 <= k <= s.len(),
        all_white(s.take(k)),
        trim_start(s) == s.skip(k),
    decreases s.len(),
{
    if s.len() > 0 && is_white_space(s[0]) {
        let tail = s.drop_first();
        let k = lemma_first_ink(tail);
        let white = s.take(k + 1);
        assert forall|i: int| 0 <= i < k + 1 implies is_white_space(#[trigger] white[i]) by {
            if i > 0 {
                assert(tail.take(k)[i - 1] == s[i]);
            }
        }
        assert(tail.skip(k) == s.skip(k + 1));
        k + 1
    } else {
        assert(s.skip(0) == s);
        0
    }
}

/// A line whose first character that is not white space is not `o`, or is not
/// followed by `k`, acknowledges nothing.
proof fn lemma_other_line(msg: Seq<char>, k: int)
    requires
        0 <= k < msg.len(),
        all_white(msg.take(k)),
        !is_white_space(msg[k]),
        msg[k] != 'o' || k + 1 >= msg.len() || msg[k + 1] != 'k',
    ensures
        !acknowledges(msg),
{
    if acknowledges(msg) {
        let m = choose|m: int|
            0 <= m && m + 1 < msg.len() && all_white(#[trigger] msg.take(m)) && msg[m] == 'o'
                && msg[m + 1] == 'k';
        lemma_o_is_no_white();
        if m < k {
            assert(msg.take(k)[m] == msg[m]);
        } else if k < m {
            assert(msg.take(m)[k] == msg[k]);
        }
    }
}

/// A line whose first character behind the white space is not an `o` with a `k`
/// after it leaves homing, the position and reading as they are. It is logged,
/// and nothing else follows on it.
pub proof fn law_other_line_changes_no_progress(
    v: AppView,
    msg: Seq<char>,
    lower: Seq<char>,
    y: Option<Num>,
    max_pos: Seq<char>,
    k: int,
)
    requires
        0 <= k < msg.len(),
        all_white(msg.take(k)),
        !is_white_space(msg[k]),
        msg[k] != 'o' || k + 1 >= msg.len() || msg[k + 1] != 'k',
    ensures
        ({
            let after = after_line(v, msg, lower, y);
            &&& after.homing_state == v.homing_state
            &&& after.current_pos == v.current_pos
            &&& after.reading_config == v.reading_config
            &&& line_steps(v, msg, max_pos) == seq![StepView::Log(seq!['<', ' '] + msg)]
            &&& sent(line_steps(v, msg, max_pos)).len() == 0
        }),
{
    lemma_other_line(msg, k);
    law_ok_is_o_and_k(msg);
    reveal_strlit("< ");
    assert("< "@ == seq!['<', ' ']);
    let steps = seq![StepView::Log("< "@ + msg)];
    assert(line_steps(v, msg, max_pos) == steps);
    assert(steps.drop_last().len() == 0);
    reveal_with_fuel(sent, 2);
}

/// A line with `ok` behind its leading white space ends reading, with a message
/// where reading was going on. Where the axis was being homed it is homed at
/// the upper limit, and one `G91` is sent; elsewhere nothing is sent and the
/// position stays.
pub proof fn law_ok_line(
    v: AppView,
    msg: Seq<char>,
    lower: Seq<char>,
    y: Option<Num>,
    max_pos: Seq<char>,
    k: int,
)
    requires
        0 <= k,
        k + 1 < msg.len(),
        all_white(msg.take(k)),
        msg[k] == 'o',
        msg[k + 1] == 'k',
    ensures
        ({
            let after = after_line(v, msg, lower, y);
            let steps = line_steps(v, msg, max_pos);
            let told = if v.reading_config {
                1int
            } else {
                0int
            };
            &&& !after.reading_config
            &&& steps[0] == StepView::Log(seq!['<', ' '] + msg)
            &&& v.reading_config ==> steps[1] is Log
            &&& if v.homing_state == HomingState::Homing {
                &&& after.homing_state == HomingState::Homed
                &&& after.current_pos == v.max_pos
                &&& steps.len() == told + 3
                &&& steps[told + 1] == StepView::Send(seq!['G', '9', '1'])
                &&& steps[told + 2] is Log
                &&& contains(steps[told + 2]->Log_0, max_pos)
            } else {
                &&& after.homing_state == v.homing_state
                &&& after.current_pos == v.current_pos
                &&& steps.len() == told + 1
            }
        }),
{
    assert(acknowledges(msg));
    law_ok_is_o_and_k(msg);
    reveal_strlit("< ");
    reveal_strlit("G91");
    assert("< "@ == seq!['<', ' ']);
    assert("G91"@ == seq!['G', '9', '1']);
    lemma_contains_middle("Homed. Position set to "@, max_pos, " mm. Relative moves active."@);
}

/// While the settings are being read, a line that names `M92`, `M203`, `M201`
/// or `M906` sets the steps, the feedrate, the acceleration or the motor
/// current to the number that it gives, and leaves those that it does not name.
/// A line that gives no number, and any line at another time, sets nothing.
/// Nothing else of the configuration is ever touched.
pub proof fn law_report_is_taken_in(
    v: AppView,
    msg: Seq<char>,
    lower: Seq<char>,
    y: Option<Num>,
)
    ensures
        ({
            let before = v.config;
            let after = after_line(v, msg, lower, y).config;
            let taken = v.reading_config && y is Some;
            &&& after.steps_y == if taken && contains(msg, seq!['M', '9', '2']) {
                y->0
            } else {
                before.steps_y
            }
            &&& after.max_feedrate_y == if taken && contains(msg, seq!['M', '2', '0', '3']) {
                y->0
            } else {
                before.max_feedrate_y
            }
            &&& after.max_accel_y == if taken && contains(msg, seq!['M', '2', '0', '1']) {
                y->0
            } else {
                before.max_accel_y
            }
            &&& after.motor_current_y == if taken && contains(msg, seq!['M', '9', '0', '6']) {
                y->0
            } else {
                before.motor_current_y
            }
            &&& after.y_home_dir == before.y_home_dir
            &&& after.y_min_pos == before.y_min_pos
            &&& after.y_max_pos == before.y_max_pos
            &&& after.y_min_endstop_override == before.y_min_endstop_override
            &&& after.y_min_endstop_pin == before.y_min_endstop_pin
            &&& after.y_max_endstop_override == before.y_max_endstop_override
            &&& after.y_max_endstop_pin == before.y_max_endstop_pin
            &&& after.macros == before.macros
        }),
{
    lemma_codes();
}

proof fn lemma_codes()
    ensures
        "M92"@ == seq!['M', '9', '2'],
        "M203"@ == seq!['M', '2', '0', '3'],
        "M201"@ == seq!['M', '2', '0', '1'],
        "M906"@ == seq!['M', '9', '0', '6'],
{
    reveal_strlit("M92");
    reveal_strlit("M203");
    reveal_strlit("M201");
    reveal_strlit("M906");
}

/// A line that stands for itself in the report: wherever the code stands in the
/// line, what it names is set.
pub proof fn law_report_line_wherever_code_stands(
    v: AppView,
    front: Seq<char>,
    back: Seq<char>,
    lower: Seq<char>,
    n: Num,
)
    requires
        v.reading_config,
    ensures
        after_line(v, front + "M92"@ + back, lower, Some(n)).config.steps_y == n,
        after_line(v, front + "M203"@ + back, lower, Some(n)).config.max_feedrate_y == n,
        after_line(v, front + "M201"@ + back, lower, Some(n)).config.max_accel_y == n,
        after_line(v, front + "M906"@ + back, lower, Some(n)).config.motor_current_y == n,
{
    lemma_contains_middle(front, "M92"@, back);
    lemma_contains_middle(front, "M203"@, back);
    lemma_contains_middle(front, "M201"@, back);
    lemma_contains_middle(front, "M906"@, back);
}

/// `y_min:`, as characters.
pub open spec fn y_min_mark() -> Seq<char> {
    seq!['y', '_', 'm', 'i', 'n', ':']
}

/// `y_max:`, as characters.
pub open spec fn y_max_mark() -> Seq<char> {
    seq!['y', '_', 'm', 'a', 'x', ':']
}

proof fn lemma_marks(s: Seq<char>)
    ensures
        "y_min:"@ == y_min_mark(),
        "y_max:"@ == y_max_mark(),
        starts_with(y_min_mark() + s, "y_min:"@),
        starts_with(y_max_mark() + s, "y_max:"@),
        !starts_with(y_max_mark() + s, "y_min:"@),
        (y_min_mark() + s).skip(6) == s,
        (y_max_mark() + s).skip(6) == s,
{
    reveal_strlit("y_min:");
    reveal_strlit("y_max:");
    let a = y_min_mark() + s;
    let b = y_max_mark() + s;
    assert("y_min:"@ == y_min_mark());
    assert("y_max:"@ == y_max_mark());
    assert(a.take(6) == y_min_mark());
    assert(b.take(6) == y_max_mark());
    assert(b.take(6)[3] == 'a');
    assert(y_min_mark()[3] == 'i');
    assert(a.skip(6) == s);
    assert(b.skip(6) == s);
}

/// The state of an endstop is what the line says behind the endstop's mark,
/// without the white space around it; the other endstop stays as it was. This
/// holds of any text behind the mark, whatever else the line does.
pub proof fn law_endstop_is_what_the_line_says(
    v: AppView,
    state: Seq<char>,
    msg: Seq<char>,
    y: Option<Num>,
)
    ensures
        ({
            let after = after_line(v, msg, y_min_mark() + state, y);
            after.endstop_y_min == trim(state) && after.endstop_y_max == v.endstop_y_max
        }),
        ({
            let after = after_line(v, msg, y_max_mark() + state, y);
            after.endstop_y_max == trim(state) && after.endstop_y_min == v.endstop_y_min
        }),
        endstop_noted(v, y_min_mark() + state) == (AppView { endstop_y_min: trim(state), ..v }),
        endstop_noted(v, y_max_mark() + state) == (AppView { endstop_y_max: trim(state), ..v }),
{
    lemma_marks(state);
}

/// A line that begins with neither mark leaves both endstops as they were.
pub proof fn law_other_line_keeps_endstops(
    v: AppView,
    msg: Seq<char>,
    lower: Seq<char>,
    y: Option<Num>,
)
    requires
        lower.len() < 6 || (lower.take(6) != y_min_mark() && lower.take(6) != y_max_mark()),
    ensures
        after_line(v, msg, lower, y).endstop_y_min == v.endstop_y_min,
        after_line(v, msg, lower, y).endstop_y_max == v.endstop_y_max,
        endstop_noted(v, lower) == v,
{
    lemma_marks(Seq::empty());
}

/// A line from the board touches nothing but the settings, reading, homing, the
/// position and the endstops.
pub proof fn law_line_keeps_the_rest(
    v: AppView,
    msg: Seq<char>,
    lower: Seq<char>,
    y: Option<Num>,
)
    ensures
        ({
            let after = after_line(v, msg, lower, y);
            &&& after.port_name == v.port_name
            &&& after.connected == v.connected
            &&& after.log == v.log
            &&& after.distance == v.distance
            &&& after.speed == v.speed
            &&& after.min_pos == v.min_pos
            &&& after.max_pos == v.max_pos
            &&& after.active_tab == v.active_tab
            &&& after.firmware_dir == v.firmware_dir
            &&& after.compiling == v.compiling
            &&& after.editor == v.editor
        }),
{
}

/// Lines from the board are taken in one after the other: a row of lines does
/// what its parts do in turn, a single line does what that line does, and no
/// line does nothing.
pub proof fn law_lines_in_turn(
    v: AppView,
    a: Seq<Message>,
    b: Seq<Message>,
    m: Message,
    max_pos: Seq<char>,
)
    ensures
        after_messages(v, Seq::empty()) == v,
        message_steps(v, Seq::empty(), max_pos).len() == 0,
        after_messages(v, seq![m]) == after_line(v, m.text@, lowercase(m.text@), m.y),
        message_steps(v, seq![m], max_pos) == line_steps(v, m.text@, max_pos),
        after_messages(v, a + b) == after_messages(after_messages(v, a), b),
        message_steps(v, a + b, max_pos) == message_steps(v, a, max_pos) + message_steps(
            after_messages(v, a),
            b,
            max_pos,
        ),
    decreases b.len(),
{
    let single = seq![m];
    assert(single.drop_last() == Seq::<Message>::empty());
    assert(single.last() == m);
    assert(after_messages(v, Seq::empty()) == v);
    assert(message_steps(v, single, max_pos) == message_steps(v, Seq::empty(), max_pos)
        + line_steps(v, m.text@, max_pos));
    if b.len() == 0 {
        assert(a + b == a);
    } else {
        assert((a + b).drop_last() == a + b.drop_last());
        assert((a + b).last() == b.last());
        law_lines_in_turn(v, a, b.drop_last(), m, max_pos);
    }
}

/// A character that ends a value.
pub open spec fn ends_value(c: char) -> bool {
    c == ' ' || c == '\t' || c == '\r' || c == '\n'
}

proof fn lemma_field(value: Seq<char>, back: Seq<char>)
    requires
        forall|i: int| 0 <= i < value.len() ==> !ends_value(#[trigger] value[i]),
        back.len() > 0 ==> ends_value(back[0]),
    ensures
        field(value + back) == value,
    decreases value.len(),
{
    let s = value + back;
    if value.len() > 0 {
        assert(!ends_value(value[0]));
        assert(s[0] == value[0]);
        let rest = value.drop_first();
        assert forall|i: int| 0 <= i < rest.len() implies !ends_value(#[trigger] rest[i]) by {
            assert(rest[i] == value[i + 1]);
        }
        assert(s.drop_first() == rest + back);
        lemma_field(rest, back);
        assert(seq![value[0]] + rest == value);
    } else {
        assert(s == back);
    }
}

/// The value of an axis is what stands behind the first blank with the axis
/// letter, up to the next blank, tab or line ending, wherever that is in the
/// line.
pub proof fn law_axis_value(
    front: Seq<char>,
    axis: char,
    value: Seq<char>,
    back: Seq<char>,
)
    requires
        !contains(front + seq![' '], seq![' ', axis]),
        forall|i: int| 0 <= i < value.len() ==> !ends_value(#[trigger] value[i]),
        back.len() > 0 ==> ends_value(back[0]),
        axis != ' ',
    ensures
        axis_value(front + seq![' ', axis] + value + back, axis) == Some(value),
{
    let mark = axis_mark(axis);
    let s = front + seq![' ', axis] + value + back;
    let n = front.len() as int;
    assert(mark == seq![' ', axis]);
    assert(s.subrange(n, n + 2) == mark);
    assert(occurs_at(s, mark, n));
    assert forall|j: int| occurs_at(s, mark, j) implies n <= j by {
        if j < n {
            let head = front + seq![' '];
            assert(head.subrange(j, j + 2) == s.subrange(j, j + 2));
            assert(occurs_at(head, mark, j));
        }
    }
    assert(is_first(s, mark, n));
    let k = first_place(s, mark);
    assert(is_first(s, mark, k));
    assert(k == n);
    assert(s.skip(n + 2) == value + back);
    lemma_field(value, back);
}

/// Without a blank and the axis letter there is no value, and no number is
/// read.
pub proof fn law_no_axis_no_value(
    line: Seq<char>,
    axis: char,
    read: spec_fn(Seq<char>) -> Option<Num>,
)
    requires
        forall|i: int|
            0 <= i && i + 1 < line.len() && #[trigger] line[i] == ' ' ==> line[i + 1] != axis,
    ensures
        axis_value(line, axis) is None,
        axis == 'Y' ==> y_number(line, read) is None,
{
    let mark = axis_mark(axis);
    if contains(line, mark) {
        let i = choose|i: int| occurs_at(line, mark, i);
        let part = line.subrange(i, i + 2);
        assert(part == mark);
        assert(part[0] == line[i] && part[1] == line[i + 1]);
        assert(mark[0] == ' ' && mark[1] == axis);
    }
}

/// The number of a line is what its Y value reads as.
pub proof fn law_y_number(
    front: Seq<char>,
    value: Seq<char>,
    back: Seq<char>,
    read: spec_fn(Seq<char>) -> Option<Num>,
)
    requires
        !contains(front + seq![' '], seq![' ', 'Y']),
        forall|i: int| 0 <= i < value.len() ==> !ends_value(#[trigger] value[i]),
        back.len() > 0 ==> ends_value(back[0]),
    ensures
        y_number(front + seq![' ', 'Y'] + value + back, read) == read(value),
{
    law_axis_value(front, 'Y', value, back);
}

/// A text that may stand as the value of a command: no blank, no line ending,
/// and not the letter that begins a code.
pub open spec fn plain_value(value: Seq<char>) -> bool {
    forall|i: int| 0 <= i < value.len() ==> !ends_value(#[trigger] value[i]) && value[i] != 'M'
}

/// A code of the board: `M` and two or three digits.
spec fn is_code(s: Seq<char>) -> bool {
    &&& 3 <= s.len() <= 4
    &&& s[0] == 'M'
    &&& forall|i: int| 1 <= i < s.len() ==> '0' <= #[trigger] s[i] <= '9'
}

/// A code does not begin with another.
spec fn apart(code: Seq<char>, other: Seq<char>) -> bool {
    is_code(code) && is_code(other) && (other.len() <= code.len() ==> code.take(
        other.len() as int,
    ) != other)
}

proof fn lemma_apart(code: Seq<char>, other: Seq<char>, i: int)
    requires
        is_code(code),
        is_code(other),
        0 <= i < code.len(),
        i < other.len(),
        code[i] != other[i],
    ensures
        apart(code, other),
{
    if other.len() <= code.len() {
        assert(code.take(other.len() as int)[i] == code[i]);
    }
}

proof fn lemma_codes_apart()
    ensures
        apart("M92"@, "M203"@) && apart("M92"@, "M201"@) && apart("M92"@, "M906"@),
        apart("M203"@, "M92"@) && apart("M203"@, "M201"@) && apart("M203"@, "M906"@),
        apart("M201"@, "M92"@) && apart("M201"@, "M203"@) && apart("M201"@, "M906"@),
        apart("M906"@, "M92"@) && apart("M906"@, "M203"@) && apart("M906"@, "M201"@),
{
    lemma_codes();
    let a = "M92"@;
    let b = "M203"@;
    let c = "M201"@;
    let d = "M906"@;
    lemma_apart(a, b, 1);
    lemma_apart(a, c, 1);
    lemma_apart(a, d, 2);
    lemma_apart(b, a, 1);
    lemma_apart(b, c, 3);
    lemma_apart(b, d, 1);
    lemma_apart(c, a, 1);
    lemma_apart(c, b, 3);
    lemma_apart(c, d, 1);
    lemma_apart(d, a, 2);
    lemma_apart(d, b, 1);
    lemma_apart(d, c, 1);
}

/// A command holds its own code, its value, and no other code.
proof fn lemma_command_codes(
    code: Seq<char>,
    value: Seq<char>,
    other: Seq<char>,
    cmd: Seq<char>,
    read: spec_fn(Seq<char>) -> Option<Num>,
)
    requires
        apart(code, other),
        plain_value(value),
        cmd == code + seq![' ', 'Y'] + value,
    ensures
        contains(cmd, code),
        !contains(cmd, other),
        y_number(cmd, read) == read(value),
{
    let n = code.len() as int;
    assert(cmd == code + seq![' ', 'Y'] + value + Seq::<char>::empty());
    let head = code + seq![' '];
    if contains(head, seq![' ', 'Y']) {
        let j = choose|j: int| occurs_at(head, seq![' ', 'Y'], j);
        assert(head.subrange(j, j + 2)[0] == head[j]);
        assert(head.subrange(j, j + 2)[1] == head[j + 1]);
    }
    law_y_number(code, value, Seq::empty(), read);
    lemma_contains_middle(Seq::empty(), code, seq![' ', 'Y'] + value);
    assert(Seq::<char>::empty() + code + (seq![' ', 'Y'] + value) == cmd);
    if contains(cmd, other) {
        let j = choose|j: int| occurs_at(cmd, other, j);
        let part = cmd.subrange(j, j + other.len());
        assert(part == other);
        assert(part[0] == cmd[j]);
        if j == 0 {
            if other.len() <= n {
                assert(part == code.take(other.len() as int));
            } else {
                assert(part[n] == cmd[n]);
                assert(cmd[n] == ' ');
            }
        } else if j < n {
            assert(cmd[j] == code[j]);
        } else if j >= n + 2 {
            assert(cmd[j] == value[j - n - 2]);
        }
    }
}

/// What the program sends to set the steps is what it takes in when the board
/// reports them: the command of `apply_config`, read as a line of the board's
/// report, sets the steps to the number that its text stands for, and leaves the
/// other runtime settings.
pub proof fn law_report_mirrors_steps(
    v: AppView,
    t: RuntimeTexts,
    lower: Seq<char>,
    read: spec_fn(Seq<char>) -> Option<Num>,
    n: Num,
)
    requires
        v.reading_config,
        plain_value(t.steps_y@),
        read(t.steps_y@) == Some(n),
    ensures
        ({
            let cmd = apply_steps(v.config, t)[0]->Send_0;
            let after = after_line(v, cmd, lower, y_number(cmd, read)).config;
            &&& after.steps_y == n
            &&& after.max_feedrate_y == v.config.max_feedrate_y
            &&& after.max_accel_y == v.config.max_accel_y
            &&& after.motor_current_y == v.config.motor_current_y
        }),
{
    let value = t.steps_y@;
    let code = "M92"@;
    let cmd = apply_steps(v.config, t)[0]->Send_0;
    assert(cmd == code + seq![' ', 'Y'] + value) by {
        lemma_command_heads();
    }
    lemma_codes_apart();
    lemma_command_codes(code, value, "M203"@, cmd, read);
    lemma_command_codes(code, value, "M201"@, cmd, read);
    lemma_command_codes(code, value, "M906"@, cmd, read);
}

/// What the program sends to set the feedrate is what it takes in when the board
/// reports it: the command of `apply_config`, read as a line of the board's
/// report, sets the feedrate to the number that its text stands for, and leaves
/// the other runtime settings.
pub proof fn law_report_mirrors_feedrate(
    v: AppView,
    t: RuntimeTexts,
    lower: Seq<char>,
    read: spec_fn(Seq<char>) -> Option<Num>,
    n: Num,
)
    requires
        v.reading_config,
        plain_value(t.max_feedrate_y@),
        read(t.max_feedrate_y@) == Some(n),
    ensures
        ({
            let cmd = apply_steps(v.config, t)[1]->Send_0;
            let after = after_line(v, cmd, lower, y_number(cmd, read)).config;
            &&& after.max_feedrate_y == n
            &&& after.steps_y == v.config.steps_y
            &&& after.max_accel_y == v.config.max_accel_y
            &&& after.motor_current_y == v.config.motor_current_y
        }),
{
    let value = t.max_feedrate_y@;
    let code = "M203"@;
    let cmd = apply_steps(v.config, t)[1]->Send_0;
    assert(cmd == code + seq![' ', 'Y'] + value) by {
        lemma_command_heads();
    }
    lemma_codes_apart();
    lemma_command_codes(code, value, "M92"@, cmd, read);
    lemma_command_codes(code, value, "M201"@, cmd, read);
    lemma_command_codes(code, value, "M906"@, cmd, read);
}

/// What the program sends to set the acceleration is what it takes in when the
/// board reports it: the command of `apply_config`, read as a line of the board's
/// report, sets the acceleration to the number that its text stands for, and
/// leaves the other runtime settings.
pub proof fn law_report_mirrors_accel(
    v: AppView,
    t: RuntimeTexts,
    lower: Seq<char>,
    read: spec_fn(Seq<char>) -> Option<Num>,
    n: Num,
)
    requires
        v.reading_config,
        plain_value(t.max_accel_y@),
        read(t.max_accel_y@) == Some(n),
    ensures
        ({
            let cmd = apply_steps(v.config, t)[2]->Send_0;
            let after = after_line(v, cmd, lower, y_number(cmd, read)).config;
            &&& after.max_accel_y == n
            &&& after.steps_y == v.config.steps_y
            &&& after.max_feedrate_y == v.config.max_feedrate_y
            &&& after.motor_current_y == v.config.motor_current_y
        }),
{
    let value = t.max_accel_y@;
    let code = "M201"@;
    let cmd = apply_steps(v.config, t)[2]->Send_0;
    assert(cmd == code + seq![' ', 'Y'] + value) by {
        lemma_command_heads();
    }
    lemma_codes_apart();
    lemma_command_codes(code, value, "M92"@, cmd, read);
    lemma_command_codes(code, value, "M203"@, cmd, read);
    lemma_command_codes(code, value, "M906"@, cmd, read);
}

/// The motor current is sent as a whole number, in digits, and comes back in
/// the same way.
pub proof fn law_report_mirrors_motor_current(
    v: AppView,
    t: RuntimeTexts,
    lower: Seq<char>,
    read: spec_fn(Seq<char>) -> Option<Num>,
    n: Num,
)
    requires
        v.reading_config,
        read(decimal(v.config.motor_current_y.saturated_u32() as nat)) == Some(n),
    ensures
        ({
            let cmd = apply_steps(v.config, t)[3]->Send_0;
            let after = after_line(v, cmd, lower, y_number(cmd, read)).config;
            after.motor_current_y == n && after.steps_y == v.config.steps_y && after.max_feedrate_y
                == v.config.max_feedrate_y && after.max_accel_y == v.config.max_accel_y
        }),
{
    let value = decimal(v.config.motor_current_y.saturated_u32() as nat);
    lemma_decimal(v.config.motor_current_y.saturated_u32() as nat);
    assert forall|i: int| 0 <= i < value.len() implies !ends_value(#[trigger] value[i]) && value[i]
        != 'M' by {
        assert(is_digit(value[i]));
    }
    let code = "M906"@;
    let cmd = apply_steps(v.config, t)[3]->Send_0;
    assert(cmd == code + seq![' ', 'Y'] + value) by {
        lemma_command_heads();
    }
    lemma_codes_apart();
    lemma_command_codes(code, value, "M92"@, cmd, read);
    lemma_command_codes(code, value, "M203"@, cmd, read);
    lemma_command_codes(code, value, "M201"@, cmd, read);
}

proof fn lemma_command_heads()
    ensures
        "M92 Y"@ == "M92"@ + seq![' ', 'Y'],
        "M203 Y"@ == "M203"@ + seq![' ', 'Y'],
        "M201 Y"@ == "M201"@ + seq![' ', 'Y'],
        "M906 Y"@ == "M906"@ + seq![' ', 'Y'],
{
    lemma_codes();
    reveal_strlit("M92 Y");
    reveal_strlit("M203 Y");
    reveal_strlit("M201 Y");
    reveal_strlit("M906 Y");
}

} // verus!

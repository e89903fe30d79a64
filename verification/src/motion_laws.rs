//! What moves and homing come to.

use vstd::prelude::*;
use crate::motion::{after_home, after_move, home_steps, limits_ok, move_steps, too_short};
use crate::num::Num;
use crate::serial::{after_line, line_steps};
use crate::serial_laws::law_ok_line;
use crate::stepper::{
    after_connect, after_disconnect, sent, AppView, HomingState, MoveTexts, StepView,
};
use crate::text::contains;
use crate::text_facts::lemma_contains_middle;
use crate::text_laws::all_white;

verus! {

/// After a move that was sent while the position is known, the position is the
/// wanted one wherever that lies within the limits; it is the lower limit where
/// the wanted one is below it, and the upper limit where the wanted one is
/// above it, and in no other case.
pub proof fn law_move_ends_where_wanted(v: AppView, wanted: Num, actual: Num, t: MoveTexts)
    requires
        v.homing_state == HomingState::Homed,
        limits_ok(v),
        sent(move_steps(v, actual, t)).len() > 0,
    ensures
        ({
            let p = after_move(v, wanted, actual).current_pos;
            &&& v.min_pos.at_most(wanted) && wanted.at_most(v.max_pos) ==> p == wanted
            &&& wanted.less(v.min_pos) ==> p == v.min_pos
            &&& v.max_pos.less(wanted) ==> p == v.max_pos
            &&& p == v.min_pos && !wanted.is_nan() ==> wanted.at_most(v.min_pos) || p == v.max_pos
            &&& p == v.max_pos && !wanted.is_nan() ==> v.max_pos.at_most(wanted) || p == v.min_pos
        }),
{
    lemma_refusal_sends_nothing(v, actual, t);
}

proof fn lemma_refusal_sends_nothing(v: AppView, actual: Num, t: MoveTexts)
    ensures
        v.homing_state == HomingState::Homed && too_short(actual) ==> sent(
            move_steps(v, actual, t),
        ).len() == 0,
        !(v.homing_state == HomingState::Homed && too_short(actual)) ==> sent(
            move_steps(v, actual, t),
        ) == seq![move_steps(v, actual, t)[0]->Send_0],
{
    let steps = move_steps(v, actual, t);
    assert(steps.len() == 1);
    assert(steps.drop_last().len() == 0);
    reveal_with_fuel(sent, 2);
}

/// Two moves after each other end where the second one wanted to go, wherever
/// the first one ended.
pub proof fn law_last_move_counts(v: AppView, w: AppView, wanted: Num, actual: Num)
    requires
        v.homing_state == HomingState::Homed,
        w.homing_state == HomingState::Homed,
        v.min_pos == w.min_pos,
        v.max_pos == w.max_pos,
        !actual.abs_less(Num { bits: 0x3c23_d70a }),
    ensures
        after_move(v, wanted, actual).current_pos == after_move(w, wanted, actual).current_pos,
{
}

/// A move is refused in one case only: the position is known, and less than a
/// hundredth of a millimetre is left to go. Nothing is sent then, and nothing
/// changes; what is logged names the position. In every other case one command
/// is sent.
pub proof fn law_move_refused_only_when_short(
    v: AppView,
    wanted: Num,
    actual: Num,
    t: MoveTexts,
)
    ensures
        ({
            let short = !actual.is_nan() && actual.bits as int % 0x8000_0000 < 0x3c23_d70a;
            let steps = move_steps(v, actual, t);
            &&& steps.len() == 1
            &&& sent(steps).len() == 0 <==> v.homing_state == HomingState::Homed && short
            &&& sent(steps).len() == 0 ==> after_move(v, wanted, actual) == v && steps[0] is Log
                && contains(steps[0]->Log_0, t.position@)
        }),
{
    lemma_refusal_sends_nothing(v, actual, t);
    lemma_contains_middle(
        "At position limit ("@,
        t.position@,
        " mm) — move ignored."@,
    );
}

/// The command of a move: `G1 Y`, the distance, ` F` and the speed. The distance
/// is the one that the limits leave where the position is known, and the one
/// that was asked for where it is not.
pub proof fn law_move_command(v: AppView, actual: Num, t: MoveTexts)
    requires
        sent(move_steps(v, actual, t)).len() > 0,
    ensures
        ({
            let distance = if v.homing_state == HomingState::Homed {
                t.actual@
            } else {
                t.dist@
            };
            sent(move_steps(v, actual, t)) == seq![
                seq!['G', '1', ' ', 'Y'] + distance + seq![' ', 'F'] + t.speed@,
            ]
        }),
{
    lemma_refusal_sends_nothing(v, actual, t);
    reveal_strlit("G1 Y");
    reveal_strlit(" F");
    assert("G1 Y"@ == seq!['G', '1', ' ', 'Y']);
    assert(" F"@ == seq![' ', 'F']);
}

/// A move touches nothing but the position, and that only where it is known.
pub proof fn law_move_keeps_the_rest(v: AppView, wanted: Num, actual: Num)
    ensures
        ({
            let after = after_move(v, wanted, actual);
            &&& after == (AppView { current_pos: after.current_pos, ..v })
            &&& v.homing_state != HomingState::Homed ==> after.current_pos == v.current_pos
        }),
{
}

/// Homing is one command, and from then on the position is unknown until the
/// board says `ok`: the axis is then at the upper limit that it has at that
/// moment, whatever the position was before.
pub proof fn law_home_then_ok(
    v: AppView,
    msg: Seq<char>,
    lower: Seq<char>,
    y: Option<Num>,
    max_pos: Seq<char>,
    k: int,
)
    requires
        0 <= k,
        k + 1 < msg.len(),
        all_white(msg.take(k)),
        msg[k] == 'o',
        msg[k + 1] == 'k',
    ensures
        home_steps() == seq![StepView::Send(seq!['G', '2', '8', ' ', 'Y'])],
        after_home(v).homing_state == HomingState::Homing,
        after_home(v) == (AppView { homing_state: HomingState::Homing, ..v }),
        after_line(after_home(v), msg, lower, y).homing_state == HomingState::Homed,
        after_line(after_home(v), msg, lower, y).current_pos == v.max_pos,
        line_steps(after_home(v), msg, max_pos).contains(StepView::Send(seq!['G', '9', '1'])),
{
    reveal_strlit("G28 Y");
    assert("G28 Y"@ == seq!['G', '2', '8', ' ', 'Y']);
    law_ok_line(after_home(v), msg, lower, y, max_pos, k);
    let steps = line_steps(after_home(v), msg, max_pos);
    let at = if v.reading_config {
        2int
    } else {
        1int
    };
    assert(steps[at] == StepView::Send(seq!['G', '9', '1']));
}

/// A new connection starts at zero, not homed and not reading; the end of one
/// leaves the position where it was, not homed and not reading. Nothing else
/// changes with either.
pub proof fn law_connection(v: AppView)
    ensures
        after_connect(v).connected,
        after_connect(v).homing_state == HomingState::NotHomed,
        after_connect(v).current_pos == (Num { bits: 0 }),
        !after_connect(v).reading_config,
        !after_disconnect(v).connected,
        after_disconnect(v).homing_state == HomingState::NotHomed,
        after_disconnect(v).current_pos == v.current_pos,
        !after_disconnect(v).reading_config,
        after_disconnect(after_connect(v)) == (AppView {
            connected: false,
            homing_state: HomingState::NotHomed,
            current_pos: Num { bits: 0 },
            reading_config: false,
            ..v
        }),
        after_connect(after_disconnect(v)) == after_connect(v),
{
}

} // verus!

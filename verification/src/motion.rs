//! Homing and moves within the limits of the axis.

use vstd::prelude::*;
use crate::num::{Num, SMALLEST_MOVE_BITS};
use crate::serial::{after_line, after_messages, is_ok, line_steps, message_steps};
use crate::stepper::{
    after_connect, after_disconnect, concat, lemma_sent_add, one, send, sent, step_views, AppView,
    HomingState, Message, MoveTexts, Step, StepView, StepperApp,
};
use crate::text::lowercase;

verus! {

/// The limits of the axis are numbers, the lower one not above the upper one.
pub open spec fn limits_ok(v: AppView) -> bool {
    v.min_pos.at_most(v.max_pos)
}

/// A distance that is too short to be sent.
pub open spec fn too_short(actual: Num) -> bool {
    actual.abs_less(Num { bits: SMALLEST_MOVE_BITS })
}

/// The state after a move toward `wanted`; `actual` is the distance that the
/// limits leave. Where the position is known it follows the move, within the
/// limits; a move that is too short is ignored.
pub open spec fn after_move(v: AppView, wanted: Num, actual: Num) -> AppView {
    if v.homing_state == HomingState::Homed && !too_short(actual) {
        AppView { current_pos: wanted.clamped(v.min_pos, v.max_pos), ..v }
    } else {
        v
    }
}

/// A move command.
pub open spec fn move_command(distance: Seq<char>, speed: Seq<char>) -> StepView {
    StepView::Send("G1 Y"@ + distance + " F"@ + speed)
}

/// What a move asks for: where the position is known, the distance that the
/// limits leave, unless it is too short; otherwise the distance as it is.
pub open spec fn move_steps(v: AppView, actual: Num, t: MoveTexts) -> Seq<StepView> {
    if v.homing_state == HomingState::Homed {
        if too_short(actual) {
            seq![
                StepView::Log(
                    "At position limit ("@ + t.position@ + " mm) — move ignored."@,
                ),
            ]
        } else {
            seq![move_command(t.actual@, t.speed@)]
        }
    } else {
        seq![move_command(t.dist@, t.speed@)]
    }
}

/// Where the position is known, it lies within the limits.
pub open spec fn within_limits(v: AppView) -> bool {
    v.homing_state == HomingState::Homed ==> v.min_pos.at_most(v.current_pos)
        && v.current_pos.at_most(v.max_pos)
}

/// The state after homing was begun.
pub open spec fn after_home(v: AppView) -> AppView {
    AppView { homing_state: HomingState::Homing, ..v }
}

/// The steps that begin homing.
pub open spec fn home_steps() -> Seq<StepView> {
    seq![StepView::Send("G28 Y"@)]
}

/// The step that sends a move command.
fn move_line(distance: &str, speed: &str) -> (r: Step)
    ensures
        r@ == move_command(distance@, speed@),
{
    let mut cmd: String = concat("G1 Y", distance);
    cmd.append(" F");
    cmd.append(speed);
    Step::Send(cmd)
}

impl StepperApp {
    /// Has the board find the upper end of the axis.
    pub fn home_y(&mut self) -> (r: Vec<Step>)
        ensures
            final(self)@ == (AppView { homing_state: HomingState::Homing, ..old(self)@ }),
            step_views(r@) == seq![StepView::Send("G28 Y"@)],
            final(self)@ == after_home(old(self)@),
            step_views(r@) == home_steps(),
    {
        self.homing_state = HomingState::Homing;
        one(send("G28 Y"))
    }

    /// Whether the limits are numbers, the lower one not above the upper one.
    pub fn has_limits(&self) -> (r: bool)
        ensures
            r == limits_ok(self@),
    {
        self.min_pos.le(self.max_pos)
    }

    /// Where a move toward `wanted` ends.
    pub fn move_target(&self, wanted: Num) -> (r: Num)
        requires
            limits_ok(self@),
        ensures
            r == wanted.clamped(self@.min_pos, self@.max_pos),
    {
        wanted.clamp(self.min_pos, self.max_pos)
    }

    /// Moves the axis. `wanted` is the current position and the distance
    /// asked for, added; `actual` is what is left of the distance to the end
    /// of the move, see [`StepperApp::move_target`].
    pub fn move_y(&mut self, wanted: Num, actual: Num, t: &MoveTexts) -> (r: Vec<Step>)
        requires
            old(self)@.homing_state == HomingState::Homed ==> limits_ok(old(self)@),
        ensures
            final(self)@ == after_move(old(self)@, wanted, actual),
            step_views(r@) == move_steps(old(self)@, actual, *t),
    {
        if self.homing_state == HomingState::Homed {
            let target: Num = self.move_target(wanted);
            if actual.abs_lt(Num { bits: SMALLEST_MOVE_BITS }) {
                let mut msg: String = concat("At position limit (", t.position.as_str());
                msg.append(" mm) — move ignored.");
                return one(Step::Log(msg));
            }
            self.current_pos = target;
            one(move_line(t.actual.as_str(), t.speed.as_str()))
        } else {
            one(move_line(t.dist.as_str(), t.speed.as_str()))
        }
    }
}

/// A move keeps the position within the limits: it lies there after every move
/// that is sent while the position is known, and stays where it was otherwise.
/// The limits themselves stay.
pub proof fn law_move_keeps_limits(v: AppView, wanted: Num, actual: Num)
    requires
        limits_ok(v),
        within_limits(v),
        !wanted.is_nan(),
    ensures
        within_limits(after_move(v, wanted, actual)),
        limits_ok(after_move(v, wanted, actual)),
        v.homing_state == HomingState::Homed && !too_short(actual) ==> ({
            let p = after_move(v, wanted, actual).current_pos;
            v.min_pos.at_most(p) && p.at_most(v.max_pos)
        }),
        v.homing_state != HomingState::Homed ==> after_move(v, wanted, actual) == v,
{
}

/// Whatever the board sends keeps the position within the limits.
pub proof fn law_messages_keep_limits(v: AppView, msgs: Seq<Message>)
    requires
        limits_ok(v),
        within_limits(v),
    ensures
        limits_ok(after_messages(v, msgs)),
        within_limits(after_messages(v, msgs)),
    decreases msgs.len(),
{
    if msgs.len() > 0 {
        law_messages_keep_limits(v, msgs.drop_last());
        lemma_line_keeps(
            after_messages(v, msgs.drop_last()),
            msgs.last().text@,
            lowercase(msgs.last().text@),
            msgs.last().y,
        );
    }
}

/// A line from the board leaves the limits as they are.
proof fn lemma_line_keeps(v: AppView, msg: Seq<char>, lower: Seq<char>, y: Option<Num>)
    ensures
        after_line(v, msg, lower, y).min_pos == v.min_pos,
        after_line(v, msg, lower, y).max_pos == v.max_pos,
{
}

/// A new connection and the end of one leave the position unknown: the axis
/// has to be homed again.
pub proof fn law_connection_forgets_position(v: AppView)
    ensures
        after_connect(v).homing_state == HomingState::NotHomed,
        after_disconnect(v).homing_state == HomingState::NotHomed,
        within_limits(after_connect(v)),
        within_limits(after_disconnect(v)),
{
}

/// The position becomes known in one way only: while the axis is being homed,
/// the board says `ok`. It is then the upper limit.
pub proof fn law_homed_only_by_ok(v: AppView, msg: Seq<char>, lower: Seq<char>, y: Option<Num>)
    requires
        v.homing_state != HomingState::Homed,
    ensures
        after_line(v, msg, lower, y).homing_state == HomingState::Homed <==> v.homing_state
            == HomingState::Homing && is_ok(msg),
        after_line(v, msg, lower, y).homing_state == HomingState::Homed ==> after_line(
            v,
            msg,
            lower,
            y,
        ).current_pos == v.max_pos,
{
}

/// The board says `ok` on one of these lines.
pub open spec fn says_ok(msgs: Seq<Message>) -> bool {
    exists|i: int| 0 <= i < msgs.len() && is_ok((#[trigger] msgs[i]).text@)
}

/// The commands that follow on one line.
proof fn lemma_line_sends(v: AppView, msg: Seq<char>, max_pos: Seq<char>)
    ensures
        sent(line_steps(v, msg, max_pos)) == if is_ok(msg) && v.homing_state
            == HomingState::Homing {
            seq!["G91"@]
        } else {
            seq![]
        },
{
    reveal_with_fuel(sent, 3);
    let a = seq![StepView::Log("< "@ + msg)];
    let b = if is_ok(msg) && v.reading_config {
        seq![StepView::Log("Config loaded from board."@)]
    } else {
        seq![]
    };
    let c = if is_ok(msg) && v.homing_state == HomingState::Homing {
        seq![
            StepView::Send("G91"@),
            StepView::Log("Homed. Position set to "@ + max_pos + " mm. Relative moves active."@),
        ]
    } else {
        seq![]
    };
    assert(line_steps(v, msg, max_pos) == a + b + c);
    lemma_sent_add(a + b, c);
    lemma_sent_add(a, b);
    assert(a.drop_last() == Seq::<StepView>::empty());
    assert(sent(a) == Seq::<Seq<char>>::empty());
    if b.len() > 0 {
        assert(b.drop_last() == Seq::<StepView>::empty());
    }
    assert(sent(b) == Seq::<Seq<char>>::empty());
    if c.len() > 0 {
        assert(c.drop_last() == seq![StepView::Send("G91"@)]);
        assert(c.drop_last().drop_last() == Seq::<StepView>::empty());
        assert(sent(c) == seq!["G91"@]);
    }
}

/// Over any row of lines from the board, homing ends exactly where one of them
/// says `ok` while the axis is being homed: the position is then the upper
/// limit, and relative moves are switched on by one `G91`, sent once. In every
/// other case the position stays as it was and nothing is sent.
pub proof fn law_ok_ends_homing(v: AppView, msgs: Seq<Message>, max_pos: Seq<char>)
    ensures
        ({
            let after = after_messages(v, msgs);
            let commands = sent(message_steps(v, msgs, max_pos));
            if v.homing_state == HomingState::Homing && says_ok(msgs) {
                &&& after.homing_state == HomingState::Homed
                &&& after.current_pos == v.max_pos
                &&& commands == seq!["G91"@]
            } else {
                &&& after.homing_state == v.homing_state
                &&& after.current_pos == v.current_pos
                &&& commands.len() == 0
            }
        }),
        after_messages(v, msgs).min_pos == v.min_pos,
        after_messages(v, msgs).max_pos == v.max_pos,
    decreases msgs.len(),
{
    if msgs.len() > 0 {
        let head = msgs.drop_last();
        let m = msgs.last();
        let mid = after_messages(v, head);
        law_ok_ends_homing(v, head, max_pos);
        lemma_line_sends(mid, m.text@, max_pos);
        lemma_line_keeps(mid, m.text@, lowercase(m.text@), m.y);
        lemma_sent_add(
            message_steps(v, head, max_pos),
            line_steps(mid, m.text@, max_pos),
        );
        assert(msgs[msgs.len() - 1] == m);
        if says_ok(head) {
            let i = choose|i: int| 0 <= i < head.len() && is_ok((#[trigger] head[i]).text@);
            assert(msgs[i] == head[i]);
        }
        if says_ok(msgs) && !is_ok(m.text@) {
            let i = choose|i: int| 0 <= i < msgs.len() && is_ok((#[trigger] msgs[i]).text@);
            assert(head[i] == msgs[i]);
        }
        assert(sent(message_steps(v, msgs, max_pos)) == sent(message_steps(v, head, max_pos))
            + sent(line_steps(mid, m.text@, max_pos)));
    }
}

/// Once known, the position stays known and where it is, whatever the board
/// sends.
pub proof fn law_homed_stays(v: AppView, msgs: Seq<Message>)
    requires
        v.homing_state == HomingState::Homed,
    ensures
        after_messages(v, msgs).homing_state == HomingState::Homed,
        after_messages(v, msgs).current_pos == v.current_pos,
    decreases msgs.len(),
{
    if msgs.len() > 0 {
        law_homed_stays(v, msgs.drop_last());
    }
}

} // verus!

//! What holds of every run of the scheduler.

use crate::action::{KeyEvent, LogicalAction};
use crate::output::{motion, press_of, release_of, settle, Axis, Button, CommandView};
use crate::scheduler::{run_in_parts, run_of_one, Input, SchedulerModel};
use crate::tracker::GroupModel;
use vstd::prelude::*;

verus! {

/// Whether `input` is a press of the key of `action`.
pub open spec fn is_press_of(s: SchedulerModel, input: Input, action: LogicalAction) -> bool {
    input matches Input::Key(event) && s.meaning(event) == Some((action, true))
}

/// Whether `input` is a release of the key of `action`.
pub open spec fn is_release_of(s: SchedulerModel, input: Input, action: LogicalAction) -> bool {
    input matches Input::Key(event) && s.meaning(event) == Some((action, false))
}

/// No input breaks the scheduler's invariant: each group has an activation
/// time exactly while one of its keys is down.
pub proof fn step_keeps_wf(s: SchedulerModel, input: Input)
    requires
        s.wf(),
    ensures
        s.after(input).wf(),
{
    match input {
        Input::Key(event) => {
            if let Some((action, pressed)) = s.meaning(event) {
                s.keys.lemma_apply_wf(action, pressed, event.timestamp as nat);
            }
        },
        Input::Tick { now } => {
            s.keys.movement.lemma_wf_kept(LogicalAction::MoveUp, 0);
            s.keys.wheel.lemma_wf_kept(LogicalAction::WheelUp, 0);
        },
    }
}

/// No run of inputs breaks the scheduler's invariant.
pub proof fn run_keeps_wf(s: SchedulerModel, inputs: Seq<Input>)
    requires
        s.wf(),
    ensures
        s.after_all(inputs).wf(),
    decreases inputs.len(),
{
    if inputs.len() > 0 {
        step_keeps_wf(s, inputs[0]);
        run_keeps_wf(s.after(inputs[0]), inputs.drop_first());
    }
}

/// No input changes the bindings or the curves.
pub proof fn configuration_is_fixed(s: SchedulerModel, inputs: Seq<Input>)
    ensures
        s.after_all(inputs).bindings == s.bindings,
        s.after_all(inputs).movement_curve == s.movement_curve,
        s.after_all(inputs).wheel_curve == s.wheel_curve,
    decreases inputs.len(),
{
    if inputs.len() > 0 {
        configuration_is_fixed(s.after(inputs[0]), inputs.drop_first());
    }
}

/// The release of a click key asks for nothing and changes nothing, and so
/// does an event of an unbound key, or one whose value is neither 0 nor 1.
pub proof fn ignored_events(s: SchedulerModel, event: KeyEvent)
    requires
        match s.bindings.binding(event.code) {
            Some(action) => event.value != 1 && (event.value != 0 || !(action.is_movement()
                || action.is_wheel())),
            None => true,
        },
    ensures
        s.key_commands(event) == Seq::<CommandView>::empty(),
        s.after_key(event) == s,
{
}

/// Directional keys ask for nothing when they go down or come up: what they
/// cause is sent on ticks.
pub proof fn directional_keys_are_silent(s: SchedulerModel, event: KeyEvent)
    requires
        s.bindings.binding(event.code) matches Some(action) && (action.is_movement()
            || action.is_wheel()),
    ensures
        s.key_commands(event) == Seq::<CommandView>::empty(),
        s.after_key(event).keys.toggle == s.keys.toggle,
{
}

/// A press of the momentary left-click key while the left button is not
/// latched asks for exactly one press, then the settle wait, then one
/// release; the latch stays off, and no group changes.
pub proof fn momentary_left_click_unlatched(s: SchedulerModel, event: KeyEvent)
    requires
        s.meaning(event) == Some((LogicalAction::LeftClickMomentary, true)),
        !s.keys.toggle.engaged,
    ensures
        s.key_commands(event) == seq![press_of(Button::Left), settle(), release_of(Button::Left)],
        s.after_key(event) == s,
{
}

/// A press of the momentary left-click key while the left button is latched
/// asks for exactly one release and no press; the latch goes off, and no
/// group changes.
pub proof fn momentary_left_click_latched(s: SchedulerModel, event: KeyEvent)
    requires
        s.meaning(event) == Some((LogicalAction::LeftClickMomentary, true)),
        s.keys.toggle.engaged,
    ensures
        s.key_commands(event) == seq![release_of(Button::Left)],
        !s.after_key(event).keys.toggle.engaged,
        s.after_key(event).keys.movement == s.keys.movement,
        s.after_key(event).keys.wheel == s.keys.wheel,
{
}

/// A press of the momentary right-click key asks for one press, the settle
/// wait and one release of the right button, whatever the latch of the left
/// one, and changes nothing.
pub proof fn momentary_right_click(s: SchedulerModel, event: KeyEvent)
    requires
        s.meaning(event) == Some((LogicalAction::RightClickMomentary, true)),
    ensures
        s.key_commands(event) == seq![press_of(Button::Right), settle(), release_of(Button::Right)],
        s.after_key(event) == s,
{
}

/// A press of the toggle key flips the latch, and asks for a press of the
/// left button where the latch goes on, for a release where it goes off.
pub proof fn toggle_press(s: SchedulerModel, event: KeyEvent)
    requires
        s.meaning(event) == Some((LogicalAction::LeftClickToggle, true)),
    ensures
        s.after_key(event).keys.toggle.engaged == !s.keys.toggle.engaged,
        s.key_commands(event) == if s.keys.toggle.engaged {
            seq![release_of(Button::Left)]
        } else {
            seq![press_of(Button::Left)]
        },
{
}

/// Releases of the toggle key, however many, ask for nothing and change
/// nothing.
pub proof fn toggle_releases_are_ignored(s: SchedulerModel, releases: Seq<Input>)
    requires
        forall|i: int|
            0 <= i < releases.len() ==> is_release_of(
                s,
                #[trigger] releases[i],
                LogicalAction::LeftClickToggle,
            ),
    ensures
        s.run(releases) == Seq::<CommandView>::empty(),
        s.after_all(releases) == s,
    decreases releases.len(),
{
    if releases.len() > 0 {
        assert(is_release_of(s, releases[0], LogicalAction::LeftClickToggle));
        assert forall|i: int| 0 <= i < releases.drop_first().len() implies is_release_of(
            s,
            #[trigger] releases.drop_first()[i],
            LogicalAction::LeftClickToggle,
        ) by {
            assert(releases.drop_first()[i] == releases[i + 1]);
        }
        toggle_releases_are_ignored(s, releases.drop_first());
        assert(s.commands(releases[0]) + s.run(releases.drop_first()) =~= Seq::<
            CommandView,
        >::empty());
    }
}

/// Two presses of the toggle key in a row, with the left button not latched
/// before the first, ask for exactly one press of the left button and then
/// exactly one release, and leave the latch off. Releases of the toggle key
/// after either press count for nothing.
pub proof fn toggle_twice(
    s: SchedulerModel,
    first: Input,
    between: Seq<Input>,
    second: Input,
    after: Seq<Input>,
)
    requires
        !s.keys.toggle.engaged,
        is_press_of(s, first, LogicalAction::LeftClickToggle),
        is_press_of(s, second, LogicalAction::LeftClickToggle),
        forall|i: int|
            0 <= i < between.len() ==> is_release_of(
                s,
                #[trigger] between[i],
                LogicalAction::LeftClickToggle,
            ),
        forall|i: int|
            0 <= i < after.len() ==> is_release_of(
                s,
                #[trigger] after[i],
                LogicalAction::LeftClickToggle,
            ),
    ensures
        s.run(seq![first] + between + seq![second] + after) == seq![
            press_of(Button::Left),
            release_of(Button::Left),
        ],
        s.after_all(seq![first] + between + seq![second] + after) == s,
{
    let latched = s.after(first);
    assert(latched.bindings == s.bindings);
    assert(latched.after(second) == s);
    run_of_one(s, first);
    run_of_one(latched, second);
    assert forall|i: int| 0 <= i < between.len() implies is_release_of(
        latched,
        #[trigger] between[i],
        LogicalAction::LeftClickToggle,
    ) by {
        assert(is_release_of(s, between[i], LogicalAction::LeftClickToggle));
    }
    toggle_releases_are_ignored(latched, between);
    toggle_releases_are_ignored(s, after);
    run_in_parts(s, seq![first], between);
    run_in_parts(s, seq![first] + between, seq![second]);
    run_in_parts(s, seq![first] + between + seq![second], after);
    assert(s.run(seq![first] + between + seq![second] + after) =~= seq![
        press_of(Button::Left),
        release_of(Button::Left),
    ]);
}

/// Whether every input of `inputs` is a tick.
pub open spec fn all_ticks(inputs: Seq<Input>) -> bool {
    forall|i: int| 0 <= i < inputs.len() ==> #[trigger] inputs[i] is Tick
}

/// While the key of `MoveRight` alone is down, and the movement group's
/// gate is open at the first of a run of ticks, each tick of the run asks
/// for one emission of a single motion to the right, and nothing else; the
/// magnitudes are the movement curve's at the group's repeat count and the
/// counts that follow it, in order.
pub proof fn held_right_run(s: SchedulerModel, ticks: Seq<Input>)
    requires
        s.wf(),
        s.keys.movement.members_held == set![LogicalAction::MoveRight],
        !s.keys.wheel.is_active(),
        all_ticks(ticks),
        ticks.len() > 0 ==> s.keys.movement.gate(
            s.movement_curve.activation_delay as nat,
            ticks[0]->now as nat,
        ),
        s.keys.movement.repeat_count + ticks.len() <= u64::MAX,
    ensures
        s.run(ticks) == Seq::new(
            ticks.len(),
            |k: int|
                CommandView::Emit(
                    seq![
                        motion(
                            Axis::X,
                            s.movement_curve.curve((s.keys.movement.repeat_count + k) as nat),
                        ),
                    ],
                ),
        ),
        s.after_all(ticks).keys.movement == (GroupModel {
            repeat_count: s.keys.movement.repeat_count + ticks.len(),
            ..s.keys.movement
        }),
    decreases ticks.len(),
{
    let count = s.keys.movement.repeat_count;
    let expected = Seq::new(
        ticks.len(),
        |k: int|
            CommandView::Emit(seq![motion(Axis::X, s.movement_curve.curve((count + k) as nat))]),
    );
    if ticks.len() == 0 {
        assert(s.run(ticks) =~= expected);
    } else {
        let now = ticks[0]->now as nat;
        let next = s.after(ticks[0]);
        let rest = ticks.drop_first();
        assert(ticks[0] is Tick);
        s.idle_groups_send_nothing(now);
        assert(s.keys.movement.members_held.contains(LogicalAction::MoveRight));
        assert(!s.keys.movement.members_held.contains(LogicalAction::MoveLeft));
        assert(!s.keys.movement.members_held.contains(LogicalAction::MoveUp));
        assert(!s.keys.movement.members_held.contains(LogicalAction::MoveDown));
        let first = seq![motion(Axis::X, s.movement_curve.curve(count))];
        assert(s.movement_batch(now) =~= first);
        assert(s.wheel_batch(now) =~= Seq::empty());
        assert(s.batch(now) =~= first);
        assert(s.commands(ticks[0]) =~= seq![CommandView::Emit(first)]);
        step_keeps_wf(s, ticks[0]);
        assert forall|i: int| 0 <= i < rest.len() implies #[trigger] rest[i] is Tick by {
            assert(rest[i] == ticks[i + 1]);
        }
        held_right_run(next, rest);
        assert(s.run(ticks) =~= expected);
    }
}

} // verus!

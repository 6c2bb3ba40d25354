//! The key state tracker: which directional keys are down, since when, how
//! many events each group has sent, and whether the left button is latched.
//!
//! Directional keys belong to one of two groups, the four movement actions
//! and the two wheel actions. Each group keeps its own time: it is
//! activated when its first key goes down, and its repeat count starts from
//! zero at each activation, whichever of its keys that is. Click keys change
//! no group; they answer with commands for the output device at once.

use crate::action::LogicalAction;
use crate::output::{button_command, press_of, release_of, settle, views, Button, Command, CommandView, SETTLE_DELAY};
use vstd::prelude::*;

verus! {

/// One group of directional actions as a mathematical value.
pub struct GroupModel {
    /// The actions of the group whose keys are down.
    pub members_held: Set<LogicalAction>,
    /// When the group went from no key down to one, if any is down.
    pub activation_time: Option<nat>,
    /// How many events the group has sent since it was activated.
    pub repeat_count: nat,
}

impl GroupModel {
    /// The group has an activation time exactly while one of its keys is
    /// down, and its numbers fit in 64 bits.
    pub open spec fn wf(self) -> bool {
        &&& (self.activation_time is Some) == !self.members_held.is_empty()
        &&& self.repeat_count <= u64::MAX
        &&& self.activation_time matches Some(t) ==> t <= u64::MAX
    }

    /// A group with no key down.
    pub open spec fn idle() -> GroupModel {
        GroupModel { members_held: Set::empty(), activation_time: None, repeat_count: 0 }
    }

    /// Whether a key of the group is down.
    pub open spec fn is_active(self) -> bool {
        !self.members_held.is_empty()
    }

    /// The group after the key of `action` went down at `timestamp`. Where
    /// no key of the group was down before, this activates the group.
    pub open spec fn press(self, action: LogicalAction, timestamp: nat) -> GroupModel {
        GroupModel {
            members_held: self.members_held.insert(action),
            activation_time: if self.is_active() {
                self.activation_time
            } else {
                Some(timestamp)
            },
            repeat_count: if self.is_active() {
                self.repeat_count
            } else {
                0
            },
        }
    }

    /// The group after the key of `action` came up.
    pub open spec fn release(self, action: LogicalAction) -> GroupModel {
        GroupModel {
            members_held: self.members_held.remove(action),
            activation_time: if self.members_held.remove(action).is_empty() {
                None
            } else {
                self.activation_time
            },
            repeat_count: self.repeat_count,
        }
    }

    /// The group after it has sent one more event. The count stops at the
    /// greatest `u64`.
    pub open spec fn advance(self) -> GroupModel {
        GroupModel {
            repeat_count: if self.repeat_count < u64::MAX {
                self.repeat_count + 1
            } else {
                self.repeat_count
            },
            ..self
        }
    }

    /// Microseconds from the group's activation to `now`; zero where `now`
    /// is earlier than the activation, or the group is not active.
    pub open spec fn elapsed(self, now: nat) -> nat {
        match self.activation_time {
            Some(since) => if now >= since {
                (now - since) as nat
            } else {
                0
            },
            None => 0,
        }
    }

    /// Whether the group may send an event at `now`: it has sent one
    /// already since its activation, or more than `delay` microseconds have
    /// passed since then.
    pub open spec fn gate(self, delay: nat, now: nat) -> bool {
        self.repeat_count != 0 || self.elapsed(now) > delay
    }

    /// Presses and releases keep a group well formed.
    pub proof fn lemma_wf_kept(self, action: LogicalAction, timestamp: nat)
        requires
            self.wf(),
            timestamp <= u64::MAX,
        ensures
            self.press(action, timestamp).wf(),
            self.press(action, timestamp).is_active(),
            self.release(action).wf(),
            self.advance().wf(),
    {
        assert(self.members_held.insert(action).contains(action));
        if !self.members_held.remove(action).is_empty() {
            let rest = self.members_held.remove(action);
            let other = choose|a: LogicalAction| rest.contains(a);
            assert(self.members_held.contains(other));
        }
    }

    /// The repeat count goes back to zero exactly when a press activates
    /// the group; no other press and no release changes it.
    pub proof fn lemma_count_reset(self, action: LogicalAction, timestamp: nat)
        ensures
            self.press(action, timestamp).repeat_count == if self.is_active() {
                self.repeat_count
            } else {
                0
            },
            self.release(action).repeat_count == self.repeat_count,
    {
    }
}

/// One group of directional actions.
#[derive(Clone, Copy, Debug, PartialEq, Eq)]
pub struct ActionGroupState {
    move_up: bool,
    move_down: bool,
    move_left: bool,
    move_right: bool,
    wheel_up: bool,
    wheel_down: bool,
    activation_time: Option<u64>,
    repeat_count: u64,
}

impl View for ActionGroupState {
    type V = GroupModel;

    closed spec fn view(&self) -> GroupModel {
        GroupModel {
            members_held: Set::new(|a: LogicalAction| self.flag(a)),
            activation_time: match self.activation_time {
                Some(since) => Some(since as nat),
                None => None,
            },
            repeat_count: self.repeat_count as nat,
        }
    }
}

impl ActionGroupState {
    spec fn flag(self, action: LogicalAction) -> bool {
        match action {
            LogicalAction::MoveUp => self.move_up,
            LogicalAction::MoveDown => self.move_down,
            LogicalAction::MoveLeft => self.move_left,
            LogicalAction::MoveRight => self.move_right,
            LogicalAction::WheelUp => self.wheel_up,
            LogicalAction::WheelDown => self.wheel_down,
            _ => false,
        }
    }

    /// A group with no key down.
    pub fn new() -> (group: ActionGroupState)
        ensures
            group@ == GroupModel::idle(),
            group@.wf(),
    {
        let group = ActionGroupState {
            move_up: false,
            move_down: false,
            move_left: false,
            move_right: false,
            wheel_up: false,
            wheel_down: false,
            activation_time: None,
            repeat_count: 0,
        };
        assert(group@.members_held =~= Set::empty());
        group
    }

    /// Whether the key of `action` is down.
    pub fn holds(&self, action: LogicalAction) -> (held: bool)
        ensures
            held == self@.members_held.contains(action),
    {
        match action {
            LogicalAction::MoveUp => self.move_up,
            LogicalAction::MoveDown => self.move_down,
            LogicalAction::MoveLeft => self.move_left,
            LogicalAction::MoveRight => self.move_right,
            LogicalAction::WheelUp => self.wheel_up,
            LogicalAction::WheelDown => self.wheel_down,
            _ => false,
        }
    }

    /// Whether a key of the group is down.
    pub fn is_active(&self) -> (active: bool)
        ensures
            active == self@.is_active(),
    {
        let active = self.move_up || self.move_down || self.move_left || self.move_right
            || self.wheel_up || self.wheel_down;
        proof {
            let held = self@.members_held;
            if active {
                assert(held.contains(LogicalAction::MoveUp) || held.contains(LogicalAction::MoveDown)
                    || held.contains(LogicalAction::MoveLeft) || held.contains(
                    LogicalAction::MoveRight,
                ) || held.contains(LogicalAction::WheelUp) || held.contains(
                    LogicalAction::WheelDown,
                ));
            } else {
                assert(held =~= Set::empty());
            }
        }
        active
    }

    /// When the group was activated, if a key of it is down.
    pub fn activation_time(&self) -> (since: Option<u64>)
        ensures
            match since {
                Some(t) => self@.activation_time == Some(t as nat),
                None => self@.activation_time is None,
            },
    {
        self.activation_time
    }

    /// How many events the group has sent since it was activated.
    pub fn repeat_count(&self) -> (count: u64)
        ensures
            count == self@.repeat_count,
    {
        self.repeat_count
    }

    /// Records that the key of `action` went down at `timestamp`. A group
    /// holds directional actions only: for a click action nothing is
    /// recorded.
    pub fn press(&mut self, action: LogicalAction, timestamp: u64)
        ensures
            final(self)@ == if action.is_movement() || action.is_wheel() {
                old(self)@.press(action, timestamp as nat)
            } else {
                old(self)@
            },
            old(self)@.wf() ==> final(self)@.wf(),
    {
        proof {
            if self@.wf() {
                self@.lemma_wf_kept(action, timestamp as nat);
            }
        }
        let was_active = self.is_active();
        match action {
            LogicalAction::MoveUp => {
                self.move_up = true;
            },
            LogicalAction::MoveDown => {
                self.move_down = true;
            },
            LogicalAction::MoveLeft => {
                self.move_left = true;
            },
            LogicalAction::MoveRight => {
                self.move_right = true;
            },
            LogicalAction::WheelUp => {
                self.wheel_up = true;
            },
            LogicalAction::WheelDown => {
                self.wheel_down = true;
            },
            _ => {
                return;
            },
        }
        if !was_active {
            self.activation_time = Some(timestamp);
            self.repeat_count = 0;
        }
        assert(self@.members_held =~= old(self)@.members_held.insert(action));
    }

    /// Records that the key of `action` came up.
    pub fn release(&mut self, action: LogicalAction)
        ensures
            final(self)@ == old(self)@.release(action),
            old(self)@.wf() ==> final(self)@.wf(),
    {
        proof {
            if self@.wf() {
                self@.lemma_wf_kept(action, 0);
            }
        }
        match action {
            LogicalAction::MoveUp => {
                self.move_up = false;
            },
            LogicalAction::MoveDown => {
                self.move_down = false;
            },
            LogicalAction::MoveLeft => {
                self.move_left = false;
            },
            LogicalAction::MoveRight => {
                self.move_right = false;
            },
            LogicalAction::WheelUp => {
                self.wheel_up = false;
            },
            LogicalAction::WheelDown => {
                self.wheel_down = false;
            },
            _ => {},
        }
        if !self.is_active() {
            self.activation_time = None;
        }
        assert(self@.members_held =~= old(self)@.members_held.remove(action));
    }

    /// Records that the group has sent one more event.
    pub fn advance(&mut self)
        ensures
            final(self)@ == old(self)@.advance(),
            old(self)@.wf() ==> final(self)@.wf(),
    {
        self.repeat_count = self.repeat_count.saturating_add(1);
        assert(self@.members_held =~= old(self)@.members_held);
    }

    /// Whether the group may send an event at `now`, where its first one
    /// waits for more than `delay` microseconds after the activation.
    pub fn gate(&self, delay: u64, now: u64) -> (open: bool)
        ensures
            open == self@.gate(delay as nat, now as nat),
    {
        if self.repeat_count != 0 {
            return true;
        }
        match self.activation_time {
            Some(since) => now.saturating_sub(since) > delay,
            None => false,
        }
    }
}

/// Whether the left button is latched down.
#[derive(Clone, Copy, Debug, PartialEq, Eq)]
pub struct ToggleState {
    pub engaged: bool,
}

/// The tracker's state as a mathematical value.
pub struct TrackerModel {
    /// The four movement actions.
    pub movement: GroupModel,
    /// The two wheel actions.
    pub wheel: GroupModel,
    /// The latch of the left button.
    pub toggle: ToggleState,
}

impl TrackerModel {
    /// Both groups are well formed, and each holds actions of its own kind
    /// only.
    pub open spec fn wf(self) -> bool {
        &&& self.movement.wf()
        &&& self.wheel.wf()
        &&& forall|a: LogicalAction| self.movement.members_held.contains(a) ==> a.is_movement()
        &&& forall|a: LogicalAction| self.wheel.members_held.contains(a) ==> a.is_wheel()
    }

    /// No key down, the left button not latched.
    pub open spec fn initial() -> TrackerModel {
        TrackerModel {
            movement: GroupModel::idle(),
            wheel: GroupModel::idle(),
            toggle: ToggleState { engaged: false },
        }
    }

    /// The state after the key of `action` went down (`pressed`) or came up
    /// at `timestamp`.
    ///
    /// A directional key is recorded in its group. A press of either
    /// left-click key decides the latch: the momentary one clears it, the
    /// toggle flips it. Nothing else changes the state.
    pub open spec fn apply(self, action: LogicalAction, pressed: bool, timestamp: nat) -> TrackerModel {
        if action.is_movement() {
            TrackerModel {
                movement: if pressed {
                    self.movement.press(action, timestamp)
                } else {
                    self.movement.release(action)
                },
                ..self
            }
        } else if action.is_wheel() {
            TrackerModel {
                wheel: if pressed {
                    self.wheel.press(action, timestamp)
                } else {
                    self.wheel.release(action)
                },
                ..self
            }
        } else if pressed && action is LeftClickMomentary {
            TrackerModel { toggle: ToggleState { engaged: false }, ..self }
        } else if pressed && action is LeftClickToggle {
            TrackerModel { toggle: ToggleState { engaged: !self.toggle.engaged }, ..self }
        } else {
            self
        }
    }

    /// What the output device is to do when the key of `action` goes down
    /// (`pressed`) or comes up.
    ///
    /// A momentary click presses its button, waits for the settle delay and
    /// releases it; but the left one, where the left button is latched
    /// down, only releases it. The toggle presses the left button where it
    /// was up, and releases it where it was latched. Releases of click
    /// keys, and directional keys, ask for nothing.
    pub open spec fn response(self, action: LogicalAction, pressed: bool) -> Seq<CommandView> {
        if !pressed {
            seq![]
        } else {
            match action {
                LogicalAction::LeftClickMomentary => if self.toggle.engaged {
                    seq![release_of(Button::Left)]
                } else {
                    seq![press_of(Button::Left), settle(), release_of(Button::Left)]
                },
                LogicalAction::RightClickMomentary => seq![
                    press_of(Button::Right),
                    settle(),
                    release_of(Button::Right),
                ],
                LogicalAction::LeftClickToggle => if self.toggle.engaged {
                    seq![release_of(Button::Left)]
                } else {
                    seq![press_of(Button::Left)]
                },
                _ => seq![],
            }
        }
    }

    /// No key event breaks the tracker's invariant.
    pub proof fn lemma_apply_wf(self, action: LogicalAction, pressed: bool, timestamp: nat)
        requires
            self.wf(),
            timestamp <= u64::MAX,
        ensures
            self.apply(action, pressed, timestamp).wf(),
    {
        self.movement.lemma_wf_kept(action, timestamp);
        self.wheel.lemma_wf_kept(action, timestamp);
    }
}

/// The key state tracker.
#[derive(Clone, Copy, Debug, PartialEq, Eq)]
pub struct KeyStateTracker {
    movement: ActionGroupState,
    wheel: ActionGroupState,
    toggle: ToggleState,
}

impl View for KeyStateTracker {
    type V = TrackerModel;

    closed spec fn view(&self) -> TrackerModel {
        TrackerModel { movement: self.movement@, wheel: self.wheel@, toggle: self.toggle }
    }
}

impl KeyStateTracker {
    /// A tracker with no key down and the left button not latched.
    pub fn new() -> (tracker: KeyStateTracker)
        ensures
            tracker@ == TrackerModel::initial(),
            tracker@.wf(),
    {
        KeyStateTracker {
            movement: ActionGroupState::new(),
            wheel: ActionGroupState::new(),
            toggle: ToggleState { engaged: false },
        }
    }

    /// The group of the movement actions.
    pub fn movement(&self) -> (group: &ActionGroupState)
        ensures
            group@ == self@.movement,
    {
        &self.movement
    }

    /// The group of the wheel actions.
    pub fn wheel(&self) -> (group: &ActionGroupState)
        ensures
            group@ == self@.wheel,
    {
        &self.wheel
    }

    /// The latch of the left button.
    pub fn toggle(&self) -> (toggle: ToggleState)
        ensures
            toggle == self@.toggle,
    {
        self.toggle
    }

    /// Records one more event sent by the movement group (`movement`), by
    /// the wheel group (`wheel`), or by both.
    pub fn advance(&mut self, movement: bool, wheel: bool)
        requires
            old(self)@.wf(),
        ensures
            final(self)@.wf(),
            final(self)@ == (TrackerModel {
                movement: if movement {
                    old(self)@.movement.advance()
                } else {
                    old(self)@.movement
                },
                wheel: if wheel {
                    old(self)@.wheel.advance()
                } else {
                    old(self)@.wheel
                },
                toggle: old(self)@.toggle,
            }),
    {
        if movement {
            self.movement.advance();
        }
        if wheel {
            self.wheel.advance();
        }
    }

    /// Takes in that the key of `action` went down (`pressed`) or came up at
    /// `timestamp`, and returns what the output device is to do about it.
    pub fn apply(&mut self, action: LogicalAction, pressed: bool, timestamp: u64) -> (commands: Vec<
        Command,
    >)
        requires
            old(self)@.wf(),
        ensures
            final(self)@.wf(),
            final(self)@ == old(self)@.apply(action, pressed, timestamp as nat),
            views(commands@) == old(self)@.response(action, pressed),
            commands@.len() == old(self)@.response(action, pressed).len(),
    {
        proof {
            self@.lemma_apply_wf(action, pressed, timestamp as nat);
        }
        let mut commands: Vec<Command> = Vec::new();
        match action {
            LogicalAction::MoveUp | LogicalAction::MoveDown | LogicalAction::MoveLeft | LogicalAction::MoveRight => {
                if pressed {
                    self.movement.press(action, timestamp);
                } else {
                    self.movement.release(action);
                }
            },
            LogicalAction::WheelUp | LogicalAction::WheelDown => {
                if pressed {
                    self.wheel.press(action, timestamp);
                } else {
                    self.wheel.release(action);
                }
            },
            LogicalAction::LeftClickMomentary => {
                if pressed {
                    if !self.toggle.engaged {
                        commands.push(button_command(Button::Left, true));
                        commands.push(Command::Settle(SETTLE_DELAY));
                    }
                    commands.push(button_command(Button::Left, false));
                    self.toggle.engaged = false;
                }
            },
            LogicalAction::RightClickMomentary => {
                if pressed {
                    commands.push(button_command(Button::Right, true));
                    commands.push(Command::Settle(SETTLE_DELAY));
                    commands.push(button_command(Button::Right, false));
                }
            },
            LogicalAction::LeftClickToggle => {
                if pressed {
                    self.toggle.engaged = !self.toggle.engaged;
                    commands.push(button_command(Button::Left, self.toggle.engaged));
                }
            },
        }
        assert(views(commands@) =~= old(self)@.response(action, pressed));
        commands
    }
}

} // verus!

//! The scheduler: one step of the event loop, as a function from the state
//! and an input to the next state and the commands for the output device.
//!
//! The host waits for a key event until the next tick is due, which is
//! [`Scheduler::next_wait`] microseconds after the last one. If an event
//! arrives, it is the input; if none does, the input is a tick with the time
//! at which the wait ended. The host then carries out the commands that
//! [`Scheduler::step`] returns, in order and each to its end, and waits
//! again. A momentary click so holds the loop up for the settle delay.

use crate::accel::{movement_config, wheel_config, CurveConfig};
use crate::action::{KeyBindings, KeyEvent, LogicalAction};
use crate::diagonal::{compensate, compensated};
use crate::output::{motion, views, Axis, Command, CommandView, OutputEvent};
use crate::tracker::{KeyStateTracker, TrackerModel};
use vstd::prelude::*;

verus! {

/// Microseconds to wait for a key event while no directional key is down.
pub const IDLE_INTERVAL: u64 = 1_000_000;

/// What the host hands to the scheduler.
#[derive(Clone, Copy, Debug, PartialEq, Eq)]
pub enum Input {
    /// A key event arrived.
    Key(KeyEvent),
    /// The wait ended without one, at `now` (in microseconds, on the clock
    /// of the key events' timestamps).
    Tick { now: u64 },
}

/// A batch of one entry where `wanted`, of none where not.
pub open spec fn entry(wanted: bool, event: OutputEvent) -> Seq<OutputEvent> {
    if wanted {
        seq![event]
    } else {
        seq![]
    }
}

/// The scheduler's state as a mathematical value.
pub struct SchedulerModel {
    pub bindings: KeyBindings,
    pub movement_curve: CurveConfig,
    pub wheel_curve: CurveConfig,
    pub keys: TrackerModel,
}

impl SchedulerModel {
    /// Both curves and the tracker are well formed.
    pub open spec fn wf(self) -> bool {
        &&& self.movement_curve.wf()
        &&& self.wheel_curve.wf()
        &&& self.keys.wf()
    }

    /// The state before any input.
    pub open spec fn initial(
        bindings: KeyBindings,
        movement_curve: CurveConfig,
        wheel_curve: CurveConfig,
    ) -> SchedulerModel {
        SchedulerModel { bindings, movement_curve, wheel_curve, keys: TrackerModel::initial() }
    }

    /// How long after a tick the next one is due: the movement curve's tick
    /// interval while a movement key is down, else the wheel curve's while
    /// a wheel key is down, else the idle interval.
    pub open spec fn next_wait(self) -> nat {
        if self.keys.movement.is_active() {
            self.movement_curve.tick_interval as nat
        } else if self.keys.wheel.is_active() {
            self.wheel_curve.tick_interval as nat
        } else {
            IDLE_INTERVAL as nat
        }
    }

    /// What a key event means: the action that its code is bound to, and
    /// whether it is a press (value 1) or a release (value 0). Events with
    /// an unbound code or another value mean nothing.
    pub open spec fn meaning(self, event: KeyEvent) -> Option<(LogicalAction, bool)> {
        match self.bindings.binding(event.code) {
            Some(action) => if event.value == 1 {
                Some((action, true))
            } else if event.value == 0 {
                Some((action, false))
            } else {
                None
            },
            None => None,
        }
    }

    /// The state after a key event.
    pub open spec fn after_key(self, event: KeyEvent) -> SchedulerModel {
        match self.meaning(event) {
            Some((action, pressed)) => SchedulerModel {
                keys: self.keys.apply(action, pressed, event.timestamp as nat),
                ..self
            },
            None => self,
        }
    }

    /// The commands that answer a key event.
    pub open spec fn key_commands(self, event: KeyEvent) -> Seq<CommandView> {
        match self.meaning(event) {
            Some((action, pressed)) => self.keys.response(action, pressed),
            None => seq![],
        }
    }

    /// What the movement group sends on a tick at `now`: nothing while its
    /// gate is shut; else one entry for each movement key that is down, in
    /// the order right, left, up, down. The magnitude is the movement
    /// curve's at the group's repeat count, compensated on each axis while a
    /// key of the other axis is down.
    pub open spec fn movement_batch(self, now: nat) -> Seq<OutputEvent> {
        let group = self.keys.movement;
        let held = group.members_held;
        let magnitude = self.movement_curve.curve(group.repeat_count);
        let vertical = held.contains(LogicalAction::MoveUp) || held.contains(LogicalAction::MoveDown);
        let horizontal = held.contains(LogicalAction::MoveLeft) || held.contains(
            LogicalAction::MoveRight,
        );
        let dx = if vertical {
            compensated(magnitude)
        } else {
            magnitude
        };
        let dy = if horizontal {
            compensated(magnitude)
        } else {
            magnitude
        };
        if group.gate(self.movement_curve.activation_delay as nat, now) {
            entry(held.contains(LogicalAction::MoveRight), motion(Axis::X, dx)) + entry(
                held.contains(LogicalAction::MoveLeft),
                motion(Axis::X, -dx),
            ) + entry(held.contains(LogicalAction::MoveUp), motion(Axis::Y, -dy)) + entry(
                held.contains(LogicalAction::MoveDown),
                motion(Axis::Y, dy),
            )
        } else {
            seq![]
        }
    }

    /// What the wheel group sends on a tick at `now`: nothing while its gate
    /// is shut; else one entry for each wheel key that is down, down before
    /// up, with the wheel curve's magnitude at the group's repeat count.
    pub open spec fn wheel_batch(self, now: nat) -> Seq<OutputEvent> {
        let group = self.keys.wheel;
        let held = group.members_held;
        let magnitude = self.wheel_curve.curve(group.repeat_count);
        if group.gate(self.wheel_curve.activation_delay as nat, now) {
            entry(held.contains(LogicalAction::WheelDown), motion(Axis::Wheel, -magnitude)) + entry(
                held.contains(LogicalAction::WheelUp),
                motion(Axis::Wheel, magnitude),
            )
        } else {
            seq![]
        }
    }

    /// The whole batch of a tick at `now`: the movement group's entries,
    /// then the wheel group's.
    pub open spec fn batch(self, now: nat) -> Seq<OutputEvent> {
        self.movement_batch(now) + self.wheel_batch(now)
    }

    /// The state after a tick at `now`: each group that has entries in the
    /// batch has sent one more event.
    pub open spec fn after_tick(self, now: nat) -> SchedulerModel {
        SchedulerModel {
            keys: TrackerModel {
                movement: if self.movement_batch(now).len() > 0 {
                    self.keys.movement.advance()
                } else {
                    self.keys.movement
                },
                wheel: if self.wheel_batch(now).len() > 0 {
                    self.keys.wheel.advance()
                } else {
                    self.keys.wheel
                },
                toggle: self.keys.toggle,
            },
            ..self
        }
    }

    /// The commands of a tick at `now`: one emission of the batch, or
    /// nothing at all where the batch is empty.
    pub open spec fn tick_commands(self, now: nat) -> Seq<CommandView> {
        if self.batch(now).len() > 0 {
            seq![CommandView::Emit(self.batch(now))]
        } else {
            seq![]
        }
    }

    /// The state after one input.
    pub open spec fn after(self, input: Input) -> SchedulerModel {
        match input {
            Input::Key(event) => self.after_key(event),
            Input::Tick { now } => self.after_tick(now as nat),
        }
    }

    /// The commands that answer one input.
    pub open spec fn commands(self, input: Input) -> Seq<CommandView> {
        match input {
            Input::Key(event) => self.key_commands(event),
            Input::Tick { now } => self.tick_commands(now as nat),
        }
    }

    /// The state after a run of inputs, taken in order.
    pub open spec fn after_all(self, inputs: Seq<Input>) -> SchedulerModel
        decreases inputs.len(),
    {
        if inputs.len() == 0 {
            self
        } else {
            self.after(inputs[0]).after_all(inputs.drop_first())
        }
    }

    /// All the commands that answer a run of inputs, in order.
    pub open spec fn run(self, inputs: Seq<Input>) -> Seq<CommandView>
        decreases inputs.len(),
    {
        if inputs.len() == 0 {
            seq![]
        } else {
            self.commands(inputs[0]) + self.after(inputs[0]).run(inputs.drop_first())
        }
    }
}

/// A run of two parts is the run of the first, then the run of the second
/// from where the first ended.
pub proof fn run_in_parts(s: SchedulerModel, first: Seq<Input>, second: Seq<Input>)
    ensures
        s.run(first + second) == s.run(first) + s.after_all(first).run(second),
        s.after_all(first + second) == s.after_all(first).after_all(second),
    decreases first.len(),
{
    if first.len() == 0 {
        assert(first + second =~= second);
        assert(s.run(first) + s.run(second) =~= s.run(second));
    } else {
        let next = s.after(first[0]);
        assert((first + second).drop_first() =~= first.drop_first() + second);
        run_in_parts(next, first.drop_first(), second);
        assert(s.commands(first[0]) + (next.run(first.drop_first()) + next.after_all(
            first.drop_first(),
        ).run(second)) =~= (s.commands(first[0]) + next.run(first.drop_first())) + next.after_all(
            first.drop_first(),
        ).run(second));
    }
}

/// A run of one input is one step.
pub proof fn run_of_one(s: SchedulerModel, input: Input)
    ensures
        s.run(seq![input]) == s.commands(input),
        s.after_all(seq![input]) == s.after(input),
{
    reveal_with_fuel(SchedulerModel::run, 2);
    reveal_with_fuel(SchedulerModel::after_all, 2);
    assert(seq![input].drop_first() =~= Seq::<Input>::empty());
    assert(s.commands(input) + Seq::<CommandView>::empty() =~= s.commands(input));
}

/// The scheduler: the bindings, the two curves and the key state tracker.
#[derive(Clone, Copy, Debug, PartialEq, Eq)]
pub struct Scheduler {
    bindings: KeyBindings,
    movement_curve: CurveConfig,
    wheel_curve: CurveConfig,
    keys: KeyStateTracker,
}

impl View for Scheduler {
    type V = SchedulerModel;

    closed spec fn view(&self) -> SchedulerModel {
        SchedulerModel {
            bindings: self.bindings,
            movement_curve: self.movement_curve,
            wheel_curve: self.wheel_curve,
            keys: self.keys@,
        }
    }
}

impl Scheduler {
    /// A scheduler in its initial state, or `None` where a curve is not
    /// well formed.
    pub fn new(bindings: KeyBindings, movement_curve: CurveConfig, wheel_curve: CurveConfig) -> (made:
        Option<Scheduler>)
        ensures
            made is Some <==> movement_curve.wf() && wheel_curve.wf(),
            made matches Some(scheduler) ==> scheduler@ == SchedulerModel::initial(
                bindings,
                movement_curve,
                wheel_curve,
            ) && scheduler@.wf(),
    {
        if movement_curve.is_valid() && wheel_curve.is_valid() {
            Some(Scheduler { bindings, movement_curve, wheel_curve, keys: KeyStateTracker::new() })
        } else {
            None
        }
    }

    /// A scheduler in its initial state, with the built-in curves.
    pub fn with_builtin_curves(bindings: KeyBindings) -> (scheduler: Scheduler)
        ensures
            scheduler@ == SchedulerModel::initial(
                bindings,
                crate::accel::movement_curve(),
                crate::accel::wheel_curve(),
            ),
            scheduler@.wf(),
    {
        Scheduler {
            bindings,
            movement_curve: movement_config(),
            wheel_curve: wheel_config(),
            keys: KeyStateTracker::new(),
        }
    }

    /// The key state tracker.
    pub fn keys(&self) -> (keys: &KeyStateTracker)
        ensures
            keys@ == self@.keys,
    {
        &self.keys
    }

    /// How many microseconds after a tick the next one is due.
    pub fn next_wait(&self) -> (micros: u64)
        ensures
            micros == self@.next_wait(),
    {
        if self.keys.movement().is_active() {
            self.movement_curve.tick_interval
        } else if self.keys.wheel().is_active() {
            self.wheel_curve.tick_interval
        } else {
            IDLE_INTERVAL
        }
    }

    /// Takes in a key event.
    pub fn on_key(&mut self, event: KeyEvent) -> (commands: Vec<Command>)
        requires
            old(self)@.wf(),
        ensures
            final(self)@.wf(),
            final(self)@ == old(self)@.after_key(event),
            views(commands@) == old(self)@.key_commands(event),
            commands@.len() == old(self)@.key_commands(event).len(),
    {
        match self.bindings.action_for(event.code) {
            Some(action) => {
                if event.value == 1 {
                    self.keys.apply(action, true, event.timestamp)
                } else if event.value == 0 {
                    self.keys.apply(action, false, event.timestamp)
                } else {
                    let commands: Vec<Command> = Vec::new();
                    assert(views(commands@) =~= seq![]);
                    commands
                }
            },
            None => {
                let commands: Vec<Command> = Vec::new();
                assert(views(commands@) =~= seq![]);
                commands
            },
        }
    }

    /// The movement group's part of the batch of a tick at `now`.
    fn movement_entries(&self, now: u64) -> (entries: Vec<OutputEvent>)
        requires
            self@.wf(),
        ensures
            entries@ == self@.movement_batch(now as nat),
    {
        let mut entries: Vec<OutputEvent> = Vec::new();
        let group = self.keys.movement();
        if group.is_active() && group.gate(self.movement_curve.activation_delay, now) {
            let up = group.holds(LogicalAction::MoveUp);
            let down = group.holds(LogicalAction::MoveDown);
            let left = group.holds(LogicalAction::MoveLeft);
            let right = group.holds(LogicalAction::MoveRight);
            let magnitude: i32 = self.movement_curve.magnitude(group.repeat_count());
            let dx: i32 = if up || down {
                compensate(magnitude)
            } else {
                magnitude
            };
            let dy: i32 = if left || right {
                compensate(magnitude)
            } else {
                magnitude
            };
            if right {
                entries.push(OutputEvent::Motion { axis: Axis::X, delta: dx });
            }
            if left {
                entries.push(OutputEvent::Motion { axis: Axis::X, delta: -dx });
            }
            if up {
                entries.push(OutputEvent::Motion { axis: Axis::Y, delta: -dy });
            }
            if down {
                entries.push(OutputEvent::Motion { axis: Axis::Y, delta: dy });
            }
        }
        proof {
            self@.idle_groups_send_nothing(now as nat);
            assert(entries@ =~= self@.movement_batch(now as nat));
        }
        entries
    }

    /// The wheel group's part of the batch of a tick at `now`, added to
    /// `batch`.
    fn wheel_entries(&self, now: u64, batch: &mut Vec<OutputEvent>)
        requires
            self@.wf(),
        ensures
            final(batch)@ == old(batch)@ + self@.wheel_batch(now as nat),
    {
        let group = self.keys.wheel();
        if group.is_active() && group.gate(self.wheel_curve.activation_delay, now) {
            let magnitude: i32 = self.wheel_curve.magnitude(group.repeat_count());
            if group.holds(LogicalAction::WheelDown) {
                batch.push(OutputEvent::Motion { axis: Axis::Wheel, delta: -magnitude });
            }
            if group.holds(LogicalAction::WheelUp) {
                batch.push(OutputEvent::Motion { axis: Axis::Wheel, delta: magnitude });
            }
        }
        proof {
            self@.idle_groups_send_nothing(now as nat);
            assert(batch@ =~= old(batch)@ + self@.wheel_batch(now as nat));
        }
    }

    /// Takes in that the wait ended at `now` without a key event.
    pub fn on_tick(&mut self, now: u64) -> (commands: Vec<Command>)
        requires
            old(self)@.wf(),
        ensures
            final(self)@.wf(),
            final(self)@ == old(self)@.after_tick(now as nat),
            views(commands@) == old(self)@.tick_commands(now as nat),
            commands@.len() == old(self)@.tick_commands(now as nat).len(),
    {
        let mut batch = self.movement_entries(now);
        let moved: usize = batch.len();
        self.wheel_entries(now, &mut batch);
        let mut commands: Vec<Command> = Vec::new();
        if batch.len() > 0 {
            self.keys.advance(moved > 0, batch.len() > moved);
            commands.push(Command::Emit(batch));
        }
        assert(views(commands@) =~= old(self)@.tick_commands(now as nat));
        commands
    }

    /// Takes in one input and returns the commands that answer it.
    pub fn step(&mut self, input: Input) -> (commands: Vec<Command>)
        requires
            old(self)@.wf(),
        ensures
            final(self)@.wf(),
            final(self)@ == old(self)@.after(input),
            views(commands@) == old(self)@.commands(input),
            commands@.len() == old(self)@.commands(input).len(),
    {
        match input {
            Input::Key(event) => self.on_key(event),
            Input::Tick { now } => self.on_tick(now),
        }
    }
}

impl Scheduler {
    /// Takes in a run of inputs, in order, and returns all the commands that
    /// answer them, in order.
    pub fn run(&mut self, inputs: &Vec<Input>) -> (commands: Vec<Command>)
        requires
            old(self)@.wf(),
        ensures
            final(self)@.wf(),
            final(self)@ == old(self)@.after_all(inputs@),
            views(commands@) == old(self)@.run(inputs@),
            commands@.len() == old(self)@.run(inputs@).len(),
    {
        let mut commands: Vec<Command> = Vec::new();
        let mut taken: usize = 0;
        assert(inputs@.take(0) =~= Seq::<Input>::empty());
        assert(views(commands@) =~= Seq::<CommandView>::empty());
        while taken < inputs.len()
            invariant
                taken <= inputs.len(),
                self@.wf(),
                self@ == old(self)@.after_all(inputs@.take(taken as int)),
                views(commands@) == old(self)@.run(inputs@.take(taken as int)),
            decreases inputs.len() - taken,
        {
            let ghost before = commands@;
            let mut answer = self.step(inputs[taken]);
            let ghost added = answer@;
            commands.append(&mut answer);
            proof {
                let done = inputs@.take(taken as int);
                assert(inputs@.take(taken + 1) =~= done + seq![inputs@[taken as int]]);
                run_in_parts(old(self)@, done, seq![inputs@[taken as int]]);
                run_of_one(old(self)@.after_all(done), inputs@[taken as int]);
                assert(views(before + added) =~= views(before) + views(added));
            }
            taken = taken + 1;
        }
        assert(inputs@.take(taken as int) =~= inputs@);
        commands
    }
}

impl SchedulerModel {
    /// A group with no key down has no entry in the batch of any tick; and
    /// a tick whose batch is empty asks for nothing, so that the output
    /// device is not called. What a tick does ask for is one emission, of a
    /// batch that is not empty.
    pub proof fn idle_groups_send_nothing(self, now: nat)
        ensures
            !self.keys.movement.is_active() ==> self.movement_batch(now) == Seq::<OutputEvent>::empty(),
            !self.keys.wheel.is_active() ==> self.wheel_batch(now) == Seq::<OutputEvent>::empty(),
            self.batch(now).len() == 0 ==> self.tick_commands(now) == Seq::<CommandView>::empty(),
            !self.keys.movement.is_active() && !self.keys.wheel.is_active() ==> self.tick_commands(now)
                == Seq::<CommandView>::empty() && self.after_tick(now) == self,
            self.tick_commands(now).len() <= 1,
            forall|i: int|
                0 <= i < self.tick_commands(now).len() ==> (#[trigger] self.tick_commands(now)[i]
                    matches CommandView::Emit(entries) && entries.len() > 0),
    {
        if !self.keys.movement.is_active() {
            assert(self.keys.movement.members_held =~= Set::empty());
            assert(self.movement_batch(now) =~= Seq::empty());
        }
        if !self.keys.wheel.is_active() {
            assert(self.keys.wheel.members_held =~= Set::empty());
            assert(self.wheel_batch(now) =~= Seq::empty());
        }
    }
}

} // verus!

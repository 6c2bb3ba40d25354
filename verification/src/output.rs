//! What the library asks the output device to do.

use vstd::prelude::*;

verus! {

/// A relative axis of the virtual pointer.
#[derive(Clone, Copy, Debug, PartialEq, Eq)]
pub enum Axis {
    /// Horizontal motion; positive is to the right.
    X,
    /// Vertical motion; positive is down.
    Y,
    /// The scroll wheel; positive is up.
    Wheel,
}

/// A button of the virtual pointer.
#[derive(Clone, Copy, Debug, PartialEq, Eq)]
pub enum Button {
    Left,
    Right,
}

/// One entry of a batch for the output device.
#[derive(Clone, Copy, Debug, PartialEq, Eq)]
pub enum OutputEvent {
    /// Move along `axis` by `delta`.
    Motion { axis: Axis, delta: i32 },
    /// Hold `button` down, or let it go.
    ButtonState { button: Button, pressed: bool },
}

/// One thing for the host to do. Commands are carried out in order, each
/// one to its end before the next.
#[derive(Debug, PartialEq, Eq)]
pub enum Command {
    /// Hand the batch to the output device, as one atomic emission. The
    /// batch is never empty.
    Emit(Vec<OutputEvent>),
    /// Wait this many microseconds.
    Settle(u64),
}

/// A command as a mathematical value.
pub enum CommandView {
    Emit(Seq<OutputEvent>),
    Settle(nat),
}

impl View for Command {
    type V = CommandView;

    open spec fn view(&self) -> CommandView {
        match self {
            Command::Emit(batch) => CommandView::Emit(batch@),
            Command::Settle(micros) => CommandView::Settle(*micros as nat),
        }
    }
}

/// A list of commands as a mathematical value.
pub open spec fn views(commands: Seq<Command>) -> Seq<CommandView> {
    commands.map_values(|c: Command| c@)
}

/// Microseconds between the press and the release of a momentary click.
pub const SETTLE_DELAY: u64 = 32_000;

/// The press of `button`, as a batch of its own.
pub open spec fn press_of(button: Button) -> CommandView {
    CommandView::Emit(seq![OutputEvent::ButtonState { button, pressed: true }])
}

/// The release of `button`, as a batch of its own.
pub open spec fn release_of(button: Button) -> CommandView {
    CommandView::Emit(seq![OutputEvent::ButtonState { button, pressed: false }])
}

/// The wait between the press and the release of a momentary click.
pub open spec fn settle() -> CommandView {
    CommandView::Settle(SETTLE_DELAY as nat)
}

/// A motion along `axis` by `delta`, which fits in `i32`.
pub open spec fn motion(axis: Axis, delta: int) -> OutputEvent {
    OutputEvent::Motion { axis, delta: delta as i32 }
}

/// The command that emits a batch of one button event.
pub fn button_command(button: Button, pressed: bool) -> (command: Command)
    ensures
        command@ == if pressed {
            press_of(button)
        } else {
            release_of(button)
        },
{
    let mut batch: Vec<OutputEvent> = Vec::new();
    batch.push(OutputEvent::ButtonState { button, pressed });
    assert(batch@ =~= seq![OutputEvent::ButtonState { button, pressed }]);
    Command::Emit(batch)
}

} // verus!

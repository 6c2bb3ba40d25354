//! Logical actions, the key events that drive them, and the table that binds
//! key codes to actions.

use vstd::prelude::*;

verus! {

/// What a key can be bound to.
#[derive(Clone, Copy, Debug, PartialEq, Eq, Hash)]
pub enum LogicalAction {
    MoveUp,
    MoveDown,
    MoveLeft,
    MoveRight,
    WheelUp,
    WheelDown,
    LeftClickMomentary,
    RightClickMomentary,
    LeftClickToggle,
}

impl LogicalAction {
    /// Whether the action moves the pointer.
    pub open spec fn is_movement(self) -> bool {
        self is MoveUp || self is MoveDown || self is MoveLeft || self is MoveRight
    }

    /// Whether the action turns the wheel.
    pub open spec fn is_wheel(self) -> bool {
        self is WheelUp || self is WheelDown
    }
}

/// One event of a key, as the input device reports it.
#[derive(Clone, Copy, Debug, PartialEq, Eq)]
pub struct KeyEvent {
    /// The key's code.
    pub code: u16,
    /// 1 for a press, 0 for a release. Events with any other value are
    /// ignored.
    pub value: i32,
    /// When the event happened, in microseconds.
    pub timestamp: u64,
}

/// The key code of each logical action.
#[derive(Clone, Copy, Debug, PartialEq, Eq)]
pub struct KeyBindings {
    pub move_up: u16,
    pub move_down: u16,
    pub move_left: u16,
    pub move_right: u16,
    pub wheel_up: u16,
    pub wheel_down: u16,
    pub left_click_momentary: u16,
    pub right_click_momentary: u16,
    pub left_click_toggle: u16,
}

impl KeyBindings {
    /// The action that `code` is bound to, if any. Where one code is given
    /// to several actions, the one that `LogicalAction` lists first has it.
    pub open spec fn binding(self, code: u16) -> Option<LogicalAction> {
        if code == self.move_up {
            Some(LogicalAction::MoveUp)
        } else if code == self.move_down {
            Some(LogicalAction::MoveDown)
        } else if code == self.move_left {
            Some(LogicalAction::MoveLeft)
        } else if code == self.move_right {
            Some(LogicalAction::MoveRight)
        } else if code == self.wheel_up {
            Some(LogicalAction::WheelUp)
        } else if code == self.wheel_down {
            Some(LogicalAction::WheelDown)
        } else if code == self.left_click_momentary {
            Some(LogicalAction::LeftClickMomentary)
        } else if code == self.right_click_momentary {
            Some(LogicalAction::RightClickMomentary)
        } else if code == self.left_click_toggle {
            Some(LogicalAction::LeftClickToggle)
        } else {
            None
        }
    }

    /// The action that `code` is bound to, if any.
    pub fn action_for(&self, code: u16) -> (action: Option<LogicalAction>)
        ensures
            action == self.binding(code),
    {
        if code == self.move_up {
            Some(LogicalAction::MoveUp)
        } else if code == self.move_down {
            Some(LogicalAction::MoveDown)
        } else if code == self.move_left {
            Some(LogicalAction::MoveLeft)
        } else if code == self.move_right {
            Some(LogicalAction::MoveRight)
        } else if code == self.wheel_up {
            Some(LogicalAction::WheelUp)
        } else if code == self.wheel_down {
            Some(LogicalAction::WheelDown)
        } else if code == self.left_click_momentary {
            Some(LogicalAction::LeftClickMomentary)
        } else if code == self.right_click_momentary {
            Some(LogicalAction::RightClickMomentary)
        } else if code == self.left_click_toggle {
            Some(LogicalAction::LeftClickToggle)
        } else {
            None
        }
    }
}

} // verus!

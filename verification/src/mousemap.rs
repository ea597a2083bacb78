//! Mouse buttons and scroll directions, and one of them together with the
//! modifiers held with it.

use vstd::prelude::*;
use vstd::std_specs::cmp::PartialEqSpecImpl;
use vstd::std_specs::convert::FromSpecImpl;
use crate::keymap::Modifiers;

verus! {

/// A mouse button: one of the eight that have a name, or another by its
/// code.
#[derive(Debug, Clone, Copy)]
pub enum MouseEvent {
    BtnLeft,
    BtnRight,
    BtnMiddle,
    BtnSide,
    BtnExtra,
    BtnForward,
    BtnBack,
    BtnTask,
    Raw(u32),
}

impl MouseEvent {
    /// The code of the button in pointer events.
    pub open spec fn spec_code(&self) -> u32 {
        match self {
            MouseEvent::BtnLeft => 0x110,
            MouseEvent::BtnRight => 0x111,
            MouseEvent::BtnMiddle => 0x112,
            MouseEvent::BtnSide => 0x113,
            MouseEvent::BtnExtra => 0x114,
            MouseEvent::BtnForward => 0x115,
            MouseEvent::BtnBack => 0x116,
            MouseEvent::BtnTask => 0x117,
            MouseEvent::Raw(raw) => *raw,
        }
    }

    /// The code of the button in pointer events.
    #[verifier::when_used_as_spec(spec_code)]
    pub fn code(&self) -> (code: u32)
        ensures
            code == self.spec_code(),
    {
        match self {
            MouseEvent::BtnLeft => 0x110,
            MouseEvent::BtnRight => 0x111,
            MouseEvent::BtnMiddle => 0x112,
            MouseEvent::BtnSide => 0x113,
            MouseEvent::BtnExtra => 0x114,
            MouseEvent::BtnForward => 0x115,
            MouseEvent::BtnBack => 0x116,
            MouseEvent::BtnTask => 0x117,
            MouseEvent::Raw(raw) => *raw,
        }
    }

    /// The name of the button; a button that is known by its code alone
    /// has none.
    pub open spec fn spec_name(&self) -> Option<&'static str> {
        match self {
            MouseEvent::BtnLeft => Some("left"),
            MouseEvent::BtnRight => Some("right"),
            MouseEvent::BtnMiddle => Some("middle"),
            MouseEvent::BtnSide => Some("side"),
            MouseEvent::BtnExtra => Some("extra"),
            MouseEvent::BtnForward => Some("forward"),
            MouseEvent::BtnBack => Some("back"),
            MouseEvent::BtnTask => Some("task"),
            MouseEvent::Raw(_) => None,
        }
    }

    /// The name of the button, if it has one.
    #[verifier::when_used_as_spec(spec_name)]
    pub fn name(&self) -> (name: Option<&'static str>)
        ensures
            name == self.spec_name(),
    {
        match self {
            MouseEvent::BtnLeft => Some("left"),
            MouseEvent::BtnRight => Some("right"),
            MouseEvent::BtnMiddle => Some("middle"),
            MouseEvent::BtnSide => Some("side"),
            MouseEvent::BtnExtra => Some("extra"),
            MouseEvent::BtnForward => Some("forward"),
            MouseEvent::BtnBack => Some("back"),
            MouseEvent::BtnTask => Some("task"),
            MouseEvent::Raw(_) => None,
        }
    }

    /// The button of a code: the named button where the code has one.
    pub open spec fn of_code(value: u32) -> MouseEvent {
        if value == 0x110 {
            MouseEvent::BtnLeft
        } else if value == 0x111 {
            MouseEvent::BtnRight
        } else if value == 0x112 {
            MouseEvent::BtnMiddle
        } else if value == 0x113 {
            MouseEvent::BtnSide
        } else if value == 0x114 {
            MouseEvent::BtnExtra
        } else if value == 0x115 {
            MouseEvent::BtnForward
        } else if value == 0x116 {
            MouseEvent::BtnBack
        } else if value == 0x117 {
            MouseEvent::BtnTask
        } else {
            MouseEvent::Raw(value)
        }
    }
}

impl From<u32> for MouseEvent {
    fn from(value: u32) -> (event: MouseEvent) {
        if value == 0x110 {
            MouseEvent::BtnLeft
        } else if value == 0x111 {
            MouseEvent::BtnRight
        } else if value == 0x112 {
            MouseEvent::BtnMiddle
        } else if value == 0x113 {
            MouseEvent::BtnSide
        } else if value == 0x114 {
            MouseEvent::BtnExtra
        } else if value == 0x115 {
            MouseEvent::BtnForward
        } else if value == 0x116 {
            MouseEvent::BtnBack
        } else if value == 0x117 {
            MouseEvent::BtnTask
        } else {
            MouseEvent::Raw(value)
        }
    }
}

impl FromSpecImpl<u32> for MouseEvent {
    open spec fn obeys_from_spec() -> bool {
        true
    }

    open spec fn from_spec(value: u32) -> MouseEvent {
        MouseEvent::of_code(value)
    }
}

impl PartialEq for MouseEvent {
    /// Two buttons are the same where their codes are: a button given by
    /// its code equals the named button of that code.
    fn eq(&self, other: &MouseEvent) -> (r: bool) {
        self.code() == other.code()
    }
}

impl PartialEqSpecImpl for MouseEvent {
    open spec fn obeys_eq_spec() -> bool {
        true
    }

    open spec fn eq_spec(&self, other: &MouseEvent) -> bool {
        self.spec_code() == other.spec_code()
    }
}

impl Eq for MouseEvent {

}

/// Every code is the code of its button, and a button made from its own
/// code is the same button.
pub proof fn lemma_button_code(value: u32, event: MouseEvent)
    ensures
        MouseEvent::of_code(value).spec_code() == value,
        MouseEvent::of_code(event.spec_code()).spec_code() == event.spec_code(),
        !(event is Raw) ==> MouseEvent::of_code(event.spec_code()) == event,
{
}

/// What the mouse did: a turn of the wheel or a button.
#[derive(Debug, Clone, Copy)]
pub enum Mouse {
    ScrollUp,
    ScrollDown,
    ScrollLeft,
    ScrollRight,
    Button(MouseEvent),
}

impl Mouse {
    /// Whether two are the same: the same turn of the wheel, or buttons of
    /// one code.
    pub open spec fn same(self, other: Mouse) -> bool {
        match (self, other) {
            (Mouse::ScrollUp, Mouse::ScrollUp) => true,
            (Mouse::ScrollDown, Mouse::ScrollDown) => true,
            (Mouse::ScrollLeft, Mouse::ScrollLeft) => true,
            (Mouse::ScrollRight, Mouse::ScrollRight) => true,
            (Mouse::Button(a), Mouse::Button(b)) => a.spec_code() == b.spec_code(),
            _ => false,
        }
    }
}

impl PartialEq for Mouse {
    fn eq(&self, other: &Mouse) -> (r: bool) {
        match (self, other) {
            (Mouse::ScrollUp, Mouse::ScrollUp) => true,
            (Mouse::ScrollDown, Mouse::ScrollDown) => true,
            (Mouse::ScrollLeft, Mouse::ScrollLeft) => true,
            (Mouse::ScrollRight, Mouse::ScrollRight) => true,
            (Mouse::Button(a), Mouse::Button(b)) => a.code() == b.code(),
            _ => false,
        }
    }
}

impl PartialEqSpecImpl for Mouse {
    open spec fn obeys_eq_spec() -> bool {
        true
    }

    open spec fn eq_spec(&self, other: &Mouse) -> bool {
        self.same(*other)
    }
}

impl Eq for Mouse {

}

/// How far the wheel has to turn, in one event, to count as a scroll: more
/// than one unit of the axis.
pub const SCROLL_STEP: i32 = 256;

/// The scroll that a turn of the wheel stands for, if it is far enough.
/// The vertical axis is looked at first.
pub open spec fn scroll_of(horizontal: i32, vertical: i32) -> Option<Mouse> {
    if vertical > SCROLL_STEP {
        Some(Mouse::ScrollDown)
    } else if vertical < -SCROLL_STEP {
        Some(Mouse::ScrollUp)
    } else if horizontal > SCROLL_STEP {
        Some(Mouse::ScrollLeft)
    } else if horizontal < -SCROLL_STEP {
        Some(Mouse::ScrollRight)
    } else {
        None
    }
}

/// The scroll that a turn of the wheel stands for, if it is far enough.
pub fn scroll(horizontal: i32, vertical: i32) -> (action: Option<Mouse>)
    ensures
        action == scroll_of(horizontal, vertical),
{
    if vertical > SCROLL_STEP {
        Some(Mouse::ScrollDown)
    } else if vertical < -SCROLL_STEP {
        Some(Mouse::ScrollUp)
    } else if horizontal > SCROLL_STEP {
        Some(Mouse::ScrollLeft)
    } else if horizontal < -SCROLL_STEP {
        Some(Mouse::ScrollRight)
    } else {
        None
    }
}

/// A mouse action together with the modifiers held with it.
#[derive(Debug, Clone, Copy)]
pub struct MouseMap {
    pub event: Mouse,
    pub modifier: Modifiers,
}

impl MouseMap {
    /// Whether two are the same: the actions are, and control, alt, shift
    /// and logo are held alike; the lock keys do not count.
    pub open spec fn same(self, other: MouseMap) -> bool {
        self.event.same(other.event) && self.modifier.spec_same_keys(&other.modifier)
    }

    /// A mouse action with modifiers.
    pub fn new(event: Mouse, modifier: Modifiers) -> (map: MouseMap)
        ensures
            map.event == event,
            map.modifier == modifier,
    {
        MouseMap { event, modifier }
    }
}

impl PartialEq for MouseMap {
    /// Two are the same where the actions are and control, alt, shift and
    /// logo are held alike; the lock keys do not count.
    fn eq(&self, other: &MouseMap) -> (r: bool) {
        self.event == other.event && self.modifier.same_keys(&other.modifier)
    }
}

impl PartialEqSpecImpl for MouseMap {
    open spec fn obeys_eq_spec() -> bool {
        true
    }

    open spec fn eq_spec(&self, other: &MouseMap) -> bool {
        self.same(*other)
    }
}

impl Eq for MouseMap {

}

} // verus!

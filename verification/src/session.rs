//! One turn of the event loop: what a key means, what an event does to the
//! registry and asks of the caller, and when the next resync is due.

use crate::control::Direction;
use crate::registry::{Registry, RegistryView, WriteRequest};
use vstd::prelude::*;

verus! {

/// A key as the terminal delivers it, as far as the loop tells keys apart.
#[derive(Clone, Copy, Debug, PartialEq, Eq, Structural)]
pub enum Key {
    Char(char),
    Tab,
    BackTab,
    Up,
    Down,
    Left,
    Right,
    Other,
}

/// What the operator can ask for.
#[derive(Clone, Copy, Debug, PartialEq, Eq, Structural)]
pub enum InputEvent {
    Quit,
    FocusNextDevice,
    FocusPreviousDevice,
    FocusNextControl,
    FocusPreviousControl,
    Increase,
    Decrease,
}

/// What the caller is to do after an event was taken in.
#[derive(Debug)]
pub enum Step {
    /// Leave the loop.
    Quit,
    /// Nothing to do but go on.
    Continue,
    /// Perform the write, then settle the adjustment in this direction with
    /// its outcome.
    Write(Direction, WriteRequest),
}

/// The event that a key stands for: `q` quits; Tab and BackTab move between
/// devices; `j` or Down and `k` or Up move between controls; `l` or Right
/// increases and `h` or Left decreases. Any other key means nothing.
pub open spec fn key_event(key: Key) -> Option<InputEvent> {
    match key {
        Key::Char(c) => if c == 'q' {
            Some(InputEvent::Quit)
        } else if c == 'j' {
            Some(InputEvent::FocusNextControl)
        } else if c == 'k' {
            Some(InputEvent::FocusPreviousControl)
        } else if c == 'l' {
            Some(InputEvent::Increase)
        } else if c == 'h' {
            Some(InputEvent::Decrease)
        } else {
            None
        },
        Key::Tab => Some(InputEvent::FocusNextDevice),
        Key::BackTab => Some(InputEvent::FocusPreviousDevice),
        Key::Down => Some(InputEvent::FocusNextControl),
        Key::Up => Some(InputEvent::FocusPreviousControl),
        Key::Right => Some(InputEvent::Increase),
        Key::Left => Some(InputEvent::Decrease),
        Key::Other => None,
    }
}

/// The direction of an adjusting event.
pub open spec fn event_direction(event: InputEvent) -> Option<Direction> {
    match event {
        InputEvent::Increase => Some(Direction::Increase),
        InputEvent::Decrease => Some(Direction::Decrease),
        _ => None,
    }
}

impl RegistryView {
    /// This registry once `event` was taken in. Only the focus events change
    /// it: an adjustment changes nothing before its write is over.
    pub open spec fn after_event(self, event: InputEvent) -> RegistryView {
        match event {
            InputEvent::FocusNextDevice => self.next_device(),
            InputEvent::FocusPreviousDevice => self.previous_device(),
            InputEvent::FocusNextControl => self.next_control(),
            InputEvent::FocusPreviousControl => self.previous_control(),
            _ => self,
        }
    }
}

/// The event that `key` stands for, if any.
pub fn event_for_key(key: Key) -> (event: Option<InputEvent>)
    ensures
        event == key_event(key),
{
    match key {
        Key::Char('q') => Some(InputEvent::Quit),
        Key::Char('j') | Key::Down => Some(InputEvent::FocusNextControl),
        Key::Char('k') | Key::Up => Some(InputEvent::FocusPreviousControl),
        Key::Char('l') | Key::Right => Some(InputEvent::Increase),
        Key::Char('h') | Key::Left => Some(InputEvent::Decrease),
        Key::Tab => Some(InputEvent::FocusNextDevice),
        Key::BackTab => Some(InputEvent::FocusPreviousDevice),
        _ => None,
    }
}

impl Registry {
    /// Takes in one event. A focus event moves the focus; `Quit` and the
    /// adjusting events leave the registry as it is. The step returned tells
    /// the caller to leave, to go on, or to perform the write that the
    /// adjustment asks for; where the value already stands at the bound, or
    /// there is no control to adjust, no write is asked for.
    pub fn handle(&mut self, event: InputEvent) -> (step: Step)
        ensures
            final(self)@ == old(self)@.after_event(event),
            event == InputEvent::Quit <==> step is Quit,
            match step {
                Step::Write(direction, request) => event_direction(event) == Some(direction)
                    && old(self)@.pending_write(direction) == Some(request@),
                _ => event_direction(event) is Some ==> old(self)@.pending_write(
                    event_direction(event)->0,
                ) is None,
            },
    {
        match event {
            InputEvent::Quit => Step::Quit,
            InputEvent::FocusNextDevice => {
                self.next_device();
                Step::Continue
            },
            InputEvent::FocusPreviousDevice => {
                self.previous_device();
                Step::Continue
            },
            InputEvent::FocusNextControl => {
                self.next_control();
                Step::Continue
            },
            InputEvent::FocusPreviousControl => {
                self.previous_control();
                Step::Continue
            },
            InputEvent::Increase => match self.plan_adjust(Direction::Increase) {
                Some(request) => Step::Write(Direction::Increase, request),
                None => Step::Continue,
            },
            InputEvent::Decrease => match self.plan_adjust(Direction::Decrease) {
                Some(request) => Step::Write(Direction::Decrease, request),
                None => Step::Continue,
            },
        }
    }
}

/// How long the loop may wait for a key before the next resync is due: what
/// is left of `period` after `elapsed`, and nothing once the period is over.
/// Both are counted in the same unit since the last resync.
pub fn poll_timeout(period: u64, elapsed: u64) -> (timeout: u64)
    ensures
        timeout == if elapsed < period {
            period - elapsed
        } else {
            0
        },
{
    if elapsed < period {
        period - elapsed
    } else {
        0
    }
}

/// Whether a resync is due: a whole period has passed since the last one.
pub fn resync_due(period: u64, elapsed: u64) -> (due: bool)
    ensures
        due == (elapsed >= period),
{
    elapsed >= period
}

} // verus!

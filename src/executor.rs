use vstd::prelude::*;

use crate::codec::{decode_frame, Command, SocketMessage};
use crate::error::BrightyError;
use crate::text::{control_value, parse_value};

verus! {

/// The ceiling is divided by this to give the relative step.
pub const STEP_DIVISOR: usize = 100;

/// The relative step of a device with the given ceiling. It is 0 when the
/// ceiling is below `STEP_DIVISOR`: relative commands then leave the value
/// where it is, but for the clamp.
pub open spec fn step_of(ceiling: int) -> int {
    ceiling / STEP_DIVISOR as int
}

/// `v`, but no more than `ceiling`.
pub open spec fn clamp(v: int, ceiling: int) -> int {
    if v > ceiling {
        ceiling
    } else {
        v
    }
}

/// The brightness after `c` is executed on a device at `current` with the
/// given ceiling. A device switch leaves it to the new binding.
pub open spec fn next_current(current: int, ceiling: int, c: Command) -> int {
    let step = step_of(ceiling);
    match c {
        Command::Up => clamp(current + step, ceiling),
        Command::Down => clamp(
            if step < current {
                current - step
            } else {
                0
            },
            ceiling,
        ),
        Command::Absolute(v) => clamp(v as int, ceiling),
        Command::SwitchDevice(_) => current,
    }
}

/// The state after `c` is executed on `s`: the brightness moves, the
/// ceiling stays.
pub open spec fn executed(s: DeviceState, c: Command) -> DeviceState {
    DeviceState {
        current: next_current(s.current as int, s.ceiling as int, c) as usize,
        ceiling: s.ceiling,
    }
}

/// The state adopted from a freshly bound device: its values, with the
/// brightness clamped to its ceiling.
pub open spec fn adopted(fresh: DeviceState) -> DeviceState {
    DeviceState { current: clamp(fresh.current as int, fresh.ceiling as int) as usize, ceiling: fresh.ceiling }
}

/// One step of the daemon's session: a decoded command executed, or the
/// outcome of binding the device that a switch command named.
pub enum SessionEvent {
    Execute(Command),
    Rebound(Result<DeviceState, BrightyError>),
}

/// The state after `e` happens in state `s`. A failed rebind keeps `s` whole.
pub open spec fn apply(s: DeviceState, e: SessionEvent) -> DeviceState {
    match e {
        SessionEvent::Execute(c) => executed(s, c),
        SessionEvent::Rebound(Ok(fresh)) => adopted(fresh),
        SessionEvent::Rebound(Err(_)) => s,
    }
}

/// The events after which the daemon writes the brightness to the device.
pub open spec fn persists(e: SessionEvent) -> bool {
    match e {
        SessionEvent::Execute(c) => !(c is SwitchDevice),
        SessionEvent::Rebound(r) => r is Ok,
    }
}

/// The state after the events `events` happen in order, from `s`.
pub open spec fn replay(s: DeviceState, events: Seq<SessionEvent>) -> DeviceState
    decreases events.len(),
{
    if events.len() == 0 {
        s
    } else {
        apply(replay(s, events.drop_last()), events.last())
    }
}

/// One event leaves the brightness within the ceiling when it persists, and
/// keeps it there when it was there already.
proof fn lemma_apply_within_ceiling(s: DeviceState, e: SessionEvent)
    ensures
        persists(e) ==> apply(s, e).current <= apply(s, e).ceiling,
        s.current <= s.ceiling ==> apply(s, e).current <= apply(s, e).ceiling,
{
}

/// Clamp invariant: from any state and through any events, including device
/// switches, every brightness that is persisted lies between 0 and the
/// ceiling in effect; and once the brightness is within the ceiling it stays
/// within it after every later event.
pub proof fn lemma_clamp_invariant(s: DeviceState, events: Seq<SessionEvent>)
    ensures
        forall|i: int|
            0 <= i < events.len() && persists(#[trigger] events[i]) ==> replay(
                s,
                events.take(i + 1),
            ).current <= replay(s, events.take(i + 1)).ceiling,
        s.current <= s.ceiling ==> forall|i: int|
            0 <= i <= events.len() ==> #[trigger] replay(s, events.take(i)).current <= replay(
                s,
                events.take(i),
            ).ceiling,
    decreases events.len(),
{
    assert forall|i: int|
        0 <= i < events.len() && persists(#[trigger] events[i]) implies replay(
            s,
            events.take(i + 1),
        ).current <= replay(s, events.take(i + 1)).ceiling by {
        assert(events.take(i + 1).drop_last() =~= events.take(i));
        lemma_apply_within_ceiling(replay(s, events.take(i)), events[i]);
    }
    if events.len() > 0 && s.current <= s.ceiling {
        let pre = events.drop_last();
        lemma_clamp_invariant(s, pre);
        assert forall|i: int| 0 <= i <= events.len() implies #[trigger] replay(
            s,
            events.take(i),
        ).current <= replay(s, events.take(i)).ceiling by {
            if i < events.len() {
                assert(pre.take(i) =~= events.take(i));
            } else {
                assert(events.take(i) =~= events);
                assert(pre.take(pre.len() as int) =~= pre);
                lemma_apply_within_ceiling(replay(s, pre), events.last());
            }
        }
    } else if s.current <= s.ceiling {
        assert(events.take(0) =~= events);
    }
}

/// Down-floor: when the step is at least the brightness, one step down gives
/// exactly 0.
pub proof fn lemma_down_floor(current: int, ceiling: int)
    requires
        0 <= current <= step_of(ceiling),
        0 <= ceiling,
    ensures
        next_current(current, ceiling, Command::Down) == 0,
{
}

/// Absolute overflow clamp: an absolute brightness 1000 above the ceiling
/// leaves the brightness at the ceiling.
pub proof fn lemma_absolute_overflow_clamp(current: int, ceiling: int)
    requires
        0 <= ceiling,
        ceiling + 1000 <= u32::MAX,
    ensures
        next_current(current, ceiling, Command::Absolute((ceiling + 1000) as u32)) == ceiling,
{
}

/// Rebind atomicity: a switch command by itself changes nothing, and a
/// rebind that failed, whatever the error, leaves the prior binding's values
/// exactly as they were.
pub proof fn lemma_rebind_atomicity(s: DeviceState, name: Seq<char>, e: BrightyError)
    ensures
        apply(s, SessionEvent::Execute(Command::SwitchDevice(name))) == s,
        apply(s, SessionEvent::Rebound(Err(e))) == s,
{
}

/// What the daemon has to do after a command was executed.
pub enum Action {
    /// Write this brightness to the device's `current` file.
    Persist(usize),
    /// Bind the device of this name, then hand the outcome to
    /// `DeviceState::complete_rebind`.
    Rebind(String),
}

/// The daemon's cached view of its bound device: the last known brightness
/// and the device's ceiling.
#[derive(Debug, Clone, Copy, PartialEq, Eq, Structural)]
pub struct DeviceState {
    pub current: usize,
    pub ceiling: usize,
}

impl DeviceState {
    /// A state with the given brightness and ceiling, taken as read.
    pub fn new(current: usize, ceiling: usize) -> (r: Self)
        ensures
            r.current == current,
            r.ceiling == ceiling,
    {
        DeviceState { current, ceiling }
    }

    /// The state of a device whose `current` and `ceiling` control files
    /// hold `current_raw` and `ceiling_raw`. Fails with `MalformedValue`
    /// unless both hold an unsigned integer.
    pub fn from_contents(current_raw: &str, ceiling_raw: &str) -> (r: Result<Self, BrightyError>)
        ensures
            (control_value(current_raw@), control_value(ceiling_raw@)) matches (Ok(c), Ok(m))
                ==> r == Ok::<DeviceState, BrightyError>(DeviceState { current: c, ceiling: m }),
            control_value(current_raw@) is Err || control_value(ceiling_raw@) is Err ==> r
                == Err::<DeviceState, BrightyError>(BrightyError::MalformedValue),
    {
        let current = match parse_value(current_raw) {
            Ok(v) => v,
            Err(e) => return Err(e),
        };
        let ceiling = match parse_value(ceiling_raw) {
            Ok(v) => v,
            Err(e) => return Err(e),
        };
        Ok(DeviceState { current, ceiling })
    }

    /// The relative step of this device.
    pub fn step(&self) -> (r: usize)
        ensures
            r == step_of(self.ceiling as int),
    {
        self.ceiling / STEP_DIVISOR
    }

    /// Applies `command` to the cached brightness. A relative or absolute
    /// command sets the clamped new value and asks for it to be persisted; a
    /// device switch changes nothing here and asks for the rebind.
    pub fn execute_command(&mut self, command: SocketMessage) -> (a: Action)
        ensures
            *final(self) == executed(*old(self), command@),
            command@ is SwitchDevice ==> (a matches Action::Rebind(name) && Command::SwitchDevice(
                name@,
            ) == command@),
            !(command@ is SwitchDevice) ==> a == Action::Persist(final(self).current),
    {
        let step = self.step();
        let raw: usize = match command {
            SocketMessage::SetRelativeBrightnessUp => {
                if self.current > usize::MAX - step {
                    usize::MAX
                } else {
                    self.current + step
                }
            },
            SocketMessage::SetRelativeBrightnessDown => {
                if step < self.current {
                    self.current - step
                } else {
                    0
                }
            },
            SocketMessage::SetBrightnessAbsolute(n) => n as usize,
            SocketMessage::ChangeBrightnessFile(name) => {
                return Action::Rebind(name);
            },
        };
        self.current = if raw > self.ceiling {
            self.ceiling
        } else {
            raw
        };
        Action::Persist(self.current)
    }

    /// Decodes one frame and executes it. A frame that does not decode is
    /// discarded: the error is returned and the state is left as it was.
    pub fn handle_frame(&mut self, frame: &[u8]) -> (r: Result<Action, BrightyError>)
        ensures
            decode_frame(frame@) matches Err(e) ==> r == Err::<Action, BrightyError>(e)
                && *final(self) == *old(self),
            decode_frame(frame@) matches Ok(c) ==> {
                &&& *final(self) == executed(*old(self), c)
                &&& c is SwitchDevice ==> (r matches Ok(Action::Rebind(name))
                    && Command::SwitchDevice(name@) == c)
                &&& !(c is SwitchDevice) ==> r == Ok::<Action, BrightyError>(
                    Action::Persist(final(self).current),
                )
            },
    {
        match SocketMessage::from_buff(frame) {
            Ok(command) => Ok(self.execute_command(command)),
            Err(e) => Err(e),
        }
    }

    /// Adopts a freshly bound device, its brightness clamped to its ceiling,
    /// and returns the brightness to persist; or keeps the current binding
    /// whole when binding failed and reports why.
    pub fn complete_rebind(&mut self, outcome: Result<DeviceState, BrightyError>) -> (r: Result<
        usize,
        BrightyError,
    >)
        ensures
            *final(self) == apply(*old(self), SessionEvent::Rebound(outcome)),
            outcome is Ok ==> r == Ok::<usize, BrightyError>(final(self).current),
            outcome matches Err(e) ==> r == Err::<usize, BrightyError>(e),
    {
        match outcome {
            Ok(fresh) => {
                let current = if fresh.current > fresh.ceiling {
                    fresh.ceiling
                } else {
                    fresh.current
                };
                *self = DeviceState { current, ceiling: fresh.ceiling };
                Ok(current)
            },
            Err(e) => Err(e),
        }
    }
}

} // verus!

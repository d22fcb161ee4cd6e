use vstd::prelude::*;

verus! {

/// A key press, as far as the viewer tells keys apart.
#[derive(Clone, Copy, Debug, PartialEq, Eq, Structural)]
pub enum Key {
    Char(char),
    Delete,
    Resize,
    Other,
}

/// What the viewer does in answer to a key.
#[derive(Clone, Copy, Debug, PartialEq, Eq, Structural)]
pub enum Command {
    MoveForward,
    MoveBackward,
    StrafeLeft,
    StrafeRight,
    TurnLeft,
    TurnRight,
    Resize,
    Quit,
}

/// The command bound to a key: `w`/`s` move forward and back, `a`/`d` strafe
/// left and right, `q`/`e` turn left and right, Delete quits, a resize of the
/// terminal resizes the view. No other key is bound.
pub open spec fn command_of(key: Key) -> Option<Command> {
    match key {
        Key::Char('w') => Some(Command::MoveForward),
        Key::Char('s') => Some(Command::MoveBackward),
        Key::Char('a') => Some(Command::StrafeLeft),
        Key::Char('d') => Some(Command::StrafeRight),
        Key::Char('q') => Some(Command::TurnLeft),
        Key::Char('e') => Some(Command::TurnRight),
        Key::Delete => Some(Command::Quit),
        Key::Resize => Some(Command::Resize),
        _ => None,
    }
}

/// Maps a key to the command bound to it, if any.
pub fn command_for(key: Key) -> (r: Option<Command>)
    ensures
        r == command_of(key),
{
    match key {
        Key::Char(c) => {
            if c == 'w' {
                Some(Command::MoveForward)
            } else if c == 's' {
                Some(Command::MoveBackward)
            } else if c == 'a' {
                Some(Command::StrafeLeft)
            } else if c == 'd' {
                Some(Command::StrafeRight)
            } else if c == 'q' {
                Some(Command::TurnLeft)
            } else if c == 'e' {
                Some(Command::TurnRight)
            } else {
                None
            }
        },
        Key::Delete => Some(Command::Quit),
        Key::Resize => Some(Command::Resize),
        Key::Other => None,
    }
}

/// The unit step of a move, in the camera's own frame as (lateral, forward):
/// forward is `(0, 1)` and right is `(1, 0)`.
pub open spec fn step_of(c: Command) -> Option<(int, int)> {
    match c {
        Command::MoveForward => Some((0, 1)),
        Command::MoveBackward => Some((0, -1)),
        Command::StrafeLeft => Some((-1, 0)),
        Command::StrafeRight => Some((1, 0)),
        _ => None,
    }
}

/// The sense of a turn: `1` turns counterclockwise (left), `-1` clockwise.
pub open spec fn turn_of(c: Command) -> Option<int> {
    match c {
        Command::TurnLeft => Some(1),
        Command::TurnRight => Some(-1),
        _ => None,
    }
}

impl Command {
    /// The unit step of a move command in the camera's frame, as (lateral,
    /// forward); `None` for a command that does not move the camera.
    pub fn step(self) -> (r: Option<(i8, i8)>)
        ensures
            match step_of(self) {
                Some(s) => r == Some((s.0 as i8, s.1 as i8)) && r.unwrap().0 as int == s.0
                    && r.unwrap().1 as int == s.1,
                None => r.is_none(),
            },
    {
        match self {
            Command::MoveForward => Some((0, 1)),
            Command::MoveBackward => Some((0, -1)),
            Command::StrafeLeft => Some((-1, 0)),
            Command::StrafeRight => Some((1, 0)),
            _ => None,
        }
    }

    /// The sense of a turn command; `None` for a command that does not turn.
    pub fn turn(self) -> (r: Option<i8>)
        ensures
            match turn_of(self) {
                Some(t) => r.is_some() && r.unwrap() as int == t,
                None => r.is_none(),
            },
    {
        match self {
            Command::TurnLeft => Some(1),
            Command::TurnRight => Some(-1),
            _ => None,
        }
    }
}

/// Moving forward and then back, or left and then right, by the same distance
/// comes back to the start: the steps of opposite moves cancel, and so do the
/// senses of opposite turns.
pub proof fn lemma_opposite_commands_cancel()
    ensures
        step_of(Command::MoveForward).unwrap().0 + step_of(Command::MoveBackward).unwrap().0 == 0,
        step_of(Command::MoveForward).unwrap().1 + step_of(Command::MoveBackward).unwrap().1 == 0,
        step_of(Command::StrafeLeft).unwrap().0 + step_of(Command::StrafeRight).unwrap().0 == 0,
        step_of(Command::StrafeLeft).unwrap().1 + step_of(Command::StrafeRight).unwrap().1 == 0,
        turn_of(Command::TurnLeft).unwrap() + turn_of(Command::TurnRight).unwrap() == 0,
{
}

} // verus!

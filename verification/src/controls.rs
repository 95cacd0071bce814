use vstd::prelude::*;

verus! {

/// A key press, as the game tells keys apart.
#[derive(PartialEq, Eq, Structural, Clone, Copy, Debug)]
pub enum Input {
    Char(char),
    Left,
    Right,
    Up,
    Down,
    Esc,
    Other,
}

/// What a key press asks of the game.
#[derive(PartialEq, Eq, Structural, Clone, Copy, Debug)]
pub enum Command {
    /// Leave the game.
    Quit,
    /// Move the falling piece by this vector.
    Move(i16, i16),
    /// Turn the falling piece; the flag is the direction the key names
    /// (`true`: clockwise), which `Game::rot_current` does not consult.
    Rotate(bool),
    /// Hold the falling piece.
    Hold,
    /// Pause the game.
    Pause,
    /// Leave the pause.
    Resume,
    /// Nothing.
    Nothing,
}

/// The key map: `q` quits; while paused any other key resumes.  Otherwise
/// the arrows (or `j`, `k`, `;` and `l`) move left, down, right and turn
/// clockwise, `r` asks for a counter-clockwise turn (the game turns every
/// piece clockwise), `h` holds and Esc pauses.
pub open spec fn command_spec(paused: bool, key: Input) -> Command {
    if key == Input::Char('q') {
        Command::Quit
    } else if paused {
        Command::Resume
    } else {
        match key {
            Input::Right => Command::Move(1, 0),
            Input::Left => Command::Move(-1i16, 0),
            Input::Down => Command::Move(0, 1),
            Input::Up => Command::Rotate(true),
            Input::Char(c) => if c == 'h' {
                Command::Hold
            } else if c == 'r' {
                Command::Rotate(false)
            } else if c == ';' {
                Command::Move(1, 0)
            } else if c == 'j' {
                Command::Move(-1i16, 0)
            } else if c == 'k' {
                Command::Move(0, 1)
            } else if c == 'l' {
                Command::Rotate(true)
            } else {
                Command::Nothing
            },
            Input::Esc => Command::Pause,
            Input::Other => Command::Nothing,
        }
    }
}

/// What a key press asks of the game, paused or not.
pub fn command_for(paused: bool, key: Input) -> (c: Command)
    ensures
        c == command_spec(paused, key),
        key == Input::Char('q') ==> c == Command::Quit,
        paused && key != Input::Char('q') ==> c == Command::Resume,
        !paused ==> {
            &&& key == Input::Right ==> c == Command::Move(1, 0)
            &&& key == Input::Left ==> c == Command::Move(-1i16, 0)
            &&& key == Input::Down ==> c == Command::Move(0, 1)
            &&& key == Input::Up ==> c == Command::Rotate(true)
            &&& key == Input::Char('h') ==> c == Command::Hold
            &&& key == Input::Char('r') ==> c == Command::Rotate(false)
            &&& key == Input::Char(';') ==> c == Command::Move(1, 0)
            &&& key == Input::Char('j') ==> c == Command::Move(-1i16, 0)
            &&& key == Input::Char('k') ==> c == Command::Move(0, 1)
            &&& key == Input::Char('l') ==> c == Command::Rotate(true)
            &&& key == Input::Esc ==> c == Command::Pause
            &&& key == Input::Other ==> c == Command::Nothing
            &&& forall|ch: char|
                key == Input::Char(ch) && ch != 'q' && ch != 'h' && ch != 'r' && ch != ';' && ch
                    != 'j' && ch != 'k' && ch != 'l' ==> c == Command::Nothing
        },
{
    if paused {
        match key {
            Input::Char('q') => Command::Quit,
            _ => Command::Resume,
        }
    } else {
        match key {
            Input::Char('q') => Command::Quit,
            Input::Right => Command::Move(1, 0),
            Input::Left => Command::Move(-1, 0),
            Input::Down => Command::Move(0, 1),
            Input::Up => Command::Rotate(true),
            Input::Char('h') => Command::Hold,
            Input::Char('r') => Command::Rotate(false),
            Input::Char(';') => Command::Move(1, 0),
            Input::Char('j') => Command::Move(-1, 0),
            Input::Char('k') => Command::Move(0, 1),
            Input::Char('l') => Command::Rotate(true),
            Input::Esc => Command::Pause,
            _ => Command::Nothing,
        }
    }
}

} // verus!

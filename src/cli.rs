use vstd::prelude::*;

use crate::codec::{Command, SocketMessage};
use crate::text::{parse_unsigned, same_text, unsigned_value};

verus! {

/// The command that a client invocation with the argument `arg` asks for:
/// `up`, `down`, or an absolute brightness in decimal.
pub open spec fn arg_command(arg: Seq<char>) -> Option<Command> {
    if arg == "up"@ {
        Some(Command::Up)
    } else if arg == "down"@ {
        Some(Command::Down)
    } else {
        match unsigned_value(arg) {
            Some(v) => if v <= u32::MAX {
                Some(Command::Absolute(v as u32))
            } else {
                None
            },
            None => None,
        }
    }
}

/// The command a client invocation with the argument `arg` sends, or `None`
/// when the argument names none.
pub fn command_from_arg(arg: &str) -> (r: Option<SocketMessage>)
    ensures
        r is Some <==> arg_command(arg@) is Some,
        r matches Some(m) ==> arg_command(arg@) == Some(m@),
{
    if same_text(arg, "up") {
        Some(SocketMessage::SetRelativeBrightnessUp)
    } else if same_text(arg, "down") {
        Some(SocketMessage::SetRelativeBrightnessDown)
    } else {
        match parse_unsigned(arg) {
            Some(v) => if v <= u32::MAX as usize {
                Some(SocketMessage::SetBrightnessAbsolute(v as u32))
            } else {
                None
            },
            None => None,
        }
    }
}

} // verus!

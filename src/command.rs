//! The command that a chat message carries: its name and its arguments.
use vstd::prelude::*;
use crate::message::texts;
use crate::message::tokenize;
use crate::message::tokens;

verus! {

/// What a message says as a command.
pub struct CommandInfo {
    /// Whether the message could be read as a command.
    pub has_command_info: bool,
    /// The first word of the message; empty when there is no command.
    pub command_name: String,
    /// The words after the first; empty when there is no command.
    pub command_args: Vec<String>,
}

impl CommandInfo {
    /// A message with no command in it.
    pub open spec fn is_none(&self) -> bool {
        &&& !self.has_command_info
        &&& self.command_name@ == Seq::<char>::empty()
        &&& self.command_args@.len() == 0
    }

    /// Reads `message` as a command: its first word names the command and
    /// the others are its arguments. A message that does not tokenize, or
    /// that has no word at all, carries no command.
    pub fn parse(message: String) -> (r: Self)
        ensures
            match tokens(message@) {
                Ok(words) => if words.len() > 0 {
                    &&& r.has_command_info
                    &&& r.command_name@ == words[0]
                    &&& texts(r.command_args@) == words.drop_first()
                } else {
                    r.is_none()
                },
                Err(_) => r.is_none(),
            },
    {
        match tokenize(message) {
            Ok(mut words) => {
                if words.len() == 0 {
                    return CommandInfo {
                        has_command_info: false,
                        command_name: String::new(),
                        command_args: Vec::new(),
                    };
                }
                let ghost all = words@;
                let command_name = words.remove(0);
                assert(texts(words@) =~= texts(all).drop_first());
                CommandInfo { has_command_info: true, command_name, command_args: words }
            },
            Err(_) => CommandInfo {
                has_command_info: false,
                command_name: String::new(),
                command_args: Vec::new(),
            },
        }
    }
}

} // verus!

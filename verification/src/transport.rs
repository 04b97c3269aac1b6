//! Thin transport adapter for `openhuman chat`.
use vstd::prelude::*;
use crate::chat_cli::{asks_for_help, ChatCommand};

verus! {

/// What `openhuman chat` does with its arguments (see
/// `chat_cli::run_chat_command`).
pub fn run_chat_command(args: &[String]) -> (res: ChatCommand)
    ensures
        (res == ChatCommand::ShowHelp) == asks_for_help(args@),
        (res == ChatCommand::StartSession) == !asks_for_help(args@),
{
    crate::chat_cli::run_chat_command(args)
}

} // verus!

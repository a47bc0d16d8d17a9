//! Secret commands typed at the wizard's prompts: what is checked of
//! them before they are stored.

use vstd::prelude::*;
use vstd::string::*;

use crate::text::{trim, trim_str};

verus! {

/// Why a secret command was refused.
#[derive(Clone, Copy, Debug, PartialEq, Eq, Structural)]
pub enum SecretError {
    /// A command given as an argv names no program.
    EmptyCommand,
    /// A shell command line is blank.
    EmptyShellCommand,
}

/// The program and arguments of a secret command given as an argv, as
/// a known keyring provider or token broker yields it. No shell is
/// involved.
pub fn command_secret(argv: Vec<String>) -> (r: Result<(String, Vec<String>), SecretError>)
    ensures
        match r {
            Ok((program, args)) => argv@.len() > 0 && program == argv@[0] && args@
                == argv@.drop_first(),
            Err(e) => argv@.len() == 0 && e == SecretError::EmptyCommand,
        },
{
    if argv.len() == 0 {
        return Err(SecretError::EmptyCommand);
    }
    let mut args = argv;
    let program = args.remove(0);
    Ok((program, args))
}

/// A hand-typed shell command line for a secret, trimmed; a blank one
/// is refused.
pub fn shell_secret(line: &str) -> (r: Result<&str, SecretError>)
    ensures
        match r {
            Ok(command) => command@ == trim(line@) && command@.len() > 0,
            Err(e) => trim(line@).len() == 0 && e == SecretError::EmptyShellCommand,
        },
{
    let command = trim_str(line);
    if command.unicode_len() == 0 {
        Err(SecretError::EmptyShellCommand)
    } else {
        Ok(command)
    }
}

} // verus!

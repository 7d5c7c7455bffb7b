//! The command that runs in a new terminal.
use vstd::prelude::*;
use crate::text::words::{split_whitespace, texts, words};

verus! {

/// A program and its arguments.
pub struct CommandLine {
    pub program: String,
    pub args: Vec<String>,
}

impl CommandLine {
    /// The program, and behind it the arguments.
    pub open spec fn words(&self) -> Seq<Seq<char>> {
        seq![self.program@] + texts(self.args@)
    }
}

/// The command for new terminals, where one was chosen. The first choice stands.
pub struct DefaultCommand {
    command: Option<String>,
}

impl View for DefaultCommand {
    type V = Option<Seq<char>>;

    closed spec fn view(&self) -> Option<Seq<char>> {
        match self.command {
            Some(command) => Some(command@),
            None => None,
        }
    }
}

impl DefaultCommand {
    /// No command has been chosen.
    pub fn new() -> (choice: Self)
        ensures
            choice@ is None,
    {
        DefaultCommand { command: None }
    }
}

/// The choice after one more command was put forward.
pub open spec fn chosen_after(choice: Option<Seq<char>>, cmd: Seq<char>) -> Option<Seq<char>> {
    match choice {
        Some(command) => Some(command),
        None => Some(cmd),
    }
}

/// Chooses the command for new terminals, unless one has been chosen before.
pub fn set_default_command(choice: &mut DefaultCommand, cmd: String)
    ensures
        final(choice)@ == chosen_after(old(choice)@, cmd@),
{
    if choice.command.is_none() {
        choice.command = Some(cmd);
    }
}

/// The command for new terminals, where one was chosen.
pub fn get_default_command(choice: &DefaultCommand) -> (cmd: Option<&str>)
    ensures
        match cmd {
            Some(command) => choice@ == Some(command@),
            None => choice@ is None,
        },
{
    match &choice.command {
        Some(command) => Some(command.as_str()),
        None => None,
    }
}

/// The words of the command for a new terminal: the chosen command where it has any, or else the
/// login program.
pub open spec fn launch_words(chosen: Option<Seq<char>>) -> Seq<Seq<char>> {
    match chosen {
        Some(command) => if words(command).len() > 0 {
            words(command)
        } else {
            seq!["login"@]
        },
        None => seq!["login"@],
    }
}

/// The command for a new terminal.
pub fn launch_command(choice: &DefaultCommand) -> (line: CommandLine)
    ensures
        line.words() == launch_words(choice@),
{
    if let Some(command) = get_default_command(choice) {
        let mut parts = split_whitespace(command);
        if parts.len() > 0 {
            let ghost all = texts(parts@);
            let program = parts.remove(0);
            assert(seq![program@] + texts(parts@) =~= all);
            return CommandLine { program, args: parts };
        }
    }
    let line = CommandLine { program: String::from_str("login"), args: Vec::new() };
    assert(line.words() =~= seq!["login"@]);
    line
}

/// The command that runs a text of the user in the shell.
pub fn shell_command(shell: &str, command: &str) -> (line: CommandLine)
    ensures
        line.words() == seq![shell@, "-c"@, command@],
{
    let mut args: Vec<String> = Vec::new();
    args.push(String::from_str("-c"));
    args.push(String::from_str(command));
    let line = CommandLine { program: String::from_str(shell), args };
    assert(line.words() =~= seq![shell@, "-c"@, command@]);
    line
}

/// The first command that is chosen stays, whatever is chosen later.
pub proof fn law_first_choice_stands(chosen: Seq<char>, later: Seq<char>)
    ensures
        chosen_after(chosen_after(None, chosen), later) == Some(chosen),
{
}

} // verus!

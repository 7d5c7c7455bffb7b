//! Running one command and answering with what it printed.
use vstd::prelude::*;
use vstd::utf8::{decode_utf8, encode_utf8, valid_utf8};
use crate::terminal::command::{shell_command, CommandLine};
use crate::terminal::types::{
    CommandResponse,
    ExecuteCommandOption,
    Reply,
    ReplyView,
    TerminalSize,
};
use crate::text::unicode::{from_utf8_lossy, lossy_text};

verus! {

/// How long a command may take, in nanoseconds.
pub const COMMAND_TIMEOUT_NANOS: u128 = 30_000_000_000;

/// A compiled regular expression.
#[verifier::external_type_specification]
#[verifier::external_body]
pub struct ExRegex(regex::Regex);

/// Why a regular expression was not compiled.
#[verifier::external_type_specification]
#[verifier::external_body]
pub struct ExRegexError(regex::Error);

/// The pattern that a regular expression was compiled from.
pub uninterp spec fn compiled_from(regex: regex::Regex) -> Seq<char>;

/// `text` with every match of `pattern` replaced by `replacement`.
pub uninterp spec fn regex_replaced(
    pattern: Seq<char>,
    text: Seq<char>,
    replacement: Seq<char>,
) -> Seq<char>;

/// The escape sequences that a terminal would act upon: colours, and clearing or moving within
/// the screen. Each begins with the escape character.
pub open spec fn ansi_pattern() -> Seq<char> {
    "\\x1B\\[([0-9]{1,2}(;[0-9]{1,2})?)?[m|K]|\\x1B\\[[0-9]+[A-Za-z]"@
}

/// `regex::Regex::new`: compiles a pattern. The pattern for escape sequences is a valid one, far
/// below the size limit; of other patterns it is left open whether they compile.
#[verifier::external_body]
fn regex_new(pattern: &str) -> (result: Result<regex::Regex, regex::Error>)
    ensures
        result matches Ok(regex) ==> compiled_from(regex) == pattern@,
        pattern@ == ansi_pattern() ==> result is Ok,
{
    regex::Regex::new(pattern)
}

/// `regex::Regex::replace_all`: replaces every match. A text without a match comes back as it is,
/// and where no escape character stands there is no escape sequence.
#[verifier::external_body]
fn regex_replace_all(regex: &regex::Regex, text: &str, replacement: &str) -> (replaced: String)
    ensures
        replaced@ == regex_replaced(compiled_from(*regex), text@, replacement@),
        compiled_from(*regex) == ansi_pattern() && !text@.contains('\u{1b}') ==> replaced@ == text@,
{
    regex.replace_all(text, replacement).into_owned()
}

/// A text without escape sequences.
pub fn strip_ansi(text: &str) -> (plain: String)
    ensures
        plain@ == regex_replaced(ansi_pattern(), text@, ""@),
        !text@.contains('\u{1b}') ==> plain@ == text@,
{
    match regex_new("\\x1B\\[([0-9]{1,2}(;[0-9]{1,2})?)?[m|K]|\\x1B\\[[0-9]+[A-Za-z]") {
        Ok(regex) => regex_replace_all(&regex, text, ""),
        Err(_) => String::new(),
    }
}

/// The size of the terminal in which a command runs.
pub fn command_size() -> (size: TerminalSize)
    ensures
        size == (TerminalSize { rows: 24, cols: 80 }),
{
    TerminalSize { rows: 24, cols: 80 }
}

/// The directory that a request names, in either of its fields.
pub open spec fn named_directory(options: ExecuteCommandOption) -> Seq<char> {
    match (options.cwd, options.u_cwd) {
        (Some(cwd), _) => cwd@,
        (None, Some(cwd)) => cwd@,
        (None, None) => Seq::empty(),
    }
}

/// The directory in which a command runs: the one that was named, or else the home directory, the
/// current one, or `.`.
pub open spec fn run_directory(
    named: Seq<char>,
    home: Option<Seq<char>>,
    current: Option<Seq<u8>>,
) -> Seq<u8> {
    if named.len() > 0 {
        encode_utf8(named)
    } else {
        match (home, current) {
            (Some(home), _) => encode_utf8(home),
            (None, Some(current)) => current,
            (None, None) => encode_utf8("."@),
        }
    }
}

/// The directory in which a command runs. `home` is the home directory where one is set as text,
/// `current` the current directory where it is known.
pub fn working_directory(
    options: &ExecuteCommandOption,
    home: Option<&str>,
    current: Option<&[u8]>,
) -> (directory: Vec<u8>)
    ensures
        directory@ == run_directory(
            named_directory(*options),
            match home {
                Some(h) => Some(h@),
                None => None,
            },
            match current {
                Some(c) => Some(c@),
                None => None,
            },
        ),
{
    let named: &str = match &options.cwd {
        Some(cwd) => cwd.as_str(),
        None => match &options.u_cwd {
            Some(cwd) => cwd.as_str(),
            None => "",
        },
    };
    proof {
        reveal_strlit("");
        assert(""@ =~= Seq::<char>::empty());
        crate::text::unicode::lemma_encode_empty(named@);
    }
    let bytes: &[u8] = if named.as_bytes().len() > 0 {
        named.as_bytes()
    } else {
        match home {
            Some(h) => h.as_bytes(),
            None => match current {
                Some(c) => c,
                None => ".".as_bytes(),
            },
        }
    };
    let mut directory: Vec<u8> = Vec::new();
    directory.extend_from_slice(bytes);
    assert(directory@ =~= bytes@);
    directory
}

/// The reply about a command, with its status.
pub fn command_reply(status: u16, output: String, error: Option<String>) -> (reply: Reply)
    ensures
        reply@ == (ReplyView::Command {
            status,
            output: output@,
            error: match error {
                Some(e) => Some(e@),
                None => None,
            },
        }),
{
    Reply::Command { status, body: CommandResponse { output, error } }
}

/// What is run for a request, or what is answered where its directory is not there.
pub fn execute_command(options: &ExecuteCommandOption, directory_exists: bool) -> (result: Result<
    CommandLine,
    Reply,
>)
    ensures
        match result {
            Ok(line) => directory_exists && line.words() == seq![
                "sh"@,
                "-c"@,
                options.command@,
            ],
            Err(reply) => !directory_exists && reply@ == (ReplyView::Command {
                status: 400,
                output: ""@,
                error: Some("Working directory does not exist"@),
            }),
        },
{
    if directory_exists {
        Ok(shell_command("sh", options.command.as_str()))
    } else {
        Err(
            command_reply(
                400,
                String::from_str(""),
                Some(String::from_str("Working directory does not exist")),
            ),
        )
    }
}

/// What the collecting of output waits for.
pub enum CollectEvent {
    /// The command printed something.
    Data(Vec<u8>),
    /// Nothing came for a while; with the time since the start in nanoseconds, where the clock
    /// did not go back.
    Quiet(Option<u128>),
    /// No more output will come.
    Ended,
}

/// What the collecting of output does next.
#[derive(Clone, Copy, Debug, PartialEq, Eq, Structural)]
pub enum CollectAction {
    /// Goes on, unless the process has ended.
    CheckProcess,
    /// Kills the process and gives up.
    GiveUp,
    /// Is done.
    Finish,
}

/// One event: the output so far, and what is done.
pub open spec fn collect_step(output: Seq<u8>, event: CollectEvent) -> (Seq<u8>, CollectAction) {
    match event {
        CollectEvent::Data(data) => (output + data@, CollectAction::CheckProcess),
        CollectEvent::Quiet(elapsed) => (
            output,
            if elapsed matches Some(nanos) && nanos > COMMAND_TIMEOUT_NANOS {
                CollectAction::GiveUp
            } else {
                CollectAction::CheckProcess
            },
        ),
        CollectEvent::Ended => (output, CollectAction::Finish),
    }
}

/// The output of a command as far as it has come.
pub struct Collector {
    output: Vec<u8>,
}

impl View for Collector {
    type V = Seq<u8>;

    closed spec fn view(&self) -> Seq<u8> {
        self.output@
    }
}

impl Collector {
    /// Nothing has come yet.
    pub fn new() -> (collector: Self)
        ensures
            collector@ == Seq::<u8>::empty(),
    {
        Collector { output: Vec::new() }
    }

    /// What is done about one event.
    pub fn step(&mut self, event: CollectEvent) -> (action: CollectAction)
        ensures
            (final(self)@, action) == collect_step(old(self)@, event),
    {
        match event {
            CollectEvent::Data(data) => {
                let mut data = data;
                self.output.append(&mut data);
                CollectAction::CheckProcess
            },
            CollectEvent::Quiet(elapsed) => match elapsed {
                Some(nanos) => if nanos > COMMAND_TIMEOUT_NANOS {
                    CollectAction::GiveUp
                } else {
                    CollectAction::CheckProcess
                },
                None => CollectAction::CheckProcess,
            },
            CollectEvent::Ended => CollectAction::Finish,
        }
    }

    /// All that has come.
    pub fn into_output(self) -> (output: Vec<u8>)
        ensures
            output@ == self@,
    {
        self.output
    }
}

/// Whether the collecting goes on after an action, given whether the process has ended by then.
pub fn collecting_goes_on(action: CollectAction, process_ended: bool) -> (on: bool)
    ensures
        on == (action == CollectAction::CheckProcess && !process_ended),
{
    match action {
        CollectAction::CheckProcess => !process_ended,
        CollectAction::GiveUp => false,
        CollectAction::Finish => false,
    }
}

/// Why a command that took too long has no output, given whether it could be killed.
pub fn timeout_error(killed: Result<(), String>) -> (error: String)
    ensures
        error@ == (match killed {
            Ok(_) => "Command execution timed out"@,
            Err(e) => e@,
        }),
{
    match killed {
        Ok(_) => String::from_str("Command execution timed out"),
        Err(e) => e,
    }
}

/// What is answered about a command, given its output without escape sequences, or why there is
/// none, or nothing at all where running it broke down.
pub open spec fn outcome_reply(outcome: Option<Result<Seq<char>, Seq<char>>>) -> ReplyView {
    match outcome {
        Some(Ok(plain)) => ReplyView::Command { status: 200, output: plain, error: None },
        Some(Err(error)) => ReplyView::Command { status: 500, output: ""@, error: Some(error) },
        None => ReplyView::Command {
            status: 500,
            output: ""@,
            error: Some("Internal server error"@),
        },
    }
}

/// What is answered about a command, given its output without escape sequences.
pub fn plain_reply(outcome: Option<Result<String, String>>) -> (reply: Reply)
    ensures
        reply@ == outcome_reply(
            match outcome {
                Some(Ok(plain)) => Some(Ok(plain@)),
                Some(Err(error)) => Some(Err(error@)),
                None => None,
            },
        ),
{
    match outcome {
        Some(Ok(plain)) => command_reply(200, plain, None),
        Some(Err(error)) => command_reply(500, String::from_str(""), Some(error)),
        None => command_reply(
            500,
            String::from_str(""),
            Some(String::from_str("Internal server error")),
        ),
    }
}

/// What is answered about a command, given the bytes that it printed, or why there are none, or
/// nothing at all where running it broke down.
pub fn output_reply(outcome: Option<Result<Vec<u8>, String>>) -> (reply: Reply)
    ensures
        reply@ == outcome_reply(
            match outcome {
                Some(Ok(output)) => Some(
                    Ok(regex_replaced(ansi_pattern(), lossy_text(output@), ""@)),
                ),
                Some(Err(error)) => Some(Err(error@)),
                None => None,
            },
        ),
        outcome matches Some(Ok(output)) ==> (valid_utf8(output@) ==> reply@ == outcome_reply(
            Some(Ok(regex_replaced(ansi_pattern(), decode_utf8(output@), ""@))),
        )),
        outcome matches Some(Ok(output)) ==> (valid_utf8(output@) && !decode_utf8(
            output@,
        ).contains('\u{1b}') ==> (reply matches Reply::Command { status, body } && body.output@
            == decode_utf8(output@))),
{
    match outcome {
        Some(Ok(output)) => {
            let text = from_utf8_lossy(output.as_slice());
            plain_reply(Some(Ok(strip_ansi(text.as_str()))))
        },
        Some(Err(error)) => plain_reply(Some(Err(error))),
        None => plain_reply(None),
    }
}

/// What a series of events leaves as output.
pub open spec fn collected(output: Seq<u8>, events: Seq<CollectEvent>) -> Seq<u8>
    decreases events.len(),
{
    if events.len() == 0 {
        output
    } else {
        collected(collect_step(output, events[0]).0, events.skip(1))
    }
}

/// All that a command printed over a series of events.
pub open spec fn printed(events: Seq<CollectEvent>) -> Seq<u8>
    decreases events.len(),
{
    if events.len() == 0 {
        Seq::empty()
    } else {
        match events[0] {
            CollectEvent::Data(data) => data@ + printed(events.skip(1)),
            _ => printed(events.skip(1)),
        }
    }
}

/// The output holds everything that the command printed, in its order, and nothing else.
pub proof fn law_all_output_is_collected(output: Seq<u8>, events: Seq<CollectEvent>)
    ensures
        collected(output, events) == output + printed(events),
    decreases events.len(),
{
    if events.len() > 0 {
        law_all_output_is_collected(collect_step(output, events[0]).0, events.skip(1));
    }
    assert(collected(output, events) =~= output + printed(events));
}

} // verus!

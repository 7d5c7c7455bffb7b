//! Creating, resizing and terminating terminals.
use vstd::prelude::*;
use vstd::utf8::encode_utf8;
use crate::terminal::command::{launch_command, launch_words, CommandLine, DefaultCommand};
use crate::terminal::sessions::SessionTable;
use crate::terminal::types::{refused, Reply, ReplyView, TerminalOptions, TerminalSize};
use crate::text::numerals::{decimal, decimal_string, lemma_decimal_is_read_back, unsigned_value};
use crate::utils::{json_text, json_unsigned, parse_u16, result_view, u16_field};

verus! {

/// The size that a request asks for, or what is wrong with it. Rows are looked at first.
pub open spec fn requested_size(
    rows: Result<u16, Seq<char>>,
    cols: Result<u16, Seq<char>>,
) -> Result<TerminalSize, Seq<char>> {
    match (rows, cols) {
        (Err(message), _) => Err(message),
        (Ok(_), Err(message)) => Err(message),
        (Ok(rows), Ok(cols)) => Ok(TerminalSize { rows, cols }),
    }
}

/// The size that a request asks for, given what was read of its fields.
pub fn size_of_fields(rows: Result<u16, String>, cols: Result<u16, String>) -> (size: Result<
    TerminalSize,
    String,
>)
    ensures
        result_view(size) == requested_size(result_view(rows), result_view(cols)),
{
    match rows {
        Err(message) => Err(message),
        Ok(rows) => match cols {
            Err(message) => Err(message),
            Ok(cols) => Ok(TerminalSize { rows, cols }),
        },
    }
}

/// The size that a request asks for, or what is wrong with it.
pub fn terminal_size(options: &TerminalOptions) -> (size: Result<TerminalSize, String>)
    ensures
        result_view(size) == requested_size(
            u16_field(json_unsigned(options.rows), json_text(options.rows), "rows"@),
            u16_field(json_unsigned(options.cols), json_text(options.cols), "cols"@),
        ),
{
    size_of_fields(parse_u16(&options.rows, "rows"), parse_u16(&options.cols, "cols"))
}

/// The terminal that a request asks for: its size, and the command that runs in it.
pub struct NewTerminal {
    pub size: TerminalSize,
    pub command: CommandLine,
}

/// The terminal that a request asks for, or what is wrong with the request.
pub fn new_terminal(options: &TerminalOptions, choice: &DefaultCommand) -> (result: Result<
    NewTerminal,
    String,
>)
    ensures
        match requested_size(
            u16_field(json_unsigned(options.rows), json_text(options.rows), "rows"@),
            u16_field(json_unsigned(options.cols), json_text(options.cols), "cols"@),
        ) {
            Ok(size) => result matches Ok(terminal) && terminal.size == size
                && terminal.command.words() == launch_words(choice@),
            Err(message) => result matches Err(text) && text@ == message,
        },
{
    match terminal_size(options) {
        Ok(size) => Ok(NewTerminal { size, command: launch_command(choice) }),
        Err(message) => Err(message),
    }
}

/// What came of one step on the way to a new terminal.
pub enum CreateEvent {
    /// The request was read.
    Requested,
    /// A pair of terminal ends was opened, or not.
    Opened(Result<(), String>),
    /// The command was started on the opened pair, or not.
    Started(Result<(), String>),
    /// The pair was opened and the command started in the other way, or not; with the reason why
    /// the first way failed.
    StartedOtherwise { open_error: String, result: Result<(), String> },
    /// The end from which output is read was cloned, or not.
    ReaderCloned(Result<(), String>),
    /// The end to which input is written was taken, or not.
    WriterTaken(Result<(), String>),
}

/// The next step on the way to a new terminal.
pub enum CreateAction {
    /// Opens a pair of terminal ends.
    Open,
    /// Starts the command on the opened pair.
    Start,
    /// Opens a pair and starts the command in the other way.
    StartOtherwise,
    /// Clones the end from which output is read.
    CloneReader,
    /// Takes the end to which input is written.
    TakeWriter,
    /// Enters the terminal in the table.
    Register,
    /// Gives up.
    Refuse(Reply),
    /// Kills the process, waits for it and gives up.
    KillAndRefuse(Reply),
}

/// A step with its words.
#[verifier::ext_equal]
pub enum CreateActionView {
    Open,
    Start,
    StartOtherwise,
    CloneReader,
    TakeWriter,
    Register,
    Refuse(Seq<char>),
    KillAndRefuse(Seq<char>),
}

/// The words of a refusal.
pub open spec fn refusal(reply: Reply) -> Seq<char> {
    match reply@ {
        ReplyView::Refused(error) => error,
        _ => Seq::empty(),
    }
}

impl View for CreateAction {
    type V = CreateActionView;

    open spec fn view(&self) -> CreateActionView {
        match *self {
            CreateAction::Open => CreateActionView::Open,
            CreateAction::Start => CreateActionView::Start,
            CreateAction::StartOtherwise => CreateActionView::StartOtherwise,
            CreateAction::CloneReader => CreateActionView::CloneReader,
            CreateAction::TakeWriter => CreateActionView::TakeWriter,
            CreateAction::Register => CreateActionView::Register,
            CreateAction::Refuse(reply) => CreateActionView::Refuse(refusal(reply)),
            CreateAction::KillAndRefuse(reply) => CreateActionView::KillAndRefuse(refusal(reply)),
        }
    }
}

/// Whether a step that gives up answers with a refusal.
pub open spec fn answers_properly(action: CreateAction) -> bool {
    match action {
        CreateAction::Refuse(reply) => reply is Refused,
        CreateAction::KillAndRefuse(reply) => reply is Refused,
        _ => true,
    }
}

/// The next step on the way to a new terminal. A command that could not be started is reported
/// at once; the other way is tried only where no pair could be opened.
pub open spec fn create_step(event: CreateEvent) -> CreateActionView {
    match event {
        CreateEvent::Requested => CreateActionView::Open,
        CreateEvent::Opened(Ok(_)) => CreateActionView::Start,
        CreateEvent::Opened(Err(_)) => CreateActionView::StartOtherwise,
        CreateEvent::Started(Ok(_)) => CreateActionView::CloneReader,
        CreateEvent::Started(Err(e)) => CreateActionView::Refuse(
            "Failed to spawn command: "@ + e@,
        ),
        CreateEvent::StartedOtherwise { result: Ok(_), .. } => CreateActionView::CloneReader,
        CreateEvent::StartedOtherwise { open_error, result: Err(e) } => CreateActionView::Refuse(
            "Failed to open PTY: "@ + open_error@ + "; TIOCGPTPEER fallback: "@ + e@,
        ),
        CreateEvent::ReaderCloned(Ok(_)) => CreateActionView::TakeWriter,
        CreateEvent::ReaderCloned(Err(e)) => CreateActionView::KillAndRefuse(
            "Failed to clone PTY reader: "@ + e@,
        ),
        CreateEvent::WriterTaken(Ok(_)) => CreateActionView::Register,
        CreateEvent::WriterTaken(Err(e)) => CreateActionView::KillAndRefuse(
            "Failed to take PTY writer: "@ + e@,
        ),
    }
}

/// The next step on the way to a new terminal.
pub fn create_terminal(event: CreateEvent) -> (action: CreateAction)
    ensures
        action@ == create_step(event),
        answers_properly(action),
{
    match event {
        CreateEvent::Requested => CreateAction::Open,
        CreateEvent::Opened(Ok(_)) => CreateAction::Start,
        CreateEvent::Opened(Err(_)) => CreateAction::StartOtherwise,
        CreateEvent::Started(Ok(_)) => CreateAction::CloneReader,
        CreateEvent::Started(Err(e)) => CreateAction::Refuse(
            refused(String::from_str("Failed to spawn command: ").concat(e.as_str())),
        ),
        CreateEvent::StartedOtherwise { open_error, result } => match result {
            Ok(_) => CreateAction::CloneReader,
            Err(e) => CreateAction::Refuse(
                refused(
                    String::from_str("Failed to open PTY: ").concat(open_error.as_str()).concat(
                        "; TIOCGPTPEER fallback: ",
                    ).concat(e.as_str()),
                ),
            ),
        },
        CreateEvent::ReaderCloned(Ok(_)) => CreateAction::TakeWriter,
        CreateEvent::ReaderCloned(Err(e)) => CreateAction::KillAndRefuse(
            refused(String::from_str("Failed to clone PTY reader: ").concat(e.as_str())),
        ),
        CreateEvent::WriterTaken(Ok(_)) => CreateAction::Register,
        CreateEvent::WriterTaken(Err(e)) => CreateAction::KillAndRefuse(
            refused(String::from_str("Failed to take PTY writer: ").concat(e.as_str())),
        ),
    }
}

/// The number under which a process is entered, nought where it has none.
pub open spec fn entered_as(process: Option<u32>) -> u32 {
    match process {
        Some(pid) => pid,
        None => 0,
    }
}

/// Enters a new terminal in the table. Gives the number of its session, the number of the session
/// that stood under the same process number, and what is answered.
pub fn register_terminal(table: &mut SessionTable, process: Option<u32>) -> (registered: (
    u64,
    Option<u64>,
    Reply,
))
    requires
        old(table).wf(),
        old(table).issued() < u64::MAX,
    ensures
        final(table).wf(),
        final(table)@ == old(table)@.insert(entered_as(process), registered.0),
        final(table).issued() == old(table).issued() + 1,
        registered.0 == old(table).issued(),
        registered.1 == old(table)@.get(entered_as(process)),
        registered.2@ == ReplyView::Created(decimal(entered_as(process) as nat)),
{
    let pid: u32 = match process {
        Some(pid) => pid,
        None => 0,
    };
    let (session, displaced) = table.insert(pid);
    (session, displaced, Reply::Created(decimal_string(pid as u64)))
}

/// What is done about a request to resize a terminal.
pub enum ResizeAction {
    /// The terminal of this session gets this size.
    Resize { session: u64, size: TerminalSize },
    /// There is no such terminal.
    Refuse(Reply),
}

/// What is done about a request to resize a terminal.
pub fn resize_terminal(table: &SessionTable, pid: u32, size: TerminalSize) -> (action: ResizeAction)
    ensures
        match table@.get(pid) {
            Some(session) => action == (ResizeAction::Resize { session, size }),
            None => action matches ResizeAction::Refuse(reply) && reply@ == ReplyView::Refused(
                "Session not found"@,
            ),
        },
{
    match table.get(pid) {
        Some(session) => ResizeAction::Resize { session, size },
        None => ResizeAction::Refuse(refused(String::from_str("Session not found"))),
    }
}

/// What is answered once a terminal has been resized, or not.
pub fn resize_reply(result: Result<(), String>) -> (reply: Reply)
    ensures
        reply@ == (match result {
            Ok(_) => ReplyView::Success,
            Err(e) => ReplyView::Refused("Failed to resize: "@ + e@),
        }),
{
    match result {
        Ok(_) => Reply::Success,
        Err(e) => refused(String::from_str("Failed to resize: ").concat(e.as_str())),
    }
}

/// What is done about a request to terminate a terminal.
pub enum TerminateAction {
    /// The process of this session is killed, and what was kept of its output is removed.
    Kill(u64),
    /// There is no such terminal.
    Refuse(Reply),
}

/// Takes a terminal out of the table, and says what is to be done about it.
pub fn terminate_terminal(table: &mut SessionTable, pid: u32) -> (action: TerminateAction)
    ensures
        old(table).wf() ==> final(table).wf(),
        final(table)@ == old(table)@.remove(pid),
        final(table).issued() == old(table).issued(),
        match old(table)@.get(pid) {
            Some(session) => action == TerminateAction::Kill(session),
            None => action matches TerminateAction::Refuse(reply) && reply@ == ReplyView::Refused(
                "Session not found"@,
            ),
        },
{
    match table.remove(pid) {
        Some(session) => TerminateAction::Kill(session),
        None => TerminateAction::Refuse(refused(String::from_str("Session not found"))),
    }
}

/// What is answered once the process of a terminal has been killed, or not.
pub fn terminate_reply(pid: u32, result: Result<(), String>) -> (reply: Reply)
    ensures
        reply@ == (match result {
            Ok(_) => ReplyView::Success,
            Err(e) => ReplyView::Refused(
                "Failed to terminate terminal "@ + decimal(pid as nat) + ": "@ + e@,
            ),
        }),
{
    match result {
        Ok(_) => Reply::Success,
        Err(e) => refused(
            String::from_str("Failed to terminate terminal ").concat(
                decimal_string(pid as u64).as_str(),
            ).concat(": ").concat(e.as_str()),
        ),
    }
}

/// What comes of each step on the way to a new terminal, should it be taken.
pub ghost struct Answers {
    pub opened: Result<(), String>,
    pub started: Result<(), String>,
    pub started_otherwise: Result<(), String>,
    pub reader: Result<(), String>,
    pub writer: Result<(), String>,
}

/// The event that a step leads to.
pub open spec fn answer(action: CreateActionView, answers: Answers) -> Option<CreateEvent> {
    match action {
        CreateActionView::Open => Some(CreateEvent::Opened(answers.opened)),
        CreateActionView::Start => Some(CreateEvent::Started(answers.started)),
        CreateActionView::StartOtherwise => match answers.opened {
            Err(open_error) => Some(
                CreateEvent::StartedOtherwise { open_error, result: answers.started_otherwise },
            ),
            Ok(_) => None,
        },
        CreateActionView::CloneReader => Some(CreateEvent::ReaderCloned(answers.reader)),
        CreateActionView::TakeWriter => Some(CreateEvent::WriterTaken(answers.writer)),
        _ => None,
    }
}

/// How the way to a new terminal ends, after at most `steps` more steps.
pub open spec fn creation(event: CreateEvent, answers: Answers, steps: nat) -> CreateActionView
    decreases steps,
{
    let action = create_step(event);
    match answer(action, answers) {
        Some(next) => if steps > 0 {
            creation(next, answers, (steps - 1) as nat)
        } else {
            action
        },
        None => action,
    }
}

/// Whether a process is started on the way.
pub open spec fn process_started(answers: Answers) -> bool {
    if answers.opened is Ok {
        answers.started is Ok
    } else {
        answers.started_otherwise is Ok
    }
}

/// A terminal is entered in the table exactly where a process was started and both of its ends
/// can be used; a process that was started is otherwise killed, and where none was started nothing
/// is killed.
pub proof fn law_no_process_is_left_behind(answers: Answers)
    ensures
        ({
            let end = creation(CreateEvent::Requested, answers, 4);
            &&& end is Register <==> process_started(answers) && answers.reader is Ok
                && answers.writer is Ok
            &&& end is KillAndRefuse <==> process_started(answers) && !(answers.reader is Ok
                && answers.writer is Ok)
            &&& end is Refuse <==> !process_started(answers)
        }),
{
    reveal_with_fuel(creation, 6);
}

/// The number that is answered for a new terminal finds it, until it is terminated; then nothing
/// is found under it, and every other terminal is where it was.
pub proof fn law_terminals_are_found_until_terminated(
    table: Map<u32, u64>,
    process: Option<u32>,
    session: u64,
)
    ensures
        ({
            let pid = entered_as(process);
            let created = table.insert(pid, session);
            &&& unsigned_value(encode_utf8(decimal(pid as nat))) == Some(pid as nat)
            &&& created.get(pid) == Some(session)
            &&& created.remove(pid).get(pid) is None
            &&& forall|other: u32| other != pid ==> #[trigger] created.remove(pid).get(other)
                == table.get(other)
        }),
{
    lemma_decimal_is_read_back(entered_as(process) as nat);
}

} // verus!

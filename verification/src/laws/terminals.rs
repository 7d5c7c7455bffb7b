//! Creating terminals, finding them again, and the fallback by which they are opened.
use vstd::prelude::*;
use vstd::utf8::encode_utf8;
use crate::laws::text::{lemma_blank, lemma_one_word};
use crate::terminal::command::{
    get_default_command,
    launch_command,
    set_default_command,
    shell_command,
    CommandLine,
    DefaultCommand,
};
use crate::terminal::handlers::{
    create_terminal,
    new_terminal,
    register_terminal,
    resize_reply,
    resize_terminal,
    size_of_fields,
    terminal_size,
    terminate_reply,
    terminate_terminal,
    CreateAction,
    CreateEvent,
    NewTerminal,
    ResizeAction,
    TerminateAction,
};
use crate::terminal::pty_fallback::{
    after_read,
    after_write,
    close_fds_above_stderr,
    end_of_input,
    failure,
    fallback_open_and_spawn,
    process_group_leader,
    FallbackAction,
    FallbackEvent,
    Stream,
    Transfer,
    WriterSlot,
};
use crate::terminal::sessions::{ExitState, SessionTable, TerminalSession};
use crate::terminal::types::{Reply, TerminalOptions, TerminalSize};
use crate::text::numerals::{decimal, lemma_decimal_is_read_back, unsigned_value};
use crate::text::words::{is_space, split_whitespace, texts};
use crate::utils::parse_u16;

verus! {

/// The words of a command line tell its program and its arguments.
proof fn lemma_line(line: CommandLine)
    ensures
        line.words().len() == line.args@.len() + 1,
        line.words()[0] == line.program@,
        forall|i: int| 0 <= i < line.args@.len() ==> line.words()[i + 1] == #[trigger] line.args@[i]@,
{
    assert forall|i: int| 0 <= i < line.args@.len() implies line.words()[i + 1]
        == #[trigger] line.args@[i]@ by {
        assert(texts(line.args@)[i] == line.args@[i]@);
    }
}

/// A chosen command that is not blank is what a new terminal runs: its first word is the program,
/// and its other words are the arguments.
pub proof fn law_chosen_command_is_run(
    choice: &DefaultCommand,
    command: &str,
    line: CommandLine,
    list: Vec<String>,
    at: int,
)
    requires
        call_ensures(get_default_command, (choice,), Some(command)),
        call_ensures(launch_command, (choice,), line),
        call_ensures(split_whitespace, (command,), list),
        0 <= at < command@.len(),
        !is_space(command@[at]),
    ensures
        list@.len() > 0,
        line.program@ == list@[0]@,
        line.args@.len() == list@.len() - 1,
        forall|i: int| 0 <= i < line.args@.len() ==> (#[trigger] line.args@[i])@ == list@[i + 1]@,
{
    lemma_blank(command@);
    lemma_line(line);
    assert(texts(list@).len() == list@.len());
    assert(texts(list@)[0] == list@[0]@);
    assert forall|i: int| 0 <= i < line.args@.len() implies (#[trigger] line.args@[i])@ == list@[i
        + 1]@ by {
        assert(texts(list@)[i + 1] == list@[i + 1]@);
        assert(line.words()[i + 1] == line.args@[i]@);
    }
}

/// A chosen command without white space is run as it is, without arguments.
pub proof fn law_chosen_program_is_run(choice: &DefaultCommand, command: &str, line: CommandLine)
    requires
        call_ensures(get_default_command, (choice,), Some(command)),
        call_ensures(launch_command, (choice,), line),
        command@.len() > 0,
        forall|i: int| 0 <= i < command@.len() ==> !is_space(#[trigger] command@[i]),
    ensures
        line.program@ == command@,
        line.args@.len() == 0,
{
    lemma_one_word(command@);
    lemma_line(line);
}

/// The login program is run where nothing was chosen, and where what was chosen is blank.
pub proof fn law_login_is_run_without_a_choice(
    choice: &DefaultCommand,
    chosen: Option<&str>,
    line: CommandLine,
)
    requires
        call_ensures(get_default_command, (choice,), chosen),
        call_ensures(launch_command, (choice,), line),
        chosen matches Some(command) ==> forall|i: int|
            0 <= i < command@.len() ==> is_space(#[trigger] command@[i]),
    ensures
        line.program@ == "login"@,
        line.args@.len() == 0,
{
    if let Some(command) = chosen {
        lemma_blank(command@);
    }
    lemma_line(line);
}

/// The first command that is chosen is the one that is found, whatever is chosen after it; before,
/// none is found.
pub proof fn law_first_chosen_command_is_found(
    fresh: DefaultCommand,
    before: Option<&str>,
    choice: &mut DefaultCommand,
    command: String,
    chosen: &mut DefaultCommand,
    later: String,
    found: Option<&str>,
    found_later: Option<&str>,
)
    requires
        call_ensures(DefaultCommand::new, (), fresh),
        call_ensures(get_default_command, (&fresh,), before),
        *choice == fresh,
        call_ensures(set_default_command, (choice, command), ()),
        *chosen == *final(choice),
        call_ensures(get_default_command, (&*final(choice),), found),
        call_ensures(set_default_command, (chosen, later), ()),
        call_ensures(get_default_command, (&*final(chosen),), found_later),
    ensures
        before is None,
        found matches Some(text) && text@ == command@,
        found_later matches Some(text) && text@ == command@,
{
}

/// The shell is given the user's text as it is, to be run as a command.
pub proof fn law_shell_runs_the_text(shell: &str, command: &str, line: CommandLine)
    requires
        call_ensures(shell_command, (shell, command), line),
    ensures
        line.program@ == shell@,
        line.args@.len() == 2,
        line.args@[0]@ == "-c"@,
        line.args@[1]@ == command@,
{
    lemma_line(line);
    assert(line.words()[1] == line.args@[0]@);
    assert(line.words()[2] == line.args@[1]@);
}

/// A request has a size exactly where both of its fields are numbers, and that is its size; where
/// one is not, it is refused for what is wrong with the rows, and else with the columns.
pub proof fn law_size_is_what_both_fields_say(
    options: &TerminalOptions,
    size: Result<TerminalSize, String>,
    rows: Result<u16, String>,
    cols: Result<u16, String>,
)
    requires
        call_ensures(terminal_size, (options,), size),
        call_ensures(parse_u16, (&options.rows, "rows"), rows),
        call_ensures(parse_u16, (&options.cols, "cols"), cols),
    ensures
        size is Ok <==> rows is Ok && cols is Ok,
        size matches Ok(s) ==> rows == Ok::<u16, String>(s.rows) && cols == Ok::<u16, String>(
            s.cols,
        ),
        rows matches Err(message) ==> (size matches Err(text) && text@ == message@),
        rows is Ok ==> (cols matches Err(message) ==> (size matches Err(text) && text@
            == message@)),
{
}

/// The same, of what was read of the fields.
pub proof fn law_size_of_fields_is_what_both_say(
    rows: Result<u16, String>,
    cols: Result<u16, String>,
    size: Result<TerminalSize, String>,
)
    requires
        call_ensures(size_of_fields, (rows, cols), size),
    ensures
        size is Ok <==> rows is Ok && cols is Ok,
        size matches Ok(s) ==> rows == Ok::<u16, String>(s.rows) && cols == Ok::<u16, String>(
            s.cols,
        ),
        rows matches Err(message) ==> (size matches Err(text) && text@ == message@),
        rows is Ok ==> (cols matches Err(message) ==> (size matches Err(text) && text@
            == message@)),
{
}

/// A new terminal has the size that was asked for and the command that is launched; it is refused
/// only for its size.
pub proof fn law_new_terminal_has_size_and_command(
    options: &TerminalOptions,
    choice: &DefaultCommand,
    result: Result<NewTerminal, String>,
    size: Result<TerminalSize, String>,
    line: CommandLine,
)
    requires
        call_ensures(new_terminal, (options, choice), result),
        call_ensures(terminal_size, (options,), size),
        call_ensures(launch_command, (choice,), line),
    ensures
        result is Ok <==> size is Ok,
        result matches Ok(terminal) ==> size == Ok::<TerminalSize, String>(terminal.size)
            && terminal.command.program@ == line.program@ && texts(terminal.command.args@) == texts(
            line.args@,
        ),
        result matches Err(text) ==> (size matches Err(message) && text@ == message@),
{
    if let Ok(terminal) = result {
        lemma_line(terminal.command);
        lemma_line(line);
        assert forall|i: int| 0 <= i < line.args@.len() implies texts(terminal.command.args@)[i]
            == #[trigger] texts(line.args@)[i] by {
            assert(terminal.command.words()[i + 1] == terminal.command.args@[i]@);
            assert(line.words()[i + 1] == line.args@[i]@);
        }
        assert(texts(terminal.command.args@) =~= texts(line.args@));
    }
}

/// A step that succeeded leads to the next one, in this order: open, start, clone the reader, take
/// the writer, register.
pub proof fn law_creation_goes_on_after_success(
    event: CreateEvent,
    action: CreateAction,
)
    requires
        call_ensures(create_terminal, (event,), action),
    ensures
        action is Open <==> event is Requested,
        action is Start <==> event matches CreateEvent::Opened(Ok(_)),
        action is StartOtherwise <==> event matches CreateEvent::Opened(Err(_)),
        action is CloneReader <==> event matches CreateEvent::Started(Ok(_)) || (event matches CreateEvent::StartedOtherwise {
            result,
            ..
        } && result is Ok),
        action is TakeWriter <==> event matches CreateEvent::ReaderCloned(Ok(_)),
        action is Register <==> event matches CreateEvent::WriterTaken(Ok(_)),
        action is Refuse <==> event matches CreateEvent::Started(Err(_)) || (event matches CreateEvent::StartedOtherwise {
            result,
            ..
        } && result is Err),
        action is KillAndRefuse <==> event matches CreateEvent::ReaderCloned(Err(_))
            || event matches CreateEvent::WriterTaken(Err(_)),
{
}

/// Whoever is refused a terminal is told which step failed, and how.
pub proof fn law_refused_creation_says_why(event: CreateEvent, action: CreateAction)
    requires
        call_ensures(create_terminal, (event,), action),
    ensures
        event matches CreateEvent::Started(Err(e)) ==> (action matches CreateAction::Refuse(
            Reply::Refused(body),
        ) && body.error@ == "Failed to spawn command: "@ + e@),
        event matches CreateEvent::StartedOtherwise { open_error, result: Err(e) } ==> (
        action matches CreateAction::Refuse(Reply::Refused(body)) && body.error@
            == "Failed to open PTY: "@ + open_error@ + "; TIOCGPTPEER fallback: "@ + e@),
        event matches CreateEvent::ReaderCloned(Err(e)) ==> (
        action matches CreateAction::KillAndRefuse(Reply::Refused(body)) && body.error@
            == "Failed to clone PTY reader: "@ + e@),
        event matches CreateEvent::WriterTaken(Err(e)) ==> (
        action matches CreateAction::KillAndRefuse(Reply::Refused(body)) && body.error@
            == "Failed to take PTY writer: "@ + e@),
{
}

/// The number that is answered for a new terminal is that of its process, and finds the new
/// session; every other terminal is found as before.
pub proof fn law_created_terminal_is_found(
    table: &mut SessionTable,
    process: Option<u32>,
    registered: (u64, Option<u64>, Reply),
    pid: u32,
    other: u32,
    found: Option<u64>,
    found_other: Option<u64>,
    found_other_before: Option<u64>,
    found_before: Option<u64>,
)
    requires
        call_ensures(register_terminal, (table, process), registered),
        process matches Some(p) ==> pid == p,
        process is None ==> pid == 0,
        other != pid,
        call_ensures(SessionTable::get, (&*table, pid), found_before),
        call_ensures(SessionTable::get, (&*table, other), found_other_before),
        call_ensures(SessionTable::get, (&*final(table), pid), found),
        call_ensures(SessionTable::get, (&*final(table), other), found_other),
    ensures
        registered.2 matches Reply::Created(text) && unsigned_value(encode_utf8(text@)) == Some(
            pid as nat,
        ),
        found == Some(registered.0),
        found_other == found_other_before,
        registered.1 == found_before,
{
    lemma_decimal_is_read_back(pid as nat);
}

/// Two terminals that are created one after the other do not share a session.
pub proof fn law_new_sessions_are_new(
    table: &mut SessionTable,
    process: Option<u32>,
    first: (u64, Option<u64>, Reply),
    later: &mut SessionTable,
    other: Option<u32>,
    second: (u64, Option<u64>, Reply),
)
    requires
        call_ensures(register_terminal, (table, process), first),
        *later == *final(table),
        call_ensures(register_terminal, (later, other), second),
    ensures
        first.0 != second.0,
{
}

/// A terminal that is terminated is killed once: the session that was found for it is killed, then
/// nothing is found under its number, and terminating it again is refused. Other terminals stay.
pub proof fn law_terminal_is_terminated_once(
    table: &mut SessionTable,
    pid: u32,
    found: Option<u64>,
    action: TerminateAction,
    later: &mut SessionTable,
    again: TerminateAction,
    other: u32,
    other_before: Option<u64>,
    other_after: Option<u64>,
)
    requires
        call_ensures(SessionTable::get, (&*table, pid), found),
        call_ensures(terminate_terminal, (table, pid), action),
        *later == *final(table),
        call_ensures(terminate_terminal, (later, pid), again),
        other != pid,
        call_ensures(SessionTable::get, (&*table, other), other_before),
        call_ensures(SessionTable::get, (&*final(table), other), other_after),
    ensures
        found matches Some(session) ==> action == TerminateAction::Kill(session),
        found is None ==> (action matches TerminateAction::Refuse(Reply::Refused(body))
            && body.error@ == "Session not found"@),
        again matches TerminateAction::Refuse(Reply::Refused(body)) && body.error@
            == "Session not found"@,
        other_after == other_before,
{
}

/// A terminal is resized exactly where it is found, to the size that was asked for.
pub proof fn law_found_terminals_are_resized(
    table: &SessionTable,
    pid: u32,
    size: TerminalSize,
    found: Option<u64>,
    action: ResizeAction,
)
    requires
        call_ensures(SessionTable::get, (table, pid), found),
        call_ensures(resize_terminal, (table, pid, size), action),
    ensures
        found matches Some(session) ==> action == (ResizeAction::Resize { session, size }),
        found is None ==> (action matches ResizeAction::Refuse(Reply::Refused(body))
            && body.error@ == "Session not found"@),
{
}

/// What was carried out is answered with success, and what was not with the reason.
pub proof fn law_outcomes_are_answered(
    result: Result<(), String>,
    pid: u32,
    resized: Reply,
    terminated: Reply,
)
    requires
        call_ensures(resize_reply, (result,), resized),
        call_ensures(terminate_reply, (pid, result), terminated),
    ensures
        resized is Success <==> result is Ok,
        terminated is Success <==> result is Ok,
        result matches Err(e) ==> (resized matches Reply::Refused(body) && body.error@
            == "Failed to resize: "@ + e@),
        result matches Err(e) ==> (terminated matches Reply::Refused(body) && body.error@
            == "Failed to terminate terminal "@ + decimal(pid as nat) + ": "@ + e@),
{
}

/// A table is empty in the beginning, gives out numbers while there are any, and keeps them apart.
pub proof fn law_table_starts_empty(table: SessionTable, pid: u32, found: Option<u64>, room: bool)
    requires
        call_ensures(SessionTable::new, (), table),
        call_ensures(SessionTable::get, (&table, pid), found),
        call_ensures(SessionTable::has_room, (&table,), room),
    ensures
        found is None,
        room,
{
}

/// What is entered is found, and no longer once it is taken out.
pub proof fn law_entries_are_found_until_taken_out(
    table: &mut SessionTable,
    pid: u32,
    numbers: (u64, Option<u64>),
    entered: &mut SessionTable,
    found: Option<u64>,
    taken: Option<u64>,
    found_after: Option<u64>,
)
    requires
        call_ensures(SessionTable::insert, (table, pid), numbers),
        *entered == *final(table),
        call_ensures(SessionTable::get, (&*final(table), pid), found),
        call_ensures(SessionTable::remove, (entered, pid), taken),
        call_ensures(SessionTable::get, (&*final(entered), pid), found_after),
    ensures
        found == Some(numbers.0),
        taken == Some(numbers.0),
        found_after is None,
{
}

/// A process ended well exactly where it was waited for and said so.
pub proof fn law_exit_is_noted(exit: &mut ExitState, waited: Option<bool>, session: TerminalSession)
    requires
        call_ensures(ExitState::exited, (exit, waited), ()),
        call_ensures(TerminalSession::new, (), session),
    ensures
        session.exit.status is None,
        final(exit).status is Some,
        final(exit).status == Some(true) <==> waited == Some(true),
{
}

/// A step of the fallback that succeeded leads to the next one; setting the size does in any case.
pub proof fn law_fallback_goes_on_after_success(
    program: &str,
    event: FallbackEvent,
    action: FallbackAction,
)
    requires
        call_ensures(fallback_open_and_spawn, (program, event), action),
    ensures
        action is OpenMaster <==> event is Begun,
        action is Grant <==> event matches FallbackEvent::MasterOpened(Ok(_)),
        action is Unlock <==> event matches FallbackEvent::Granted(Ok(_)),
        action is OpenSlave <==> event matches FallbackEvent::Unlocked(Ok(_)),
        action is SetSize <==> event matches FallbackEvent::SlaveOpened(Ok(_)),
        action == FallbackAction::Duplicate(Stream::Stdin) <==> event is SizeSet,
        action == FallbackAction::Duplicate(Stream::Stdout) <==> (
        event matches FallbackEvent::Duplicated { stream, result } && stream == Stream::Stdin
            && result is Ok),
        action == FallbackAction::Duplicate(Stream::Stderr) <==> (
        event matches FallbackEvent::Duplicated { stream, result } && stream == Stream::Stdout
            && result is Ok),
        action is Spawn <==> (event matches FallbackEvent::Duplicated { stream, result } && stream
            == Stream::Stderr && result is Ok),
        action is Done <==> event matches FallbackEvent::Spawned(Ok(_)),
{
}

/// A step of the fallback that failed is reported by the name of its call and what the system said.
pub proof fn law_fallback_reports_the_call(
    program: &str,
    event: FallbackEvent,
    action: FallbackAction,
)
    requires
        call_ensures(fallback_open_and_spawn, (program, event), action),
    ensures
        event matches FallbackEvent::MasterOpened(Err(e)) ==> (action matches FallbackAction::Fail(
            text,
        ) && text@ == "open(/dev/ptmx)"@ + " failed: "@ + e@),
        event matches FallbackEvent::Granted(Err(e)) ==> (action matches FallbackAction::Fail(text)
            && text@ == "grantpt"@ + " failed: "@ + e@),
        event matches FallbackEvent::Unlocked(Err(e)) ==> (action matches FallbackAction::Fail(text)
            && text@ == "unlockpt"@ + " failed: "@ + e@),
        event matches FallbackEvent::SlaveOpened(Err(e)) ==> (action matches FallbackAction::Fail(
            text,
        ) && text@ == "ioctl(TIOCGPTPEER)"@ + " failed: "@ + e@),
        event matches FallbackEvent::Duplicated { stream, result: Err(e) } ==> (
        action matches FallbackAction::Fail(text) && text@ == "dup(slave_fd)"@ + " failed: "@ + e@),
        event matches FallbackEvent::Spawned(Err(e)) ==> (action matches FallbackAction::Fail(text)
            && text@ == "spawn '"@ + program@ + "'"@ + " failed: "@ + e@),
{
}

/// A report names the call and ends with what the system said.
pub proof fn law_reports_name_the_call(call: &str, error: &str, report: String)
    requires
        call_ensures(failure, (call, error), report),
    ensures
        report@ == call@ + " failed: "@ + error@,
{
}

/// Bytes that went through are counted. A call that a signal interrupted (error 4) is made again. A
/// far end that is closed (error 5) ends the reading, but not the writing; any other error fails.
pub proof fn law_transfers_are_judged(
    count: isize,
    errno: Option<i32>,
    read: Transfer,
    written: Transfer,
)
    requires
        call_ensures(after_read, (count, errno), read),
        call_ensures(after_write, (count, errno), written),
    ensures
        count >= 0 ==> read == Transfer::Done(count as usize) && written == Transfer::Done(
            count as usize,
        ),
        count < 0 ==> (read is Again <==> errno == Some(4i32)) && (written is Again <==> errno
            == Some(4i32)),
        count < 0 && errno == Some(5i32) ==> read == Transfer::Done(0) && written is Failed,
        count < 0 && errno != Some(4i32) && errno != Some(5i32) ==> read is Failed && written
            is Failed,
{
}

/// The writer can be taken once and no more.
pub proof fn law_writer_is_taken_once(
    fresh: WriterSlot,
    slot: &mut WriterSlot,
    first: Result<(), String>,
    later: &mut WriterSlot,
    second: Result<(), String>,
)
    requires
        call_ensures(WriterSlot::new, (), fresh),
        *slot == fresh,
        call_ensures(WriterSlot::take_writer, (slot,), first),
        *later == *final(slot),
        call_ensures(WriterSlot::take_writer, (later,), second),
    ensures
        first is Ok,
        second matches Err(error) && error@ == "cannot take writer more than once"@,
{
}

/// A process group has a leader exactly where the system gave a positive number, which is its own.
pub proof fn law_leaders_have_positive_numbers(pid: i32, leader: Option<i32>)
    requires
        call_ensures(process_group_leader, (pid,), leader),
    ensures
        leader is Some <==> pid > 0,
        leader matches Some(p) ==> p == pid,
{
}

/// The input is ended with a new line and the character for that, where there is one.
pub proof fn law_input_is_ended(eot: u8, bytes: Option<[u8; 2]>)
    requires
        call_ensures(end_of_input, (eot,), bytes),
    ensures
        bytes is Some <==> eot != 0,
        bytes matches Some(pair) ==> pair@.len() == 2 && pair@[0] == 10 && pair@[1] == eot,
{
}

/// Descriptors are closed one by one only where they were not closed at once: up to the limit where
/// there is one, and else up to 1024.
pub proof fn law_descriptors_are_closed_up_to_the_limit(
    all_closed: bool,
    limit: Option<u64>,
    no_limit: u64,
    below: Option<u64>,
)
    requires
        call_ensures(close_fds_above_stderr, (all_closed, limit, no_limit), below),
    ensures
        below is None <==> all_closed,
        !all_closed && (limit matches Some(n) && n != no_limit) ==> below == limit,
        !all_closed && (limit is None || limit == Some(no_limit)) ==> below == Some(1024u64),
{
}

} // verus!

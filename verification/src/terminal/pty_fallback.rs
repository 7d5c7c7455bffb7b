//! Opening a terminal where the usual way is barred: the far end is asked for directly from the
//! near end, without a path to it.
use vstd::prelude::*;

verus! {

/// The request by which the far end of a terminal is had from the near end.
pub const TIOCGPTPEER: u64 = 0x5441;

/// The error number of a call that a signal interrupted.
pub const EINTR: i32 = 4;

/// The error number of reading from a terminal whose far end is closed.
pub const EIO: i32 = 5;

/// How many descriptors are closed at most where the system sets no limit.
pub const DEFAULT_FD_LIMIT: u64 = 1024;

/// The three streams of a process.
#[derive(Clone, Copy, Debug, PartialEq, Eq, Structural)]
pub enum Stream {
    Stdin,
    Stdout,
    Stderr,
}

/// What came of one step. Failures carry what the system said.
pub enum FallbackEvent {
    Begun,
    MasterOpened(Result<(), String>),
    Granted(Result<(), String>),
    Unlocked(Result<(), String>),
    SlaveOpened(Result<(), String>),
    SizeSet(Result<(), String>),
    Duplicated { stream: Stream, result: Result<(), String> },
    Spawned(Result<(), String>),
}

/// The next step.
pub enum FallbackAction {
    /// Opens the near end.
    OpenMaster,
    /// Grants access to the far end.
    Grant,
    /// Unlocks the far end.
    Unlock,
    /// Asks for the far end.
    OpenSlave,
    /// Sets the size.
    SetSize,
    /// Duplicates the far end for one stream of the process.
    Duplicate(Stream),
    /// Starts the process on the three duplicates.
    Spawn,
    /// Is done.
    Done,
    /// Gives up.
    Fail(String),
}

/// A step with its words.
#[verifier::ext_equal]
pub enum FallbackActionView {
    OpenMaster,
    Grant,
    Unlock,
    OpenSlave,
    SetSize,
    Duplicate(Stream),
    Spawn,
    Done,
    Fail(Seq<char>),
}

impl View for FallbackAction {
    type V = FallbackActionView;

    open spec fn view(&self) -> FallbackActionView {
        match *self {
            FallbackAction::OpenMaster => FallbackActionView::OpenMaster,
            FallbackAction::Grant => FallbackActionView::Grant,
            FallbackAction::Unlock => FallbackActionView::Unlock,
            FallbackAction::OpenSlave => FallbackActionView::OpenSlave,
            FallbackAction::SetSize => FallbackActionView::SetSize,
            FallbackAction::Duplicate(stream) => FallbackActionView::Duplicate(stream),
            FallbackAction::Spawn => FallbackActionView::Spawn,
            FallbackAction::Done => FallbackActionView::Done,
            FallbackAction::Fail(error) => FallbackActionView::Fail(error@),
        }
    }
}

/// How a call that failed is reported.
pub open spec fn failed(call: Seq<char>, error: Seq<char>) -> Seq<char> {
    call + " failed: "@ + error
}

/// The step `next` where all went well, and otherwise the report on `call`.
pub open spec fn or_fail(
    result: Result<(), String>,
    call: Seq<char>,
    next: FallbackActionView,
) -> FallbackActionView {
    match result {
        Ok(_) => next,
        Err(error) => FallbackActionView::Fail(failed(call, error@)),
    }
}

/// The next step. A size that could not be set is no failure: the client will set it again.
pub open spec fn fallback_step(program: Seq<char>, event: FallbackEvent) -> FallbackActionView {
    match event {
        FallbackEvent::Begun => FallbackActionView::OpenMaster,
        FallbackEvent::MasterOpened(result) => or_fail(
            result,
            "open(/dev/ptmx)"@,
            FallbackActionView::Grant,
        ),
        FallbackEvent::Granted(result) => or_fail(result, "grantpt"@, FallbackActionView::Unlock),
        FallbackEvent::Unlocked(result) => or_fail(
            result,
            "unlockpt"@,
            FallbackActionView::OpenSlave,
        ),
        FallbackEvent::SlaveOpened(result) => or_fail(
            result,
            "ioctl(TIOCGPTPEER)"@,
            FallbackActionView::SetSize,
        ),
        FallbackEvent::SizeSet(_) => FallbackActionView::Duplicate(Stream::Stdin),
        FallbackEvent::Duplicated { stream, result } => or_fail(
            result,
            "dup(slave_fd)"@,
            match stream {
                Stream::Stdin => FallbackActionView::Duplicate(Stream::Stdout),
                Stream::Stdout => FallbackActionView::Duplicate(Stream::Stderr),
                Stream::Stderr => FallbackActionView::Spawn,
            },
        ),
        FallbackEvent::Spawned(result) => or_fail(
            result,
            "spawn '"@ + program + "'"@,
            FallbackActionView::Done,
        ),
    }
}

/// How a call that failed is reported.
pub fn failure(call: &str, error: &str) -> (report: String)
    ensures
        report@ == failed(call@, error@),
{
    String::from_str(call).concat(" failed: ").concat(error)
}

fn next_or_fail(result: Result<(), String>, call: &str, next: FallbackAction) -> (action:
    FallbackAction)
    ensures
        action@ == or_fail(result, call@, next@),
{
    match result {
        Ok(_) => next,
        Err(error) => FallbackAction::Fail(failure(call, error.as_str())),
    }
}

/// The next step in opening a terminal and starting `program` on it.
pub fn fallback_open_and_spawn(program: &str, event: FallbackEvent) -> (action: FallbackAction)
    ensures
        action@ == fallback_step(program@, event),
{
    match event {
        FallbackEvent::Begun => FallbackAction::OpenMaster,
        FallbackEvent::MasterOpened(result) => next_or_fail(
            result,
            "open(/dev/ptmx)",
            FallbackAction::Grant,
        ),
        FallbackEvent::Granted(result) => next_or_fail(result, "grantpt", FallbackAction::Unlock),
        FallbackEvent::Unlocked(result) => next_or_fail(
            result,
            "unlockpt",
            FallbackAction::OpenSlave,
        ),
        FallbackEvent::SlaveOpened(result) => next_or_fail(
            result,
            "ioctl(TIOCGPTPEER)",
            FallbackAction::SetSize,
        ),
        FallbackEvent::SizeSet(_) => FallbackAction::Duplicate(Stream::Stdin),
        FallbackEvent::Duplicated { stream, result } => {
            let next = match stream {
                Stream::Stdin => FallbackAction::Duplicate(Stream::Stdout),
                Stream::Stdout => FallbackAction::Duplicate(Stream::Stderr),
                Stream::Stderr => FallbackAction::Spawn,
            };
            next_or_fail(result, "dup(slave_fd)", next)
        },
        FallbackEvent::Spawned(result) => {
            let call = String::from_str("spawn '").concat(program).concat("'");
            next_or_fail(result, call.as_str(), FallbackAction::Done)
        },
    }
}

/// What is done about a read or a write that returned.
#[derive(Clone, Copy, Debug, PartialEq, Eq, Structural)]
pub enum Transfer {
    /// This many bytes went through.
    Done(usize),
    /// It is tried again.
    Again,
    /// It failed.
    Failed,
}

/// What is done about a read from the near end that returned `count`, with the error number where
/// it failed. A far end that is closed reads as the end of the output.
pub fn after_read(count: isize, errno: Option<i32>) -> (transfer: Transfer)
    ensures
        transfer == (if count >= 0 {
            Transfer::Done(count as usize)
        } else if errno == Some(EINTR) {
            Transfer::Again
        } else if errno == Some(EIO) {
            Transfer::Done(0)
        } else {
            Transfer::Failed
        }),
{
    if count >= 0 {
        Transfer::Done(count as usize)
    } else {
        match errno {
            Some(number) => if number == EINTR {
                Transfer::Again
            } else if number == EIO {
                Transfer::Done(0)
            } else {
                Transfer::Failed
            },
            None => Transfer::Failed,
        }
    }
}

/// What is done about a write to the near end that returned `count`, with the error number where
/// it failed.
pub fn after_write(count: isize, errno: Option<i32>) -> (transfer: Transfer)
    ensures
        transfer == (if count >= 0 {
            Transfer::Done(count as usize)
        } else if errno == Some(EINTR) {
            Transfer::Again
        } else {
            Transfer::Failed
        }),
{
    if count >= 0 {
        Transfer::Done(count as usize)
    } else {
        match errno {
            Some(number) => if number == EINTR {
                Transfer::Again
            } else {
                Transfer::Failed
            },
            None => Transfer::Failed,
        }
    }
}

/// Whether the end to which input is written has been taken.
pub struct WriterSlot {
    taken: bool,
}

impl View for WriterSlot {
    type V = bool;

    closed spec fn view(&self) -> bool {
        self.taken
    }
}

impl WriterSlot {
    /// It has not been taken.
    pub fn new() -> (slot: Self)
        ensures
            !slot@,
    {
        WriterSlot { taken: false }
    }

    /// Takes it, which works only once.
    pub fn take_writer(&mut self) -> (result: Result<(), String>)
        ensures
            final(self)@,
            result is Ok <==> !old(self)@,
            result matches Err(error) ==> error@ == "cannot take writer more than once"@,
    {
        if self.taken {
            return Err(String::from_str("cannot take writer more than once"));
        }
        self.taken = true;
        Ok(())
    }
}

/// The leader of the process group in front, from what the system returned.
pub fn process_group_leader(pid: i32) -> (leader: Option<i32>)
    ensures
        leader == (if pid > 0 {
            Some(pid)
        } else {
            None
        }),
{
    if pid > 0 {
        Some(pid)
    } else {
        None
    }
}

/// What is written when no more input will come: a new line and the character that ends the
/// input, where the terminal has one.
pub fn end_of_input(eot: u8) -> (bytes: Option<[u8; 2]>)
    ensures
        eot == 0 ==> bytes is None,
        eot != 0 ==> (bytes matches Some(pair) && pair@ == seq![10u8, eot]),
{
    if eot != 0 {
        let pair: [u8; 2] = [10, eot];
        assert(pair@ =~= seq![10u8, eot]);
        Some(pair)
    } else {
        None
    }
}

/// Below which number descriptors are closed one by one in a new process.
pub open spec fn closed_below(limit: Option<u64>, no_limit: u64) -> u64 {
    match limit {
        Some(n) => if n != no_limit {
            n
        } else {
            DEFAULT_FD_LIMIT
        },
        None => DEFAULT_FD_LIMIT,
    }
}

/// Below which number descriptors are closed one by one in a new process, starting from 3, or
/// nothing where the system has closed them all at once. `limit` is the limit on descriptors where
/// the system told it, and `no_limit` the number by which this system says that there is none.
pub fn close_fds_above_stderr(all_closed: bool, limit: Option<u64>, no_limit: u64) -> (below:
    Option<u64>)
    ensures
        all_closed ==> below is None,
        !all_closed ==> below == Some(closed_below(limit, no_limit)),
{
    if all_closed {
        return None;
    }
    match limit {
        Some(n) => if n != no_limit {
            Some(n)
        } else {
            Some(DEFAULT_FD_LIMIT)
        },
        None => Some(DEFAULT_FD_LIMIT),
    }
}

/// What comes of each step, should it be taken.
pub ghost struct FallbackAnswers {
    pub master: Result<(), String>,
    pub granted: Result<(), String>,
    pub unlocked: Result<(), String>,
    pub slave: Result<(), String>,
    pub size: Result<(), String>,
    pub stdin: Result<(), String>,
    pub stdout: Result<(), String>,
    pub stderr: Result<(), String>,
    pub spawned: Result<(), String>,
}

/// The event that a step leads to.
pub open spec fn fallback_answer(
    action: FallbackActionView,
    answers: FallbackAnswers,
) -> Option<FallbackEvent> {
    match action {
        FallbackActionView::OpenMaster => Some(FallbackEvent::MasterOpened(answers.master)),
        FallbackActionView::Grant => Some(FallbackEvent::Granted(answers.granted)),
        FallbackActionView::Unlock => Some(FallbackEvent::Unlocked(answers.unlocked)),
        FallbackActionView::OpenSlave => Some(FallbackEvent::SlaveOpened(answers.slave)),
        FallbackActionView::SetSize => Some(FallbackEvent::SizeSet(answers.size)),
        FallbackActionView::Duplicate(stream) => Some(
            FallbackEvent::Duplicated {
                stream,
                result: match stream {
                    Stream::Stdin => answers.stdin,
                    Stream::Stdout => answers.stdout,
                    Stream::Stderr => answers.stderr,
                },
            },
        ),
        FallbackActionView::Spawn => Some(FallbackEvent::Spawned(answers.spawned)),
        _ => None,
    }
}

/// How it ends, after at most `steps` more steps.
pub open spec fn fallback_end(
    program: Seq<char>,
    event: FallbackEvent,
    answers: FallbackAnswers,
    steps: nat,
) -> FallbackActionView
    decreases steps,
{
    let action = fallback_step(program, event);
    match fallback_answer(action, answers) {
        Some(next) => if steps > 0 {
            fallback_end(program, next, answers, (steps - 1) as nat)
        } else {
            action
        },
        None => action,
    }
}

/// A terminal is opened exactly where every step but the setting of the size succeeds. Otherwise
/// the first step that failed is reported.
pub proof fn law_first_failure_is_reported(program: Seq<char>, answers: FallbackAnswers)
    ensures
        fallback_end(program, FallbackEvent::Begun, answers, 9) == or_fail(
            answers.master,
            "open(/dev/ptmx)"@,
            or_fail(
                answers.granted,
                "grantpt"@,
                or_fail(
                    answers.unlocked,
                    "unlockpt"@,
                    or_fail(
                        answers.slave,
                        "ioctl(TIOCGPTPEER)"@,
                        or_fail(
                            answers.stdin,
                            "dup(slave_fd)"@,
                            or_fail(
                                answers.stdout,
                                "dup(slave_fd)"@,
                                or_fail(
                                    answers.stderr,
                                    "dup(slave_fd)"@,
                                    or_fail(
                                        answers.spawned,
                                        "spawn '"@ + program + "'"@,
                                        FallbackActionView::Done,
                                    ),
                                ),
                            ),
                        ),
                    ),
                ),
            ),
        ),
{
    reveal_with_fuel(fallback_end, 11);
}

} // verus!

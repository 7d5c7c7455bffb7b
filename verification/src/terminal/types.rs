//! What requests hold and what is answered.
use vstd::prelude::*;

verus! {

/// How many bytes of output are replayed to a client that connects.
pub const MAX_SCROLLBACK_BYTES: usize = 262_144;

/// A request for a terminal of some size.
pub struct TerminalOptions {
    pub cols: serde_json::Value,
    pub rows: serde_json::Value,
}

/// A request to run a command.
pub struct ExecuteCommandOption {
    pub command: String,
    pub cwd: Option<String>,
    pub u_cwd: Option<String>,
}

/// What a command printed, or why it could not be run.
pub struct CommandResponse {
    pub output: String,
    pub error: Option<String>,
}

/// Why a request was refused.
#[derive(Debug)]
pub struct ErrorResponse {
    pub error: String,
}

/// How the process of a terminal ended.
#[derive(Debug)]
pub struct ProcessExitMessage {
    pub exit_code: Option<i32>,
    pub signal: Option<String>,
    pub message: String,
}

/// The size of a terminal in characters.
#[derive(Clone, Copy, Debug, PartialEq, Eq, Structural)]
pub struct TerminalSize {
    pub rows: u16,
    pub cols: u16,
}

/// What is answered to a request.
pub enum Reply {
    /// The request was refused.
    Refused(ErrorResponse),
    /// A terminal was created; its process number in decimal.
    Created(String),
    /// The request was carried out.
    Success,
    /// A command was run, or not, with this HTTP status.
    Command { status: u16, body: CommandResponse },
}

/// A reply with its texts.
pub enum ReplyView {
    Refused(Seq<char>),
    Created(Seq<char>),
    Success,
    Command { status: u16, output: Seq<char>, error: Option<Seq<char>> },
}

impl View for Reply {
    type V = ReplyView;

    open spec fn view(&self) -> ReplyView {
        match *self {
            Reply::Refused(body) => ReplyView::Refused(body.error@),
            Reply::Created(pid) => ReplyView::Created(pid@),
            Reply::Success => ReplyView::Success,
            Reply::Command { status, body } => ReplyView::Command {
                status,
                output: body.output@,
                error: match body.error {
                    Some(e) => Some(e@),
                    None => None,
                },
            },
        }
    }
}

/// A refusal for the given reason.
pub fn refused(error: String) -> (reply: Reply)
    ensures
        reply@ == ReplyView::Refused(error@),
{
    Reply::Refused(ErrorResponse { error })
}

} // verus!

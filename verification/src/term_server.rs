//! The server of the first generation: it keeps recent output in memory, and sends and keeps only
//! output that is text.
use vstd::prelude::*;
use vstd::utf8::{decode_utf8, encode_utf8, valid_utf8};
use crate::terminal::buffer::CircularBuffer;
use crate::terminal::command::{shell_command, CommandLine};
use crate::terminal::execute::command_reply;
use crate::terminal::sessions::SessionTable;
use crate::terminal::types::{refused, ExecuteCommandOption, Reply, ReplyView};
use crate::text::scan::tail;
use crate::text::unicode::{lemma_encode_concat, lemma_encode_empty, utf8_text};

verus! {

/// How many bytes of output are kept.
pub const MAX_BUFFER_SIZE: usize = 1_000_000;

/// The shell that is run: the one that the user has set, or else `bash`.
pub fn choose_shell(set: Option<&str>) -> (shell: String)
    ensures
        shell@ == (match set {
            Some(s) => s@,
            None => "bash"@,
        }),
{
    match set {
        Some(s) => String::from_str(s),
        None => String::from_str("bash"),
    }
}

/// What is answered to a request for a terminal that could not be opened or started.
pub fn creation_refused(opened: bool, error: &str) -> (reply: Reply)
    ensures
        reply@ == ReplyView::Refused(
            (if opened {
                "Failed to spawn command: "@
            } else {
                "Failed to open PTY: "@
            }) + error@,
        ),
{
    if opened {
        refused(String::from_str("Failed to spawn command: ").concat(error))
    } else {
        refused(String::from_str("Failed to open PTY: ").concat(error))
    }
}

/// The text that a client is sent first: what is kept, where that is text and not empty.
pub open spec fn first_text(kept: Seq<u8>) -> Option<Seq<char>> {
    if valid_utf8(kept) && kept.len() > 0 {
        Some(decode_utf8(kept))
    } else {
        None
    }
}

/// The text that a client is sent first.
pub fn initial_content(buffer: &CircularBuffer) -> (text: Option<String>)
    requires
        buffer.wf(),
    ensures
        match first_text(buffer@) {
            Some(t) => text matches Some(s) && s@ == t,
            None => text is None,
        },
{
    let contents = buffer.get_contents();
    if contents.len() == 0 {
        return None;
    }
    utf8_text(contents.as_slice())
}

/// Takes a chunk of output. One that is text is kept, and given back to be sent; any other is
/// dropped.
pub fn forward_output(buffer: &mut CircularBuffer, data: &[u8]) -> (text: Option<String>)
    requires
        old(buffer).wf(),
        old(buffer).max_size() > 0,
    ensures
        final(buffer).wf(),
        final(buffer).max_size() == old(buffer).max_size(),
        if valid_utf8(data@) {
            (text matches Some(t) && t@ == decode_utf8(data@)) && final(buffer)@ == tail(
                old(buffer)@ + data@,
                old(buffer).max_size(),
            )
        } else {
            text is None && final(buffer)@ == old(buffer)@
        },
{
    match utf8_text(data) {
        Some(text) => {
            buffer.write(data);
            Some(text)
        },
        None => None,
    }
}

/// Takes a terminal out of the table and says what is answered.
pub fn terminate_terminal(table: &mut SessionTable, pid: u32) -> (reply: Reply)
    ensures
        old(table).wf() ==> final(table).wf(),
        final(table)@ == old(table)@.remove(pid),
        final(table).issued() == old(table).issued(),
        reply@ == (if old(table)@.contains_key(pid) {
            ReplyView::Success
        } else {
            ReplyView::Refused("Session not found"@)
        }),
{
    match table.remove(pid) {
        Some(_) => Reply::Success,
        None => refused(String::from_str("Session not found")),
    }
}

/// What is run for a request, or what is answered where its directory is not there. A request
/// names a directory in one of its fields.
pub fn execute_command(
    options: &ExecuteCommandOption,
    shell: &str,
    directory_exists: bool,
) -> (result: Result<CommandLine, Reply>)
    requires
        options.cwd is Some || options.u_cwd is Some,
    ensures
        match result {
            Ok(line) => directory_exists && line.words() == seq![
                shell@,
                "-c"@,
                options.command@,
            ],
            Err(reply) => !directory_exists && reply@ == (ReplyView::Command {
                status: 400,
                output: ""@,
                error: Some("Working directory does not exist"@),
            }),
        },
{
    if directory_exists {
        Ok(shell_command(shell, options.command.as_str()))
    } else {
        Err(
            command_reply(
                400,
                String::from_str(""),
                Some(String::from_str("Working directory does not exist")),
            ),
        )
    }
}

/// What is kept after texts were forwarded one by one.
pub open spec fn kept_after(sent: Seq<Seq<char>>, max_size: nat) -> Seq<u8>
    decreases sent.len(),
{
    if sent.len() == 0 {
        Seq::empty()
    } else {
        tail(kept_after(sent.drop_last(), max_size) + encode_utf8(sent.last()), max_size)
    }
}

/// All texts in a row.
pub open spec fn joined_texts(sent: Seq<Seq<char>>) -> Seq<char>
    decreases sent.len(),
{
    if sent.len() == 0 {
        Seq::empty()
    } else {
        joined_texts(sent.drop_last()) + sent.last()
    }
}

/// As long as everything fits, a client that comes later is first sent all that was sent before.
pub proof fn law_late_client_catches_up(sent: Seq<Seq<char>>, max_size: nat)
    requires
        encode_utf8(joined_texts(sent)).len() <= max_size,
    ensures
        first_text(kept_after(sent, max_size)) == (if joined_texts(sent).len() > 0 {
            Some(joined_texts(sent))
        } else {
            None
        }),
{
    lemma_all_kept(sent, max_size);
    lemma_encode_empty(joined_texts(sent));
    vstd::utf8::encode_utf8_valid_utf8(joined_texts(sent));
    vstd::utf8::encode_utf8_decode_utf8(joined_texts(sent));
}

proof fn lemma_all_kept(sent: Seq<Seq<char>>, max_size: nat)
    requires
        encode_utf8(joined_texts(sent)).len() <= max_size,
    ensures
        kept_after(sent, max_size) == encode_utf8(joined_texts(sent)),
    decreases sent.len(),
{
    if sent.len() > 0 {
        lemma_encode_concat(joined_texts(sent.drop_last()), sent.last());
        lemma_all_kept(sent.drop_last(), max_size);
    } else {
        lemma_encode_empty(Seq::empty());
        assert(kept_after(sent, max_size) =~= encode_utf8(joined_texts(sent)));
    }
}

} // verus!

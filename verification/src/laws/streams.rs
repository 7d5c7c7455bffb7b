//! The output and input of a terminal: what is kept, replayed, sent and written.
use vstd::prelude::*;
use vstd::utf8::encode_utf8;
use crate::terminal::buffer::CircularBuffer;
use crate::terminal::scrollback::{
    delivered,
    tail_start,
    writes,
    LiveOutput,
    Record,
    RecordEvent,
    Scrollback,
};
use crate::terminal::socket::{
    connect,
    ends,
    exit_frame,
    exit_message,
    joined_chunks,
    kept,
    law_output_is_kept_in_order,
    produced,
    sent,
    socket_continues,
    socket_goes_on,
    socket_step,
    Coalescer,
    Connection,
    SocketAction,
    SocketEvent,
    SocketEventView,
};
use crate::terminal::types::ProcessExitMessage;
use crate::text::numerals::decimal;
use crate::text::unicode::lemma_encode_concat;
use crate::ws::WsMessage;

verus! {

/// At a tick everything that is held back is sent, however little it is, and nothing is held back
/// any more; where nothing is held back, nothing is sent.
pub proof fn law_tick_sends_everything(coalescer: &mut Coalescer, action: SocketAction)
    requires
        call_ensures(Coalescer::step, (coalescer, SocketEvent::Tick), action),
    ensures
        final(coalescer)@.len() == 0,
        old(coalescer)@.len() > 0 ==> (action matches SocketAction::Send(bytes) && bytes@ == old(
            coalescer,
        )@),
        old(coalescer)@.len() == 0 ==> action is Wait,
{
}

/// What the terminal writes reaches the client at the next tick, if not before: a chunk and then a
/// tick send all that was held back and all of the chunk, in this order.
pub proof fn law_output_is_sent_by_the_next_tick(
    coalescer: &mut Coalescer,
    data: Vec<u8>,
    first: SocketAction,
    later: &mut Coalescer,
    second: SocketAction,
)
    requires
        call_ensures(Coalescer::step, (coalescer, SocketEvent::Output(data)), first),
        *later == *final(coalescer),
        call_ensures(Coalescer::step, (later, SocketEvent::Tick), second),
    ensures
        final(later)@.len() == 0,
        first matches SocketAction::Send(bytes) ==> bytes@ == old(coalescer)@ + data@ && second
            is Wait,
        !(first is Send) ==> first is Wait,
        first is Wait && (old(coalescer)@ + data@).len() > 0 ==> (second matches SocketAction::Send(
            bytes,
        ) && bytes@ == old(coalescer)@ + data@),
{
}

/// Output is sent at once exactly where 8192 bytes or more have come together, and otherwise held
/// back whole.
pub proof fn law_much_output_is_sent_at_once(
    coalescer: &mut Coalescer,
    data: Vec<u8>,
    action: SocketAction,
)
    requires
        call_ensures(Coalescer::step, (coalescer, SocketEvent::Output(data)), action),
    ensures
        old(coalescer)@.len() + data@.len() >= 8192 ==> (action matches SocketAction::Send(bytes)
            && bytes@ == old(coalescer)@ + data@) && final(coalescer)@.len() == 0,
        old(coalescer)@.len() + data@.len() < 8192 ==> action is Wait && final(coalescer)@ == old(
            coalescer,
        )@ + data@,
{
}

/// Nothing is held back in the beginning.
pub proof fn law_nothing_is_held_back_at_first(coalescer: Coalescer)
    requires
        call_ensures(Coalescer::new, (), coalescer),
    ensures
        coalescer@.len() == 0,
{
}

/// When the output ends, what is held back is sent, if anything is, and the connection ends.
pub proof fn law_end_of_output_sends_the_rest(
    coalescer: &mut Coalescer,
    action: SocketAction,
    handed_over: bool,
    on: bool,
)
    requires
        call_ensures(Coalescer::step, (coalescer, SocketEvent::OutputEnded), action),
        call_ensures(socket_goes_on, (&action, handed_over), on),
    ensures
        final(coalescer)@.len() == 0,
        old(coalescer)@.len() == 0 ==> action matches SocketAction::SendLast(None),
        old(coalescer)@.len() > 0 ==> (action matches SocketAction::SendLast(Some(bytes)) && bytes@
            == old(coalescer)@),
        !on,
{
}

/// When the process ends, what is held back and what was still under way is sent, in this order,
/// then how it ended is reported, and the connection ends. An end of which nothing is known counts
/// as a failure.
pub proof fn law_exit_sends_the_rest_and_reports(
    coalescer: &mut Coalescer,
    drained: Vec<Vec<u8>>,
    status: Option<bool>,
    action: SocketAction,
    handed_over: bool,
    on: bool,
)
    requires
        call_ensures(
            Coalescer::step,
            (coalescer, (SocketEvent::Exited { drained, status })),
            action,
        ),
        call_ensures(socket_goes_on, (&action, handed_over), on),
    ensures
        final(coalescer)@.len() == 0,
        !on,
        action matches SocketAction::ReportExit { last, report } && ({
            let rest = old(coalescer)@ + drained@.map_values(|chunk: Vec<u8>| chunk@).flatten();
            &&& rest.len() == 0 ==> last is None
            &&& rest.len() > 0 ==> (last matches Some(bytes) && bytes@ == rest)
            &&& status == Some(true) ==> report.exit_code == Some(0i32) && report.message@
                == "Process exited successfully"@
            &&& status != Some(true) ==> report.exit_code == Some(1i32) && report.message@
                == "Process exited with non-zero status"@
            &&& report.signal is None
        }),
{
    lemma_joined_chunks(drained@);
}

proof fn lemma_joined_chunks(chunks: Seq<Vec<u8>>)
    ensures
        joined_chunks(chunks) == chunks.map_values(|chunk: Vec<u8>| chunk@).flatten(),
    decreases chunks.len(),
{
    let all = chunks.map_values(|chunk: Vec<u8>| chunk@);
    all.lemma_flatten_and_flatten_alt_are_equivalent();
    if chunks.len() > 0 {
        lemma_joined_chunks(chunks.drop_last());
        let front = chunks.drop_last().map_values(|chunk: Vec<u8>| chunk@);
        assert(all.drop_last() =~= front);
        front.lemma_flatten_and_flatten_alt_are_equivalent();
        assert(all.last() == chunks.last()@);
        assert(all.flatten_alt() == all.drop_last().flatten_alt() + all.last());
    } else {
        assert(all.flatten() =~= Seq::<u8>::empty());
    }
}

/// What the client types is written to the terminal as it is, text by its bytes; it changes nothing
/// about the output that is held back.
pub proof fn law_typed_input_is_written(
    coalescer: &mut Coalescer,
    message: WsMessage,
    action: SocketAction,
)
    requires
        call_ensures(Coalescer::step, (coalescer, SocketEvent::Client(message)), action),
    ensures
        message matches WsMessage::Text(text) ==> (action matches SocketAction::Write(bytes)
            && bytes@ == encode_utf8(text@)),
        message matches WsMessage::Binary(data) ==> (action matches SocketAction::Write(bytes)
            && bytes@ == data@),
        message is Ping || message is Pong ==> action is Wait,
        message is Close ==> action is Stop,
        final(coalescer)@ == old(coalescer)@,
{
}

/// A client that is gone ends the connection, and nothing is sent any more.
pub proof fn law_gone_client_ends_the_connection(
    coalescer: &mut Coalescer,
    action: SocketAction,
    handed_over: bool,
    on: bool,
)
    requires
        call_ensures(Coalescer::step, (coalescer, SocketEvent::ClientGone), action),
        call_ensures(socket_goes_on, (&action, handed_over), on),
    ensures
        action is Stop,
        !on,
{
}

/// A connection goes on after waiting, and after sending or writing that worked; not after sending
/// or writing that failed.
pub proof fn law_connection_goes_on_while_it_works(
    action: SocketAction,
    handed_over: bool,
    on: bool,
)
    requires
        call_ensures(socket_goes_on, (&action, handed_over), on),
    ensures
        action is Wait ==> on,
        action is Send || action is Write ==> on == handed_over,
        action is SendLast || action is ReportExit || action is Stop ==> !on,
{
}

/// After a tick the client has been sent everything that the terminal has written so far.
pub proof fn law_all_is_sent_at_a_tick(pending: Seq<u8>, events: Seq<SocketEventView>)
    requires
        pending.len() < 8192,
        events.len() > 0,
        events.last() is Tick,
        forall|i: int| 0 <= i < events.len() ==> !ends(#[trigger] events[i]),
    ensures
        sent(pending, events) == pending + produced(events),
{
    law_output_is_kept_in_order(pending, events);
    lemma_kept_nothing(pending, events);
    assert(sent(pending, events) + Seq::<u8>::empty() =~= sent(pending, events));
}

proof fn lemma_kept_nothing(pending: Seq<u8>, events: Seq<SocketEventView>)
    requires
        events.len() > 0,
        events.last() is Tick,
        forall|i: int| 0 <= i < events.len() ==> !ends(#[trigger] events[i]),
    ensures
        kept(pending, events) == Seq::<u8>::empty(),
    decreases events.len(),
{
    let (held, action) = socket_step(pending, events[0]);
    let rest = events.skip(1);
    assert(!ends(events[0]));
    assert(socket_continues(action, true));
    if events.len() > 1 {
        assert forall|i: int| 0 <= i < rest.len() implies !ends(#[trigger] rest[i]) by {
            assert(rest[i] == events[i + 1]);
        }
        lemma_kept_nothing(held, rest);
    } else {
        assert(events[0] is Tick);
        assert(held =~= Seq::<u8>::empty());
    }
}

/// An exit is reported by nought where it went well, and by one where it did not.
pub proof fn law_exit_reports_tell_success(success: bool, message: ProcessExitMessage)
    requires
        call_ensures(exit_message, (success,), message),
    ensures
        message.exit_code == Some(0i32) <==> success,
        message.exit_code == Some(1i32) <==> !success,
        message.signal is None,
        success ==> message.message@ == "Process exited successfully"@,
        !success ==> message.message@ == "Process exited with non-zero status"@,
{
}

/// The message that carries a report holds it whole, under its type.
pub proof fn law_reports_are_carried_whole(report: &str, text: String)
    requires
        call_ensures(exit_frame, (report,), text),
    ensures
        text@ == "{\"type\":\"exit\",\"data\":"@ + report@ + "}"@,
{
}

/// A client is served exactly where the terminal is there and its process runs. It is told how the
/// process ended exactly where it has ended.
pub proof fn law_clients_are_served_while_the_process_runs(
    found: Option<Option<bool>>,
    connection: Connection,
)
    requires
        call_ensures(connect, (found,), connection),
    ensures
        connection is NotFound <==> found is None,
        connection is Served <==> found == Some(None::<bool>),
        connection is Ended <==> (found matches Some(status) && status is Some),
        connection matches Connection::Ended(report) ==> (report.exit_code == Some(0i32) <==> found
            == Some(Some(true))) && (report.exit_code == Some(1i32) <==> found == Some(
            Some(false),
        )),
{
}

/// A chunk goes to a client exactly where one has come and not left, and then it goes whole.
pub proof fn law_chunks_go_to_the_client_that_is_there(
    fresh: LiveOutput,
    data: &[u8],
    before: Option<Vec<u8>>,
    output: &mut LiveOutput,
    read: Option<Vec<u8>>,
    first: Option<Vec<u8>>,
    during: Option<Vec<u8>>,
    leaving: &mut LiveOutput,
    after: Option<Vec<u8>>,
)
    requires
        call_ensures(LiveOutput::new, (), fresh),
        call_ensures(LiveOutput::chunk_written, (&fresh, data), before),
        *output == fresh,
        call_ensures(LiveOutput::client_came, (output, read), first),
        call_ensures(LiveOutput::chunk_written, (&*final(output), data), during),
        *leaving == *final(output),
        call_ensures(LiveOutput::client_left, (leaving,), ()),
        call_ensures(LiveOutput::chunk_written, (&*final(leaving), data), after),
    ensures
        before is None,
        during matches Some(bytes) && bytes@ == data@,
        after is None,
{
}

/// A client that comes is first sent what was read of the earlier output, whole, and nothing where
/// there is none or where it could not be read.
pub proof fn law_client_is_first_sent_what_was_read(
    output: &mut LiveOutput,
    read: Option<Vec<u8>>,
    first: Option<Vec<u8>>,
)
    requires
        call_ensures(LiveOutput::client_came, (output, read), first),
    ensures
        read matches Some(bytes) ==> {
            &&& bytes@.len() == 0 ==> first is None
            &&& bytes@.len() > 0 ==> (first matches Some(b) && b@ == bytes@)
        },
        read is None ==> first is None,
        final(output).live(),
{
}

/// What a client that comes is sent, first and live, is the last 262144 bytes of what was written
/// before it came, or all of it where there are fewer, and then every chunk.
pub proof fn law_client_gets_the_end_of_the_past(record: Record, chunks: Seq<Seq<u8>>)
    ensures
        ({
            let got = delivered(record, seq![RecordEvent::Came] + writes(chunks));
            let past = record.history;
            let n = if past.len() < 262_144 {
                past.len() as int
            } else {
                262_144int
            };
            got == past.skip(past.len() - n) + chunks.flatten()
        }),
{
    crate::terminal::scrollback::law_replay_meets_live_output(record, chunks);
    let past = record.history;
    assert(past.skip(0) =~= past);
}

/// A file is read from where its last bytes begin: not more of them than were asked for, and fewer
/// only where there are no more. Nothing is read of an empty file.
pub proof fn law_end_of_the_file_is_read(file_size: u64, max_bytes: usize, start: Option<u64>)
    requires
        call_ensures(tail_start, (file_size, max_bytes), start),
    ensures
        start is None <==> file_size == 0,
        start matches Some(from) ==> from <= file_size && file_size - from <= max_bytes && (from
            == 0 || file_size - from == max_bytes),
{
}

/// The output of a terminal is kept in the directory for temporary files, under its number.
pub proof fn law_scrollback_has_its_place(
    temp_dir: &[u8],
    pid: u32,
    scrollback: Scrollback,
    path: &[u8],
)
    requires
        call_ensures(Scrollback::new, (temp_dir, pid), scrollback),
        call_ensures(Scrollback::path, (&scrollback,), path),
        temp_dir@.len() > 0,
    ensures
        temp_dir@.last() != 47 ==> path@ == temp_dir@ + encode_utf8(
            "/axs_scrollback_"@ + decimal(pid as nat) + ".bin"@,
        ),
        temp_dir@.last() == 47 ==> path@ == temp_dir@ + encode_utf8(
            "axs_scrollback_"@ + decimal(pid as nat) + ".bin"@,
        ),
{
    let name = "axs_scrollback_"@ + decimal(pid as nat) + ".bin"@;
    reveal_strlit("/axs_scrollback_");
    reveal_strlit("axs_scrollback_");
    assert("/axs_scrollback_"@ + decimal(pid as nat) + ".bin"@ =~= seq!['/'] + name);
    lemma_encode_concat(seq!['/'], name);
    vstd::utf8::is_ascii_chars_encode_utf8(seq!['/']);
    assert(encode_utf8(seq!['/']) =~= seq![47u8]);
    lemma_encode_concat("axs_scrollback_"@, decimal(pid as nat) + ".bin"@);
    assert("axs_scrollback_"@ + (decimal(pid as nat) + ".bin"@) =~= name);
    vstd::utf8::is_ascii_chars_encode_utf8("axs_scrollback_"@);
    assert(encode_utf8(name)[0] == 97);
    assert(temp_dir@.push(47) + encode_utf8(name) =~= temp_dir@ + (seq![47u8] + encode_utf8(
        name,
    )));
}

/// A buffer holds the bytes that were written last: all of them while they fit, and then as many as
/// it has room for.
pub proof fn law_buffer_holds_the_last_bytes(
    buffer: &mut CircularBuffer,
    data: &[u8],
    before: Vec<u8>,
    after: Vec<u8>,
)
    requires
        buffer.wf(),
        call_ensures(CircularBuffer::write, (buffer, data), ()),
        call_ensures(CircularBuffer::get_contents, (&*buffer,), before),
        call_ensures(CircularBuffer::get_contents, (&*final(buffer),), after),
    ensures
        ({
            let all = before@ + data@;
            let n = if all.len() < old(buffer).max_size() {
                all.len()
            } else {
                old(buffer).max_size()
            };
            after@ == all.skip(all.len() - n)
        }),
{
    let all = before@ + data@;
    assert(all.skip(0) =~= all);
}

/// A buffer is empty in the beginning and has the size that was asked for.
pub proof fn law_buffer_starts_empty(max_size: usize, buffer: CircularBuffer, contents: Vec<u8>)
    requires
        call_ensures(CircularBuffer::new, (max_size,), buffer),
        call_ensures(CircularBuffer::get_contents, (&buffer,), contents),
    ensures
        contents@.len() == 0,
        buffer.max_size() == max_size,
{
}

} // verus!

//! A client's connection to a terminal: what is sent to whom, and when it ends.
use vstd::prelude::*;
use vstd::utf8::encode_utf8;
use crate::terminal::types::ProcessExitMessage;
use crate::ws::WsMessage;

verus! {

/// How many collected bytes are sent at once, without waiting for the next tick.
pub const FLUSH_AT: usize = 8192;

/// The exit code that is reported.
pub open spec fn exit_code(success: bool) -> i32 {
    if success {
        0
    } else {
        1
    }
}

/// The words in which an exit is reported.
pub open spec fn exit_words(success: bool) -> Seq<char> {
    if success {
        "Process exited successfully"@
    } else {
        "Process exited with non-zero status"@
    }
}

/// Whether `message` reports an exit.
pub open spec fn reports_exit(message: ProcessExitMessage, success: bool) -> bool {
    &&& message.exit_code == Some(exit_code(success))
    &&& message.signal is None
    &&& message.message@ == exit_words(success)
}

/// The report on a process that has ended.
pub fn exit_message(success: bool) -> (message: ProcessExitMessage)
    ensures
        reports_exit(message, success),
{
    if success {
        ProcessExitMessage {
            exit_code: Some(0),
            signal: None,
            message: String::from_str("Process exited successfully"),
        }
    } else {
        ProcessExitMessage {
            exit_code: Some(1),
            signal: None,
            message: String::from_str("Process exited with non-zero status"),
        }
    }
}

/// The text message that carries a report, given the report in JSON.
pub fn exit_frame(report: &str) -> (text: String)
    ensures
        text@ == "{\"type\":\"exit\",\"data\":"@ + report@ + "}"@,
{
    String::from_str("{\"type\":\"exit\",\"data\":").concat(report).concat("}")
}

/// What happens to a client that asks for a terminal.
pub enum Connection {
    /// There is no such terminal.
    NotFound,
    /// The process has ended: the client is told, and the terminal is taken out.
    Ended(ProcessExitMessage),
    /// The client is served.
    Served,
}

/// Decides about a client that asks for a terminal. `found` is how the process of that terminal
/// ended, where it has ended, if the terminal is there.
pub fn connect(found: Option<Option<bool>>) -> (connection: Connection)
    ensures
        match found {
            None => connection is NotFound,
            Some(Some(success)) => connection matches Connection::Ended(message) && reports_exit(
                message,
                success,
            ),
            Some(None) => connection is Served,
        },
{
    match found {
        None => Connection::NotFound,
        Some(Some(success)) => Connection::Ended(exit_message(success)),
        Some(None) => Connection::Served,
    }
}

/// What a connection waits for.
pub enum SocketEvent {
    /// The clock ticked.
    Tick,
    /// The terminal wrote something.
    Output(Vec<u8>),
    /// No more output will come.
    OutputEnded,
    /// The process ended: the output that was still under way, and how it ended if that is known.
    Exited { drained: Vec<Vec<u8>>, status: Option<bool> },
    /// The client sent a message.
    Client(WsMessage),
    /// The client is gone.
    ClientGone,
}

/// What a connection does next.
pub enum SocketAction {
    /// Waits.
    Wait,
    /// Sends these bytes to the client, and ends where that fails.
    Send(Vec<u8>),
    /// Writes these bytes to the terminal, and ends where that fails.
    Write(Vec<u8>),
    /// Sends these bytes to the client, where there are any, and ends.
    SendLast(Option<Vec<u8>>),
    /// Sends these bytes to the client, where there are any, then the report; takes the terminal
    /// out and ends.
    ReportExit { last: Option<Vec<u8>>, report: ProcessExitMessage },
    /// Ends.
    Stop,
}

/// An event with its contents.
#[verifier::ext_equal]
pub enum SocketEventView {
    Tick,
    Output(Seq<u8>),
    OutputEnded,
    Exited { drained: Seq<u8>, success: bool },
    Input(Seq<u8>),
    Ignored,
    ClientGone,
}

/// An action with its contents.
#[verifier::ext_equal]
pub enum SocketActionView {
    Wait,
    Send(Seq<u8>),
    Write(Seq<u8>),
    SendLast(Seq<u8>),
    ReportExit { last: Seq<u8>, success: bool },
    Stop,
}

/// All chunks in a row.
pub open spec fn joined_chunks(chunks: Seq<Vec<u8>>) -> Seq<u8>
    decreases chunks.len(),
{
    if chunks.len() == 0 {
        Seq::empty()
    } else {
        joined_chunks(chunks.drop_last()) + chunks.last()@
    }
}

impl View for SocketEvent {
    type V = SocketEventView;

    open spec fn view(&self) -> SocketEventView {
        match *self {
            SocketEvent::Tick => SocketEventView::Tick,
            SocketEvent::Output(data) => SocketEventView::Output(data@),
            SocketEvent::OutputEnded => SocketEventView::OutputEnded,
            SocketEvent::Exited { drained, status } => SocketEventView::Exited {
                drained: joined_chunks(drained@),
                success: status == Some(true),
            },
            SocketEvent::Client(WsMessage::Text(text)) => SocketEventView::Input(
                encode_utf8(text@),
            ),
            SocketEvent::Client(WsMessage::Binary(data)) => SocketEventView::Input(data@),
            SocketEvent::Client(WsMessage::Ping(_)) => SocketEventView::Ignored,
            SocketEvent::Client(WsMessage::Pong(_)) => SocketEventView::Ignored,
            SocketEvent::Client(WsMessage::Close) => SocketEventView::ClientGone,
            SocketEvent::ClientGone => SocketEventView::ClientGone,
        }
    }
}

/// The bytes to send, none where there is nothing to send.
pub open spec fn bytes_of(last: Option<Vec<u8>>) -> Seq<u8> {
    match last {
        Some(bytes) => bytes@,
        None => Seq::empty(),
    }
}

impl View for SocketAction {
    type V = SocketActionView;

    open spec fn view(&self) -> SocketActionView {
        match *self {
            SocketAction::Wait => SocketActionView::Wait,
            SocketAction::Send(data) => SocketActionView::Send(data@),
            SocketAction::Write(data) => SocketActionView::Write(data@),
            SocketAction::SendLast(last) => SocketActionView::SendLast(bytes_of(last)),
            SocketAction::ReportExit { last, report } => SocketActionView::ReportExit {
                last: bytes_of(last),
                success: report.exit_code == Some(0i32),
            },
            SocketAction::Stop => SocketActionView::Stop,
        }
    }
}

/// Whether an action sends no empty message, and reports the exit in the proper words.
pub open spec fn well_said(action: SocketAction) -> bool {
    match action {
        SocketAction::Send(data) => data@.len() > 0,
        SocketAction::SendLast(Some(data)) => data@.len() > 0,
        SocketAction::ReportExit { last, report } => {
            &&& last matches Some(data) ==> data@.len() > 0
            &&& reports_exit(report, report.exit_code == Some(0i32))
        },
        _ => true,
    }
}

/// One event: what stays collected, and what is done. Output is collected until the clock ticks
/// or enough of it is there; whatever ends the output sends the rest.
pub open spec fn socket_step(pending: Seq<u8>, event: SocketEventView) -> (
    Seq<u8>,
    SocketActionView,
) {
    match event {
        SocketEventView::Tick => if pending.len() == 0 {
            (pending, SocketActionView::Wait)
        } else {
            (Seq::empty(), SocketActionView::Send(pending))
        },
        SocketEventView::Output(data) => if (pending + data).len() < FLUSH_AT {
            (pending + data, SocketActionView::Wait)
        } else {
            (Seq::empty(), SocketActionView::Send(pending + data))
        },
        SocketEventView::OutputEnded => (Seq::empty(), SocketActionView::SendLast(pending)),
        SocketEventView::Exited { drained, success } => (
            Seq::empty(),
            SocketActionView::ReportExit { last: pending + drained, success },
        ),
        SocketEventView::Input(data) => (pending, SocketActionView::Write(data)),
        SocketEventView::Ignored => (pending, SocketActionView::Wait),
        SocketEventView::ClientGone => (pending, SocketActionView::Stop),
    }
}

/// The output that has been collected for a client and not been sent yet.
pub struct Coalescer {
    pending: Vec<u8>,
}

impl View for Coalescer {
    type V = Seq<u8>;

    closed spec fn view(&self) -> Seq<u8> {
        self.pending@
    }
}

impl Coalescer {
    /// Nothing is collected yet.
    pub fn new() -> (coalescer: Self)
        ensures
            coalescer@ == Seq::<u8>::empty(),
    {
        Coalescer { pending: Vec::new() }
    }

    fn take(&mut self) -> (bytes: Vec<u8>)
        ensures
            bytes@ == old(self)@,
            final(self)@ == Seq::<u8>::empty(),
    {
        let mut bytes: Vec<u8> = Vec::new();
        core::mem::swap(&mut bytes, &mut self.pending);
        bytes
    }

    fn take_last(&mut self) -> (last: Option<Vec<u8>>)
        ensures
            bytes_of(last) == old(self)@,
            last matches Some(data) ==> data@.len() > 0,
            final(self)@ == Seq::<u8>::empty(),
    {
        if self.pending.len() > 0 {
            Some(self.take())
        } else {
            assert(self.pending@ =~= Seq::<u8>::empty());
            None
        }
    }

    /// What is done about one event.
    pub fn step(&mut self, event: SocketEvent) -> (action: SocketAction)
        ensures
            (final(self)@, action@) == socket_step(old(self)@, event@),
            well_said(action),
    {
        match event {
            SocketEvent::Tick => if self.pending.len() > 0 {
                SocketAction::Send(self.take())
            } else {
                SocketAction::Wait
            },
            SocketEvent::Output(data) => {
                let mut data = data;
                self.pending.append(&mut data);
                if self.pending.len() >= FLUSH_AT {
                    SocketAction::Send(self.take())
                } else {
                    SocketAction::Wait
                }
            },
            SocketEvent::OutputEnded => SocketAction::SendLast(self.take_last()),
            SocketEvent::Exited { drained, status } => {
                let mut i: usize = 0;
                let ghost before = self.pending@;
                assert(drained@.take(0).len() == 0);
                assert(before + joined_chunks(drained@.take(0)) =~= before);
                while i < drained.len()
                    invariant
                        i <= drained@.len(),
                        self.pending@ == before + joined_chunks(drained@.take(i as int)),
                    decreases drained@.len() - i,
                {
                    proof {
                        let front = drained@.take(i + 1);
                        assert(front.drop_last() =~= drained@.take(i as int));
                        assert(front.last() == drained@[i as int]);
                    }
                    self.pending.extend_from_slice(drained[i].as_slice());
                    assert(self.pending@ =~= before + joined_chunks(drained@.take(i + 1)));
                    i = i + 1;
                }
                assert(drained@.take(i as int) =~= drained@);
                let last = self.take_last();
                let success = match status {
                    Some(s) => s,
                    None => false,
                };
                SocketAction::ReportExit { last, report: exit_message(success) }
            },
            SocketEvent::Client(WsMessage::Text(text)) => {
                let mut data: Vec<u8> = Vec::new();
                data.extend_from_slice(text.as_str().as_bytes());
                assert(data@ =~= encode_utf8(text@));
                SocketAction::Write(data)
            },
            SocketEvent::Client(WsMessage::Binary(data)) => SocketAction::Write(data),
            SocketEvent::Client(WsMessage::Ping(_)) => SocketAction::Wait,
            SocketEvent::Client(WsMessage::Pong(_)) => SocketAction::Wait,
            SocketEvent::Client(WsMessage::Close) => SocketAction::Stop,
            SocketEvent::ClientGone => SocketAction::Stop,
        }
    }
}

/// Whether a connection goes on after an action, given whether its bytes could be handed over.
pub open spec fn socket_continues(action: SocketActionView, handed_over: bool) -> bool {
    match action {
        SocketActionView::Wait => true,
        SocketActionView::Send(_) => handed_over,
        SocketActionView::Write(_) => handed_over,
        _ => false,
    }
}

/// Whether a connection goes on after an action, given whether its bytes could be handed over.
pub fn socket_goes_on(action: &SocketAction, handed_over: bool) -> (on: bool)
    ensures
        on == socket_continues(action@, handed_over),
{
    match action {
        SocketAction::Wait => true,
        SocketAction::Send(_) => handed_over,
        SocketAction::Write(_) => handed_over,
        SocketAction::SendLast(_) => false,
        SocketAction::ReportExit { .. } => false,
        SocketAction::Stop => false,
    }
}

/// The bytes that an action sends to the client.
pub open spec fn sent_by(action: SocketActionView) -> Seq<u8> {
    match action {
        SocketActionView::Send(data) => data,
        SocketActionView::SendLast(data) => data,
        SocketActionView::ReportExit { last, .. } => last,
        _ => Seq::empty(),
    }
}

/// The bytes that an action writes to the terminal.
pub open spec fn written_by(action: SocketActionView) -> Seq<u8> {
    match action {
        SocketActionView::Write(data) => data,
        _ => Seq::empty(),
    }
}

/// What the client is sent over a series of events, as long as every byte can be handed over.
pub open spec fn sent(pending: Seq<u8>, events: Seq<SocketEventView>) -> Seq<u8>
    decreases events.len(),
{
    if events.len() == 0 {
        Seq::empty()
    } else {
        let (held, action) = socket_step(pending, events[0]);
        if socket_continues(action, true) {
            sent_by(action) + sent(held, events.skip(1))
        } else {
            sent_by(action)
        }
    }
}

/// What stays collected after a series of events, as long as every byte can be handed over.
pub open spec fn kept(pending: Seq<u8>, events: Seq<SocketEventView>) -> Seq<u8>
    decreases events.len(),
{
    if events.len() == 0 {
        pending
    } else {
        let (held, action) = socket_step(pending, events[0]);
        if socket_continues(action, true) {
            kept(held, events.skip(1))
        } else {
            held
        }
    }
}

/// What the terminal is sent over a series of events, as long as every byte can be handed over.
pub open spec fn written(pending: Seq<u8>, events: Seq<SocketEventView>) -> Seq<u8>
    decreases events.len(),
{
    if events.len() == 0 {
        Seq::empty()
    } else {
        let (held, action) = socket_step(pending, events[0]);
        if socket_continues(action, true) {
            written_by(action) + written(held, events.skip(1))
        } else {
            written_by(action)
        }
    }
}

/// Whether an event ends the connection.
pub open spec fn ends(event: SocketEventView) -> bool {
    event is OutputEnded || event is Exited || event is ClientGone
}

/// What the terminal wrote, up to the end of the connection.
pub open spec fn produced(events: Seq<SocketEventView>) -> Seq<u8>
    decreases events.len(),
{
    if events.len() == 0 {
        Seq::empty()
    } else {
        match events[0] {
            SocketEventView::Output(data) => data + produced(events.skip(1)),
            SocketEventView::Exited { drained, .. } => drained,
            event => if ends(event) {
                Seq::empty()
            } else {
                produced(events.skip(1))
            },
        }
    }
}

/// What the client typed, up to the end of the connection.
pub open spec fn typed(events: Seq<SocketEventView>) -> Seq<u8>
    decreases events.len(),
{
    if events.len() == 0 {
        Seq::empty()
    } else {
        match events[0] {
            SocketEventView::Input(data) => data + typed(events.skip(1)),
            event => if ends(event) {
                Seq::empty()
            } else {
                typed(events.skip(1))
            },
        }
    }
}

/// Every byte that the terminal wrote is sent once and in its order, or is still collected; less
/// than one full message is ever held back.
pub proof fn law_output_is_kept_in_order(pending: Seq<u8>, events: Seq<SocketEventView>)
    requires
        pending.len() < FLUSH_AT,
    ensures
        sent(pending, events) + kept(pending, events) == pending + produced(events),
        kept(pending, events).len() < FLUSH_AT,
    decreases events.len(),
{
    if events.len() == 0 {
        assert(Seq::<u8>::empty() + pending =~= pending + Seq::<u8>::empty());
    } else {
        let (held, action) = socket_step(pending, events[0]);
        let rest = events.skip(1);
        if socket_continues(action, true) {
            law_output_is_kept_in_order(held, rest);
        }
        assert(sent(pending, events) + kept(pending, events) =~= pending + produced(events));
    }
}

/// Nothing is held back when the output ends or the process does: by then the client has been
/// sent everything that the terminal wrote.
pub proof fn law_all_output_is_sent(pending: Seq<u8>, events: Seq<SocketEventView>)
    requires
        pending.len() < FLUSH_AT,
        events.len() > 0,
        forall|i: int| 0 <= i < events.len() - 1 ==> !ends(#[trigger] events[i]),
        events.last() is OutputEnded || events.last() is Exited,
    ensures
        sent(pending, events) == pending + produced(events),
{
    law_output_is_kept_in_order(pending, events);
    lemma_nothing_kept(pending, events);
    assert(sent(pending, events) + Seq::<u8>::empty() =~= sent(pending, events));
}

proof fn lemma_nothing_kept(pending: Seq<u8>, events: Seq<SocketEventView>)
    requires
        events.len() > 0,
        forall|i: int| 0 <= i < events.len() - 1 ==> !ends(#[trigger] events[i]),
        events.last() is OutputEnded || events.last() is Exited,
    ensures
        kept(pending, events) == Seq::<u8>::empty(),
    decreases events.len(),
{
    if events.len() > 1 {
        let (held, action) = socket_step(pending, events[0]);
        let rest = events.skip(1);
        assert(!ends(events[0]));
        assert forall|i: int| 0 <= i < rest.len() - 1 implies !ends(#[trigger] rest[i]) by {
            assert(rest[i] == events[i + 1]);
        }
        lemma_nothing_kept(held, rest);
    }
}

/// Every byte that the client typed is written to the terminal once and in its order.
pub proof fn law_input_is_written_in_order(pending: Seq<u8>, events: Seq<SocketEventView>)
    ensures
        written(pending, events) == typed(events),
    decreases events.len(),
{
    if events.len() > 0 {
        let (held, action) = socket_step(pending, events[0]);
        law_input_is_written_in_order(held, events.skip(1));
        assert(written(pending, events) =~= typed(events));
    }
}

} // verus!

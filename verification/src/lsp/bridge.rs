//! What the bridge does with each message, and when it ends.
use vstd::prelude::*;
use vstd::utf8::{decode_utf8, valid_utf8};
use crate::lsp::codec::CodecError;
use crate::lsp::registry::ProcessRegistry;
use crate::text::unicode::utf8_text;
use crate::text::words::texts;
use crate::ws::WsMessage;

verus! {

/// The language server that a bridge runs.
pub struct LspBridgeConfig {
    pub program: String,
    pub args: Vec<String>,
}

impl Clone for LspBridgeConfig {
    fn clone(&self) -> (config: Self)
        ensures
            config.program@ == self.program@,
            texts(config.args@) == texts(self.args@),
    {
        let mut args: Vec<String> = Vec::new();
        let mut i: usize = 0;
        while i < self.args.len()
            invariant
                i <= self.args@.len(),
                args@.len() == i,
                forall|k: int| 0 <= k < i ==> (#[trigger] args@[k])@ == self.args@[k]@,
            decreases self.args@.len() - i,
        {
            args.push(String::from_str(self.args[i].as_str()));
            i = i + 1;
        }
        assert(texts(args@) =~= texts(self.args@));
        LspBridgeConfig { program: String::from_str(self.program.as_str()), args }
    }
}

/// The part of a client's message that the bridge cares about.
pub enum ClientMessage {
    Text(String),
    Ping(Vec<u8>),
    Pong,
    Close,
}

/// Keeps what the bridge cares about: binary messages count as text where they are UTF-8, and
/// are dropped where they are not.
pub fn filter_map_ws_message<E>(msg: Result<WsMessage, E>) -> (kept: Option<
    Result<ClientMessage, E>,
>)
    ensures
        match msg {
            Ok(WsMessage::Text(text)) => kept == Some(
                Ok::<ClientMessage, E>(ClientMessage::Text(text)),
            ),
            Ok(WsMessage::Binary(data)) => if valid_utf8(data@) {
                kept matches Some(Ok(ClientMessage::Text(text))) && text@ == decode_utf8(data@)
            } else {
                kept is None
            },
            Ok(WsMessage::Ping(data)) => kept == Some(
                Ok::<ClientMessage, E>(ClientMessage::Ping(data)),
            ),
            Ok(WsMessage::Pong(_)) => kept == Some(Ok::<ClientMessage, E>(ClientMessage::Pong)),
            Ok(WsMessage::Close) => kept == Some(Ok::<ClientMessage, E>(ClientMessage::Close)),
            Err(e) => kept == Some(Err::<ClientMessage, E>(e)),
        },
{
    match msg {
        Ok(WsMessage::Text(text)) => Some(Ok(ClientMessage::Text(text))),
        Ok(WsMessage::Binary(data)) => match utf8_text(data.as_slice()) {
            Some(text) => Some(Ok(ClientMessage::Text(text))),
            None => None,
        },
        Ok(WsMessage::Ping(data)) => Some(Ok(ClientMessage::Ping(data))),
        Ok(WsMessage::Pong(_)) => Some(Ok(ClientMessage::Pong)),
        Ok(WsMessage::Close) => Some(Ok(ClientMessage::Close)),
        Err(e) => Some(Err(e)),
    }
}

/// What the bridge waits for: the next message of either side, or the end of that side.
pub enum BridgeEvent<E> {
    Client(Option<Result<ClientMessage, E>>),
    Server(Option<Result<String, CodecError>>),
}

/// What the bridge does next.
pub enum BridgeAction {
    /// Sends this text to the language server.
    ToServer(String),
    /// Answers a ping with its own data.
    Pong(Vec<u8>),
    /// Sends this text to the client.
    ToClient(String),
    /// Waits for the next message.
    Wait,
    /// Tells the client that the connection is closed, and ends.
    CloseClient,
    /// Ends.
    Stop,
}

/// What the bridge does about one event. Text passes to the other side as it is; a frame that
/// could not be read is left out; the end of either side and a client that fails end the bridge.
pub open spec fn action_for<E>(event: BridgeEvent<E>) -> BridgeAction {
    match event {
        BridgeEvent::Client(Some(Ok(ClientMessage::Text(text)))) => BridgeAction::ToServer(text),
        BridgeEvent::Client(Some(Ok(ClientMessage::Ping(data)))) => BridgeAction::Pong(data),
        BridgeEvent::Client(Some(Ok(ClientMessage::Pong))) => BridgeAction::Wait,
        BridgeEvent::Client(Some(Ok(ClientMessage::Close))) => BridgeAction::Stop,
        BridgeEvent::Client(Some(Err(_))) => BridgeAction::Stop,
        BridgeEvent::Client(None) => BridgeAction::Stop,
        BridgeEvent::Server(Some(Ok(text))) => BridgeAction::ToClient(text),
        BridgeEvent::Server(Some(Err(_))) => BridgeAction::Wait,
        BridgeEvent::Server(None) => BridgeAction::CloseClient,
    }
}

/// What the bridge does about one event.
pub fn bridge_step<E>(event: BridgeEvent<E>) -> (action: BridgeAction)
    ensures
        action == action_for(event),
{
    match event {
        BridgeEvent::Client(Some(Ok(ClientMessage::Text(text)))) => BridgeAction::ToServer(text),
        BridgeEvent::Client(Some(Ok(ClientMessage::Ping(data)))) => BridgeAction::Pong(data),
        BridgeEvent::Client(Some(Ok(ClientMessage::Pong))) => BridgeAction::Wait,
        BridgeEvent::Client(Some(Ok(ClientMessage::Close))) => BridgeAction::Stop,
        BridgeEvent::Client(Some(Err(_))) => BridgeAction::Stop,
        BridgeEvent::Client(None) => BridgeAction::Stop,
        BridgeEvent::Server(Some(Ok(text))) => BridgeAction::ToClient(text),
        BridgeEvent::Server(Some(Err(_))) => BridgeAction::Wait,
        BridgeEvent::Server(None) => BridgeAction::CloseClient,
    }
}

/// Whether the bridge goes on after an action, given whether its message could be sent.
pub open spec fn continues_after(action: BridgeAction, sent: bool) -> bool {
    match action {
        BridgeAction::ToServer(_) => sent,
        BridgeAction::Pong(_) => sent,
        BridgeAction::ToClient(_) => sent,
        BridgeAction::Wait => true,
        BridgeAction::CloseClient => false,
        BridgeAction::Stop => false,
    }
}

/// Whether the bridge goes on after an action, given whether its message could be sent.
pub fn goes_on(action: &BridgeAction, sent: bool) -> (on: bool)
    ensures
        on == continues_after(*action, sent),
{
    match action {
        BridgeAction::ToServer(_) => sent,
        BridgeAction::Pong(_) => sent,
        BridgeAction::ToClient(_) => sent,
        BridgeAction::Wait => true,
        BridgeAction::CloseClient => false,
        BridgeAction::Stop => false,
    }
}

/// The texts that go to the server over a series of events, as long as every send succeeds.
pub open spec fn sent_to_server<E>(events: Seq<BridgeEvent<E>>) -> Seq<Seq<char>>
    decreases events.len(),
{
    if events.len() == 0 {
        Seq::empty()
    } else {
        let action = action_for(events[0]);
        let later = if continues_after(action, true) {
            sent_to_server(events.skip(1))
        } else {
            Seq::empty()
        };
        match action {
            BridgeAction::ToServer(text) => seq![text@] + later,
            _ => later,
        }
    }
}

/// The texts that go to the client over a series of events, as long as every send succeeds.
pub open spec fn sent_to_client<E>(events: Seq<BridgeEvent<E>>) -> Seq<Seq<char>>
    decreases events.len(),
{
    if events.len() == 0 {
        Seq::empty()
    } else {
        let action = action_for(events[0]);
        let later = if continues_after(action, true) {
            sent_to_client(events.skip(1))
        } else {
            Seq::empty()
        };
        match action {
            BridgeAction::ToClient(text) => seq![text@] + later,
            _ => later,
        }
    }
}

/// The texts among the messages of the client.
pub open spec fn client_texts<E>(events: Seq<BridgeEvent<E>>) -> Seq<Seq<char>>
    decreases events.len(),
{
    if events.len() == 0 {
        Seq::empty()
    } else {
        match events[0] {
            BridgeEvent::Client(Some(Ok(ClientMessage::Text(text)))) => seq![text@] + client_texts(
                events.skip(1),
            ),
            _ => client_texts(events.skip(1)),
        }
    }
}

/// The texts among the messages of the server.
pub open spec fn server_texts<E>(events: Seq<BridgeEvent<E>>) -> Seq<Seq<char>>
    decreases events.len(),
{
    if events.len() == 0 {
        Seq::empty()
    } else {
        match events[0] {
            BridgeEvent::Server(Some(Ok(text))) => seq![text@] + server_texts(events.skip(1)),
            _ => server_texts(events.skip(1)),
        }
    }
}

/// Whether an event leaves both sides connected.
pub open spec fn stays_open<E>(event: BridgeEvent<E>) -> bool {
    match event {
        BridgeEvent::Client(Some(Ok(ClientMessage::Close))) => false,
        BridgeEvent::Client(Some(Ok(_))) => true,
        BridgeEvent::Server(Some(_)) => true,
        _ => false,
    }
}

/// While both sides stay connected, the bridge passes on every text of either side to the other,
/// in its order, and nothing else.
pub proof fn law_bridge_relays_all_texts<E>(events: Seq<BridgeEvent<E>>)
    requires
        forall|i: int| 0 <= i < events.len() ==> stays_open(#[trigger] events[i]),
    ensures
        sent_to_server(events) == client_texts(events),
        sent_to_client(events) == server_texts(events),
    decreases events.len(),
{
    if events.len() > 0 {
        assert(stays_open(events[0]));
        let rest = events.skip(1);
        assert forall|i: int| 0 <= i < rest.len() implies stays_open(#[trigger] rest[i]) by {
            assert(rest[i] == events[i + 1]);
        }
        law_bridge_relays_all_texts(rest);
    }
}

/// What starting the language server gave: its process number, and whether its input and output
/// can be reached.
pub struct Spawned {
    pub pid: Option<u32>,
    pub stdin: bool,
    pub stdout: bool,
}

/// Why no bridge was set up, in words.
pub open spec fn setup_failure(
    program: Seq<char>,
    spawned: Result<Spawned, String>,
) -> Option<Seq<char>> {
    match spawned {
        Err(error) => Some(
            "Failed to spawn LSP command '"@ + program + "': "@ + error@,
        ),
        Ok(child) => if child.pid is None {
            Some("Failed to get LSP process ID"@)
        } else if !child.stdin {
            Some("Failed to capture LSP stdin"@)
        } else if !child.stdout {
            Some("Failed to capture LSP stdout"@)
        } else {
            None
        },
    }
}

/// Enters a started language server in the registry and says whether the bridge can run. A
/// process is entered as soon as its number is known.
pub fn set_up(
    registry: &mut ProcessRegistry,
    program: &str,
    spawned: Result<Spawned, String>,
    now: u64,
) -> (result: Result<u32, String>)
    ensures
        final(registry)@ == (match spawned {
            Ok(Spawned { pid: Some(pid), .. }) => old(registry)@.insert(pid, now),
            _ => old(registry)@,
        }),
        match setup_failure(program@, spawned) {
            Some(message) => result matches Err(text) && text@ == message,
            None => result matches Ok(pid) && spawned->Ok_0.pid == Some(pid),
        },
{
    match spawned {
        Err(error) => {
            let text = String::from_str("Failed to spawn LSP command '").concat(program).concat(
                "': ",
            ).concat(error.as_str());
            Err(text)
        },
        Ok(child) => match child.pid {
            None => Err(String::from_str("Failed to get LSP process ID")),
            Some(pid) => {
                registry.enter(pid, now);
                if !child.stdin {
                    Err(String::from_str("Failed to capture LSP stdin"))
                } else if !child.stdout {
                    Err(String::from_str("Failed to capture LSP stdout"))
                } else {
                    Ok(pid)
                }
            },
        },
    }
}

} // verus!

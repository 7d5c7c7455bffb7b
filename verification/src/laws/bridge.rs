//! Bridging a language server: what is relayed, when the bridge runs, and what is reported of it.
use vstd::prelude::*;
use vstd::utf8::{encode_utf8, valid_utf8};
use std::collections::HashMap;
use crate::laws::text::lemma_name_at_end;
use crate::lsp::bridge::{
    bridge_step,
    filter_map_ws_message,
    goes_on,
    set_up,
    BridgeAction,
    BridgeEvent,
    ClientMessage,
    LspBridgeConfig,
    Spawned,
};
use crate::lsp::port_file::{get_port_file_path, port_file_contents};
use crate::lsp::registry::{LspStatusResponse, ProcessRegistry};
use crate::text::numerals::{decimal, lemma_decimal_is_read_back, lemma_decimal_utf8, unsigned_value};
use crate::text::unicode::lemma_encode_concat;
use crate::text::words::texts;
use crate::ws::WsMessage;

verus! {

/// A message is dropped exactly where it is binary and not UTF-8. Every other message is kept with
/// what it holds, and an error stays that error.
pub proof fn law_only_broken_binary_is_dropped<E>(
    msg: Result<WsMessage, E>,
    kept: Option<Result<ClientMessage, E>>,
)
    requires
        call_ensures(filter_map_ws_message::<E>, (msg,), kept),
    ensures
        kept is None <==> (msg matches Ok(WsMessage::Binary(data)) && !valid_utf8(data@)),
        kept matches Some(Err(e)) ==> msg == Err::<WsMessage, E>(e),
        msg matches Err(e) ==> kept == Some(Err::<ClientMessage, E>(e)),
        kept matches Some(Ok(ClientMessage::Text(text))) ==> (msg matches Ok(WsMessage::Text(t))
            && t@ == text@) || (msg matches Ok(WsMessage::Binary(data)) && encode_utf8(text@)
            == data@),
        kept matches Some(Ok(ClientMessage::Ping(data))) ==> (msg matches Ok(WsMessage::Ping(d))
            && d@ == data@),
        kept matches Some(Ok(ClientMessage::Pong)) <==> msg matches Ok(WsMessage::Pong(_)),
        kept matches Some(Ok(ClientMessage::Close)) <==> msg matches Ok(WsMessage::Close),
{
    if let Ok(WsMessage::Binary(data)) = msg {
        if valid_utf8(data@) {
            vstd::utf8::decode_utf8_encode_utf8(data@);
        }
    }
}

/// A text that comes as bytes counts as the same text that comes as text.
pub proof fn law_bytes_of_a_text_count_as_the_text<E>(
    text: String,
    data: Vec<u8>,
    as_text: Option<Result<ClientMessage, E>>,
    as_bytes: Option<Result<ClientMessage, E>>,
)
    requires
        data@ == encode_utf8(text@),
        call_ensures(
            filter_map_ws_message::<E>,
            (Ok::<WsMessage, E>(WsMessage::Text(text)),),
            as_text,
        ),
        call_ensures(
            filter_map_ws_message::<E>,
            (Ok::<WsMessage, E>(WsMessage::Binary(data)),),
            as_bytes,
        ),
    ensures
        as_text matches Some(Ok(ClientMessage::Text(a))) && a@ == text@,
        as_bytes matches Some(Ok(ClientMessage::Text(b))) && b@ == text@,
{
    vstd::utf8::encode_utf8_valid_utf8(text@);
    vstd::utf8::encode_utf8_decode_utf8(text@);
}

/// Each side's text, and nothing else, goes to the other side, as it is; a ping is answered with
/// its data. The end of the server closes the client. Only the end of the client ends the bridge
/// otherwise: neither a pong nor a frame that could not be read does.
pub proof fn law_bridge_does_what_each_message_asks<E>(event: BridgeEvent<E>, action: BridgeAction)
    requires
        call_ensures(bridge_step::<E>, (event,), action),
    ensures
        event matches BridgeEvent::Client(Some(Ok(ClientMessage::Text(t)))) ==> action
            == BridgeAction::ToServer(t),
        event matches BridgeEvent::Server(Some(Ok(t))) ==> action == BridgeAction::ToClient(t),
        event matches BridgeEvent::Client(Some(Ok(ClientMessage::Ping(d)))) ==> action
            == BridgeAction::Pong(d),
        action is ToServer ==> event matches BridgeEvent::Client(Some(Ok(ClientMessage::Text(_)))),
        action is ToClient ==> event matches BridgeEvent::Server(Some(Ok(_))),
        action is Pong ==> event matches BridgeEvent::Client(Some(Ok(ClientMessage::Ping(_)))),
        action is CloseClient <==> event matches BridgeEvent::Server(None),
        action is Stop <==> (event matches BridgeEvent::Client(c) && !(c matches Some(Ok(m)) && !(m
            is Close))),
        action is Wait <==> event matches BridgeEvent::Client(Some(Ok(ClientMessage::Pong)))
            || event matches BridgeEvent::Server(Some(Err(_))),
{
}

/// The bridge goes on after waiting, and after each message that could be sent; it ends where one
/// could not be sent, and where it was to end.
pub proof fn law_bridge_ends_where_sending_fails(action: BridgeAction, sent: bool, on: bool)
    requires
        call_ensures(goes_on, (&action, sent), on),
    ensures
        action is Wait ==> on,
        action is Stop || action is CloseClient ==> !on,
        action is ToServer || action is ToClient || action is Pong ==> on == sent,
{
}

/// A bridge runs exactly where the server was started, has a process number, and both of its
/// streams can be reached; whatever the number, the program's name and the time are. It runs under
/// that number.
pub proof fn law_bridge_runs_where_the_server_is_reached(
    registry: &mut ProcessRegistry,
    program: &str,
    spawned: Result<Spawned, String>,
    now: u64,
    result: Result<u32, String>,
)
    requires
        call_ensures(set_up, (registry, program, spawned, now), result),
    ensures
        result is Ok <==> (spawned matches Ok(child) && child.pid is Some && child.stdin
            && child.stdout),
        result matches Ok(pid) ==> (spawned matches Ok(child) && child.pid == Some(pid)),
{
}

/// Where no bridge runs, the reason is the first thing that was missing: the start, the number, the
/// input, the output.
pub proof fn law_bridge_says_what_is_missing(
    registry: &mut ProcessRegistry,
    program: &str,
    spawned: Result<Spawned, String>,
    now: u64,
    result: Result<u32, String>,
)
    requires
        call_ensures(set_up, (registry, program, spawned, now), result),
    ensures
        spawned matches Err(error) ==> (result matches Err(text) && text@
            == "Failed to spawn LSP command '"@ + program@ + "': "@ + error@),
        spawned matches Ok(child) ==> {
            &&& child.pid is None ==> (result matches Err(text) && text@
                == "Failed to get LSP process ID"@)
            &&& child.pid is Some && !child.stdin ==> (result matches Err(text) && text@
                == "Failed to capture LSP stdin"@)
            &&& child.pid is Some && child.stdin && !child.stdout ==> (result matches Err(text)
                && text@ == "Failed to capture LSP stdout"@)
        },
{
}

/// A server is entered as soon as it has a number, with the time; every other entry stays.
pub proof fn law_started_servers_are_entered(
    registry: &mut ProcessRegistry,
    program: &str,
    spawned: Result<Spawned, String>,
    now: u64,
    result: Result<u32, String>,
)
    requires
        call_ensures(set_up, (registry, program, spawned, now), result),
    ensures
        forall|pid: u32|
            final(registry)@.contains_key(pid) <==> (old(registry)@.contains_key(pid) || (spawned matches Ok(
                child,
            ) && child.pid == Some(pid))),
        forall|pid: u32|
            #![trigger final(registry)@[pid]]
            final(registry)@.contains_key(pid) ==> final(registry)@[pid] == (if spawned matches Ok(
                child,
            ) && child.pid == Some(pid) {
                now
            } else {
                old(registry)@[pid]
            }),
{
}

/// A process is reported from when it is entered until it leaves, and other processes are reported
/// as before.
pub proof fn law_processes_are_reported_while_they_run(
    registry: &mut ProcessRegistry,
    pid: u32,
    started_at: u64,
    entered: &mut ProcessRegistry,
)
    requires
        call_ensures(ProcessRegistry::enter, (registry, pid, started_at), ()),
        *entered == *final(registry),
        call_ensures(ProcessRegistry::leave, (entered, pid), ()),
    ensures
        old(entered)@.contains_key(pid),
        old(entered)@[pid] == started_at,
        !final(entered)@.contains_key(pid),
        forall|other: u32|
            other != pid ==> (old(entered)@.contains_key(other) <==> old(registry)@.contains_key(other)) && (
            final(entered)@.contains_key(other) <==> old(registry)@.contains_key(other)),
        forall|other: u32|
            #![trigger old(registry)@[other]]
            other != pid && old(registry)@.contains_key(other) ==> old(entered)@[other] == old(registry)@[other]
                && final(entered)@[other] == old(registry)@[other],
{
}

/// Nothing runs in the beginning.
pub proof fn law_nothing_runs_at_first(registry: ProcessRegistry, pid: u32)
    requires
        call_ensures(ProcessRegistry::new, (), registry),
    ensures
        !registry@.contains_key(pid),
{
}

/// There is one report for each running process and none for any other. It counts the full seconds
/// since the start, and tells the memory that is known, or nought.
pub proof fn law_reports_tell_age_and_memory(
    registry: &ProcessRegistry,
    program: &str,
    memory: &HashMap<u32, u64>,
    now: u64,
    response: LspStatusResponse,
    pid: u32,
)
    requires
        call_ensures(ProcessRegistry::get_lsp_status, (registry, program, memory, now), response),
    ensures
        response.program@ == program@,
        registry@.contains_key(pid) <==> exists|i: int|
            0 <= i < response.processes@.len() && (#[trigger] response.processes@[i]).pid == pid,
        forall|i: int, j: int|
            0 <= i < j < response.processes@.len() ==> (#[trigger] response.processes@[i]).pid != (
            #[trigger] response.processes@[j]).pid,
        forall|i: int|
            0 <= i < response.processes@.len() && (#[trigger] response.processes@[i]).pid == pid
                ==> {
                let report = response.processes@[i];
                let started = registry@[pid];
                &&& now >= started ==> report.uptime_secs * 1_000_000_000 <= now - started < (
                report.uptime_secs + 1) * 1_000_000_000
                &&& now < started ==> report.uptime_secs == 0
                &&& memory@.contains_key(pid) ==> report.memory_bytes == memory@[pid]
                &&& !memory@.contains_key(pid) ==> report.memory_bytes == 0
            },
{
}

/// The port file stands in the port directory of the home directory, or of `/tmp` where there is
/// none, and is called after the program's own name and the session, or else the process.
pub proof fn law_port_file_has_its_place(
    home: Option<&str>,
    program: &str,
    session: Option<&str>,
    process: u32,
    path: Vec<u8>,
    root: Seq<char>,
    dir: Seq<u8>,
    name: Seq<u8>,
)
    requires
        call_ensures(get_port_file_path, (home, program, session, process), path),
        root == (match home {
            Some(h) => h@,
            None => "/tmp"@,
        }),
        root.len() > 0,
        encode_utf8(root).last() != 47,
        encode_utf8(program@) == dir.push(47) + name || encode_utf8(program@) == name,
        name.len() > 0,
        forall|i: int| 0 <= i < name.len() ==> #[trigger] name[i] != 47,
        name != seq![46u8],
        name != seq![46u8, 46u8],
    ensures
        path@ == encode_utf8(root + "/.axs/lsp_ports/"@) + name + seq![95u8] + encode_utf8(
            match session {
                Some(s) => s@,
                None => decimal(process as nat),
            },
        ),
{
    lemma_name_at_end(encode_utf8(program@), dir, name);
    lemma_decimal_utf8(process as nat);
    reveal_strlit("/.axs/lsp_ports/");
    reveal_strlit(".axs");
    reveal_strlit("lsp_ports");
    reveal_strlit("/");
    lemma_ascii("/.axs/lsp_ports/"@);
    lemma_ascii(".axs"@);
    lemma_ascii("lsp_ports"@);
    crate::text::unicode::lemma_encode_empty(root);
    lemma_encode_concat(root, "/.axs/lsp_ports/"@);
    let suffix = encode_utf8(
        match session {
            Some(s) => s@,
            None => decimal(process as nat),
        },
    );
    let file = name.push(95) + suffix;
    assert(file[0] == name[0]);
    let (a, b) = (encode_utf8(".axs"@), encode_utf8("lsp_ports"@));
    let first = encode_utf8(root).push(47) + a;
    assert(first.last() == a.last());
    let second = first.push(47) + b;
    assert(second.last() == b.last());
    assert(encode_utf8("/.axs/lsp_ports/"@) =~= seq![47u8] + a + seq![47u8] + b + seq![47u8]);
    assert(path@ =~= second.push(47) + file);
    assert(path@ =~= encode_utf8(root + "/.axs/lsp_ports/"@) + name + seq![95u8] + suffix);
}

proof fn lemma_ascii(text: Seq<char>)
    requires
        vstd::utf8::is_ascii_chars(text),
    ensures
        encode_utf8(text).len() == text.len(),
        forall|i: int| 0 <= i < text.len() ==> #[trigger] encode_utf8(text)[i] == text[i] as u8,
{
    vstd::utf8::is_ascii_chars_encode_utf8(text);
}

/// It makes no difference to the port file in which directory the program is.
pub proof fn law_port_file_forgets_the_directory(
    home: Option<&str>,
    program: &str,
    named: &str,
    session: Option<&str>,
    process: u32,
    dir: Seq<u8>,
    path: Vec<u8>,
    plain: Vec<u8>,
)
    requires
        call_ensures(get_port_file_path, (home, program, session, process), path),
        call_ensures(get_port_file_path, (home, named, session, process), plain),
        encode_utf8(program@) == dir.push(47) + encode_utf8(named@),
        named@.len() > 0,
        forall|i: int|
            0 <= i < encode_utf8(named@).len() ==> #[trigger] encode_utf8(named@)[i] != 47,
        encode_utf8(named@) != seq![46u8],
        encode_utf8(named@) != seq![46u8, 46u8],
    ensures
        path@ == plain@,
{
    crate::text::unicode::lemma_encode_empty(named@);
    lemma_name_at_end(encode_utf8(program@), dir, encode_utf8(named@));
    lemma_name_at_end(encode_utf8(named@), dir, encode_utf8(named@));
}

/// Whoever reads the port file finds the port.
pub proof fn law_port_is_found_in_its_file(port: u16, contents: String)
    requires
        call_ensures(port_file_contents, (port,), contents),
    ensures
        unsigned_value(encode_utf8(contents@)) == Some(port as nat),
        contents@[0] == '0' ==> port == 0,
{
    lemma_decimal_is_read_back(port as nat);
    crate::laws::text::lemma_digits_of(port as nat);
}

/// A copy of a configuration runs the same program with the same arguments, all of them and in
/// their order.
pub proof fn law_copies_run_the_same_server(config: &LspBridgeConfig, copy: LspBridgeConfig)
    requires
        call_ensures(<LspBridgeConfig as Clone>::clone, (config,), copy),
    ensures
        copy.program@ == config.program@,
        copy.args@.len() == config.args@.len(),
        forall|i: int| 0 <= i < config.args@.len() ==> (#[trigger] copy.args@[i])@ == config.args@[i]@,
{
    assert(texts(copy.args@).len() == texts(config.args@).len());
    assert forall|i: int| 0 <= i < config.args@.len() implies (#[trigger] copy.args@[i])@
        == config.args@[i]@ by {
        assert(texts(copy.args@)[i] == texts(config.args@)[i]);
    }
}

} // verus!

use acodex_server::lsp::bridge::{
    bridge_step, filter_map_ws_message, goes_on, set_up, BridgeAction, BridgeEvent, ClientMessage,
    LspBridgeConfig, Spawned,
};
use acodex_server::lsp::codec::CodecError;
use acodex_server::lsp::port_file::{get_port_file_path, port_file_contents};
use acodex_server::lsp::registry::{ProcessRegistry, NANOS_PER_SEC};
use acodex_server::ws::WsMessage;
use std::collections::HashMap;

#[test]
fn binary_messages_count_as_text_where_they_are_utf8() {
    let kept = filter_map_ws_message::<u8>(Ok(WsMessage::Binary("é".as_bytes().to_vec())));
    assert!(matches!(kept, Some(Ok(ClientMessage::Text(t))) if t == "é"));
    assert!(filter_map_ws_message::<u8>(Ok(WsMessage::Binary(vec![0xff]))).is_none());
}

#[test]
fn other_messages_are_kept_as_they_are() {
    let kept = filter_map_ws_message::<u8>(Ok(WsMessage::Text("a".to_string())));
    assert!(matches!(kept, Some(Ok(ClientMessage::Text(t))) if t == "a"));
    let kept = filter_map_ws_message::<u8>(Ok(WsMessage::Ping(vec![1, 2])));
    assert!(matches!(kept, Some(Ok(ClientMessage::Ping(d))) if d == vec![1, 2]));
    assert!(matches!(
        filter_map_ws_message::<u8>(Ok(WsMessage::Pong(vec![]))),
        Some(Ok(ClientMessage::Pong))
    ));
    assert!(matches!(
        filter_map_ws_message::<u8>(Ok(WsMessage::Close)),
        Some(Ok(ClientMessage::Close))
    ));
    assert!(matches!(filter_map_ws_message::<u8>(Err(7)), Some(Err(7))));
}

#[test]
fn the_bridge_relays_texts_and_answers_pings() {
    let action = bridge_step::<u8>(BridgeEvent::Client(Some(Ok(ClientMessage::Text(
        "to server".to_string(),
    )))));
    assert!(matches!(&action, BridgeAction::ToServer(t) if t == "to server"));
    assert!(goes_on(&action, true));
    assert!(!goes_on(&action, false));

    let action = bridge_step::<u8>(BridgeEvent::Server(Some(Ok("to client".to_string()))));
    assert!(matches!(&action, BridgeAction::ToClient(t) if t == "to client"));

    let action = bridge_step::<u8>(BridgeEvent::Client(Some(Ok(ClientMessage::Ping(vec![9])))));
    assert!(matches!(&action, BridgeAction::Pong(d) if *d == vec![9]));
}

#[test]
fn a_bad_frame_does_not_end_the_bridge() {
    let action = bridge_step::<u8>(BridgeEvent::Server(Some(Err(CodecError::MissingHeader))));
    assert!(matches!(action, BridgeAction::Wait));
    assert!(goes_on(&action, false));
}

#[test]
fn the_end_of_either_side_ends_the_bridge() {
    let action = bridge_step::<u8>(BridgeEvent::Server(None));
    assert!(matches!(action, BridgeAction::CloseClient));
    assert!(!goes_on(&action, true));
    for event in [
        BridgeEvent::Client(None),
        BridgeEvent::Client(Some(Err(1u8))),
        BridgeEvent::Client(Some(Ok(ClientMessage::Close))),
    ] {
        assert!(matches!(bridge_step(event), BridgeAction::Stop));
    }
}

#[test]
fn setting_up_enters_the_process() {
    let mut registry = ProcessRegistry::new();
    let child = Spawned { pid: Some(41), stdin: true, stdout: true };
    assert_eq!(set_up(&mut registry, "ra", Ok(child), 5), Ok(41));
    let status = registry.get_lsp_status("ra", &HashMap::new(), 5);
    assert_eq!(status.processes.len(), 1);
    assert_eq!(status.processes[0].pid, 41);
}

#[test]
fn setting_up_says_what_failed() {
    let mut registry = ProcessRegistry::new();
    assert_eq!(
        set_up(&mut registry, "ra", Err("no such file".to_string()), 0),
        Err("Failed to spawn LSP command 'ra': no such file".to_string())
    );
    assert_eq!(
        set_up(&mut registry, "ra", Ok(Spawned { pid: None, stdin: true, stdout: true }), 0),
        Err("Failed to get LSP process ID".to_string())
    );
    assert!(registry.get_lsp_status("ra", &HashMap::new(), 0).processes.is_empty());
    assert_eq!(
        set_up(&mut registry, "ra", Ok(Spawned { pid: Some(1), stdin: false, stdout: true }), 0),
        Err("Failed to capture LSP stdin".to_string())
    );
    assert_eq!(
        set_up(&mut registry, "ra", Ok(Spawned { pid: Some(2), stdin: true, stdout: false }), 0),
        Err("Failed to capture LSP stdout".to_string())
    );
    assert_eq!(registry.get_lsp_status("ra", &HashMap::new(), 0).processes.len(), 2);
}

#[test]
fn every_running_process_is_reported_once() {
    let mut registry = ProcessRegistry::new();
    registry.enter(10, 0);
    registry.enter(11, 2 * NANOS_PER_SEC);
    registry.enter(12, 9 * NANOS_PER_SEC);
    registry.leave(11);
    let mut memory = HashMap::new();
    memory.insert(10, 4096);
    let response = registry.get_lsp_status("server", &memory, 5 * NANOS_PER_SEC + 999_999_999);
    assert_eq!(response.program, "server");
    let mut seen: Vec<(u32, u64, u64)> = response
        .processes
        .iter()
        .map(|p| (p.pid, p.uptime_secs, p.memory_bytes))
        .collect();
    seen.sort();
    assert_eq!(seen, vec![(10, 5, 4096), (12, 0, 0)]);
}

fn path_text(path: Vec<u8>) -> String {
    String::from_utf8(path).unwrap()
}

#[test]
fn the_port_file_is_named_after_program_and_session() {
    assert_eq!(
        path_text(get_port_file_path(Some("/home/u"), "/usr/bin/rust-analyzer", Some("s1"), 7)),
        "/home/u/.axs/lsp_ports/rust-analyzer_s1"
    );
    assert_eq!(
        path_text(get_port_file_path(None, "gopls", None, 1234)),
        "/tmp/.axs/lsp_ports/gopls_1234"
    );
    assert_eq!(
        path_text(get_port_file_path(Some("/h/"), "a/..", Some("s"), 1)),
        "/h/.axs/lsp_ports/a/.._s"
    );
}

#[test]
fn two_sessions_have_two_port_files() {
    assert_ne!(
        get_port_file_path(Some("/h"), "p", Some("a"), 1),
        get_port_file_path(Some("/h"), "p", Some("b"), 1)
    );
}

#[test]
fn the_port_is_read_back_from_its_file() {
    for port in [0u16, 7, 8767, 65535] {
        assert_eq!(port_file_contents(port).parse::<u16>(), Ok(port));
    }
    assert_eq!(port_file_contents(8767), "8767");
}

#[test]
fn a_copy_of_a_configuration_runs_the_same_server() {
    let config = LspBridgeConfig {
        program: "gopls".to_string(),
        args: vec!["-v".to_string(), "serve".to_string()],
    };
    let copy = config.clone();
    assert_eq!(copy.program, config.program);
    assert_eq!(copy.args, config.args);
}

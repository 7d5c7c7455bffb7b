use acodex_server::rectangle::{draw_filled_rectangle, get_dimensions};
use acodex_server::startup::{
    allowed_origins, bind_port, choose_host, lsp_port, ready_message, Origins, DEFAULT_PORT,
};
use acodex_server::term_server::{
    choose_shell, creation_refused, execute_command, forward_output, initial_content,
    terminate_terminal, MAX_BUFFER_SIZE,
};
use acodex_server::terminal::buffer::CircularBuffer;
use acodex_server::terminal::sessions::SessionTable;
use acodex_server::terminal::types::{ExecuteCommandOption, Reply};
use acodex_server::utils::{get_ip_address, parse_u16, parse_u16_field, InterfaceAddress, Ipv4};
use serde_json::Value;

const LAN: Ipv4 = Ipv4 { a: 192, b: 168, c: 1, d: 7 };
const LOCAL: Ipv4 = Ipv4 { a: 127, b: 0, c: 0, d: 1 };

#[test]
fn the_first_address_that_others_reach_is_found() {
    let v4 = InterfaceAddress::V4;
    let loopback = v4(Ipv4 { a: 127, b: 9, c: 9, d: 9 });
    let other = v4(Ipv4 { a: 10, b: 0, c: 0, d: 1 });
    assert_eq!(
        get_ip_address(&vec![vec![loopback, InterfaceAddress::V6], vec![], vec![v4(LAN), other]]),
        Some(LAN)
    );
    assert_eq!(get_ip_address(&vec![vec![loopback], vec![InterfaceAddress::V6]]), None);
    assert_eq!(get_ip_address(&vec![]), None);
}

#[test]
fn numbers_are_read_from_json() {
    assert_eq!(parse_u16(&Value::from(80), "cols"), Ok(80));
    assert_eq!(parse_u16(&Value::from("65535"), "cols"), Ok(65535));
    assert_eq!(parse_u16(&Value::from("+7"), "cols"), Ok(7));
    assert_eq!(
        parse_u16(&Value::from(65536), "cols"),
        Err("cols must be a valid u16.".to_string())
    );
    assert_eq!(
        parse_u16(&Value::from("65536"), "cols"),
        Err("cols must be a valid u16 string.".to_string())
    );
    for value in [Value::from(-1), Value::from(1.5), Value::Null, Value::from(vec![1])] {
        assert_eq!(
            parse_u16(&value, "cols"),
            Err("cols must be a number or a valid string.".to_string())
        );
    }
    assert_eq!(parse_u16_field(Some(3), None, "x"), Ok(3));
    assert_eq!(parse_u16_field(None, Some("3"), "x"), Ok(3));
    assert_eq!(
        parse_u16_field(None, None, "x"),
        Err("x must be a number or a valid string.".to_string())
    );
}

#[test]
fn the_host_is_local_unless_asked_otherwise() {
    assert_eq!(choose_host(false, Some(LAN)).ip, LOCAL);
    assert_eq!(choose_host(true, Some(LAN)).ip, LAN);
    let host = choose_host(true, None);
    assert_eq!((host.ip, host.not_found), (LOCAL, true));
    assert!(!choose_host(false, None).not_found);
}

#[test]
fn ports_are_chosen() {
    assert_eq!(DEFAULT_PORT, 8767);
    assert_eq!(lsp_port(8767), None);
    assert_eq!(lsp_port(9000), Some(9000));
    assert_eq!(bind_port(None), 0);
    assert_eq!(bind_port(Some(9000)), 9000);
}

#[test]
fn only_the_local_origin_is_allowed_by_default() {
    assert!(matches!(allowed_origins(false), Origins::Only(o) if o == "https://localhost"));
    assert!(matches!(allowed_origins(true), Origins::Any));
    assert_eq!(ready_message(), "READY\n");
}

#[test]
fn rectangles_are_drawn() {
    assert_eq!(draw_filled_rectangle(3, 5), vec!["▄▄▄".to_string(); 3]);
    assert_eq!(draw_filled_rectangle(1, 4), vec!["▄".to_string(); 2]);
    let refusal = vec!["Invalid dimensions. Width and height must be greater than 0.".to_string()];
    assert_eq!(draw_filled_rectangle(0, 4), refusal);
    assert_eq!(draw_filled_rectangle(4, 0), refusal);
    assert_eq!(draw_filled_rectangle(0, usize::MAX), refusal);
    assert_eq!(draw_filled_rectangle(usize::MAX, 0), refusal);
}

#[test]
fn dimensions_are_read_from_lines() {
    assert_eq!(get_dimensions(" 12 \n", "7\r\n"), (12, 7));
    assert_eq!(get_dimensions("wide\n", "-3\n"), (0, 0));
    assert_eq!(get_dimensions("18446744073709551616", ""), (0, 0));
}

#[test]
fn a_late_client_is_sent_what_was_sent_before() {
    let mut buffer = CircularBuffer::new(MAX_BUFFER_SIZE);
    assert_eq!(initial_content(&buffer), None);
    assert_eq!(forward_output(&mut buffer, "né ".as_bytes()), Some("né ".to_string()));
    assert_eq!(forward_output(&mut buffer, b"\xff"), None);
    assert_eq!(forward_output(&mut buffer, b"b"), Some("b".to_string()));
    assert_eq!(initial_content(&buffer), Some("né b".to_string()));
}

#[test]
fn a_character_cut_in_two_spoils_what_was_kept() {
    let mut buffer = CircularBuffer::new(2);
    forward_output(&mut buffer, "aé".as_bytes());
    assert_eq!(initial_content(&buffer), Some("é".to_string()));
    forward_output(&mut buffer, b"x");
    assert_eq!(initial_content(&buffer), None);
}

#[test]
fn the_shell_is_the_users() {
    assert_eq!(choose_shell(Some("/bin/zsh")), "/bin/zsh");
    assert_eq!(choose_shell(None), "bash");
}

#[test]
fn refusals_name_the_step() {
    let words = |reply: Reply| match reply {
        Reply::Refused(body) => body.error,
        _ => panic!("not refused"),
    };
    assert_eq!(words(creation_refused(false, "e")), "Failed to open PTY: e");
    assert_eq!(words(creation_refused(true, "e")), "Failed to spawn command: e");
    let mut table = SessionTable::new();
    table.insert(3);
    assert!(matches!(terminate_terminal(&mut table, 3), Reply::Success));
    assert_eq!(words(terminate_terminal(&mut table, 3)), "Session not found");
}

#[test]
fn commands_run_in_the_users_shell() {
    let request = ExecuteCommandOption {
        command: "pwd".to_string(),
        cwd: Some("/".to_string()),
        u_cwd: None,
    };
    let line = execute_command(&request, "zsh", true).ok().unwrap();
    assert_eq!(line.program, "zsh");
    assert_eq!(line.args, vec!["-c".to_string(), "pwd".to_string()]);
    match execute_command(&request, "zsh", false) {
        Err(Reply::Command { status, body }) => {
            assert_eq!(status, 400);
            assert_eq!(body.error, Some("Working directory does not exist".to_string()));
        }
        _ => panic!("not refused"),
    }
}

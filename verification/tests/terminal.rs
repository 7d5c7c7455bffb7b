use acodex_server::terminal::buffer::CircularBuffer;
use acodex_server::terminal::command::{
    get_default_command, launch_command, set_default_command, DefaultCommand,
};
use acodex_server::terminal::handlers::{
    create_terminal, new_terminal, register_terminal, resize_reply, resize_terminal, terminal_size,
    terminate_reply, terminate_terminal, CreateAction, CreateEvent, ResizeAction, TerminateAction,
};
use acodex_server::terminal::scrollback::{tail_start, LiveOutput, Scrollback};
use acodex_server::terminal::sessions::{SessionTable, TerminalSession};
use acodex_server::terminal::socket::{
    connect, exit_frame, exit_message, socket_goes_on, Coalescer, Connection, SocketAction,
    SocketEvent, FLUSH_AT,
};
use acodex_server::terminal::types::{
    Reply, TerminalOptions, TerminalSize, MAX_SCROLLBACK_BYTES,
};
use acodex_server::ws::WsMessage;
use serde_json::Value;

fn refusal(reply: Reply) -> String {
    match reply {
        Reply::Refused(body) => body.error,
        _ => panic!("not refused"),
    }
}

fn options(rows: Value, cols: Value) -> TerminalOptions {
    TerminalOptions { cols, rows }
}

#[test]
fn a_buffer_keeps_what_was_written_last() {
    let mut buffer = CircularBuffer::new(5);
    buffer.write(b"abc");
    assert_eq!(buffer.get_contents(), b"abc".to_vec());
    buffer.write(b"de");
    assert_eq!(buffer.get_contents(), b"abcde".to_vec());
    buffer.write(b"fg");
    assert_eq!(buffer.get_contents(), b"cdefg".to_vec());
    buffer.write(b"0123456789");
    assert_eq!(buffer.get_contents(), b"56789".to_vec());
    buffer.write(b"");
    assert_eq!(buffer.get_contents(), b"56789".to_vec());
}

#[test]
fn it_does_not_matter_how_the_bytes_are_cut() {
    let bytes: Vec<u8> = (0..100).collect();
    let mut whole = CircularBuffer::new(17);
    whole.write(&bytes);
    let mut parts = CircularBuffer::new(17);
    for chunk in bytes.chunks(7) {
        parts.write(chunk);
    }
    assert_eq!(whole.get_contents(), parts.get_contents());
    assert_eq!(whole.get_contents(), bytes[83..].to_vec());
}

#[test]
fn bytes_are_stored_in_a_ring() {
    let mut buffer = CircularBuffer::new(5);
    assert!(buffer.data.is_empty());
    buffer.write(b"abc");
    assert_eq!(buffer.data, b"abc".to_vec());
    buffer.write(b"defg");
    assert_eq!(buffer.data, b"fgcde".to_vec());
    assert_eq!(buffer.get_contents(), b"cdefg".to_vec());
    let mut other = CircularBuffer::new(5);
    for byte in b"abcdefg" {
        other.write(&[*byte]);
    }
    assert_eq!(other.data, buffer.data);
}

#[test]
fn a_buffer_of_no_size_takes_nothing() {
    let mut buffer = CircularBuffer::new(0);
    buffer.write(b"");
    assert!(buffer.get_contents().is_empty());
}

#[test]
fn the_first_default_command_stands() {
    let mut choice = DefaultCommand::new();
    assert_eq!(get_default_command(&choice), None);
    set_default_command(&mut choice, "/bin/bash -l".to_string());
    set_default_command(&mut choice, "zsh".to_string());
    assert_eq!(get_default_command(&choice), Some("/bin/bash -l"));
}

#[test]
fn the_command_is_split_into_words() {
    let mut choice = DefaultCommand::new();
    let line = launch_command(&choice);
    assert_eq!((line.program.as_str(), line.args.len()), ("login", 0));
    set_default_command(&mut choice, "  /bin/bash   -l  -i ".to_string());
    let line = launch_command(&choice);
    assert_eq!(line.program, "/bin/bash");
    assert_eq!(line.args, vec!["-l".to_string(), "-i".to_string()]);
}

#[test]
fn a_blank_command_is_the_login_program() {
    let mut choice = DefaultCommand::new();
    set_default_command(&mut choice, " \t ".to_string());
    let line = launch_command(&choice);
    assert_eq!(line.program, "login");
    assert!(line.args.is_empty());
}

#[test]
fn sizes_are_numbers_or_numerals() {
    let size = terminal_size(&options(Value::from(24), Value::from("80"))).unwrap();
    assert_eq!(size, TerminalSize { rows: 24, cols: 80 });
    assert_eq!(
        terminal_size(&options(Value::from(70000), Value::from(true))),
        Err("rows must be a valid u16.".to_string())
    );
    assert_eq!(
        terminal_size(&options(Value::from(1), Value::from("wide"))),
        Err("cols must be a valid u16 string.".to_string())
    );
    assert_eq!(
        terminal_size(&options(Value::Null, Value::from(1))),
        Err("rows must be a number or a valid string.".to_string())
    );
}

#[test]
fn a_new_terminal_has_size_and_command() {
    let mut choice = DefaultCommand::new();
    set_default_command(&mut choice, "bash -l".to_string());
    let terminal = new_terminal(&options(Value::from(5), Value::from(6)), &choice).ok().unwrap();
    assert_eq!(terminal.size, TerminalSize { rows: 5, cols: 6 });
    assert_eq!(terminal.command.program, "bash");
    assert_eq!(
        new_terminal(&options(Value::from(5), Value::from(-6)), &choice).err().unwrap(),
        "cols must be a number or a valid string."
    );
}

#[test]
fn creating_goes_step_by_step() {
    assert!(matches!(create_terminal(CreateEvent::Requested), CreateAction::Open));
    assert!(matches!(create_terminal(CreateEvent::Opened(Ok(()))), CreateAction::Start));
    assert!(matches!(create_terminal(CreateEvent::Started(Ok(()))), CreateAction::CloneReader));
    assert!(matches!(
        create_terminal(CreateEvent::ReaderCloned(Ok(()))),
        CreateAction::TakeWriter
    ));
    assert!(matches!(create_terminal(CreateEvent::WriterTaken(Ok(()))), CreateAction::Register));
}

#[test]
fn the_other_way_is_tried_only_where_no_pair_opens() {
    assert!(matches!(
        create_terminal(CreateEvent::Opened(Err("denied".to_string()))),
        CreateAction::StartOtherwise
    ));
    assert!(matches!(
        create_terminal(CreateEvent::StartedOtherwise {
            open_error: "denied".to_string(),
            result: Ok(())
        }),
        CreateAction::CloneReader
    ));
    match create_terminal(CreateEvent::StartedOtherwise {
        open_error: "denied".to_string(),
        result: Err("barred".to_string()),
    }) {
        CreateAction::Refuse(reply) => assert_eq!(
            refusal(reply),
            "Failed to open PTY: denied; TIOCGPTPEER fallback: barred"
        ),
        _ => panic!("not refused"),
    }
    match create_terminal(CreateEvent::Started(Err("no such program".to_string()))) {
        CreateAction::Refuse(reply) => {
            assert_eq!(refusal(reply), "Failed to spawn command: no such program")
        }
        _ => panic!("not refused"),
    }
}

#[test]
fn a_started_process_is_killed_where_creating_fails() {
    match create_terminal(CreateEvent::ReaderCloned(Err("r".to_string()))) {
        CreateAction::KillAndRefuse(reply) => {
            assert_eq!(refusal(reply), "Failed to clone PTY reader: r")
        }
        _ => panic!("not killed"),
    }
    match create_terminal(CreateEvent::WriterTaken(Err("w".to_string()))) {
        CreateAction::KillAndRefuse(reply) => {
            assert_eq!(refusal(reply), "Failed to take PTY writer: w")
        }
        _ => panic!("not killed"),
    }
}

#[test]
fn a_terminal_is_found_until_it_is_terminated() {
    let mut table = SessionTable::new();
    assert!(table.has_room());
    let (session, displaced, reply) = register_terminal(&mut table, Some(4242));
    assert_eq!(displaced, None);
    assert!(matches!(reply, Reply::Created(pid) if pid == "4242"));
    let (other, _, _) = register_terminal(&mut table, Some(17));
    assert_ne!(session, other);
    assert_eq!(table.get(4242), Some(session));

    let size = TerminalSize { rows: 1, cols: 2 };
    match resize_terminal(&table, 4242, size) {
        ResizeAction::Resize { session: s, size: z } => assert_eq!((s, z), (session, size)),
        ResizeAction::Refuse(_) => panic!("refused"),
    }

    assert!(matches!(terminate_terminal(&mut table, 4242), TerminateAction::Kill(s) if s == session));
    match terminate_terminal(&mut table, 4242) {
        TerminateAction::Refuse(reply) => assert_eq!(refusal(reply), "Session not found"),
        TerminateAction::Kill(_) => panic!("killed twice"),
    }
    match resize_terminal(&table, 4242, size) {
        ResizeAction::Refuse(reply) => assert_eq!(refusal(reply), "Session not found"),
        ResizeAction::Resize { .. } => panic!("resized"),
    }
    assert_eq!(table.get(17), Some(other));
}

#[test]
fn a_process_number_that_comes_again_displaces_the_session() {
    let mut table = SessionTable::new();
    let (first, _, _) = register_terminal(&mut table, None);
    let (second, displaced, reply) = register_terminal(&mut table, Some(0));
    assert_eq!(displaced, Some(first));
    assert_ne!(first, second);
    assert_eq!(table.get(0), Some(second));
    assert!(matches!(reply, Reply::Created(pid) if pid == "0"));
}

#[test]
fn outcomes_are_answered() {
    assert!(matches!(resize_reply(Ok(())), Reply::Success));
    assert_eq!(refusal(resize_reply(Err("gone".to_string()))), "Failed to resize: gone");
    assert!(matches!(terminate_reply(9, Ok(())), Reply::Success));
    assert_eq!(
        refusal(terminate_reply(9, Err("gone".to_string()))),
        "Failed to terminate terminal 9: gone"
    );
}

#[test]
fn a_session_notes_how_its_process_ended() {
    let mut session = TerminalSession::new();
    assert_eq!(session.exit.status, None);
    assert_eq!(session.output.chunk_written(b"x"), None);
    session.exit.exited(None);
    assert_eq!(session.exit.status, Some(false));
    session.exit.exited(Some(true));
    assert_eq!(session.exit.status, Some(true));
}

#[test]
fn output_goes_to_a_client_only_while_it_is_there() {
    let mut output = LiveOutput::new();
    assert_eq!(output.chunk_written(b"a"), None);
    assert_eq!(output.client_came(Some(b"a".to_vec())), Some(b"a".to_vec()));
    assert_eq!(output.chunk_written(b"b"), Some(b"b".to_vec()));
    output.client_left();
    assert_eq!(output.chunk_written(b"c"), None);
    assert_eq!(output.client_came(Some(vec![])), None);
    assert_eq!(output.chunk_written(b"d"), Some(b"d".to_vec()));
}

#[test]
fn a_client_is_live_where_earlier_output_cannot_be_read() {
    let mut output = LiveOutput::new();
    assert_eq!(output.client_came(None), None);
    assert_eq!(output.chunk_written(b"x"), Some(b"x".to_vec()));
}

#[test]
fn a_client_sees_each_byte_once() {
    for came_after in 0..6usize {
        let mut output = LiveOutput::new();
        let mut coalescer = Coalescer::new();
        let mut kept: Vec<u8> = Vec::new();
        let mut seen: Vec<u8> = Vec::new();
        for i in 0..6usize {
            if i == came_after {
                let start = tail_start(kept.len() as u64, MAX_SCROLLBACK_BYTES).unwrap_or(0);
                let read = kept[start as usize..].to_vec();
                seen.extend(output.client_came(Some(read)).unwrap_or_default());
            }
            let chunk = vec![i as u8; 70_000 + i];
            let send = output.chunk_written(&chunk);
            kept.extend_from_slice(&chunk);
            if let Some(bytes) = send {
                if let SocketAction::Send(bytes) = coalescer.step(SocketEvent::Output(bytes)) {
                    seen.extend(bytes);
                }
            }
        }
        if let SocketAction::SendLast(Some(bytes)) = coalescer.step(SocketEvent::OutputEnded) {
            seen.extend(bytes);
        }
        let before: usize = (0..came_after).map(|i| 70_000 + i).sum();
        let from = before.saturating_sub(MAX_SCROLLBACK_BYTES);
        assert_eq!(seen, kept[from..].to_vec());
    }
}

#[test]
fn the_scrollback_file_is_named_after_the_process() {
    assert_eq!(Scrollback::new(b"/tmp", 31).path(), &b"/tmp/axs_scrollback_31.bin"[..]);
    assert_eq!(Scrollback::new(b"/tmp/", 0).path(), &b"/tmp/axs_scrollback_0.bin"[..]);
    assert_ne!(Scrollback::new(b"/t", 1).path(), Scrollback::new(b"/t", 11).path());
}

#[test]
fn the_tail_of_a_file_is_read() {
    assert_eq!(tail_start(0, MAX_SCROLLBACK_BYTES), None);
    assert_eq!(tail_start(1, MAX_SCROLLBACK_BYTES), Some(0));
    assert_eq!(tail_start(262_144, MAX_SCROLLBACK_BYTES), Some(0));
    assert_eq!(tail_start(262_145, MAX_SCROLLBACK_BYTES), Some(1));
    assert_eq!(tail_start(u64::MAX, 10), Some(u64::MAX - 10));
}

#[test]
fn exits_are_reported() {
    let good = exit_message(true);
    assert_eq!(good.exit_code, Some(0));
    assert_eq!(good.signal, None);
    assert_eq!(good.message, "Process exited successfully");
    let bad = exit_message(false);
    assert_eq!(bad.exit_code, Some(1));
    assert_eq!(bad.message, "Process exited with non-zero status");
    assert_eq!(exit_frame("{\"a\":1}"), "{\"type\":\"exit\",\"data\":{\"a\":1}}");
}

#[test]
fn a_client_is_served_while_the_process_runs() {
    assert!(matches!(connect(None), Connection::NotFound));
    assert!(matches!(connect(Some(None)), Connection::Served));
    match connect(Some(Some(false))) {
        Connection::Ended(report) => assert_eq!(report.exit_code, Some(1)),
        _ => panic!("not ended"),
    }
}

#[test]
fn output_waits_for_the_clock() {
    let mut coalescer = Coalescer::new();
    assert!(matches!(coalescer.step(SocketEvent::Tick), SocketAction::Wait));
    assert!(matches!(coalescer.step(SocketEvent::Output(b"ab".to_vec())), SocketAction::Wait));
    assert!(matches!(coalescer.step(SocketEvent::Output(b"c".to_vec())), SocketAction::Wait));
    let action = coalescer.step(SocketEvent::Tick);
    assert!(matches!(&action, SocketAction::Send(b) if *b == b"abc".to_vec()));
    assert!(socket_goes_on(&action, true));
    assert!(!socket_goes_on(&action, false));
    assert!(matches!(coalescer.step(SocketEvent::Tick), SocketAction::Wait));
}

#[test]
fn a_lot_of_output_is_sent_at_once() {
    let mut coalescer = Coalescer::new();
    let almost = vec![7u8; FLUSH_AT - 1];
    assert!(matches!(coalescer.step(SocketEvent::Output(almost)), SocketAction::Wait));
    match coalescer.step(SocketEvent::Output(vec![8])) {
        SocketAction::Send(bytes) => {
            assert_eq!(bytes.len(), FLUSH_AT);
            assert_eq!(bytes[FLUSH_AT - 1], 8);
        }
        _ => panic!("not sent"),
    }
}

#[test]
fn the_rest_is_sent_when_the_process_ends() {
    let mut coalescer = Coalescer::new();
    coalescer.step(SocketEvent::Output(b"x".to_vec()));
    let action = coalescer.step(SocketEvent::Exited {
        drained: vec![b"y".to_vec(), b"z".to_vec()],
        status: Some(true),
    });
    assert!(!socket_goes_on(&action, true));
    match action {
        SocketAction::ReportExit { last, report } => {
            assert_eq!(last, Some(b"xyz".to_vec()));
            assert_eq!(report.exit_code, Some(0));
        }
        _ => panic!("no report"),
    }
    match coalescer.step(SocketEvent::Exited { drained: vec![], status: None }) {
        SocketAction::ReportExit { last, report } => {
            assert_eq!(last, None);
            assert_eq!(report.exit_code, Some(1));
        }
        _ => panic!("no report"),
    }
}

#[test]
fn the_rest_is_sent_when_the_output_ends() {
    let mut coalescer = Coalescer::new();
    assert!(matches!(coalescer.step(SocketEvent::OutputEnded), SocketAction::SendLast(None)));
    coalescer.step(SocketEvent::Output(b"q".to_vec()));
    assert!(matches!(
        coalescer.step(SocketEvent::OutputEnded),
        SocketAction::SendLast(Some(b)) if b == b"q".to_vec()
    ));
}

#[test]
fn what_the_client_types_is_written() {
    let mut coalescer = Coalescer::new();
    assert!(matches!(
        coalescer.step(SocketEvent::Client(WsMessage::Text("lsé".to_string()))),
        SocketAction::Write(b) if b == "lsé".as_bytes().to_vec()
    ));
    assert!(matches!(
        coalescer.step(SocketEvent::Client(WsMessage::Binary(vec![3]))),
        SocketAction::Write(b) if b == vec![3]
    ));
    assert!(matches!(
        coalescer.step(SocketEvent::Client(WsMessage::Ping(vec![]))),
        SocketAction::Wait
    ));
    assert!(matches!(
        coalescer.step(SocketEvent::Client(WsMessage::Pong(vec![]))),
        SocketAction::Wait
    ));
    assert!(matches!(
        coalescer.step(SocketEvent::Client(WsMessage::Close)),
        SocketAction::Stop
    ));
    assert!(matches!(coalescer.step(SocketEvent::ClientGone), SocketAction::Stop));
}

#[test]
fn every_byte_of_output_is_sent_in_order() {
    let mut coalescer = Coalescer::new();
    let mut produced: Vec<u8> = Vec::new();
    let mut sent: Vec<u8> = Vec::new();
    for i in 0..500usize {
        let chunk = vec![(i % 251) as u8; (i * 37) % 3000];
        produced.extend_from_slice(&chunk);
        let mut actions = vec![coalescer.step(SocketEvent::Output(chunk))];
        if i % 13 == 0 {
            actions.push(coalescer.step(SocketEvent::Tick));
        }
        for action in actions {
            if let SocketAction::Send(bytes) = action {
                assert!(!bytes.is_empty());
                sent.extend_from_slice(&bytes);
            }
        }
    }
    if let SocketAction::SendLast(Some(bytes)) = coalescer.step(SocketEvent::OutputEnded) {
        assert!(bytes.len() < FLUSH_AT);
        sent.extend_from_slice(&bytes);
    }
    assert_eq!(sent, produced);
}

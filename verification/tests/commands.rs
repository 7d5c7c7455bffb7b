use acodex_server::terminal::execute::{
    collecting_goes_on, command_size, execute_command, output_reply, plain_reply, strip_ansi, timeout_error,
    working_directory, CollectAction, CollectEvent, Collector, COMMAND_TIMEOUT_NANOS,
};
use acodex_server::terminal::types::{ExecuteCommandOption, Reply, TerminalSize};

fn request(cwd: Option<&str>, u_cwd: Option<&str>) -> ExecuteCommandOption {
    ExecuteCommandOption {
        command: "ls -l".to_string(),
        cwd: cwd.map(|s| s.to_string()),
        u_cwd: u_cwd.map(|s| s.to_string()),
    }
}

fn parts(reply: Reply) -> (u16, String, Option<String>) {
    match reply {
        Reply::Command { status, body } => (status, body.output, body.error),
        _ => panic!("no command reply"),
    }
}

#[test]
fn the_named_directory_comes_first() {
    let dir = |r: &ExecuteCommandOption, home: Option<&str>, current: Option<&[u8]>| {
        String::from_utf8(working_directory(r, home, current)).unwrap()
    };
    assert_eq!(dir(&request(Some("/a"), Some("/b")), Some("/h"), None), "/a");
    assert_eq!(dir(&request(None, Some("/b")), Some("/h"), None), "/b");
    assert_eq!(dir(&request(Some(""), Some("/b")), Some("/h"), None), "/h");
    assert_eq!(dir(&request(None, None), Some("/h"), Some(b"/c")), "/h");
    assert_eq!(dir(&request(None, None), None, Some(b"/c")), "/c");
    assert_eq!(dir(&request(None, None), None, None), ".");
}

#[test]
fn a_missing_directory_is_refused() {
    assert_eq!(
        parts(execute_command(&request(None, None), false).err().unwrap()),
        (400, String::new(), Some("Working directory does not exist".to_string()))
    );
    let line = execute_command(&request(None, None), true).ok().unwrap();
    assert_eq!(line.program, "sh");
    assert_eq!(line.args, vec!["-c".to_string(), "ls -l".to_string()]);
    assert_eq!(command_size(), TerminalSize { rows: 24, cols: 80 });
}

#[test]
fn output_is_collected_until_it_ends() {
    let mut collector = Collector::new();
    assert_eq!(collector.step(CollectEvent::Data(b"ab".to_vec())), CollectAction::CheckProcess);
    assert_eq!(collector.step(CollectEvent::Quiet(Some(5))), CollectAction::CheckProcess);
    assert_eq!(collector.step(CollectEvent::Data(b"c".to_vec())), CollectAction::CheckProcess);
    assert_eq!(collector.step(CollectEvent::Ended), CollectAction::Finish);
    assert_eq!(collector.into_output(), b"abc".to_vec());
}

#[test]
fn a_command_that_takes_too_long_is_given_up() {
    let mut collector = Collector::new();
    assert_eq!(
        collector.step(CollectEvent::Quiet(Some(COMMAND_TIMEOUT_NANOS))),
        CollectAction::CheckProcess
    );
    assert_eq!(
        collector.step(CollectEvent::Quiet(Some(30_000_000_001))),
        CollectAction::GiveUp
    );
    assert_eq!(collector.step(CollectEvent::Quiet(None)), CollectAction::CheckProcess);
    assert_eq!(timeout_error(Ok(())), "Command execution timed out");
    assert_eq!(timeout_error(Err("not killed".to_string())), "not killed");
}

#[test]
fn escape_sequences_are_taken_out() {
    assert_eq!(strip_ansi("plain, [31m and all"), "plain, [31m and all");
    assert_eq!(strip_ansi("\u{1b}[31mred\u{1b}[0m"), "red");
    assert_eq!(strip_ansi("\u{1b}[1;32mok\u{1b}[m\u{1b}[K"), "ok");
    assert_eq!(strip_ansi("a\u{1b}[12Ab\u{1b}[|c"), "abc");
    assert_eq!(strip_ansi("\u{1b}[38;5;200mx"), "\u{1b}[38;5;200mx");
    assert_eq!(strip_ansi("\u{1b}[?25l"), "\u{1b}[?25l");
}

#[test]
fn output_is_answered_as_plain_text() {
    assert_eq!(
        parts(output_reply(Some(Ok(b"\x1b[31mhi\x1b[0m\r\n".to_vec())))),
        (200, "hi\r\n".to_string(), None)
    );
    assert_eq!(
        parts(output_reply(Some(Ok(b"a\xffb".to_vec())))),
        (200, "a\u{fffd}b".to_string(), None)
    );
}

#[test]
fn failures_are_answered() {
    assert_eq!(
        parts(output_reply(Some(Err("Command execution timed out".to_string())))),
        (500, String::new(), Some("Command execution timed out".to_string()))
    );
    assert_eq!(
        parts(output_reply(None)),
        (500, String::new(), Some("Internal server error".to_string()))
    );
    assert_eq!(
        parts(plain_reply(Some(Ok("x".to_string())))),
        (200, "x".to_string(), None)
    );
}

#[test]
fn collecting_ends_with_the_process() {
    assert!(collecting_goes_on(CollectAction::CheckProcess, false));
    assert!(!collecting_goes_on(CollectAction::CheckProcess, true));
    for ended in [false, true] {
        assert!(!collecting_goes_on(CollectAction::GiveUp, ended));
        assert!(!collecting_goes_on(CollectAction::Finish, ended));
    }
}

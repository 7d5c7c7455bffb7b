use acodex_server::terminal::pty_fallback::{
    after_read, after_write, close_fds_above_stderr, end_of_input, failure,
    fallback_open_and_spawn, process_group_leader, FallbackAction, FallbackEvent, Stream, Transfer,
    WriterSlot, DEFAULT_FD_LIMIT, EINTR, EIO, TIOCGPTPEER,
};

fn err() -> Result<(), String> {
    Err("E".to_string())
}

fn report(event: FallbackEvent) -> String {
    match fallback_open_and_spawn("bash", event) {
        FallbackAction::Fail(report) => report,
        _ => panic!("no failure"),
    }
}

#[test]
fn the_numbers_are_those_of_the_system() {
    assert_eq!(EINTR, libc::EINTR);
    assert_eq!(EIO, libc::EIO);
    assert_eq!(TIOCGPTPEER, 0x5441);
}

#[test]
fn the_steps_follow_each_other() {
    let step = |event| fallback_open_and_spawn("bash", event);
    assert!(matches!(step(FallbackEvent::Begun), FallbackAction::OpenMaster));
    assert!(matches!(step(FallbackEvent::MasterOpened(Ok(()))), FallbackAction::Grant));
    assert!(matches!(step(FallbackEvent::Granted(Ok(()))), FallbackAction::Unlock));
    assert!(matches!(step(FallbackEvent::Unlocked(Ok(()))), FallbackAction::OpenSlave));
    assert!(matches!(step(FallbackEvent::SlaveOpened(Ok(()))), FallbackAction::SetSize));
    assert!(matches!(
        step(FallbackEvent::SizeSet(Ok(()))),
        FallbackAction::Duplicate(Stream::Stdin)
    ));
    assert!(matches!(
        step(FallbackEvent::Duplicated { stream: Stream::Stdin, result: Ok(()) }),
        FallbackAction::Duplicate(Stream::Stdout)
    ));
    assert!(matches!(
        step(FallbackEvent::Duplicated { stream: Stream::Stdout, result: Ok(()) }),
        FallbackAction::Duplicate(Stream::Stderr)
    ));
    assert!(matches!(
        step(FallbackEvent::Duplicated { stream: Stream::Stderr, result: Ok(()) }),
        FallbackAction::Spawn
    ));
    assert!(matches!(step(FallbackEvent::Spawned(Ok(()))), FallbackAction::Done));
}

#[test]
fn a_size_that_is_not_set_is_no_failure() {
    assert!(matches!(
        fallback_open_and_spawn("bash", FallbackEvent::SizeSet(err())),
        FallbackAction::Duplicate(Stream::Stdin)
    ));
}

#[test]
fn each_failure_is_reported() {
    assert_eq!(report(FallbackEvent::MasterOpened(err())), "open(/dev/ptmx) failed: E");
    assert_eq!(report(FallbackEvent::Granted(err())), "grantpt failed: E");
    assert_eq!(report(FallbackEvent::Unlocked(err())), "unlockpt failed: E");
    assert_eq!(report(FallbackEvent::SlaveOpened(err())), "ioctl(TIOCGPTPEER) failed: E");
    assert_eq!(
        report(FallbackEvent::Duplicated { stream: Stream::Stdout, result: err() }),
        "dup(slave_fd) failed: E"
    );
    assert_eq!(report(FallbackEvent::Spawned(err())), "spawn 'bash' failed: E");
    assert_eq!(failure("ioctl(TIOCSWINSZ)", "E"), "ioctl(TIOCSWINSZ) failed: E");
}

#[test]
fn interrupted_calls_are_tried_again() {
    assert_eq!(after_read(12, None), Transfer::Done(12));
    assert_eq!(after_read(0, None), Transfer::Done(0));
    assert_eq!(after_read(-1, Some(EINTR)), Transfer::Again);
    assert_eq!(after_read(-1, Some(EIO)), Transfer::Done(0));
    assert_eq!(after_read(-1, Some(9)), Transfer::Failed);
    assert_eq!(after_read(-1, None), Transfer::Failed);
    assert_eq!(after_write(3, None), Transfer::Done(3));
    assert_eq!(after_write(-1, Some(EINTR)), Transfer::Again);
    assert_eq!(after_write(-1, Some(EIO)), Transfer::Failed);
}

#[test]
fn the_writer_is_taken_once() {
    let mut slot = WriterSlot::new();
    assert_eq!(slot.take_writer(), Ok(()));
    for _ in 0..2 {
        assert_eq!(slot.take_writer(), Err("cannot take writer more than once".to_string()));
    }
}

#[test]
fn small_answers_of_the_system_are_read() {
    assert_eq!(process_group_leader(5), Some(5));
    assert_eq!(process_group_leader(0), None);
    assert_eq!(process_group_leader(-1), None);
    assert_eq!(end_of_input(4), Some([b'\n', 4]));
    assert_eq!(end_of_input(0), None);
}

#[test]
fn descriptors_are_closed_up_to_the_limit() {
    for no_limit in [libc::RLIM_INFINITY as u64, u64::from(u32::MAX), u64::MAX] {
        assert_eq!(close_fds_above_stderr(true, Some(9), no_limit), None);
        assert_eq!(close_fds_above_stderr(false, Some(9), no_limit), Some(9));
        assert_eq!(
            close_fds_above_stderr(false, Some(no_limit), no_limit),
            Some(DEFAULT_FD_LIMIT)
        );
        assert_eq!(close_fds_above_stderr(false, None, no_limit), Some(1024));
    }
}

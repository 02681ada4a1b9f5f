use es_wifi::command::Ipv4;
use es_wifi::ops::{
    boot_followup, close_commands, close_result, connect_commands, connect_result, join_commands,
    join_result, join_step_error, CloseOutcome, ConnectOutcome, JoinOutcome,
};
use es_wifi::pool::SocketPool;
use es_wifi::{JoinError, SocketError};

#[test]
fn join_sequence_builds_the_five_commands() {
    let cmds = join_commands(&b"net".to_vec(), &b"pw".to_vec());
    assert_eq!(cmds.len(), 5);
    assert_eq!(cmds[0], vec![b'C', b'B', b'=', b'2', b'\r', 0x0A]);
    assert_eq!(cmds[1], vec![b'C', b'1', b'=', b'n', b'e', b't', b'\r', 0x0A]);
    assert_eq!(cmds[2], vec![b'C', b'2', b'=', b'p', b'w', b'\r']);
    assert_eq!(cmds[3], vec![b'C', b'3', b'=', b'4', b'\r', 0x0A]);
    assert_eq!(cmds[4], vec![b'C', b'0', b'\r', 0x0A]);
}

#[test]
fn join_step_errors_classify_the_failing_command() {
    assert_eq!(join_step_error(0), JoinError::InvalidSsid);
    assert_eq!(join_step_error(1), JoinError::InvalidSsid);
    assert_eq!(join_step_error(2), JoinError::InvalidPassword);
    assert_eq!(join_step_error(3), JoinError::Unknown);
    assert_eq!(join_step_error(4), JoinError::Unknown);
}

#[test]
fn join_result_passes_the_address_through() {
    let ip = Ipv4 { a: 10, b: 0, c: 0, d: 7 };
    assert_eq!(join_result(Some(JoinOutcome::Joined(ip))), Ok(ip));
}

#[test]
fn reported_join_failure_is_an_association_error() {
    assert_eq!(
        join_result(Some(JoinOutcome::Failed)),
        Err(JoinError::UnableToAssociate)
    );
}

#[test]
fn unparseable_join_response_is_an_association_error() {
    assert_eq!(join_result(None), Err(JoinError::UnableToAssociate));
}

#[test]
fn connect_sequence_builds_the_five_commands() {
    let ip = Ipv4 { a: 192, b: 168, c: 1, d: 2 };
    let cmds = connect_commands(1, ip, 8080);
    assert_eq!(cmds.len(), 5);
    assert_eq!(cmds[0], vec![b'P', b'0', b'=', b'1', b'\r', 0x0A]);
    assert_eq!(cmds[1], vec![b'P', b'1', b'=', b'0', b'\r', 0x0A]);
    assert_eq!(
        cmds[2],
        vec![
            b'P', b'3', b'=', b'1', b'9', b'2', b'.', b'1', b'6', b'8', b'.', b'1', b'.', b'2',
            b'\r', 0x0A
        ]
    );
    assert_eq!(cmds[3], vec![b'P', b'4', b'=', b'8', b'0', b'8', b'0', b'\r']);
    assert_eq!(cmds[4], vec![b'P', b'6', b'=', b'1', b'\r', 0x0A]);
}

#[test]
fn accepted_connect_marks_the_handle_connected() {
    let mut pool = SocketPool::new();
    let h = pool.open().unwrap();
    let r = connect_result(&mut pool, h, Some(ConnectOutcome::Accepted));
    assert_eq!(r, Ok(()));
    assert!(pool.is_connected(h));
}

#[test]
fn refused_connect_is_a_connect_error() {
    let mut pool = SocketPool::new();
    let h = pool.open().unwrap();
    let r = connect_result(&mut pool, h, Some(ConnectOutcome::Refused));
    assert_eq!(r, Err(SocketError::ConnectError));
    assert!(!pool.is_connected(h));
}

#[test]
fn unparseable_connect_response_is_a_connect_error() {
    let mut pool = SocketPool::new();
    let h = pool.open().unwrap();
    let r = connect_result(&mut pool, h, None);
    assert_eq!(r, Err(SocketError::ConnectError));
    assert!(!pool.is_connected(h));
}

#[test]
fn close_sequence_builds_the_two_commands() {
    let cmds = close_commands(2);
    assert_eq!(cmds.len(), 2);
    assert_eq!(cmds[0], vec![b'P', b'0', b'=', b'2', b'\r', 0x0A]);
    assert_eq!(cmds[1], vec![b'P', b'6', b'=', b'0', b'\r', 0x0A]);
}

#[test]
fn confirmed_close_succeeds_and_frees_the_handle() {
    let mut pool = SocketPool::new();
    let h = pool.open().unwrap();
    pool.set_connected(h);
    let r = close_result(&mut pool, h, Some(CloseOutcome::Closed));
    assert_eq!(r, Ok(()));
    assert!(!pool.is_connected(h));
    assert_eq!(pool.open(), Ok(h));
}

#[test]
fn refused_close_still_frees_the_handle() {
    let mut pool = SocketPool::new();
    let h = pool.open().unwrap();
    pool.set_connected(h);
    let r = close_result(&mut pool, h, Some(CloseOutcome::Refused));
    assert_eq!(r, Err(SocketError::CloseError));
    assert_eq!(pool.open(), Ok(h));
}

#[test]
fn unparseable_close_response_still_frees_the_handle() {
    let mut pool = SocketPool::new();
    let h = pool.open().unwrap();
    let r = close_result(&mut pool, h, None);
    assert_eq!(r, Err(SocketError::CloseError));
    assert_eq!(pool.open(), Ok(h));
}

#[test]
fn banner_prompt_is_answered_with_verbosity_off() {
    let banner = vec![b'\r', b'\n', b'>', b' '];
    assert_eq!(
        boot_followup(&banner),
        Some(vec![b'M', b'T', b'=', b'1', b'\r', 0x0A])
    );
}

#[test]
fn missing_banner_is_tolerated_silently() {
    assert_eq!(boot_followup(&vec![0, 1, 2, 3]), None);
    assert_eq!(boot_followup(&Vec::new()), None);
}

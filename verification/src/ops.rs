//! The high-level operations, as decisions over parsed outcomes.
//!
//! Every operation against the module is a short sequence of commands on the
//! shared channel followed by one parsed response. Response grammar parsing
//! and the hardware exchanges are outside collaborators; the functions here
//! build the exact command sequences and turn a parsed outcome — or the
//! absence of one, when a response failed to parse — into the operation's
//! result and its effect on the socket pool.

use vstd::prelude::*;
use crate::JoinError;
use crate::SocketError;
use crate::codec::banner_seen;
use crate::codec::banner_prefix;
use crate::command::SEP;
use crate::command::Ipv4;
use crate::command::command_text;
use crate::command::dec_digits;
use crate::command::ipv4_text;
use crate::command::security_mode_command;
use crate::command::ssid_command;
use crate::command::passphrase_command;
use crate::command::join_flag_command;
use crate::command::join_trigger_command;
use crate::command::select_socket_command;
use crate::command::tcp_mode_command;
use crate::command::remote_address_command;
use crate::command::remote_port_command;
use crate::command::connect_trigger_command;
use crate::command::close_connection_command;
use crate::command::verbosity_off_command;
use crate::pool::SOCKET_COUNT;
use crate::pool::HandleState;
use crate::pool::SocketPool;

verus! {

/// Parsed outcome of the join trigger's response.
#[derive(Debug, Clone, Copy, PartialEq, Eq, Structural)]
pub enum JoinOutcome {
    /// Joined; the module reported this station address.
    Joined(Ipv4),
    /// The module reported a join failure.
    Failed,
}

/// Parsed outcome of the connect trigger's response.
#[derive(Debug, Clone, Copy, PartialEq, Eq, Structural)]
pub enum ConnectOutcome {
    /// The connection is established.
    Accepted,
    /// The module reported anything other than success.
    Refused,
}

/// Parsed outcome of the close command's response.
#[derive(Debug, Clone, Copy, PartialEq, Eq, Structural)]
pub enum CloseOutcome {
    /// The connection is closed.
    Closed,
    /// The module reported anything other than success.
    Refused,
}

/// The command every drained boot banner is answered with, when the banner
/// shows the shell prompt: disable verbosity. A missing banner is best
/// effort — the boot sequence goes on without sending anything, because
/// some module variants answer the very first poll unreliably.
pub fn boot_followup(banner: &Vec<u8>) -> (r: Option<Vec<u8>>)
    ensures
        match r {
            Some(cmd) => {
                &&& banner@.len() >= 4 && banner@.take(4) == banner_prefix()
                &&& cmd@ == command_text(seq![77u8, 84u8, SEP, 49u8])
                &&& cmd@.len() % 2 == 0
            },
            None => !(banner@.len() >= 4 && banner@.take(4) == banner_prefix()),
        },
{
    if banner_seen(banner) {
        Some(verbosity_off_command())
    } else {
        None
    }
}

/// The five-command join sequence: select security mode, set the network
/// name, set the passphrase, arm join-on-configure, and trigger the join.
pub fn join_commands(ssid: &Vec<u8>, passphrase: &Vec<u8>) -> (cmds: Vec<Vec<u8>>)
    ensures
        cmds@.len() == 5,
        cmds@[0]@ == command_text(seq![67u8, 66u8, SEP, 50u8]),
        cmds@[1]@ == command_text(seq![67u8, 49u8, SEP] + ssid@),
        cmds@[2]@ == command_text(seq![67u8, 50u8, SEP] + passphrase@),
        cmds@[3]@ == command_text(seq![67u8, 51u8, SEP, 52u8]),
        cmds@[4]@ == command_text(seq![67u8, 48u8]),
        forall|i: int| 0 <= i < 5 ==> (#[trigger] cmds@[i])@.len() % 2 == 0,
{
    let mut cmds: Vec<Vec<u8>> = Vec::new();
    cmds.push(security_mode_command());
    cmds.push(ssid_command(ssid));
    cmds.push(passphrase_command(passphrase));
    cmds.push(join_flag_command());
    cmds.push(join_trigger_command());
    cmds
}

/// The join error reported when the numbered step of the join sequence
/// fails on the wire: a rejected security mode or network name is an SSID
/// error, a rejected passphrase a password error, the rest unknown.
pub fn join_step_error(step: usize) -> (e: JoinError)
    requires
        step < 5,
    ensures
        step == 0 ==> e == JoinError::InvalidSsid,
        step == 1 ==> e == JoinError::InvalidSsid,
        step == 2 ==> e == JoinError::InvalidPassword,
        step == 3 ==> e == JoinError::Unknown,
        step == 4 ==> e == JoinError::Unknown,
{
    if step <= 1 {
        JoinError::InvalidSsid
    } else if step == 2 {
        JoinError::InvalidPassword
    } else {
        JoinError::Unknown
    }
}

/// The result of the whole join, from the join trigger's parsed outcome.
/// Success is owed exactly when the module reported a join with an address;
/// a reported failure and an unparseable response both map to an
/// association error.
pub fn join_result(outcome: Option<JoinOutcome>) -> (r: Result<Ipv4, JoinError>)
    ensures
        match outcome {
            Some(JoinOutcome::Joined(ip)) => r == Ok::<Ipv4, JoinError>(ip),
            Some(JoinOutcome::Failed) => r == Err::<Ipv4, JoinError>(
                JoinError::UnableToAssociate,
            ),
            None => r == Err::<Ipv4, JoinError>(JoinError::UnableToAssociate),
        },
{
    match outcome {
        Some(JoinOutcome::Joined(ip)) => Ok(ip),
        Some(JoinOutcome::Failed) => Err(JoinError::UnableToAssociate),
        None => Err(JoinError::UnableToAssociate),
    }
}

/// The five-command connect sequence for a handle: select the socket, set
/// TCP mode, set the remote address, set the remote port, and trigger the
/// connect.
pub fn connect_commands(handle: u8, ip: Ipv4, port: u16) -> (cmds: Vec<Vec<u8>>)
    ensures
        cmds@.len() == 5,
        cmds@[0]@ == command_text(seq![80u8, 48u8, SEP] + dec_digits(handle as nat)),
        cmds@[1]@ == command_text(seq![80u8, 49u8, SEP, 48u8]),
        cmds@[2]@ == command_text(seq![80u8, 51u8, SEP] + ipv4_text(ip)),
        cmds@[3]@ == command_text(seq![80u8, 52u8, SEP] + dec_digits(port as nat)),
        cmds@[4]@ == command_text(seq![80u8, 54u8, SEP, 49u8]),
        forall|i: int| 0 <= i < 5 ==> (#[trigger] cmds@[i])@.len() % 2 == 0,
{
    let mut cmds: Vec<Vec<u8>> = Vec::new();
    cmds.push(select_socket_command(handle));
    cmds.push(tcp_mode_command());
    cmds.push(remote_address_command(ip));
    cmds.push(remote_port_command(port));
    cmds.push(connect_trigger_command());
    cmds
}

/// Settles a connect from the trigger's parsed outcome: on acceptance the
/// handle is marked connected in the pool and the connect succeeds; any
/// other outcome, or an unparseable response, is a uniform connect error
/// and leaves the pool unchanged.
pub fn connect_result(pool: &mut SocketPool, handle: u8, outcome: Option<ConnectOutcome>) -> (r:
    Result<(), SocketError>)
    requires
        old(pool).wf(),
        (handle as int) < SOCKET_COUNT,
    ensures
        final(pool).wf(),
        match outcome {
            Some(ConnectOutcome::Accepted) => {
                &&& r == Ok::<(), SocketError>(())
                &&& final(pool).states@ == old(pool).states@.update(
                    handle as int,
                    HandleState::Connected,
                )
            },
            _ => {
                &&& r == Err::<(), SocketError>(SocketError::ConnectError)
                &&& final(pool).states@ == old(pool).states@
            },
        },
{
    match outcome {
        Some(ConnectOutcome::Accepted) => {
            pool.set_connected(handle);
            Ok(())
        },
        _ => Err(SocketError::ConnectError),
    }
}

/// The two-command close sequence for a handle: select the socket, then
/// disable its connection.
pub fn close_commands(handle: u8) -> (cmds: Vec<Vec<u8>>)
    ensures
        cmds@.len() == 2,
        cmds@[0]@ == command_text(seq![80u8, 48u8, SEP] + dec_digits(handle as nat)),
        cmds@[1]@ == command_text(seq![80u8, 54u8, SEP, 48u8]),
        forall|i: int| 0 <= i < 2 ==> (#[trigger] cmds@[i])@.len() % 2 == 0,
{
    let mut cmds: Vec<Vec<u8>> = Vec::new();
    cmds.push(select_socket_command(handle));
    cmds.push(close_connection_command());
    cmds
}

/// Settles a close from its parsed outcome. Close is best effort: whatever
/// the module answered — even nothing parseable — the local handle is
/// released from the pool, on the theory that the remote side may already
/// be gone; only a confirmed close reports success.
pub fn close_result(pool: &mut SocketPool, handle: u8, outcome: Option<CloseOutcome>) -> (r:
    Result<(), SocketError>)
    requires
        old(pool).wf(),
        (handle as int) < SOCKET_COUNT,
    ensures
        final(pool).wf(),
        final(pool).states@ == old(pool).states@.update(handle as int, HandleState::Free),
        match outcome {
            Some(CloseOutcome::Closed) => r == Ok::<(), SocketError>(()),
            _ => r == Err::<(), SocketError>(SocketError::CloseError),
        },
{
    pool.close(handle);
    match outcome {
        Some(CloseOutcome::Closed) => Ok(()),
        _ => Err(SocketError::CloseError),
    }
}

} // verus!

//! Construction of the module's textual commands.
//!
//! Every command is a short instruction of the form `KV=value` (or a bare
//! verb such as `C0`), terminated by a carriage return and padded to even
//! length so that it splits into whole byte pairs on the wire. Numeric
//! arguments are rendered in decimal, remote addresses in dotted-quad form.

use vstd::prelude::*;
use crate::codec::pad_to_even;
use crate::codec::padded;

verus! {

/// Carriage return, the terminator of every command.
pub const CR: u8 = 13;

/// The `=` separator between a command's verb and its argument.
pub const SEP: u8 = 61;

/// Decimal digits of a number, most significant first.
pub open spec fn dec_digits(n: nat) -> Seq<u8>
    decreases n,
{
    if n < 10 {
        seq![(48 + n) as u8]
    } else {
        dec_digits(n / 10).push((48 + n % 10) as u8)
    }
}

/// Appends the decimal rendering of `n` to a buffer.
pub fn push_decimal(out: &mut Vec<u8>, n: u32)
    ensures
        final(out)@ == old(out)@ + dec_digits(n as nat),
    decreases n,
{
    if n >= 10 {
        push_decimal(out, n / 10);
    }
    out.push(48 + (n % 10) as u8);
    proof {
        assert(out@ =~= old(out)@ + dec_digits(n as nat));
    }
}

/// The decimal rendering of a number as its own buffer.
pub fn decimal_bytes(n: u32) -> (r: Vec<u8>)
    ensures
        r@ == dec_digits(n as nat),
{
    let mut out: Vec<u8> = Vec::new();
    push_decimal(&mut out, n);
    out
}

/// A remote IPv4 address as the four plain octets of its dotted-quad form.
#[derive(Debug, Clone, Copy, PartialEq, Eq, Structural)]
pub struct Ipv4 {
    /// First octet.
    pub a: u8,
    /// Second octet.
    pub b: u8,
    /// Third octet.
    pub c: u8,
    /// Fourth octet.
    pub d: u8,
}

/// Dotted-quad text of an IPv4 address.
pub open spec fn ipv4_text(ip: Ipv4) -> Seq<u8> {
    dec_digits(ip.a as nat) + seq![46u8] + dec_digits(ip.b as nat) + seq![46u8] + dec_digits(
        ip.c as nat,
    ) + seq![46u8] + dec_digits(ip.d as nat)
}

/// Renders an IPv4 address in dotted-quad form.
pub fn ipv4_bytes(ip: Ipv4) -> (r: Vec<u8>)
    ensures
        r@ == ipv4_text(ip),
{
    let mut out: Vec<u8> = Vec::new();
    push_decimal(&mut out, ip.a as u32);
    out.push(46);
    push_decimal(&mut out, ip.b as u32);
    out.push(46);
    push_decimal(&mut out, ip.c as u32);
    out.push(46);
    push_decimal(&mut out, ip.d as u32);
    proof {
        assert(out@ =~= ipv4_text(ip));
    }
    out
}

/// The full on-link text of a command with the given body: the body, the
/// carriage-return terminator, and the pad byte when that leaves an odd
/// count.
pub open spec fn command_text(body: Seq<u8>) -> Seq<u8> {
    padded(body.push(CR))
}

/// Terminates a command body with a carriage return and pads it to even
/// length. Every command sent to the module goes through this, so every
/// encoded command stream has even length.
pub fn finish_command(body: Vec<u8>) -> (r: Vec<u8>)
    ensures
        r@ == command_text(body@),
        r@.len() % 2 == 0,
{
    let mut b = body;
    b.push(CR);
    pad_to_even(&mut b);
    b
}

/// Builds the command `<k0><k1>=<value>`, terminated and padded.
pub fn keyed_command(k0: u8, k1: u8, value: &Vec<u8>) -> (r: Vec<u8>)
    ensures
        r@ == command_text(seq![k0, k1, SEP] + value@),
        r@.len() % 2 == 0,
{
    let mut body: Vec<u8> = Vec::new();
    body.push(k0);
    body.push(k1);
    body.push(SEP);
    let mut i: usize = 0;
    while i < value.len()
        invariant
            i <= value@.len(),
            body@ == seq![k0, k1, SEP] + value@.take(i as int),
        decreases value@.len() - i,
    {
        body.push(value[i]);
        i = i + 1;
        proof {
            assert(body@ =~= seq![k0, k1, SEP] + value@.take(i as int));
        }
    }
    proof {
        assert(body@ =~= seq![k0, k1, SEP] + value@);
    }
    finish_command(body)
}

/// Builds the command selecting the socket every following command applies
/// to: `P0=<handle>`.
pub fn select_socket_command(handle: u8) -> (r: Vec<u8>)
    ensures
        r@ == command_text(seq![80u8, 48u8, SEP] + dec_digits(handle as nat)),
        r@.len() % 2 == 0,
{
    let value = decimal_bytes(handle as u32);
    keyed_command(80, 48, &value)
}

/// Builds the command setting the selected socket's protocol to TCP:
/// `P1=0`.
pub fn tcp_mode_command() -> (r: Vec<u8>)
    ensures
        r@ == command_text(seq![80u8, 49u8, SEP, 48u8]),
        r@.len() % 2 == 0,
{
    let mut value: Vec<u8> = Vec::new();
    value.push(48);
    let r = keyed_command(80, 49, &value);
    proof {
        assert(seq![80u8, 49u8, SEP] + value@ =~= seq![80u8, 49u8, SEP, 48u8]);
    }
    r
}

/// Builds the command setting the remote address: `P3=<a.b.c.d>`.
pub fn remote_address_command(ip: Ipv4) -> (r: Vec<u8>)
    ensures
        r@ == command_text(seq![80u8, 51u8, SEP] + ipv4_text(ip)),
        r@.len() % 2 == 0,
{
    let value = ipv4_bytes(ip);
    keyed_command(80, 51, &value)
}

/// Builds the command setting the remote port: `P4=<port>`.
pub fn remote_port_command(port: u16) -> (r: Vec<u8>)
    ensures
        r@ == command_text(seq![80u8, 52u8, SEP] + dec_digits(port as nat)),
        r@.len() % 2 == 0,
{
    let value = decimal_bytes(port as u32);
    keyed_command(80, 52, &value)
}

/// Builds the connect trigger for the selected socket: `P6=1`.
pub fn connect_trigger_command() -> (r: Vec<u8>)
    ensures
        r@ == command_text(seq![80u8, 54u8, SEP, 49u8]),
        r@.len() % 2 == 0,
{
    let mut value: Vec<u8> = Vec::new();
    value.push(49);
    let r = keyed_command(80, 54, &value);
    proof {
        assert(seq![80u8, 54u8, SEP] + value@ =~= seq![80u8, 54u8, SEP, 49u8]);
    }
    r
}

/// Builds the command disabling the selected socket's connection: `P6=0`.
pub fn close_connection_command() -> (r: Vec<u8>)
    ensures
        r@ == command_text(seq![80u8, 54u8, SEP, 48u8]),
        r@.len() % 2 == 0,
{
    let mut value: Vec<u8> = Vec::new();
    value.push(48);
    let r = keyed_command(80, 54, &value);
    proof {
        assert(seq![80u8, 54u8, SEP] + value@ =~= seq![80u8, 54u8, SEP, 48u8]);
    }
    r
}

/// Builds the command announcing a data write of `n` bytes: `S3=<n>`.
pub fn write_length_command(n: u32) -> (r: Vec<u8>)
    ensures
        r@ == command_text(seq![83u8, 51u8, SEP] + dec_digits(n as nat)),
        r@.len() % 2 == 0,
{
    let value = decimal_bytes(n);
    keyed_command(83, 51, &value)
}

/// Builds the command setting how many bytes the next read returns:
/// `R1=<n>`.
pub fn read_length_command(n: u32) -> (r: Vec<u8>)
    ensures
        r@ == command_text(seq![82u8, 49u8, SEP] + dec_digits(n as nat)),
        r@.len() % 2 == 0,
{
    let value = decimal_bytes(n);
    keyed_command(82, 49, &value)
}

/// Builds the read trigger for the selected socket: `R3=1`.
pub fn read_trigger_command() -> (r: Vec<u8>)
    ensures
        r@ == command_text(seq![82u8, 51u8, SEP, 49u8]),
        r@.len() % 2 == 0,
{
    let mut value: Vec<u8> = Vec::new();
    value.push(49);
    let r = keyed_command(82, 51, &value);
    proof {
        assert(seq![82u8, 51u8, SEP] + value@ =~= seq![82u8, 51u8, SEP, 49u8]);
    }
    r
}

/// Builds the command disabling verbose responses: `MT=1`.
pub fn verbosity_off_command() -> (r: Vec<u8>)
    ensures
        r@ == command_text(seq![77u8, 84u8, SEP, 49u8]),
        r@.len() % 2 == 0,
{
    let mut value: Vec<u8> = Vec::new();
    value.push(49);
    let r = keyed_command(77, 84, &value);
    proof {
        assert(seq![77u8, 84u8, SEP] + value@ =~= seq![77u8, 84u8, SEP, 49u8]);
    }
    r
}

/// Builds the command selecting the security mode: `CB=2`.
pub fn security_mode_command() -> (r: Vec<u8>)
    ensures
        r@ == command_text(seq![67u8, 66u8, SEP, 50u8]),
        r@.len() % 2 == 0,
{
    let mut value: Vec<u8> = Vec::new();
    value.push(50);
    let r = keyed_command(67, 66, &value);
    proof {
        assert(seq![67u8, 66u8, SEP] + value@ =~= seq![67u8, 66u8, SEP, 50u8]);
    }
    r
}

/// Builds the command setting the network name: `C1=<ssid>`.
pub fn ssid_command(ssid: &Vec<u8>) -> (r: Vec<u8>)
    ensures
        r@ == command_text(seq![67u8, 49u8, SEP] + ssid@),
        r@.len() % 2 == 0,
{
    keyed_command(67, 49, ssid)
}

/// Builds the command setting the passphrase: `C2=<passphrase>`.
pub fn passphrase_command(passphrase: &Vec<u8>) -> (r: Vec<u8>)
    ensures
        r@ == command_text(seq![67u8, 50u8, SEP] + passphrase@),
        r@.len() % 2 == 0,
{
    keyed_command(67, 50, passphrase)
}

/// Builds the command arming join-on-configure: `C3=4`.
pub fn join_flag_command() -> (r: Vec<u8>)
    ensures
        r@ == command_text(seq![67u8, 51u8, SEP, 52u8]),
        r@.len() % 2 == 0,
{
    let mut value: Vec<u8> = Vec::new();
    value.push(52);
    let r = keyed_command(67, 51, &value);
    proof {
        assert(seq![67u8, 51u8, SEP] + value@ =~= seq![67u8, 51u8, SEP, 52u8]);
    }
    r
}

/// Builds the join trigger: the bare verb `C0`.
pub fn join_trigger_command() -> (r: Vec<u8>)
    ensures
        r@ == command_text(seq![67u8, 48u8]),
        r@.len() % 2 == 0,
{
    let mut body: Vec<u8> = Vec::new();
    body.push(67);
    body.push(48);
    proof {
        assert(body@ =~= seq![67u8, 48u8]);
    }
    finish_command(body)
}

/// The fixed two-pair handshake sent raw (already in wire order) between the
/// read trigger and draining the payload: `0R` then a line break pair.
pub fn read_handshake() -> (r: Vec<u8>)
    ensures
        r@ == seq![48u8, 82u8, 10u8, 13u8],
        r@.len() % 2 == 0,
{
    let mut out: Vec<u8> = Vec::new();
    out.push(48);
    out.push(82);
    out.push(10);
    out.push(13);
    proof {
        assert(out@ =~= seq![48u8, 82u8, 10u8, 13u8]);
    }
    out
}

} // verus!

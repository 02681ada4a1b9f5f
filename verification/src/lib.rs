//! Core logic of a driver for a serial-attached WiFi companion module that
//! speaks a textual command protocol over a half-duplex, byte-paired link.
//!
//! This crate holds the verified heart of the driver: command framing with
//! the module's byte-swap quirk, response draining with NAK filtering, the
//! socket handle pool, and the retry and recovery state machines. Hardware
//! access (pins, bus transfers, delays) stays outside; the functions here
//! take plain values and parsed outcomes and decide what happens next.

pub mod codec;
pub mod command;
pub mod ops;
pub mod pool;
pub mod recovery;
pub mod stream;

use vstd::prelude::*;

verus! {

/// Errors raised by socket operations.
#[derive(Debug, Clone, Copy, PartialEq, Eq, Structural)]
pub enum SocketError {
    /// Error opening a socket: the handle pool is exhausted.
    OpenError,
    /// Error connecting with a socket.
    ConnectError,
    /// Error reading from a socket.
    ReadError,
    /// Error writing to a socket.
    WriteError,
    /// Error closing a socket.
    CloseError,
    /// Attempt to use a closed socket.
    SocketClosed,
}

/// Errors raised while joining a WiFi network.
#[derive(Debug, Clone, Copy, PartialEq, Eq, Structural)]
pub enum JoinError {
    /// The SSID was rejected.
    InvalidSsid,
    /// The passphrase was rejected.
    InvalidPassword,
    /// Unknown failure.
    Unknown,
    /// The module could not associate with the access point.
    UnableToAssociate,
}

/// Top-level error taxonomy of the driver, generic over the error types of
/// the four hardware resources it distinguishes: the data bus, the
/// chip-select pin, the reset pin, and the ready line. Low-level hardware
/// errors abort the current exchange at once and surface here untouched.
#[derive(Debug)]
pub enum Error<SPI, CS, RESET, READY> {
    /// Chip-select pin error.
    CS(CS),
    /// Reset pin error.
    Reset(RESET),
    /// Data bus transfer error.
    SPI(SPI),
    /// Ready line error.
    READY(READY),
    /// Socket operation error.
    Socket(SocketError),
    /// WiFi join error.
    Join(JoinError),
}

} // verus!

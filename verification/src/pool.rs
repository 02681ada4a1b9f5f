//! The fixed pool of logical socket handles.
//!
//! The module multiplexes a small fixed number of logical connections over
//! its single physical command channel. A handle is a small integer naming
//! one of them; at any moment it is free, open but not connected, or open
//! and connected, and allocation is exclusive: no two live users share a
//! handle. All I/O state lives elsewhere — the pool is pure bookkeeping.

use vstd::prelude::*;
use crate::SocketError;

verus! {

/// How many logical sockets the module offers.
pub const SOCKET_COUNT: usize = 4;

/// Lifecycle state of one socket handle.
#[derive(Debug, Clone, Copy, PartialEq, Eq, Structural)]
pub enum HandleState {
    /// Not allocated.
    Free,
    /// Allocated, no connection established yet.
    Open,
    /// Allocated and connected.
    Connected,
}

/// Open/connected/closed bookkeeping for the module's socket handles.
pub struct SocketPool {
    /// State of each handle, indexed by the handle value.
    pub states: Vec<HandleState>,
}

impl SocketPool {
    /// The pool always tracks exactly the module's socket count.
    pub open spec fn wf(&self) -> bool {
        self.states@.len() == SOCKET_COUNT
    }

    /// A pool with every handle free.
    pub fn new() -> (r: Self)
        ensures
            r.wf(),
            forall|i: int| 0 <= i < SOCKET_COUNT ==> r.states@[i] == HandleState::Free,
    {
        let mut states: Vec<HandleState> = Vec::new();
        states.push(HandleState::Free);
        states.push(HandleState::Free);
        states.push(HandleState::Free);
        states.push(HandleState::Free);
        SocketPool { states }
    }

    /// Allocates the lowest free handle, marking it open. Succeeds exactly
    /// when some handle is free; a pool with every handle taken reports
    /// exhaustion and is left unchanged.
    pub fn open(&mut self) -> (r: Result<u8, SocketError>)
        requires
            old(self).wf(),
        ensures
            final(self).wf(),
            match r {
                Ok(h) => {
                    &&& (h as int) < SOCKET_COUNT
                    &&& old(self).states@[h as int] == HandleState::Free
                    &&& forall|i: int| 0 <= i < h as int ==> old(self).states@[i]
                        != HandleState::Free
                    &&& final(self).states@ == old(self).states@.update(
                        h as int,
                        HandleState::Open,
                    )
                },
                Err(e) => {
                    &&& e == SocketError::OpenError
                    &&& forall|i: int| 0 <= i < SOCKET_COUNT ==> old(self).states@[i]
                        != HandleState::Free
                    &&& final(self).states@ == old(self).states@
                },
            },
    {
        let mut h: usize = 0;
        while h < SOCKET_COUNT
            invariant
                self.wf(),
                h <= SOCKET_COUNT,
                self.states@ == old(self).states@,
                forall|i: int| 0 <= i < h as int ==> self.states@[i] != HandleState::Free,
            decreases SOCKET_COUNT - h,
        {
            if self.states[h] == HandleState::Free {
                self.states.set(h, HandleState::Open);
                return Ok(h as u8);
            }
            h = h + 1;
        }
        Err(SocketError::OpenError)
    }

    /// Whether a handle currently holds an established connection.
    pub fn is_connected(&self, handle: u8) -> (r: bool)
        requires
            self.wf(),
            (handle as int) < SOCKET_COUNT,
        ensures
            r == (self.states@[handle as int] == HandleState::Connected),
    {
        self.states[handle as usize] == HandleState::Connected
    }

    /// Marks a handle as holding an established connection.
    pub fn set_connected(&mut self, handle: u8)
        requires
            old(self).wf(),
            (handle as int) < SOCKET_COUNT,
        ensures
            final(self).wf(),
            final(self).states@ == old(self).states@.update(
                handle as int,
                HandleState::Connected,
            ),
    {
        self.states.set(handle as usize, HandleState::Connected);
    }

    /// Releases a handle back to the pool. Idempotent: closing a handle
    /// that is already free leaves it free.
    pub fn close(&mut self, handle: u8)
        requires
            old(self).wf(),
            (handle as int) < SOCKET_COUNT,
        ensures
            final(self).wf(),
            final(self).states@ == old(self).states@.update(handle as int, HandleState::Free),
    {
        self.states.set(handle as usize, HandleState::Free);
    }
}

} // verus!

//! Pairing window of the Matter stack.
//!
//! The stack does not tell whether a window is open, so the bridge keeps the deadline
//! itself. Requests are executed on the thread of the stack, which fetches them here.
use super::backend;
use super::backend::STARTUP_PAIRING_TIMEOUT_SECS;
use vstd::prelude::*;

verus! {

/// What the stack is asked to do with its pairing window.
#[derive(Debug, Clone, Copy, PartialEq, Eq, Structural)]
pub enum WindowRequest {
    /// Open it for this many seconds.
    Open(u16),
    Close,
}

/// Deadline, commissioned fabrics and the request that waits.
#[derive(Debug, Clone, Copy, PartialEq, Eq, Structural)]
pub struct PairingWindow {
    /// Epoch second at which the window closes; 0 means closed.
    pub deadline: u64,
    /// Commissioned fabrics when last counted.
    pub fabrics: u8,
    /// Request that the stack has not fetched yet.
    pub request: Option<WindowRequest>,
}

impl PairingWindow {
    /// The state at startup: the stack opens a window of its own for 900 seconds where no
    /// fabric is commissioned.
    pub fn note_startup_commissioning_state(now: u64, fabric_count: u8) -> (r: Self)
        ensures
            r.fabrics == fabric_count,
            r.request is None,
            r.deadline == (if fabric_count == 0 {
                backend::deadline_after(now, STARTUP_PAIRING_TIMEOUT_SECS)
            } else {
                0
            }),
    {
        let deadline: u64 = if fabric_count == 0 {
            now.saturating_add(STARTUP_PAIRING_TIMEOUT_SECS as u64)
        } else {
            0
        };
        PairingWindow { deadline, fabrics: fabric_count, request: None }
    }

    /// Whether the window is open.
    pub fn pairing_open(&self, now: u64) -> (r: bool)
        ensures
            r == backend::open_at(self.deadline, now),
    {
        self.deadline != 0 && now < self.deadline
    }

    /// The number of commissioned fabrics when last counted.
    pub fn commissioned_fabrics(&self) -> (r: u8)
        ensures
            r == self.fabrics,
    {
        self.fabrics
    }

    /// Asks for an open window. While one is open nothing is asked, so that the window of
    /// the stack is not thrashed. Says whether there is something for the stack to do.
    pub fn request_open_window(&mut self, now: u64, timeout_secs: u16) -> (r: bool)
        ensures
            r == !backend::open_at(old(self).deadline, now),
            *final(self) == (if r {
                PairingWindow { request: Some(WindowRequest::Open(timeout_secs)), ..*old(self) }
            } else {
                *old(self)
            }),
    {
        if self.pairing_open(now) {
            return false;
        }
        self.request = Some(WindowRequest::Open(timeout_secs));
        true
    }

    /// Asks for a closed window.
    pub fn request_close_window(&mut self)
        ensures
            *final(self) == (PairingWindow {
                request: Some(WindowRequest::Close),
                ..*old(self)
            }),
    {
        self.request = Some(WindowRequest::Close);
    }

    /// Takes the request that waits.
    pub fn take_request(&mut self) -> (r: Option<WindowRequest>)
        ensures
            r == old(self).request,
            *final(self) == (PairingWindow { request: None, ..*old(self) }),
    {
        let request: Option<WindowRequest> = self.request;
        self.request = None;
        request
    }

    /// Takes note of a request that the stack has tried. One that failed changes nothing.
    pub fn request_tried(&mut self, now: u64, request: WindowRequest, succeeded: bool)
        ensures
            *final(self) == (if !succeeded {
                *old(self)
            } else {
                PairingWindow {
                    deadline: match request {
                        WindowRequest::Open(secs) => backend::deadline_after(now, secs),
                        WindowRequest::Close => 0,
                    },
                    ..*old(self)
                }
            }),
    {
        if succeeded {
            self.deadline = match request {
                WindowRequest::Open(secs) => now.saturating_add(secs as u64),
                WindowRequest::Close => 0,
            };
        }
    }

    /// Takes note of the number of commissioned fabrics. One more than before means that
    /// commissioning is complete, which closes the window.
    pub fn note_fabrics(&mut self, fabric_count: u8)
        ensures
            *final(self) == (PairingWindow {
                deadline: if fabric_count > old(self).fabrics {
                    0
                } else {
                    old(self).deadline
                },
                fabrics: fabric_count,
                ..*old(self)
            }),
    {
        if fabric_count > self.fabrics {
            self.deadline = 0;
        }
        self.fabrics = fabric_count;
    }
}

/// A window is open from the second of opening until its deadline, and not from then on.
pub proof fn law_window_lasts_its_timeout(now: u64, secs: u16, later: u64)
    requires
        now + secs <= u64::MAX,
        now <= later,
    ensures
        backend::open_at(backend::deadline_after(now, secs), later) <==> later < now + secs,
{
}

} // verus!

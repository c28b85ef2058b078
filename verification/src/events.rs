//! The event vocabulary of the pipeline: triggers flowing in from the editor
//! and reports flowing out to it.

use vstd::prelude::*;

use crate::coverage::Trace;

verus! {

/// A request identifier carried through from the editor protocol.
#[derive(Debug, PartialEq, Eq)]
pub enum ReqId {
    Num(i32),
    Text(String),
}

/// An internal event derived from an inbound editor message, consumed exactly
/// once by the coordinator.
#[derive(Debug, PartialEq, Eq)]
pub enum Trigger {
    DocDiag(ReqId, Vec<u8>),
    WorkDiag(ReqId),
    WorkDiagRefresh(ReqId),
    Write(Vec<u8>),
    Open(Vec<u8>),
    Exit(ReqId),
}

/// The level of a status message shown to the user.
#[derive(Debug, Clone, Copy, PartialEq, Eq, Structural)]
pub enum Severity {
    Error,
    Warning,
    Info,
}

/// An outbound event: diagnostics for one file, a status message, or the
/// acknowledgment of shutdown.
#[derive(Debug)]
pub enum Report {
    Plain(Vec<u8>, Vec<Trace>),
    Message(Severity, String),
    Exit(ReqId),
}

} // verus!

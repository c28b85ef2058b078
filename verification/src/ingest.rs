//! Classification of inbound editor-protocol method names into the closed
//! sets the server understands; anything else is dropped by the caller.

use vstd::prelude::*;

use crate::bytes::str_eq;

verus! {

/// What an inbound request method asks of the server.
#[derive(Debug, Clone, Copy, PartialEq, Eq, Structural)]
pub enum RequestKind {
    DocDiagnostic,
    WorkDiagnostic,
    WorkDiagnosticRefresh,
    Shutdown,
    Unsupported,
}

/// What an inbound notification method tells the server.
#[derive(Debug, Clone, Copy, PartialEq, Eq, Structural)]
pub enum NotificationKind {
    DidSave,
    DidOpen,
    Exit,
    Unsupported,
}

/// Map a request method name to the server's closed request set.
pub fn classify_request(method: &str) -> (r: RequestKind)
    ensures
        r == (if method@ == "textDocument/diagnostic"@ {
            RequestKind::DocDiagnostic
        } else if method@ == "workspace/diagnostic"@ {
            RequestKind::WorkDiagnostic
        } else if method@ == "workspace/diagnostic/refresh"@ {
            RequestKind::WorkDiagnosticRefresh
        } else if method@ == "shutdown"@ {
            RequestKind::Shutdown
        } else {
            RequestKind::Unsupported
        }),
{
    if str_eq(method, "textDocument/diagnostic") {
        RequestKind::DocDiagnostic
    } else if str_eq(method, "workspace/diagnostic") {
        RequestKind::WorkDiagnostic
    } else if str_eq(method, "workspace/diagnostic/refresh") {
        RequestKind::WorkDiagnosticRefresh
    } else if str_eq(method, "shutdown") {
        RequestKind::Shutdown
    } else {
        RequestKind::Unsupported
    }
}

/// Map a notification method name to the server's closed notification set.
pub fn classify_notification(method: &str) -> (r: NotificationKind)
    ensures
        r == (if method@ == "textDocument/didSave"@ {
            NotificationKind::DidSave
        } else if method@ == "textDocument/didOpen"@ {
            NotificationKind::DidOpen
        } else if method@ == "exit"@ {
            NotificationKind::Exit
        } else {
            NotificationKind::Unsupported
        }),
{
    if str_eq(method, "textDocument/didSave") {
        NotificationKind::DidSave
    } else if str_eq(method, "textDocument/didOpen") {
        NotificationKind::DidOpen
    } else if str_eq(method, "exit") {
        NotificationKind::Exit
    } else {
        NotificationKind::Unsupported
    }
}

} // verus!

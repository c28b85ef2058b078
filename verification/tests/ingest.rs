use tarballin::ingest::NotificationKind;
use tarballin::ingest::RequestKind;
use tarballin::ingest::classify_notification;
use tarballin::ingest::classify_request;

#[test]
fn known_request_methods_are_recognized() {
    assert_eq!(classify_request("textDocument/diagnostic"), RequestKind::DocDiagnostic);
    assert_eq!(classify_request("workspace/diagnostic"), RequestKind::WorkDiagnostic);
    assert_eq!(
        classify_request("workspace/diagnostic/refresh"),
        RequestKind::WorkDiagnosticRefresh
    );
    assert_eq!(classify_request("shutdown"), RequestKind::Shutdown);
}

#[test]
fn unknown_request_methods_are_dropped() {
    assert_eq!(classify_request("textDocument/hover"), RequestKind::Unsupported);
    assert_eq!(classify_request(""), RequestKind::Unsupported);
}

#[test]
fn known_notification_methods_are_recognized() {
    assert_eq!(classify_notification("textDocument/didSave"), NotificationKind::DidSave);
    assert_eq!(classify_notification("textDocument/didOpen"), NotificationKind::DidOpen);
    assert_eq!(classify_notification("exit"), NotificationKind::Exit);
}

#[test]
fn unknown_notification_methods_are_dropped() {
    assert_eq!(
        classify_notification("textDocument/didChange"),
        NotificationKind::Unsupported
    );
}

use tarballin::mode::ClientCaps;
use tarballin::mode::InvalidClient;
use tarballin::mode::Mode;
use tarballin::mode::TextDocumentCaps;
use tarballin::mode::WorkspaceCaps;

fn text(did_save: Option<Option<bool>>, related: Option<Option<bool>>, publish: bool) -> TextDocumentCaps {
    TextDocumentCaps {
        sync_did_save: did_save,
        diag_related_support: related,
        publish_diagnostics: publish,
    }
}

#[test]
fn rejects_client_without_save_notifications() {
    let caps = ClientCaps {
        text_document: Some(text(Some(Some(false)), None, true)),
        workspace: None,
    };
    assert_eq!(Mode::negotiate(&caps), Err(InvalidClient));
}

#[test]
fn workspace_refresh_selects_workspace_mode() {
    let caps = ClientCaps {
        text_document: Some(text(Some(Some(true)), None, false)),
        workspace: Some(WorkspaceCaps { diag_refresh_support: Some(Some(true)) }),
    };
    assert_eq!(Mode::negotiate(&caps), Ok(Mode::Workspace));
}

#[test]
fn related_documents_select_single_mode() {
    let caps = ClientCaps {
        text_document: Some(text(None, Some(Some(true)), false)),
        workspace: None,
    };
    assert_eq!(Mode::negotiate(&caps), Ok(Mode::Single));
}

#[test]
fn publish_diagnostics_select_adhoc_mode() {
    let caps = ClientCaps {
        text_document: Some(text(None, Some(Some(false)), true)),
        workspace: None,
    };
    assert_eq!(Mode::negotiate(&caps), Ok(Mode::Adhoc));
}

#[test]
fn empty_capabilities_are_rejected() {
    let caps = ClientCaps { text_document: None, workspace: None };
    assert_eq!(Mode::negotiate(&caps), Err(InvalidClient));
}

#[test]
fn capabilities_differ_by_mode() {
    let ws = Mode::Workspace.capabilities();
    assert_eq!(ws.open_close, None);
    assert!(!ws.save_include_text);
    let reg = ws.diagnostics.unwrap();
    assert!(reg.inter_file_dependencies);
    assert!(reg.workspace_diagnostics);
    assert_eq!(reg.work_done_progress, Some(false));

    let single = Mode::Single.capabilities();
    assert!(!single.diagnostics.unwrap().workspace_diagnostics);

    let adhoc = Mode::Adhoc.capabilities();
    assert_eq!(adhoc.open_close, Some(true));
    assert!(adhoc.diagnostics.is_none());
}

#[test]
fn diagnostic_identifier_is_fixed() {
    assert_eq!(tarballin::mode::diagnostic_identifier(), "tarpaulin");
}

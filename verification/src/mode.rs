//! Operating-mode negotiation from the editor's advertised capabilities, and
//! the capabilities this server offers in return.

use vstd::prelude::*;

verus! {

/// What the editor reports of its text-document support. Each outer `None`
/// stands for an absent section of the initialization data.
#[derive(Debug, Clone, Copy, PartialEq, Eq, Structural)]
pub struct TextDocumentCaps {
    /// The synchronization section's `did_save` flag, when the section exists.
    pub sync_did_save: Option<Option<bool>>,
    /// The diagnostic section's related-document flag, when the section
    /// exists.
    pub diag_related_support: Option<Option<bool>>,
    /// Whether publish-diagnostics support is advertised.
    pub publish_diagnostics: bool,
}

/// What the editor reports of its workspace support.
#[derive(Debug, Clone, Copy, PartialEq, Eq, Structural)]
pub struct WorkspaceCaps {
    /// The diagnostic section's refresh flag, when the section exists.
    pub diag_refresh_support: Option<Option<bool>>,
}

/// The capabilities read from the editor's initialization data.
#[derive(Debug, Clone, Copy, PartialEq, Eq, Structural)]
pub struct ClientCaps {
    pub text_document: Option<TextDocumentCaps>,
    pub workspace: Option<WorkspaceCaps>,
}

/// How the server will talk to this editor: workspace-wide diagnostic pulls,
/// single-document pulls, or ad-hoc published diagnostics.
#[derive(Debug, Clone, Copy, PartialEq, Eq, Structural)]
pub enum Mode {
    Workspace,
    Single,
    Adhoc,
}

/// The editor lacks the capabilities this server needs.
#[derive(Debug, Clone, Copy, PartialEq, Eq, Structural)]
pub struct InvalidClient;

/// The mode `caps` selects: an editor that advertises synchronization but not
/// save notifications is rejected; workspace diagnostic refresh support picks
/// workspace mode; related-document diagnostic support picks single-document
/// mode; bare publish-diagnostics support picks ad-hoc mode; anything less is
/// rejected.
pub open spec fn negotiate_spec(caps: ClientCaps) -> Result<Mode, InvalidClient> {
    if caps.text_document is Some && caps.text_document.unwrap().sync_did_save is Some
        && caps.text_document.unwrap().sync_did_save.unwrap() != Some(true) {
        Err(InvalidClient)
    } else if caps.workspace is Some && caps.workspace.unwrap().diag_refresh_support is Some
        && caps.workspace.unwrap().diag_refresh_support.unwrap() == Some(true) {
        Ok(Mode::Workspace)
    } else if caps.text_document is Some && caps.text_document.unwrap().diag_related_support
        is Some && caps.text_document.unwrap().diag_related_support.unwrap() == Some(true) {
        Ok(Mode::Single)
    } else if caps.text_document is Some && caps.text_document.unwrap().publish_diagnostics {
        Ok(Mode::Adhoc)
    } else {
        Err(InvalidClient)
    }
}

/// What the server registers for diagnostics.
#[derive(Debug, Clone, Copy, PartialEq, Eq, Structural)]
pub struct DiagnosticRegistration {
    pub inter_file_dependencies: bool,
    pub workspace_diagnostics: bool,
    pub work_done_progress: Option<bool>,
}

/// The capabilities the server advertises: save notifications without text,
/// open/close notifications only in ad-hoc mode, and a diagnostic
/// registration outside ad-hoc mode.
#[derive(Debug, Clone, Copy, PartialEq, Eq, Structural)]
pub struct ServerCaps {
    pub open_close: Option<bool>,
    pub save_include_text: bool,
    pub diagnostics: Option<DiagnosticRegistration>,
}

pub open spec fn capabilities_spec(mode: Mode) -> ServerCaps {
    match mode {
        Mode::Workspace => ServerCaps {
            open_close: None,
            save_include_text: false,
            diagnostics: Some(
                DiagnosticRegistration {
                    inter_file_dependencies: true,
                    workspace_diagnostics: true,
                    work_done_progress: Some(false),
                },
            ),
        },
        Mode::Single => ServerCaps {
            open_close: None,
            save_include_text: false,
            diagnostics: Some(
                DiagnosticRegistration {
                    inter_file_dependencies: true,
                    workspace_diagnostics: false,
                    work_done_progress: Some(false),
                },
            ),
        },
        Mode::Adhoc => ServerCaps {
            open_close: Some(true),
            save_include_text: false,
            diagnostics: None,
        },
    }
}

impl Mode {
    /// Pick the operating mode for an editor with capabilities `caps`.
    pub fn negotiate(caps: &ClientCaps) -> (r: Result<Mode, InvalidClient>)
        ensures
            r == negotiate_spec(*caps),
    {
        if let Some(text) = caps.text_document {
            if let Some(did_save) = text.sync_did_save {
                if !matches!(did_save, Some(true)) {
                    return Err(InvalidClient);
                }
            }
        }
        if let Some(workspace) = caps.workspace {
            if let Some(refresh) = workspace.diag_refresh_support {
                if matches!(refresh, Some(true)) {
                    return Ok(Mode::Workspace);
                }
            }
        }
        if let Some(text) = caps.text_document {
            if let Some(related) = text.diag_related_support {
                if matches!(related, Some(true)) {
                    return Ok(Mode::Single);
                }
            }
            if text.publish_diagnostics {
                return Ok(Mode::Adhoc);
            }
        }
        Err(InvalidClient)
    }

    /// The capabilities to advertise for this mode.
    pub fn capabilities(&self) -> (r: ServerCaps)
        ensures
            r == capabilities_spec(*self),
    {
        match self {
            Mode::Workspace => ServerCaps {
                open_close: None,
                save_include_text: false,
                diagnostics: Some(
                    DiagnosticRegistration {
                        inter_file_dependencies: true,
                        workspace_diagnostics: true,
                        work_done_progress: Some(false),
                    },
                ),
            },
            Mode::Single => ServerCaps {
                open_close: None,
                save_include_text: false,
                diagnostics: Some(
                    DiagnosticRegistration {
                        inter_file_dependencies: true,
                        workspace_diagnostics: false,
                        work_done_progress: Some(false),
                    },
                ),
            },
            Mode::Adhoc => ServerCaps {
                open_close: Some(true),
                save_include_text: false,
                diagnostics: None,
            },
        }
    }
}

/// The identifier under which the server registers its diagnostics.
pub fn diagnostic_identifier() -> (r: String)
    ensures
        r@ == "tarpaulin"@,
{
    "tarpaulin".to_owned()
}

} // verus!

//! The saved layout of the window.

use vstd::prelude::*;

verus! {

/// One pane of a tab and the session it shows.
#[derive(Debug, Clone)]
pub struct PaneState {
    pub id: String,
    pub session_id: String,
    pub server_id: String,
    pub current_directory: Option<String>,
    pub active_view: String,
    pub editor_file: Option<String>,
}

} // verus!

//! One line of the multiplexer's pane listing.

use crate::pane::descriptor_of;
use crate::pane::format_descriptor;
use vstd::prelude::*;

verus! {

/// A pane as the listing describes it.
#[derive(Clone, Debug, PartialEq, Eq)]
pub struct ListEntry {
    pub command: String,
    pub pane_id: String,
    pub pane_index: usize,
    pub path: String,
    pub session: String,
    pub window_index: usize,
}

impl ListEntry {
    /// Where the pane sits, as `session:window.pane`.
    pub fn descriptor(&self) -> (text: String)
        ensures
            text@ == descriptor_of(self.session@, self.window_index as nat, self.pane_index as nat),
    {
        format_descriptor(self.session.as_str(), self.window_index, self.pane_index)
    }

    /// The listing format that yields one entry per line, as a record with
    /// the fields of [`ListEntry`].
    pub fn format() -> (text: &'static str)
        ensures
            text@ == "{\"command\":\"#{pane_current_command}\",\"pane_id\":\"#{pane_id}\",\"pane_index\":#{pane_index},\"path\":\"#{pane_current_path}\"\"session\":\"#{session_name}\",\"window_index\":#{window_index},}"@,
    {
        "{\"command\":\"#{pane_current_command}\",\"pane_id\":\"#{pane_id}\",\"pane_index\":#{pane_index},\"path\":\"#{pane_current_path}\"\"session\":\"#{session_name}\",\"window_index\":#{window_index},}"
    }
}

} // verus!

//! One pane of the multiplexer as the dashboard knows it.

use crate::text::decimal;
use crate::text::push_decimal;
use crate::text::trim;
use crate::text::trimmed;
use vstd::prelude::*;

verus! {

/// Snapshot of one pane. `tmux_pane_id` is the multiplexer's own identifier
/// and stays with the pane when it is moved or renumbered; `id`, `session`,
/// `window_index` and `index` describe where the pane sat when it was listed.
#[derive(Clone, Debug, PartialEq, Eq)]
pub struct Pane {
    pub command: String,
    pub content: String,
    pub id: String,
    pub index: usize,
    pub path: String,
    pub session: String,
    pub tmux_pane_id: String,
    pub window_index: usize,
}

/// Mathematical value of a [`Pane`].
pub struct PaneView {
    pub command: Seq<char>,
    pub content: Seq<char>,
    pub id: Seq<char>,
    pub index: nat,
    pub path: Seq<char>,
    pub session: Seq<char>,
    pub tmux_pane_id: Seq<char>,
    pub window_index: nat,
}

impl View for Pane {
    type V = PaneView;

    open spec fn view(&self) -> PaneView {
        PaneView {
            command: self.command@,
            content: self.content@,
            id: self.id@,
            index: self.index as nat,
            path: self.path@,
            session: self.session@,
            tmux_pane_id: self.tmux_pane_id@,
            window_index: self.window_index as nat,
        }
    }
}

/// The values of a list of panes, in order.
pub open spec fn pane_views(panes: Seq<Pane>) -> Seq<PaneView> {
    panes.map_values(|pane: Pane| pane@)
}

impl Default for Pane {
    fn default() -> (pane: Pane)
        ensures
            pane@.command.len() == 0,
            pane@.content.len() == 0,
            pane@.id.len() == 0,
            pane@.index == 0,
            pane@.path.len() == 0,
            pane@.session.len() == 0,
            pane@.tmux_pane_id.len() == 0,
            pane@.window_index == 0,
    {
        Pane {
            command: String::new(),
            content: String::new(),
            id: String::new(),
            index: 0,
            path: String::new(),
            session: String::new(),
            tmux_pane_id: String::new(),
            window_index: 0,
        }
    }
}

/// Session, window and pane number in the form `session:window.pane`.
pub open spec fn descriptor_of(session: Seq<char>, window_index: nat, index: nat) -> Seq<char> {
    session + seq![':'] + decimal(window_index) + seq!['.'] + decimal(index)
}

/// The pane's descriptor, followed by its command in parentheses where it
/// has one.
pub open spec fn title_of(pane: PaneView) -> Seq<char> {
    let descriptor = descriptor_of(pane.session, pane.window_index, pane.index);
    let command = trimmed(pane.command);
    if command.len() == 0 {
        descriptor
    } else {
        descriptor + seq![' ', '('] + command + seq![')']
    }
}

/// Builds `session:window.pane`.
pub fn format_descriptor(session: &str, window_index: usize, index: usize) -> (text: String)
    ensures
        text@ == descriptor_of(session@, window_index as nat, index as nat),
{
    proof {
        reveal_strlit(":");
        reveal_strlit(".");
    }
    let mut text = session.to_owned();
    text.append(":");
    push_decimal(&mut text, window_index);
    text.append(".");
    push_decimal(&mut text, index);
    assert(text@ =~= descriptor_of(session@, window_index as nat, index as nat));
    text
}

impl Pane {
    /// Where the pane sits, as `session:window.pane`.
    pub fn descriptor(&self) -> (text: String)
        ensures
            text@ == descriptor_of(self@.session, self@.window_index, self@.index),
    {
        format_descriptor(self.session.as_str(), self.window_index, self.index)
    }

    /// The listing format that yields one pane per line, as a record with
    /// the fields of [`Pane`].
    pub fn format() -> (text: &'static str)
        ensures
            text@ == "{\"command\":\"#{pane_current_command}\",\"id\":\"#{pane_id}\",\"index\":#{pane_index},\"path\":\"#{pane_current_path}\",\"session\":\"#{session_name}\",\"window_index\":#{window_index}}"@,
    {
        "{\"command\":\"#{pane_current_command}\",\"id\":\"#{pane_id}\",\"index\":#{pane_index},\"path\":\"#{pane_current_path}\",\"session\":\"#{session_name}\",\"window_index\":#{window_index}}"
    }

    /// The heading of the pane: its descriptor, and its command in
    /// parentheses unless that is blank.
    pub fn title(&self) -> (text: String)
        ensures
            text@ == title_of(self@),
    {
        proof {
            reveal_strlit(" (");
            reveal_strlit(")");
        }
        let command = trim(self.command.as_str());
        let mut text = self.descriptor();
        if command.as_str().is_empty() {
            return text;
        }
        text.append(" (");
        text.append(command.as_str());
        text.append(")");
        assert(text@ =~= title_of(self@));
        text
    }
}

} // verus!

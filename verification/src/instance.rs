//! A pane in which another dashboard runs.

use crate::pane::Pane;
use crate::pane::PaneView;
use vstd::prelude::*;

verus! {

/// A running dashboard: its pane and the directory it works in.
#[derive(Clone, Debug, PartialEq, Eq)]
pub struct Instance {
    pub current_path: String,
    pub pane: Pane,
}

/// Mathematical value of an [`Instance`].
pub struct InstanceView {
    pub current_path: Seq<char>,
    pub pane: PaneView,
}

impl View for Instance {
    type V = InstanceView;

    open spec fn view(&self) -> InstanceView {
        InstanceView { current_path: self.current_path@, pane: self.pane@ }
    }
}

} // verus!

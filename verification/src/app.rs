//! The dashboard's state between two frames: the snapshot, the layout of the
//! frame drawn last, and the selection.

use crate::config::Config;
use crate::layout::PaneRegion;
use crate::pane::pane_views;
use crate::pane::Pane;
use crate::pane::PaneView;
use crate::tmux::copy_pane;
use crate::tmux::Tmux;
use vstd::prelude::*;

verus! {

/// Snapshot, layout and selection of the dashboard.
#[derive(Debug)]
pub struct App {
    pub config: Config,
    /// The rectangle of each pane in the frame drawn last, in pane order.
    pub pane_regions: Vec<PaneRegion>,
    /// Identifier of the focused pane, if any.
    pub selected_pane_id: Option<String>,
    pub tmux: Tmux,
}

/// Index of the first pane at or after `from` with identifier `pane_id`; the
/// number of panes if there is none.
pub open spec fn pane_position(panes: Seq<PaneView>, pane_id: Seq<char>, from: int) -> int
    decreases panes.len() - from,
{
    if from < 0 || from >= panes.len() || panes[from].tmux_pane_id == pane_id {
        from
    } else {
        pane_position(panes, pane_id, from + 1)
    }
}

/// A pane with identifier `pane_id` is among `panes`.
pub open spec fn has_pane(panes: Seq<PaneView>, pane_id: Seq<char>) -> bool {
    0 <= pane_position(panes, pane_id, 0) < panes.len()
}

/// The value of an optional identifier.
pub open spec fn id_view(pane_id: Option<String>) -> Option<Seq<char>> {
    match pane_id {
        Some(pane_id) => Some(pane_id@),
        None => None,
    }
}

/// The selection names a pane of the snapshot, or nothing where there is no
/// pane.
pub open spec fn selection_holds(panes: Seq<PaneView>, selected: Option<Seq<char>>) -> bool {
    match selected {
        Some(pane_id) => has_pane(panes, pane_id),
        None => panes.len() == 0,
    }
}

/// The selection after repair: nothing where there is no pane; the selection
/// as it was where it names a pane of the snapshot; else the first pane.
pub open spec fn repaired(panes: Seq<PaneView>, selected: Option<Seq<char>>) -> Option<Seq<char>> {
    if panes.len() == 0 {
        None
    } else if selected is Some && has_pane(panes, selected->0) {
        selected
    } else {
        Some(panes[0].tmux_pane_id)
    }
}

/// The selection after a choice by index: the pane at `index`, or the
/// selection as it was where there is no such pane.
pub open spec fn chosen(panes: Seq<PaneView>, selected: Option<Seq<char>>, index: int) -> Option<
    Seq<char>,
> {
    if 0 <= index < panes.len() {
        Some(panes[index].tmux_pane_id)
    } else {
        selected
    }
}

/// A repaired selection holds.
pub proof fn lemma_repaired_holds(panes: Seq<PaneView>, selected: Option<Seq<char>>)
    ensures
        selection_holds(panes, repaired(panes, selected)),
{
}

/// A selection that holds still holds after a choice by index.
pub proof fn lemma_chosen_holds(panes: Seq<PaneView>, selected: Option<Seq<char>>, index: int)
    requires
        selection_holds(panes, selected),
    ensures
        selection_holds(panes, chosen(panes, selected, index)),
{
    if 0 <= index < panes.len() {
        lemma_pane_position(panes, panes[index].tmux_pane_id, 0);
    }
}

/// Where `pane_position` stops: at the first pane with the identifier, or
/// behind the last pane.
pub proof fn lemma_pane_position(panes: Seq<PaneView>, pane_id: Seq<char>, from: int)
    requires
        0 <= from <= panes.len(),
    ensures
        from <= pane_position(panes, pane_id, from) <= panes.len(),
        pane_position(panes, pane_id, from) < panes.len() ==> panes[pane_position(
            panes,
            pane_id,
            from,
        )].tmux_pane_id == pane_id,
        forall|i: int|
            from <= i < pane_position(panes, pane_id, from) ==> panes[i].tmux_pane_id != pane_id,
    decreases panes.len() - from,
{
    if from < panes.len() && panes[from].tmux_pane_id != pane_id {
        lemma_pane_position(panes, pane_id, from + 1);
    }
}

impl App {
    /// Index of the first pane with identifier `pane_id`, if there is one.
    pub fn position_of(&self, pane_id: &String) -> (position: Option<usize>)
        ensures
            match position {
                Some(index) => index < self.tmux.panes.len() && index == pane_position(
                    pane_views(self.tmux.panes@),
                    pane_id@,
                    0,
                ),
                None => !has_pane(pane_views(self.tmux.panes@), pane_id@),
            },
    {
        let ghost panes = pane_views(self.tmux.panes@);
        let mut index: usize = 0;
        while index < self.tmux.panes.len()
            invariant
                index <= self.tmux.panes.len(),
                panes == pane_views(self.tmux.panes@),
                pane_position(panes, pane_id@, 0) == pane_position(panes, pane_id@, index as int),
            decreases self.tmux.panes.len() - index,
        {
            assert(panes[index as int] == self.tmux.panes[index as int]@);
            if self.tmux.panes[index].tmux_pane_id == *pane_id {
                return Some(index);
            }
            index = index + 1;
        }
        None
    }

    /// The focused pane, if the selection names a pane of the snapshot.
    pub fn selected_pane(&self) -> (pane: Option<Pane>)
        ensures
            match pane {
                Some(pane) => self.selected_pane_id matches Some(pane_id) && has_pane(
                    pane_views(self.tmux.panes@),
                    pane_id@,
                ) && pane@ == pane_views(self.tmux.panes@)[pane_position(
                    pane_views(self.tmux.panes@),
                    pane_id@,
                    0,
                )],
                None => self.selected_pane_id matches Some(pane_id) ==> !has_pane(
                    pane_views(self.tmux.panes@),
                    pane_id@,
                ),
            },
    {
        match &self.selected_pane_id {
            None => None,
            Some(pane_id) => match self.position_of(pane_id) {
                None => None,
                Some(index) => Some(copy_pane(&self.tmux.panes[index])),
            },
        }
    }

    /// Repairs the selection: it names a pane of the snapshot afterwards, the
    /// one it named before if that is still there, else the first; it names
    /// nothing where there is no pane.
    pub fn ensure_selection(&mut self)
        ensures
            id_view(final(self).selected_pane_id) == repaired(
                pane_views(old(self).tmux.panes@),
                id_view(old(self).selected_pane_id),
            ),
            selection_holds(pane_views(final(self).tmux.panes@), id_view(final(self).selected_pane_id)),
            final(self).tmux == old(self).tmux,
            final(self).pane_regions == old(self).pane_regions,
            final(self).config == old(self).config,
    {
        if self.tmux.panes.len() == 0 {
            self.selected_pane_id = None;
            return;
        }
        let found = match &self.selected_pane_id {
            None => false,
            Some(pane_id) => self.position_of(pane_id).is_some(),
        };
        if !found {
            assert(pane_views(self.tmux.panes@)[0] == self.tmux.panes[0]@);
            self.selected_pane_id = Some(self.tmux.panes[0].tmux_pane_id.clone());
        }
    }

    /// Selects the pane at `pane_index`; does nothing where there is none.
    pub fn select_pane_at_index(&mut self, pane_index: usize)
        ensures
            id_view(final(self).selected_pane_id) == chosen(
                pane_views(old(self).tmux.panes@),
                id_view(old(self).selected_pane_id),
                pane_index as int,
            ),
            selection_holds(pane_views(old(self).tmux.panes@), id_view(old(self).selected_pane_id))
                ==> selection_holds(
                pane_views(final(self).tmux.panes@),
                id_view(final(self).selected_pane_id),
            ),
            final(self).tmux == old(self).tmux,
            final(self).pane_regions == old(self).pane_regions,
            final(self).config == old(self).config,
    {
        proof {
            if selection_holds(pane_views(self.tmux.panes@), id_view(self.selected_pane_id)) {
                lemma_chosen_holds(
                    pane_views(self.tmux.panes@),
                    id_view(self.selected_pane_id),
                    pane_index as int,
                );
            }
        }
        if pane_index < self.tmux.panes.len() {
            assert(pane_views(self.tmux.panes@)[pane_index as int] == self.tmux.panes[pane_index as int]@);
            self.selected_pane_id = Some(self.tmux.panes[pane_index].tmux_pane_id.clone());
        }
    }

    /// Selects the pane with identifier `pane_id`; does nothing where the
    /// snapshot has no such pane.
    pub fn select_pane(&mut self, pane_id: &str)
        ensures
            id_view(final(self).selected_pane_id) == if has_pane(
                pane_views(old(self).tmux.panes@),
                pane_id@,
            ) {
                Some(pane_id@)
            } else {
                id_view(old(self).selected_pane_id)
            },
            selection_holds(pane_views(old(self).tmux.panes@), id_view(old(self).selected_pane_id))
                ==> selection_holds(
                pane_views(final(self).tmux.panes@),
                id_view(final(self).selected_pane_id),
            ),
            final(self).tmux == old(self).tmux,
            final(self).pane_regions == old(self).pane_regions,
            final(self).config == old(self).config,
    {
        let wanted = pane_id.to_owned();
        if self.position_of(&wanted).is_some() {
            self.selected_pane_id = Some(wanted);
        }
    }
}

} // verus!

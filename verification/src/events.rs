//! What input does to the selection.

use crate::app::chosen;
use crate::app::has_pane;
use crate::app::id_view;
use crate::app::pane_position;
use crate::app::repaired;
use crate::app::selection_holds;
use crate::app::App;
use crate::layout::region_contains;
use crate::layout::PaneRegion;
use crate::navigate::eligible;
use crate::navigate::is_neighbor;
use crate::navigate::Movement;
use crate::pane::pane_views;
use crate::pane::Pane;
use crate::pane::PaneView;
use vstd::prelude::*;

verus! {

/// A key of the keyboard, as far as the dashboard tells keys apart.
#[derive(Clone, Copy, Debug, PartialEq, Eq, Structural)]
pub enum Key {
    Char(char),
    Down,
    Enter,
    Esc,
    Left,
    Right,
    Up,
    Other,
}

/// What the pointer did.
#[derive(Clone, Copy, Debug, PartialEq, Eq, Structural)]
pub enum MouseEventKind {
    /// The left button went down.
    LeftDown,
    /// Anything else.
    Other,
}

/// An action of the pointer at a cell of the terminal.
#[derive(Clone, Copy, Debug, PartialEq, Eq, Structural)]
pub struct MouseEvent {
    pub kind: MouseEventKind,
    pub column: u16,
    pub row: u16,
}

/// One event of the terminal.
#[derive(Clone, Copy, Debug, PartialEq, Eq, Structural)]
pub enum Event {
    /// A key; `pressed` is unset for a release or a repeat.
    Key { key: Key, pressed: bool },
    Mouse(MouseEvent),
    Other,
}

/// What the event loop is to do after an event.
#[derive(Clone, Debug, PartialEq, Eq)]
pub enum Action {
    /// Bring this pane to the front in the multiplexer.
    FocusPane(Pane),
    /// Leave.
    Quit,
}

/// What a pressed key asks for.
#[derive(Clone, Copy, Debug, PartialEq, Eq, Structural)]
pub enum Command {
    Focus,
    Move(Movement),
    Nothing,
    Quit,
}

/// What a pressed key asks for: `q` and escape leave, `h` `j` `k` `l` and
/// the arrows move the selection, enter brings the selected pane to the
/// front.
pub open spec fn command_of(key: Key) -> Command {
    match key {
        Key::Esc => Command::Quit,
        Key::Left => Command::Move(Movement::Left),
        Key::Down => Command::Move(Movement::Down),
        Key::Up => Command::Move(Movement::Up),
        Key::Right => Command::Move(Movement::Right),
        Key::Enter => Command::Focus,
        Key::Char(c) => if c == 'q' {
            Command::Quit
        } else if c == 'h' {
            Command::Move(Movement::Left)
        } else if c == 'j' {
            Command::Move(Movement::Down)
        } else if c == 'k' {
            Command::Move(Movement::Up)
        } else if c == 'l' {
            Command::Move(Movement::Right)
        } else {
            Command::Nothing
        },
        Key::Other => Command::Nothing,
    }
}

/// Index of the first region at or after `from` that holds the cell; the
/// number of regions if none does.
pub open spec fn region_at(regions: Seq<PaneRegion>, column: u16, row: u16, from: int) -> int
    decreases regions.len() - from,
{
    if from < 0 || from >= regions.len() || region_contains(regions[from], column, row) {
        from
    } else {
        region_at(regions, column, row, from + 1)
    }
}

/// The selection after an event of the pointer. Where the left button went
/// down, the first pane of the last frame whose region holds the cell is
/// selected, if there is one and the snapshot has a pane for it. Anything
/// else leaves the selection as it was.
pub open spec fn after_click(
    panes: Seq<PaneView>,
    regions: Seq<PaneRegion>,
    selected: Option<Seq<char>>,
    mouse_event: MouseEvent,
) -> Option<Seq<char>> {
    let hit = region_at(regions, mouse_event.column, mouse_event.row, 0);
    if mouse_event.kind == MouseEventKind::LeftDown && hit < regions.len() {
        chosen(panes, selected, hit)
    } else {
        selected
    }
}

/// The selection after a movement. Nothing changes without panes, and
/// nothing where the layout of the last frame has not one region for every
/// pane of the snapshot. Else the selection is repaired first; and if the
/// selected pane has a neighbour in the direction, the neighbour is
/// selected.
pub open spec fn moved(
    panes: Seq<PaneView>,
    regions: Seq<PaneRegion>,
    selected: Option<Seq<char>>,
    direction: Movement,
    next: Option<Seq<char>>,
) -> bool {
    let kept = repaired(panes, selected);
    if panes.len() == 0 || regions.len() != panes.len() {
        next == selected
    } else {
        let current = pane_position(panes, kept->0, 0);
        &&& (forall|j: int| !eligible(regions, current, j, direction)) ==> next == kept
        &&& forall|j: int|
            is_neighbor(regions, current, j, direction, regions.len() as int) ==> next == Some(
                panes[j].tmux_pane_id,
            )
    }
}

impl App {
    /// What a pressed key asks for.
    pub fn command_for(key: Key) -> (command: Command)
        ensures
            command == command_of(key),
    {
        match key {
            Key::Esc => Command::Quit,
            Key::Left => Command::Move(Movement::Left),
            Key::Down => Command::Move(Movement::Down),
            Key::Up => Command::Move(Movement::Up),
            Key::Right => Command::Move(Movement::Right),
            Key::Enter => Command::Focus,
            Key::Char(c) => if c == 'q' {
                Command::Quit
            } else if c == 'h' {
                Command::Move(Movement::Left)
            } else if c == 'j' {
                Command::Move(Movement::Down)
            } else if c == 'k' {
                Command::Move(Movement::Up)
            } else if c == 'l' {
                Command::Move(Movement::Right)
            } else {
                Command::Nothing
            },
            Key::Other => Command::Nothing,
        }
    }

    /// Moves the selection to the nearest pane in `direction`. Does nothing
    /// at all without panes, and nothing at all where the layout of the last
    /// frame has not one region for every pane of the snapshot, as it is
    /// before the first frame and between a change of the panes and the next
    /// frame. With a layout that matches, the selection is repaired first,
    /// so that it names a pane of the snapshot afterwards; it stays there
    /// where no pane lies in the direction.
    pub fn move_selection(&mut self, direction: Movement)
        ensures
            moved(
                pane_views(old(self).tmux.panes@),
                old(self).pane_regions@,
                id_view(old(self).selected_pane_id),
                direction,
                id_view(final(self).selected_pane_id),
            ),
            old(self).tmux.panes@.len() > 0 && old(self).pane_regions@.len() == old(
                self,
            ).tmux.panes@.len() ==> selection_holds(
                pane_views(final(self).tmux.panes@),
                id_view(final(self).selected_pane_id),
            ),
            selection_holds(pane_views(old(self).tmux.panes@), id_view(old(self).selected_pane_id))
                ==> selection_holds(
                pane_views(final(self).tmux.panes@),
                id_view(final(self).selected_pane_id),
            ),
            final(self).tmux == old(self).tmux,
            final(self).pane_regions == old(self).pane_regions,
            final(self).config == old(self).config,
    {
        if self.tmux.panes.len() == 0 {
            return;
        }
        if self.pane_regions.len() != self.tmux.panes.len() {
            return;
        }
        self.ensure_selection();
        let ghost panes = pane_views(self.tmux.panes@);
        let current_index = match &self.selected_pane_id {
            None => {
                return;
            },
            Some(pane_id) => match self.position_of(pane_id) {
                None => {
                    return;
                },
                Some(index) => index,
            },
        };
        let next = Self::pane_in_direction(self.pane_regions.as_slice(), current_index, direction);
        match next {
            None => {},
            Some(next_index) => {
                self.select_pane_at_index(next_index);
                proof {
                    let regions = self.pane_regions@;
                    assert forall|j: int|
                        is_neighbor(
                            regions,
                            current_index as int,
                            j,
                            direction,
                            regions.len() as int,
                        ) implies j == next_index by {
                        lemma_neighbor_unique(
                            regions,
                            current_index as int,
                            j,
                            next_index as int,
                            direction,
                        );
                    }
                }
            },
        }
    }

    /// Selects the pane under the pointer when the left button goes down
    /// there: the first pane of the last frame whose region holds the cell.
    /// Any other event of the pointer, and a click beside all panes, does
    /// nothing.
    pub fn handle_mouse_event(&mut self, mouse_event: MouseEvent)
        ensures
            id_view(final(self).selected_pane_id) == after_click(
                pane_views(old(self).tmux.panes@),
                old(self).pane_regions@,
                id_view(old(self).selected_pane_id),
                mouse_event,
            ),
            selection_holds(pane_views(old(self).tmux.panes@), id_view(old(self).selected_pane_id))
                ==> selection_holds(
                pane_views(final(self).tmux.panes@),
                id_view(final(self).selected_pane_id),
            ),
            final(self).tmux == old(self).tmux,
            final(self).pane_regions == old(self).pane_regions,
            final(self).config == old(self).config,
    {
        match mouse_event.kind {
            MouseEventKind::LeftDown => {},
            MouseEventKind::Other => {
                return;
            },
        }
        let mut index: usize = 0;
        while index < self.pane_regions.len()
            invariant
                index <= self.pane_regions.len(),
                *self == *old(self),
                mouse_event.kind == MouseEventKind::LeftDown,
                region_at(self.pane_regions@, mouse_event.column, mouse_event.row, 0) == region_at(
                    self.pane_regions@,
                    mouse_event.column,
                    mouse_event.row,
                    index as int,
                ),
            decreases self.pane_regions.len() - index,
        {
            if Self::rect_contains(self.pane_regions[index], mouse_event.column, mouse_event.row) {
                assert(region_at(
                    self.pane_regions@,
                    mouse_event.column,
                    mouse_event.row,
                    index as int,
                ) == index);
                self.select_pane_at_index(index);
                return;
            }
            index = index + 1;
        }
    }

    /// Takes one event of the terminal and says what the event loop is to
    /// do. A pressed key does what [`command_of`] says: leaving is handed
    /// back as `Quit`; a movement moves the selection; enter hands back the
    /// selected pane to bring to the front, if one is selected. A click
    /// selects the pane under the pointer. Everything else is passed over.
    pub fn handle_event(&mut self, event: Event) -> (action: Option<Action>)
        ensures
            final(self).tmux == old(self).tmux,
            final(self).pane_regions == old(self).pane_regions,
            final(self).config == old(self).config,
            match event {
                Event::Key { key, pressed: true } => match command_of(key) {
                    Command::Quit => action == Some(Action::Quit) && final(self).selected_pane_id
                        == old(self).selected_pane_id,
                    Command::Move(direction) => action is None && moved(
                        pane_views(old(self).tmux.panes@),
                        old(self).pane_regions@,
                        id_view(old(self).selected_pane_id),
                        direction,
                        id_view(final(self).selected_pane_id),
                    ),
                    Command::Focus => final(self).selected_pane_id == old(self).selected_pane_id && (
                    match action {
                        Some(Action::FocusPane(pane)) => old(self).selected_pane_id matches Some(
                            pane_id,
                        ) && has_pane(pane_views(old(self).tmux.panes@), pane_id@) && pane@
                            == pane_views(old(self).tmux.panes@)[pane_position(
                            pane_views(old(self).tmux.panes@),
                            pane_id@,
                            0,
                        )],
                        Some(Action::Quit) => false,
                        None => old(self).selected_pane_id matches Some(pane_id) ==> !has_pane(
                            pane_views(old(self).tmux.panes@),
                            pane_id@,
                        ),
                    }),
                    Command::Nothing => action is None && final(self).selected_pane_id == old(
                        self,
                    ).selected_pane_id,
                },
                Event::Mouse(mouse_event) => action is None && id_view(final(self).selected_pane_id)
                    == after_click(
                    pane_views(old(self).tmux.panes@),
                    old(self).pane_regions@,
                    id_view(old(self).selected_pane_id),
                    mouse_event,
                ),
                _ => action is None && final(self).selected_pane_id == old(self).selected_pane_id,
            },
    {
        match event {
            Event::Key { key, pressed } => {
                if !pressed {
                    return None;
                }
                match Self::command_for(key) {
                    Command::Quit => Some(Action::Quit),
                    Command::Move(direction) => {
                        self.move_selection(direction);
                        None
                    },
                    Command::Focus => match self.selected_pane() {
                        Some(pane) => Some(Action::FocusPane(pane)),
                        None => None,
                    },
                    Command::Nothing => None,
                }
            },
            Event::Mouse(mouse_event) => {
                self.handle_mouse_event(mouse_event);
                None
            },
            Event::Other => None,
        }
    }
}

/// A pane has at most one neighbour in a direction.
pub proof fn lemma_neighbor_unique(
    regions: Seq<PaneRegion>,
    current: int,
    a: int,
    b: int,
    direction: Movement,
)
    requires
        is_neighbor(regions, current, a, direction, regions.len() as int),
        is_neighbor(regions, current, b, direction, regions.len() as int),
    ensures
        a == b,
{
}

} // verus!

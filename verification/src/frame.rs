//! One turn of the event loop: refreshing the snapshot when it is due and
//! working out what the next frame shows.

use crate::app::id_view;
use crate::app::repaired;
use crate::app::selection_holds;
use crate::app::App;
use crate::clip::clip_of;
use crate::capture::done_view;
use crate::capture::focused;
use crate::capture::snapshot_taken;
use crate::capture::snapshot_view;
use crate::command_runner::CommandRunner;
use crate::error::TmuxErrorView;
use crate::text::string_views;
use crate::config::Config;
use crate::document::DocumentView;
use crate::document::StyledDocument;
use crate::error::TmuxError;
use crate::layout::laid_out;
use crate::layout::PaneRegion;
use crate::pane::descriptor_of;
use crate::pane::pane_views;
use crate::pane::Pane;
use crate::pane::PaneView;
use crate::tmux::Tmux;
use vstd::prelude::*;

verus! {

/// Milliseconds after which a snapshot is taken again.
pub const REFRESH_INTERVAL: u64 = 500;

/// What the frame shows of one pane.
#[derive(Clone, Debug, PartialEq, Eq)]
pub struct PaneFrame {
    /// Where the pane is drawn, border included.
    pub region: PaneRegion,
    /// The heading on the border.
    pub title: String,
    /// The text within the border.
    pub content: StyledDocument,
    /// Whether the pane has the focus.
    pub selected: bool,
}

/// Mathematical value of a [`PaneFrame`].
pub struct PaneFrameView {
    pub region: PaneRegion,
    pub title: Seq<char>,
    pub content: DocumentView,
    pub selected: bool,
}

impl View for PaneFrame {
    type V = PaneFrameView;

    open spec fn view(&self) -> PaneFrameView {
        PaneFrameView {
            region: self.region,
            title: self.title@,
            content: self.content@,
            selected: self.selected,
        }
    }
}

/// What lies within the border of a region: one cell less on every side.
pub open spec fn inner_size(extent: u16) -> nat {
    if extent >= 2 {
        (extent - 2) as nat
    } else {
        0
    }
}

/// What the frame shows of `pane` in `region`.
pub open spec fn pane_frame(
    pane: PaneView,
    region: PaneRegion,
    selected: Option<Seq<char>>,
    color_output: bool,
) -> PaneFrameView {
    PaneFrameView {
        region,
        title: descriptor_of(pane.session, pane.window_index, pane.index),
        content: clip_of(
            pane.content,
            inner_size(region.height),
            inner_size(region.width),
            color_output,
        ),
        selected: selected == Some(pane.tmux_pane_id),
    }
}

/// The identifiers that are excluded from the start: that of the pane the
/// dashboard itself runs in, if it runs in one.
pub open spec fn own_exclusion(own_pane_id: Option<&str>) -> Seq<Seq<char>> {
    match own_pane_id {
        Some(pane_id) => seq![pane_id@],
        None => Seq::empty(),
    }
}

/// The value of the first snapshot: the panes that the state starts with,
/// or why there is no state.
pub open spec fn first_snapshot(app: Result<App, TmuxError>) -> Result<Seq<PaneView>, TmuxErrorView> {
    match app {
        Ok(app) => Ok(pane_views(app.tmux.panes@)),
        Err(error) => Err(error@),
    }
}

/// The value of the snapshot behind the frames of a turn: the panes that
/// the turn left behind, or why it has no frames.
pub open spec fn frame_snapshot(frames: Result<Vec<PaneFrame>, TmuxError>, panes: Seq<Pane>) -> Result<
    Seq<PaneView>,
    TmuxErrorView,
> {
    match frames {
        Ok(_) => Ok(pane_views(panes)),
        Err(error) => Err(error@),
    }
}

impl App {
    /// Brings `pane` to the front in the multiplexer and selects it. The
    /// selection stays where the multiplexer refuses.
    pub fn focus_pane<R: CommandRunner>(&mut self, pane: &Pane, runner: &R) -> (outcome: Result<
        (),
        TmuxError,
    >)
        ensures
            focused(runner, pane@, done_view(outcome)),
            id_view(final(self).selected_pane_id) == if outcome is Ok {
                Some(pane@.tmux_pane_id)
            } else {
                id_view(old(self).selected_pane_id)
            },
            final(self).tmux == old(self).tmux,
            final(self).pane_regions == old(self).pane_regions,
            final(self).config == old(self).config,
    {
        match Tmux::focus_pane_with_runner(pane, runner) {
            Ok(_) => {
                self.selected_pane_id = Some(pane.tmux_pane_id.clone());
                Ok(())
            },
            Err(error) => Err(error),
        }
    }

    /// Takes a new snapshot and repairs the selection. Nothing changes where
    /// the snapshot fails.
    pub fn refresh_tmux<R: CommandRunner>(&mut self, runner: &R) -> (outcome: Result<(), TmuxError>)
        ensures
            final(self).pane_regions == old(self).pane_regions,
            final(self).config == old(self).config,
            final(self).tmux.excluded_pane_ids == old(self).tmux.excluded_pane_ids,
            final(self).tmux.include_escape_codes == old(self).tmux.include_escape_codes,
            outcome is Err ==> *final(self) == *old(self),
            snapshot_taken(
                runner,
                old(self).tmux.excluded_pane_ids@,
                old(self).tmux.include_escape_codes,
                snapshot_view(outcome, final(self).tmux.panes@),
            ),
            outcome is Ok ==> id_view(final(self).selected_pane_id) == repaired(
                pane_views(final(self).tmux.panes@),
                id_view(old(self).selected_pane_id),
            ),
            outcome is Ok ==> selection_holds(
                pane_views(final(self).tmux.panes@),
                id_view(final(self).selected_pane_id),
            ),
    {
        match self.tmux.capture_with_runner(runner) {
            Ok(_) => {
                self.ensure_selection();
                Ok(())
            },
            Err(error) => Err(error),
        }
    }

    /// The state at start-up: the first snapshot, with the pane that the
    /// dashboard itself runs in left out for good, and its first pane
    /// selected.
    pub fn new<R: CommandRunner>(config: Config, own_pane_id: Option<&str>, runner: &R) -> (app: Result<
        App,
        TmuxError,
    >)
        ensures
            exists|excluded: Seq<String>|
                string_views(excluded) == own_exclusion(own_pane_id) && #[trigger] snapshot_taken(
                    runner,
                    excluded,
                    config.color_output,
                    first_snapshot(app),
                ),
            app matches Ok(app) ==> {
                &&& app.config == config
                &&& app.pane_regions@.len() == 0
                &&& app.tmux.include_escape_codes == config.color_output
                &&& app.tmux.excluded_pane_ids@.len() == if own_pane_id is Some {
                    1int
                } else {
                    0int
                }
                &&& own_pane_id matches Some(pane_id) ==> app.tmux.excluded_pane_ids@[0]@ == pane_id@
                &&& id_view(app.selected_pane_id) == repaired(pane_views(app.tmux.panes@), None)
            },
    {
        let mut tmux = Tmux::new(config);
        match own_pane_id {
            Some(pane_id) => {
                let ghost before = crate::text::string_views(tmux.excluded_pane_ids@);
                assert(before.len() == 0);
                tmux.exclude_pane_id(pane_id);
                let ghost after = crate::text::string_views(tmux.excluded_pane_ids@);
                assert(after.len() == tmux.excluded_pane_ids@.len());
                assert(after[0] == tmux.excluded_pane_ids@[0]@);
            },
            None => {},
        }
        let ghost excluded = tmux.excluded_pane_ids@;
        assert(string_views(excluded) =~= own_exclusion(own_pane_id));
        match tmux.capture_with_runner(runner) {
            Ok(_) => {},
            Err(error) => {
                assert(snapshot_taken(
                    runner,
                    excluded,
                    config.color_output,
                    Err::<Seq<PaneView>, TmuxErrorView>(error@),
                ));
                return Err(error);
            },
        }
        assert(snapshot_taken(
            runner,
            excluded,
            config.color_output,
            Ok::<Seq<PaneView>, TmuxErrorView>(pane_views(tmux.panes@)),
        ));
        let mut app = App { config, pane_regions: Vec::new(), selected_pane_id: None, tmux };
        app.ensure_selection();
        Ok(app)
    }

    /// Whether a snapshot is due after `elapsed` milliseconds.
    pub fn refresh_due(elapsed: u64) -> (due: bool)
        ensures
            due == (elapsed >= REFRESH_INTERVAL),
    {
        elapsed >= REFRESH_INTERVAL
    }

    /// One turn of the event loop, `elapsed` milliseconds after the last
    /// snapshot, for a drawing area `area`. Takes a new snapshot and repairs
    /// the selection if a snapshot is due, and only then; lays the panes out
    /// on the area; remembers the layout for the pointer and the movements;
    /// and hands back what to draw of every pane: its region, its descriptor
    /// as heading, whether it is selected, and the end of its content that
    /// fits within its border. A snapshot that fails ends the turn and
    /// changes nothing.
    pub fn tick<R: CommandRunner>(&mut self, elapsed: u64, area: PaneRegion, runner: &R) -> (frames: Result<
        Vec<PaneFrame>,
        TmuxError,
    >)
        ensures
            final(self).config == old(self).config,
            final(self).tmux.excluded_pane_ids == old(self).tmux.excluded_pane_ids,
            final(self).tmux.include_escape_codes == old(self).tmux.include_escape_codes,
            elapsed < REFRESH_INTERVAL ==> frames is Ok && final(self).tmux == old(self).tmux
                && final(self).selected_pane_id == old(self).selected_pane_id,
            frames is Err ==> *final(self) == *old(self),
            elapsed >= REFRESH_INTERVAL ==> snapshot_taken(
                runner,
                old(self).tmux.excluded_pane_ids@,
                old(self).tmux.include_escape_codes,
                frame_snapshot(frames, final(self).tmux.panes@),
            ),
            elapsed >= REFRESH_INTERVAL && frames is Ok ==> id_view(final(self).selected_pane_id)
                == repaired(
                pane_views(final(self).tmux.panes@),
                id_view(old(self).selected_pane_id),
            ),
            frames is Ok ==> laid_out(
                area,
                final(self).tmux.panes@.len(),
                final(self).pane_regions@,
            ),
            frames matches Ok(frames) ==> {
                &&& final(self).pane_regions@.len() == final(self).tmux.panes@.len()
                &&& frames@.len() == final(self).tmux.panes@.len()
                &&& forall|i: int|
                    0 <= i < frames@.len() ==> (#[trigger] frames@[i])@ == pane_frame(
                        final(self).tmux.panes@[i]@,
                        final(self).pane_regions@[i],
                        id_view(final(self).selected_pane_id),
                        final(self).config.color_output,
                    )
            },
    {
        if Self::refresh_due(elapsed) {
            match self.refresh_tmux(runner) {
                Ok(_) => {},
                Err(error) => {
                    return Err(error);
                },
            }
        }
        let pane_count = self.tmux.panes.len();
        let regions = Self::compute_pane_regions(area, pane_count);
        let mut frames: Vec<PaneFrame> = Vec::new();
        let mut index: usize = 0;
        while index < pane_count
            invariant
                index <= pane_count,
                pane_count == self.tmux.panes.len(),
                regions.len() == pane_count,
                laid_out(area, pane_count as nat, regions@),
                frames.len() == index,
                forall|i: int|
                    0 <= i < index ==> (#[trigger] frames@[i])@ == pane_frame(
                        self.tmux.panes@[i]@,
                        regions@[i],
                        id_view(self.selected_pane_id),
                        self.config.color_output,
                    ),
            decreases pane_count - index,
        {
            let pane = &self.tmux.panes[index];
            let region = regions[index];
            let selected = match &self.selected_pane_id {
                Some(pane_id) => *pane_id == pane.tmux_pane_id,
                None => false,
            };
            let frame = PaneFrame {
                region,
                title: pane.descriptor(),
                content: Self::clip_to_bottom(
                    pane.content.as_str(),
                    region.height.saturating_sub(2) as usize,
                    region.width.saturating_sub(2) as usize,
                    self.config.color_output,
                ),
                selected,
            };
            frames.push(frame);
            index = index + 1;
        }
        self.pane_regions = regions;
        Ok(frames)
    }
}

} // verus!

use spymux::app::App;
use spymux::command_runner::{CommandOutput, CommandRunner};
use spymux::config::Config;
use spymux::document::{StyledDocument, StyledLine, StyledSpan};
use spymux::error::TmuxError;
use spymux::events::{Action, Command, Event, Key, MouseEvent, MouseEventKind};
use spymux::frame::PaneFrame;
use spymux::layout::PaneRegion;
use spymux::navigate::Movement;
use spymux::pane::Pane;
use spymux::style::Style;
use spymux::tmux::Tmux;
use std::cell::RefCell;

struct ScriptedRunner {
    listing: String,
    content: String,
    succeed: bool,
    commands: RefCell<Vec<String>>,
}

impl ScriptedRunner {
    fn new(listing: &str, content: &str) -> Self {
        Self {
            listing: listing.to_string(),
            content: content.to_string(),
            succeed: true,
            commands: RefCell::new(Vec::new()),
        }
    }
}

impl CommandRunner for ScriptedRunner {
    fn run(&self, arguments: &[&str]) -> Result<CommandOutput, String> {
        self.commands.borrow_mut().push(arguments.join(" "));

        let stdout = match arguments[0] {
            "list-panes" => self.listing.as_bytes().to_vec(),
            "capture-pane" => self.content.as_bytes().to_vec(),
            _ => vec![],
        };

        Ok(CommandOutput { success: self.succeed, stdout })
    }
}

fn pane(tmux_pane_id: &str, index: usize) -> Pane {
    Pane {
        id: format!("s:0.{index}"),
        index,
        session: "s".to_string(),
        tmux_pane_id: tmux_pane_id.to_string(),
        ..Default::default()
    }
}

fn rect(x: u16, y: u16, width: u16, height: u16) -> PaneRegion {
    PaneRegion { x, y, width, height }
}

fn app_with(ids: &[&str], selected: Option<&str>) -> App {
    App {
        config: Config::default(),
        pane_regions: Vec::new(),
        selected_pane_id: selected.map(str::to_string),
        tmux: Tmux {
            excluded_pane_ids: Vec::new(),
            include_escape_codes: true,
            panes: ids.iter().enumerate().map(|(index, id)| pane(id, index)).collect(),
        },
    }
}

fn plain(lines: &[&str]) -> StyledDocument {
    StyledDocument {
        lines: lines
            .iter()
            .map(|line| StyledLine {
                spans: vec![StyledSpan { content: line.to_string(), style: Style::default() }],
                style: Style::default(),
                alignment: None,
            })
            .collect(),
        style: Style::default(),
        alignment: None,
    }
}

#[test]
fn config_default_keeps_colors_and_refreshes_twice_a_second() {
    assert_eq!(Config::default(), Config { color_output: true, refresh_rate: 500 });
}

#[test]
fn ensure_selection_keeps_a_selection_that_is_present() {
    let mut app = app_with(&["%0", "%1"], Some("%1"));

    app.ensure_selection();

    assert_eq!(app.selected_pane_id, Some("%1".to_string()));
}

#[test]
fn ensure_selection_falls_back_to_the_first_pane() {
    let mut app = app_with(&["%0", "%1"], Some("%7"));

    app.ensure_selection();

    assert_eq!(app.selected_pane_id, Some("%0".to_string()));

    let mut app = app_with(&["%0", "%1"], None);

    app.ensure_selection();

    assert_eq!(app.selected_pane_id, Some("%0".to_string()));
}

#[test]
fn ensure_selection_clears_without_panes() {
    let mut app = app_with(&[], Some("%1"));

    app.ensure_selection();

    assert_eq!(app.selected_pane_id, None);
}

#[test]
fn selected_pane_finds_the_pane_by_identifier() {
    let app = app_with(&["%0", "%1"], Some("%1"));

    assert_eq!(app.selected_pane(), Some(pane("%1", 1)));
    assert_eq!(app_with(&["%0"], Some("%1")).selected_pane(), None);
    assert_eq!(app_with(&["%0"], None).selected_pane(), None);
}

#[test]
fn select_pane_at_index_ignores_missing_panes() {
    let mut app = app_with(&["%0", "%1"], Some("%0"));

    app.select_pane_at_index(1);
    assert_eq!(app.selected_pane_id, Some("%1".to_string()));

    app.select_pane_at_index(2);
    assert_eq!(app.selected_pane_id, Some("%1".to_string()));
}

#[test]
fn select_pane_ignores_unknown_identifiers() {
    let mut app = app_with(&["%0", "%1"], Some("%0"));

    app.select_pane("%1");
    assert_eq!(app.selected_pane_id, Some("%1".to_string()));

    app.select_pane("%5");
    assert_eq!(app.selected_pane_id, Some("%1".to_string()));
}

#[test]
fn move_selection_follows_the_layout() {
    let mut app = app_with(&["%0", "%1", "%2"], Some("%0"));

    app.pane_regions = vec![rect(0, 0, 10, 5), rect(12, 0, 10, 5), rect(0, 8, 10, 5)];

    app.move_selection(Movement::Right);
    assert_eq!(app.selected_pane_id, Some("%1".to_string()));

    app.move_selection(Movement::Right);
    assert_eq!(app.selected_pane_id, Some("%1".to_string()));

    app.move_selection(Movement::Down);
    assert_eq!(app.selected_pane_id, Some("%2".to_string()));

    app.move_selection(Movement::Up);
    assert_eq!(app.selected_pane_id, Some("%0".to_string()));
}

#[test]
fn move_selection_does_nothing_when_the_layout_is_stale() {
    let mut app = app_with(&["%0", "%1"], Some("%9"));

    app.pane_regions = vec![rect(0, 0, 10, 5)];

    app.move_selection(Movement::Right);

    assert_eq!(app.selected_pane_id, Some("%9".to_string()));

    let mut unselected = app_with(&["%0", "%1"], None);

    unselected.move_selection(Movement::Right);

    assert_eq!(unselected.selected_pane_id, None);

    let mut valid = app_with(&["%0", "%1"], Some("%1"));

    valid.pane_regions = vec![rect(0, 0, 10, 5), rect(12, 0, 10, 5), rect(24, 0, 10, 5)];

    valid.move_selection(Movement::Left);

    assert_eq!(valid.selected_pane_id, Some("%1".to_string()));

    let mut empty = app_with(&[], Some("%9"));

    empty.move_selection(Movement::Right);

    assert_eq!(empty.selected_pane_id, Some("%9".to_string()));
}

#[test]
fn move_selection_repairs_before_it_moves_on_a_matching_layout() {
    let mut app = app_with(&["%0", "%1"], Some("%9"));

    app.pane_regions = vec![rect(0, 0, 10, 5), rect(12, 0, 10, 5)];

    app.move_selection(Movement::Left);

    assert_eq!(app.selected_pane_id, Some("%0".to_string()));

    app.selected_pane_id = None;

    app.move_selection(Movement::Right);

    assert_eq!(app.selected_pane_id, Some("%1".to_string()));
}

#[test]
fn handle_mouse_event_selects_the_pane_under_the_pointer() {
    let mut app = app_with(&["%0", "%1"], Some("%0"));

    app.pane_regions = vec![rect(0, 0, 10, 5), rect(10, 0, 10, 5)];

    app.handle_mouse_event(MouseEvent { kind: MouseEventKind::Other, column: 12, row: 1 });
    assert_eq!(app.selected_pane_id, Some("%0".to_string()));

    app.handle_mouse_event(MouseEvent { kind: MouseEventKind::LeftDown, column: 12, row: 1 });
    assert_eq!(app.selected_pane_id, Some("%1".to_string()));

    app.handle_mouse_event(MouseEvent { kind: MouseEventKind::LeftDown, column: 30, row: 1 });
    assert_eq!(app.selected_pane_id, Some("%1".to_string()));
}

#[test]
fn command_for_maps_keys() {
    assert_eq!(App::command_for(Key::Char('q')), Command::Quit);
    assert_eq!(App::command_for(Key::Esc), Command::Quit);
    assert_eq!(App::command_for(Key::Char('h')), Command::Move(Movement::Left));
    assert_eq!(App::command_for(Key::Left), Command::Move(Movement::Left));
    assert_eq!(App::command_for(Key::Char('j')), Command::Move(Movement::Down));
    assert_eq!(App::command_for(Key::Down), Command::Move(Movement::Down));
    assert_eq!(App::command_for(Key::Char('k')), Command::Move(Movement::Up));
    assert_eq!(App::command_for(Key::Up), Command::Move(Movement::Up));
    assert_eq!(App::command_for(Key::Char('l')), Command::Move(Movement::Right));
    assert_eq!(App::command_for(Key::Right), Command::Move(Movement::Right));
    assert_eq!(App::command_for(Key::Enter), Command::Focus);
    assert_eq!(App::command_for(Key::Char('x')), Command::Nothing);
    assert_eq!(App::command_for(Key::Other), Command::Nothing);
}

#[test]
fn handle_event_acts_on_pressed_keys_only() {
    let mut app = app_with(&["%0", "%1"], Some("%0"));

    app.pane_regions = vec![rect(0, 0, 10, 5), rect(10, 0, 10, 5)];

    assert_eq!(app.handle_event(Event::Key { key: Key::Char('q'), pressed: false }), None);
    assert_eq!(app.handle_event(Event::Key { key: Key::Char('q'), pressed: true }), Some(Action::Quit));
    assert_eq!(app.handle_event(Event::Key { key: Key::Char('l'), pressed: true }), None);
    assert_eq!(app.selected_pane_id, Some("%1".to_string()));
    assert_eq!(
        app.handle_event(Event::Key { key: Key::Enter, pressed: true }),
        Some(Action::FocusPane(pane("%1", 1)))
    );
    assert_eq!(
        app.handle_event(Event::Mouse(MouseEvent {
            kind: MouseEventKind::LeftDown,
            column: 0,
            row: 0
        })),
        None
    );
    assert_eq!(app.selected_pane_id, Some("%0".to_string()));
    assert_eq!(app.handle_event(Event::Other), None);
}

#[test]
fn focus_pane_selects_only_on_success() {
    let mut app = app_with(&["%0", "%1"], Some("%0"));
    let runner = ScriptedRunner::new("", "");

    app.focus_pane(&pane("%1", 1), &runner).unwrap();

    assert_eq!(app.selected_pane_id, Some("%1".to_string()));
    assert_eq!(
        *runner.commands.borrow(),
        vec!["select-window -t s:0".to_string(), "select-pane -t %1".to_string()]
    );

    let failing = ScriptedRunner { succeed: false, ..ScriptedRunner::new("", "") };

    assert_eq!(app.focus_pane(&pane("%0", 0), &failing), Err(TmuxError::SelectWindow));
    assert_eq!(app.selected_pane_id, Some("%1".to_string()));
}

#[test]
fn new_excludes_the_own_pane_and_selects_the_first() {
    let runner = ScriptedRunner::new("s:0.0\t%0\ns:0.1\t%1\ns:0.2\t%2\n", "text");

    let app = App::new(Config::default(), Some("%0"), &runner).unwrap();

    assert_eq!(app.tmux.excluded_pane_ids, vec!["%0".to_string()]);
    assert_eq!(app.tmux.panes.len(), 2);
    assert_eq!(app.selected_pane_id, Some("%1".to_string()));
    assert!(app.pane_regions.is_empty());

    let none = App::new(Config::default(), None, &ScriptedRunner::new("", "")).unwrap();

    assert_eq!(none.selected_pane_id, None);
    assert!(none.tmux.excluded_pane_ids.is_empty());
}

#[test]
fn refresh_tmux_repairs_the_selection() {
    let mut app = app_with(&["%0", "%1"], Some("%1"));

    app.refresh_tmux(&ScriptedRunner::new("s:0.0\t%0\n", "")).unwrap();

    assert_eq!(app.selected_pane_id, Some("%0".to_string()));

    let failing = ScriptedRunner { succeed: false, ..ScriptedRunner::new("", "") };

    assert_eq!(app.refresh_tmux(&failing), Err(TmuxError::ListPanes));
    assert_eq!(app.tmux.panes.len(), 1);
}

#[test]
fn refresh_is_due_after_half_a_second() {
    assert!(!App::refresh_due(499));
    assert!(App::refresh_due(500));
}

#[test]
fn tick_lays_out_and_clips_every_pane() {
    let runner = ScriptedRunner::new("s:0.0\t%0\ns:0.1\t%1\n", "line1\nline2\nline3\nline4");
    let mut app = App::new(Config::default(), None, &runner).unwrap();

    let frames = app.tick(0, rect(0, 0, 80, 4), &runner).unwrap();

    assert_eq!(runner.commands.borrow().len(), 3);
    assert_eq!(app.pane_regions, vec![rect(0, 0, 40, 4), rect(40, 0, 40, 4)]);
    assert_eq!(
        frames,
        vec![
            PaneFrame {
                region: rect(0, 0, 40, 4),
                title: "s:0.0".to_string(),
                content: plain(&["line3", "line4"]),
                selected: true,
            },
            PaneFrame {
                region: rect(40, 0, 40, 4),
                title: "s:0.1".to_string(),
                content: plain(&["line3", "line4"]),
                selected: false,
            },
        ]
    );
}

#[test]
fn tick_refreshes_when_due_and_clears_the_layout_without_panes() {
    let runner = ScriptedRunner::new("s:0.0\t%0\n", "text");
    let mut app = App::new(Config::default(), None, &runner).unwrap();

    app.tick(499, rect(0, 0, 80, 24), &runner).unwrap();
    assert_eq!(runner.commands.borrow().len(), 2);

    let gone = ScriptedRunner::new("", "");
    let frames = app.tick(500, rect(0, 0, 80, 24), &gone).unwrap();

    assert_eq!(gone.commands.borrow().len(), 1);
    assert!(frames.is_empty());
    assert!(app.pane_regions.is_empty());
    assert_eq!(app.selected_pane_id, None);

    let failing = ScriptedRunner { succeed: false, ..ScriptedRunner::new("", "") };

    assert_eq!(app.tick(1000, rect(0, 0, 80, 24), &failing), Err(TmuxError::ListPanes));
}

#[test]
fn tick_flattens_styles_without_color_output() {
    let runner = ScriptedRunner::new("s:0.0\t%0\n", "\x1b[31mred\x1b[0m");
    let config = Config { color_output: false, refresh_rate: 500 };
    let mut app = App::new(config, None, &runner).unwrap();

    assert!(!app.tmux.include_escape_codes);

    let frames = app.tick(0, rect(0, 0, 10, 3), &runner).unwrap();

    assert_eq!(frames[0].content, plain(&["red"]));
}

use spymux::command_runner::{CommandOutput, CommandRunner};
use spymux::config::Config;
use spymux::error::TmuxError;
use spymux::instance::Instance;
use spymux::pane::Pane;
use spymux::text::NumberError;
use spymux::tmux::Tmux;
use std::cell::RefCell;
use std::collections::BTreeMap;

struct MockCommandRunner {
    capture_outputs: BTreeMap<String, String>,
    capture_successes: BTreeMap<String, bool>,
    list_panes_output: String,
    list_panes_success: bool,
    select_pane_success: bool,
    select_window_success: bool,
    selected_panes: RefCell<Vec<String>>,
    selected_windows: RefCell<Vec<String>>,
    commands: RefCell<Vec<Vec<String>>>,
}

impl Default for MockCommandRunner {
    fn default() -> Self {
        Self {
            capture_outputs: BTreeMap::new(),
            capture_successes: BTreeMap::new(),
            list_panes_output: String::new(),
            list_panes_success: true,
            select_pane_success: true,
            select_window_success: true,
            selected_panes: RefCell::new(Vec::new()),
            selected_windows: RefCell::new(Vec::new()),
            commands: RefCell::new(Vec::new()),
        }
    }
}

impl CommandRunner for MockCommandRunner {
    fn run(&self, arguments: &[&str]) -> Result<CommandOutput, String> {
        self.commands
            .borrow_mut()
            .push(arguments.iter().map(|argument| argument.to_string()).collect());

        match arguments[0] {
            "list-panes" => Ok(CommandOutput {
                success: self.list_panes_success,
                stdout: self.list_panes_output.as_bytes().to_vec(),
            }),
            "capture-pane" => {
                let pane_id = arguments[2];

                let content = self
                    .capture_outputs
                    .get(pane_id)
                    .unwrap_or(&String::new())
                    .clone();

                let success = *self.capture_successes.get(pane_id).unwrap_or(&true);

                Ok(CommandOutput { success, stdout: content.as_bytes().to_vec() })
            }
            "select-pane" => {
                let target = arguments[2].to_string();

                self.selected_panes.borrow_mut().push(target);

                Ok(CommandOutput { success: self.select_pane_success, stdout: vec![] })
            }
            "select-window" => {
                let target = arguments[2].to_string();

                self.selected_windows.borrow_mut().push(target);

                Ok(CommandOutput { success: self.select_window_success, stdout: vec![] })
            }
            _ => Err("unexpected command".to_string()),
        }
    }
}

impl MockCommandRunner {
    fn selected_panes(&self) -> Vec<String> {
        self.selected_panes.borrow().clone()
    }

    fn selected_windows(&self) -> Vec<String> {
        self.selected_windows.borrow().clone()
    }
}

fn pane(content: &str, id: &str, index: usize, tmux_pane_id: &str, session: &str, window_index: usize) -> Pane {
    Pane {
        command: String::new(),
        content: content.to_string(),
        id: id.to_string(),
        index,
        path: String::new(),
        session: session.to_string(),
        tmux_pane_id: tmux_pane_id.to_string(),
        window_index,
    }
}

#[test]
fn empty_pane_list() {
    let runner = MockCommandRunner { list_panes_output: String::new(), ..Default::default() };

    let mut tmux = Tmux::new(Config::default());

    tmux.capture_with_runner(&runner).unwrap();

    assert_eq!(tmux.panes.len(), 0);
}

#[test]
fn capture_single_pane() {
    let mut capture_outputs = BTreeMap::new();

    capture_outputs.insert("session1:0.0".to_string(), "Hello World\n".to_string());

    let runner = MockCommandRunner {
        capture_outputs,
        list_panes_output: String::from("session1:0.0\t%0\n"),
        ..Default::default()
    };

    let mut tmux = Tmux::new(Config::default());

    tmux.capture_with_runner(&runner).unwrap();

    assert_eq!(tmux.panes.len(), 1);

    assert_eq!(tmux.panes, vec![pane("Hello World\n", "session1:0.0", 0, "%0", "session1", 0)]);
}

#[test]
fn capture_multiple_panes() {
    let mut capture_outputs = BTreeMap::new();

    capture_outputs.insert("session1:0.0".to_string(), "Pane 1\n".to_string());
    capture_outputs.insert("session1:0.1".to_string(), "Pane 2\n".to_string());
    capture_outputs.insert("session2:1.0".to_string(), "Pane 3\n".to_string());

    let runner = MockCommandRunner {
        capture_outputs,
        list_panes_output: String::from("session1:0.0\t%0\nsession1:0.1\t%1\nsession2:1.0\t%2\n"),
        ..Default::default()
    };

    let mut tmux = Tmux::new(Config::default());

    tmux.capture_with_runner(&runner).unwrap();

    assert_eq!(
        tmux.panes,
        vec![
            pane("Pane 1\n", "session1:0.0", 0, "%0", "session1", 0),
            pane("Pane 2\n", "session1:0.1", 1, "%1", "session1", 0),
            pane("Pane 3\n", "session2:1.0", 0, "%2", "session2", 1),
        ]
    );
}

#[test]
fn capture_skips_excluded_panes() {
    let mut capture_outputs = BTreeMap::new();

    capture_outputs.insert("session1:0.0".to_string(), "Pane 1\n".to_string());
    capture_outputs.insert("session1:0.1".to_string(), "Pane 2\n".to_string());

    let runner = MockCommandRunner {
        capture_outputs,
        list_panes_output: String::from("session1:0.0\t%0\nsession1:0.1\t%1\n"),
        ..Default::default()
    };

    let mut tmux = Tmux::new(Config::default());

    tmux.exclude_pane_id("%1");
    tmux.capture_with_runner(&runner).unwrap();

    assert_eq!(tmux.panes, vec![pane("Pane 1\n", "session1:0.0", 0, "%0", "session1", 0)]);
}

#[test]
fn parse_pane_with_different_indices() {
    let mut capture_outputs = BTreeMap::new();

    capture_outputs.insert("mysession:5.3".to_string(), "Content\n".to_string());

    let runner = MockCommandRunner {
        list_panes_output: "mysession:5.3\t%10\n".to_string(),
        capture_outputs,
        ..Default::default()
    };

    let mut tmux = Tmux::new(Config::default());

    tmux.capture_with_runner(&runner).unwrap();

    assert_eq!(tmux.panes, vec![pane("Content\n", "mysession:5.3", 3, "%10", "mysession", 5)]);
}

#[test]
fn skips_empty_lines() {
    let mut capture_outputs = BTreeMap::new();

    capture_outputs.insert("session1:0.0".to_string(), "Content\n".to_string());

    let runner = MockCommandRunner {
        list_panes_output: "session1:0.0\t%0\n\n\n".to_string(),
        capture_outputs,
        ..Default::default()
    };

    let mut tmux = Tmux::new(Config::default());

    tmux.capture_with_runner(&runner).unwrap();

    assert_eq!(tmux.panes, vec![pane("Content\n", "session1:0.0", 0, "%0", "session1", 0)]);
}

#[test]
fn multiline_content() {
    let mut capture_outputs = BTreeMap::new();

    capture_outputs.insert("session1:0.0".to_string(), "Line 1\nLine 2\nLine 3\n".to_string());

    let runner = MockCommandRunner {
        list_panes_output: "session1:0.0\t%0\n".to_string(),
        capture_outputs,
        ..Default::default()
    };

    let mut tmux = Tmux::new(Config::default());

    tmux.capture_with_runner(&runner).unwrap();

    assert_eq!(
        tmux.panes,
        vec![pane("Line 1\nLine 2\nLine 3\n", "session1:0.0", 0, "%0", "session1", 0)]
    );
}

#[test]
fn exclude_pane_id_removes_matching_entry() {
    let mut tmux = Tmux {
        panes: vec![
            pane("one", "session1:0.0", 0, "%0", "session1", 0),
            pane("two", "session1:0.1", 1, "%1", "session1", 0),
        ],
        excluded_pane_ids: Vec::new(),
        include_escape_codes: false,
    };

    tmux.exclude_pane_id("%1");

    assert_eq!(tmux.panes, vec![pane("one", "session1:0.0", 0, "%0", "session1", 0)]);
    assert_eq!(tmux.excluded_pane_ids, vec!["%1".to_string()]);
}

#[test]
fn select_pane_with_runner_invokes_tmux() {
    let runner = MockCommandRunner::default();

    Tmux::select_pane_with_runner("%42", &runner).unwrap();

    assert_eq!(runner.selected_panes(), vec!["%42".to_string()]);
}

#[test]
fn select_pane_with_runner_errors_on_failure() {
    let runner = MockCommandRunner { select_pane_success: false, ..Default::default() };

    assert_eq!(
        Tmux::select_pane_with_runner("%1", &runner).unwrap_err().message(),
        "failed to select tmux pane"
    );
}

#[test]
fn focus_pane_with_runner_selects_window_and_pane() {
    let runner = MockCommandRunner::default();

    let pane = pane("", "mysession:3.2", 2, "%12", "mysession", 3);

    Tmux::focus_pane_with_runner(&pane, &runner).unwrap();

    assert_eq!(runner.selected_windows(), vec!["mysession:3".to_string()]);
    assert_eq!(runner.selected_panes(), vec!["%12".to_string()]);
}

#[test]
fn focus_pane_with_runner_propagates_window_errors() {
    let runner = MockCommandRunner { select_window_success: false, ..Default::default() };

    let pane = pane("", "mysession:1.0", 0, "%3", "mysession", 1);

    assert_eq!(
        Tmux::focus_pane_with_runner(&pane, &runner).unwrap_err().message(),
        "failed to select tmux window"
    );
    assert_eq!(runner.selected_panes(), Vec::<String>::new());
}

#[test]
fn list_spymux_instances_with_runner_filters_entries() {
    let runner = MockCommandRunner {
        list_panes_output: "\
session1:0.0\t%0\tspymux\tspymux\t/home/project\n\
session1:0.1\t%1\tbash\tcargo run -- spymux\t/home/other\n\
session1:0.2\t%2\tbash\tbash\t/home/skip\n"
            .to_string(),
        ..Default::default()
    };

    let instances = Tmux::list_spymux_instances_with_runner(&runner).unwrap();

    assert_eq!(instances.len(), 2);

    assert_eq!(
        instances,
        vec![
            Instance {
                current_path: "/home/project".to_string(),
                pane: pane("", "session1:0.0", 0, "%0", "session1", 0),
            },
            Instance {
                current_path: "/home/other".to_string(),
                pane: pane("", "session1:0.1", 1, "%1", "session1", 0),
            },
        ]
    );
}

#[test]
fn pane_runs_spymux_detects_commands() {
    assert!(Tmux::pane_runs_spymux("spymux", "bash"));
    assert!(Tmux::pane_runs_spymux("bash", "cargo run spymux"));
    assert!(!Tmux::pane_runs_spymux("bash", "bash start"));
}

#[test]
fn list_panes_command_failure() {
    let runner = MockCommandRunner { list_panes_success: false, ..Default::default() };

    let mut tmux = Tmux::new(Config::default());

    assert_eq!(
        tmux.capture_with_runner(&runner).unwrap_err().message(),
        "failed to list tmux panes"
    );
}

#[test]
fn invalid_pane_format_returns_error() {
    let runner = MockCommandRunner {
        list_panes_output: "not_a_valid_pane\n".to_string(),
        ..Default::default()
    };

    let mut tmux = Tmux::new(Config::default());

    assert_eq!(
        tmux.capture_with_runner(&runner).unwrap_err().message(),
        "invalid pane format: not_a_valid_pane"
    );
}

#[test]
fn invalid_window_pane_format_returns_error() {
    let runner = MockCommandRunner {
        list_panes_output: "session1-0-0\n".to_string(),
        ..Default::default()
    };

    let mut tmux = Tmux::new(Config::default());

    assert_eq!(
        tmux.capture_with_runner(&runner).unwrap_err().message(),
        "invalid pane format: session1-0-0"
    );
}

#[test]
fn invalid_window_index_returns_error() {
    let runner = MockCommandRunner {
        list_panes_output: "session1:not_a_number.0\t%0\n".to_string(),
        ..Default::default()
    };

    let mut tmux = Tmux::new(Config::default());

    assert_eq!(
        tmux.capture_with_runner(&runner).unwrap_err().message(),
        "invalid digit found in string"
    );
}

#[test]
fn invalid_pane_index_returns_error() {
    let runner = MockCommandRunner {
        list_panes_output: "session1:0.not_a_number\t%0\n".to_string(),
        ..Default::default()
    };

    let mut tmux = Tmux::new(Config::default());

    assert_eq!(
        tmux.capture_with_runner(&runner).unwrap_err().message(),
        "invalid digit found in string"
    );
}

#[test]
fn capture_pane_command_failure() {
    let mut capture_successes = BTreeMap::new();

    capture_successes.insert("session1:0.0".to_string(), false);

    let runner = MockCommandRunner {
        list_panes_output: "session1:0.0\t%0\n".to_string(),
        capture_successes,
        ..Default::default()
    };

    let mut tmux = Tmux::new(Config::default());

    assert_eq!(
        tmux.capture_with_runner(&runner).unwrap_err().message(),
        "failed to capture pane output"
    );
}

struct InvalidUtf8Runner;

impl CommandRunner for InvalidUtf8Runner {
    fn run(&self, arguments: &[&str]) -> Result<CommandOutput, String> {
        match arguments[0] {
            "list-panes" => Ok(CommandOutput { success: true, stdout: vec![0xf0, 0x28, 0x8c, 0x28] }),
            _ => Err("unexpected command".to_string()),
        }
    }
}

#[test]
fn invalid_utf8_in_list_output_propagates_error() {
    let mut tmux = Tmux::new(Config::default());

    assert_eq!(
        tmux.capture_with_runner(&InvalidUtf8Runner).unwrap_err().message(),
        "invalid utf-8 sequence of 1 bytes from index 0"
    );
}

#[test]
fn capture_hands_the_runner_the_listing_and_capture_commands() {
    let runner = MockCommandRunner {
        list_panes_output: "s:1.2\t%7\n".to_string(),
        ..Default::default()
    };

    let mut tmux = Tmux::new(Config::default());

    tmux.capture_with_runner(&runner).unwrap();

    assert_eq!(
        *runner.commands.borrow(),
        vec![
            vec![
                "list-panes".to_string(),
                "-a".to_string(),
                "-F".to_string(),
                "#{session_name}:#{window_index}.#{pane_index}\t#{pane_id}".to_string(),
            ],
            vec![
                "capture-pane".to_string(),
                "-t".to_string(),
                "s:1.2".to_string(),
                "-p".to_string(),
                "-e".to_string(),
            ],
        ]
    );
}

#[test]
fn capture_replaces_invalid_bytes_in_content() {
    struct Runner;

    impl CommandRunner for Runner {
        fn run(&self, arguments: &[&str]) -> Result<CommandOutput, String> {
            match arguments[0] {
                "list-panes" => Ok(CommandOutput { success: true, stdout: b"s:0.0\t%0\n".to_vec() }),
                _ => Ok(CommandOutput { success: true, stdout: vec![b'a', 0xff, b'b'] }),
            }
        }
    }

    let mut tmux = Tmux::new(Config::default());

    tmux.capture_with_runner(&Runner).unwrap();

    assert_eq!(tmux.panes[0].content, "a\u{fffd}b");
}

#[test]
fn failed_capture_keeps_previous_panes() {
    let good = MockCommandRunner {
        list_panes_output: "s:0.0\t%0\n".to_string(),
        ..Default::default()
    };
    let bad = MockCommandRunner { list_panes_success: false, ..Default::default() };

    let mut tmux = Tmux::new(Config::default());

    tmux.capture_with_runner(&good).unwrap();
    assert!(tmux.capture_with_runner(&bad).is_err());

    assert_eq!(tmux.panes.len(), 1);
}

#[test]
fn runner_failure_is_reported_in_its_words() {
    struct Runner;

    impl CommandRunner for Runner {
        fn run(&self, _arguments: &[&str]) -> Result<CommandOutput, String> {
            Err("tmux is not installed".to_string())
        }
    }

    let mut tmux = Tmux::new(Config::default());

    assert_eq!(
        tmux.capture_with_runner(&Runner).unwrap_err().message(),
        "tmux is not installed"
    );
}

#[test]
fn parse_descriptor_reads_all_parts() {
    assert_eq!(Tmux::parse_descriptor("work:12.+3"), Ok(("work".to_string(), 12, 3)));
}

#[test]
fn parse_descriptor_reports_each_error() {
    assert_eq!(Tmux::parse_descriptor("a:b:1.2"), Err(TmuxError::InvalidPane("a:b:1.2".to_string())));
    assert_eq!(Tmux::parse_descriptor("a:1"), Err(TmuxError::InvalidWindowPane("1".to_string())));
    assert_eq!(
        Tmux::parse_descriptor("a:1.2.3").unwrap_err().message(),
        "invalid window.pane format: 1.2.3"
    );
    assert_eq!(Tmux::parse_descriptor("a:.2"), Err(TmuxError::InvalidNumber(NumberError::Empty)));
    assert_eq!(
        Tmux::parse_descriptor("a:.2").unwrap_err().message(),
        "cannot parse integer from empty string"
    );
    assert_eq!(Tmux::parse_descriptor("a:-1.2"), Err(TmuxError::InvalidNumber(NumberError::InvalidDigit)));
    assert_eq!(
        Tmux::parse_descriptor("a:1.99999999999999999999999999"),
        Err(TmuxError::InvalidNumber(NumberError::Overflow))
    );
    assert_eq!(
        Tmux::parse_descriptor("a:1.99999999999999999999999999").unwrap_err().message(),
        "number too large to fit in target type"
    );
    assert_eq!(
        Tmux::parse_descriptor("a:1.18446744073709551615"),
        "18446744073709551615".parse::<usize>().map(|n| ("a".to_string(), 1, n)).map_err(|_| {
            TmuxError::InvalidNumber(NumberError::Overflow)
        })
    );
}

#[test]
fn pane_runs_spymux_ignores_case_and_space() {
    assert!(Tmux::pane_runs_spymux("  SpyMux\t", ""));
    assert!(!Tmux::pane_runs_spymux("spymux2", ""));
    assert!(Tmux::pane_runs_spymux("", "/usr/bin/SPYMUX --no-colors"));
    assert!(!Tmux::pane_runs_spymux("", "spy mux"));
}

use spymux::list_entry::ListEntry;
use spymux::pane::Pane;
use spymux::resume::{candidate_line, sanitize_path, selected_instance, ResumeError};
use spymux::instance::Instance;

#[test]
fn descriptor_displays_session_window_and_index() {
    let pane = Pane { index: 1, session: "session".into(), window_index: 2, ..Default::default() };

    assert_eq!(pane.descriptor(), "session:2.1");
}

#[test]
fn title_appends_command_when_present() {
    let pane = Pane {
        command: "bash".into(),
        index: 1,
        session: "session".into(),
        window_index: 2,
        ..Default::default()
    };

    assert_eq!(pane.title(), "session:2.1 (bash)");
}

#[test]
fn title_falls_back_to_descriptor_when_command_blank() {
    let pane = Pane { index: 1, session: "session".into(), window_index: 2, ..Default::default() };

    assert_eq!(pane.title(), "session:2.1");
}

#[test]
fn title_trims_the_command() {
    let pane = Pane {
        command: " \tvim  ".into(),
        index: 10,
        session: "s".into(),
        window_index: 120,
        ..Default::default()
    };

    assert_eq!(pane.title(), "s:120.10 (vim)");

    let blank = Pane { command: "  \u{a0} ".into(), ..Default::default() };

    assert_eq!(blank.title(), ":0.0");
}

#[test]
fn pane_format_lists_every_field() {
    assert_eq!(
        Pane::format(),
        [
            "{",
            "\"command\":\"#{pane_current_command}\",",
            "\"id\":\"#{pane_id}\",",
            "\"index\":#{pane_index},",
            "\"path\":\"#{pane_current_path}\",",
            "\"session\":\"#{session_name}\",",
            "\"window_index\":#{window_index}",
            "}",
        ]
        .concat()
    );
}

#[test]
fn list_entry_descriptor_and_format() {
    let entry = ListEntry {
        command: "bash".into(),
        pane_id: "%4".into(),
        pane_index: 7,
        path: "/".into(),
        session: "main".into(),
        window_index: usize::MAX,
    };

    assert_eq!(entry.descriptor(), format!("main:{}.7", usize::MAX));
    assert_eq!(
        ListEntry::format(),
        [
            "{",
            "\"command\":\"#{pane_current_command}\",",
            "\"pane_id\":\"#{pane_id}\",",
            "\"pane_index\":#{pane_index},",
            "\"path\":\"#{pane_current_path}\"",
            "\"session\":\"#{session_name}\",",
            "\"window_index\":#{window_index},",
            "}",
        ]
        .concat()
    );
}

#[test]
fn sanitize_path_replaces_tabs() {
    assert_eq!(sanitize_path("/tmp\ttabs"), "/tmp tabs");
}

#[test]
fn sanitize_path_handles_empty() {
    assert_eq!(sanitize_path(""), "-");
}

#[test]
fn resume_sanitize_path_replaces_tabs() {
    assert_eq!(sanitize_path("\t/a\t\tb\t"), " /a  b ");
}

#[test]
fn resume_sanitize_path_handles_empty() {
    assert_eq!(sanitize_path(""), "-");
    assert_eq!(sanitize_path("-"), "-");
}

fn instance(id: &str, tmux_pane_id: &str, path: &str) -> Instance {
    Instance {
        current_path: path.to_string(),
        pane: Pane { id: id.to_string(), tmux_pane_id: tmux_pane_id.to_string(), ..Default::default() },
    }
}

#[test]
fn candidate_line_joins_fields_with_tabs() {
    assert_eq!(candidate_line(&instance("s:0.1", "%3", "/a\tb")), "s:0.1\t/a b\t%3");
    assert_eq!(candidate_line(&instance("s:0.1", "%3", "")), "s:0.1\t-\t%3");
}

#[test]
fn selected_instance_reads_the_last_field_of_the_first_line() {
    let instances = vec![instance("s:0.0", "%0", "/a"), instance("s:0.1", "%1", "/b")];

    assert_eq!(
        selected_instance(&instances, "  s:0.1\t/b\t%1  \nignored\n"),
        Ok(Some(instances[1].clone()))
    );
    assert_eq!(selected_instance(&instances, "%0"), Ok(Some(instances[0].clone())));
    assert_eq!(selected_instance(&instances, ""), Ok(None));
    assert_eq!(selected_instance(&instances, "   \n%1\n"), Ok(None));
    assert_eq!(
        selected_instance(&instances, "s:0.9\t/c\t%9\n"),
        Err(ResumeError::UnknownPane("%9".to_string()))
    );
    assert_eq!(
        selected_instance(&instances, "%9").unwrap_err().message(),
        "unable to locate pane %9"
    );
    assert_eq!(ResumeError::NoInstances.message(), "no running spymux panes were found");
}

use spymux::command_runner::{CommandOutput, CommandRunner};
use spymux::config::Config;
use spymux::error::TmuxError;
use spymux::metrics::{char_columns, char_len_utf8, str_byte_len};
use spymux::text::{chars_of, field_bounds, find_char, parse_number, piece, split_lines, trim, NumberError};
use spymux::tmux::Tmux;

#[test]
fn split_lines_follows_line_feeds_and_drops_returns() {
    assert_eq!(split_lines(""), Vec::<String>::new());
    assert_eq!(split_lines("a"), vec!["a"]);
    assert_eq!(split_lines("a\n"), vec!["a"]);
    assert_eq!(split_lines("\n"), vec![""]);
    assert_eq!(split_lines("a\r\nb\r"), vec!["a", "b\r"]);
    assert_eq!(split_lines("a\n\nb\n\n"), vec!["a", "", "b", ""]);
    assert_eq!(split_lines("\u{e9}\r\r\n"), vec!["\u{e9}\r"]);

    for text in ["", "a", "a\n", "\n", "a\r\nb\r", "a\n\nb\n\n", "\r\n\r\n", "x\ny\rz"] {
        assert_eq!(split_lines(text), text.lines().collect::<Vec<_>>());
    }
}

#[test]
fn trim_removes_white_space_at_both_ends() {
    for text in ["", " ", " a b ", "\t\u{a0}x\u{3000}\n", "\u{2003}\u{85}", "a", "\u{200b} "] {
        assert_eq!(trim(text), text.trim());
    }
}

#[test]
fn parse_number_reads_decimal_digits() {
    let chars = chars_of("x+12y007");

    assert_eq!(parse_number(&chars, 1, 4), Ok(12));
    assert_eq!(parse_number(&chars, 2, 4), Ok(12));
    assert_eq!(parse_number(&chars, 5, 8), Ok(7));
    assert_eq!(parse_number(&chars, 1, 2), Err(NumberError::InvalidDigit));
    assert_eq!(parse_number(&chars, 0, 4), Err(NumberError::InvalidDigit));
    assert_eq!(parse_number(&chars, 3, 3), Err(NumberError::Empty));

    for text in ["", "+", "-", "0", "+0", "-0", "12a", "١٢", "18446744073709551615", "18446744073709551616", "99999999999999999999x"] {
        let chars = chars_of(text);
        let expected = text.parse::<usize>().map_err(|error| match error.kind() {
            std::num::IntErrorKind::Empty => NumberError::Empty,
            std::num::IntErrorKind::InvalidDigit => NumberError::InvalidDigit,
            _ => NumberError::Overflow,
        });

        assert_eq!(parse_number(&chars, 0, chars.len()), expected);
    }
}

#[test]
fn find_char_and_piece_work_by_character() {
    let text = "h\u{e9}llo:w\u{f6}rld";
    let chars = chars_of(text);

    assert_eq!(chars.len(), 11);
    assert_eq!(find_char(&chars, ':', 0), 5);
    assert_eq!(find_char(&chars, ':', 6), 11);
    assert_eq!(piece(text, 1, 5), "\u{e9}llo");
    assert_eq!(piece(text, 6, 11), "w\u{f6}rld");
    assert_eq!(piece(text, 3, 3), "");
}

#[test]
fn field_bounds_finds_tab_separated_fields() {
    let chars = chars_of("a\t\tcc");

    assert_eq!(field_bounds(&chars, '\t', 0), Some((0, 1)));
    assert_eq!(field_bounds(&chars, '\t', 1), Some((2, 2)));
    assert_eq!(field_bounds(&chars, '\t', 2), Some((3, 5)));
    assert_eq!(field_bounds(&chars, '\t', 3), None);
    assert_eq!(field_bounds(&chars_of(""), '\t', 0), Some((0, 0)));
    assert_eq!(field_bounds(&chars_of("a\t"), '\t', 1), Some((2, 2)));
}

#[test]
fn character_measures() {
    assert_eq!(char_columns('a'), 1);
    assert_eq!(char_columns('\n'), 0);
    assert_eq!(char_columns('\u{301}'), 0);
    assert_eq!(char_columns('\u{4e16}'), 2);

    for c in ['a', '\u{7f}', '\u{80}', '\u{7ff}', '\u{800}', '\u{ffff}', '\u{10000}', '\u{10ffff}'] {
        assert_eq!(char_len_utf8(c), c.len_utf8());
    }

    assert_eq!(str_byte_len("h\u{e9}\u{4e16}\u{1f600}"), 10);
}

#[test]
fn read_pane_line_splits_at_the_first_tab() {
    let listed = Tmux::read_pane_line("s:1.2\t%3\tmore").unwrap();

    assert_eq!(listed.descriptor, "s:1.2");
    assert_eq!(listed.pane_id, "%3\tmore");
    assert_eq!(listed.session, "s");
    assert_eq!(listed.window_index, 1);
    assert_eq!(listed.index, 2);
}

#[test]
fn read_instance_line_needs_an_identifier_and_a_dashboard() {
    assert_eq!(Tmux::read_instance_line("s:0.0"), Ok(None));
    assert_eq!(Tmux::read_instance_line("s:0.0\t%0\tbash\tbash\t/x"), Ok(None));
    assert_eq!(Tmux::read_instance_line("nonsense\t%0\tbash\tbash\t/x"), Ok(None));

    let found = Tmux::read_instance_line("s:0.0\t%0\tSPYMUX").unwrap().unwrap();

    assert_eq!(found.current_path, "");
    assert_eq!(found.pane.tmux_pane_id, "%0");
    assert_eq!(
        Tmux::read_instance_line("nonsense\t%0\tspymux").unwrap_err().message(),
        "invalid pane format: nonsense"
    );
    assert_eq!(
        Tmux::read_instances("\ns:0.0\t%0\tspymux\t\t/a\n\nbad\t%1\tspymux\n").unwrap_err().message(),
        "invalid pane format: bad"
    );
    assert_eq!(Tmux::read_instances("\n\n").unwrap(), vec![]);
}

#[test]
fn incomplete_utf8_in_list_output_is_reported() {
    struct Runner;

    impl CommandRunner for Runner {
        fn run(&self, _arguments: &[&str]) -> Result<CommandOutput, String> {
            Ok(CommandOutput { success: true, stdout: vec![b'a', 0xe4, 0xb8] })
        }
    }

    let mut tmux = Tmux::new(Config::default());

    assert_eq!(
        tmux.capture_with_runner(&Runner).unwrap_err().message(),
        "incomplete utf-8 byte sequence from index 1"
    );
}

#[test]
fn command_arguments_are_fixed() {
    assert_eq!(
        Tmux::list_arguments(),
        vec!["list-panes", "-a", "-F", "#{session_name}:#{window_index}.#{pane_index}\t#{pane_id}"]
    );
    assert_eq!(Tmux::capture_arguments("s:0.1", false), vec!["capture-pane", "-t", "s:0.1", "-p"]);
    assert_eq!(
        Tmux::instance_arguments()[3],
        "#{session_name}:#{window_index}.#{pane_index}\t#{pane_id}\t#{pane_current_command}\t#{pane_start_command}\t#{pane_current_path}"
    );
}

#[test]
fn run_command_succeeds_with_the_command() {
    struct Runner(bool);

    impl CommandRunner for Runner {
        fn run(&self, arguments: &[&str]) -> Result<CommandOutput, String> {
            match arguments {
                ["kill-server"] => Err("no server".to_string()),
                _ => Ok(CommandOutput { success: self.0, stdout: vec![] }),
            }
        }
    }

    assert_eq!(Tmux::run_command(&Runner(true), &["select-pane"], TmuxError::SelectPane), Ok(()));
    assert_eq!(
        Tmux::run_command(&Runner(false), &["select-pane"], TmuxError::SelectPane),
        Err(TmuxError::SelectPane)
    );
    assert_eq!(
        Tmux::run_command(&Runner(true), &["kill-server"], TmuxError::SelectPane),
        Err(TmuxError::Runner("no server".to_string()))
    );
}

#[test]
fn listing_text_decodes_or_reports_where_it_fails() {
    assert_eq!(
        Tmux::listing_text(CommandOutput { success: true, stdout: "h\u{e9}".as_bytes().to_vec() }),
        Ok("h\u{e9}".to_string())
    );
    assert_eq!(
        Tmux::listing_text(CommandOutput { success: true, stdout: vec![b'a', b'b', 0xff] }),
        Err(TmuxError::InvalidUtf8 { valid_up_to: 2, error_len: Some(1) })
    );
}

#[test]
fn ascii_characters_take_one_column_and_controls_none() {
    for code in 0u32..0xa0 {
        let c = char::from_u32(code).unwrap();
        let expected = if (0x20..0x7f).contains(&code) { 1 } else { 0 };

        assert_eq!(char_columns(c), expected);
    }

    assert!(('\u{a0}'..='\u{ffff}').all(|c| char_columns(c) <= 3));
    assert_eq!(char_columns('\u{17d8}'), 3);
}

use ratatui::style::Color;
use ratatui::text::{Line, Span, Text};
use spymux::app::App;
use spymux::document::{StyledDocument, StyledLine, StyledSpan};
use spymux::row_cursor::RowCursor;
use spymux::style::Style;

fn style_of(style: ratatui::style::Style) -> Style {
    Style {
        fg: style.fg,
        bg: style.bg,
        underline_color: style.underline_color,
        add_modifier: style.add_modifier.bits(),
        sub_modifier: style.sub_modifier.bits(),
    }
}

fn line_of(line: Line<'static>) -> StyledLine {
    StyledLine {
        spans: line
            .spans
            .into_iter()
            .map(|span| StyledSpan { content: span.content.into_owned(), style: style_of(span.style) })
            .collect(),
        style: style_of(line.style),
        alignment: line.alignment,
    }
}

fn document_of(text: Text<'static>) -> StyledDocument {
    StyledDocument {
        lines: text.lines.into_iter().map(line_of).collect(),
        style: style_of(text.style),
        alignment: text.alignment,
    }
}

fn plain_document(lines: &[&str]) -> StyledDocument {
    StyledDocument {
        lines: lines
            .iter()
            .map(|line| StyledLine {
                spans: if line.is_empty() {
                    vec![]
                } else {
                    vec![StyledSpan { content: line.to_string(), style: Style::default() }]
                },
                style: Style::default(),
                alignment: None,
            })
            .collect(),
        style: Style::default(),
        alignment: None,
    }
}

#[test]
fn clip_to_bottom_returns_all_when_shorter() {
    let content = "line1\nline2";

    assert_eq!(
        App::clip_to_bottom(content, 5, 80, true),
        document_of(Text::raw(content.to_string()))
    );
}

#[test]
fn clip_to_bottom_limits_to_requested_lines() {
    assert_eq!(
        App::clip_to_bottom("line1\nline2\nline3\nline4", 2, 80, true),
        document_of(Text::raw("line3\nline4".to_string()))
    );
}

#[test]
fn clip_to_bottom_handles_trailing_newlines() {
    assert_eq!(
        App::clip_to_bottom("line1\nline2\n", 1, 80, true),
        document_of(Text::raw("line2\n"))
    );
}

#[test]
fn clip_to_bottom_with_zero_lines_returns_empty() {
    assert_eq!(
        App::clip_to_bottom("line1\nline2", 0, 80, true),
        document_of(Text::default())
    );
}

#[test]
fn clip_to_bottom_truncates_wrapped_lines() {
    assert_eq!(
        App::clip_to_bottom("1234567890abcdefghij", 2, 5, true),
        document_of(Text::raw("abcdefghij".to_string()))
    );
}

#[test]
fn clip_to_bottom_with_zero_columns_returns_empty() {
    assert_eq!(
        App::clip_to_bottom("line1\nline2", 5, 0, true),
        document_of(Text::default())
    );
}

#[test]
fn clip_to_bottom_preserves_color_in_wrapped_line() {
    assert_eq!(
        App::clip_to_bottom("\x1b[31mAAAAA\x1b[0m", 1, 2, true),
        document_of(Text::from(Line::from(Span::styled(
            "A",
            ratatui::style::Style::default().fg(Color::Red),
        ))))
    );
}

#[test]
fn clip_to_bottom_resets_styles_when_previous_lines_trimmed() {
    assert_eq!(
        App::clip_to_bottom("\x1b[32mline1\x1b[0m\nline2", 1, 80, true),
        document_of(Text::from(Line::from(Span::styled(
            "line2",
            ratatui::style::Style::reset()
        ))))
    );
}

#[test]
fn clip_to_bottom_without_color_output_omits_styles() {
    assert_eq!(
        App::clip_to_bottom("\x1b[31mline\x1b[0m", 1, 80, false),
        document_of(Text::raw("line".to_string()))
    );
}

#[test]
fn collect_row_starts_wraps_long_line() {
    let text = document_of(Text::raw("abcdef".to_string()));

    let starts = App::collect_row_starts(&text, 3, text.lines.len());

    let coordinates = starts
        .into_iter()
        .map(|cursor| (cursor.line_index, cursor.span_index, cursor.byte_index))
        .collect::<Vec<(usize, usize, usize)>>();

    assert_eq!(coordinates, vec![(0, 0, 0), (0, 0, 3)]);
}

#[test]
fn line_is_empty_detects_content() {
    let mut line = line_of(Line::default());

    assert!(App::line_is_empty(&line));

    line.spans.push(StyledSpan { content: String::new(), style: Style::default() });
    assert!(App::line_is_empty(&line));

    line.spans.push(StyledSpan { content: "content".to_string(), style: Style::default() });
    assert!(!App::line_is_empty(&line));
}

#[test]
fn plain_text_strips_styles() {
    let mut text = document_of(Text::from(Line::from(Span::styled(
        "styled",
        ratatui::style::Style::default().fg(Color::Green).bg(Color::Blue),
    ))));

    text.style = style_of(ratatui::style::Style::default().fg(Color::Red));

    text.lines[0].style = style_of(ratatui::style::Style::default().bg(Color::Yellow));

    let plain = App::plain_text(text);

    assert_eq!(plain.style, Style::default());
    assert_eq!(plain.lines[0].style, Style::default());
    assert_eq!(plain.lines[0].spans[0].style, Style::default());
    assert_eq!(plain.lines[0].spans[0].content, "styled");
}

#[test]
fn renderable_line_count_ignores_trailing_empty_lines() {
    assert_eq!(
        App::renderable_line_count(&document_of(Text::from(vec![
            Line::from("line"),
            Line::default(),
            Line::from("")
        ]))),
        1
    );
}

#[test]
fn default_style_matches_the_toolkit() {
    assert_eq!(style_of(ratatui::style::Style::default()), Style::default());
}

#[test]
fn plain_document_equals_raw_text() {
    assert_eq!(plain_document(&["a", "", "b"]), document_of(Text::raw("a\n\nb")));
}

#[test]
fn row_cursor_default_is_origin() {
    assert_eq!(RowCursor::default(), RowCursor { byte_index: 0, line_index: 0, span_index: 0 });
}

#[test]
fn clip_document_is_idempotent() {
    let text = document_of(Text::raw("1234567890abcdefghij\n\nxyz\n\n"));

    let once = App::clip_document(text.clone(), 3, 4);
    let twice = App::clip_document(once.clone(), 3, 4);

    assert_eq!(once, plain_document(&["ghij", "", "xyz", ""]));
    assert_eq!(twice, once);
    assert_eq!(App::collect_row_starts(&once, 4, App::renderable_line_count(&once)).len(), 3);
}

#[test]
fn clip_document_returns_fitting_documents_unchanged() {
    let text = document_of(Text::raw("ab\ncd\n\n"));

    assert_eq!(App::clip_document(text.clone(), 2, 2), text);
    assert_eq!(App::clip_document(text.clone(), 2, 0), document_of(Text::default()));
    assert_eq!(App::clip_document(text, 0, 2), document_of(Text::default()));
}

#[test]
fn clip_to_bottom_of_empty_text_is_empty() {
    assert_eq!(App::clip_to_bottom("", 5, 80, true), document_of(Text::default()));
}

#[test]
fn clipped_rows_fit_the_width_in_display_columns() {
    let clip = App::clip_to_bottom("ab\u{4e16}\u{754c}cd\u{301}e", 2, 3, true);

    assert_eq!(clip, plain_document(&["\u{754c}cd\u{301}e"]));

    let starts = App::collect_row_starts(&clip, 3, 1);

    assert_eq!(
        starts,
        vec![
            RowCursor { byte_index: 0, line_index: 0, span_index: 0 },
            RowCursor { byte_index: 4, line_index: 0, span_index: 0 },
        ]
    );
}

#[test]
fn a_character_wider_than_the_viewport_takes_a_row_of_its_own() {
    let text = document_of(Text::raw("\u{4e16}\u{754c}"));

    let starts = App::collect_row_starts(&text, 1, 1);

    assert_eq!(
        starts,
        vec![
            RowCursor { byte_index: 0, line_index: 0, span_index: 0 },
            RowCursor { byte_index: 3, line_index: 0, span_index: 0 },
        ]
    );
}

#[test]
fn slice_text_from_drops_spans_before_the_cursor_and_keeps_styles() {
    let red = style_of(ratatui::style::Style::default().fg(Color::Red));
    let blue = style_of(ratatui::style::Style::default().fg(Color::Blue));
    let text = StyledDocument {
        lines: vec![
            StyledLine {
                spans: vec![StyledSpan { content: "gone".to_string(), style: red }],
                style: Style::default(),
                alignment: None,
            },
            StyledLine {
                spans: vec![
                    StyledSpan { content: "left".to_string(), style: red },
                    StyledSpan { content: "h\u{e9}llo".to_string(), style: blue },
                    StyledSpan { content: String::new(), style: red },
                    StyledSpan { content: "tail".to_string(), style: red },
                ],
                style: blue,
                alignment: Some(ratatui::layout::HorizontalAlignment::Center),
            },
            StyledLine { spans: vec![], style: red, alignment: None },
        ],
        style: red,
        alignment: None,
    };

    let cut = App::slice_text_from(&text, RowCursor { byte_index: 3, line_index: 1, span_index: 1 });

    assert_eq!(
        cut,
        StyledDocument {
            lines: vec![
                StyledLine {
                    spans: vec![
                        StyledSpan { content: "llo".to_string(), style: blue },
                        StyledSpan { content: "tail".to_string(), style: red },
                    ],
                    style: blue,
                    alignment: Some(ratatui::layout::HorizontalAlignment::Center),
                },
                StyledLine { spans: vec![], style: red, alignment: None },
            ],
            style: red,
            alignment: None,
        }
    );

    let past = App::slice_text_from(&text, RowCursor { byte_index: 9, line_index: 1, span_index: 1 });

    assert_eq!(past.lines[0].spans, vec![StyledSpan { content: "tail".to_string(), style: red }]);

    let beyond = App::slice_text_from(&text, RowCursor { byte_index: 0, line_index: 3, span_index: 0 });

    assert!(beyond.lines.is_empty());
    assert_eq!(beyond.style, red);
}

#[test]
fn unstyled_fallback_is_one_plain_span() {
    let text = StyledDocument::unstyled("a\nb");

    assert_eq!(text.lines.len(), 1);
    assert_eq!(text.lines[0].spans, vec![StyledSpan { content: "a\nb".to_string(), style: Style::default() }]);
    assert_eq!(StyledDocument::empty(), document_of(Text::default()));
}

//! What can go wrong while talking to the multiplexer.

use crate::text::push_decimal;
use crate::text::decimal;
use crate::text::NumberError;
use vstd::prelude::*;

verus! {

/// A failure of a snapshot or of a change of focus.
#[derive(Clone, Debug, PartialEq, Eq)]
pub enum TmuxError {
    /// The multiplexer refused to list its panes.
    ListPanes,
    /// A line of the listing is no pane; holds the line.
    InvalidPane(String),
    /// The part behind the session is no `window.pane`; holds that part.
    InvalidWindowPane(String),
    /// A window or pane index is no number.
    InvalidNumber(NumberError),
    /// The multiplexer refused to hand out a pane's content.
    CapturePane,
    /// The multiplexer refused to select a pane.
    SelectPane,
    /// The multiplexer refused to select a window.
    SelectWindow,
    /// The listing is no UTF-8 text: the offset up to which it is, and the
    /// length of the sequence that is not, if the listing does not just end
    /// too early.
    InvalidUtf8 { valid_up_to: usize, error_len: Option<usize> },
    /// The command could not be run at all; holds the runner's words.
    Runner(String),
}

/// Mathematical value of a [`TmuxError`].
pub enum TmuxErrorView {
    ListPanes,
    InvalidPane(Seq<char>),
    InvalidWindowPane(Seq<char>),
    InvalidNumber(NumberError),
    CapturePane,
    SelectPane,
    SelectWindow,
    InvalidUtf8 { valid_up_to: nat, error_len: Option<nat> },
    Runner(Seq<char>),
}

impl View for TmuxError {
    type V = TmuxErrorView;

    open spec fn view(&self) -> TmuxErrorView {
        match self {
            TmuxError::ListPanes => TmuxErrorView::ListPanes,
            TmuxError::InvalidPane(line) => TmuxErrorView::InvalidPane(line@),
            TmuxError::InvalidWindowPane(part) => TmuxErrorView::InvalidWindowPane(part@),
            TmuxError::InvalidNumber(error) => TmuxErrorView::InvalidNumber(*error),
            TmuxError::CapturePane => TmuxErrorView::CapturePane,
            TmuxError::SelectPane => TmuxErrorView::SelectPane,
            TmuxError::SelectWindow => TmuxErrorView::SelectWindow,
            TmuxError::InvalidUtf8 { valid_up_to, error_len } => TmuxErrorView::InvalidUtf8 {
                valid_up_to: *valid_up_to as nat,
                error_len: match error_len {
                    Some(len) => Some(*len as nat),
                    None => None,
                },
            },
            TmuxError::Runner(words) => TmuxErrorView::Runner(words@),
        }
    }
}

/// The words that describe an error.
pub open spec fn message_of(error: TmuxErrorView) -> Seq<char> {
    match error {
        TmuxErrorView::ListPanes => "failed to list tmux panes"@,
        TmuxErrorView::InvalidPane(line) => "invalid pane format: "@ + line,
        TmuxErrorView::InvalidWindowPane(part) => "invalid window.pane format: "@ + part,
        TmuxErrorView::InvalidNumber(NumberError::Empty) => "cannot parse integer from empty string"@,
        TmuxErrorView::InvalidNumber(NumberError::InvalidDigit) => "invalid digit found in string"@,
        TmuxErrorView::InvalidNumber(NumberError::Overflow) => "number too large to fit in target type"@,
        TmuxErrorView::CapturePane => "failed to capture pane output"@,
        TmuxErrorView::SelectPane => "failed to select tmux pane"@,
        TmuxErrorView::SelectWindow => "failed to select tmux window"@,
        TmuxErrorView::InvalidUtf8 { valid_up_to, error_len: Some(len) } =>
            "invalid utf-8 sequence of "@ + decimal(len) + " bytes from index "@ + decimal(valid_up_to),
        TmuxErrorView::InvalidUtf8 { valid_up_to, error_len: None } =>
            "incomplete utf-8 byte sequence from index "@ + decimal(valid_up_to),
        TmuxErrorView::Runner(words) => words,
    }
}

impl TmuxError {
    /// The words that describe the error.
    pub fn message(&self) -> (words: String)
        ensures
            words@ == message_of(self@),
    {
        match self {
            TmuxError::ListPanes => "failed to list tmux panes".to_owned(),
            TmuxError::InvalidPane(line) => {
                let mut words = "invalid pane format: ".to_owned();
                words.append(line.as_str());
                words
            },
            TmuxError::InvalidWindowPane(part) => {
                let mut words = "invalid window.pane format: ".to_owned();
                words.append(part.as_str());
                words
            },
            TmuxError::InvalidNumber(NumberError::Empty) => "cannot parse integer from empty string".to_owned(),
            TmuxError::InvalidNumber(NumberError::InvalidDigit) => "invalid digit found in string".to_owned(),
            TmuxError::InvalidNumber(NumberError::Overflow) => "number too large to fit in target type".to_owned(),
            TmuxError::CapturePane => "failed to capture pane output".to_owned(),
            TmuxError::SelectPane => "failed to select tmux pane".to_owned(),
            TmuxError::SelectWindow => "failed to select tmux window".to_owned(),
            TmuxError::InvalidUtf8 { valid_up_to, error_len: Some(len) } => {
                let mut words = "invalid utf-8 sequence of ".to_owned();
                push_decimal(&mut words, *len);
                words.append(" bytes from index ");
                push_decimal(&mut words, *valid_up_to);
                words
            },
            TmuxError::InvalidUtf8 { valid_up_to, error_len: None } => {
                let mut words = "incomplete utf-8 byte sequence from index ".to_owned();
                push_decimal(&mut words, *valid_up_to);
                words
            },
            TmuxError::Runner(words) => words.clone(),
        }
    }
}

} // verus!

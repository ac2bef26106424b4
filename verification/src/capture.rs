//! Taking a snapshot: listing the panes and asking for the content of each.

use crate::command_runner::argument_views;
use crate::command_runner::CommandOutput;
use crate::command_runner::CommandRunner;
use crate::descriptor::descriptor_parts;
use crate::descriptor::read_descriptor;
use crate::error::TmuxError;
use crate::error::TmuxErrorView;
use crate::pane::Pane;
use crate::pane::PaneView;
use crate::text::chars_of;
use crate::text::find_char;
use crate::text::find_from;
use crate::text::piece;
use crate::tmux::Tmux;
use crate::pane::pane_views;
use crate::text::lines_of;
use vstd::prelude::*;
use vstd::utf8::decode_utf8;
use vstd::utf8::valid_utf8;

verus! {

/// One line of the pane listing: the descriptor, a tab, the identifier.
pub struct ListedPane {
    pub descriptor: String,
    pub pane_id: String,
    pub session: String,
    pub window_index: usize,
    pub index: usize,
}

/// Mathematical value of a [`ListedPane`].
pub struct ListedPaneView {
    pub descriptor: Seq<char>,
    pub pane_id: Seq<char>,
    pub session: Seq<char>,
    pub window_index: nat,
    pub index: nat,
}

impl View for ListedPane {
    type V = ListedPaneView;

    open spec fn view(&self) -> ListedPaneView {
        ListedPaneView {
            descriptor: self.descriptor@,
            pane_id: self.pane_id@,
            session: self.session@,
            window_index: self.window_index as nat,
            index: self.index as nat,
        }
    }
}

/// What a line of the pane listing says: before its first tab stands the
/// descriptor, behind it the identifier of the pane.
pub open spec fn listed_pane(line: Seq<char>) -> Result<ListedPaneView, TmuxErrorView> {
    let tab = find_from(line, '\t', 0);
    if tab >= line.len() {
        Err(TmuxErrorView::InvalidPane(line))
    } else {
        match descriptor_parts(line.take(tab), line) {
            Err(error) => Err(error),
            Ok(parts) => Ok(
                ListedPaneView {
                    descriptor: line.take(tab),
                    pane_id: line.skip(tab + 1),
                    session: parts.session,
                    window_index: parts.window_index,
                    index: parts.index,
                },
            ),
        }
    }
}

/// The pane that a line of the listing and the captured content make.
pub open spec fn captured_pane(listed: ListedPaneView, content: Seq<char>) -> PaneView {
    PaneView {
        command: Seq::empty(),
        content,
        id: listed.descriptor,
        index: listed.index,
        path: Seq::empty(),
        session: listed.session,
        tmux_pane_id: listed.pane_id,
        window_index: listed.window_index,
    }
}

/// What comes of a command: the runner's failure as it is, `failure` for a
/// command that ran and did not succeed, else the output.
pub open spec fn checked_output(
    outcome: Result<CommandOutput, String>,
    failure: TmuxErrorView,
) -> Result<CommandOutput, TmuxErrorView> {
    match outcome {
        Err(words) => Err(TmuxErrorView::Runner(words@)),
        Ok(output) => if output.success {
            Ok(output)
        } else {
            Err(failure)
        },
    }
}

impl Tmux {
    /// Reads one line of the pane listing.
    pub fn read_pane_line(line: &str) -> (listed: Result<ListedPane, TmuxError>)
        ensures
            match listed {
                Ok(pane) => listed_pane(line@) == Ok::<ListedPaneView, TmuxErrorView>(pane@),
                Err(error) => listed_pane(line@) == Err::<ListedPaneView, TmuxErrorView>(error@),
            },
    {
        let chars = chars_of(line);
        let tab = find_char(&chars, '\t', 0);
        if tab >= chars.len() {
            return Err(TmuxError::InvalidPane(line.to_owned()));
        }
        assert(line@.take(tab as int) =~= line@.subrange(0, tab as int));
        assert(line@.skip(tab + 1) =~= line@.subrange(tab + 1, line@.len() as int));
        match read_descriptor(line, &chars, 0, tab, line) {
            Err(error) => Err(error),
            Ok((session, window_index, index)) => Ok(
                ListedPane {
                    descriptor: piece(line, 0, tab),
                    pane_id: piece(line, tab + 1, chars.len()),
                    session,
                    window_index,
                    index,
                },
            ),
        }
    }

    /// Sorts out what came of a command.
    pub fn check_output(outcome: Result<CommandOutput, String>, failure: TmuxError) -> (checked: Result<
        CommandOutput,
        TmuxError,
    >)
        ensures
            match checked {
                Ok(output) => checked_output(outcome, failure@) == Ok::<
                    CommandOutput,
                    TmuxErrorView,
                >(output),
                Err(error) => checked_output(outcome, failure@) == Err::<
                    CommandOutput,
                    TmuxErrorView,
                >(error@),
            },
    {
        match outcome {
            Err(words) => Err(TmuxError::Runner(words)),
            Ok(output) => if output.success {
                Ok(output)
            } else {
                Err(failure)
            },
        }
    }
}

/// The listing format of a snapshot: descriptor, tab, identifier.
pub open spec fn list_format() -> Seq<char> {
    "#{session_name}:#{window_index}.#{pane_index}\t#{pane_id}"@
}

/// The identifier `pane_id` is among `excluded`.
pub open spec fn is_excluded(excluded: Seq<String>, pane_id: Seq<char>) -> bool {
    exists|i: int| 0 <= i < excluded.len() && (#[trigger] excluded[i])@ == pane_id
}

/// The pane is what some line of a listing and some content make.
pub open spec fn is_captured(pane: PaneView) -> bool {
    exists|line: Seq<char>|
        (#[trigger] listed_pane(line)) matches Ok(listed) && pane == captured_pane(
            listed,
            pane.content,
        )
}

/// The value of a result without a value of its own.
pub open spec fn done_view(outcome: Result<(), TmuxError>) -> Result<(), TmuxErrorView> {
    match outcome {
        Ok(_) => Ok(()),
        Err(error) => Err(error@),
    }
}

/// The runner was handed the command `arguments`, and `result` is what its
/// answer comes to: the output of a command that ran and succeeded,
/// `failure` for one that ran and did not, the runner's words for one that
/// did not run.
pub open spec fn command_ran<R: CommandRunner>(
    runner: &R,
    arguments: Seq<Seq<char>>,
    failure: TmuxErrorView,
    result: Result<CommandOutput, TmuxErrorView>,
) -> bool {
    exists|answer: Result<CommandOutput, String>|
        #[trigger] runner.answered(arguments, answer) && result == checked_output(answer, failure)
}

/// The runner was handed the command `arguments`, and `result` says whether
/// it ran and succeeded.
pub open spec fn command_done<R: CommandRunner>(
    runner: &R,
    arguments: Seq<Seq<char>>,
    failure: TmuxErrorView,
    result: Result<(), TmuxErrorView>,
) -> bool {
    exists|output: Result<CommandOutput, TmuxErrorView>|
        #[trigger] command_ran(runner, arguments, failure, output) && result == match output {
            Ok(_) => Ok(()),
            Err(error) => Err(error),
        }
}

/// The command that lists all panes, one per line.
pub open spec fn list_command() -> Seq<Seq<char>> {
    seq!["list-panes"@, "-a"@, "-F"@, list_format()]
}

/// The command that prints the content of the pane at `descriptor`, with
/// its styling sequences if `include_escape_codes` is set.
pub open spec fn capture_command(descriptor: Seq<char>, include_escape_codes: bool) -> Seq<
    Seq<char>,
> {
    if include_escape_codes {
        seq!["capture-pane"@, "-t"@, descriptor, "-p"@, "-e"@]
    } else {
        seq!["capture-pane"@, "-t"@, descriptor, "-p"@]
    }
}

/// The command that selects the pane with identifier `pane_id`.
pub open spec fn select_pane_command(pane_id: Seq<char>) -> Seq<Seq<char>> {
    seq!["select-pane"@, "-t"@, pane_id]
}

/// The command that selects the window `target`.
pub open spec fn select_window_command(target: Seq<char>) -> Seq<Seq<char>> {
    seq!["select-window"@, "-t"@, target]
}

/// The window of a pane, as `session:window`.
pub open spec fn window_target_of(pane: PaneView) -> Seq<char> {
    pane.session + seq![':'] + crate::text::decimal(pane.window_index)
}

/// The runner was asked to bring `pane` to the front, and `result` is what
/// came of it: the window of the pane was selected first, and only where
/// that succeeded the pane itself.
pub open spec fn focused<R: CommandRunner>(
    runner: &R,
    pane: PaneView,
    result: Result<(), TmuxErrorView>,
) -> bool {
    exists|window: Result<(), TmuxErrorView>|
        #[trigger] command_done(
            runner,
            select_window_command(window_target_of(pane)),
            TmuxErrorView::SelectWindow,
            window,
        ) && match window {
            Err(error) => result == Err::<(), TmuxErrorView>(error),
            Ok(_) => command_done(
                runner,
                select_pane_command(pane.tmux_pane_id),
                TmuxErrorView::SelectPane,
                result,
            ),
        }
}

/// What the output of a listing reads as: the text that its bytes encode,
/// or an error where they are not UTF-8.
pub open spec fn listing_read(output: CommandOutput, result: Result<Seq<char>, TmuxErrorView>) -> bool {
    if valid_utf8(output.stdout@) {
        result == Ok::<Seq<char>, TmuxErrorView>(decode_utf8(output.stdout@))
    } else {
        result matches Err(TmuxErrorView::InvalidUtf8 { .. })
    }
}

/// The runner was asked for the pane that `line` names, and `result` is what
/// came of it. A line that cannot be read fails with its own error and no
/// command is run. Else the runner is handed the command that prints the
/// content of the pane; the pane has what the line says and, as content,
/// the text of what the command printed.
pub open spec fn pane_captured<R: CommandRunner>(
    runner: &R,
    include_escape_codes: bool,
    line: Seq<char>,
    result: Result<PaneView, TmuxErrorView>,
) -> bool {
    match listed_pane(line) {
        Err(error) => result == Err::<PaneView, TmuxErrorView>(error),
        Ok(listed) => exists|output: Result<CommandOutput, TmuxErrorView>|
            #[trigger] command_ran(
                runner,
                capture_command(listed.descriptor, include_escape_codes),
                TmuxErrorView::CapturePane,
                output,
            ) && result == match output {
                Err(error) => Err::<PaneView, TmuxErrorView>(error),
                Ok(output) => Ok(
                    captured_pane(listed, crate::tmux::lossy_text(output.stdout@)),
                ),
            },
    }
}

/// The panes after the first `n` lines of the listing, where `captures`
/// holds for each line what asking for its pane came to. An empty line adds
/// nothing; any other line adds its pane unless that is excluded; the first
/// line that failed ends it all with its error.
pub open spec fn panes_after(
    excluded: Seq<String>,
    lines: Seq<Seq<char>>,
    captures: Seq<Result<PaneView, TmuxErrorView>>,
    n: int,
) -> Result<Seq<PaneView>, TmuxErrorView>
    decreases n,
{
    if n <= 0 {
        Ok(Seq::empty())
    } else {
        match panes_after(excluded, lines, captures, n - 1) {
            Err(error) => Err(error),
            Ok(panes) => if lines[n - 1].len() == 0 {
                Ok(panes)
            } else {
                match captures[n - 1] {
                    Err(error) => Err(error),
                    Ok(pane) => Ok(
                        if is_excluded(excluded, pane.tmux_pane_id) {
                            panes
                        } else {
                            panes.push(pane)
                        },
                    ),
                }
            },
        }
    }
}

/// The runner was asked for the panes that `lines` name, line by line, and
/// `result` is what came of it: for every line that is not empty and that
/// no failure came before, the runner was asked for its pane; the panes
/// stand in the order of their lines.
pub open spec fn lines_captured<R: CommandRunner>(
    runner: &R,
    excluded: Seq<String>,
    include_escape_codes: bool,
    lines: Seq<Seq<char>>,
    result: Result<Seq<PaneView>, TmuxErrorView>,
) -> bool {
    exists|captures: Seq<Result<PaneView, TmuxErrorView>>|
        #![trigger panes_after(excluded, lines, captures, lines.len() as int)]
        captures.len() == lines.len() && asked_in_turn(
            runner,
            excluded,
            include_escape_codes,
            lines,
            captures,
            lines.len() as int,
        ) && result == panes_after(excluded, lines, captures, lines.len() as int)
}

/// For each of the first `n` lines that is not empty and that no failure
/// came before, `captures` holds what the runner's answer came to.
pub open spec fn asked_in_turn<R: CommandRunner>(
    runner: &R,
    excluded: Seq<String>,
    include_escape_codes: bool,
    lines: Seq<Seq<char>>,
    captures: Seq<Result<PaneView, TmuxErrorView>>,
    n: int,
) -> bool {
    forall|i: int|
        0 <= i < n && lines[i].len() > 0 && panes_after(excluded, lines, captures, i) is Ok
            ==> pane_captured(runner, include_escape_codes, lines[i], #[trigger] captures[i])
}

/// The panes after `n` lines depend on what came of those lines only.
pub proof fn lemma_panes_after_prefix(
    excluded: Seq<String>,
    lines: Seq<Seq<char>>,
    a: Seq<Result<PaneView, TmuxErrorView>>,
    b: Seq<Result<PaneView, TmuxErrorView>>,
    n: int,
)
    requires
        0 <= n <= a.len(),
        n <= b.len(),
        forall|i: int| 0 <= i < n ==> a[i] == b[i],
    ensures
        panes_after(excluded, lines, a, n) == panes_after(excluded, lines, b, n),
    decreases n,
{
    if n > 0 {
        lemma_panes_after_prefix(excluded, lines, a, b, n - 1);
    }
}

/// Once a line has failed, the lines behind it change nothing.
pub proof fn lemma_panes_after_error(
    excluded: Seq<String>,
    lines: Seq<Seq<char>>,
    captures: Seq<Result<PaneView, TmuxErrorView>>,
    n: int,
    m: int,
)
    requires
        0 <= n <= m,
        panes_after(excluded, lines, captures, n) is Err,
    ensures
        panes_after(excluded, lines, captures, m) == panes_after(excluded, lines, captures, n),
    decreases m - n,
{
    if n < m {
        lemma_panes_after_error(excluded, lines, captures, n, m - 1);
    }
}

/// The runner was asked for a snapshot, and `result` is what came of it. It
/// is handed the command that lists the panes; the listing is read as text
/// and taken line by line; and the panes that the lines name are captured.
pub open spec fn snapshot_taken<R: CommandRunner>(
    runner: &R,
    excluded: Seq<String>,
    include_escape_codes: bool,
    result: Result<Seq<PaneView>, TmuxErrorView>,
) -> bool {
    exists|listing: Result<CommandOutput, TmuxErrorView>|
        #[trigger] command_ran(runner, list_command(), TmuxErrorView::ListPanes, listing) && match listing {
            Err(error) => result == Err::<Seq<PaneView>, TmuxErrorView>(error),
            Ok(output) => exists|text: Result<Seq<char>, TmuxErrorView>|
                #[trigger] listing_read(output, text) && match text {
                    Err(error) => result == Err::<Seq<PaneView>, TmuxErrorView>(error),
                    Ok(text) => lines_captured(
                        runner,
                        excluded,
                        include_escape_codes,
                        lines_of(text),
                        result,
                    ),
                },
        }
}

/// The value of what asking for a pane came to.
pub open spec fn capture_view(captured: Result<Pane, TmuxError>) -> Result<PaneView, TmuxErrorView> {
    match captured {
        Ok(pane) => Ok(pane@),
        Err(error) => Err(error@),
    }
}

/// The value of the outcome of a snapshot that left `panes` behind.
pub open spec fn snapshot_view(outcome: Result<(), TmuxError>, panes: Seq<Pane>) -> Result<
    Seq<PaneView>,
    TmuxErrorView,
> {
    match outcome {
        Ok(_) => Ok(pane_views(panes)),
        Err(error) => Err(error@),
    }
}

/// A snapshot, from what the listing and its lines came to.
proof fn lemma_snapshot_taken<R: CommandRunner>(
    runner: &R,
    excluded: Seq<String>,
    include_escape_codes: bool,
    listing: Result<CommandOutput, TmuxErrorView>,
    text: Result<Seq<char>, TmuxErrorView>,
    result: Result<Seq<PaneView>, TmuxErrorView>,
)
    requires
        command_ran(runner, list_command(), TmuxErrorView::ListPanes, listing),
        match listing {
            Err(error) => result == Err::<Seq<PaneView>, TmuxErrorView>(error),
            Ok(output) => listing_read(output, text) && match text {
                Err(error) => result == Err::<Seq<PaneView>, TmuxErrorView>(error),
                Ok(text) => lines_captured(
                    runner,
                    excluded,
                    include_escape_codes,
                    lines_of(text),
                    result,
                ),
            },
        },
    ensures
        snapshot_taken(runner, excluded, include_escape_codes, result),
{
    if listing is Ok {
        assert(listing_read(listing->Ok_0, text));
    }
}

/// One more line has been dealt with.
proof fn lemma_asked_more<R: CommandRunner>(
    runner: &R,
    excluded: Seq<String>,
    include_escape_codes: bool,
    lines: Seq<Seq<char>>,
    before: Seq<Result<PaneView, TmuxErrorView>>,
    after: Seq<Result<PaneView, TmuxErrorView>>,
    n: int,
)
    requires
        0 <= n < lines.len(),
        before.len() == n,
        after == before.push(after[n]),
        asked_in_turn(runner, excluded, include_escape_codes, lines, before, n),
        lines[n].len() > 0 ==> pane_captured(runner, include_escape_codes, lines[n], after[n]),
    ensures
        asked_in_turn(runner, excluded, include_escape_codes, lines, after, n + 1),
        panes_after(excluded, lines, after, n) == panes_after(excluded, lines, before, n),
{
    assert forall|i: int|
        0 <= i < n + 1 && lines[i].len() > 0 && panes_after(excluded, lines, after, i) is Ok
        implies pane_captured(runner, include_escape_codes, lines[i], #[trigger] after[i]) by {
        if i < n {
            lemma_panes_after_prefix(excluded, lines, after, before, i);
            assert(after[i] == before[i]);
        }
    }
    lemma_panes_after_prefix(excluded, lines, after, before, n);
}

/// A line has failed, and the lines behind it were not looked at.
proof fn lemma_asked_failed<R: CommandRunner>(
    runner: &R,
    excluded: Seq<String>,
    include_escape_codes: bool,
    lines: Seq<Seq<char>>,
    asked: Seq<Result<PaneView, TmuxErrorView>>,
    full: Seq<Result<PaneView, TmuxErrorView>>,
    n: int,
)
    requires
        0 <= n <= lines.len(),
        asked.len() == n,
        full.len() == lines.len(),
        forall|i: int| 0 <= i < n ==> full[i] == asked[i],
        asked_in_turn(runner, excluded, include_escape_codes, lines, asked, n),
        panes_after(excluded, lines, asked, n) is Err,
    ensures
        asked_in_turn(runner, excluded, include_escape_codes, lines, full, lines.len() as int),
        panes_after(excluded, lines, full, lines.len() as int) == panes_after(
            excluded,
            lines,
            asked,
            n,
        ),
{
    lemma_panes_after_prefix(excluded, lines, full, asked, n);
    lemma_panes_after_error(excluded, lines, full, n, lines.len() as int);
    assert forall|i: int|
        0 <= i < lines.len() && lines[i].len() > 0 && panes_after(excluded, lines, full, i) is Ok
        implies pane_captured(runner, include_escape_codes, lines[i], #[trigger] full[i]) by {
        if i < n {
            lemma_panes_after_prefix(excluded, lines, full, asked, i);
        } else {
            lemma_panes_after_error(excluded, lines, full, n, i);
        }
    }
}

/// What asking for a pane came to, from what the runner's answer came to.
proof fn lemma_pane_captured<R: CommandRunner>(
    runner: &R,
    include_escape_codes: bool,
    line: Seq<char>,
    named: ListedPaneView,
    output: Result<CommandOutput, TmuxErrorView>,
)
    requires
        listed_pane(line) == Ok::<ListedPaneView, TmuxErrorView>(named),
        command_ran(
            runner,
            capture_command(named.descriptor, include_escape_codes),
            TmuxErrorView::CapturePane,
            output,
        ),
    ensures
        pane_captured(
            runner,
            include_escape_codes,
            line,
            match output {
                Err(error) => Err::<PaneView, TmuxErrorView>(error),
                Ok(output) => Ok(captured_pane(named, crate::tmux::lossy_text(output.stdout@))),
            },
        ),
{
    let result = match output {
        Err(error) => Err::<PaneView, TmuxErrorView>(error),
        Ok(output) => Ok(captured_pane(named, crate::tmux::lossy_text(output.stdout@))),
    };
    assert(listed_pane(line) is Ok);
    assert(listed_pane(line)->Ok_0 == named);
    assert(exists|o: Result<CommandOutput, TmuxErrorView>|
        #[trigger] command_ran(
            runner,
            capture_command(named.descriptor, include_escape_codes),
            TmuxErrorView::CapturePane,
            o,
        ) && result == match o {
            Err(error) => Err::<PaneView, TmuxErrorView>(error),
            Ok(output) => Ok(captured_pane(named, crate::tmux::lossy_text(output.stdout@))),
        });
    assert(pane_captured(runner, include_escape_codes, line, result));
}

impl Tmux {
    /// The arguments that list all panes, one per line.
    pub fn list_arguments() -> (arguments: Vec<&'static str>)
        ensures
            argument_views(arguments@) == list_command(),
    {
        let mut arguments: Vec<&'static str> = Vec::new();
        arguments.push("list-panes");
        arguments.push("-a");
        arguments.push("-F");
        arguments.push("#{session_name}:#{window_index}.#{pane_index}\t#{pane_id}");
        assert(argument_views(arguments@) =~= list_command());
        arguments
    }

    /// The arguments that print the content of the pane at `descriptor`,
    /// with its styling sequences if `include_escape_codes` is set.
    pub fn capture_arguments<'a>(descriptor: &'a str, include_escape_codes: bool) -> (arguments: Vec<
        &'a str,
    >)
        ensures
            argument_views(arguments@) == capture_command(descriptor@, include_escape_codes),
    {
        let mut arguments: Vec<&'a str> = Vec::new();
        arguments.push("capture-pane");
        arguments.push("-t");
        arguments.push(descriptor);
        arguments.push("-p");
        if include_escape_codes {
            arguments.push("-e");
        }
        assert(argument_views(arguments@) =~= capture_command(descriptor@, include_escape_codes));
        arguments
    }

    /// Whether `pane_id` is among the excluded identifiers.
    pub fn excludes(&self, pane_id: &String) -> (excluded: bool)
        ensures
            excluded == is_excluded(self.excluded_pane_ids@, pane_id@),
    {
        let mut index: usize = 0;
        while index < self.excluded_pane_ids.len()
            invariant
                index <= self.excluded_pane_ids.len(),
                forall|i: int| 0 <= i < index ==> (#[trigger] self.excluded_pane_ids@[i])@ != pane_id@,
            decreases self.excluded_pane_ids.len() - index,
        {
            if self.excluded_pane_ids[index] == *pane_id {
                return true;
            }
            index = index + 1;
        }
        false
    }

    /// Reads one line of the pane listing and captures the content of the
    /// pane it names. A line that cannot be read fails with its own error,
    /// before any command is run; for a line that can, the pane has what the
    /// line says and the content that the runner hands out, and only the
    /// runner can make it fail.
    pub fn parse_and_capture_pane<R: CommandRunner>(&self, line: &str, runner: &R) -> (captured: Result<
        Pane,
        TmuxError,
    >)
        ensures
            match captured {
                Ok(pane) => listed_pane(line@) matches Ok(listed) && pane@ == captured_pane(
                    listed,
                    pane@.content,
                ),
                Err(error) => match listed_pane(line@) {
                    Err(expected) => error@ == expected,
                    Ok(_) => error@ is CapturePane || error@ is Runner,
                },
            },
            pane_captured(runner, self.include_escape_codes, line@, capture_view(captured)),
    {
        let listed = match Self::read_pane_line(line) {
            Ok(listed) => listed,
            Err(error) => {
                return Err(error);
            },
        };
        let ghost named = listed@;
        let arguments = Self::capture_arguments(listed.descriptor.as_str(), self.include_escape_codes);
        let outcome = runner.run(arguments.as_slice());
        let ghost checked = checked_output(outcome, TmuxErrorView::CapturePane);
        proof {
            assert(listed_pane(line@) == Ok::<ListedPaneView, TmuxErrorView>(named));
            assert(command_ran(
                runner,
                capture_command(named.descriptor, self.include_escape_codes),
                TmuxErrorView::CapturePane,
                checked,
            ));
            lemma_pane_captured(runner, self.include_escape_codes, line@, named, checked);
        }
        let output = match Self::check_output(outcome, TmuxError::CapturePane) {
            Ok(output) => output,
            Err(error) => {
                assert(checked == Err::<CommandOutput, TmuxErrorView>(error@));
                return Err(error);
            },
        };
        let content = crate::tmux::text_from_utf8_lossy(&output.stdout);
        let pane = Pane {
            command: String::new(),
            content,
            id: listed.descriptor,
            index: listed.index,
            path: String::new(),
            session: listed.session,
            tmux_pane_id: listed.pane_id,
            window_index: listed.window_index,
        };
        proof {
            assert(checked == Ok::<CommandOutput, TmuxErrorView>(output));
            assert(pane@ == captured_pane(named, crate::tmux::lossy_text(output.stdout@)));
        }
        Ok(pane)
    }
}

impl Tmux {
    /// Reads the output of a listing as text.
    pub fn listing_text(output: CommandOutput) -> (text: Result<String, TmuxError>)
        ensures
            listing_read(
                output,
                match text {
                    Ok(text) => Ok(text@),
                    Err(error) => Err(error@),
                },
            ),
    {
        match crate::tmux::text_from_utf8(output.stdout) {
            Ok(text) => Ok(text),
            Err(failure) => Err(
                TmuxError::InvalidUtf8 {
                    valid_up_to: failure.valid_up_to,
                    error_len: failure.error_len,
                },
            ),
        }
    }

    /// Takes a new snapshot: lists the panes and captures each one that is
    /// not excluded, in listing order. Empty lines of the listing are passed
    /// over. The first failure ends the snapshot and leaves the panes of the
    /// previous one in place.
    ///
    /// What the panes hold is the runner's answer: the snapshot is what
    /// [`snapshot_taken`] makes of the answers to the listing command and to
    /// the capture command of every line. Of every snapshot that succeeds,
    /// each pane is what a line of the listing says, and none is excluded.
    /// The exclusions and the settings never change.
    pub fn capture_with_runner<R: CommandRunner>(&mut self, runner: &R) -> (outcome: Result<
        (),
        TmuxError,
    >)
        ensures
            final(self).excluded_pane_ids == old(self).excluded_pane_ids,
            final(self).include_escape_codes == old(self).include_escape_codes,
            outcome is Err ==> final(self).panes == old(self).panes,
            snapshot_taken(
                runner,
                old(self).excluded_pane_ids@,
                old(self).include_escape_codes,
                snapshot_view(outcome, final(self).panes@),
            ),
            outcome is Ok ==> forall|i: int|
                0 <= i < final(self).panes@.len() ==> is_captured(
                    (#[trigger] final(self).panes@[i])@,
                ) && !is_excluded(final(self).excluded_pane_ids@, final(self).panes@[i]@.tmux_pane_id),
    {
        let ghost excluded = self.excluded_pane_ids@;
        let ghost styled = self.include_escape_codes;
        let arguments = Self::list_arguments();
        let answer = runner.run(arguments.as_slice());
        let ghost listing = checked_output(answer, TmuxErrorView::ListPanes);
        assert(command_ran(runner, list_command(), TmuxErrorView::ListPanes, listing));
        let output = match Self::check_output(answer, TmuxError::ListPanes) {
            Ok(output) => output,
            Err(error) => {
                proof {
                    lemma_snapshot_taken(
                        runner,
                        excluded,
                        styled,
                        listing,
                        Err(error@),
                        Err(error@),
                    );
                }
                return Err(error);
            },
        };
        let pane_list = match Self::listing_text(output) {
            Ok(text) => text,
            Err(error) => {
                proof {
                    lemma_snapshot_taken(
                        runner,
                        excluded,
                        styled,
                        listing,
                        Err(error@),
                        Err(error@),
                    );
                }
                return Err(error);
            },
        };
        let lines = crate::text::split_lines(pane_list.as_str());
        let ghost all = lines_of(pane_list@);
        let ghost mut captures: Seq<Result<PaneView, TmuxErrorView>> = Seq::empty();
        let mut panes: Vec<Pane> = Vec::new();
        let mut index: usize = 0;
        proof {
            assert(pane_views(panes@) =~= Seq::empty());
        }
        while index < lines.len()
            invariant
                index <= lines.len(),
                *self == *old(self),
                excluded == self.excluded_pane_ids@,
                styled == self.include_escape_codes,
                crate::text::string_views(lines@) == all,
                captures.len() == index,
                asked_in_turn(runner, excluded, styled, all, captures, index as int),
                panes_after(excluded, all, captures, index as int) == Ok::<
                    Seq<PaneView>,
                    TmuxErrorView,
                >(pane_views(panes@)),
                all == lines_of(pane_list@),
                listing == Ok::<CommandOutput, TmuxErrorView>(output),
                command_ran(runner, list_command(), TmuxErrorView::ListPanes, listing),
                listing_read(output, Ok::<Seq<char>, TmuxErrorView>(pane_list@)),
                forall|i: int|
                    0 <= i < panes@.len() ==> is_captured((#[trigger] panes@[i])@) && !is_excluded(
                        self.excluded_pane_ids@,
                        panes@[i]@.tmux_pane_id,
                    ),
            decreases lines.len() - index,
        {
            let line = lines[index].as_str();
            let ghost before = captures;
            assert(all[index as int] == line@);
            if line.is_empty() {
                proof {
                    captures = before.push(Err(TmuxErrorView::ListPanes));
                    lemma_asked_more(runner, excluded, styled, all, before, captures, index as int);
                }
            } else {
                let captured = self.parse_and_capture_pane(line, runner);
                proof {
                    captures = before.push(capture_view(captured));
                    lemma_asked_more(runner, excluded, styled, all, before, captures, index as int);
                }
                let pane = match captured {
                    Ok(pane) => pane,
                    Err(error) => {
                        proof {
                            let rest = (lines.len() - index - 1) as nat;
                            let full = captures + Seq::new(
                                rest,
                                |i: int| Err::<PaneView, TmuxErrorView>(error@),
                            );
                            lemma_asked_failed(
                                runner,
                                excluded,
                                styled,
                                all,
                                captures,
                                full,
                                index as int + 1,
                            );
                            assert(lines_captured(
                                runner,
                                excluded,
                                styled,
                                all,
                                Err::<Seq<PaneView>, TmuxErrorView>(error@),
                            ));
                            lemma_snapshot_taken(
                                runner,
                                excluded,
                                styled,
                                listing,
                                Ok(pane_list@),
                                Err(error@),
                            );
                        }
                        return Err(error);
                    },
                };
                if !self.excludes(&pane.tmux_pane_id) {
                    assert(is_captured(pane@)) by {
                        assert(listed_pane(line@) is Ok);
                    }
                    let ghost views = pane_views(panes@);
                    panes.push(pane);
                    assert(pane_views(panes@) =~= views.push(pane@));
                }
            }
            index = index + 1;
        }
        proof {
            assert(lines_captured(
                runner,
                excluded,
                styled,
                all,
                Ok::<Seq<PaneView>, TmuxErrorView>(pane_views(panes@)),
            ));
            lemma_snapshot_taken(
                runner,
                excluded,
                styled,
                listing,
                Ok(pane_list@),
                Ok(pane_views(panes@)),
            );
        }
        self.panes = panes;
        Ok(())
    }

    /// Runs one command that only has to succeed.
    pub fn run_command<R: CommandRunner>(runner: &R, arguments: &[&str], failure: TmuxError) -> (outcome: Result<
        (),
        TmuxError,
    >)
        ensures
            command_done(runner, argument_views(arguments@), failure@, done_view(outcome)),
    {
        let answer = runner.run(arguments);
        let ghost output = checked_output(answer, failure@);
        assert(command_ran(runner, argument_views(arguments@), failure@, output));
        match Self::check_output(answer, failure) {
            Ok(_) => Ok(()),
            Err(error) => Err(error),
        }
    }

    /// Selects the pane with identifier `pane_id`: hands the runner the
    /// command for it, and succeeds exactly when the runner runs the command
    /// and the command succeeds.
    pub fn select_pane_with_runner<R: CommandRunner>(pane_id: &str, runner: &R) -> (outcome: Result<
        (),
        TmuxError,
    >)
        ensures
            command_done(
                runner,
                select_pane_command(pane_id@),
                TmuxErrorView::SelectPane,
                done_view(outcome),
            ),
    {
        let mut arguments: Vec<&str> = Vec::new();
        arguments.push("select-pane");
        arguments.push("-t");
        arguments.push(pane_id);
        assert(argument_views(arguments@) =~= select_pane_command(pane_id@));
        Self::run_command(runner, arguments.as_slice(), TmuxError::SelectPane)
    }

    /// Selects the window `target`, given as `session:window`: hands the
    /// runner the command for it, and succeeds exactly when the runner runs
    /// the command and the command succeeds.
    pub fn select_window_with_runner<R: CommandRunner>(target: &str, runner: &R) -> (outcome: Result<
        (),
        TmuxError,
    >)
        ensures
            command_done(
                runner,
                select_window_command(target@),
                TmuxErrorView::SelectWindow,
                done_view(outcome),
            ),
    {
        let mut arguments: Vec<&str> = Vec::new();
        arguments.push("select-window");
        arguments.push("-t");
        arguments.push(target);
        assert(argument_views(arguments@) =~= select_window_command(target@));
        Self::run_command(runner, arguments.as_slice(), TmuxError::SelectWindow)
    }

    /// The window of `pane`, as `session:window`.
    pub fn window_target(pane: &Pane) -> (target: String)
        ensures
            target@ == window_target_of(pane@),
    {
        proof {
            reveal_strlit(":");
        }
        let mut target = pane.session.clone();
        target.append(":");
        crate::text::push_decimal(&mut target, pane.window_index);
        assert(target@ =~= pane@.session + seq![':'] + crate::text::decimal(pane@.window_index));
        target
    }

    /// Brings `pane` to the front: selects its window, then the pane. The
    /// pane is not selected where the window could not be.
    pub fn focus_pane_with_runner<R: CommandRunner>(pane: &Pane, runner: &R) -> (outcome: Result<
        (),
        TmuxError,
    >)
        ensures
            focused(runner, pane@, done_view(outcome)),
    {
        let target = Self::window_target(pane);
        let window = Self::select_window_with_runner(target.as_str(), runner);
        match window {
            Ok(_) => {
                let outcome = Self::select_pane_with_runner(pane.tmux_pane_id.as_str(), runner);
                assert(command_done(
                    runner,
                    select_window_command(window_target_of(pane@)),
                    TmuxErrorView::SelectWindow,
                    done_view(window),
                ));
                outcome
            },
            Err(error) => {
                assert(command_done(
                    runner,
                    select_window_command(window_target_of(pane@)),
                    TmuxErrorView::SelectWindow,
                    done_view(window),
                ));
                Err(error)
            },
        }
    }
}

} // verus!

//! Finding the panes in which a dashboard runs.

use crate::capture::command_ran;
use crate::capture::listing_read;
use crate::command_runner::argument_views;
use crate::command_runner::CommandOutput;
use crate::command_runner::CommandRunner;
use crate::descriptor::descriptor_parts;
use crate::error::TmuxError;
use crate::error::TmuxErrorView;
use crate::instance::Instance;
use crate::instance::InstanceView;
use crate::pane::Pane;
use crate::pane::PaneView;
use crate::text::chars_of;
use crate::text::field_bounds;
use crate::text::field_of;
use crate::text::lines_of;
use crate::text::piece;
use crate::text::split_lines;
use crate::text::string_views;
use crate::tmux::runs_spymux;
use crate::tmux::Tmux;
use vstd::prelude::*;

verus! {

/// The field with index `field` of a line whose fields are set apart by
/// tabs; empty if the line has fewer fields.
pub open spec fn field_or_empty(line: Seq<char>, field: nat) -> Seq<char> {
    match field_of(line, '\t', field) {
        Some(text) => text,
        None => Seq::empty(),
    }
}

/// What a line of the instance listing says. Its fields are the descriptor,
/// the identifier, the current command, the start command and the working
/// directory of a pane. A line without identifier, or of a pane that runs no
/// dashboard, stands for nothing.
pub open spec fn listed_instance(line: Seq<char>) -> Result<Option<InstanceView>, TmuxErrorView> {
    let descriptor = field_or_empty(line, 0);
    if field_of(line, '\t', 1).is_none() || !runs_spymux(
        field_or_empty(line, 2),
        field_or_empty(line, 3),
    ) {
        Ok(None)
    } else {
        match descriptor_parts(descriptor, descriptor) {
            Err(error) => Err(error),
            Ok(parts) => Ok(
                Some(
                    InstanceView {
                        current_path: field_or_empty(line, 4),
                        pane: PaneView {
                            command: Seq::empty(),
                            content: Seq::empty(),
                            id: descriptor,
                            index: parts.index,
                            path: Seq::empty(),
                            session: parts.session,
                            tmux_pane_id: field_or_empty(line, 1),
                            window_index: parts.window_index,
                        },
                    },
                ),
            ),
        }
    }
}

/// The instances that the first `n` lines stand for, in order; the error of
/// the first line that cannot be read. Empty lines stand for nothing.
pub open spec fn listed_instances(lines: Seq<Seq<char>>, n: int) -> Result<
    Seq<InstanceView>,
    TmuxErrorView,
>
    decreases n,
{
    if n <= 0 {
        Ok(Seq::empty())
    } else {
        match listed_instances(lines, n - 1) {
            Err(error) => Err(error),
            Ok(found) => if lines[n - 1].len() == 0 {
                Ok(found)
            } else {
                match listed_instance(lines[n - 1]) {
                    Err(error) => Err(error),
                    Ok(None) => Ok(found),
                    Ok(Some(instance)) => Ok(found.push(instance)),
                }
            },
        }
    }
}

/// The values of a list of instances, in order.
pub open spec fn instance_views(instances: Seq<Instance>) -> Seq<InstanceView> {
    instances.map_values(|instance: Instance| instance@)
}

/// The listing format for instances: descriptor, identifier, current
/// command, start command and working directory, with tabs between them.
pub open spec fn instance_format() -> Seq<char> {
    "#{session_name}:#{window_index}.#{pane_index}\t#{pane_id}\t#{pane_current_command}\t#{pane_start_command}\t#{pane_current_path}"@
}

/// The characters of field `field` of `line`, or of no field.
fn field_text(line: &str, chars: &Vec<char>, field: usize) -> (text: String)
    requires
        chars@ == line@,
    ensures
        text@ == field_or_empty(line@, field as nat),
{
    match field_bounds(chars, '\t', field) {
        Some((start, end)) => piece(line, start, end),
        None => String::new(),
    }
}

impl Tmux {
    /// Reads one line of the instance listing.
    pub fn read_instance_line(line: &str) -> (listed: Result<Option<Instance>, TmuxError>)
        ensures
            match listed {
                Ok(Some(instance)) => listed_instance(line@) == Ok::<
                    Option<InstanceView>,
                    TmuxErrorView,
                >(Some(instance@)),
                Ok(None) => listed_instance(line@) == Ok::<Option<InstanceView>, TmuxErrorView>(
                    None,
                ),
                Err(error) => listed_instance(line@) == Err::<Option<InstanceView>, TmuxErrorView>(
                    error@,
                ),
            },
    {
        let chars = chars_of(line);
        if field_bounds(&chars, '\t', 1).is_none() {
            return Ok(None);
        }
        let current = field_text(line, &chars, 2);
        let start = field_text(line, &chars, 3);
        if !Self::pane_runs_spymux(current.as_str(), start.as_str()) {
            return Ok(None);
        }
        let descriptor = field_text(line, &chars, 0);
        match Self::parse_descriptor(descriptor.as_str()) {
            Err(error) => Err(error),
            Ok((session, window_index, index)) => Ok(
                Some(
                    Instance {
                        current_path: field_text(line, &chars, 4),
                        pane: Pane {
                            command: String::new(),
                            content: String::new(),
                            id: descriptor,
                            index,
                            path: String::new(),
                            session,
                            tmux_pane_id: field_text(line, &chars, 1),
                            window_index,
                        },
                    },
                ),
            ),
        }
    }

    /// The instances that a listing names, in order.
    pub fn read_instances(listing: &str) -> (instances: Result<Vec<Instance>, TmuxError>)
        ensures
            match instances {
                Ok(found) => listed_instances(lines_of(listing@), lines_of(listing@).len() as int)
                    == Ok::<Seq<InstanceView>, TmuxErrorView>(instance_views(found@)),
                Err(error) => listed_instances(lines_of(listing@), lines_of(listing@).len() as int)
                    == Err::<Seq<InstanceView>, TmuxErrorView>(error@),
            },
    {
        let lines = split_lines(listing);
        let ghost all = lines_of(listing@);
        let mut instances: Vec<Instance> = Vec::new();
        let mut index: usize = 0;
        proof {
            assert(instance_views(instances@) =~= Seq::empty());
        }
        while index < lines.len()
            invariant
                index <= lines.len(),
                all == lines_of(listing@),
                string_views(lines@) == all,
                listed_instances(all, index as int) == Ok::<Seq<InstanceView>, TmuxErrorView>(
                    instance_views(instances@),
                ),
            decreases lines.len() - index,
        {
            let line = lines[index].as_str();
            assert(all[index as int] == line@);
            if !line.is_empty() {
                match Self::read_instance_line(line) {
                    Err(error) => {
                        proof {
                            lemma_instances_error_stays(all, index + 1, all.len() as int);
                        }
                        return Err(error);
                    },
                    Ok(None) => {},
                    Ok(Some(instance)) => {
                        let ghost views = instance_views(instances@);
                        instances.push(instance);
                        assert(instance_views(instances@) =~= views.push(instance@));
                    },
                }
            }
            index = index + 1;
        }
        Ok(instances)
    }

    /// The arguments that list all panes with what tells a dashboard.
    pub fn instance_arguments() -> (arguments: Vec<&'static str>)
        ensures
            argument_views(arguments@) == instance_command(),
    {
        let mut arguments: Vec<&'static str> = Vec::new();
        arguments.push("list-panes");
        arguments.push("-a");
        arguments.push("-F");
        arguments.push(
            "#{session_name}:#{window_index}.#{pane_index}\t#{pane_id}\t#{pane_current_command}\t#{pane_start_command}\t#{pane_current_path}",
        );
        assert(argument_views(arguments@) =~= instance_command());
        arguments
    }

    /// Lists the panes in which a dashboard runs: hands the runner the
    /// listing command, reads what it printed as text, and reads the text
    /// line by line. Fails where the runner fails, where the listing is no
    /// text, and where a line that names a dashboard cannot be read.
    pub fn list_spymux_instances_with_runner<R: CommandRunner>(runner: &R) -> (instances: Result<
        Vec<Instance>,
        TmuxError,
    >)
        ensures
            instances_listed(runner, instances_view(instances)),
    {
        let arguments = Self::instance_arguments();
        let answer = runner.run(arguments.as_slice());
        let ghost listing = crate::capture::checked_output(answer, TmuxErrorView::ListPanes);
        assert(command_ran(runner, instance_command(), TmuxErrorView::ListPanes, listing));
        let output = match Self::check_output(answer, TmuxError::ListPanes) {
            Ok(output) => output,
            Err(error) => {
                return Err(error);
            },
        };
        let text = match Self::listing_text(output) {
            Ok(text) => text,
            Err(error) => {
                proof {
                    lemma_instances_listed(runner, listing, Err(error@), Err(error@));
                }
                return Err(error);
            },
        };
        let instances = Self::read_instances(text.as_str());
        proof {
            lemma_instances_listed(runner, listing, Ok(text@), instances_view(instances));
        }
        instances
    }
}

/// A listing of instances, from what the listing and its text came to.
proof fn lemma_instances_listed<R: CommandRunner>(
    runner: &R,
    listing: Result<CommandOutput, TmuxErrorView>,
    text: Result<Seq<char>, TmuxErrorView>,
    result: Result<Seq<InstanceView>, TmuxErrorView>,
)
    requires
        command_ran(runner, instance_command(), TmuxErrorView::ListPanes, listing),
        match listing {
            Err(error) => result == Err::<Seq<InstanceView>, TmuxErrorView>(error),
            Ok(output) => listing_read(output, text) && match text {
                Err(error) => result == Err::<Seq<InstanceView>, TmuxErrorView>(error),
                Ok(text) => result == listed_instances(lines_of(text), lines_of(text).len() as int),
            },
        },
    ensures
        instances_listed(runner, result),
{
    if listing is Ok {
        assert(listing_read(listing->Ok_0, text));
    }
}

/// The command that lists all panes with what tells a dashboard.
pub open spec fn instance_command() -> Seq<Seq<char>> {
    seq!["list-panes"@, "-a"@, "-F"@, instance_format()]
}

/// The value of a listing of instances.
pub open spec fn instances_view(instances: Result<Vec<Instance>, TmuxError>) -> Result<
    Seq<InstanceView>,
    TmuxErrorView,
> {
    match instances {
        Ok(found) => Ok(instance_views(found@)),
        Err(error) => Err(error@),
    }
}

/// The runner was asked for the panes in which a dashboard runs, and
/// `result` is what came of it. It is handed the listing command; what the
/// command printed is read as text; and the instances are those that the
/// lines of the text name.
pub open spec fn instances_listed<R: CommandRunner>(
    runner: &R,
    result: Result<Seq<InstanceView>, TmuxErrorView>,
) -> bool {
    exists|listing: Result<CommandOutput, TmuxErrorView>|
        #[trigger] command_ran(runner, instance_command(), TmuxErrorView::ListPanes, listing)
            && match listing {
            Err(error) => result == Err::<Seq<InstanceView>, TmuxErrorView>(error),
            Ok(output) => exists|text: Result<Seq<char>, TmuxErrorView>|
                #[trigger] listing_read(output, text) && match text {
                    Err(error) => result == Err::<Seq<InstanceView>, TmuxErrorView>(error),
                    Ok(text) => result == listed_instances(
                        lines_of(text),
                        lines_of(text).len() as int,
                    ),
                },
        }
}

/// Once a line could not be read, later lines do not mend the listing.
pub proof fn lemma_instances_error_stays(lines: Seq<Seq<char>>, n: int, m: int)
    requires
        0 <= n <= m,
        listed_instances(lines, n) is Err,
    ensures
        listed_instances(lines, m) == listed_instances(lines, n),
    decreases m - n,
{
    if n < m {
        lemma_instances_error_stays(lines, n, m - 1);
    }
}

} // verus!

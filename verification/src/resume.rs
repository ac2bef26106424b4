//! Going back to a running dashboard: what is shown to the selector, and
//! what its answer means.

use crate::instance::Instance;
use crate::instance::InstanceView;
use crate::instances::instance_views;
use crate::text::chars_of;
use crate::text::find_char;
use crate::text::lemma_find_from;
use crate::text::lines_of;
use crate::text::piece;
use crate::text::split_lines;
use crate::text::trim;
use crate::text::trimmed;
use crate::tmux::copy_pane;
use vstd::prelude::*;

verus! {

/// Why a selection leads to no pane.
#[derive(Clone, Debug, PartialEq, Eq)]
pub enum ResumeError {
    /// No dashboard runs anywhere.
    NoInstances,
    /// The selection names a pane that is not among the candidates; holds
    /// the identifier.
    UnknownPane(String),
}

/// `text` with a space in place of every tab.
pub open spec fn tabs_to_spaces(text: Seq<char>) -> Seq<char> {
    text.map_values(
        |c: char|
            if c == '\t' {
                ' '
            } else {
                c
            },
    )
}

/// A path as one field of a line: a hyphen for no path, else the path with
/// a space in place of every tab.
pub open spec fn sanitized(path: Seq<char>) -> Seq<char> {
    if path.len() == 0 {
        seq!['-']
    } else {
        tabs_to_spaces(path)
    }
}

/// Makes a path fit for one field of a line.
pub fn sanitize_path(path: &str) -> (field: String)
    ensures
        field@ == sanitized(path@),
{
    proof {
        reveal_strlit("-");
        reveal_strlit(" ");
    }
    if path.is_empty() {
        let field = "-".to_owned();
        assert(field@ =~= seq!['-']);
        return field;
    }
    let chars = chars_of(path);
    let mut field = String::new();
    let mut from: usize = 0;
    assert(field@ =~= tabs_to_spaces(path@.take(0)));
    while from < chars.len()
        invariant
            chars@ == path@,
            from <= chars.len(),
            field@ == tabs_to_spaces(path@.take(from as int)),
        decreases chars.len() - from,
    {
        let tab = find_char(&chars, '\t', from);
        proof {
            lemma_find_from(chars@, '\t', from as int);
        }
        let part = piece(path, from, tab);
        field.append(part.as_str());
        assert(field@ =~= tabs_to_spaces(path@.take(tab as int)));
        if tab < chars.len() {
            let ghost upto = field@;
            proof {
                reveal_strlit(" ");
            }
            field.append(" ");
            assert(path@[tab as int] == '\t');
            assert(field@ == upto.push(' '));
            assert(field@ =~= tabs_to_spaces(path@.take(tab + 1)));
            from = tab + 1;
        } else {
            from = tab;
        }
    }
    assert(path@.take(from as int) =~= path@);
    field
}

/// The line that offers an instance to the selector: descriptor, working
/// directory and identifier, with tabs between them.
pub open spec fn candidate_of(instance: InstanceView) -> Seq<char> {
    instance.pane.id + seq!['\t'] + sanitized(instance.current_path) + seq!['\t']
        + instance.pane.tmux_pane_id
}

/// The line that offers `instance` to the selector.
pub fn candidate_line(instance: &Instance) -> (line: String)
    ensures
        line@ == candidate_of(instance@),
{
    proof {
        reveal_strlit("\t");
    }
    let mut line = instance.pane.id.clone();
    line.append("\t");
    line.append(sanitize_path(instance.current_path.as_str()).as_str());
    line.append("\t");
    line.append(instance.pane.tmux_pane_id.as_str());
    assert(line@ =~= candidate_of(instance@));
    line
}

/// Index of the last tab before `to`, plus one; zero if there is none.
pub open spec fn last_field_start(line: Seq<char>, to: int) -> int
    decreases to,
{
    if to <= 0 || to > line.len() {
        0
    } else if line[to - 1] == '\t' {
        to
    } else {
        last_field_start(line, to - 1)
    }
}

/// The identifier that the selector's answer names: the last field of its
/// first line, white space around the line apart. `None` for an answer
/// without text on its first line.
pub open spec fn selected_id(answer: Seq<char>) -> Option<Seq<char>> {
    let lines = lines_of(answer);
    if lines.len() == 0 || trimmed(lines[0]).len() == 0 {
        None
    } else {
        let line = trimmed(lines[0]);
        Some(line.skip(last_field_start(line, line.len() as int)))
    }
}

/// Index of the first instance at or after `from` whose pane has the
/// identifier `pane_id`; the number of instances if there is none.
pub open spec fn instance_position(instances: Seq<InstanceView>, pane_id: Seq<char>, from: int) -> int
    decreases instances.len() - from,
{
    if from < 0 || from >= instances.len() || instances[from].pane.tmux_pane_id == pane_id {
        from
    } else {
        instance_position(instances, pane_id, from + 1)
    }
}

/// What the selector's answer means: no instance for an answer without
/// text, the first instance with the identifier it names, or an error where
/// no instance has it.
pub open spec fn selection_of(instances: Seq<InstanceView>, answer: Seq<char>) -> Result<
    Option<InstanceView>,
    Seq<char>,
> {
    match selected_id(answer) {
        None => Ok(None),
        Some(pane_id) => {
            let at = instance_position(instances, pane_id, 0);
            if at < instances.len() {
                Ok(Some(instances[at]))
            } else {
                Err(pane_id)
            }
        },
    }
}

/// The identifier that the selector's answer names.
pub fn read_selected_id(answer: &str) -> (pane_id: Option<String>)
    ensures
        match pane_id {
            Some(pane_id) => selected_id(answer@) == Some(pane_id@),
            None => selected_id(answer@).is_none(),
        },
{
    let lines = split_lines(answer);
    if lines.len() == 0 {
        return None;
    }
    assert(crate::text::string_views(lines@)[0] == lines@[0]@);
    let line = trim(lines[0].as_str());
    if line.as_str().is_empty() {
        return None;
    }
    let chars = chars_of(line.as_str());
    let mut start = chars.len();
    while start > 0 && chars[start - 1] != '\t'
        invariant
            start <= chars.len(),
            last_field_start(chars@, chars@.len() as int) == last_field_start(chars@, start as int),
        decreases start,
    {
        start = start - 1;
    }
    let pane_id = piece(line.as_str(), start, chars.len());
    assert(pane_id@ =~= line@.skip(start as int));
    Some(pane_id)
}

/// Finds the instance that the selector's answer names among `instances`.
pub fn selected_instance(instances: &Vec<Instance>, answer: &str) -> (selection: Result<
    Option<Instance>,
    ResumeError,
>)
    ensures
        match selection {
            Ok(Some(instance)) => selection_of(instance_views(instances@), answer@) == Ok::<
                Option<InstanceView>,
                Seq<char>,
            >(Some(instance@)),
            Ok(None) => selection_of(instance_views(instances@), answer@) == Ok::<
                Option<InstanceView>,
                Seq<char>,
            >(None),
            Err(ResumeError::UnknownPane(pane_id)) => selection_of(
                instance_views(instances@),
                answer@,
            ) == Err::<Option<InstanceView>, Seq<char>>(pane_id@),
            Err(ResumeError::NoInstances) => false,
        },
{
    let pane_id = match read_selected_id(answer) {
        None => {
            return Ok(None);
        },
        Some(pane_id) => pane_id,
    };
    let ghost views = instance_views(instances@);
    let mut index: usize = 0;
    while index < instances.len()
        invariant
            index <= instances.len(),
            views == instance_views(instances@),
            selected_id(answer@) == Some(pane_id@),
            instance_position(views, pane_id@, 0) == instance_position(views, pane_id@, index as int),
        decreases instances.len() - index,
    {
        let instance = &instances[index];
        assert(views[index as int] == instance@);
        if instance.pane.tmux_pane_id == pane_id {
            assert(instance_position(views, pane_id@, index as int) == index);
            return Ok(
                Some(
                    Instance {
                        current_path: instance.current_path.clone(),
                        pane: copy_pane(&instance.pane),
                    },
                ),
            );
        }
        index = index + 1;
    }
    Err(ResumeError::UnknownPane(pane_id))
}

/// The words that describe an error.
pub open spec fn resume_message(error: ResumeError) -> Seq<char> {
    match error {
        ResumeError::NoInstances => "no running spymux panes were found"@,
        ResumeError::UnknownPane(pane_id) => "unable to locate pane "@ + pane_id@,
    }
}

impl ResumeError {
    /// The words that describe the error.
    pub fn message(&self) -> (words: String)
        ensures
            words@ == resume_message(*self),
    {
        match self {
            ResumeError::NoInstances => "no running spymux panes were found".to_owned(),
            ResumeError::UnknownPane(pane_id) => {
                let mut words = "unable to locate pane ".to_owned();
                words.append(pane_id.as_str());
                words
            },
        }
    }
}

} // verus!

//! The list of panes, as last captured from the multiplexer.

use crate::config::Config;
use crate::descriptor::descriptor_parts;
use crate::descriptor::read_descriptor;
use crate::descriptor::DescriptorView;
use crate::error::TmuxError;
use crate::error::TmuxErrorView;
use crate::pane::pane_views;
use crate::pane::Pane;
use crate::pane::PaneView;
use crate::text::chars_of;
use crate::text::contains_ignoring_case;
use crate::text::contains_lowered;
use crate::text::equals_ignoring_case;
use crate::text::matches_lowered_at;
use crate::text::string_views;
use crate::text::trim_bounds;
use crate::text::trimmed;
use vstd::prelude::*;
use vstd::utf8::decode_utf8;
use vstd::utf8::valid_utf8;

verus! {

/// The latest snapshot and what shapes the next one.
#[derive(Debug)]
pub struct Tmux {
    /// Identifiers of panes that are never shown; only ever grows.
    pub excluded_pane_ids: Vec<String>,
    /// Ask the multiplexer for the styling sequences along with the text.
    pub include_escape_codes: bool,
    /// The panes of the latest snapshot, in listing order.
    pub panes: Vec<Pane>,
}

/// Where invalid UTF-8 was met.
pub struct Utf8Failure {
    pub valid_up_to: usize,
    pub error_len: Option<usize>,
}

/// Calls `String::from_utf8`: the text that `bytes` encode, if they are
/// UTF-8, else where they cease to be.
#[verifier::external_body]
pub(crate) fn text_from_utf8(bytes: Vec<u8>) -> (text: Result<String, Utf8Failure>)
    ensures
        match text {
            Ok(text) => valid_utf8(bytes@) && text@ == decode_utf8(bytes@),
            Err(failure) => !valid_utf8(bytes@) && failure.valid_up_to <= bytes@.len(),
        },
{
    match String::from_utf8(bytes) {
        Ok(text) => Ok(text),
        Err(error) => Err(
            Utf8Failure {
                valid_up_to: error.utf8_error().valid_up_to(),
                error_len: error.utf8_error().error_len(),
            },
        ),
    }
}

/// What `String::from_utf8_lossy` makes of `bytes`: the text they encode,
/// with a replacement character for every sequence that is not UTF-8.
pub uninterp spec fn lossy_text(bytes: Seq<u8>) -> Seq<char>;

/// Calls `String::from_utf8_lossy`. Bytes that are UTF-8 come back as the
/// text they encode.
#[verifier::external_body]
pub(crate) fn text_from_utf8_lossy(bytes: &Vec<u8>) -> (text: String)
    ensures
        text@ == lossy_text(bytes@),
        valid_utf8(bytes@) ==> text@ == decode_utf8(bytes@),
{
    String::from_utf8_lossy(bytes).into_owned()
}

/// The panes among `panes` whose identifier is not `pane_id`, in order.
pub open spec fn without_pane(panes: Seq<PaneView>, pane_id: Seq<char>) -> Seq<PaneView>
    decreases panes.len(),
{
    if panes.len() == 0 {
        Seq::empty()
    } else if panes.last().tmux_pane_id == pane_id {
        without_pane(panes.drop_last(), pane_id)
    } else {
        without_pane(panes.drop_last(), pane_id).push(panes.last())
    }
}

/// The pane runs a dashboard: its current command is `spymux`, or its start
/// command names `spymux`; white space around either and capitals do not
/// count.
pub open spec fn runs_spymux(current: Seq<char>, start: Seq<char>) -> bool {
    let name = "spymux"@;
    (trimmed(current).len() == name.len() && matches_lowered_at(trimmed(current), name, 0))
        || contains_lowered(trimmed(start), name)
}

impl Tmux {
    /// A snapshot without panes and without exclusions.
    pub fn new(config: Config) -> (tmux: Tmux)
        ensures
            tmux.excluded_pane_ids@.len() == 0,
            tmux.include_escape_codes == config.color_output,
            tmux.panes@.len() == 0,
    {
        Tmux {
            excluded_pane_ids: Vec::new(),
            include_escape_codes: config.color_output,
            panes: Vec::new(),
        }
    }

    /// Hides the pane with identifier `pane_id` from this snapshot and from
    /// every later one.
    pub fn exclude_pane_id(&mut self, pane_id: &str)
        ensures
            pane_views(final(self).panes@) == without_pane(pane_views(old(self).panes@), pane_id@),
            string_views(final(self).excluded_pane_ids@) == string_views(
                old(self).excluded_pane_ids@,
            ).push(pane_id@),
            final(self).include_escape_codes == old(self).include_escape_codes,
    {
        let wanted = pane_id.to_owned();
        let mut kept: Vec<Pane> = Vec::new();
        let ghost source = pane_views(self.panes@);
        let mut index: usize = 0;
        proof {
            assert(pane_views(kept@) =~= Seq::empty());
            assert(source.take(0) =~= Seq::empty());
        }
        while index < self.panes.len()
            invariant
                index <= self.panes.len(),
                wanted@ == pane_id@,
                source == pane_views(self.panes@),
                *self == *old(self),
                pane_views(kept@) == without_pane(source.take(index as int), pane_id@),
            decreases self.panes.len() - index,
        {
            let pane = &self.panes[index];
            let ghost upto = source.take(index as int + 1);
            proof {
                assert(upto.drop_last() =~= source.take(index as int));
                assert(upto.last() == pane@);
            }
            if pane.tmux_pane_id != wanted {
                let copy = copy_pane(pane);
                let ghost views = pane_views(kept@);
                kept.push(copy);
                assert(pane_views(kept@) =~= views.push(pane@));
            }
            index = index + 1;
        }
        proof {
            assert(source.take(index as int) =~= source);
        }
        let ghost excluded = string_views(self.excluded_pane_ids@);
        self.panes = kept;
        self.excluded_pane_ids.push(wanted);
        assert(string_views(self.excluded_pane_ids@) =~= excluded.push(pane_id@));
    }

    /// Reads a descriptor of the form `session:window.pane`.
    pub fn parse_descriptor(descriptor: &str) -> (parts: Result<(String, usize, usize), TmuxError>)
        ensures
            match parts {
                Ok((session, window_index, index)) => descriptor_parts(descriptor@, descriptor@)
                    == Ok::<DescriptorView, TmuxErrorView>(
                    DescriptorView {
                        session: session@,
                        window_index: window_index as nat,
                        index: index as nat,
                    },
                ),
                Err(error) => descriptor_parts(descriptor@, descriptor@) == Err::<
                    DescriptorView,
                    TmuxErrorView,
                >(error@),
            },
    {
        let chars = chars_of(descriptor);
        assert(descriptor@.subrange(0, chars@.len() as int) =~= descriptor@);
        read_descriptor(descriptor, &chars, 0, chars.len(), descriptor)
    }

    /// Whether a pane with these commands runs a dashboard.
    pub fn pane_runs_spymux(current: &str, start: &str) -> (runs: bool)
        ensures
            runs == runs_spymux(current@, start@),
    {
        proof {
            reveal_strlit("spymux");
        }
        let name = chars_of("spymux");
        let current = chars_of(current);
        let (from, to) = trim_bounds(&current);
        if equals_ignoring_case(&current, from, to, &name) {
            return true;
        }
        let start = chars_of(start);
        let (from, to) = trim_bounds(&start);
        contains_ignoring_case(&start, from, to, &name)
    }
}

/// A pane with the same fields.
pub fn copy_pane(pane: &Pane) -> (copy: Pane)
    ensures
        copy@ == pane@,
{
    Pane {
        command: pane.command.clone(),
        content: pane.content.clone(),
        id: pane.id.clone(),
        index: pane.index,
        path: pane.path.clone(),
        session: pane.session.clone(),
        tmux_pane_id: pane.tmux_pane_id.clone(),
        window_index: pane.window_index,
    }
}

} // verus!

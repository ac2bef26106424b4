//! Reading `session:window.pane`, the form in which the multiplexer names
//! the place of a pane.

use crate::error::TmuxError;
use crate::error::TmuxErrorView;
use crate::text::find_from;
use crate::text::number_of;
use crate::text::parse_number;
use crate::text::piece;
use vstd::prelude::*;

verus! {

/// The parts of a descriptor.
pub struct DescriptorView {
    pub session: Seq<char>,
    pub window_index: nat,
    pub index: nat,
}

/// `text` holds `separator` exactly once.
pub open spec fn splits_in_two(text: Seq<char>, separator: char) -> bool {
    let first = find_from(text, separator, 0);
    first < text.len() && find_from(text, separator, first + 1) >= text.len()
}

/// What `descriptor` says. It holds one colon; before it stands the session;
/// behind it stand, with one full stop between them, the number of the
/// window and the number of the pane. `whole` is what an error about the
/// form as a whole quotes.
pub open spec fn descriptor_parts(descriptor: Seq<char>, whole: Seq<char>) -> Result<
    DescriptorView,
    TmuxErrorView,
> {
    let colon = find_from(descriptor, ':', 0);
    let place = descriptor.skip(colon + 1);
    let stop = find_from(place, '.', 0);
    if !splits_in_two(descriptor, ':') {
        Err(TmuxErrorView::InvalidPane(whole))
    } else if !splits_in_two(place, '.') {
        Err(TmuxErrorView::InvalidWindowPane(place))
    } else {
        match number_of(place.take(stop)) {
            Err(error) => Err(TmuxErrorView::InvalidNumber(error)),
            Ok(window_index) => match number_of(place.skip(stop + 1)) {
                Err(error) => Err(TmuxErrorView::InvalidNumber(error)),
                Ok(index) => Ok(
                    DescriptorView { session: descriptor.take(colon), window_index, index },
                ),
            },
        }
    }
}

/// Reads the descriptor that stands in the characters `from..to` of `line`.
pub fn read_descriptor(line: &str, chars: &Vec<char>, from: usize, to: usize, whole: &str) -> (parts:
    Result<(String, usize, usize), TmuxError>)
    requires
        chars@ == line@,
        from <= to <= chars.len(),
    ensures
        match parts {
            Ok((session, window_index, index)) => descriptor_parts(
                line@.subrange(from as int, to as int),
                whole@,
            ) == Ok::<DescriptorView, TmuxErrorView>(
                DescriptorView {
                    session: session@,
                    window_index: window_index as nat,
                    index: index as nat,
                },
            ),
            Err(error) => descriptor_parts(line@.subrange(from as int, to as int), whole@) == Err::<
                DescriptorView,
                TmuxErrorView,
            >(error@),
        },
{
    let ghost descriptor = line@.subrange(from as int, to as int);
    let colon = find_in(chars, ':', from, to);
    proof {
        lemma_find_in_part(descriptor, ':', 0, colon - from);
    }
    if colon >= to {
        return Err(TmuxError::InvalidPane(whole.to_owned()));
    }
    let second = find_in(chars, ':', colon + 1, to);
    proof {
        lemma_find_in_part(descriptor, ':', colon - from + 1, second - from);
    }
    if second < to {
        return Err(TmuxError::InvalidPane(whole.to_owned()));
    }
    let ghost place = descriptor.skip(colon - from + 1);
    assert(place =~= line@.subrange(colon + 1, to as int));
    let stop = find_in(chars, '.', colon + 1, to);
    proof {
        lemma_find_in_part(place, '.', 0, stop - colon - 1);
    }
    if stop >= to {
        return Err(TmuxError::InvalidWindowPane(piece(line, colon + 1, to)));
    }
    let last = find_in(chars, '.', stop + 1, to);
    proof {
        lemma_find_in_part(place, '.', stop - colon, last - colon - 1);
    }
    if last < to {
        return Err(TmuxError::InvalidWindowPane(piece(line, colon + 1, to)));
    }
    assert(place.take(stop - colon - 1) =~= chars@.subrange(colon + 1, stop as int));
    assert(place.skip(stop - colon) =~= chars@.subrange(stop + 1, to as int));
    let window_index = match parse_number(chars, colon + 1, stop) {
        Ok(number) => number,
        Err(error) => {
            return Err(TmuxError::InvalidNumber(error));
        },
    };
    let index = match parse_number(chars, stop + 1, to) {
        Ok(number) => number,
        Err(error) => {
            return Err(TmuxError::InvalidNumber(error));
        },
    };
    assert(descriptor.take(colon - from) =~= line@.subrange(from as int, colon as int));
    Ok((piece(line, from, colon), window_index, index))
}

/// Index of the first `c` among the characters `from..to` of `chars`; `to`
/// if there is none.
fn find_in(chars: &Vec<char>, c: char, from: usize, to: usize) -> (index: usize)
    requires
        from <= to <= chars.len(),
    ensures
        from <= index <= to,
        forall|i: int| from <= i < index ==> chars[i] != c,
        index < to ==> chars[index as int] == c,
{
    let mut index = from;
    while index < to && chars[index] != c
        invariant
            from <= index <= to <= chars.len(),
            forall|i: int| from <= i < index ==> chars[i] != c,
        decreases to - index,
    {
        index = index + 1;
    }
    index
}

/// Where a search stops that meets no `c` before `index`.
proof fn lemma_find_in_part(text: Seq<char>, c: char, from: int, index: int)
    requires
        0 <= from <= index <= text.len(),
        forall|i: int| from <= i < index ==> text[i] != c,
        index < text.len() ==> text[index] == c,
    ensures
        find_from(text, c, from) == index,
    decreases index - from,
{
    if from < index {
        lemma_find_in_part(text, c, from + 1, index);
    }
}

} // verus!

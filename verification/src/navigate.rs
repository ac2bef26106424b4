//! Moving the focus to the nearest pane in a direction.

use crate::app::App;
use crate::layout::PaneRegion;
use vstd::prelude::*;

verus! {

/// A direction in which the focus moves.
#[derive(Clone, Copy, Debug, PartialEq, Eq, Structural)]
pub enum Movement {
    Down,
    Left,
    Right,
    Up,
}

/// Horizontal centre of a region.
pub open spec fn center_x(rect: PaneRegion) -> int {
    rect.x + rect.width / 2
}

/// Vertical centre of a region.
pub open spec fn center_y(rect: PaneRegion) -> int {
    rect.y + rect.height / 2
}

/// Distance between two numbers.
pub open spec fn distance(a: int, b: int) -> int {
    if a < b {
        b - a
    } else {
        a - b
    }
}

/// The centre of `to` lies strictly on the side of the centre of `from`
/// that `direction` names.
pub open spec fn lies_toward(from: PaneRegion, to: PaneRegion, direction: Movement) -> bool {
    match direction {
        Movement::Left => center_x(to) < center_x(from),
        Movement::Right => center_x(to) > center_x(from),
        Movement::Up => center_y(to) < center_y(from),
        Movement::Down => center_y(to) > center_y(from),
    }
}

/// Distance of the centres along the axis of the movement.
pub open spec fn travel(from: PaneRegion, to: PaneRegion, direction: Movement) -> int {
    match direction {
        Movement::Left | Movement::Right => distance(center_x(from), center_x(to)),
        Movement::Up | Movement::Down => distance(center_y(from), center_y(to)),
    }
}

/// Distance of the centres across the axis of the movement.
pub open spec fn drift(from: PaneRegion, to: PaneRegion, direction: Movement) -> int {
    match direction {
        Movement::Left | Movement::Right => distance(center_y(from), center_y(to)),
        Movement::Up | Movement::Down => distance(center_x(from), center_x(to)),
    }
}

/// The pane at `candidate` can take the focus from the pane at `current`.
pub open spec fn eligible(
    regions: Seq<PaneRegion>,
    current: int,
    candidate: int,
    direction: Movement,
) -> bool {
    &&& 0 <= current < regions.len()
    &&& 0 <= candidate < regions.len()
    &&& candidate != current
    &&& lies_toward(regions[current], regions[candidate], direction)
}

/// The pane at `a` is nearer to the pane at `current` than the pane at `b`:
/// it is closer along the movement, or as close and closer across it.
pub open spec fn nearer(
    regions: Seq<PaneRegion>,
    current: int,
    a: int,
    b: int,
    direction: Movement,
) -> bool {
    let from = regions[current];
    travel(from, regions[a], direction) < travel(from, regions[b], direction) || (travel(
        from,
        regions[a],
        direction,
    ) == travel(from, regions[b], direction) && drift(from, regions[a], direction) < drift(
        from,
        regions[b],
        direction,
    ))
}

/// The pane at `best` is the neighbour of the pane at `current`: it can take
/// the focus, no pane that can is nearer, and every pane before it that can
/// is farther.
pub open spec fn is_neighbor(
    regions: Seq<PaneRegion>,
    current: int,
    best: int,
    direction: Movement,
    upto: int,
) -> bool {
    &&& eligible(regions, current, best, direction)
    &&& best < upto
    &&& forall|j: int|
        0 <= j < upto && eligible(regions, current, j, direction) ==> !nearer(
            regions,
            current,
            j,
            best,
            direction,
        )
    &&& forall|j: int|
        0 <= j < best && eligible(regions, current, j, direction) ==> nearer(
            regions,
            current,
            best,
            j,
            direction,
        )
}

impl App {
    /// Centre of a region, in cells.
    pub fn pane_center(rect: PaneRegion) -> (center: (i32, i32))
        ensures
            center.0 == center_x(rect),
            center.1 == center_y(rect),
    {
        (rect.x as i32 + rect.width as i32 / 2, rect.y as i32 + rect.height as i32 / 2)
    }

    /// The pane to which the focus moves from the pane at `current_index`:
    /// among the panes whose centre lies strictly in the direction of the
    /// movement the one nearest along it, of several equally near the one
    /// nearest across it, and of several such the first. `None` where no
    /// pane lies in that direction or `current_index` names none.
    pub fn pane_in_direction(pane_regions: &[PaneRegion], current_index: usize, direction: Movement) -> (next:
        Option<usize>)
        ensures
            match next {
                Some(index) => is_neighbor(
                    pane_regions@,
                    current_index as int,
                    index as int,
                    direction,
                    pane_regions@.len() as int,
                ),
                None => forall|j: int| !eligible(pane_regions@, current_index as int, j, direction),
            },
    {
        if current_index >= pane_regions.len() {
            return None;
        }
        let (current_x, current_y) = Self::pane_center(pane_regions[current_index]);
        let ghost regions = pane_regions@;
        let ghost current = current_index as int;
        let mut best: Option<(i32, i32, usize)> = None;
        let mut index: usize = 0;
        while index < pane_regions.len()
            invariant
                regions == pane_regions@,
                current == current_index,
                current_index < pane_regions.len(),
                index <= pane_regions.len(),
                current_x == center_x(regions[current]),
                current_y == center_y(regions[current]),
                match best {
                    Some((along, across, found)) => {
                        &&& is_neighbor(regions, current, found as int, direction, index as int)
                        &&& along == travel(regions[current], regions[found as int], direction)
                        &&& across == drift(regions[current], regions[found as int], direction)
                    },
                    None => forall|j: int|
                        0 <= j < index ==> !eligible(regions, current, j, direction),
                },
            decreases pane_regions.len() - index,
        {
            let (candidate_x, candidate_y) = Self::pane_center(pane_regions[index]);
            let toward = match direction {
                Movement::Left => candidate_x < current_x,
                Movement::Right => candidate_x > current_x,
                Movement::Up => candidate_y < current_y,
                Movement::Down => candidate_y > current_y,
            };
            if index != current_index && toward {
                let (along, across) = match direction {
                    Movement::Left | Movement::Right => (
                        Self::span_between(current_x, candidate_x),
                        Self::span_between(current_y, candidate_y),
                    ),
                    Movement::Up | Movement::Down => (
                        Self::span_between(current_y, candidate_y),
                        Self::span_between(current_x, candidate_x),
                    ),
                };
                let better = match best {
                    Some((best_along, best_across, _)) => along < best_along || (along == best_along
                        && across < best_across),
                    None => true,
                };
                if better {
                    best = Some((along, across, index));
                }
            }
            index = index + 1;
        }
        match best {
            Some((_, _, found)) => Some(found),
            None => None,
        }
    }

    /// Distance between two centre coordinates.
    fn span_between(a: i32, b: i32) -> (span: i32)
        requires
            0 <= a <= 2 * u16::MAX,
            0 <= b <= 2 * u16::MAX,
        ensures
            span == distance(a as int, b as int),
    {
        if a < b {
            b - a
        } else {
            a - b
        }
    }
}

} // verus!

//! The note a standard SUS AIR record stands on: the last note that ends
//! where the AIR note is, or starts there on the same lane, of the kind the
//! record names when it names one.

use vstd::prelude::*;

use crate::note::Lane;
use crate::position::Position;
use crate::text::chars_of;

verus! {

/// The kind of note a standard SUS AIR record names as its parent.
#[derive(Clone, Copy, Debug, PartialEq, Eq, Structural)]
pub enum StandardParent {
    Tap,
    Flick,
    ChargeTap,
    Mine,
    Hold,
    Slide,
}

/// The three letters that name a parent kind.
pub open spec fn parent_letters(parent: StandardParent) -> Seq<char> {
    match parent {
        StandardParent::Tap => seq!['T', 'A', 'P'],
        StandardParent::Flick => seq!['F', 'L', 'K'],
        StandardParent::ChargeTap => seq!['C', 'H', 'R'],
        StandardParent::Mine => seq!['M', 'N', 'E'],
        StandardParent::Hold => seq!['H', 'L', 'D'],
        StandardParent::Slide => seq!['S', 'L', 'D'],
    }
}

/// The parent kind that `text` names, if it names one.
pub open spec fn parent_named(text: Seq<char>) -> Option<StandardParent> {
    if text == parent_letters(StandardParent::Tap) {
        Some(StandardParent::Tap)
    } else if text == parent_letters(StandardParent::Flick) {
        Some(StandardParent::Flick)
    } else if text == parent_letters(StandardParent::ChargeTap) {
        Some(StandardParent::ChargeTap)
    } else if text == parent_letters(StandardParent::Mine) {
        Some(StandardParent::Mine)
    } else if text == parent_letters(StandardParent::Hold) {
        Some(StandardParent::Hold)
    } else if text == parent_letters(StandardParent::Slide) {
        Some(StandardParent::Slide)
    } else {
        None
    }
}

impl StandardParent {
    /// The three letters that name this kind.
    pub fn code(self) -> (code: &'static str)
        ensures
            code@ == parent_letters(self),
    {
        proof {
            reveal_strlit("TAP");
            reveal_strlit("FLK");
            reveal_strlit("CHR");
            reveal_strlit("MNE");
            reveal_strlit("HLD");
            reveal_strlit("SLD");
        }
        match self {
            StandardParent::Tap => "TAP",
            StandardParent::Flick => "FLK",
            StandardParent::ChargeTap => "CHR",
            StandardParent::Mine => "MNE",
            StandardParent::Hold => "HLD",
            StandardParent::Slide => "SLD",
        }
    }
}

/// Reads the parent kind that `text` names.
pub fn parse_standard_parent(text: &str) -> (parent: Option<StandardParent>)
    ensures
        parent == parent_named(text@),
{
    let chars = chars_of(text);
    if chars.len() != 3 {
        proof {
            assert(chars@.len() != 3);
        }
        return None;
    }
    let (a, b, c) = (chars[0], chars[1], chars[2]);
    proof {
        assert(chars@ =~= seq![a, b, c]);
    }
    if a == 'T' && b == 'A' && c == 'P' {
        Some(StandardParent::Tap)
    } else if a == 'F' && b == 'L' && c == 'K' {
        Some(StandardParent::Flick)
    } else if a == 'C' && b == 'H' && c == 'R' {
        Some(StandardParent::ChargeTap)
    } else if a == 'M' && b == 'N' && c == 'E' {
        Some(StandardParent::Mine)
    } else if a == 'H' && b == 'L' && c == 'D' {
        Some(StandardParent::Hold)
    } else if a == 'S' && b == 'L' && c == 'D' {
        Some(StandardParent::Slide)
    } else {
        None
    }
}

/// The letters of every parent kind read back as that kind.
pub proof fn lemma_parent_code_round_trip(parent: StandardParent)
    ensures
        parent_named(parent_letters(parent)) == Some(parent),
{
}

/// A note of the chart as a standard SUS AIR record sees it: where it starts
/// and ends, its lane, and the parent kind it counts as, none for an AIR note.
#[derive(Clone, Copy, Debug, PartialEq, Eq, Structural)]
pub struct AirParentCandidate {
    pub position: Position,
    pub end: Position,
    pub lane: Lane,
    pub parent: Option<StandardParent>,
}

/// Note `candidate` can carry an AIR note at `position` on `lane` whose
/// record names `target`: it is no AIR note, it ends at `position` or starts
/// there on `lane`, and it is of the kind the target names, if there is one.
pub open spec fn carries(
    candidate: AirParentCandidate,
    position: Position,
    lane: Lane,
    target: Option<Seq<char>>,
) -> bool {
    &&& candidate.parent is Some
    &&& (candidate.end == position || (candidate.position == position && candidate.lane == lane))
    &&& match target {
        Some(text) => parent_named(text) == candidate.parent,
        None => true,
    }
}

/// The target text, if there is one.
pub open spec fn target_text(target: Option<&str>) -> Option<Seq<char>> {
    match target {
        Some(text) => Some(text@),
        None => None,
    }
}

/// The last of the notes that can carry an AIR note at `position` on `lane`
/// whose record names `target`, if one can.
pub fn find_air_parent(
    candidates: &Vec<AirParentCandidate>,
    position: Position,
    lane: Lane,
    target: Option<&str>,
) -> (found: Option<usize>)
    ensures
        match found {
            Some(i) => i < candidates@.len() && carries(candidates@[i as int], position, lane, target_text(target))
                && forall|j: int|
                i < j < candidates@.len() ==> !carries(#[trigger] candidates@[j], position, lane, target_text(target)),
            None => forall|j: int|
                0 <= j < candidates@.len() ==> !carries(#[trigger] candidates@[j], position, lane, target_text(target)),
        },
{
    let wanted: Option<Option<StandardParent>> = match target {
        Some(text) => Some(parse_standard_parent(text)),
        None => None,
    };
    let mut i: usize = candidates.len();
    while i > 0
        invariant
            i <= candidates@.len(),
            wanted == match target {
                Some(text) => Some(parent_named(text@)),
                None => None::<Option<StandardParent>>,
            },
            forall|j: int|
                i <= j < candidates@.len() ==> !carries(#[trigger] candidates@[j], position, lane, target_text(target)),
        decreases i,
    {
        i -= 1;
        let candidate = candidates[i];
        let kind_fits = match wanted {
            Some(named) => named == candidate.parent,
            None => true,
        };
        if candidate.parent.is_some() && (candidate.end == position || (candidate.position == position
            && candidate.lane == lane)) && kind_fits {
            return Some(i);
        }
    }
    None
}

} // verus!

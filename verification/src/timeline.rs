//! Placement of measures, whose lengths may change, on the absolute beat axis.

use vstd::prelude::*;

use crate::error::ChartError;
use crate::position::{
    add_terms, lemma_at_or_before_transitive, lemma_checked_add_value, lemma_equal_fractions_reduce_alike,
    lemma_from_fraction, lemma_order_is_total, lemma_reduced_form_value, lemma_scale_by_whole, lemma_scale_keeps_order,
    lemma_sum_zero,
    lemma_same_value_same_position, lemma_scale_below, lemma_sum_keeps_order, lemma_sum_not_before,
    lemma_valid_denominator, scale, scale_terms, sum, Position,
};

verus! {

/// Maps measures and offsets within them to absolute beat positions.
///
/// Every measure has the default length until a length change at or before it
/// sets another; the changes are kept in strictly increasing measure order.
#[derive(Debug, PartialEq)]
pub struct MeasureTimeline {
    default_length: Position,
    length_changes: Vec<(u32, Position)>,
}

/// The changes are ordered by strictly increasing measure.
pub open spec fn strictly_sorted(changes: Seq<(u32, Position)>) -> bool {
    forall|i: int, j: int| 0 <= i < j < changes.len() ==> changes[i].0 < changes[j].0
}

/// The length set by the last change at or before `measure`, if any.
pub open spec fn last_change_at_or_before(changes: Seq<(u32, Position)>, measure: nat) -> Option<Position>
    decreases changes.len(),
{
    if changes.len() == 0 {
        None
    } else if changes.last().0 <= measure {
        Some(changes.last().1)
    } else {
        last_change_at_or_before(changes.drop_last(), measure)
    }
}

/// The index of the change made at `measure`, if any.
pub open spec fn change_index(changes: Seq<(u32, Position)>, measure: u32) -> Option<int> {
    if exists|i: int| 0 <= i < changes.len() && changes[i].0 == measure {
        Some(choose|i: int| 0 <= i < changes.len() && changes[i].0 == measure)
    } else {
        None
    }
}

/// The number of changes made before `measure`.
pub open spec fn changes_before(changes: Seq<(u32, Position)>, measure: u32) -> nat
    decreases changes.len(),
{
    if changes.len() == 0 {
        0
    } else if changes.last().0 < measure {
        changes_before(changes.drop_last(), measure) + 1
    } else {
        changes_before(changes.drop_last(), measure)
    }
}

impl MeasureTimeline {
    /// The changes are sorted and every length is a valid position.
    #[verifier::type_invariant]
    pub closed spec fn wf(self) -> bool {
        &&& strictly_sorted(self.length_changes@)
        &&& self.default_length.wf()
        &&& forall|i: int| 0 <= i < self.length_changes@.len() ==> (#[trigger] self.length_changes@[i]).1.wf()
    }

    /// The length of every measure before the first change.
    pub closed spec fn default_length_spec(self) -> Position {
        self.default_length
    }

    /// The length changes, by increasing measure.
    pub closed spec fn changes(self) -> Seq<(u32, Position)> {
        self.length_changes@
    }

    /// The length of `measure`.
    pub open spec fn length_at_spec(self, measure: nat) -> Position {
        match last_change_at_or_before(self.changes(), measure) {
            Some(length) => length,
            None => self.default_length_spec(),
        }
    }

    /// Where `measure` starts: the lengths of the measures before it added
    /// up, or the error that adding them reports.
    pub open spec fn start_of(self, measure: nat) -> Result<Position, ChartError>
        decreases measure,
    {
        if measure == 0 {
            Ok(Position::from_fraction(0, 1))
        } else {
            match self.start_of((measure - 1) as nat) {
                Ok(start) => sum(start, self.length_at_spec((measure - 1) as nat)),
                Err(error) => Err(error),
            }
        }
    }

    /// The position `numerator / denominator` of the way through `measure`.
    pub open spec fn position_spec(self, measure: nat, numerator: nat, denominator: nat) -> Result<
        Position,
        ChartError,
    > {
        let offset = Position::from_fraction(numerator, denominator);
        if denominator == 0 {
            Err(ChartError::InvalidPositionDenominator)
        } else if offset.den() < offset.num() {
            Err(ChartError::InvalidMeasureOffset)
        } else {
            match self.start_of(measure) {
                Err(error) => Err(error),
                Ok(start) => match scale(self.length_at_spec(measure), offset.num(), offset.den()) {
                    Err(error) => Err(error),
                    Ok(part) => sum(start, part),
                },
            }
        }
    }

    /// A timeline whose measures all have `default_length`.
    pub fn new(default_length: Position) -> (timeline: Self)
        ensures
            timeline.default_length_spec() == default_length,
            timeline.changes() == Seq::<(u32, Position)>::empty(),
    {
        proof {
            use_type_invariant(&default_length);
        }
        Self { default_length, length_changes: Vec::new() }
    }

    /// Every length that a change sets is a valid position.
    pub proof fn lemma_changes_valid(self)
        requires
            self.wf(),
        ensures
            forall|i: int| 0 <= i < self.changes().len() ==> (#[trigger] self.changes()[i]).1.wf(),
    {
    }

    /// The length changes, by increasing measure.
    pub fn length_changes(&self) -> (changes: &[(u32, Position)])
        ensures
            changes@ == self.changes(),
    {
        self.length_changes.as_slice()
    }

    /// Sets the length of `measure` and of the measures after it up to the
    /// next change.
    pub fn set_length(&mut self, measure: u32, length: Position)
        ensures
            final(self).default_length_spec() == old(self).default_length_spec(),
            final(self).length_at_spec(measure as nat) == length,
            forall|earlier: nat| earlier < measure ==> #[trigger] final(self).length_at_spec(earlier) == old(
                self,
            ).length_at_spec(earlier),
            final(self).changes() == with_length(old(self).changes(), measure, length),
    {
        proof {
            use_type_invariant(&*self);
            use_type_invariant(&length);
        }
        let ghost changes = self.length_changes@;
        let mut index: usize = 0;
        while index < self.length_changes.len() && self.length_changes[index].0 < measure
            invariant
                self.length_changes@ == changes,
                strictly_sorted(changes),
                index <= changes.len(),
                forall|i: int| 0 <= i < index ==> changes[i].0 < measure,
            decreases changes.len() - index,
        {
            index += 1;
        }
        proof {
            lemma_changes_before_prefix(changes, measure, index as int);
        }
        if index < self.length_changes.len() && self.length_changes[index].0 == measure {
            proof {
                assert(change_index(changes, measure) == Some(index as int)) by {
                    let j = choose|j: int| 0 <= j < changes.len() && changes[j].0 == measure;
                    assert(changes[index as int].0 == measure);
                }
            }
            let mut updated = Vec::new();
            std::mem::swap(&mut updated, &mut self.length_changes);
            updated.set(index, (measure, length));
            self.length_changes = updated;
            proof {
                assert(self.length_changes@.take(index as int) =~= changes.take(index as int));
                lemma_new_change_governs(changes, self.length_changes@, index as int, measure, length);
            }
        } else {
            proof {
                assert forall|i: int| 0 <= i < changes.len() implies changes[i].0 != measure by {
                    if i >= index {
                        assert(changes[index as int].0 > measure || index == changes.len());
                    }
                }
                assert(change_index(changes, measure) == None::<int>);
                assert forall|i: int, j: int|
                    0 <= i < j < changes.len() + 1 implies #[trigger] changes.insert(index as int, (measure, length))[i].0
                    < #[trigger] changes.insert(index as int, (measure, length))[j].0 by {
                    if index < changes.len() {
                        assert(changes[index as int].0 > measure);
                    }
                }
            }
            let mut updated = Vec::new();
            std::mem::swap(&mut updated, &mut self.length_changes);
            updated.insert(index, (measure, length));
            self.length_changes = updated;
            proof {
                assert(self.length_changes@.take(index as int) =~= changes.take(index as int));
                lemma_new_change_governs(changes, self.length_changes@, index as int, measure, length);
            }
        }
    }

    /// The length of `measure`: the length of the last change at or before
    /// it, or the default length.
    pub fn length_of(&self, measure: u32) -> (length: Position)
        ensures
            length == self.length_at_spec(measure as nat),
    {
        self.length_at(measure)
    }

    /// The length of `measure`: the length of the last change at or before
    /// it, or the default length.
    fn length_at(&self, measure: u32) -> (length: Position)
        ensures
            length == self.length_at_spec(measure as nat),
    {
        let mut remaining = self.length_changes.len();
        proof {
            assert(self.length_changes@.take(remaining as int) == self.length_changes@);
        }
        while remaining > 0
            invariant
                remaining <= self.length_changes@.len(),
                last_change_at_or_before(self.length_changes@, measure as nat)
                    == last_change_at_or_before(self.length_changes@.take(remaining as int), measure as nat),
            decreases remaining,
        {
            let (changed_measure, length) = self.length_changes[remaining - 1];
            proof {
                let prefix = self.length_changes@.take(remaining as int);
                assert(prefix.drop_last() == self.length_changes@.take(remaining - 1));
            }
            if changed_measure <= measure {
                return length;
            }
            remaining -= 1;
        }
        proof {
            assert(self.length_changes@.take(0) == Seq::<(u32, Position)>::empty());
        }
        self.default_length
    }

    /// The absolute position `numerator / denominator` of the way through
    /// `measure`.
    pub fn position(&self, measure: u32, numerator: u64, denominator: u64) -> (result: Result<
        Position,
        ChartError,
    >)
        ensures
            result == self.position_spec(measure as nat, numerator as nat, denominator as nat),
    {
        let offset = Position::new(numerator, denominator)?;
        let one = Position::new(1, 1).unwrap();
        proof {
            lemma_from_fraction(1, 1);
            assert(one.num() == 1 && one.den() == 1) by {
                vstd::arithmetic::div_mod::lemma_div_by_self(1);
            }
        }
        if offset.numerator() > offset.denominator() {
            return Err(ChartError::InvalidMeasureOffset);
        }
        let mut current = Position::new(0, 1).unwrap();
        let mut current_measure: u32 = 0;
        while current_measure < measure
            invariant
                current_measure <= measure,
                self.start_of(current_measure as nat) == Ok::<Position, ChartError>(current),
                denominator != 0,
                offset == Position::from_fraction(numerator as nat, denominator as nat),
                offset.num() <= offset.den(),
            decreases measure - current_measure,
        {
            let next = current.checked_add(self.length_at(current_measure));
            match next {
                Ok(p) => current = p,
                Err(error) => {
                    proof {
                        assert(self.start_of((current_measure + 1) as nat) == Err::<Position, ChartError>(
                            error,
                        ));
                        self.lemma_start_error_propagates((current_measure + 1) as nat, measure as nat);
                    }
                    return Err(error);
                },
            }
            current_measure += 1;
        }
        let part = self.length_at(measure).checked_scale(offset.numerator(), offset.denominator())?;
        current.checked_add(part)
    }
}

impl MeasureTimeline {
    /// Once adding up measure lengths overflows, every later measure start
    /// reports the same error.
    proof fn lemma_start_error_propagates(self, k: nat, m: nat)
        requires
            k <= m,
            self.start_of(k) is Err,
        ensures
            self.start_of(m) == self.start_of(k),
        decreases m - k,
    {
        if k < m {
            self.lemma_start_error_propagates(k, (m - 1) as nat);
        }
    }
}

impl Clone for MeasureTimeline {
    fn clone(&self) -> (copy: Self)
        ensures
            copy.default_length_spec() == self.default_length_spec(),
            copy.changes() == self.changes(),
    {
        let mut length_changes = Vec::new();
        let mut index: usize = 0;
        while index < self.length_changes.len()
            invariant
                index <= self.length_changes@.len(),
                length_changes@ == self.length_changes@.take(index as int),
            decreases self.length_changes@.len() - index,
        {
            length_changes.push(self.length_changes[index]);
            index += 1;
            proof {
                assert(length_changes@ == self.length_changes@.take(index as int));
            }
        }
        proof {
            use_type_invariant(self);
            assert(self.length_changes@.take(index as int) == self.length_changes@);
        }
        MeasureTimeline { default_length: self.default_length, length_changes }
    }
}

/// The ticks from `start` to `position`, at `ticks_per_beat` ticks per beat.
pub open spec fn ticks_between(start: Position, position: Position, ticks_per_beat: nat) -> Result<nat, ChartError> {
    let n = position.num() * start.den() - start.num() * position.den();
    let d = position.den() * start.den();
    if n < 0 || n * ticks_per_beat > u128::MAX {
        Err(ChartError::PositionOverflow)
    } else if (n * ticks_per_beat) as nat % d != 0 {
        Err(ChartError::PositionNotOnTick)
    } else if (n * ticks_per_beat) as nat / d > u64::MAX {
        Err(ChartError::PositionOverflow)
    } else {
        Ok((n * ticks_per_beat) as nat / d)
    }
}

/// The ticks from `start` to `position`.
fn ticks_from(start: Position, position: Position, ticks_per_beat: u64) -> (result: Result<u64, ChartError>)
    requires
        start.is_at_or_before(position),
    ensures
        match ticks_between(start, position, ticks_per_beat as nat) {
            Ok(t) => result == Ok::<u64, ChartError>(t as u64),
            Err(e) => result == Err::<u64, ChartError>(e),
        },
{
    let pn = position.numerator() as u128;
    let pd = position.denominator() as u128;
    let sn = start.numerator() as u128;
    let sd = start.denominator() as u128;
    proof {
        assert(pn * sd <= u64::MAX * u64::MAX && sn * pd <= u64::MAX * u64::MAX && pd * sd <= u64::MAX * u64::MAX) by (nonlinear_arith)
            requires
                pn <= u64::MAX,
                sd <= u64::MAX,
                sn <= u64::MAX,
                pd <= u64::MAX,
        ;
        assert(pd * sd > 0) by (nonlinear_arith)
            requires
                pd > 0,
                sd > 0,
        ;
    }
    let n = pn * sd - sn * pd;
    let d = pd * sd;
    let scaled = match n.checked_mul(ticks_per_beat as u128) {
        Some(v) => v,
        None => return Err(ChartError::PositionOverflow),
    };
    if scaled % d != 0 {
        return Err(ChartError::PositionNotOnTick);
    }
    let ticks = scaled / d;
    if ticks > u64::MAX as u128 {
        return Err(ChartError::PositionOverflow);
    }
    Ok(ticks as u64)
}

impl MeasureTimeline {
    /// The number of ticks in `measure` at `ticks_per_beat` ticks per beat.
    pub open spec fn ticks_spec(self, measure: nat, ticks_per_beat: nat) -> Result<nat, ChartError> {
        let length = self.length_at_spec(measure);
        let n = length.num() * ticks_per_beat;
        if n % length.den() != 0 {
            Err(ChartError::PositionNotOnTick)
        } else if n / length.den() > u64::MAX {
            Err(ChartError::PositionOverflow)
        } else {
            Ok(n / length.den())
        }
    }

    /// The number of ticks in `measure` at `ticks_per_beat` ticks per beat.
    pub fn ticks(&self, measure: u32, ticks_per_beat: u64) -> (result: Result<u64, ChartError>)
        ensures
            match self.ticks_spec(measure as nat, ticks_per_beat as nat) {
                Ok(t) => result == Ok::<u64, ChartError>(t as u64),
                Err(e) => result == Err::<u64, ChartError>(e),
            },
    {
        let length = self.length_at(measure);
        let n = length.numerator() as u128;
        let d = length.denominator() as u128;
        let t = ticks_per_beat as u128;
        proof {
            assert(n * t <= u64::MAX * u64::MAX) by (nonlinear_arith)
                requires
                    n <= u64::MAX,
                    t <= u64::MAX,
            ;
        }
        let scaled = n * t;
        if scaled % d != 0 {
            return Err(ChartError::PositionNotOnTick);
        }
        if scaled / d > u64::MAX as u128 {
            return Err(ChartError::PositionOverflow);
        }
        Ok((scaled / d) as u64)
    }

    /// Finds the measure, from `measure` on, that contains `position`, given
    /// that `measure` starts at `start`, and the ticks into it.
    pub open spec fn locate_from(self, position: Position, ticks_per_beat: nat, measure: nat, start: Position) -> Result<
        (u32, u64),
        ChartError,
    >
        decreases u32::MAX - measure,
    {
        match sum(start, self.length_at_spec(measure)) {
            Err(error) => Err(error),
            Ok(end) => if position.is_before(end) {
                match ticks_between(start, position, ticks_per_beat) {
                    Ok(t) => Ok((measure as u32, t as u64)),
                    Err(error) => Err(error),
                }
            } else if measure >= u32::MAX {
                Err(ChartError::PositionOverflow)
            } else {
                self.locate_from(position, ticks_per_beat, measure + 1, end)
            },
        }
    }

    /// The measure that contains `position` and the ticks into that measure.
    pub open spec fn locate_spec(self, position: Position, ticks_per_beat: nat) -> Result<(u32, u64), ChartError> {
        self.locate_from(position, ticks_per_beat, 0, Position::from_fraction(0, 1))
    }

    /// The measure that contains `position` and the number of ticks into that
    /// measure, at `ticks_per_beat` ticks per beat.
    pub fn locate(&self, position: Position, ticks_per_beat: u64) -> (result: Result<(u32, u64), ChartError>)
        ensures
            result == self.locate_spec(position, ticks_per_beat as nat),
    {
        let mut start = Position::new(0, 1).unwrap();
        let mut measure: u32 = 0;
        proof {
            lemma_from_fraction(0, 1);
            use_type_invariant(&position);
            assert(start.num() == 0);
        }
        loop
            invariant
                start.wf(),
                position.wf(),
                start.is_at_or_before(position),
                self.locate_spec(position, ticks_per_beat as nat) == self.locate_from(
                    position,
                    ticks_per_beat as nat,
                    measure as nat,
                    start,
                ),
            decreases u32::MAX - measure,
        {
            let end = start.checked_add(self.length_at(measure))?;
            if position < end {
                let ticks = ticks_from(start, position, ticks_per_beat)?;
                return Ok((measure, ticks));
            }
            if measure == u32::MAX {
                return Err(ChartError::PositionOverflow);
            }
            proof {
                use_type_invariant(&end);
                crate::position::lemma_order_is_total(end, position, position);
                assert(end.is_at_or_before(position));
            }
            start = end;
            measure += 1;
        }
    }
}

/// Changes after index `k` that all lie past `x` do not decide the length
/// of `x`.
proof fn lemma_last_change_ignores_later(changes: Seq<(u32, Position)>, x: nat, k: int)
    requires
        0 <= k <= changes.len(),
        forall|j: int| k <= j < changes.len() ==> (#[trigger] changes[j]).0 > x,
    ensures
        last_change_at_or_before(changes, x) == last_change_at_or_before(changes.take(k), x),
    decreases changes.len(),
{
    if changes.len() > k {
        assert(changes[changes.len() - 1].0 > x);
        assert(changes.drop_last().take(k) == changes.take(k));
        lemma_last_change_ignores_later(changes.drop_last(), x, k);
    } else {
        assert(changes.take(k) == changes);
    }
}

/// The changes after the length of `measure` is set to `length`: the change
/// at `measure` replaced, or a new one put in its place by measure.
pub open spec fn with_length(changes: Seq<(u32, Position)>, measure: u32, length: Position) -> Seq<(u32, Position)> {
    match change_index(changes, measure) {
        Some(i) => changes.update(i, (measure, length)),
        None => changes.insert(changes_before(changes, measure) as int, (measure, length)),
    }
}

/// The length that a change at `measure` sets, if there is one.
pub open spec fn change_at(changes: Seq<(u32, Position)>, measure: u32) -> Option<Position> {
    match change_index(changes, measure) {
        Some(i) => Some(changes[i].1),
        None => None,
    }
}

/// In a sorted list, the change at a measure is the only one there.
proof fn lemma_change_index_unique(changes: Seq<(u32, Position)>, i: int, measure: u32)
    requires
        strictly_sorted(changes),
        0 <= i < changes.len(),
        changes[i].0 == measure,
    ensures
        change_index(changes, measure) == Some(i),
{
    let j = choose|j: int| 0 <= j < changes.len() && changes[j].0 == measure;
    assert(0 <= j < changes.len() && changes[j].0 == measure);
    if j < i {
        assert(changes[j].0 < changes[i].0);
    } else if j > i {
        assert(changes[i].0 < changes[j].0);
    }
}

/// In a sorted list, the changes before `measure` come first.
proof fn lemma_changes_before_split(changes: Seq<(u32, Position)>, measure: u32)
    requires
        strictly_sorted(changes),
    ensures
        changes_before(changes, measure) <= changes.len(),
        forall|j: int| 0 <= j < changes_before(changes, measure) ==> (#[trigger] changes[j]).0 < measure,
        forall|j: int| changes_before(changes, measure) <= j < changes.len() ==> (#[trigger] changes[j]).0 >= measure,
    decreases changes.len(),
{
    if changes.len() > 0 {
        let rest = changes.drop_last();
        lemma_changes_before_split(rest, measure);
        if changes.last().0 < measure {
            assert forall|j: int| 0 <= j < changes.len() implies (#[trigger] changes[j]).0 < measure by {
                if j < changes.len() - 1 {
                    assert(changes[j].0 < changes[changes.len() - 1].0);
                }
            }
        } else {
            assert forall|j: int| changes_before(changes, measure) <= j < changes.len() implies (
            #[trigger] changes[j]).0 >= measure by {
                if j < changes.len() - 1 {
                    assert(changes[j] == rest[j]);
                }
            }
            assert forall|j: int| 0 <= j < changes_before(changes, measure) implies (#[trigger] changes[j]).0
                < measure by {
                assert(changes[j] == rest[j]);
            }
        }
    }
}

/// Setting a length keeps the changes sorted, puts the new change at the
/// index given, and leaves every other measure's change as it was.
proof fn lemma_with_length(changes: Seq<(u32, Position)>, measure: u32, length: Position)
    requires
        strictly_sorted(changes),
    ensures
        strictly_sorted(with_length(changes, measure, length)),
        change_at(with_length(changes, measure, length), measure) == Some(length),
        forall|other: u32| other != measure ==> #[trigger] change_at(with_length(changes, measure, length), other)
            == change_at(changes, other),
        ({
            let after = with_length(changes, measure, length);
            let i = match change_index(changes, measure) {
                Some(i) => i,
                None => changes_before(changes, measure) as int,
            };
            &&& 0 <= i < after.len()
            &&& i <= changes.len()
            &&& after[i] == (measure, length)
            &&& after.take(i) == changes.take(i)
            &&& forall|j: int| i <= j < changes.len() ==> (#[trigger] changes[j]).0 >= measure
        }),
{
    let after = with_length(changes, measure, length);
    lemma_changes_before_split(changes, measure);
    match change_index(changes, measure) {
        Some(i) => {
            assert(0 <= i < changes.len() && changes[i].0 == measure);
            assert(after.take(i) =~= changes.take(i));
            assert forall|j: int| i <= j < changes.len() implies (#[trigger] changes[j]).0 >= measure by {
                if j > i {
                    assert(changes[i].0 < changes[j].0);
                }
            }
            lemma_change_index_unique(after, i, measure);
            assert forall|other: u32| other != measure implies #[trigger] change_at(after, other) == change_at(
                changes,
                other,
            ) by {
                if exists|j: int| 0 <= j < changes.len() && changes[j].0 == other {
                    let j = choose|j: int| 0 <= j < changes.len() && changes[j].0 == other;
                    lemma_change_index_unique(changes, j, other);
                    lemma_change_index_unique(after, j, other);
                } else {
                    assert forall|j: int| 0 <= j < after.len() implies after[j].0 != other by {
                        if j != i {
                            assert(after[j] == changes[j]);
                        }
                    }
                }
            }
        },
        None => {
            let k = changes_before(changes, measure) as int;
            assert forall|j: int| 0 <= j < changes.len() implies changes[j].0 != measure by {
                if changes[j].0 == measure {
                    assert(exists|j: int| 0 <= j < changes.len() && changes[j].0 == measure);
                }
            }
            assert forall|p: int, q: int| 0 <= p < q < after.len() implies after[p].0 < after[q].0 by {
                if p < k && q < k {
                    assert(changes[p].0 < changes[q].0);
                } else if p > k && q > k {
                    assert(changes[p - 1].0 < changes[q - 1].0);
                } else if p < k {
                    assert(changes[p].0 < measure);
                    if q > k {
                        assert(changes[q - 1].0 >= measure);
                        assert(changes[q - 1].0 != measure);
                    }
                } else {
                    assert(changes[q - 1].0 >= measure);
                    assert(changes[q - 1].0 != measure);
                }
            }
            assert(after.take(k) =~= changes.take(k));
            lemma_change_index_unique(after, k, measure);
            assert forall|other: u32| other != measure implies #[trigger] change_at(after, other) == change_at(
                changes,
                other,
            ) by {
                if exists|j: int| 0 <= j < changes.len() && changes[j].0 == other {
                    let j = choose|j: int| 0 <= j < changes.len() && changes[j].0 == other;
                    lemma_change_index_unique(changes, j, other);
                    if j < k {
                        lemma_change_index_unique(after, j, other);
                    } else {
                        assert(after[j + 1] == changes[j]);
                        lemma_change_index_unique(after, j + 1, other);
                    }
                } else {
                    assert forall|j: int| 0 <= j < after.len() implies after[j].0 != other by {
                        if j < k {
                            assert(after[j] == changes[j]);
                        } else if j > k {
                            assert(after[j] == changes[j - 1]);
                        }
                    }
                }
            }
        },
    }
}

/// Two sorted lists of changes that set the same lengths at the same
/// measures are the same list.
proof fn lemma_same_changes(a: Seq<(u32, Position)>, b: Seq<(u32, Position)>)
    requires
        strictly_sorted(a),
        strictly_sorted(b),
        forall|m: u32| #[trigger] change_at(a, m) == change_at(b, m),
    ensures
        a == b,
    decreases a.len() + b.len(),
{
    if a.len() == 0 && b.len() == 0 {
        assert(a =~= b);
    } else if a.len() == 0 {
        lemma_change_index_unique(b, 0, b[0].0);
        assert(change_at(a, b[0].0) is None);
        assert(change_at(a, b[0].0) == change_at(b, b[0].0));
        assert(false);
    } else if b.len() == 0 {
        lemma_change_index_unique(a, 0, a[0].0);
        assert(change_at(b, a[0].0) is None);
        assert(change_at(a, a[0].0) == change_at(b, a[0].0));
        assert(false);
    } else {
        let (la, lb) = (a.len() - 1, b.len() - 1);
        lemma_change_index_unique(a, la, a[la].0);
        lemma_change_index_unique(b, lb, b[lb].0);
        assert(change_at(a, a[la].0) == change_at(b, a[la].0));
        assert(change_at(a, b[lb].0) == change_at(b, b[lb].0));
        assert(exists|j: int| 0 <= j < b.len() && b[j].0 == a[la].0);
        assert(exists|j: int| 0 <= j < a.len() && a[j].0 == b[lb].0);
        let ja = change_index(b, a[la].0)->0;
        let jb = change_index(a, b[lb].0)->0;
        assert(0 <= ja < b.len() && b[ja].0 == a[la].0);
        assert(0 <= jb < a.len() && a[jb].0 == b[lb].0);
        if ja < lb {
            assert(b[ja].0 < b[lb].0);
            if jb < la {
                assert(a[jb].0 < a[la].0);
            }
        }
        if jb < la {
            assert(a[jb].0 < a[la].0);
            if ja < lb {
                assert(b[ja].0 < b[lb].0);
            }
        }
        assert(a[la].0 == b[lb].0);
        assert(a.last() == b.last());
        let (ra, rb) = (a.drop_last(), b.drop_last());
        assert forall|m: u32| #[trigger] change_at(ra, m) == change_at(rb, m) by {
            if m == a[la].0 {
                assert forall|j: int| 0 <= j < ra.len() implies ra[j].0 != m by {
                    assert(a[j].0 < a[la].0);
                }
                assert forall|j: int| 0 <= j < rb.len() implies rb[j].0 != m by {
                    assert(b[j].0 < b[lb].0);
                }
            } else {
                if exists|j: int| 0 <= j < ra.len() && ra[j].0 == m {
                    let j = choose|j: int| 0 <= j < ra.len() && ra[j].0 == m;
                    lemma_change_index_unique(ra, j, m);
                    lemma_change_index_unique(a, j, m);
                }
                if exists|j: int| 0 <= j < rb.len() && rb[j].0 == m {
                    let j = choose|j: int| 0 <= j < rb.len() && rb[j].0 == m;
                    lemma_change_index_unique(rb, j, m);
                    lemma_change_index_unique(b, j, m);
                }
                if let Some(j) = change_index(a, m) {
                    assert(a[j].0 == m);
                    assert(j < la);
                    lemma_change_index_unique(ra, j, m);
                }
                if let Some(j) = change_index(b, m) {
                    assert(b[j].0 == m);
                    assert(j < lb);
                    lemma_change_index_unique(rb, j, m);
                }
                assert(change_at(a, m) == change_at(b, m));
            }
        }
        lemma_same_changes(ra, rb);
        assert(a =~= ra.push(a.last()));
        assert(b =~= rb.push(b.last()));
        assert(a == b);
    }
}

/// After a change for `measure` is put at index `i` of a sorted list, with
/// only earlier measures before it, `measure` has the new length and every
/// earlier measure keeps its length.
proof fn lemma_new_change_governs(
    before: Seq<(u32, Position)>,
    after: Seq<(u32, Position)>,
    i: int,
    measure: u32,
    length: Position,
)
    requires
        strictly_sorted(after),
        0 <= i < after.len(),
        i <= before.len(),
        after[i] == (measure, length),
        after.take(i) == before.take(i),
        forall|j: int| i <= j < before.len() ==> (#[trigger] before[j]).0 >= measure,
    ensures
        last_change_at_or_before(after, measure as nat) == Some(length),
        forall|x: nat| x < measure ==> #[trigger] last_change_at_or_before(after, x) == last_change_at_or_before(
            before,
            x,
        ),
{
    assert forall|j: int| i + 1 <= j < after.len() implies (#[trigger] after[j]).0 > measure by {
        assert(after[i].0 < after[j].0);
    }
    lemma_last_change_ignores_later(after, measure as nat, i + 1);
    assert(after.take(i + 1).drop_last() == after.take(i));
    assert(after.take(i + 1).last() == after[i]);
    assert forall|x: nat| x < measure implies #[trigger] last_change_at_or_before(after, x)
        == last_change_at_or_before(before, x) by {
        assert forall|j: int| i <= j < after.len() implies (#[trigger] after[j]).0 > x by {
            if j > i {
                assert(after[i].0 < after[j].0);
            }
        }
        lemma_last_change_ignores_later(after, x, i);
        lemma_last_change_ignores_later(before, x, i);
    }
}

/// The changes before index `k` of a sorted sequence are exactly those
/// before `measure`, when the entry at `k`, if any, is at or after it.
proof fn lemma_changes_before_prefix(changes: Seq<(u32, Position)>, measure: u32, k: int)
    requires
        strictly_sorted(changes),
        0 <= k <= changes.len(),
        forall|i: int| 0 <= i < k ==> changes[i].0 < measure,
        k < changes.len() ==> changes[k].0 >= measure,
    ensures
        changes_before(changes, measure) == k,
    decreases changes.len(),
{
    if changes.len() > 0 {
        if k == changes.len() {
            lemma_changes_before_prefix(changes.drop_last(), measure, k - 1);
        } else {
            lemma_changes_before_prefix(changes.drop_last(), measure, k);
            assert(changes.last().0 >= measure) by {
                if k < changes.len() - 1 {
                    assert(changes[k].0 < changes[changes.len() - 1].0);
                }
            }
        }
    }
}


/// The length that the last change at or before a measure sets is the
/// length of one of the changes.
proof fn lemma_last_change_is_a_change(changes: Seq<(u32, Position)>, measure: nat)
    ensures
        last_change_at_or_before(changes, measure) matches Some(l) ==> exists|i: int|
            0 <= i < changes.len() && (#[trigger] changes[i]).1 == l,
    decreases changes.len(),
{
    if changes.len() > 0 {
        if changes.last().0 <= measure {
            assert(changes[changes.len() - 1].1 == changes.last().1);
        } else {
            lemma_last_change_is_a_change(changes.drop_last(), measure);
            if let Some(l) = last_change_at_or_before(changes.drop_last(), measure) {
                let i = choose|i: int| 0 <= i < changes.drop_last().len() && (#[trigger] changes.drop_last()[i]).1 == l;
                assert(changes[i] == changes.drop_last()[i]);
            }
        }
    }
}

impl MeasureTimeline {
    /// Every measure's length is a valid position.
    /// Every measure of a timeline has a valid length: a reduced fraction
    /// with a positive denominator.
    pub proof fn lemma_length_valid(self, measure: nat)
        requires
            self.wf(),
        ensures
            self.length_at_spec(measure).wf(),
            self.length_at_spec(measure).den() > 0,
    {
        lemma_last_change_is_a_change(self.changes(), measure);
        if let Some(l) = last_change_at_or_before(self.changes(), measure) {
            let i = choose|i: int| 0 <= i < self.changes().len() && (#[trigger] self.changes()[i]).1 == l;
            assert(self.length_changes@[i].1.wf());
        }
        crate::position::lemma_valid_denominator(self.length_at_spec(measure));
    }

    /// A measure whose start can be computed has measures before it whose
    /// starts can be computed too.
    proof fn lemma_start_ok_below(self, k: nat, m: nat)
        requires
            k <= m,
            self.start_of(m) is Ok,
        ensures
            self.start_of(k) is Ok,
    {
        if self.start_of(k) is Err {
            self.lemma_start_error_propagates(k, m);
        }
    }

    /// Measure starts are valid positions that never decrease.
    proof fn lemma_starts_grow(self, k: nat, m: nat)
        requires
            self.wf(),
            k <= m,
            self.start_of(m) is Ok,
        ensures
            self.start_of(k) is Ok,
            self.start_of(k)->Ok_0.wf(),
            self.start_of(m)->Ok_0.wf(),
            self.start_of(k)->Ok_0.is_at_or_before(self.start_of(m)->Ok_0),
        decreases m,
    {
        if m == 0 {
            lemma_from_fraction(0, 1);
        } else {
            let previous = (m - 1) as nat;
            assert(self.start_of(previous) is Ok);
            if k < m {
                self.lemma_starts_grow(k, previous);
            } else {
                self.lemma_starts_grow(previous, previous);
            }
            self.lemma_length_valid(previous);
            let before = self.start_of(previous)->Ok_0;
            let now = self.start_of(m)->Ok_0;
            lemma_sum_not_before(before, self.length_at_spec(previous), now);
            if k < m {
                lemma_at_or_before_transitive(self.start_of(k)->Ok_0, before, now);
            }
        }
    }

    /// Searching from measure `k` for a position at or after the start of
    /// measure `m` passes over the measures before `m`.
    proof fn lemma_locate_passes_earlier_measures(self, position: Position, ticks_per_beat: nat, k: nat, m: nat)
        requires
            self.wf(),
            position.wf(),
            k <= m <= u32::MAX,
            self.start_of(m) is Ok,
            self.start_of(m)->Ok_0.is_at_or_before(position),
        ensures
            self.start_of(k) is Ok,
            self.locate_from(position, ticks_per_beat, k, self.start_of(k)->Ok_0) == self.locate_from(
                position,
                ticks_per_beat,
                m,
                self.start_of(m)->Ok_0,
            ),
        decreases m - k,
    {
        self.lemma_start_ok_below(k, m);
        if k < m {
            let next = k + 1;
            self.lemma_starts_grow(next, m);
            lemma_at_or_before_transitive(self.start_of(next)->Ok_0, self.start_of(m)->Ok_0, position);
            assert(sum(self.start_of(k)->Ok_0, self.length_at_spec(k)) == self.start_of(next));
            self.lemma_locate_passes_earlier_measures(position, ticks_per_beat, next, m);
        }
    }

    /// What the search from measure `k`, which starts at `start`, finds: a
    /// measure from `k` on whose start can be computed, whose end lies past
    /// the position, and the ticks from its start to the position.
    proof fn lemma_locate_from_finds(self, position: Position, ticks_per_beat: nat, k: nat, start: Position)
        requires
            k <= u32::MAX,
            self.start_of(k) == Ok::<Position, ChartError>(start),
            self.locate_from(position, ticks_per_beat, k, start) is Ok,
        ensures
            ({
                let (m, t) = self.locate_from(position, ticks_per_beat, k, start)->Ok_0;
                &&& k <= m
                &&& self.start_of(m as nat) is Ok
                &&& sum(self.start_of(m as nat)->Ok_0, self.length_at_spec(m as nat)) is Ok
                &&& position.is_before(sum(self.start_of(m as nat)->Ok_0, self.length_at_spec(m as nat))->Ok_0)
                &&& ticks_between(self.start_of(m as nat)->Ok_0, position, ticks_per_beat) == Ok::<nat, ChartError>(
                    t as nat,
                )
            }),
        decreases u32::MAX - k,
    {
        let end = sum(start, self.length_at_spec(k))->Ok_0;
        if !position.is_before(end) {
            assert(self.start_of(k + 1) == Ok::<Position, ChartError>(end));
            self.lemma_locate_from_finds(position, ticks_per_beat, k + 1, end);
        }
    }

    /// A located position is read back: the position `t / T` of the way
    /// through the measure that locating it gives, `t` being the ticks into
    /// that measure and `T` the ticks the measure has, is the position again,
    /// wherever the arithmetic of that reading fits in 64 bits.
    pub proof fn lemma_located_position_reads_back(self, position: Position, ticks_per_beat: nat)
        requires
            self.wf(),
            position.wf(),
            ticks_per_beat > 0,
            self.locate_spec(position, ticks_per_beat) is Ok,
            self.ticks_spec(self.locate_spec(position, ticks_per_beat)->Ok_0.0 as nat, ticks_per_beat) is Ok,
            self.position_spec(
                self.locate_spec(position, ticks_per_beat)->Ok_0.0 as nat,
                self.locate_spec(position, ticks_per_beat)->Ok_0.1 as nat,
                self.ticks_spec(self.locate_spec(position, ticks_per_beat)->Ok_0.0 as nat, ticks_per_beat)->Ok_0,
            ) is Ok,
        ensures
            self.position_spec(
                self.locate_spec(position, ticks_per_beat)->Ok_0.0 as nat,
                self.locate_spec(position, ticks_per_beat)->Ok_0.1 as nat,
                self.ticks_spec(self.locate_spec(position, ticks_per_beat)->Ok_0.0 as nat, ticks_per_beat)->Ok_0,
            ) == Ok::<Position, ChartError>(position),
    {
        let (measure, tick) = self.locate_spec(position, ticks_per_beat)->Ok_0;
        let m = measure as nat;
        let t = tick as nat;
        lemma_from_fraction(0, 1);
        self.lemma_locate_from_finds(position, ticks_per_beat, 0, Position::from_fraction(0, 1));
        let start = self.start_of(m)->Ok_0;
        let length = self.length_at_spec(m);
        let total = self.ticks_spec(m, ticks_per_beat)->Ok_0;
        self.lemma_starts_grow(m, m);
        self.lemma_length_valid(m);
        lemma_valid_denominator(position);
        lemma_valid_denominator(start);
        lemma_valid_denominator(length);
        let (pn, pd, sn, sd, ln, ld) = (position.num(), position.den(), start.num(), start.den(), length.num(), length.den());
        let n = pn * sd - sn * pd;
        let d = pd * sd;
        assert(d > 0) by (nonlinear_arith)
            requires
                pd > 0,
                sd > 0,
                d == pd * sd,
        ;
        assert(ticks_between(start, position, ticks_per_beat) == Ok::<nat, ChartError>(t));
        assert(n >= 0);
        let scaled = (n * ticks_per_beat) as nat;
        assert(scaled % d == 0 && t == scaled / d);
        vstd::arithmetic::div_mod::lemma_fundamental_div_mod(scaled as int, d as int);
        assert(t * d == n * ticks_per_beat) by (nonlinear_arith)
            requires
                scaled == d * (scaled / d) + scaled % d,
                scaled % d == 0,
                t == scaled / d,
                scaled == n * ticks_per_beat,
        ;
        let beats = ln * ticks_per_beat;
        assert(beats % ld == 0 && total == beats / ld);
        vstd::arithmetic::div_mod::lemma_fundamental_div_mod(beats as int, ld as int);
        assert(total * ld == ln * ticks_per_beat) by (nonlinear_arith)
            requires
                beats == ld * (beats / ld) + beats % ld,
                beats % ld == 0,
                total == beats / ld,
                beats == ln * ticks_per_beat,
        ;
        let offset = Position::from_fraction(t, total);
        let result = self.position_spec(m, t, total)->Ok_0;
        let part = scale(length, offset.num(), offset.den())->Ok_0;
        assert(total > 0);
        lemma_from_fraction(t, total);
        lemma_reduced_form_value(offset, t, total);
        let (on, od) = (offset.num(), offset.den());
        let (x, y) = scale_terms(length, on, od).unwrap();
        assert(y > 0) by (nonlinear_arith)
            requires
                y == ld * od,
                ld > 0,
                od > 0,
        ;
        lemma_from_fraction(x, y);
        lemma_reduced_form_value(part, x, y);
        let (qn, qd) = (part.num(), part.den());
        assert(on * total == t * od);
        assert(qn * y == x * qd);
        assert(ln > 0) by (nonlinear_arith)
            requires
                total > 0,
                total * ld == ln * ticks_per_beat,
                ld > 0,
        ;
        // part = n / d
        assert(qn * ld * od * total == ln * on * qd * total) by (nonlinear_arith)
            requires
                qn * y == x * qd,
                y == ld * od,
                x == ln * on,
        ;
        assert(qn * ld * total == ln * t * qd) by (nonlinear_arith)
            requires
                qn * ld * od * total == ln * on * qd * total,
                on * total == t * od,
                od > 0,
        ;
        assert(qn * ticks_per_beat == t * qd) by (nonlinear_arith)
            requires
                qn * ld * total == ln * t * qd,
                total * ld == ln * ticks_per_beat,
                ln > 0,
        ;
        assert(qn * d == n * qd) by (nonlinear_arith)
            requires
                qn * ticks_per_beat == t * qd,
                t * d == n * ticks_per_beat,
                ticks_per_beat > 0,
        ;
        // result = start + part = position
        let (an, ad) = add_terms(start, part).unwrap();
        lemma_valid_denominator(part);
        assert(ad > 0) by (nonlinear_arith)
            requires
                ad == sd * qd,
                sd > 0,
                qd > 0,
        ;
        lemma_from_fraction(an, ad);
        lemma_reduced_form_value(result, an, ad);
        let (rn, rd) = (result.num(), result.den());
        assert(rn * ad == an * rd);
        assert(an * d == sn * qd * d + n * qd * sd) by (nonlinear_arith)
            requires
                an == sn * qd + qn * sd,
                qn * d == n * qd,
        ;
        assert(sn * d + n * sd == pn * sd * sd) by (nonlinear_arith)
            requires
                d == pd * sd,
                n == pn * sd - sn * pd,
        ;
        assert(an * d == qd * (pn * sd * sd)) by (nonlinear_arith)
            requires
                an * d == sn * qd * d + n * qd * sd,
                sn * d + n * sd == pn * sd * sd,
        ;
        assert((rn * pd) * (sd * sd * qd) == (rn * ad) * (pd * sd)) by (nonlinear_arith)
            requires
                ad == sd * qd,
        ;
        assert((rn * ad) * (pd * sd) == (an * rd) * d) by (nonlinear_arith)
            requires
                rn * ad == an * rd,
                d == pd * sd,
        ;
        assert((an * rd) * d == (pn * rd) * (sd * sd * qd)) by (nonlinear_arith)
            requires
                an * d == qd * (pn * sd * sd),
        ;
        assert(sd * sd * qd > 0) by (nonlinear_arith)
            requires
                sd > 0,
                qd > 0,
        ;
        assert(rn * pd == pn * rd) by (nonlinear_arith)
            requires
                (rn * pd) * (sd * sd * qd) == (pn * rd) * (sd * sd * qd),
                sd * sd * qd > 0,
        ;
        lemma_same_value_same_position(result, position);
    }

    /// On a timeline whose measures all have four beats, measure `m` starts
    /// at beat `4 m`.
    pub proof fn lemma_four_beat_starts(self, m: nat)
        requires
            self.changes() == Seq::<(u32, Position)>::empty(),
            self.default_length_spec() == Position::from_fraction(4, 1),
            m <= u32::MAX,
        ensures
            self.start_of(m) == Ok::<Position, ChartError>(Position::from_fraction(4 * m, 1)),
        decreases m,
    {
        if m == 0 {
            assert(4 * m == 0);
        } else {
            let previous = (m - 1) as nat;
            self.lemma_four_beat_starts(previous);
            assert(last_change_at_or_before(self.changes(), previous) is None);
            crate::position::lemma_whole_beats(4 * previous);
            crate::position::lemma_whole_beats(4);
            crate::position::lemma_whole_beats(4 * m);
            assert(add_terms(Position::from_fraction(4 * previous, 1), Position::from_fraction(4, 1)) == Some(
                (4 * m, 1nat),
            ));
        }
    }

    /// Where a position was placed in a measure, it is found again: locating
    /// the position `n / d` of the way through `measure` gives that measure
    /// and the ticks from its start. The measure must have a positive length
    /// and the offset must lie before its end (`n < d`); the end of the
    /// measure must be representable.
    pub proof fn lemma_locate_finds_position(self, measure: u32, n: nat, d: nat, ticks_per_beat: nat)
        requires
            self.wf(),
            n < d <= u64::MAX,
            self.length_at_spec(measure as nat).num() > 0,
            self.position_spec(measure as nat, n, d) is Ok,
            self.start_of(measure as nat + 1) is Ok,
        ensures
            ({
                let position = self.position_spec(measure as nat, n, d)->Ok_0;
                let start = self.start_of(measure as nat)->Ok_0;
                self.locate_spec(position, ticks_per_beat) == match ticks_between(start, position, ticks_per_beat) {
                    Ok(t) => Ok::<(u32, u64), ChartError>((measure, t as u64)),
                    Err(error) => Err::<(u32, u64), ChartError>(error),
                }
            }),
    {
        let m = measure as nat;
        let position = self.position_spec(m, n, d)->Ok_0;
        let offset = Position::from_fraction(n, d);
        let start = self.start_of(m)->Ok_0;
        let length = self.length_at_spec(m);
        let part = scale(length, offset.num(), offset.den())->Ok_0;
        let end = self.start_of(m + 1)->Ok_0;
        self.lemma_starts_grow(m, m + 1);
        self.lemma_length_valid(m);
        assert(offset.num() < offset.den()) by {
            lemma_offset_is_proper(n, d);
        }
        lemma_scale_below(length, offset.num(), offset.den(), part);
        assert(sum(start, part) == Ok::<Position, ChartError>(position));
        lemma_sum_not_before(start, part, position);
        assert(sum(start, length) == Ok::<Position, ChartError>(end));
        lemma_sum_keeps_order(start, part, length, position, end);
        self.lemma_locate_passes_earlier_measures(position, ticks_per_beat, 0, m);
        lemma_from_fraction(0, 1);
    }
}

impl MeasureTimeline {
    /// A tick written into a measure is read back: when `measure` spans
    /// `ticks_per_measure` ticks at `ticks_per_beat` ticks per beat, locating
    /// the position of `tick` gives back that measure and that tick, unless
    /// the tick arithmetic overflows.
    pub proof fn lemma_locate_gives_back_tick(
        self,
        measure: u32,
        tick: nat,
        ticks_per_measure: nat,
        ticks_per_beat: nat,
    )
        requires
            self.wf(),
            tick < ticks_per_measure <= u64::MAX,
            self.length_at_spec(measure as nat).num() * ticks_per_beat == ticks_per_measure * self.length_at_spec(
                measure as nat,
            ).den(),
            self.position_spec(measure as nat, tick, ticks_per_measure) is Ok,
            self.start_of(measure as nat + 1) is Ok,
        ensures
            ({
                let position = self.position_spec(measure as nat, tick, ticks_per_measure)->Ok_0;
                ||| self.locate_spec(position, ticks_per_beat) == Ok::<(u32, u64), ChartError>((measure, tick as u64))
                ||| self.locate_spec(position, ticks_per_beat) == Err::<(u32, u64), ChartError>(
                    ChartError::PositionOverflow,
                )
            }),
    {
        let m = measure as nat;
        let length = self.length_at_spec(m);
        self.lemma_length_valid(m);
        crate::position::lemma_valid_denominator(length);
        let (ln, ld) = (length.num(), length.den());
        assert(ln > 0) by (nonlinear_arith)
            requires
                ln * ticks_per_beat == ticks_per_measure * ld,
                ticks_per_measure > 0,
                ld > 0,
        ;
        self.lemma_locate_finds_position(measure, tick, ticks_per_measure, ticks_per_beat);
        let position = self.position_spec(m, tick, ticks_per_measure)->Ok_0;
        let start = self.start_of(m)->Ok_0;
        let offset = Position::from_fraction(tick, ticks_per_measure);
        let part = scale(length, offset.num(), offset.den())->Ok_0;
        self.lemma_starts_grow(m, m);
        crate::position::lemma_valid_denominator(start);
        lemma_offset_is_proper(tick, ticks_per_measure);
        lemma_from_fraction(tick, ticks_per_measure);
        crate::position::lemma_reduced_form_value(offset, tick, ticks_per_measure);
        lemma_scale_below(length, offset.num(), offset.den(), part);
        let (n2, d2) = crate::position::scale_terms(length, offset.num(), offset.den()).unwrap();
        lemma_from_fraction(n2, d2);
        crate::position::lemma_reduced_form_value(part, n2, d2);
        crate::position::lemma_checked_add_value(start, part, position);
        crate::position::lemma_valid_denominator(position);
        let (sn, sd, pn, pd, qn, qd, on, od) = (
            start.num(),
            start.den(),
            part.num(),
            part.den(),
            position.num(),
            position.den(),
            offset.num(),
            offset.den(),
        );
        let tpb = ticks_per_beat;
        let tpm = ticks_per_measure;
        // The part of the measure before the position, in ticks, is the tick.
        assert(pn * tpb * (ld * od) == (ln * tpb) * on * pd) by (nonlinear_arith)
            requires
                pn * (ld * od) == (ln * on) * pd,
        ;
        assert((ln * tpb) * on * pd == ld * (on * tpm) * pd) by (nonlinear_arith)
            requires
                ln * tpb == tpm * ld,
        ;
        assert(pn * tpb * od * ld == tick * od * pd * ld) by (nonlinear_arith)
            requires
                pn * tpb * (ld * od) == (ln * tpb) * on * pd,
                (ln * tpb) * on * pd == ld * (on * tpm) * pd,
                on * tpm == tick * od,
        ;
        assert(pn * tpb * od == tick * od * pd) by (nonlinear_arith)
            requires
                pn * tpb * od * ld == tick * od * pd * ld,
                ld > 0,
        ;
        assert(pn * tpb == tick * pd) by (nonlinear_arith)
            requires
                pn * tpb * od == tick * od * pd,
                od > 0,
        ;
        // The position is the start plus that part.
        assert(qn * sd * pd == sn * qd * pd + pn * (qd * sd)) by (nonlinear_arith)
            requires
                qn * (sd * pd) == (sn * pd + pn * sd) * qd,
        ;
        assert(qn * sd >= sn * qd) by (nonlinear_arith)
            requires
                qn * sd * pd == sn * qd * pd + pn * (qd * sd),
                pd > 0,
        ;
        let difference: nat = (qn * sd - sn * qd) as nat;
        assert(difference * pd == pn * (qd * sd)) by (nonlinear_arith)
            requires
                qn * sd * pd == sn * qd * pd + pn * (qd * sd),
                difference == qn * sd - sn * qd,
        ;
        assert(difference * tpb * pd == pn * tpb * (qd * sd)) by (nonlinear_arith)
            requires
                difference * pd == pn * (qd * sd),
        ;
        assert(difference * tpb * pd == tick * (qd * sd) * pd) by (nonlinear_arith)
            requires
                difference * tpb * pd == pn * tpb * (qd * sd),
                pn * tpb == tick * pd,
        ;
        assert(difference * tpb == tick * (qd * sd)) by (nonlinear_arith)
            requires
                difference * tpb * pd == tick * (qd * sd) * pd,
                pd > 0,
        ;
        assert(qd * sd > 0) by (nonlinear_arith)
            requires
                qd > 0,
                sd > 0,
        ;
        assert((tick * (qd * sd)) % (qd * sd) == 0 && (tick * (qd * sd)) / (qd * sd) == tick) by {
            vstd::arithmetic::div_mod::lemma_mod_multiples_basic(tick as int, (qd * sd) as int);
            vstd::arithmetic::div_mod::lemma_div_multiples_vanish(tick as int, (qd * sd) as int);
        }
    }
}

impl MeasureTimeline {
    /// Adding up measure lengths fails only by overflowing.
    proof fn lemma_start_errors(self, measure: nat)
        ensures
            self.start_of(measure) is Ok || self.start_of(measure) == Err::<Position, ChartError>(
                ChartError::PositionOverflow,
            ),
        decreases measure,
    {
        if measure > 0 {
            self.lemma_start_errors((measure - 1) as nat);
        }
    }

    /// An offset into a measure counts by its value: fractions of equal
    /// value give the same position, or the same error.
    pub proof fn lemma_equal_offsets(self, measure: nat, n1: u64, d1: u64, n2: u64, d2: u64)
        requires
            d1 > 0,
            d2 > 0,
            n1 * d2 == n2 * d1,
        ensures
            self.position_spec(measure, n1 as nat, d1 as nat) == self.position_spec(measure, n2 as nat, d2 as nat),
    {
        lemma_from_fraction(n1 as nat, d1 as nat);
        lemma_from_fraction(n2 as nat, d2 as nat);
        lemma_equal_fractions_reduce_alike(
            Position::from_fraction(n1 as nat, d1 as nat),
            Position::from_fraction(n2 as nat, d2 as nat),
            n1 as nat,
            d1 as nat,
            n2 as nat,
            d2 as nat,
        );
    }

    /// A measure ends where the next one starts: the position one whole
    /// measure into `measure` is the start of the measure after it, or the
    /// same error.
    pub proof fn lemma_measure_end_is_next_start(self, measure: nat)
        requires
            self.wf(),
        ensures
            self.position_spec(measure, 1, 1) == self.position_spec(measure + 1, 0, 1),
    {
        crate::position::lemma_small_fractions(1);
        self.lemma_length_valid(measure);
        self.lemma_length_valid(measure + 1);
        lemma_scale_by_whole(self.length_at_spec(measure));
        lemma_scale_by_whole(self.length_at_spec(measure + 1));
        match self.start_of(measure) {
            Ok(start) => {
                self.lemma_starts_grow(measure, measure);
                match sum(start, self.length_at_spec(measure)) {
                    Ok(next) => {
                        lemma_checked_add_value(start, self.length_at_spec(measure), next);
                        lemma_sum_zero(next);
                    },
                    Err(_) => {},
                }
            },
            Err(_) => {},
        }
    }

    /// Positions in one measure keep the order of their offsets.
    pub proof fn lemma_positions_in_order(self, measure: nat, n1: u64, d1: u64, n2: u64, d2: u64)
        requires
            self.wf(),
            n1 * d2 <= n2 * d1,
            self.position_spec(measure, n1 as nat, d1 as nat) is Ok,
            self.position_spec(measure, n2 as nat, d2 as nat) is Ok,
        ensures
            self.position_spec(measure, n1 as nat, d1 as nat)->Ok_0.wf(),
            self.position_spec(measure, n2 as nat, d2 as nat)->Ok_0.wf(),
            self.position_spec(measure, n1 as nat, d1 as nat)->Ok_0.is_at_or_before(
                self.position_spec(measure, n2 as nat, d2 as nat)->Ok_0,
            ),
    {
        let (o1, o2) = (
            Position::from_fraction(n1 as nat, d1 as nat),
            Position::from_fraction(n2 as nat, d2 as nat),
        );
        lemma_from_fraction(n1 as nat, d1 as nat);
        lemma_from_fraction(n2 as nat, d2 as nat);
        lemma_reduced_form_value(o1, n1 as nat, d1 as nat);
        lemma_reduced_form_value(o2, n2 as nat, d2 as nat);
        let (a, b, c, e) = (o1.num(), o1.den(), o2.num(), o2.den());
        assert(a * e * (d1 * d2) <= c * b * (d1 * d2)) by (nonlinear_arith)
            requires
                a * d1 == n1 * b,
                c * d2 == n2 * e,
                n1 * d2 <= n2 * d1,
                b > 0,
                e > 0,
        ;
        assert(a * e <= c * b) by (nonlinear_arith)
            requires
                a * e * (d1 * d2) <= c * b * (d1 * d2),
                d1 > 0,
                d2 > 0,
        ;
        let length = self.length_at_spec(measure);
        self.lemma_length_valid(measure);
        self.lemma_starts_grow(measure, measure);
        let start = self.start_of(measure)->Ok_0;
        let part1 = scale(length, a, b)->Ok_0;
        let part2 = scale(length, c, e)->Ok_0;
        lemma_scale_keeps_order(length, o1, o2, part1, part2);
        let (p1, p2) = (
            self.position_spec(measure, n1 as nat, d1 as nat)->Ok_0,
            self.position_spec(measure, n2 as nat, d2 as nat)->Ok_0,
        );
        lemma_checked_add_value(start, part1, p1);
        lemma_checked_add_value(start, part2, p2);
        lemma_order_is_total(part1, part2, part2);
        if part1 == part2 {
            assert(p1 == p2);
        } else {
            lemma_sum_keeps_order(start, part1, part2, p1, p2);
            lemma_order_is_total(p1, p2, p2);
        }
    }

    /// A position in a measure comes no later than any position in the
    /// measures after it.
    pub proof fn lemma_later_measures_come_later(self, measure: nat, n: u64, d: u64, later: nat, n2: u64, d2: u64)
        requires
            self.wf(),
            measure < later,
            self.position_spec(measure, n as nat, d as nat) is Ok,
            self.position_spec(later, n2 as nat, d2 as nat) is Ok,
        ensures
            self.position_spec(measure, n as nat, d as nat)->Ok_0.is_at_or_before(
                self.position_spec(later, n2 as nat, d2 as nat)->Ok_0,
            ),
        decreases later - measure,
    {
        let p = self.position_spec(measure, n as nat, d as nat)->Ok_0;
        let q = self.position_spec(later, n2 as nat, d2 as nat)->Ok_0;
        // Where the measure after this one starts.
        self.lemma_start_ok_below(measure + 1, later);
        self.lemma_measure_end_is_next_start(measure);
        let next_start = self.position_spec(measure + 1, 0, 1);
        self.lemma_length_valid(measure + 1);
        crate::position::lemma_small_fractions(1);
        lemma_scale_by_whole(self.length_at_spec(measure + 1));
        self.lemma_starts_grow(measure + 1, measure + 1);
        lemma_sum_zero(self.start_of(measure + 1)->Ok_0);
        assert(next_start is Ok);
        // This position is at or before the end of its measure.
        lemma_from_fraction(n as nat, d as nat);
        lemma_reduced_form_value(Position::from_fraction(n as nat, d as nat), n as nat, d as nat);
        let o = Position::from_fraction(n as nat, d as nat);
        assert(n as nat <= d as nat) by (nonlinear_arith)
            requires
                o.num() <= o.den(),
                o.num() * d == n * o.den(),
                o.den() > 0,
        ;
        self.lemma_positions_in_order(measure, n, d, 1, 1);
        let end = next_start->Ok_0;
        // The next measure's start is at or before the later position.
        if later == measure + 1 {
            self.lemma_positions_in_order(later, 0, 1, n2, d2);
        } else {
            self.lemma_later_measures_come_later(measure + 1, 0, 1, later, n2, d2);
            self.lemma_positions_in_order(later, n2, d2, n2, d2);
        }
        lemma_at_or_before_transitive(p, end, q);
    }

    /// Setting the length of a measure twice leaves the timeline as setting
    /// it the second time alone would.
    pub proof fn lemma_set_length_overwrites(self, measure: u32, first: Position, second: Position)
        requires
            self.wf(),
        ensures
            with_length(with_length(self.changes(), measure, first), measure, second) == with_length(
                self.changes(),
                measure,
                second,
            ),
    {
        let once = with_length(self.changes(), measure, first);
        lemma_with_length(self.changes(), measure, first);
        lemma_with_length(once, measure, second);
        lemma_with_length(self.changes(), measure, second);
        assert forall|m: u32| #[trigger] change_at(with_length(once, measure, second), m) == change_at(
            with_length(self.changes(), measure, second),
            m,
        ) by {
            if m != measure {
                assert(change_at(once, m) == change_at(self.changes(), m));
            }
        }
        lemma_same_changes(with_length(once, measure, second), with_length(self.changes(), measure, second));
    }

    /// Setting the lengths of two different measures gives the same
    /// timeline in either order.
    pub proof fn lemma_set_length_commutes(self, a: u32, x: Position, b: u32, y: Position)
        requires
            self.wf(),
            a != b,
        ensures
            with_length(with_length(self.changes(), a, x), b, y) == with_length(
                with_length(self.changes(), b, y),
                a,
                x,
            ),
    {
        let c = self.changes();
        let (ca, cb) = (with_length(c, a, x), with_length(c, b, y));
        lemma_with_length(c, a, x);
        lemma_with_length(c, b, y);
        lemma_with_length(ca, b, y);
        lemma_with_length(cb, a, x);
        assert forall|m: u32| #[trigger] change_at(with_length(ca, b, y), m) == change_at(with_length(cb, a, x), m) by {
            if m != a && m != b {
                assert(change_at(ca, m) == change_at(c, m));
                assert(change_at(cb, m) == change_at(c, m));
            } else if m == a {
                assert(change_at(ca, m) == Some(x));
            } else {
                assert(change_at(cb, m) == Some(y));
            }
        }
        lemma_same_changes(with_length(ca, b, y), with_length(cb, a, x));
    }

    /// Setting the length of `measure` leaves where the measures up to it
    /// start, and every position in the measures before it, as they were;
    /// the measure after it starts that length later.
    pub proof fn lemma_set_length_positions(self, after: Self, measure: u32, length: Position)
        requires
            self.wf(),
            after.default_length_spec() == self.default_length_spec(),
            after.changes() == with_length(self.changes(), measure, length),
        ensures
            after.length_at_spec(measure as nat) == length,
            forall|m: nat| m <= measure ==> #[trigger] after.start_of(m) == self.start_of(m),
            forall|m: nat, n: nat, d: nat|
                m < measure ==> #[trigger] after.position_spec(m, n, d) == self.position_spec(m, n, d),
            after.start_of((measure + 1) as nat) == match self.start_of(measure as nat) {
                Ok(start) => sum(start, length),
                Err(error) => Err(error),
            },
    {
        let i = match change_index(self.changes(), measure) {
            Some(i) => i,
            None => changes_before(self.changes(), measure) as int,
        };
        lemma_with_length(self.changes(), measure, length);
        lemma_new_change_governs(self.changes(), after.changes(), i, measure, length);
        assert forall|m: nat| m <= measure implies #[trigger] after.start_of(m) == self.start_of(m) by {
            self.lemma_starts_agree(after, m);
        }
        assert forall|m: nat, n: nat, d: nat| m < measure implies #[trigger] after.position_spec(m, n, d)
            == self.position_spec(m, n, d) by {
            assert(after.start_of(m) == self.start_of(m));
            assert(after.length_at_spec(m) == self.length_at_spec(m));
        }
        assert(after.start_of(measure as nat) == self.start_of(measure as nat));
    }

    /// Two timelines whose measures before `m` have the same lengths have
    /// measure `m` start at the same place.
    proof fn lemma_starts_agree(self, other: Self, m: nat)
        requires
            forall|e: nat| e < m ==> #[trigger] other.length_at_spec(e) == self.length_at_spec(e),
        ensures
            other.start_of(m) == self.start_of(m),
        decreases m,
    {
        if m > 0 {
            self.lemma_starts_agree(other, (m - 1) as nat);
            assert(other.length_at_spec((m - 1) as nat) == self.length_at_spec((m - 1) as nat));
        }
    }

    /// The position `n / d` of the way through a measure fails exactly as
    /// reading it does: a zero denominator is refused, so is an offset past
    /// the end of the measure, and any other failure is an overflow.
    pub proof fn lemma_position_errors(self, measure: nat, n: nat, d: nat)
        requires
            self.wf(),
            n <= u64::MAX,
            d <= u64::MAX,
        ensures
            d == 0 ==> self.position_spec(measure, n, d) == Err::<Position, ChartError>(
                ChartError::InvalidPositionDenominator,
            ),
            d > 0 && n > d ==> self.position_spec(measure, n, d) == Err::<Position, ChartError>(
                ChartError::InvalidMeasureOffset,
            ),
            d > 0 && n <= d ==> self.position_spec(measure, n, d) is Ok || self.position_spec(measure, n, d) == Err::<
                Position,
                ChartError,
            >(ChartError::PositionOverflow),
    {
        if d > 0 {
            lemma_from_fraction(n, d);
            let offset = Position::from_fraction(n, d);
            crate::position::lemma_reduced_form_value(offset, n, d);
            let (on, od) = (offset.num(), offset.den());
            assert(n > d ==> od < on) by (nonlinear_arith)
                requires
                    on * d == n * od,
                    od > 0,
                    d > 0,
            ;
            assert(n <= d ==> on <= od) by (nonlinear_arith)
                requires
                    on * d == n * od,
                    od > 0,
                    d > 0,
            ;
            self.lemma_start_errors(measure);
            self.lemma_length_valid(measure);
            let length = self.length_at_spec(measure);
            assert(length.den() * od > 0) by (nonlinear_arith)
                requires
                    length.den() > 0,
                    od > 0,
            ;
        }
    }
}

/// The reduced form of a proper fraction is proper.
proof fn lemma_offset_is_proper(n: nat, d: nat)
    requires
        n < d <= u64::MAX,
    ensures
        Position::from_fraction(n, d).num() < Position::from_fraction(n, d).den(),
{
    lemma_from_fraction(n, d);
    crate::arith::lemma_reduced_is_coprime(n, d);
    let g = crate::arith::gcd_spec(n, d);
    assert(crate::arith::normalizer(n, d) == g);
    assert(n / g < d / g) by (nonlinear_arith)
        requires
            n == g * (n / g),
            d == g * (d / g),
            n < d,
            g > 0,
    ;
}

} // verus!

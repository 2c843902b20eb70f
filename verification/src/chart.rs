//! Note identities, interpretation modes and scroll-speed scopes.

use vstd::prelude::*;

use crate::note::Lane;

verus! {

/// Identifies a note by its insertion index in a chart.
///
/// A chart implementation must preserve this identity when it reorders notes.
#[derive(Clone, Copy, Debug, PartialEq, Eq, Hash, Structural)]
pub struct NoteId(u32);

impl NoteId {
    pub closed spec fn index(self) -> nat {
        self.0 as nat
    }

    pub fn new(value: u32) -> (id: Self)
        ensures
            id.index() == value,
    {
        Self(value)
    }

    /// Two ids are the same exactly when their indices are: `NoteId::new(a)`
    /// and `NoteId::new(b)` are equal exactly when `a` and `b` are.
    pub proof fn lemma_ids_equal(a: Self, b: Self)
        ensures
            (a == b) <==> a.index() == b.index(),
    {
    }

    pub fn value(self) -> (value: u32)
        ensures
            value == self.index(),
    {
        self.0
    }
}

/// Selects the interpretation rules used by a format frontend or backend.
#[derive(Clone, Copy, Debug, PartialEq, Eq, Structural)]
pub enum ChartMode {
    /// Preserve the format's general-purpose semantics.
    Normal,
    /// Apply XLAIR's shared interpretation rules.
    Xlair,
}

/// Which notes a scroll-speed change applies to.
#[derive(Clone, Copy, Debug, PartialEq, Eq, Structural)]
pub enum ScrollScope {
    /// Applies to all notes after the change.
    Global,
    /// Applies only to notes intersecting the specified slider lane.
    Lane(Lane),
    /// Applies only to one note and is used for format-specific note speed records.
    Note(NoteId),
    /// Identifies a format-specific speed definition applied to notes in a group.
    Group(u32),
}

} // verus!

//! A value with the copy of it that was last rendered.

use crate::diff::{delta, diff_values, edits, Change, Edit};
use crate::patch::{doc, lemma_delta_same, lemma_round_trip, patch};
use crate::tree::{Tree, Value};
use vstd::prelude::*;

verus! {

/// A value that a [`State`] can hold: it can be written down as a tree and
/// copied.
pub trait Snapshot: Sized {
    /// The tree that stands for this value.
    spec fn tree(&self) -> Tree;

    /// Writes the value down as a tree.
    fn encode(&self) -> (value: Value)
        ensures
            value@ == self.tree(),
    ;

    /// A deep copy.
    fn duplicate(&self) -> (copy: Self)
        ensures
            copy.tree() == self.tree(),
    ;
}

impl Snapshot for Value {
    open spec fn tree(&self) -> Tree {
        self@
    }

    fn encode(&self) -> (value: Value) {
        Value::duplicate(self)
    }

    fn duplicate(&self) -> (copy: Value) {
        Value::duplicate(self)
    }
}

/// A value together with a copy of it as it was when it was last rendered.
///
/// Handlers change the value freely; whether it has changed is found by
/// comparing, not by keeping track of the changes.
pub struct State<V: Snapshot> {
    current: V,
    last: V,
}

impl<V: Snapshot> State<V> {
    /// The value held.
    pub closed spec fn current(&self) -> V {
        self.current
    }

    /// The tree of the value as last rendered.
    pub closed spec fn baseline(&self) -> Tree {
        self.last.tree()
    }

    /// Whether the value differs from what was last rendered.
    pub open spec fn changed(&self) -> bool {
        self.current().tree() != self.baseline()
    }

    /// What has to be rendered: the diff from the last rendered value to the
    /// current one.
    pub open spec fn pending(&self) -> Seq<Edit> {
        delta(self.baseline(), self.current().tree())
    }

    /// A container that holds `value`, taken as rendered.
    pub fn new(value: V) -> (state: State<V>)
        ensures
            state.current() == value,
            state.baseline() == value.tree(),
            !state.changed(),
    {
        let last = value.duplicate();
        State { current: value, last }
    }

    /// The current value.
    pub fn get(&self) -> (value: &V)
        ensures
            *value == self.current(),
    {
        &self.current
    }

    /// The current value, for the caller to change. What was last rendered stays.
    pub fn get_mut(&mut self) -> (value: &mut V)
        ensures
            *value == old(self).current(),
            final(self).current() == *final(value),
            final(self).baseline() == old(self).baseline(),
    {
        &mut self.current
    }

    /// Whether the current value differs from what was last rendered.
    pub fn has_changed(&self) -> (changed: bool)
        ensures
            changed == self.changed(),
    {
        let now = self.current.encode();
        let before = self.last.encode();
        !now.same(&before)
    }

    /// The diff from what was last rendered to the current value.
    pub fn diff(&self) -> (changes: Vec<Change>)
        ensures
            edits(changes@) == self.pending(),
    {
        let now = self.current.encode();
        let before = self.last.encode();
        diff_values(&before, &now)
    }

    /// Takes the current value as rendered.
    pub fn snapshot(&mut self)
        ensures
            final(self).current() == old(self).current(),
            final(self).baseline() == old(self).current().tree(),
            !final(self).changed(),
    {
        self.last = self.current.duplicate();
    }

    /// The diff is a function of the container: asked twice with nothing
    /// changed in between, it is the same, and so is the answer to whether
    /// anything has changed.
    pub proof fn lemma_diff_repeats(&self, again: &State<V>)
        requires
            again.current().tree() == self.current().tree(),
            again.baseline() == self.baseline(),
        ensures
            again.pending() == self.pending(),
            again.changed() == self.changed(),
    {
    }

    /// A container whose value has not changed has an empty diff.
    pub proof fn lemma_unchanged_has_no_diff(&self)
        requires
            !self.changed(),
            self.baseline().wf(),
        ensures
            self.pending() == Seq::<Edit>::empty(),
    {
        lemma_delta_same(self.baseline());
    }

    /// The diff, applied to what was last rendered, gives the current value.
    pub proof fn lemma_diff_brings_up_to_date(&self)
        requires
            self.current().tree().wf(),
        ensures
            patch(doc(self.baseline()), self.pending()) == doc(self.current().tree()),
    {
        lemma_round_trip(self.baseline(), self.current().tree());
    }
}

} // verus!

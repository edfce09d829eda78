//! State as a tree: scalars, lists and records.

use vstd::prelude::*;
use vstd::string::*;

verus! {

/// A state value seen as an ordered labelled tree: scalars are leaves, a list
/// has one child per position and a record one child per field name.
pub enum Tree {
    Null,
    Bool(bool),
    Int(int),
    Text(Seq<char>),
    List(Seq<Tree>),
    Record(Seq<Entry>),
}

/// One field of a record: its name and the subtree under it.
pub struct Entry {
    pub name: Seq<char>,
    pub value: Tree,
}

/// The executable form of a [`Tree`].
#[derive(Debug, PartialEq, Eq)]
pub enum Value {
    Null,
    Bool(bool),
    Int(i128),
    Text(String),
    List(Vec<Value>),
    Record(Vec<(String, Value)>),
}

impl View for Value {
    type V = Tree;

    open spec fn view(&self) -> Tree
        decreases self,
    {
        match self {
            Value::Null => Tree::Null,
            Value::Bool(b) => Tree::Bool(*b),
            Value::Int(n) => Tree::Int(*n as int),
            Value::Text(s) => Tree::Text(s@),
            Value::List(items) => Tree::List(
                Seq::new(
                    items@.len(),
                    |i: int|
                        if 0 <= i < items@.len() {
                            items@[i].view()
                        } else {
                            Tree::Null
                        },
                ),
            ),
            Value::Record(fields) => Tree::Record(
                Seq::new(
                    fields@.len(),
                    |i: int|
                        if 0 <= i < fields@.len() {
                            Entry { name: fields@[i].0@, value: fields@[i].1.view() }
                        } else {
                            Entry { name: Seq::empty(), value: Tree::Null }
                        },
                ),
            ),
        }
    }
}

impl Value {
    /// A deep copy.
    #[verifier::loop_isolation(false)]
    pub fn duplicate(&self) -> (copy: Value)
        ensures
            copy@ == self@,
        decreases self,
    {
        match self {
            Value::Null => Value::Null,
            Value::Bool(b) => Value::Bool(*b),
            Value::Int(n) => Value::Int(*n),
            Value::Text(s) => Value::Text(s.clone()),
            Value::List(items) => {
                let mut out: Vec<Value> = Vec::new();
                let mut i: usize = 0;
                while i < items.len()
                    invariant
                        i <= items.len(),
                        out@.len() == i,
                        forall|j: int| 0 <= j < i ==> out@[j]@ == items@[j]@,
                    decreases items.len() - i,
                {
                    out.push(items[i].duplicate());
                    i += 1;
                }
                let copy = Value::List(out);
                assert(copy@->List_0 =~= self@->List_0);
                copy
            },
            Value::Record(fields) => {
                let mut out: Vec<(String, Value)> = Vec::new();
                let mut i: usize = 0;
                while i < fields.len()
                    invariant
                        i <= fields.len(),
                        out@.len() == i,
                        forall|j: int|
                            0 <= j < i ==> out@[j].0@ == fields@[j].0@ && out@[j].1@
                                == fields@[j].1@,
                    decreases fields.len() - i,
                {
                    out.push((fields[i].0.clone(), fields[i].1.duplicate()));
                    i += 1;
                }
                let copy = Value::Record(out);
                assert(copy@->Record_0 =~= self@->Record_0);
                copy
            },
        }
    }

    /// Structural equality of two values.
    #[verifier::loop_isolation(false)]
    pub fn same(&self, other: &Value) -> (equal: bool)
        ensures
            equal == (self@ == other@),
        decreases self,
    {
        match (self, other) {
            (Value::Null, Value::Null) => true,
            (Value::Bool(a), Value::Bool(b)) => *a == *b,
            (Value::Int(a), Value::Int(b)) => *a == *b,
            (Value::Text(a), Value::Text(b)) => *a == *b,
            (Value::List(a), Value::List(b)) => {
                if a.len() != b.len() {
                    assert(self@->List_0.len() != other@->List_0.len());
                    return false;
                }
                let mut i: usize = 0;
                while i < a.len()
                    invariant
                        i <= a.len(),
                        a.len() == b.len(),
                        forall|j: int| 0 <= j < i ==> a@[j]@ == b@[j]@,
                    decreases a.len() - i,
                {
                    if !a[i].same(&b[i]) {
                        assert(self@->List_0[i as int] != other@->List_0[i as int]);
                        return false;
                    }
                    i += 1;
                }
                assert(self@->List_0 =~= other@->List_0);
                true
            },
            (Value::Record(a), Value::Record(b)) => {
                if a.len() != b.len() {
                    assert(self@->Record_0.len() != other@->Record_0.len());
                    return false;
                }
                let mut i: usize = 0;
                while i < a.len()
                    invariant
                        i <= a.len(),
                        a.len() == b.len(),
                        forall|j: int|
                            0 <= j < i ==> a@[j].0@ == b@[j].0@ && a@[j].1@ == b@[j].1@,
                    decreases a.len() - i,
                {
                    if a[i].0 != b[i].0 || !a[i].1.same(&b[i].1) {
                        assert(self@->Record_0[i as int] != other@->Record_0[i as int]);
                        return false;
                    }
                    i += 1;
                }
                assert(self@->Record_0 =~= other@->Record_0);
                true
            },
            _ => false,
        }
    }
}

/// The entries that a list of named values stands for.
pub open spec fn entries(fields: Seq<(String, Value)>) -> Seq<Entry> {
    Seq::new(fields.len(), |i: int| Entry { name: fields[i].0@, value: fields[i].1@ })
}

/// A record has the entries of its fields.
pub proof fn lemma_record_view(value: Value)
    requires
        value is Record,
    ensures
        value@ == Tree::Record(entries(value->Record_0@)),
{
    assert(value@->Record_0 =~= entries(value->Record_0@));
}

/// Adds the field `name` with `value` behind the fields gathered so far.
pub fn put(fields: &mut Vec<(String, Value)>, name: &str, value: Value)
    ensures
        entries(final(fields)@) == entries(old(fields)@).push(Entry { name: name@, value: value@ }),
{
    fields.push((String::from_str(name), value));
    assert(entries(fields@) =~= entries(old(fields)@).push(Entry { name: name@, value: value@ }));
}

/// The record with the fields gathered.
pub fn record(fields: Vec<(String, Value)>) -> (value: Value)
    ensures
        value@ == Tree::Record(entries(fields@)),
{
    let value = Value::Record(fields);
    proof {
        lemma_record_view(value);
    }
    value
}

/// The list with the items gathered, whose trees are `trees`.
pub(crate) fn list(items: Vec<Value>, Ghost(trees): Ghost<Seq<Tree>>) -> (value: Value)
    requires
        trees.len() == items@.len(),
        forall|i: int| 0 <= i < items@.len() ==> (#[trigger] items@[i])@ == trees[i],
    ensures
        value@ == Tree::List(trees),
{
    let value = Value::List(items);
    assert(value@->List_0 =~= trees);
    value
}

} // verus!

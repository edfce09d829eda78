//! Applying the operations of a diff to a value, as a consumer of the diff does.

use crate::diff::{find, find_from, steps, Change, Edit, Key, Step};
use crate::patch::{
    apply, doc, docs, keyed, lemma_doc_of_list, lemma_doc_of_record, lemma_find_from, patch, Doc,
};
use crate::tree::{entries, lemma_record_view, Entry, Tree, Value};
use vstd::prelude::*;

verus! {

impl Edit {
    /// This operation seen from the node that its path reaches after `depth`
    /// steps.
    pub open spec fn from_depth(self, depth: int) -> Edit {
        match self {
            Edit::Added(p, v) => Edit::Added(p.skip(depth), v),
            Edit::Removed(p) => Edit::Removed(p.skip(depth)),
            Edit::Modified(p, old, new) => Edit::Modified(p.skip(depth), old, new),
        }
    }
}

/// The first field of a name is found.
proof fn lemma_find_first(fields: Seq<Entry>, name: Seq<char>, at: int)
    requires
        0 <= at < fields.len(),
        fields[at].name == name,
        forall|k: int| 0 <= k < at ==> (#[trigger] fields[k]).name != name,
    ensures
        find(fields, name) == Some(at),
{
    lemma_find_from(fields, name, 0);
}

/// A name that no field has is not found.
proof fn lemma_find_absent(fields: Seq<Entry>, name: Seq<char>)
    requires
        forall|k: int| 0 <= k < fields.len() ==> (#[trigger] fields[k]).name != name,
    ensures
        find(fields, name) is None,
{
    lemma_find_from(fields, name, 0);
}

/// Two maps have the same document, or none, under `name`.
pub open spec fn agree(a: Map<Seq<char>, Doc>, b: Map<Seq<char>, Doc>, name: Seq<char>) -> bool {
    a.dom().contains(name) == b.dom().contains(name) && (a.dom().contains(name) ==> a[name]
        == b[name])
}

/// Two maps that agree under every name are one map.
proof fn lemma_same_map(a: Map<Seq<char>, Doc>, b: Map<Seq<char>, Doc>)
    requires
        forall|x: Seq<char>| #[trigger] agree(a, b, x),
    ensures
        a == b,
{
    assert forall|x: Seq<char>| #[trigger] a.dom().contains(x) == b.dom().contains(x) by {
        assert(agree(a, b, x));
    }
    assert(a.dom() =~= b.dom());
    assert forall|x: Seq<char>| #[trigger] a.dom().contains(x) implies a[x] == b[x] by {
        assert(agree(a, b, x));
    }
    assert(a =~= b);
}

/// Replacing the value of a field that is the first of its name replaces its
/// document.
proof fn lemma_keyed_replace(fields: Seq<Entry>, at: int, value: Tree)
    requires
        0 <= at < fields.len(),
        find(fields, fields[at].name) == Some(at),
    ensures
        keyed(fields.update(at, Entry { name: fields[at].name, value })) == keyed(fields).insert(
            fields[at].name,
            doc(value),
        ),
{
    let after = fields.update(at, Entry { name: fields[at].name, value });
    let want = keyed(fields).insert(fields[at].name, doc(value));
    assert forall|x: Seq<char>| #[trigger] agree(keyed(after), want, x) by {
        lemma_find_from(fields, x, 0);
        match find(fields, x) {
            Some(j) => {
                lemma_find_first(after, x, j);
            },
            None => {
                lemma_find_absent(after, x);
            },
        }
    }
    lemma_same_map(keyed(after), want);
}

/// A field of a new name behind the others adds its document.
proof fn lemma_keyed_push(fields: Seq<Entry>, name: Seq<char>, value: Tree)
    requires
        find(fields, name) is None,
    ensures
        keyed(fields.push(Entry { name, value })) == keyed(fields).insert(name, doc(value)),
{
    let after = fields.push(Entry { name, value });
    let want = keyed(fields).insert(name, doc(value));
    assert forall|x: Seq<char>| #[trigger] agree(keyed(after), want, x) by {
        lemma_find_from(fields, x, 0);
        match find(fields, x) {
            Some(j) => {
                lemma_find_first(after, x, j);
            },
            None => {
                if x == name {
                    lemma_find_first(after, x, fields.len() as int);
                } else {
                    lemma_find_absent(after, x);
                }
            },
        }
    }
    lemma_same_map(keyed(after), want);
}

/// Taking a field out leaves the documents under every other name.
proof fn lemma_keyed_remove(fields: Seq<Entry>, at: int, other: Seq<char>)
    requires
        0 <= at < fields.len(),
        fields[at].name != other,
    ensures
        agree(keyed(fields.remove(at)), keyed(fields), other),
{
    let after = fields.remove(at);
    lemma_find_from(fields, other, 0);
    match find(fields, other) {
        Some(j) => {
            let moved = if j < at {
                j
            } else {
                j - 1
            };
            assert(after[moved] == fields[j]);
            assert forall|k: int| 0 <= k < moved implies (#[trigger] after[k]).name != other by {
                if k < at {
                    assert(after[k] == fields[k]);
                } else {
                    assert(after[k] == fields[k + 1]);
                }
            }
            lemma_find_first(after, other, moved);
        },
        None => {
            assert forall|k: int| 0 <= k < after.len() implies (#[trigger] after[k]).name != other by {
                if k < at {
                    assert(after[k] == fields[k]);
                } else {
                    assert(after[k] == fields[k + 1]);
                }
            }
            lemma_find_absent(after, other);
        },
    }
}

/// Position of the first field called `name`.
fn position(fields: &Vec<(String, Value)>, name: &String) -> (found: Option<usize>)
    ensures
        match found {
            Some(k) => k < fields@.len() && find(entries(fields@), name@) == Some(k as int),
            None => find(entries(fields@), name@) is None,
        },
{
    let ghost model = entries(fields@);
    let mut i: usize = 0;
    while i < fields.len() && fields[i].0 != *name
        invariant
            i <= fields@.len(),
            model == entries(fields@),
            find_from(model, name@, 0) == find_from(model, name@, i as int),
        decreases fields@.len() - i,
    {
        i += 1;
    }
    if i < fields.len() {
        Some(i)
    } else {
        None
    }
}

/// Takes every field called `name` out of `fields`.
fn remove_fields(fields: &mut Vec<(String, Value)>, name: &String)
    ensures
        keyed(entries(final(fields)@)) == keyed(entries(old(fields)@)).remove(name@),
{
    let ghost before = keyed(entries(fields@));
    loop
        invariant
            forall|x: Seq<char>| x != name@ ==> #[trigger] agree(keyed(entries(fields@)), before, x),
            before == keyed(entries(old(fields)@)),
        ensures
            find(entries(fields@), name@) is None,
        decreases fields@.len(),
    {
        match position(fields, name) {
            Some(k) => {
                let ghost now = entries(fields@);
                fields.remove(k);
                proof {
                    lemma_find_from(now, name@, 0);
                    assert(entries(fields@) =~= now.remove(k as int));
                    assert forall|x: Seq<char>| x != name@ implies #[trigger] agree(
                        keyed(entries(fields@)),
                        before,
                        x,
                    ) by {
                        lemma_keyed_remove(now, k as int, x);
                        assert(agree(keyed(now), before, x));
                    }
                }
            },
            None => {
                break;
            },
        }
    }
    proof {
        let after = keyed(entries(fields@));
        let want = before.remove(name@);
        assert forall|x: Seq<char>| #[trigger] agree(after, want, x) by {
            if x != name@ {
                assert(agree(after, before, x));
            }
        }
        lemma_same_map(after, want);
    }
}

/// The path of a change.
fn path_of(change: &Change) -> (path: &Vec<Key>)
    ensures
        steps(path@) == change@.path(),
{
    match change {
        Change::Added(p, _) => p,
        Change::Removed(p) => p,
        Change::Modified(p, _, _) => p,
    }
}

/// The trees of the items of a list.
pub open spec fn trees(items: Seq<Value>) -> Seq<Tree> {
    Seq::new(items.len(), |i: int| items[i]@)
}

/// The document of a list value.
proof fn lemma_doc_of_items(value: Value)
    requires
        value is List,
    ensures
        doc(value@) == Doc::List(docs(trees(value->List_0@))),
{
    assert(value@->List_0 =~= trees(value->List_0@));
    lemma_doc_of_list(value@->List_0);
}

/// The document of a record value.
proof fn lemma_doc_of_fields(value: Value)
    requires
        value is Record,
    ensures
        doc(value@) == Doc::Record(keyed(entries(value->Record_0@))),
{
    lemma_record_view(value);
    lemma_doc_of_record(entries(value->Record_0@));
}

/// The next step of the path of `edit`, seen from `depth`, is the step at
/// `depth`, and what follows it is seen from one step further.
proof fn lemma_from_depth(edit: Edit, depth: int)
    requires
        0 <= depth < edit.path().len(),
    ensures
        edit.from_depth(depth).path().len() == edit.path().len() - depth,
        edit.from_depth(depth).path()[0] == edit.path()[depth],
        edit.from_depth(depth).inner() == edit.from_depth(depth + 1),
{
    assert(edit.path().skip(depth).skip(1) =~= edit.path().skip(depth + 1));
}

/// Puts `value` under `name`: in place of the first field of that name, or
/// behind the fields.
fn set_field(fields: &mut Vec<(String, Value)>, name: &String, value: Value)
    ensures
        keyed(entries(final(fields)@)) == keyed(entries(old(fields)@)).insert(name@, doc(value@)),
{
    let ghost before = entries(fields@);
    match position(fields, name) {
        Some(k) => {
            proof {
                lemma_find_from(before, name@, 0);
            }
            fields[k].1 = value;
            proof {
                assert(entries(fields@) =~= before.update(
                    k as int,
                    Entry { name: before[k as int].name, value: value@ },
                ));
                lemma_keyed_replace(before, k as int, value@);
            }
        },
        None => {
            fields.push((name.clone(), value));
            proof {
                assert(entries(fields@) =~= before.push(Entry { name: name@, value: value@ }));
                lemma_keyed_push(before, name@, value@);
            }
        },
    }
}

/// Hands a change to the first field called `name`, if there is one.
fn descend_field(fields: &mut Vec<(String, Value)>, name: &String, change: &Change, next: usize)
    requires
        0 < next <= change@.path().len(),
    ensures
        keyed(entries(final(fields)@)) == if keyed(entries(old(fields)@)).dom().contains(name@) {
            keyed(entries(old(fields)@)).insert(
                name@,
                apply(keyed(entries(old(fields)@))[name@], change@.from_depth(next as int)),
            )
        } else {
            keyed(entries(old(fields)@))
        },
    decreases change@.path().len() - next, 2nat,
{
    let ghost before = entries(fields@);
    match position(fields, name) {
        Some(k) => {
            proof {
                lemma_find_from(before, name@, 0);
            }
            apply_from(&mut fields[k].1, change, next);
            proof {
                let value = fields@[k as int].1@;
                assert(entries(fields@) =~= before.update(
                    k as int,
                    Entry { name: before[k as int].name, value },
                ));
                lemma_keyed_replace(before, k as int, value);
            }
        },
        None => {},
    }
}

/// Hands a change to the item at `i`, if there is one.
fn descend_item(items: &mut Vec<Value>, i: usize, change: &Change, next: usize)
    requires
        0 < next <= change@.path().len(),
    ensures
        docs(trees(final(items)@)) == if i < old(items)@.len() {
            docs(trees(old(items)@)).update(
                i as int,
                apply(docs(trees(old(items)@))[i as int], change@.from_depth(next as int)),
            )
        } else {
            docs(trees(old(items)@))
        },
    decreases change@.path().len() - next, 2nat,
{
    if i < items.len() {
        let ghost before = docs(trees(items@));
        apply_from(&mut items[i], change, next);
        assert(docs(trees(items@)) =~= before.update(
            i as int,
            apply(before[i as int], change@.from_depth(next as int)),
        ));
    }
}

/// Applies a change to the node that its path reaches after `depth` steps.
fn apply_from(value: &mut Value, change: &Change, depth: usize)
    requires
        depth <= change@.path().len(),
    ensures
        doc(final(value)@) == apply(doc(old(value)@), change@.from_depth(depth as int)),
    decreases change@.path().len() - depth, 1nat,
{
    let path = path_of(change);
    let ghost edit = change@.from_depth(depth as int);
    assert(steps(path@).len() == path@.len());
    if depth >= path.len() {
        assert(edit.path().len() == 0);
        match change {
            Change::Added(_, v) => {
                *value = v.duplicate();
            },
            Change::Removed(_) => {
                *value = Value::Null;
            },
            Change::Modified(_, _, new) => {
                *value = new.duplicate();
            },
        }
        return ;
    }
    proof {
        lemma_from_depth(change@, depth as int);
        assert(steps(path@)[depth as int] == path@[depth as int]@);
        if *value is List {
            lemma_doc_of_items(*value);
        }
        if *value is Record {
            lemma_doc_of_fields(*value);
        }
    }
    let last = depth + 1 == path.len();
    match value {
        Value::List(items) => {
            let ghost before = docs(trees(items@));
            match &path[depth] {
                Key::Index(i) => {
                    match change {
                        Change::Added(_, v) => {
                            if last {
                                if *i <= items.len() {
                                    items.insert(*i, v.duplicate());
                                    assert(docs(trees(items@)) =~= before.insert(*i as int, doc(v@)));
                                }
                            } else {
                                descend_item(items, *i, change, depth + 1);
                            }
                        },
                        Change::Removed(_) => {
                            if last {
                                if *i < items.len() {
                                    items.remove(*i);
                                    assert(docs(trees(items@)) =~= before.remove(*i as int));
                                }
                            } else {
                                descend_item(items, *i, change, depth + 1);
                            }
                        },
                        Change::Modified(_, _, _) => {
                            descend_item(items, *i, change, depth + 1);
                        },
                    }
                },
                Key::Field(_) => {},
            }
            proof {
                lemma_doc_of_items(Value::List(*items));
            }
        },
        Value::Record(fields) => {
            match &path[depth] {
                Key::Field(name) => {
                    match change {
                        Change::Added(_, v) => {
                            if last {
                                set_field(fields, name, v.duplicate());
                            } else {
                                descend_field(fields, name, change, depth + 1);
                            }
                        },
                        Change::Removed(_) => {
                            if last {
                                remove_fields(fields, name);
                            } else {
                                descend_field(fields, name, change, depth + 1);
                            }
                        },
                        Change::Modified(_, _, _) => {
                            descend_field(fields, name, change, depth + 1);
                        },
                    }
                },
                Key::Index(_) => {},
            }
            proof {
                lemma_doc_of_fields(Value::Record(*fields));
            }
        },
        _ => {},
    }
}

/// Applies one change of a diff to a value: what the consumer of a diff does
/// with one operation.
pub fn apply_change(value: &mut Value, change: &Change)
    ensures
        doc(final(value)@) == apply(doc(old(value)@), change@),
{
    assert(change@.from_depth(0) == change@) by {
        assert(change@.path().skip(0) =~= change@.path());
    }
    apply_from(value, change, 0);
}

/// Applies the changes of a diff to a value, in their order.
pub fn patch_value(value: &mut Value, changes: &Vec<Change>)
    ensures
        doc(final(value)@) == patch(doc(old(value)@), crate::diff::edits(changes@)),
{
    let ghost all = crate::diff::edits(changes@);
    assert(all.skip(0) =~= all);
    let mut i: usize = 0;
    while i < changes.len()
        invariant
            i <= changes@.len(),
            all == crate::diff::edits(changes@),
            patch(doc(value@), all.skip(i as int)) == patch(doc(old(value)@), all),
        decreases changes@.len() - i,
    {
        proof {
            assert(all.skip(i as int)[0] == changes@[i as int]@);
            assert(all.skip(i as int).skip(1) =~= all.skip(i + 1));
        }
        apply_change(value, &changes[i]);
        i += 1;
    }
    assert(all.skip(i as int) =~= Seq::<Edit>::empty());
}

} // verus!

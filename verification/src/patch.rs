//! What applying a diff means, and the proof that the diff from one tree to another turns
//! the one into the other.

use crate::diff::{
    delta, delta_field, delta_fields, delta_items, dropped, find, find_from, surplus, under, Edit,
    Step,
};
use crate::tree::{Entry, Tree, Value};
use vstd::prelude::*;

verus! {

/// A tree as the consumer of a diff keeps it: a record is a map from names to
/// documents, the order of its fields plays no part.
pub enum Doc {
    Null,
    Bool(bool),
    Int(int),
    Text(Seq<char>),
    List(Seq<Doc>),
    Record(Map<Seq<char>, Doc>),
}

/// The document that a tree stands for. Of two fields of one name the first
/// counts.
pub open spec fn doc(t: Tree) -> Doc
    decreases t,
{
    match t {
        Tree::Null => Doc::Null,
        Tree::Bool(b) => Doc::Bool(b),
        Tree::Int(n) => Doc::Int(n),
        Tree::Text(s) => Doc::Text(s),
        Tree::List(items) => Doc::List(
            Seq::new(
                items.len(),
                |i: int|
                    if 0 <= i < items.len() {
                        doc(items[i])
                    } else {
                        Doc::Null
                    },
            ),
        ),
        Tree::Record(fields) => Doc::Record(
            Map::new(
                |name: Seq<char>| find(fields, name) is Some,
                |name: Seq<char>|
                    match find(fields, name) {
                        Some(i) => if 0 <= i < fields.len() {
                            doc(fields[i].value)
                        } else {
                            Doc::Null
                        },
                        None => Doc::Null,
                    },
            ),
        ),
    }
}

impl Tree {
    /// No record of the tree has two fields of one name.
    pub open spec fn wf(self) -> bool
        decreases self,
    {
        match self {
            Tree::List(items) => forall|i: int| 0 <= i < items.len() ==> (#[trigger] items[i]).wf(),
            Tree::Record(fields) => {
                &&& forall|i: int, j: int|
                    0 <= i < j < fields.len() ==> (#[trigger] fields[i]).name != (
                    #[trigger] fields[j]).name
                &&& forall|i: int| 0 <= i < fields.len() ==> (#[trigger] fields[i]).value.wf()
            },
            _ => true,
        }
    }
}

impl Edit {
    /// This operation seen from the child that its path enters first.
    pub open spec fn inner(self) -> Edit {
        match self {
            Edit::Added(p, v) => Edit::Added(p.skip(1), v),
            Edit::Removed(p) => Edit::Removed(p.skip(1)),
            Edit::Modified(p, old, new) => Edit::Modified(p.skip(1), old, new),
        }
    }
}

/// The document after one operation of a diff.
///
/// With an empty path the operation is about the document itself: what is
/// added or modified takes its place, what is removed leaves null. `Added` and
/// `Removed` with a path of one step put a child into a list or a record, or
/// take it out: a list takes the child in at the position named and closes up
/// behind one that leaves. Any other operation is handed to the child that its
/// path enters. An operation that names no such child changes nothing.
pub open spec fn apply(d: Doc, e: Edit) -> Doc
    decreases e.path().len(),
{
    let p = e.path();
    if p.len() == 0 {
        match e {
            Edit::Added(_, v) => doc(v),
            Edit::Removed(_) => Doc::Null,
            Edit::Modified(_, _, new) => doc(new),
        }
    } else {
        match (d, p[0], e) {
            (Doc::List(items), Step::Index(i), Edit::Added(_, v)) => if p.len() == 1 {
                if 0 <= i <= items.len() {
                    Doc::List(items.insert(i, doc(v)))
                } else {
                    d
                }
            } else if 0 <= i < items.len() {
                Doc::List(items.update(i, apply(items[i], e.inner())))
            } else {
                d
            },
            (Doc::List(items), Step::Index(i), Edit::Removed(_)) => if 0 <= i < items.len() {
                if p.len() == 1 {
                    Doc::List(items.remove(i))
                } else {
                    Doc::List(items.update(i, apply(items[i], e.inner())))
                }
            } else {
                d
            },
            (Doc::List(items), Step::Index(i), Edit::Modified(_, _, _)) => if 0 <= i < items.len() {
                Doc::List(items.update(i, apply(items[i], e.inner())))
            } else {
                d
            },
            (Doc::Record(fields), Step::Field(name), Edit::Added(_, v)) => if p.len() == 1 {
                Doc::Record(fields.insert(name, doc(v)))
            } else if fields.dom().contains(name) {
                Doc::Record(fields.insert(name, apply(fields[name], e.inner())))
            } else {
                d
            },
            (Doc::Record(fields), Step::Field(name), Edit::Removed(_)) => if p.len() == 1 {
                Doc::Record(fields.remove(name))
            } else if fields.dom().contains(name) {
                Doc::Record(fields.insert(name, apply(fields[name], e.inner())))
            } else {
                d
            },
            (Doc::Record(fields), Step::Field(name), Edit::Modified(_, _, _)) => if fields.dom().contains(
                name,
            ) {
                Doc::Record(fields.insert(name, apply(fields[name], e.inner())))
            } else {
                d
            },
            _ => d,
        }
    }
}

/// The document after the operations of a diff, applied in their order.
pub open spec fn patch(d: Doc, es: Seq<Edit>) -> Doc
    decreases es.len(),
{
    if es.len() == 0 {
        d
    } else {
        patch(apply(d, es[0]), es.skip(1))
    }
}

/// Applying two diffs in a row is applying the one after the other.
pub proof fn lemma_patch_concat(d: Doc, front: Seq<Edit>, back: Seq<Edit>)
    ensures
        patch(d, front + back) == patch(patch(d, front), back),
    decreases front.len(),
{
    if front.len() == 0 {
        assert(front + back =~= back);
    } else {
        assert((front + back)[0] == front[0]);
        assert((front + back).skip(1) =~= front.skip(1) + back);
        lemma_patch_concat(apply(d, front[0]), front.skip(1), back);
    }
}

/// A diff of one operation.
pub proof fn lemma_patch_one(d: Doc, e: Edit)
    ensures
        patch(d, seq![e]) == apply(d, e),
{
    assert(seq![e].skip(1) =~= Seq::<Edit>::empty());
    assert(patch(apply(d, e), seq![e].skip(1)) == apply(d, e));
}

/// What `find_from` finds is the first field of that name from `start` on.
pub proof fn lemma_find_from(fields: Seq<Entry>, name: Seq<char>, start: int)
    requires
        0 <= start,
    ensures
        match find_from(fields, name, start) {
            Some(i) => {
                &&& start <= i < fields.len()
                &&& fields[i].name == name
                &&& forall|k: int| start <= k < i ==> (#[trigger] fields[k]).name != name
            },
            None => forall|k: int| start <= k < fields.len() ==> (#[trigger] fields[k]).name != name,
        },
    decreases fields.len() - start,
{
    if start < fields.len() && fields[start].name != name {
        lemma_find_from(fields, name, start + 1);
    }
}

/// In a record without two fields of one name, a field is found where it
/// stands.
pub proof fn lemma_find_distinct(fields: Seq<Entry>, at: int)
    requires
        0 <= at < fields.len(),
        forall|i: int, j: int|
            0 <= i < j < fields.len() ==> (#[trigger] fields[i]).name != (#[trigger] fields[j]).name,
    ensures
        find(fields, fields[at].name) == Some(at),
{
    lemma_find_from(fields, fields[at].name, 0);
}

/// Two nodes of one shape: two scalars, two lists or two records.
pub open spec fn same_shape(a: Tree, b: Tree) -> bool {
    (a is List && b is List) || (a is Record && b is Record) || (a.is_leaf() && b.is_leaf())
}

/// Every operation is about a node below the one compared.
pub open spec fn deep(es: Seq<Edit>) -> bool {
    forall|k: int| 0 <= k < es.len() ==> (#[trigger] es[k]).path().len() > 0
}

/// No operation removes the node compared or adds it.
pub open spec fn rooted(es: Seq<Edit>) -> bool {
    forall|k: int| 0 <= k < es.len() ==> (#[trigger] es[k]).path().len() > 0 || es[k] is Modified
}

proof fn lemma_deep_under(step: Step, es: Seq<Edit>)
    ensures
        deep(under(seq![step], es)),
{
}

proof fn lemma_deep_concat(front: Seq<Edit>, back: Seq<Edit>)
    requires
        deep(front),
        deep(back),
    ensures
        deep(front + back),
{
}

proof fn lemma_deep_surplus(from: int, to: int)
    ensures
        deep(surplus(from, to)),
    decreases from - to,
{
    if from > to {
        lemma_deep_surplus(from - 1, to);
        lemma_deep_concat(seq![Edit::Removed(seq![Step::Index(from - 1)])], surplus(from - 1, to));
    }
}

proof fn lemma_deep_items(xs: Seq<Tree>, ys: Seq<Tree>, i: nat)
    ensures
        deep(delta_items(xs, ys, i)),
    decreases ys.len() - i,
{
    if i >= ys.len() {
        lemma_deep_surplus(xs.len() as int, ys.len() as int);
    } else {
        lemma_deep_items(xs, ys, i + 1);
        if i < xs.len() {
            let head = under(seq![Step::Index(i as int)], delta(xs[i as int], ys[i as int]));
            lemma_deep_under(Step::Index(i as int), delta(xs[i as int], ys[i as int]));
            lemma_deep_concat(head, delta_items(xs, ys, i + 1));
        } else {
            lemma_deep_concat(
                seq![Edit::Added(seq![Step::Index(i as int)], ys[i as int])],
                delta_items(xs, ys, i + 1),
            );
        }
    }
}

proof fn lemma_deep_dropped(fa: Seq<Entry>, fb: Seq<Entry>, i: nat)
    ensures
        deep(dropped(fa, fb, i)),
    decreases fa.len() - i,
{
    if i < fa.len() {
        lemma_deep_dropped(fa, fb, i + 1);
        if find(fb, fa[i as int].name) is None {
            lemma_deep_concat(
                seq![Edit::Removed(seq![Step::Field(fa[i as int].name)])],
                dropped(fa, fb, i + 1),
            );
        }
    }
}

proof fn lemma_deep_fields(fa: Seq<Entry>, fb: Seq<Entry>, j: nat)
    ensures
        deep(delta_fields(fa, fb, j)),
    decreases fb.len() - j,
{
    if j >= fb.len() {
        lemma_deep_dropped(fa, fb, 0);
    } else {
        lemma_deep_fields(fa, fb, j + 1);
        let e = fb[j as int];
        match find(fa, e.name) {
            Some(i) => {
                lemma_deep_under(Step::Field(e.name), delta(fa[i].value, e.value));
            },
            None => {},
        }
        lemma_deep_concat(delta_field(fa, e), delta_fields(fa, fb, j + 1));
    }
}

/// The diff of two nodes of one shape keeps the node compared.
pub proof fn lemma_delta_rooted(a: Tree, b: Tree)
    requires
        same_shape(a, b),
    ensures
        rooted(delta(a, b)),
{
    match (a, b) {
        (Tree::List(xs), Tree::List(ys)) => {
            lemma_deep_items(xs, ys, 0);
        },
        (Tree::Record(fa), Tree::Record(fb)) => {
            lemma_deep_fields(fa, fb, 0);
        },
        _ => {},
    }
}

/// An operation that keeps the node it starts at, seen from the list above,
/// works on the item that it starts at.
proof fn lemma_apply_in_list(items: Seq<Doc>, i: int, e: Edit)
    requires
        0 <= i < items.len(),
        e.path().len() > 0 || e is Modified,
    ensures
        apply(Doc::List(items), e.under(seq![Step::Index(i)])) == Doc::List(
            items.update(i, apply(items[i], e)),
        ),
{
    let up = e.under(seq![Step::Index(i)]);
    assert(up.path() =~= seq![Step::Index(i)] + e.path());
    assert(up.path().skip(1) =~= e.path());
    assert(up.inner() == e);
}

/// The same for a diff.
proof fn lemma_patch_in_list(items: Seq<Doc>, i: int, es: Seq<Edit>)
    requires
        0 <= i < items.len(),
        rooted(es),
    ensures
        patch(Doc::List(items), under(seq![Step::Index(i)], es)) == Doc::List(
            items.update(i, patch(items[i], es)),
        ),
    decreases es.len(),
{
    let one = seq![Step::Index(i)];
    if es.len() == 0 {
        assert(items.update(i, items[i]) =~= items);
    } else {
        lemma_apply_in_list(items, i, es[0]);
        let next = items.update(i, apply(items[i], es[0]));
        assert(under(one, es)[0] == es[0].under(one));
        assert(under(one, es).skip(1) =~= under(one, es.skip(1)));
        lemma_patch_in_list(next, i, es.skip(1));
        assert(next.update(i, patch(next[i], es.skip(1))) =~= items.update(i, patch(items[i], es)));
    }
}

/// An operation that keeps the node it starts at, seen from the record above,
/// works on the field that it starts at.
proof fn lemma_apply_in_record(fields: Map<Seq<char>, Doc>, name: Seq<char>, e: Edit)
    requires
        fields.dom().contains(name),
        e.path().len() > 0 || e is Modified,
    ensures
        apply(Doc::Record(fields), e.under(seq![Step::Field(name)])) == Doc::Record(
            fields.insert(name, apply(fields[name], e)),
        ),
{
    let up = e.under(seq![Step::Field(name)]);
    assert(up.path() =~= seq![Step::Field(name)] + e.path());
    assert(up.path().skip(1) =~= e.path());
    assert(up.inner() == e);
}

/// The same for a diff.
proof fn lemma_patch_in_record(fields: Map<Seq<char>, Doc>, name: Seq<char>, es: Seq<Edit>)
    requires
        fields.dom().contains(name),
        rooted(es),
    ensures
        patch(Doc::Record(fields), under(seq![Step::Field(name)], es)) == Doc::Record(
            fields.insert(name, patch(fields[name], es)),
        ),
    decreases es.len(),
{
    let one = seq![Step::Field(name)];
    if es.len() == 0 {
        assert(fields.insert(name, fields[name]) =~= fields);
    } else {
        lemma_apply_in_record(fields, name, es[0]);
        let next = fields.insert(name, apply(fields[name], es[0]));
        assert(under(one, es)[0] == es[0].under(one));
        assert(under(one, es).skip(1) =~= under(one, es.skip(1)));
        lemma_patch_in_record(next, name, es.skip(1));
        assert(next.insert(name, patch(next[name], es.skip(1))) =~= fields.insert(
            name,
            patch(fields[name], es),
        ));
    }
}

/// Where the diff from `x` to `y` turns the one into the other, it does so for
/// an item of a list as well.
proof fn lemma_child_of_list(items: Seq<Doc>, i: int, x: Tree, y: Tree)
    requires
        0 <= i < items.len(),
        items[i] == doc(x),
        patch(doc(x), delta(x, y)) == doc(y),
    ensures
        patch(Doc::List(items), under(seq![Step::Index(i)], delta(x, y))) == Doc::List(
            items.update(i, doc(y)),
        ),
{
    let one = seq![Step::Index(i)];
    if same_shape(x, y) {
        lemma_delta_rooted(x, y);
        lemma_patch_in_list(items, i, delta(x, y));
    } else {
        let es = under(one, delta(x, y));
        let gone = Edit::Removed(one);
        let back = Edit::Added(one, y);
        assert(one + Seq::<Step>::empty() =~= one);
        assert(es =~= seq![gone] + seq![back]);
        lemma_patch_concat(Doc::List(items), seq![gone], seq![back]);
        lemma_patch_one(Doc::List(items), gone);
        lemma_patch_one(Doc::List(items.remove(i)), back);
        assert(items.remove(i).insert(i, doc(y)) =~= items.update(i, doc(y)));
    }
}

/// Where the diff from `x` to `y` turns the one into the other, it does so for
/// a field of a record as well.
proof fn lemma_child_of_record(fields: Map<Seq<char>, Doc>, name: Seq<char>, x: Tree, y: Tree)
    requires
        fields.dom().contains(name),
        fields[name] == doc(x),
        patch(doc(x), delta(x, y)) == doc(y),
    ensures
        patch(Doc::Record(fields), under(seq![Step::Field(name)], delta(x, y))) == Doc::Record(
            fields.insert(name, doc(y)),
        ),
{
    let one = seq![Step::Field(name)];
    if same_shape(x, y) {
        lemma_delta_rooted(x, y);
        lemma_patch_in_record(fields, name, delta(x, y));
    } else {
        let es = under(one, delta(x, y));
        let gone = Edit::Removed(one);
        let back = Edit::Added(one, y);
        assert(one + Seq::<Step>::empty() =~= one);
        assert(es =~= seq![gone] + seq![back]);
        lemma_patch_concat(Doc::Record(fields), seq![gone], seq![back]);
        lemma_patch_one(Doc::Record(fields), gone);
        lemma_patch_one(Doc::Record(fields.remove(name)), back);
        assert(fields.remove(name).insert(name, doc(y)) =~= fields.insert(name, doc(y)));
    }
}

/// The documents of the items of a list.
pub open spec fn docs(items: Seq<Tree>) -> Seq<Doc> {
    Seq::new(
        items.len(),
        |i: int|
            if 0 <= i < items.len() {
                doc(items[i])
            } else {
                Doc::Null
            },
    )
}

/// The documents of the fields of a record, by name.
pub open spec fn keyed(fields: Seq<Entry>) -> Map<Seq<char>, Doc> {
    Map::new(
        |name: Seq<char>| find(fields, name) is Some,
        |name: Seq<char>|
            match find(fields, name) {
                Some(i) => if 0 <= i < fields.len() {
                    doc(fields[i].value)
                } else {
                    Doc::Null
                },
                None => Doc::Null,
            },
    )
}

/// A list on the way from `old` to `new`: the first `i` items are the new
/// ones already, the others are still the old ones.
pub open spec fn merged(old: Seq<Doc>, new: Seq<Doc>, i: int) -> Seq<Doc> {
    new.take(i) + if i <= old.len() {
        old.skip(i)
    } else {
        Seq::empty()
    }
}

/// Whether the field called `name` is among the first `j` of `fields`.
pub open spec fn covered(fields: Seq<Entry>, name: Seq<char>, j: int) -> bool {
    find(fields, name) is Some && find(fields, name)->0 < j
}

/// A record on the way from `fa` to `fb`: the first `j` fields of `fb` are in
/// it as `fb` has them, any other field of `fa` is still as `fa` has it.
pub open spec fn overlay(fa: Seq<Entry>, fb: Seq<Entry>, j: int) -> Map<Seq<char>, Doc> {
    Map::new(
        |name: Seq<char>| covered(fb, name, j) || find(fa, name) is Some,
        |name: Seq<char>|
            if covered(fb, name, j) {
                doc(fb[find(fb, name)->0].value)
            } else {
                doc(fa[find(fa, name)->0].value)
            },
    )
}

/// The documents of a list, as `doc` makes them.
pub proof fn lemma_doc_of_list(items: Seq<Tree>)
    ensures
        doc(Tree::List(items)) == Doc::List(docs(items)),
{
    assert(doc(Tree::List(items))->List_0 =~= docs(items));
}

/// The documents of a record, as `doc` makes them.
pub proof fn lemma_doc_of_record(fields: Seq<Entry>)
    ensures
        doc(Tree::Record(fields)) == Doc::Record(keyed(fields)),
{
    assert(doc(Tree::Record(fields))->Record_0 =~= keyed(fields));
}

/// Taking the surplus of a list off its end leaves its front.
proof fn lemma_surplus_cuts(items: Seq<Doc>, to: int)
    requires
        0 <= to,
    ensures
        patch(Doc::List(items), surplus(items.len() as int, to)) == Doc::List(
            if to <= items.len() {
                items.take(to)
            } else {
                items
            },
        ),
    decreases items.len() - to,
{
    let n = items.len() as int;
    if n > to {
        let gone = Edit::Removed(seq![Step::Index(n - 1)]);
        let shorter = items.remove(n - 1);
        lemma_patch_concat(Doc::List(items), seq![gone], surplus(n - 1, to));
        lemma_patch_one(Doc::List(items), gone);
        lemma_surplus_cuts(shorter, to);
        assert(shorter.take(to) =~= items.take(to));
    } else if n == to {
        assert(items.take(to) =~= items);
    }
}

/// The map has the field called `name` as the new record has it, if that has
/// it.
pub open spec fn has_new(m: Map<Seq<char>, Doc>, fb: Seq<Entry>, name: Seq<char>) -> bool {
    find(fb, name) is Some ==> m.dom().contains(name) && m[name] == keyed(fb)[name]
}

/// The map has the field called `name` only if the new record has it or the
/// old one has it at position `i` or later.
pub open spec fn has_known(
    m: Map<Seq<char>, Doc>,
    fa: Seq<Entry>,
    fb: Seq<Entry>,
    i: int,
    name: Seq<char>,
) -> bool {
    m.dom().contains(name) ==> find(fb, name) is Some || find_from(fa, name, i) is Some
}

/// The fields that only the old record has leave it, and the new record
/// stays.
proof fn lemma_dropped_leaves_new(fa: Seq<Entry>, fb: Seq<Entry>, i: nat, m: Map<Seq<char>, Doc>)
    requires
        i <= fa.len(),
        forall|x: Seq<char>| #[trigger] has_new(m, fb, x),
        forall|x: Seq<char>| #[trigger] has_known(m, fa, fb, i as int, x),
    ensures
        patch(Doc::Record(m), dropped(fa, fb, i)) == Doc::Record(keyed(fb)),
    decreases fa.len() - i,
{
    if i >= fa.len() {
        assert forall|x: Seq<char>| #[trigger]
            m.dom().contains(x) == keyed(fb).dom().contains(x) by {
            assert(has_new(m, fb, x));
            assert(has_known(m, fa, fb, i as int, x));
        }
        assert(m.dom() =~= keyed(fb).dom());
        assert forall|x: Seq<char>| #[trigger] m.dom().contains(x) implies m[x] == keyed(fb)[x] by {
            assert(has_new(m, fb, x));
            assert(has_known(m, fa, fb, i as int, x));
        }
        assert(m =~= keyed(fb));
    } else {
        let name = fa[i as int].name;
        if find(fb, name) is None {
            let gone = Edit::Removed(seq![Step::Field(name)]);
            let less = m.remove(name);
            lemma_patch_concat(Doc::Record(m), seq![gone], dropped(fa, fb, i + 1));
            lemma_patch_one(Doc::Record(m), gone);
            assert forall|x: Seq<char>| #[trigger] has_known(less, fa, fb, (i + 1) as int, x) by {
                assert(has_known(m, fa, fb, i as int, x));
            }
            assert forall|x: Seq<char>| #[trigger] has_new(less, fb, x) by {
                assert(has_new(m, fb, x));
            }
            lemma_dropped_leaves_new(fa, fb, i + 1, less);
        } else {
            assert forall|x: Seq<char>| #[trigger] has_known(m, fa, fb, (i + 1) as int, x) by {
                assert(has_known(m, fa, fb, i as int, x));
            }
            lemma_dropped_leaves_new(fa, fb, i + 1, m);
        }
    }
}

/// The diff of two lists from position `i` on finishes the way from the old
/// list to the new one.
proof fn lemma_items_round_trip(xs: Seq<Tree>, ys: Seq<Tree>, i: nat)
    requires
        i <= ys.len(),
        forall|k: int| 0 <= k < ys.len() ==> (#[trigger] ys[k]).wf(),
    ensures
        patch(Doc::List(merged(docs(xs), docs(ys), i as int)), delta_items(xs, ys, i)) == Doc::List(
            docs(ys),
        ),
    decreases ys, ys.len() - i,
{
    let old = docs(xs);
    let new = docs(ys);
    let now = merged(old, new, i as int);
    if i >= ys.len() {
        lemma_surplus_cuts(now, ys.len() as int);
        if xs.len() > ys.len() {
            assert(now.take(ys.len() as int) =~= new);
        } else {
            assert(now =~= new);
        }
    } else {
        let rest = delta_items(xs, ys, i + 1);
        let next = merged(old, new, (i + 1) as int);
        if i < xs.len() {
            let head = under(seq![Step::Index(i as int)], delta(xs[i as int], ys[i as int]));
            lemma_round_trip(xs[i as int], ys[i as int]);
            lemma_child_of_list(now, i as int, xs[i as int], ys[i as int]);
            assert(now.update(i as int, doc(ys[i as int])) =~= next);
            lemma_patch_concat(Doc::List(now), head, rest);
        } else {
            let more = Edit::Added(seq![Step::Index(i as int)], ys[i as int]);
            lemma_patch_one(Doc::List(now), more);
            assert(now.insert(i as int, doc(ys[i as int])) =~= next);
            lemma_patch_concat(Doc::List(now), seq![more], rest);
        }
        lemma_items_round_trip(xs, ys, i + 1);
    }
}

/// The diff of two records from field `j` of the new one on finishes the way
/// from the old record to the new one.
proof fn lemma_fields_round_trip(fa: Seq<Entry>, fb: Seq<Entry>, j: nat)
    requires
        j <= fb.len(),
        Tree::Record(fb).wf(),
    ensures
        patch(Doc::Record(overlay(fa, fb, j as int)), delta_fields(fa, fb, j)) == Doc::Record(
            keyed(fb),
        ),
    decreases fb, fb.len() - j,
{
    let now = overlay(fa, fb, j as int);
    if j >= fb.len() {
        assert forall|x: Seq<char>| #[trigger] has_new(now, fb, x) by {
            lemma_find_from(fb, x, 0);
        }
        assert forall|x: Seq<char>| #[trigger] has_known(now, fa, fb, 0, x) by {
        }
        lemma_dropped_leaves_new(fa, fb, 0, now);
    } else {
        let e = fb[j as int];
        let rest = delta_fields(fa, fb, j + 1);
        let next = overlay(fa, fb, (j + 1) as int);
        lemma_find_distinct(fb, j as int);
        assert forall|x: Seq<char>| x != e.name implies covered(fb, x, (j + 1) as int) == covered(
            fb,
            x,
            j as int,
        ) by {
            lemma_find_from(fb, x, 0);
        }
        match find(fa, e.name) {
            Some(i) => {
                lemma_find_from(fa, e.name, 0);
                lemma_round_trip(fa[i].value, e.value);
                lemma_child_of_record(now, e.name, fa[i].value, e.value);
            },
            None => {
                lemma_patch_one(
                    Doc::Record(now),
                    Edit::Added(seq![Step::Field(e.name)], e.value),
                );
            },
        }
        assert(now.insert(e.name, doc(e.value)) =~= next);
        lemma_patch_concat(Doc::Record(now), delta_field(fa, e), rest);
        lemma_fields_round_trip(fa, fb, j + 1);
    }
}

/// Applying the diff from `a` to `b` to what `a` stands for gives what `b`
/// stands for, whatever `a` is, for every `b` without a record that has two
/// fields of one name.
pub proof fn lemma_round_trip(a: Tree, b: Tree)
    requires
        b.wf(),
    ensures
        patch(doc(a), delta(a, b)) == doc(b),
    decreases b, 0nat,
{
    match (a, b) {
        (Tree::List(xs), Tree::List(ys)) => {
            lemma_doc_of_list(xs);
            lemma_doc_of_list(ys);
            assert(merged(docs(xs), docs(ys), 0) =~= docs(xs));
            lemma_items_round_trip(xs, ys, 0);
        },
        (Tree::Record(fa), Tree::Record(fb)) => {
            lemma_doc_of_record(fa);
            lemma_doc_of_record(fb);
            let start = overlay(fa, fb, 0);
            assert forall|x: Seq<char>| #[trigger]
                start.dom().contains(x) == keyed(fa).dom().contains(x) by {
                lemma_find_from(fb, x, 0);
            }
            assert(start.dom() =~= keyed(fa).dom());
            assert forall|x: Seq<char>| #[trigger] start.dom().contains(x) implies start[x]
                == keyed(fa)[x] by {
                lemma_find_from(fa, x, 0);
                lemma_find_from(fb, x, 0);
            }
            assert(start =~= keyed(fa));
            lemma_fields_round_trip(fa, fb, 0);
        },
        _ => {
            if a.is_leaf() && b.is_leaf() {
                if a != b {
                    lemma_patch_one(doc(a), Edit::Modified(Seq::empty(), a, b));
                }
            } else {
                let gone = Edit::Removed(Seq::empty());
                let back = Edit::Added(Seq::empty(), b);
                assert(delta(a, b) =~= seq![gone] + seq![back]);
                lemma_patch_concat(doc(a), seq![gone], seq![back]);
                lemma_patch_one(doc(a), gone);
                lemma_patch_one(Doc::Null, back);
            }
        },
    }
}

proof fn lemma_items_same(xs: Seq<Tree>, i: nat)
    requires
        forall|k: int| 0 <= k < xs.len() ==> (#[trigger] xs[k]).wf(),
    ensures
        delta_items(xs, xs, i) == Seq::<Edit>::empty(),
    decreases xs, xs.len() - i,
{
    if i < xs.len() {
        lemma_delta_same(xs[i as int]);
        lemma_items_same(xs, i + 1);
        assert(under(seq![Step::Index(i as int)], Seq::<Edit>::empty()) =~= Seq::<Edit>::empty());
        assert(Seq::<Edit>::empty() + Seq::<Edit>::empty() =~= Seq::<Edit>::empty());
    }
}

proof fn lemma_dropped_same(fa: Seq<Entry>, i: nat)
    ensures
        dropped(fa, fa, i) == Seq::<Edit>::empty(),
    decreases fa.len() - i,
{
    if i < fa.len() {
        lemma_find_from(fa, fa[i as int].name, 0);
        lemma_dropped_same(fa, i + 1);
    }
}

proof fn lemma_fields_same(fa: Seq<Entry>, j: nat)
    requires
        Tree::Record(fa).wf(),
    ensures
        delta_fields(fa, fa, j) == Seq::<Edit>::empty(),
    decreases fa, fa.len() - j,
{
    if j >= fa.len() {
        lemma_dropped_same(fa, 0);
    } else {
        let e = fa[j as int];
        lemma_find_distinct(fa, j as int);
        lemma_delta_same(e.value);
        lemma_fields_same(fa, j + 1);
        assert(under(seq![Step::Field(e.name)], Seq::<Edit>::empty()) =~= Seq::<Edit>::empty());
        assert(delta_field(fa, e) == under(seq![Step::Field(e.name)], delta(e.value, e.value)));
        assert(delta_fields(fa, fa, j) == delta_field(fa, e) + delta_fields(fa, fa, j + 1));
        assert(Seq::<Edit>::empty() + Seq::<Edit>::empty() =~= Seq::<Edit>::empty());
    }
}

/// A tree has no diff against itself.
pub proof fn lemma_delta_same(t: Tree)
    requires
        t.wf(),
    ensures
        delta(t, t) == Seq::<Edit>::empty(),
    decreases t, 0nat,
{
    match t {
        Tree::List(xs) => {
            lemma_items_same(xs, 0);
        },
        Tree::Record(fa) => {
            lemma_fields_same(fa, 0);
        },
        _ => {},
    }
}

/// Where the diff from `a` to `b` is empty, the two stand for one document:
/// there is nothing to render.
pub proof fn lemma_empty_diff_means_equal(a: Tree, b: Tree)
    requires
        b.wf(),
        delta(a, b) == Seq::<Edit>::empty(),
    ensures
        doc(a) == doc(b),
{
    lemma_round_trip(a, b);
}

/// Whether no record of the value has two fields of one name.
#[verifier::loop_isolation(false)]
pub fn well_formed(value: &Value) -> (ok: bool)
    ensures
        ok == value@.wf(),
    decreases value,
{
    match value {
        Value::List(items) => {
            let ghost trees = value@->List_0;
            let mut i: usize = 0;
            while i < items.len()
                invariant
                    i <= items@.len(),
                    forall|k: int| 0 <= k < i ==> (#[trigger] trees[k]).wf(),
                decreases items@.len() - i,
            {
                if !well_formed(&items[i]) {
                    assert(!trees[i as int].wf());
                    return false;
                }
                i += 1;
            }
            true
        },
        Value::Record(fields) => {
            let ghost entries = value@->Record_0;
            let mut j: usize = 0;
            while j < fields.len()
                invariant
                    j <= fields@.len(),
                    forall|k: int| 0 <= k < j ==> (#[trigger] entries[k]).value.wf(),
                    forall|a: int, b: int|
                        0 <= a < b < j ==> (#[trigger] entries[a]).name != (#[trigger] entries[b]).name,
                decreases fields@.len() - j,
            {
                if !well_formed(&fields[j].1) {
                    assert(!entries[j as int].value.wf());
                    return false;
                }
                let mut i: usize = 0;
                while i < j
                    invariant
                        i <= j,
                        j < fields@.len(),
                        forall|a: int| 0 <= a < i ==> (#[trigger] entries[a]).name != entries[j as int].name,
                    decreases j - i,
                {
                    if fields[i].0 == fields[j].0 {
                        assert(entries[i as int].name == entries[j as int].name);
                        return false;
                    }
                    i += 1;
                }
                j += 1;
            }
            true
        },
        _ => true,
    }
}

} // verus!

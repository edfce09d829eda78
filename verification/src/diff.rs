//! The structural diff of two trees: what it is, and the code that computes it.

use crate::tree::{Entry, Tree, Value};
use vstd::prelude::*;

verus! {

/// One step of a path into a tree: a field of a record or a position of a list.
pub enum Step {
    Field(Seq<char>),
    Index(int),
}

/// The executable form of a [`Step`].
#[derive(Debug, PartialEq, Eq)]
pub enum Key {
    Field(String),
    Index(usize),
}

impl View for Key {
    type V = Step;

    open spec fn view(&self) -> Step {
        match self {
            Key::Field(name) => Step::Field(name@),
            Key::Index(i) => Step::Index(*i as int),
        }
    }
}

/// The steps that a path of keys stands for.
pub open spec fn steps(path: Seq<Key>) -> Seq<Step> {
    path.map_values(|k: Key| k@)
}

/// One operation of a structural diff, tagged with the path of the node it is
/// about.
pub enum Edit {
    Added(Seq<Step>, Tree),
    Removed(Seq<Step>),
    Modified(Seq<Step>, Tree, Tree),
}

impl Edit {
    pub open spec fn path(self) -> Seq<Step> {
        match self {
            Edit::Added(p, _) => p,
            Edit::Removed(p) => p,
            Edit::Modified(p, _, _) => p,
        }
    }

    /// This operation seen from a node that lies `prefix` above.
    pub open spec fn under(self, prefix: Seq<Step>) -> Edit {
        match self {
            Edit::Added(p, v) => Edit::Added(prefix + p, v),
            Edit::Removed(p) => Edit::Removed(prefix + p),
            Edit::Modified(p, old, new) => Edit::Modified(prefix + p, old, new),
        }
    }
}

/// The executable form of an [`Edit`].
#[derive(Debug, PartialEq, Eq)]
pub enum Change {
    Added(Vec<Key>, Value),
    Removed(Vec<Key>),
    Modified(Vec<Key>, Value, Value),
}

impl View for Change {
    type V = Edit;

    open spec fn view(&self) -> Edit {
        match self {
            Change::Added(p, v) => Edit::Added(steps(p@), v@),
            Change::Removed(p) => Edit::Removed(steps(p@)),
            Change::Modified(p, old, new) => Edit::Modified(steps(p@), old@, new@),
        }
    }
}

/// The operations that a list of changes stands for.
pub open spec fn edits(changes: Seq<Change>) -> Seq<Edit> {
    changes.map_values(|c: Change| c@)
}

/// Every operation of `es`, seen from a node that lies `prefix` above.
pub open spec fn under(prefix: Seq<Step>, es: Seq<Edit>) -> Seq<Edit> {
    es.map_values(|e: Edit| e.under(prefix))
}

impl Tree {
    /// A scalar: a node without children.
    pub open spec fn is_leaf(self) -> bool {
        !(self is List) && !(self is Record)
    }
}

/// First position at or after `start` of the field called `name`.
pub open spec fn find_from(fields: Seq<Entry>, name: Seq<char>, start: int) -> Option<int>
    decreases fields.len() - start,
{
    if start < 0 || start >= fields.len() {
        None
    } else if fields[start].name == name {
        Some(start)
    } else {
        find_from(fields, name, start + 1)
    }
}

/// First position of the field called `name`.
pub open spec fn find(fields: Seq<Entry>, name: Seq<char>) -> Option<int> {
    find_from(fields, name, 0)
}

/// The structural diff from `a` to `b`, with paths that start at the node
/// compared.
///
/// Two scalars give nothing where they are equal and one `Modified` where they
/// differ. Two lists are compared position by position, two records field by
/// field. Two nodes of different shape give a `Removed` and an `Added`.
pub open spec fn delta(a: Tree, b: Tree) -> Seq<Edit>
    decreases b, 0nat,
{
    match (a, b) {
        (Tree::List(xs), Tree::List(ys)) => delta_items(xs, ys, 0),
        (Tree::Record(fa), Tree::Record(fb)) => delta_fields(fa, fb, 0),
        _ => if a.is_leaf() && b.is_leaf() {
            if a == b {
                Seq::empty()
            } else {
                seq![Edit::Modified(Seq::empty(), a, b)]
            }
        } else {
            seq![Edit::Removed(Seq::empty())].push(Edit::Added(Seq::empty(), b))
        },
    }
}

/// The diff of two lists from position `i` on: the positions that both have,
/// then those that only the new list has, in rising order; at the end the
/// positions that only the old list has.
pub open spec fn delta_items(xs: Seq<Tree>, ys: Seq<Tree>, i: nat) -> Seq<Edit>
    decreases ys, ys.len() - i,
{
    if i >= ys.len() {
        surplus(xs.len() as int, ys.len() as int)
    } else if i < xs.len() {
        under(seq![Step::Index(i as int)], delta(xs[i as int], ys[i as int])) + delta_items(
            xs,
            ys,
            i + 1,
        )
    } else {
        seq![Edit::Added(seq![Step::Index(i as int)], ys[i as int])] + delta_items(xs, ys, i + 1)
    }
}

/// `Removed` for the positions below `from` down to `to`, the highest first, so
/// that each is the last position of the list when its turn comes.
pub open spec fn surplus(from: int, to: int) -> Seq<Edit>
    decreases from - to,
{
    if from <= to {
        Seq::empty()
    } else {
        seq![Edit::Removed(seq![Step::Index(from - 1)])] + surplus(from - 1, to)
    }
}

/// The diff of two records from field `j` of the new one on: the fields of the
/// new record in their order, then the fields that only the old record has.
pub open spec fn delta_fields(fa: Seq<Entry>, fb: Seq<Entry>, j: nat) -> Seq<Edit>
    decreases fb, fb.len() - j,
{
    if j >= fb.len() {
        dropped(fa, fb, 0)
    } else {
        delta_field(fa, fb[j as int]) + delta_fields(fa, fb, j + 1)
    }
}

/// The diff for one field of the new record.
pub open spec fn delta_field(fa: Seq<Entry>, e: Entry) -> Seq<Edit>
    decreases e, 0nat,
{
    match find(fa, e.name) {
        Some(i) => under(seq![Step::Field(e.name)], delta(fa[i].value, e.value)),
        None => seq![Edit::Added(seq![Step::Field(e.name)], e.value)],
    }
}

/// `Removed` for the fields of `fa` from position `i` on that `fb` lacks.
pub open spec fn dropped(fa: Seq<Entry>, fb: Seq<Entry>, i: nat) -> Seq<Edit>
    decreases fa.len() - i,
{
    if i >= fa.len() {
        Seq::empty()
    } else if find(fb, fa[i as int].name) is None {
        seq![Edit::Removed(seq![Step::Field(fa[i as int].name)])] + dropped(fa, fb, i + 1)
    } else {
        dropped(fa, fb, i + 1)
    }
}

/// Prefixing distributes over concatenation.
pub proof fn lemma_under_concat(prefix: Seq<Step>, front: Seq<Edit>, back: Seq<Edit>)
    ensures
        under(prefix, front + back) == under(prefix, front) + under(prefix, back),
{
    assert(under(prefix, front + back) =~= under(prefix, front) + under(prefix, back));
}

/// Prefixing twice is prefixing with the two prefixes joined.
pub proof fn lemma_under_under(outer: Seq<Step>, inner: Seq<Step>, es: Seq<Edit>)
    ensures
        under(outer, under(inner, es)) == under(outer + inner, es),
{
    assert forall|i: int| 0 <= i < es.len() implies under(outer, under(inner, es))[i] == under(
        outer + inner,
        es,
    )[i] by {
        let e = es[i];
        assert(outer + (inner + e.path()) =~= (outer + inner) + e.path());
    }
    assert(under(outer, under(inner, es)) =~= under(outer + inner, es));
}

/// Prefixing with the empty path changes nothing.
pub proof fn lemma_under_nothing(es: Seq<Edit>)
    ensures
        under(Seq::empty(), es) == es,
{
    assert forall|i: int| 0 <= i < es.len() implies under(Seq::empty(), es)[i] == es[i] by {
        let e = es[i];
        assert(Seq::<Step>::empty() + e.path() =~= e.path());
    }
    assert(under(Seq::empty(), es) =~= es);
}

/// A copy of a key.
fn copy_key(key: &Key) -> (copy: Key)
    ensures
        copy == *key,
{
    match key {
        Key::Field(name) => Key::Field(name.clone()),
        Key::Index(i) => Key::Index(*i),
    }
}

/// A copy of `path` with `last` behind it.
fn extend_path(path: &Vec<Key>, last: Key) -> (longer: Vec<Key>)
    ensures
        longer@ == path@.push(last),
{
    let mut longer: Vec<Key> = Vec::new();
    let mut i: usize = 0;
    while i < path.len()
        invariant
            i <= path@.len(),
            longer@ == path@.take(i as int),
        decreases path@.len() - i,
    {
        longer.push(copy_key(&path[i]));
        assert(path@.take(i + 1) =~= path@.take(i as int).push(path@[i as int]));
        i += 1;
    }
    assert(path@.take(i as int) =~= path@);
    longer.push(last);
    longer
}

/// A copy of `path`.
fn copy_path(path: &Vec<Key>) -> (copy: Vec<Key>)
    ensures
        copy@ == path@,
{
    let mut copy: Vec<Key> = Vec::new();
    let mut i: usize = 0;
    while i < path.len()
        invariant
            i <= path@.len(),
            copy@ == path@.take(i as int),
        decreases path@.len() - i,
    {
        copy.push(copy_key(&path[i]));
        assert(path@.take(i + 1) =~= path@.take(i as int).push(path@[i as int]));
        i += 1;
    }
    assert(path@.take(i as int) =~= path@);
    copy
}

/// Position of the field called `name` among `fields`, whose names are those of
/// `model`.
fn find_field(fields: &Vec<(String, Value)>, name: &String, Ghost(model): Ghost<Seq<Entry>>) -> (found:
    Option<usize>)
    requires
        model.len() == fields@.len(),
        forall|i: int| 0 <= i < fields@.len() ==> (#[trigger] model[i]).name == fields@[i].0@,
    ensures
        match found {
            Some(i) => i < fields@.len() && find(model, name@) == Some(i as int),
            None => find(model, name@) is None,
        },
{
    let mut i: usize = 0;
    while i < fields.len() && fields[i].0 != *name
        invariant
            i <= fields@.len(),
            model.len() == fields@.len(),
            forall|k: int| 0 <= k < fields@.len() ==> (#[trigger] model[k]).name == fields@[k].0@,
            find_from(model, name@, 0) == find_from(model, name@, i as int),
        decreases fields@.len() - i,
    {
        i += 1;
    }
    if i < fields.len() {
        Some(i)
    } else {
        None
    }
}

/// Whether a value is a scalar.
fn is_scalar(value: &Value) -> (leaf: bool)
    ensures
        leaf == value@.is_leaf(),
{
    match value {
        Value::List(_) => false,
        Value::Record(_) => false,
        _ => true,
    }
}

/// Appends to `out` the diff from `a` to `b`, two nodes that stand at `path`.
#[verifier::loop_isolation(false)]
fn diff_into(a: &Value, b: &Value, path: &mut Vec<Key>, out: &mut Vec<Change>)
    ensures
        final(path)@ == old(path)@,
        edits(final(out)@) == edits(old(out)@) + under(steps(old(path)@), delta(a@, b@)),
    decreases b,
{
    let ghost base = edits(out@);
    let ghost prefix = steps(path@);
    match (a, b) {
        (Value::List(xs), Value::List(ys)) => {
            let ghost tx = a@->List_0;
            let ghost ty = b@->List_0;
            let mut i: usize = 0;
            while i < ys.len()
                invariant
                    i <= ys@.len(),
                    path@ == old(path)@,
                    edits(out@) + under(prefix, delta_items(tx, ty, i as nat)) == base + under(
                        prefix,
                        delta_items(tx, ty, 0),
                    ),
                decreases ys@.len() - i,
            {
                let ghost before = edits(out@);
                let ghost rest = delta_items(tx, ty, (i + 1) as nat);
                if i < xs.len() {
                    path.push(Key::Index(i));
                    diff_into(&xs[i], &ys[i], path, out);
                    path.pop();
                    proof {
                        let one = seq![Step::Index(i as int)];
                        let inner = delta(tx[i as int], ty[i as int]);
                        assert(steps(old(path)@.push(Key::Index(i))) =~= prefix + one);
                        lemma_under_under(prefix, one, inner);
                        lemma_under_concat(prefix, under(one, inner), rest);
                        assert(path@ =~= old(path)@);
                        assert(edits(out@) + under(prefix, rest) =~= before + under(
                            prefix,
                            delta_items(tx, ty, i as nat),
                        ));
                    }
                } else {
                    let at = extend_path(path, Key::Index(i));
                    out.push(Change::Added(at, ys[i].duplicate()));
                    proof {
                        let head = seq![Edit::Added(seq![Step::Index(i as int)], ty[i as int])];
                        lemma_under_concat(prefix, head, rest);
                        assert(steps(path@.push(Key::Index(i))) =~= prefix + seq![
                            Step::Index(i as int),
                        ]);
                        assert(edits(out@) =~= before + under(prefix, head));
                        assert(edits(out@) + under(prefix, rest) =~= before + under(
                            prefix,
                            delta_items(tx, ty, i as nat),
                        ));
                    }
                }
                i += 1;
            }
            let mut k: usize = xs.len();
            while k > ys.len()
                invariant
                    k <= xs@.len(),
                    path@ == old(path)@,
                    edits(out@) + under(prefix, surplus(k as int, ys@.len() as int)) == base + under(
                        prefix,
                        delta_items(tx, ty, 0),
                    ),
                decreases k,
            {
                let ghost before = edits(out@);
                let ghost rest = surplus(k - 1, ys@.len() as int);
                let at = extend_path(path, Key::Index(k - 1));
                out.push(Change::Removed(at));
                proof {
                    let head = seq![Edit::Removed(seq![Step::Index(k - 1)])];
                    lemma_under_concat(prefix, head, rest);
                    assert(steps(path@.push(Key::Index((k - 1) as usize))) =~= prefix + seq![
                        Step::Index(k - 1),
                    ]);
                    assert(edits(out@) =~= before + under(prefix, head));
                    assert(edits(out@) + under(prefix, rest) =~= before + under(
                        prefix,
                        surplus(k as int, ys@.len() as int),
                    ));
                }
                k -= 1;
            }
            assert(under(prefix, surplus(k as int, ys@.len() as int)) =~= Seq::<Edit>::empty());
            assert(edits(out@) =~= base + under(prefix, delta(a@, b@)));
        },
        (Value::Record(fa), Value::Record(fb)) => {
            let ghost ta = a@->Record_0;
            let ghost tb = b@->Record_0;
            let mut j: usize = 0;
            while j < fb.len()
                invariant
                    j <= fb@.len(),
                    path@ == old(path)@,
                    edits(out@) + under(prefix, delta_fields(ta, tb, j as nat)) == base + under(
                        prefix,
                        delta_fields(ta, tb, 0),
                    ),
                decreases fb@.len() - j,
            {
                let ghost before = edits(out@);
                let ghost rest = delta_fields(ta, tb, (j + 1) as nat);
                let ghost name = tb[j as int].name;
                match find_field(fa, &fb[j].0, Ghost(ta)) {
                    Some(i) => {
                        path.push(Key::Field(fb[j].0.clone()));
                        diff_into(&fa[i].1, &fb[j].1, path, out);
                        path.pop();
                        proof {
                            let one = seq![Step::Field(name)];
                            let inner = delta(ta[i as int].value, tb[j as int].value);
                            assert(steps(old(path)@.push(Key::Field(fb@[j as int].0))) =~= prefix
                                + one);
                            lemma_under_under(prefix, one, inner);
                            lemma_under_concat(prefix, under(one, inner), rest);
                            assert(path@ =~= old(path)@);
                            assert(delta_field(ta, tb[j as int]) == under(one, inner));
                            assert(delta_fields(ta, tb, j as nat) == delta_field(ta, tb[j as int])
                                + rest);
                            assert(edits(out@) + under(prefix, rest) =~= before + under(
                                prefix,
                                delta_fields(ta, tb, j as nat),
                            ));
                        }
                    },
                    None => {
                        let at = extend_path(path, Key::Field(fb[j].0.clone()));
                        out.push(Change::Added(at, fb[j].1.duplicate()));
                        proof {
                            let head = seq![
                                Edit::Added(seq![Step::Field(name)], tb[j as int].value),
                            ];
                            lemma_under_concat(prefix, head, rest);
                            assert(steps(path@.push(Key::Field(fb@[j as int].0))) =~= prefix
                                + seq![Step::Field(name)]);
                            assert(edits(out@) =~= before + under(prefix, head));
                            assert(delta_field(ta, tb[j as int]) == head);
                            assert(delta_fields(ta, tb, j as nat) == delta_field(ta, tb[j as int])
                                + rest);
                            assert(edits(out@) + under(prefix, rest) =~= before + under(
                                prefix,
                                delta_fields(ta, tb, j as nat),
                            ));
                        }
                    },
                }
                j += 1;
            }
            let mut i: usize = 0;
            while i < fa.len()
                invariant
                    i <= fa@.len(),
                    path@ == old(path)@,
                    edits(out@) + under(prefix, dropped(ta, tb, i as nat)) == base + under(
                        prefix,
                        delta_fields(ta, tb, 0),
                    ),
                decreases fa@.len() - i,
            {
                let ghost before = edits(out@);
                let ghost rest = dropped(ta, tb, (i + 1) as nat);
                let ghost name = ta[i as int].name;
                if find_field(fb, &fa[i].0, Ghost(tb)).is_none() {
                    let at = extend_path(path, Key::Field(fa[i].0.clone()));
                    out.push(Change::Removed(at));
                    proof {
                        let head = seq![Edit::Removed(seq![Step::Field(name)])];
                        lemma_under_concat(prefix, head, rest);
                        assert(steps(path@.push(Key::Field(fa@[i as int].0))) =~= prefix + seq![
                            Step::Field(name),
                        ]);
                        assert(edits(out@) =~= before + under(prefix, head));
                        assert(edits(out@) + under(prefix, rest) =~= before + under(
                            prefix,
                            dropped(ta, tb, i as nat),
                        ));
                    }
                }
                i += 1;
            }
            assert(under(prefix, dropped(ta, tb, i as nat)) =~= Seq::<Edit>::empty());
            assert(edits(out@) =~= base + under(prefix, delta(a@, b@)));
        },
        _ => {
            if is_scalar(a) && is_scalar(b) {
                if !a.same(b) {
                    let at = copy_path(path);
                    out.push(Change::Modified(at, a.duplicate(), b.duplicate()));
                    assert(prefix + Seq::<Step>::empty() =~= prefix);
                    assert(edits(out@) =~= base + under(prefix, delta(a@, b@)));
                } else {
                    assert(edits(out@) =~= base + under(prefix, delta(a@, b@)));
                }
            } else {
                let at = copy_path(path);
                out.push(Change::Removed(at));
                let at = copy_path(path);
                out.push(Change::Added(at, b.duplicate()));
                assert(prefix + Seq::<Step>::empty() =~= prefix);
                assert(edits(out@) =~= base + under(prefix, delta(a@, b@)));
            }
        },
    }
}

/// The structural diff from `old` to `new`, with paths that start at the root.
pub fn diff_values(old: &Value, new: &Value) -> (changes: Vec<Change>)
    ensures
        edits(changes@) == delta(old@, new@),
{
    let mut path: Vec<Key> = Vec::new();
    let mut changes: Vec<Change> = Vec::new();
    diff_into(old, new, &mut path, &mut changes);
    proof {
        lemma_under_nothing(delta(old@, new@));
        assert(steps(Seq::<Key>::empty()) =~= Seq::<Step>::empty());
        assert(edits(Seq::<Change>::empty()) =~= Seq::<Edit>::empty());
        assert(Seq::<Edit>::empty() + delta(old@, new@) =~= delta(old@, new@));
    }
    changes
}

} // verus!

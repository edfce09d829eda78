use servoshell::diff::{diff_values, Change, Key};
use servoshell::tree::Value;
use treediff::tools::{ChangeType, Recorder};

#[derive(Clone, Debug, PartialEq, Eq, PartialOrd, Ord)]
enum Step {
    Field(String),
    Index(usize),
}

/// A value in the form that `treediff` walks.
#[derive(Debug, PartialEq)]
enum Node {
    Leaf(Value),
    List(Vec<Node>),
    Record(Vec<(String, Node)>),
}

impl Node {
    fn of(value: &Value) -> Node {
        match value {
            Value::List(items) => Node::List(items.iter().map(Node::of).collect()),
            Value::Record(fields) => {
                Node::Record(fields.iter().map(|(n, v)| (n.clone(), Node::of(v))).collect())
            }
            leaf => Node::Leaf(leaf.duplicate()),
        }
    }

    fn value(&self) -> Value {
        match self {
            Node::Leaf(v) => v.duplicate(),
            Node::List(items) => Value::List(items.iter().map(Node::value).collect()),
            Node::Record(fields) => {
                Value::Record(fields.iter().map(|(n, v)| (n.clone(), v.value())).collect())
            }
        }
    }
}

impl treediff::Value for Node {
    type Key = Step;
    type Item = Node;

    fn items<'a>(&'a self) -> Option<Box<dyn Iterator<Item = (Step, &'a Node)> + 'a>> {
        match self {
            Node::Leaf(_) => None,
            Node::List(items) => {
                Some(Box::new(items.iter().enumerate().map(|(i, v)| (Step::Index(i), v))))
            }
            Node::Record(fields) => {
                Some(Box::new(fields.iter().map(|(n, v)| (Step::Field(n.clone()), v))))
            }
        }
    }
}

/// One operation, in a form that both diffs can be brought to.
#[derive(Debug, PartialEq, Eq, PartialOrd, Ord)]
enum Op {
    Added(Vec<Step>, String),
    Removed(Vec<Step>),
    Modified(Vec<Step>, String, String),
}

fn show(value: &Value) -> String {
    format!("{:?}", value)
}

fn steps(path: &[Key]) -> Vec<Step> {
    path.iter()
        .map(|k| match k {
            Key::Field(n) => Step::Field(n.clone()),
            Key::Index(i) => Step::Index(*i),
        })
        .collect()
}

fn at<'a>(value: &'a Value, path: &[Key]) -> &'a Value {
    match (value, path.first()) {
        (_, None) => value,
        (Value::List(items), Some(Key::Index(i))) => at(&items[*i], &path[1..]),
        (Value::Record(fields), Some(Key::Field(n))) => {
            at(&fields.iter().find(|(name, _)| name == n).unwrap().1, &path[1..])
        }
        _ => panic!("no such path"),
    }
}

/// The operations of `treediff`, without the reports of what has not changed.
fn theirs(old: &Value, new: &Value) -> Vec<Op> {
    let (a, b) = (Node::of(old), Node::of(new));
    let mut recorder = Recorder::default();
    treediff::diff(&a, &b, &mut recorder);
    let mut ops = Vec::new();
    for call in &recorder.calls {
        match call {
            ChangeType::Added(path, v) => ops.push(Op::Added(path.clone(), show(&v.value()))),
            ChangeType::Removed(path, _) => ops.push(Op::Removed(path.clone())),
            ChangeType::Modified(path, l, r) => {
                ops.push(Op::Modified(path.clone(), show(&l.value()), show(&r.value())))
            }
            ChangeType::Unchanged(_, _) => {}
        }
    }
    ops.sort();
    ops
}

/// The operations of the library, a change of shape read as one modification.
fn ours(old: &Value, new: &Value) -> Vec<Op> {
    let changes = diff_values(old, new);
    let mut ops = Vec::new();
    let mut i = 0;
    while i < changes.len() {
        match (&changes[i], changes.get(i + 1)) {
            (Change::Removed(p), Some(Change::Added(q, v))) if p == q => {
                ops.push(Op::Modified(steps(p), show(at(old, p)), show(v)));
                i += 1;
            }
            (Change::Removed(p), _) => ops.push(Op::Removed(steps(p))),
            (Change::Added(p, v), _) => ops.push(Op::Added(steps(p), show(v))),
            (Change::Modified(p, l, r), _) => ops.push(Op::Modified(steps(p), show(l), show(r))),
        }
        i += 1;
    }
    ops.sort();
    ops
}

fn rec(fields: Vec<(&str, Value)>) -> Value {
    Value::Record(fields.into_iter().map(|(n, v)| (n.to_string(), v)).collect())
}

fn text(s: &str) -> Value {
    Value::Text(s.to_string())
}

fn records() -> Vec<Value> {
    vec![
        rec(vec![]),
        rec(vec![("count", Value::Int(0))]),
        rec(vec![("count", Value::Int(5)), ("name", text("n"))]),
        rec(vec![("name", text("m")), ("count", Value::Int(5))]),
        rec(vec![("count", rec(vec![("n", Value::Int(1))])), ("name", Value::Null)]),
        rec(vec![
            ("tabs", Value::List(vec![rec(vec![("id", Value::Int(1)), ("title", Value::Null)])])),
            ("open", Value::Bool(false)),
        ]),
        rec(vec![
            (
                "tabs",
                Value::List(vec![
                    rec(vec![("id", Value::Int(1)), ("title", text("one"))]),
                    rec(vec![("id", Value::Int(2)), ("title", Value::Null)]),
                    rec(vec![("id", Value::Int(3)), ("title", text("three"))]),
                ]),
            ),
            ("open", Value::Bool(true)),
            ("name", Value::List(vec![Value::Int(9)])),
        ]),
        rec(vec![("tabs", Value::List(vec![])), ("open", text("yes"))]),
    ]
}

fn lists() -> Vec<Value> {
    vec![
        Value::List(vec![]),
        Value::List(vec![Value::Int(1), Value::Int(2), Value::Int(3)]),
        Value::List(vec![Value::Int(1), text("x")]),
        Value::List(vec![Value::List(vec![Value::Null]), Value::Bool(true), Value::Int(3), Value::Null]),
        Value::List(vec![Value::List(vec![Value::Null, Value::Null])]),
    ]
}

fn scalars() -> Vec<Value> {
    vec![Value::Null, Value::Bool(true), Value::Int(0), Value::Int(-7), text("a"), text("")]
}

#[test]
fn records_differ_as_treediff_has_them_differ() {
    for old in records() {
        for new in records() {
            assert_eq!(ours(&old, &new), theirs(&old, &new), "{:?} to {:?}", old, new);
        }
    }
}

#[test]
fn lists_differ_as_treediff_has_them_differ() {
    for old in lists() {
        for new in lists() {
            assert_eq!(ours(&old, &new), theirs(&old, &new), "{:?} to {:?}", old, new);
        }
    }
}

#[test]
fn scalars_differ_as_treediff_has_them_differ() {
    let mut all = scalars();
    all.extend(records());
    for old in scalars() {
        for new in &all {
            assert_eq!(ours(&old, new), theirs(&old, new), "{:?} to {:?}", old, new);
            assert_eq!(ours(new, &old), theirs(new, &old), "{:?} to {:?}", new, old);
        }
    }
}

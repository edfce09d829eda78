//! The trees that tab records and tab collections are written down as.

use crate::browser::{Browser, BrowserView};
use crate::tabs::{as_position, TabCollection, Tabs};
use crate::tree::{entries, list, put, record, Entry, Tree, Value};
use vstd::prelude::*;

verus! {

/// The tree of an optional text: the text, or null.
pub open spec fn text_tree(text: Option<Seq<char>>) -> Tree {
    match text {
        Some(s) => Tree::Text(s),
        None => Tree::Null,
    }
}

/// The tree of an optional position: the number, or null.
pub open spec fn index_tree(index: Option<int>) -> Tree {
    match index {
        Some(i) => Tree::Int(i),
        None => Tree::Null,
    }
}

/// The tree of a tab record: one field for each of its properties.
pub open spec fn browser_tree(b: BrowserView) -> Tree {
    Tree::Record(
        seq![
            Entry { name: "id"@, value: Tree::Int(b.id.0 as int) },
            Entry { name: "url"@, value: text_tree(b.url) },
            Entry { name: "title"@, value: text_tree(b.title) },
            Entry { name: "zoom"@, value: Tree::Int(b.zoom as int) },
            Entry { name: "is_loading"@, value: Tree::Bool(b.is_loading) },
            Entry { name: "can_go_back"@, value: Tree::Bool(b.can_go_back) },
            Entry { name: "can_go_forward"@, value: Tree::Bool(b.can_go_forward) },
            Entry { name: "is_background"@, value: Tree::Bool(b.is_background) },
            Entry { name: "urlbar_focused"@, value: Tree::Bool(b.urlbar_focused) },
            Entry { name: "user_input"@, value: text_tree(b.user_input) },
        ],
    )
}

/// The tree of a tab collection: its records in order, and the foreground
/// index.
pub open spec fn tabs_tree(t: Tabs) -> Tree {
    Tree::Record(
        seq![
            Entry {
                name: "browsers"@,
                value: Tree::List(t.browsers.map_values(|b: BrowserView| browser_tree(b))),
            },
            Entry { name: "current_index"@, value: index_tree(t.current) },
        ],
    )
}

/// Writes an optional text down.
pub fn text_value(text: &Option<String>) -> (value: Value)
    ensures
        value@ == text_tree(crate::browser::text_view(*text)),
{
    match text {
        Some(s) => Value::Text(s.clone()),
        None => Value::Null,
    }
}

/// Writes an optional position down.
pub fn index_value(index: Option<usize>) -> (value: Value)
    ensures
        value@ == index_tree(as_position(index)),
{
    match index {
        Some(i) => Value::Int(i as i128),
        None => Value::Null,
    }
}

/// Writes a number down.
pub fn number_value(n: u32) -> (value: Value)
    ensures
        value@ == Tree::Int(n as int),
{
    let wide: i128 = n as i128;
    assert(wide == n);
    Value::Int(wide)
}

/// Writes a truth value down.
pub fn flag_value(flag: bool) -> (value: Value)
    ensures
        value@ == Tree::Bool(flag),
{
    Value::Bool(flag)
}

/// Writes a tab record down.
pub fn encode_browser(b: &Browser) -> (value: Value)
    ensures
        value@ == browser_tree(b@),
{
    let mut fields: Vec<(String, Value)> = Vec::new();
    assert(entries(fields@) =~= Seq::empty());
    put(&mut fields, "id", number_value(b.id.0));
    put(&mut fields, "url", text_value(&b.url));
    put(&mut fields, "title", text_value(&b.title));
    put(&mut fields, "zoom", number_value(b.zoom));
    put(&mut fields, "is_loading", flag_value(b.is_loading));
    put(&mut fields, "can_go_back", flag_value(b.can_go_back));
    put(&mut fields, "can_go_forward", flag_value(b.can_go_forward));
    put(&mut fields, "is_background", flag_value(b.is_background));
    put(&mut fields, "urlbar_focused", flag_value(b.urlbar_focused));
    put(&mut fields, "user_input", text_value(&b.user_input));
    assert(entries(fields@) =~= browser_tree(b@)->Record_0);
    record(fields)
}

/// Writes a tab collection down.
pub fn encode_tabs(tabs: &TabCollection) -> (value: Value)
    ensures
        value@ == tabs_tree(tabs@),
{
    let mut items: Vec<Value> = Vec::new();
    let n = tabs.len();
    let mut i: usize = 0;
    while i < n
        invariant
            n == tabs@.len(),
            i <= n,
            items@.len() == i,
            forall|j: int| 0 <= j < i ==> (#[trigger] items@[j])@ == browser_tree(tabs@.browsers[j]),
        decreases n - i,
    {
        match tabs.browser_at(i) {
            Some(b) => {
                items.push(encode_browser(b));
            },
            None => {},
        }
        i += 1;
    }
    let browsers = list(
        items,
        Ghost(tabs@.browsers.map_values(|b: BrowserView| browser_tree(b))),
    );
    let mut fields: Vec<(String, Value)> = Vec::new();
    assert(entries(fields@) =~= Seq::empty());
    put(&mut fields, "browsers", browsers);
    put(&mut fields, "current_index", index_value(tabs.current_index()));
    assert(entries(fields@) =~= tabs_tree(tabs@)->Record_0);
    record(fields)
}

/// The tree of a tab record has no two fields of one name.
pub proof fn lemma_browser_tree_wf(b: BrowserView)
    ensures
        browser_tree(b).wf(),
{
    reveal_with_fuel(Tree::wf, 3);
    reveal_strlit("id");
    reveal_strlit("url");
    reveal_strlit("title");
    reveal_strlit("zoom");
    reveal_strlit("is_loading");
    reveal_strlit("can_go_back");
    reveal_strlit("can_go_forward");
    reveal_strlit("is_background");
    reveal_strlit("urlbar_focused");
    reveal_strlit("user_input");
    let fields = browser_tree(b)->Record_0;
    assert(fields[4].name[0] != fields[9].name[0]);
    assert(fields[6].name[0] != fields[8].name[0]);
    assert forall|i: int, j: int| 0 <= i < j < fields.len() implies (#[trigger] fields[i]).name != (
    #[trigger] fields[j]).name by {
        if fields[i].name.len() == fields[j].name.len() {
            assert(fields[i].name[0] != fields[j].name[0]);
        }
    }
}

/// The tree of a tab collection has no two fields of one name.
pub proof fn lemma_tabs_tree_wf(t: Tabs)
    ensures
        tabs_tree(t).wf(),
{
    reveal_with_fuel(Tree::wf, 3);
    reveal_strlit("browsers");
    reveal_strlit("current_index");
    let fields = tabs_tree(t)->Record_0;
    let items = t.browsers.map_values(|b: BrowserView| browser_tree(b));
    assert forall|i: int| 0 <= i < items.len() implies (#[trigger] items[i]).wf() by {
        lemma_browser_tree_wf(t.browsers[i]);
    }
    assert(fields[0].value.wf());
    assert(fields[0].name.len() != fields[1].name.len());
}

} // verus!

//! The state of a window and the state of the application.

use crate::browser::{duplicate_text, text_view};
use crate::encode::{encode_tabs, flag_value, index_value, tabs_tree, text_tree, text_value, index_tree};
use crate::state::Snapshot;
use crate::tabs::{as_position, TabCollection, Tabs};
use crate::tree::{entries, put, record, Entry, Tree, Value};
use vstd::prelude::*;

verus! {

/// The debugging overlays of the renderer that the window has switched on.
#[derive(Clone, Copy, Debug, PartialEq, Eq, Structural)]
pub struct DebugOptions {
    pub wr_profiler: bool,
    pub wr_texture_cache_debug: bool,
    pub wr_render_target_debug: bool,
}

/// What one window shows.
#[derive(Debug, PartialEq, Eq)]
pub struct WindowState {
    pub tabs: TabCollection,
    pub sidebar_is_open: bool,
    pub options_open: bool,
    pub logs_visible: bool,
    pub status: Option<String>,
    pub debug_options: DebugOptions,
}

/// Mathematical form of a [`WindowState`].
pub struct WindowView {
    pub tabs: Tabs,
    pub sidebar_is_open: bool,
    pub options_open: bool,
    pub logs_visible: bool,
    pub status: Option<Seq<char>>,
    pub debug_options: DebugOptions,
}

impl View for WindowState {
    type V = WindowView;

    open spec fn view(&self) -> WindowView {
        WindowView {
            tabs: self.tabs@,
            sidebar_is_open: self.sidebar_is_open,
            options_open: self.options_open,
            logs_visible: self.logs_visible,
            status: text_view(self.status),
            debug_options: self.debug_options,
        }
    }
}

/// The tree of the debugging overlays.
pub open spec fn debug_tree(d: DebugOptions) -> Tree {
    Tree::Record(
        seq![
            Entry { name: "wr_profiler"@, value: Tree::Bool(d.wr_profiler) },
            Entry { name: "wr_texture_cache_debug"@, value: Tree::Bool(d.wr_texture_cache_debug) },
            Entry { name: "wr_render_target_debug"@, value: Tree::Bool(d.wr_render_target_debug) },
        ],
    )
}

/// The tree of a window's state.
pub open spec fn window_tree(w: WindowView) -> Tree {
    Tree::Record(
        seq![
            Entry { name: "tabs"@, value: tabs_tree(w.tabs) },
            Entry { name: "sidebar_is_open"@, value: Tree::Bool(w.sidebar_is_open) },
            Entry { name: "options_open"@, value: Tree::Bool(w.options_open) },
            Entry { name: "logs_visible"@, value: Tree::Bool(w.logs_visible) },
            Entry { name: "status"@, value: text_tree(w.status) },
            Entry { name: "debug_options"@, value: debug_tree(w.debug_options) },
        ],
    )
}

/// Writes the debugging overlays down.
pub fn encode_debug(d: &DebugOptions) -> (value: Value)
    ensures
        value@ == debug_tree(*d),
{
    let mut fields: Vec<(String, Value)> = Vec::new();
    assert(entries(fields@) =~= Seq::empty());
    put(&mut fields, "wr_profiler", flag_value(d.wr_profiler));
    put(&mut fields, "wr_texture_cache_debug", flag_value(d.wr_texture_cache_debug));
    put(&mut fields, "wr_render_target_debug", flag_value(d.wr_render_target_debug));
    assert(entries(fields@) =~= debug_tree(*d)->Record_0);
    record(fields)
}

impl WindowState {
    /// A window without tabs, with every panel closed.
    pub fn new() -> (state: WindowState)
        ensures
            state@ == WindowView::initial(),
    {
        WindowState {
            tabs: TabCollection::new(),
            sidebar_is_open: false,
            options_open: false,
            logs_visible: false,
            status: None,
            debug_options: DebugOptions {
                wr_profiler: false,
                wr_texture_cache_debug: false,
                wr_render_target_debug: false,
            },
        }
    }
}

impl WindowView {
    /// A window without tabs, with every panel closed.
    pub open spec fn initial() -> WindowView {
        WindowView {
            tabs: Tabs { browsers: Seq::empty(), current: None },
            sidebar_is_open: false,
            options_open: false,
            logs_visible: false,
            status: None,
            debug_options: DebugOptions {
                wr_profiler: false,
                wr_texture_cache_debug: false,
                wr_render_target_debug: false,
            },
        }
    }
}

impl Snapshot for WindowState {
    open spec fn tree(&self) -> Tree {
        window_tree(self@)
    }

    fn encode(&self) -> (value: Value) {
        let mut fields: Vec<(String, Value)> = Vec::new();
        assert(entries(fields@) =~= Seq::empty());
        put(&mut fields, "tabs", encode_tabs(&self.tabs));
        put(&mut fields, "sidebar_is_open", flag_value(self.sidebar_is_open));
        put(&mut fields, "options_open", flag_value(self.options_open));
        put(&mut fields, "logs_visible", flag_value(self.logs_visible));
        put(&mut fields, "status", text_value(&self.status));
        put(&mut fields, "debug_options", encode_debug(&self.debug_options));
        assert(entries(fields@) =~= window_tree(self@)->Record_0);
        record(fields)
    }

    fn duplicate(&self) -> (copy: WindowState)
        ensures
            copy@ == self@,
    {
        WindowState {
            tabs: self.tabs.duplicate(),
            sidebar_is_open: self.sidebar_is_open,
            options_open: self.options_open,
            logs_visible: self.logs_visible,
            status: duplicate_text(&self.status),
            debug_options: self.debug_options,
        }
    }
}

/// The shape of the pointer, by the engine's number for it.
#[derive(Clone, Copy, Debug, PartialEq, Eq, Structural)]
pub struct Cursor(pub u8);

/// What the application shows, whichever window is in front.
#[derive(Clone, Copy, Debug, PartialEq, Eq)]
pub struct AppState {
    pub current_window_index: Option<usize>,
    pub dark_theme: bool,
    pub cursor: Cursor,
}

/// The tree of the application's state.
pub open spec fn app_tree(a: AppState) -> Tree {
    Tree::Record(
        seq![
            Entry { name: "current_window_index"@, value: index_tree(as_position(a.current_window_index)) },
            Entry { name: "dark_theme"@, value: Tree::Bool(a.dark_theme) },
            Entry { name: "cursor"@, value: Tree::Int(a.cursor.0 as int) },
        ],
    )
}

impl AppState {
    /// The state at launch: no window yet, the light theme, the default pointer.
    pub fn new() -> (state: AppState)
        ensures
            state == (AppState { current_window_index: None, dark_theme: false, cursor: Cursor(0) }),
    {
        AppState { current_window_index: None, dark_theme: false, cursor: Cursor(0) }
    }
}

impl Snapshot for AppState {
    open spec fn tree(&self) -> Tree {
        app_tree(*self)
    }

    fn encode(&self) -> (value: Value) {
        let mut fields: Vec<(String, Value)> = Vec::new();
        assert(entries(fields@) =~= Seq::empty());
        put(&mut fields, "current_window_index", index_value(self.current_window_index));
        put(&mut fields, "dark_theme", flag_value(self.dark_theme));
        put(&mut fields, "cursor", crate::encode::number_value(self.cursor.0 as u32));
        assert(entries(fields@) =~= app_tree(*self)->Record_0);
        record(fields)
    }

    fn duplicate(&self) -> (copy: AppState)
        ensures
            copy == *self,
    {
        AppState {
            current_window_index: self.current_window_index,
            dark_theme: self.dark_theme,
            cursor: self.cursor,
        }
    }
}

/// The tree of a window's state has no two fields of one name.
pub proof fn lemma_window_tree_wf(w: WindowView)
    ensures
        window_tree(w).wf(),
{
    reveal_with_fuel(Tree::wf, 3);
    reveal_strlit("wr_profiler");
    reveal_strlit("wr_texture_cache_debug");
    reveal_strlit("wr_render_target_debug");
    let options = debug_tree(w.debug_options)->Record_0;
    assert(options[1].name[3] != options[2].name[3]);
    assert(debug_tree(w.debug_options).wf());
    reveal_strlit("tabs");
    reveal_strlit("sidebar_is_open");
    reveal_strlit("options_open");
    reveal_strlit("logs_visible");
    reveal_strlit("status");
    reveal_strlit("debug_options");
    crate::encode::lemma_tabs_tree_wf(w.tabs);
    let fields = window_tree(w)->Record_0;
    assert(fields[2].name[0] != fields[3].name[0]);
    assert forall|i: int, j: int| 0 <= i < j < fields.len() implies (#[trigger] fields[i]).name != (
    #[trigger] fields[j]).name by {
        if fields[i].name.len() == fields[j].name.len() {
            assert(fields[i].name[0] != fields[j].name[0]);
        }
    }
    assert forall|i: int| 0 <= i < fields.len() implies (#[trigger] fields[i]).value.wf() by {
    }
}

/// The tree of the application's state has no two fields of one name.
pub proof fn lemma_app_tree_wf(a: AppState)
    ensures
        app_tree(a).wf(),
{
    reveal_with_fuel(Tree::wf, 3);
    reveal_strlit("current_window_index");
    reveal_strlit("dark_theme");
    reveal_strlit("cursor");
    let fields = app_tree(a)->Record_0;
    assert forall|i: int, j: int| 0 <= i < j < fields.len() implies (#[trigger] fields[i]).name != (
    #[trigger] fields[j]).name by {
        assert(fields[i].name.len() != fields[j].name.len());
    }
}

} // verus!

//! What the caller of a handler reports back once it has performed an action that asks for it.

use crate::browser::{Browser, BrowserId, BrowserView};
use crate::engine_events::named;
use crate::error::ShellError;
use crate::events::{actions_view, push_action, Action, ActionView, EngineCommand};
use crate::state::State;
use crate::window::{WindowState, WindowView};
use crate::window_events::{step, WindowStep};
use vstd::prelude::*;
use vstd::string::*;

verus! {

/// The record of a session just created for a new tab.
pub open spec fn new_tab(id: BrowserId, focus_urlbar: bool) -> BrowserView {
    BrowserView { urlbar_focused: focus_urlbar, ..BrowserView::fresh(id) }
}

/// What the report of a new session does: the session gets a tab in the
/// foreground, and the engine is told to show it. It is refused on a window
/// that has tabs and no foreground.
pub open spec fn opened_step(w: WindowView, id: BrowserId, focus_urlbar: bool) -> Result<
    WindowStep,
    ShellError,
> {
    if w.tabs.accepts_new() {
        Ok(
            step(
                WindowView { tabs: w.tabs.appended(new_tab(id, focus_urlbar)), ..w },
                seq![ActionView::Engine(EngineCommand::SelectBrowser(id))].push(
                    ActionView::Engine(EngineCommand::UpdateGeometry),
                ),
            ),
        )
    } else {
        Err(ShellError::NoSuchBrowser)
    }
}

/// What the report of a scaled zoom factor does: the foreground tab records
/// it and the engine is told.
pub open spec fn zoomed_step(w: WindowView, zoom: u32) -> Result<WindowStep, ShellError> {
    if w.tabs.foreground() is Some {
        Ok(
            step(
                w.with_fg(BrowserView { zoom, ..w.fg() }),
                seq![ActionView::Engine(EngineCommand::Zoom(zoom))],
            ),
        )
    } else {
        Err(ShellError::NoForeground)
    }
}

/// What the report of written microdata does: the first tab that carries the
/// handle of the foreground tab says so in its title.
pub open spec fn exported_step(w: WindowView, kind: Seq<char>) -> Result<WindowStep, ShellError> {
    if w.tabs.foreground() is Some {
        let id = w.fg().id;
        match w.tabs.position(id) {
            Some(at) => Ok(
                step(
                    WindowView {
                        tabs: w.tabs.replaced(
                            at,
                            BrowserView { title: Some("Exported "@ + kind), ..named(w.tabs, id) },
                        ),
                        ..w
                    },
                    Seq::empty(),
                ),
            ),
            None => Ok(step(w, seq![ActionView::UnknownBrowser(id)])),
        }
    } else {
        Err(ShellError::NoForeground)
    }
}

/// Whether a handler that returned `done` and left the window as `after` did
/// what `wanted` says of the window as it was, `before`.
pub open spec fn reported(
    wanted: Result<WindowStep, ShellError>,
    before: WindowView,
    after: WindowView,
    done: Result<Vec<Action>, ShellError>,
) -> bool {
    match done {
        Ok(actions) => wanted == Ok::<WindowStep, ShellError>(step(after, actions_view(actions@))),
        Err(e) => wanted == Err::<WindowStep, ShellError>(e) && after == before,
    }
}

/// The caller has created the session `id` that a `NewBrowser` action asked
/// for. `focus_urlbar` says whether the platform puts the caret in the URL
/// bar of a new tab.
pub fn tab_opened(win_state: &mut State<WindowState>, id: BrowserId, focus_urlbar: bool) -> (done:
    Result<Vec<Action>, ShellError>)
    ensures
        final(win_state).baseline() == old(win_state).baseline(),
        reported(
            opened_step(old(win_state).current()@, id, focus_urlbar),
            old(win_state).current()@,
            final(win_state).current()@,
            done,
        ),
{
    let mut browser = Browser::new(id);
    browser.urlbar_focused = focus_urlbar;
    let w = win_state.get_mut();
    match w.tabs.append_new(browser) {
        Ok(_) => {
            let mut actions: Vec<Action> = Vec::new();
            assert(actions_view(actions@) =~= Seq::empty());
            push_action(&mut actions, Action::Engine(EngineCommand::SelectBrowser(id)));
            push_action(&mut actions, Action::Engine(EngineCommand::UpdateGeometry));
            Ok(actions)
        },
        Err(e) => Err(e),
    }
}

/// The caller has scaled the zoom factor that an `AdjustZoom` action named,
/// and reports the new factor, given as bits.
pub fn zoom_changed(win_state: &mut State<WindowState>, zoom: u32) -> (done: Result<
    Vec<Action>,
    ShellError,
>)
    ensures
        final(win_state).baseline() == old(win_state).baseline(),
        reported(
            zoomed_step(old(win_state).current()@, zoom),
            old(win_state).current()@,
            final(win_state).current()@,
            done,
        ),
{
    let w = win_state.get_mut();
    match w.tabs.mut_fg_browser() {
        Ok(b) => {
            b.zoom = zoom;
            let mut actions: Vec<Action> = Vec::new();
            assert(actions_view(actions@) =~= Seq::empty());
            push_action(&mut actions, Action::Engine(EngineCommand::Zoom(zoom)));
            Ok(actions)
        },
        Err(e) => Err(e),
    }
}

/// The caller has written the microdata that a `WriteMicrodata` action named,
/// and reports the format.
pub fn microdata_written(win_state: &mut State<WindowState>, kind: &str) -> (done: Result<
    Vec<Action>,
    ShellError,
>)
    ensures
        final(win_state).baseline() == old(win_state).baseline(),
        reported(
            exported_step(old(win_state).current()@, kind@),
            old(win_state).current()@,
            final(win_state).current()@,
            done,
        ),
{
    let w = win_state.get_mut();
    let id = match w.tabs.ref_fg_browser() {
        Ok(b) => b.id,
        Err(e) => {
            return Err(e);
        },
    };
    let mut actions: Vec<Action> = Vec::new();
    assert(actions_view(actions@) =~= Seq::empty());
    let title = String::from_str("Exported ").concat(kind);
    match w.tabs.find_browser(&id) {
        Some(browser) => {
            browser.title = Some(title);
        },
        None => {
            push_action(&mut actions, Action::UnknownBrowser(id));
        },
    }
    Ok(actions)
}

} // verus!

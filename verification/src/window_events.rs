//! The handler of a window's events and commands.

use crate::browser::{BrowserId, BrowserView, ZOOM_ACTUAL_SIZE};
use crate::error::ShellError;
use crate::events::{
    actions_view, push_action, Action, ActionView, EngineCommand, ViewCommand,
    WebRenderDebugOption, WindowCommand, WindowEvent, ZoomStep,
};
use crate::location::{resolution, resolve_location};
use crate::state::State;
use crate::tabs::{TabCollection, Tabs};
use crate::window::{AppState, DebugOptions, WindowState, WindowView};
use vstd::prelude::*;
use vstd::string::*;

verus! {

/// What handling a window event comes to: the window's state afterwards,
/// whether the engine must synchronise its frame whatever has changed, and
/// what the caller has to do.
pub struct WindowStep {
    pub window: WindowView,
    pub force_sync: bool,
    pub actions: Seq<ActionView>,
}

impl WindowView {
    /// This state with the foreground tab replaced.
    pub open spec fn with_fg(self, browser: BrowserView) -> WindowView {
        WindowView { tabs: self.tabs.replaced(self.tabs.foreground()->0, browser), ..self }
    }

    /// The foreground tab.
    pub open spec fn fg(self) -> BrowserView {
        self.tabs.browsers[self.tabs.foreground()->0]
    }
}

/// A step that asks for no forced synchronisation.
pub open spec fn step(window: WindowView, actions: Seq<ActionView>) -> WindowStep {
    WindowStep { window, force_sync: false, actions }
}

/// The actions for bringing the foreground tab of `tabs` up in the engine.
pub open spec fn select_fg(tabs: Tabs) -> Seq<ActionView> {
    seq![
        ActionView::Engine(EngineCommand::SelectBrowser(tabs.browsers[tabs.foreground()->0].id)),
    ]
}

/// The debugging overlays with one of them switched over.
pub open spec fn toggled(options: DebugOptions, which: WebRenderDebugOption) -> DebugOptions {
    match which {
        WebRenderDebugOption::Profiler => DebugOptions {
            wr_profiler: !options.wr_profiler,
            ..options
        },
        WebRenderDebugOption::TextureCacheDebug => DebugOptions {
            wr_texture_cache_debug: !options.wr_texture_cache_debug,
            ..options
        },
        WebRenderDebugOption::RenderTargetDebug => DebugOptions {
            wr_render_target_debug: !options.wr_render_target_debug,
            ..options
        },
    }
}

/// What a command does to a window that has a foreground tab.
pub open spec fn command_step(w: WindowView, command: WindowCommand) -> WindowStep {
    let at = w.tabs.foreground()->0;
    let fg = w.fg();
    match command {
        WindowCommand::Stop => step(w, Seq::empty()),
        WindowCommand::Reload => step(w, seq![ActionView::Engine(EngineCommand::Reload(fg.id))]),
        WindowCommand::NavigateBack => step(
            w,
            seq![ActionView::Engine(EngineCommand::GoBack(fg.id))],
        ),
        WindowCommand::NavigateForward => step(
            w,
            seq![ActionView::Engine(EngineCommand::GoForward(fg.id))],
        ),
        WindowCommand::OpenLocation => step(
            w.with_fg(BrowserView { urlbar_focused: true, ..fg }),
            Seq::empty(),
        ),
        WindowCommand::OpenInDefaultBrowser => step(
            w,
            match fg.url {
                Some(url) => seq![ActionView::OpenInDefaultBrowser(url)],
                None => Seq::empty(),
            },
        ),
        WindowCommand::ZoomIn => step(
            w,
            seq![ActionView::AdjustZoom(fg.id, fg.zoom, ZoomStep::In)],
        ),
        WindowCommand::ZoomOut => step(
            w,
            seq![ActionView::AdjustZoom(fg.id, fg.zoom, ZoomStep::Out)],
        ),
        WindowCommand::ZoomToActualSize => step(
            w.with_fg(BrowserView { zoom: ZOOM_ACTUAL_SIZE, ..fg }),
            seq![ActionView::Engine(EngineCommand::ResetZoom)],
        ),
        WindowCommand::ToggleSidebar => step(
            WindowView { sidebar_is_open: !w.sidebar_is_open, ..w },
            Seq::empty(),
        ),
        WindowCommand::ShowOptions => step(
            WindowView { options_open: !w.options_open, ..w },
            Seq::empty(),
        ),
        WindowCommand::Load(request) => match resolution(request@) {
            Some(url) => step(
                w.with_fg(BrowserView { user_input: Some(request@), urlbar_focused: false, ..fg }),
                seq![ActionView::LoadUrl(fg.id, url)],
            ),
            None => step(
                w.with_fg(BrowserView { user_input: Some(request@), ..fg }),
                seq![ActionView::RejectLocation(request@)],
            ),
        },
        WindowCommand::ToggleOptionShowLogs => step(
            WindowView { logs_visible: !w.logs_visible, ..w },
            Seq::empty(),
        ),
        WindowCommand::NewTab => step(w, seq![ActionView::NewBrowser("about:blank"@)]),
        WindowCommand::CloseTab => if w.tabs.len() > 1 {
            let tabs = w.tabs.closed(at);
            step(
                WindowView { tabs, ..w },
                seq![ActionView::Engine(EngineCommand::CloseBrowser(fg.id))] + select_fg(tabs),
            )
        } else {
            step(w, Seq::empty())
        },
        WindowCommand::PrevTab => if w.tabs.len() > 1 {
            let tabs = if at > 0 {
                w.tabs.selected(at - 1)
            } else {
                w.tabs.selected(w.tabs.len() - 1)
            };
            step(WindowView { tabs, ..w }, select_fg(tabs))
        } else {
            step(w, Seq::empty())
        },
        WindowCommand::NextTab => if w.tabs.len() > 1 {
            let tabs = if at + 1 < w.tabs.len() {
                w.tabs.selected(at + 1)
            } else {
                w.tabs.selected(0)
            };
            step(WindowView { tabs, ..w }, select_fg(tabs))
        } else {
            step(w, Seq::empty())
        },
        WindowCommand::SelectTab(idx) => if idx < w.tabs.len() {
            let tabs = w.tabs.selected(idx as int);
            step(WindowView { tabs, ..w }, select_fg(tabs))
        } else {
            step(w, Seq::empty())
        },
        WindowCommand::ToggleOptionFragmentBorders => step(w, Seq::empty()),
        WindowCommand::ToggleOptionParallelDisplayListBuidling => step(w, Seq::empty()),
        WindowCommand::ToggleOptionShowParallelLayout => step(w, Seq::empty()),
        WindowCommand::ToggleOptionConvertMouseToTouch => step(w, Seq::empty()),
        WindowCommand::ToggleOptionTileBorders => step(w, Seq::empty()),
        WindowCommand::ToggleOptionWRProfiler => step(
            WindowView {
                debug_options: toggled(w.debug_options, WebRenderDebugOption::Profiler),
                ..w
            },
            seq![
                ActionView::Engine(EngineCommand::ToggleDebugOption(WebRenderDebugOption::Profiler)),
            ],
        ),
        WindowCommand::ToggleOptionWRTextureCacheDebug => step(
            WindowView {
                debug_options: toggled(w.debug_options, WebRenderDebugOption::TextureCacheDebug),
                ..w
            },
            seq![
                ActionView::Engine(
                    EngineCommand::ToggleDebugOption(WebRenderDebugOption::TextureCacheDebug),
                ),
            ],
        ),
        WindowCommand::ToggleOptionWRTargetDebug => step(
            WindowView {
                debug_options: toggled(w.debug_options, WebRenderDebugOption::RenderTargetDebug),
                ..w
            },
            seq![
                ActionView::Engine(
                    EngineCommand::ToggleDebugOption(WebRenderDebugOption::RenderTargetDebug),
                ),
            ],
        ),
    }
}

/// What a window event does to a window: its next state and the actions to
/// perform, or the error where the event needs a foreground tab and the window
/// has none.
pub open spec fn window_step(w: WindowView, event: WindowEvent) -> Result<WindowStep, ShellError> {
    match event {
        WindowEvent::EventLoopAwaken => Ok(
            WindowStep { window: w, force_sync: true, actions: Seq::empty() },
        ),
        WindowEvent::GeometryDidChange => Ok(
            step(
                w,
                seq![ActionView::Engine(EngineCommand::UpdateGeometry)].push(
                    ActionView::View(ViewCommand::UpdateDrawable),
                ),
            ),
        ),
        WindowEvent::DidEnterFullScreen => Ok(step(w, Seq::empty())),
        WindowEvent::DidExitFullScreen => Ok(step(w, Seq::empty())),
        WindowEvent::WillClose => Ok(step(w, Seq::empty())),
        WindowEvent::OptionsClosed => Ok(
            step(WindowView { options_open: false, ..w }, Seq::empty()),
        ),
        WindowEvent::UrlbarFocusChanged(focused) => if w.tabs.foreground() is Some {
            Ok(step(w.with_fg(BrowserView { urlbar_focused: focused, ..w.fg() }), Seq::empty()))
        } else {
            Err(ShellError::NoForeground)
        },
        WindowEvent::DoCommand(command) => if w.tabs.foreground() is Some {
            Ok(command_step(w, command))
        } else {
            Err(ShellError::NoForeground)
        },
    }
}

/// No window event takes the single-foreground invariant from the window.
pub proof fn lemma_window_step_keeps_single_foreground(w: WindowView, event: WindowEvent)
    requires
        w.tabs.wf(),
    ensures
        window_step(w, event) is Ok ==> window_step(w, event)->Ok_0.window.tabs.wf(),
{
}

/// Adds the action that brings the foreground tab of `tabs` up in the engine.
fn push_select_fg(tabs: &TabCollection, actions: &mut Vec<Action>) -> (done: Result<(), ShellError>)
    ensures
        match done {
            Ok(_) => tabs@.foreground() is Some && actions_view(final(actions)@) == actions_view(
                old(actions)@,
            ) + select_fg(tabs@),
            Err(e) => e == ShellError::NoForeground && tabs@.foreground() is None && final(actions)@
                == old(actions)@,
        },
{
    match tabs.ref_fg_browser() {
        Ok(b) => {
            push_action(actions, Action::Engine(EngineCommand::SelectBrowser(b.id)));
            assert(actions_view(actions@) =~= actions_view(old(actions)@) + select_fg(tabs@));
            Ok(())
        },
        Err(e) => Err(e),
    }
}

/// The contract of a command's handler: on a window with a foreground tab it
/// does what `command_step` says, on another it changes nothing.
pub open spec fn carried_out(
    before: WindowView,
    command: WindowCommand,
    after: WindowView,
    done: Result<Vec<Action>, ShellError>,
) -> bool {
    match done {
        Ok(actions) => before.tabs.foreground() is Some && command_step(before, command) == step(
            after,
            actions_view(actions@),
        ),
        Err(e) => e == ShellError::NoForeground && before.tabs.foreground() is None && after
            == before,
    }
}

/// Takes a request from the URL bar: records it and resolves it. The URL bar
/// is left when the request stands for a location, and stays open when it
/// is rejected.
fn load(w: &mut WindowState, request: String) -> (done: Result<Vec<Action>, ShellError>)
    ensures
        carried_out(old(w)@, WindowCommand::Load(request), final(w)@, done),
{
    let mut actions: Vec<Action> = Vec::new();
    assert(actions_view(actions@) =~= Seq::empty());
    let location = resolve_location(request.as_str());
    match w.tabs.mut_fg_browser() {
        Ok(b) => {
            match location {
                Some(url) => {
                    push_action(&mut actions, Action::LoadUrl(b.id, url));
                    b.urlbar_focused = false;
                },
                None => {
                    push_action(&mut actions, Action::RejectLocation(request.clone()));
                },
            }
            b.user_input = Some(request);
            Ok(actions)
        },
        Err(e) => Err(e),
    }
}

/// Closes the foreground tab, unless it is the only one.
fn close_tab(w: &mut WindowState) -> (done: Result<Vec<Action>, ShellError>)
    ensures
        carried_out(old(w)@, WindowCommand::CloseTab, final(w)@, done),
{
    let mut actions: Vec<Action> = Vec::new();
    assert(actions_view(actions@) =~= Seq::empty());
    if w.tabs.fg_browser_index().is_err() {
        return Err(ShellError::NoForeground);
    }
    if w.tabs.has_more_than_one() {
        match w.tabs.kill_fg() {
            Ok(gone) => {
                push_action(&mut actions, Action::Engine(EngineCommand::CloseBrowser(gone.id)));
            },
            Err(e) => {
                return Err(ShellError::NoForeground);
            },
        }
        match push_select_fg(&w.tabs, &mut actions) {
            Ok(_) => {},
            Err(e) => {
                return Err(e);
            },
        }
    }
    Ok(actions)
}

/// Moves to the tab before the foreground one, from the first to the last.
fn prev_tab(w: &mut WindowState) -> (done: Result<Vec<Action>, ShellError>)
    ensures
        carried_out(old(w)@, WindowCommand::PrevTab, final(w)@, done),
{
    let mut actions: Vec<Action> = Vec::new();
    assert(actions_view(actions@) =~= Seq::empty());
    if w.tabs.fg_browser_index().is_err() {
        return Err(ShellError::NoForeground);
    }
    if w.tabs.has_more_than_one() {
        let moved = if w.tabs.can_select_prev() {
            w.tabs.select_prev()
        } else {
            w.tabs.select_last()
        };
        if moved.is_err() {
            return Err(ShellError::NoForeground);
        }
        match push_select_fg(&w.tabs, &mut actions) {
            Ok(_) => {},
            Err(e) => {
                return Err(e);
            },
        }
        assert(actions_view(actions@) =~= select_fg(w@.tabs));
    }
    Ok(actions)
}

/// Moves to the tab after the foreground one, from the last to the first.
fn next_tab(w: &mut WindowState) -> (done: Result<Vec<Action>, ShellError>)
    ensures
        carried_out(old(w)@, WindowCommand::NextTab, final(w)@, done),
{
    let mut actions: Vec<Action> = Vec::new();
    assert(actions_view(actions@) =~= Seq::empty());
    if w.tabs.fg_browser_index().is_err() {
        return Err(ShellError::NoForeground);
    }
    if w.tabs.has_more_than_one() {
        let moved = if w.tabs.can_select_next() {
            w.tabs.select_next()
        } else {
            w.tabs.select_first()
        };
        if moved.is_err() {
            return Err(ShellError::NoForeground);
        }
        match push_select_fg(&w.tabs, &mut actions) {
            Ok(_) => {},
            Err(e) => {
                return Err(e);
            },
        }
        assert(actions_view(actions@) =~= select_fg(w@.tabs));
    }
    Ok(actions)
}

/// Moves to the tab at `idx`, if there is one.
fn select_tab(w: &mut WindowState, idx: usize) -> (done: Result<Vec<Action>, ShellError>)
    ensures
        carried_out(old(w)@, WindowCommand::SelectTab(idx), final(w)@, done),
{
    let mut actions: Vec<Action> = Vec::new();
    assert(actions_view(actions@) =~= Seq::empty());
    if w.tabs.fg_browser_index().is_err() {
        return Err(ShellError::NoForeground);
    }
    if w.tabs.can_select_nth(idx) {
        if w.tabs.select_nth(idx).is_err() {
            return Err(ShellError::NoForeground);
        }
        match push_select_fg(&w.tabs, &mut actions) {
            Ok(_) => {},
            Err(e) => {
                return Err(e);
            },
        }
        assert(actions_view(actions@) =~= select_fg(w@.tabs));
    }
    Ok(actions)
}

/// Puts the caret in the URL bar of the foreground tab.
fn open_location(w: &mut WindowState) -> (done: Result<Vec<Action>, ShellError>)
    ensures
        carried_out(old(w)@, WindowCommand::OpenLocation, final(w)@, done),
{
    let actions: Vec<Action> = Vec::new();
    assert(actions_view(actions@) =~= Seq::empty());
    match w.tabs.mut_fg_browser() {
        Ok(b) => {
            b.urlbar_focused = true;
            Ok(actions)
        },
        Err(e) => Err(e),
    }
}

/// Asks for the page of the foreground tab to be opened elsewhere, if it has
/// a URL.
fn open_in_default_browser(w: &WindowState) -> (done: Result<Vec<Action>, ShellError>)
    ensures
        carried_out(w@, WindowCommand::OpenInDefaultBrowser, w@, done),
{
    let mut actions: Vec<Action> = Vec::new();
    assert(actions_view(actions@) =~= Seq::empty());
    match w.tabs.ref_fg_browser() {
        Ok(b) => {
            match &b.url {
                Some(url) => {
                    push_action(&mut actions, Action::OpenInDefaultBrowser(url.clone()));
                },
                None => {},
            }
            Ok(actions)
        },
        Err(e) => Err(e),
    }
}

/// Asks for the zoom factor of the foreground tab to be scaled one step.
fn adjust_zoom(w: &WindowState, step: ZoomStep) -> (done: Result<Vec<Action>, ShellError>)
    ensures
        carried_out(
            w@,
            match step {
                ZoomStep::In => WindowCommand::ZoomIn,
                ZoomStep::Out => WindowCommand::ZoomOut,
            },
            w@,
            done,
        ),
{
    let mut actions: Vec<Action> = Vec::new();
    assert(actions_view(actions@) =~= Seq::empty());
    match w.tabs.ref_fg_browser() {
        Ok(b) => {
            push_action(&mut actions, Action::AdjustZoom(b.id, b.zoom, step));
            Ok(actions)
        },
        Err(e) => Err(e),
    }
}

/// Shows the page of the foreground tab in its actual size.
fn reset_zoom(w: &mut WindowState) -> (done: Result<Vec<Action>, ShellError>)
    ensures
        carried_out(old(w)@, WindowCommand::ZoomToActualSize, final(w)@, done),
{
    let mut actions: Vec<Action> = Vec::new();
    assert(actions_view(actions@) =~= Seq::empty());
    match w.tabs.mut_fg_browser() {
        Ok(b) => {
            b.zoom = ZOOM_ACTUAL_SIZE;
            push_action(&mut actions, Action::Engine(EngineCommand::ResetZoom));
            Ok(actions)
        },
        Err(e) => Err(e),
    }
}

/// Carries out a command on a window that has a foreground tab.
fn do_command(w: &mut WindowState, command: WindowCommand) -> (done: Result<Vec<Action>, ShellError>)
    ensures
        carried_out(old(w)@, command, final(w)@, done),
{
    let mut actions: Vec<Action> = Vec::new();
    assert(actions_view(actions@) =~= Seq::empty());
    let bid = match w.tabs.ref_fg_browser() {
        Ok(b) => b.id,
        Err(e) => {
            return Err(e);
        },
    };
    match command {
        WindowCommand::Stop => {},
        WindowCommand::Reload => {
            push_action(&mut actions, Action::Engine(EngineCommand::Reload(bid)));
        },
        WindowCommand::NavigateBack => {
            push_action(&mut actions, Action::Engine(EngineCommand::GoBack(bid)));
        },
        WindowCommand::NavigateForward => {
            push_action(&mut actions, Action::Engine(EngineCommand::GoForward(bid)));
        },
        WindowCommand::OpenLocation => {
            return open_location(w);
        },
        WindowCommand::OpenInDefaultBrowser => {
            return open_in_default_browser(w);
        },
        WindowCommand::ZoomIn => {
            return adjust_zoom(w, ZoomStep::In);
        },
        WindowCommand::ZoomOut => {
            return adjust_zoom(w, ZoomStep::Out);
        },
        WindowCommand::ZoomToActualSize => {
            return reset_zoom(w);
        },
        WindowCommand::ToggleSidebar => {
            w.sidebar_is_open = !w.sidebar_is_open;
        },
        WindowCommand::ShowOptions => {
            w.options_open = !w.options_open;
        },
        WindowCommand::Load(request) => {
            return load(w, request);
        },
        WindowCommand::ToggleOptionShowLogs => {
            w.logs_visible = !w.logs_visible;
        },
        WindowCommand::NewTab => {
            push_action(&mut actions, Action::NewBrowser(String::from_str("about:blank")));
        },
        WindowCommand::CloseTab => {
            return close_tab(w);
        },
        WindowCommand::PrevTab => {
            return prev_tab(w);
        },
        WindowCommand::NextTab => {
            return next_tab(w);
        },
        WindowCommand::SelectTab(idx) => {
            return select_tab(w, idx);
        },
        WindowCommand::ToggleOptionFragmentBorders => {},
        WindowCommand::ToggleOptionParallelDisplayListBuidling => {},
        WindowCommand::ToggleOptionShowParallelLayout => {},
        WindowCommand::ToggleOptionConvertMouseToTouch => {},
        WindowCommand::ToggleOptionTileBorders => {},
        WindowCommand::ToggleOptionWRProfiler => {
            w.debug_options.wr_profiler = !w.debug_options.wr_profiler;
            push_action(
                &mut actions,
                Action::Engine(EngineCommand::ToggleDebugOption(WebRenderDebugOption::Profiler)),
            );
        },
        WindowCommand::ToggleOptionWRTextureCacheDebug => {
            w.debug_options.wr_texture_cache_debug = !w.debug_options.wr_texture_cache_debug;
            push_action(
                &mut actions,
                Action::Engine(
                    EngineCommand::ToggleDebugOption(WebRenderDebugOption::TextureCacheDebug),
                ),
            );
        },
        WindowCommand::ToggleOptionWRTargetDebug => {
            w.debug_options.wr_render_target_debug = !w.debug_options.wr_render_target_debug;
            push_action(
                &mut actions,
                Action::Engine(
                    EngineCommand::ToggleDebugOption(WebRenderDebugOption::RenderTargetDebug),
                ),
            );
        },
    }
    Ok(actions)
}

/// Handles one event of the window: changes the window's state and says what
/// the caller has to do. The flag asks for the engine's frame to be
/// synchronised at the end of the tick, whatever has changed.
pub fn handle_win_event(
    win_state: &mut State<WindowState>,
    app_state: &mut State<AppState>,
    event: WindowEvent,
) -> (handled: Result<(bool, Vec<Action>), ShellError>)
    ensures
        *final(app_state) == *old(app_state),
        final(win_state).baseline() == old(win_state).baseline(),
        match handled {
            Ok((force_sync, actions)) => window_step(old(win_state).current()@, event) == Ok::<
                WindowStep,
                ShellError,
            >(
                WindowStep {
                    window: final(win_state).current()@,
                    force_sync,
                    actions: actions_view(actions@),
                },
            ),
            Err(e) => {
                &&& window_step(old(win_state).current()@, event) == Err::<WindowStep, ShellError>(e)
                &&& final(win_state).current()@ == old(win_state).current()@
            },
        },
{
    let mut actions: Vec<Action> = Vec::new();
    assert(actions_view(actions@) =~= Seq::empty());
    let w = win_state.get_mut();
    match event {
        WindowEvent::EventLoopAwaken => {
            return Ok((true, actions));
        },
        WindowEvent::GeometryDidChange => {
            push_action(&mut actions, Action::Engine(EngineCommand::UpdateGeometry));
            push_action(&mut actions, Action::View(ViewCommand::UpdateDrawable));
        },
        WindowEvent::DidEnterFullScreen => {},
        WindowEvent::DidExitFullScreen => {},
        WindowEvent::WillClose => {},
        WindowEvent::OptionsClosed => {
            w.options_open = false;
        },
        WindowEvent::UrlbarFocusChanged(focused) => {
            match w.tabs.mut_fg_browser() {
                Ok(b) => {
                    b.urlbar_focused = focused;
                },
                Err(e) => {
                    return Err(e);
                },
            }
        },
        WindowEvent::DoCommand(command) => {
            match do_command(w, command) {
                Ok(done) => {
                    return Ok((false, done));
                },
                Err(e) => {
                    return Err(e);
                },
            }
        },
    }
    Ok((false, actions))
}

} // verus!

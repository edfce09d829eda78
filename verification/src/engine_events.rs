//! The handler of the engine's events.

use crate::browser::{text_view, BrowserId, BrowserView};
use crate::error::ShellError;
use crate::events::{actions_view, push_action, Action, ActionView, ServoEvent, ViewCommand};
use crate::state::State;
use crate::tabs::Tabs;
use crate::window::{AppState, WindowState, WindowView};
use vstd::prelude::*;
use vstd::string::*;

verus! {

/// What handling an engine event comes to: the two states afterwards and what
/// the caller has to do.
pub struct ServoStep {
    pub window: WindowView,
    pub app: AppState,
    pub actions: Seq<ActionView>,
}

/// The tab for `id` after the engine reported something about it: changed as
/// `changed` says where the window holds it, else reported as unknown.
pub open spec fn about_browser(
    w: WindowView,
    a: AppState,
    id: BrowserId,
    changed: BrowserView,
) -> ServoStep {
    match w.tabs.position(id) {
        Some(at) => ServoStep {
            window: WindowView { tabs: w.tabs.replaced(at, changed), ..w },
            app: a,
            actions: Seq::empty(),
        },
        None => ServoStep { window: w, app: a, actions: seq![ActionView::UnknownBrowser(id)] },
    }
}

/// The tab that an event about `id` speaks of.
pub open spec fn named(tabs: Tabs, id: BrowserId) -> BrowserView {
    tabs.browsers[tabs.position(id)->0]
}

/// The name, in the user's home, of the file that takes microdata of a format.
pub open spec fn microdata_file(kind: Seq<char>) -> Option<Seq<char>> {
    if kind == "vcard"@ {
        Some("microdata.vcf"@)
    } else if kind == "json"@ {
        Some("microdata.json"@)
    } else {
        None
    }
}

/// What an engine event does to the states of the window and the application.
pub open spec fn servo_step(w: WindowView, a: AppState, event: ServoEvent) -> Result<
    ServoStep,
    ShellError,
> {
    let nothing = ServoStep { window: w, app: a, actions: Seq::empty() };
    match event {
        ServoEvent::SetWindowInnerSize(_, _) => Ok(nothing),
        ServoEvent::SetWindowPosition(_, _) => Ok(nothing),
        ServoEvent::SetFullScreenState(fullscreen) => Ok(
            ServoStep {
                actions: seq![
                    ActionView::View(
                        if fullscreen {
                            ViewCommand::EnterFullscreen
                        } else {
                            ViewCommand::ExitFullscreen
                        },
                    ),
                ],
                ..nothing
            },
        ),
        ServoEvent::TitleChanged(id, title) => Ok(
            about_browser(w, a, id, BrowserView { title: text_view(title), ..named(w.tabs, id) }),
        ),
        ServoEvent::StatusChanged(status) => Ok(
            ServoStep { window: WindowView { status: text_view(status), ..w }, ..nothing },
        ),
        ServoEvent::LoadStart(id) => Ok(
            about_browser(w, a, id, BrowserView { is_loading: true, ..named(w.tabs, id) }),
        ),
        ServoEvent::LoadEnd(id) => Ok(
            about_browser(w, a, id, BrowserView { is_loading: false, ..named(w.tabs, id) }),
        ),
        ServoEvent::HeadParsed(_) => Ok(nothing),
        ServoEvent::HistoryChanged(id, entries, current) => if w.tabs.position(id) is Some
            && current >= entries@.len() {
            Err(ShellError::BadHistoryIndex)
        } else {
            Ok(
                about_browser(
                    w,
                    a,
                    id,
                    BrowserView {
                        url: Some(entries@[current as int]@),
                        can_go_back: current > 0,
                        can_go_forward: current + 1 < entries@.len(),
                        ..named(w.tabs, id)
                    },
                ),
            )
        },
        ServoEvent::CursorChanged(cursor) => Ok(
            ServoStep { app: AppState { cursor, ..a }, ..nothing },
        ),
        ServoEvent::FaviconChanged(_, _) => Ok(nothing),
        ServoEvent::Key(_) => Ok(nothing),
        ServoEvent::OpenInDefaultBrowser(url) => Ok(
            ServoStep { actions: seq![ActionView::OpenInDefaultBrowser(url@)], ..nothing },
        ),
        ServoEvent::WriteMicrodata(microdata, kind) => match microdata_file(kind@) {
            Some(name) => Ok(
                ServoStep {
                    actions: seq![ActionView::WriteMicrodata(name, microdata@, kind@)],
                    ..nothing
                },
            ),
            None => Err(ShellError::UnknownMicrodataType),
        },
    }
}

/// No engine event takes the single-foreground invariant from the window.
pub proof fn lemma_servo_step_keeps_single_foreground(w: WindowView, a: AppState, event: ServoEvent)
    requires
        w.tabs.wf(),
    ensures
        servo_step(w, a, event) is Ok ==> servo_step(w, a, event)->Ok_0.window.tabs.wf(),
{
    match event {
        ServoEvent::TitleChanged(id, _) => {
            crate::tabs::lemma_position_from(w.tabs.browsers, id, 0);
        },
        ServoEvent::LoadStart(id) => {
            crate::tabs::lemma_position_from(w.tabs.browsers, id, 0);
        },
        ServoEvent::LoadEnd(id) => {
            crate::tabs::lemma_position_from(w.tabs.browsers, id, 0);
        },
        ServoEvent::HistoryChanged(id, _, _) => {
            crate::tabs::lemma_position_from(w.tabs.browsers, id, 0);
        },
        _ => {},
    }
}

/// The contract of a change to the tab for `id`: what `about_browser` says.
pub open spec fn told(
    before: WindowView,
    id: BrowserId,
    changed: BrowserView,
    after: WindowView,
    actions: Seq<ActionView>,
) -> bool {
    match before.tabs.position(id) {
        Some(at) => after == (WindowView { tabs: before.tabs.replaced(at, changed), ..before })
            && actions == Seq::<ActionView>::empty(),
        None => after == before && actions == seq![ActionView::UnknownBrowser(id)],
    }
}

/// Records the title of the tab for `id`.
fn set_title(w: &mut WindowState, id: BrowserId, title: Option<String>) -> (actions: Vec<Action>)
    ensures
        told(
            old(w)@,
            id,
            BrowserView { title: text_view(title), ..named(old(w)@.tabs, id) },
            final(w)@,
            actions_view(actions@),
        ),
{
    let mut actions: Vec<Action> = Vec::new();
    assert(actions_view(actions@) =~= Seq::empty());
    match w.tabs.find_browser(&id) {
        Some(browser) => {
            browser.title = title;
        },
        None => {
            push_action(&mut actions, Action::UnknownBrowser(id));
        },
    }
    actions
}

/// Records whether the tab for `id` is loading.
fn set_loading(w: &mut WindowState, id: BrowserId, loading: bool) -> (actions: Vec<Action>)
    ensures
        told(
            old(w)@,
            id,
            BrowserView { is_loading: loading, ..named(old(w)@.tabs, id) },
            final(w)@,
            actions_view(actions@),
        ),
{
    let mut actions: Vec<Action> = Vec::new();
    assert(actions_view(actions@) =~= Seq::empty());
    match w.tabs.find_browser(&id) {
        Some(browser) => {
            browser.is_loading = loading;
        },
        None => {
            push_action(&mut actions, Action::UnknownBrowser(id));
        },
    }
    actions
}

/// Records where the tab for `id` stands in its history.
fn set_history(w: &mut WindowState, id: BrowserId, entries: Vec<String>, current: usize) -> (done:
    Result<Vec<Action>, ShellError>)
    ensures
        match done {
            Ok(actions) => {
                &&& !(old(w)@.tabs.position(id) is Some && current >= entries@.len())
                &&& told(
                    old(w)@,
                    id,
                    BrowserView {
                        url: Some(entries@[current as int]@),
                        can_go_back: current > 0,
                        can_go_forward: current + 1 < entries@.len(),
                        ..named(old(w)@.tabs, id)
                    },
                    final(w)@,
                    actions_view(actions@),
                )
            },
            Err(e) => {
                &&& e == ShellError::BadHistoryIndex
                &&& old(w)@.tabs.position(id) is Some
                &&& current >= entries@.len()
                &&& final(w)@ == old(w)@
            },
        },
{
    let mut actions: Vec<Action> = Vec::new();
    assert(actions_view(actions@) =~= Seq::empty());
    if current >= entries.len() {
        if w.tabs.has_browser(&id) {
            return Err(ShellError::BadHistoryIndex);
        }
        push_action(&mut actions, Action::UnknownBrowser(id));
        return Ok(actions);
    }
    match w.tabs.find_browser(&id) {
        Some(browser) => {
            browser.url = Some(entries[current].clone());
            browser.can_go_back = current > 0;
            browser.can_go_forward = current < entries.len() - 1;
        },
        None => {
            push_action(&mut actions, Action::UnknownBrowser(id));
        },
    }
    Ok(actions)
}

/// The name of the file that takes microdata of a format.
fn microdata_name(kind: &String) -> (name: Option<String>)
    ensures
        text_view(name) == microdata_file(kind@),
{
    if *kind == String::from_str("vcard") {
        Some(String::from_str("microdata.vcf"))
    } else if *kind == String::from_str("json") {
        Some(String::from_str("microdata.json"))
    } else {
        None
    }
}

/// Handles one event of the engine. An event about a session that the window
/// no longer holds changes nothing and is reported as an action.
pub fn handle_servo_event(
    win_state: &mut State<WindowState>,
    app_state: &mut State<AppState>,
    event: ServoEvent,
) -> (handled: Result<Vec<Action>, ShellError>)
    ensures
        final(win_state).baseline() == old(win_state).baseline(),
        final(app_state).baseline() == old(app_state).baseline(),
        match handled {
            Ok(actions) => servo_step(old(win_state).current()@, old(app_state).current(), event)
                == Ok::<ServoStep, ShellError>(
                ServoStep {
                    window: final(win_state).current()@,
                    app: final(app_state).current(),
                    actions: actions_view(actions@),
                },
            ),
            Err(e) => {
                &&& servo_step(old(win_state).current()@, old(app_state).current(), event) == Err::<
                    ServoStep,
                    ShellError,
                >(e)
                &&& final(win_state).current()@ == old(win_state).current()@
                &&& final(app_state).current() == old(app_state).current()
            },
        },
{
    let mut actions: Vec<Action> = Vec::new();
    assert(actions_view(actions@) =~= Seq::empty());
    match event {
        ServoEvent::SetWindowInnerSize(_, _) => {},
        ServoEvent::SetWindowPosition(_, _) => {},
        ServoEvent::SetFullScreenState(fullscreen) => {
            if fullscreen {
                push_action(&mut actions, Action::View(ViewCommand::EnterFullscreen));
            } else {
                push_action(&mut actions, Action::View(ViewCommand::ExitFullscreen));
            }
        },
        ServoEvent::TitleChanged(id, title) => {
            return Ok(set_title(win_state.get_mut(), id, title));
        },
        ServoEvent::StatusChanged(status) => {
            win_state.get_mut().status = status;
        },
        ServoEvent::LoadStart(id) => {
            return Ok(set_loading(win_state.get_mut(), id, true));
        },
        ServoEvent::LoadEnd(id) => {
            return Ok(set_loading(win_state.get_mut(), id, false));
        },
        ServoEvent::HeadParsed(_) => {},
        ServoEvent::HistoryChanged(id, entries, current) => {
            return set_history(win_state.get_mut(), id, entries, current);
        },
        ServoEvent::CursorChanged(cursor) => {
            let a = app_state.get_mut();
            if cursor != a.cursor {
                a.cursor = cursor;
            }
        },
        ServoEvent::FaviconChanged(_, _) => {},
        ServoEvent::Key(_) => {},
        ServoEvent::OpenInDefaultBrowser(url) => {
            push_action(&mut actions, Action::OpenInDefaultBrowser(url));
        },
        ServoEvent::WriteMicrodata(microdata, kind) => {
            match microdata_name(&kind) {
                Some(name) => {
                    push_action(&mut actions, Action::WriteMicrodata(name, microdata, kind));
                },
                None => {
                    return Err(ShellError::UnknownMicrodataType);
                },
            }
        },
    }
    Ok(actions)
}

} // verus!

//! The handler of the events of the rendering surface.

use crate::error::ShellError;
use crate::events::{actions_view, push_action, Action, ActionView, EngineCommand, ViewCommand, ViewEvent};
use crate::state::State;
use crate::window::{AppState, WindowState, WindowView};
use vstd::prelude::*;

verus! {

/// What the caller has to do for an event of the rendering surface: hand the
/// input on to the engine, a key stroke to the session in the foreground.
pub open spec fn view_step(w: WindowView, event: ViewEvent) -> Result<Seq<ActionView>, ShellError> {
    match event {
        ViewEvent::GeometryDidChange => Ok(
            seq![ActionView::Engine(EngineCommand::UpdateGeometry)].push(
                ActionView::View(ViewCommand::UpdateDrawable),
            ),
        ),
        ViewEvent::MouseWheel(delta, phase) => Ok(
            seq![ActionView::Engine(EngineCommand::Scroll(delta, phase))],
        ),
        ViewEvent::MouseMoved(x, y) => Ok(seq![ActionView::Engine(EngineCommand::MouseMove(x, y))]),
        ViewEvent::MouseInput(state, button, x, y) => Ok(
            seq![ActionView::Engine(EngineCommand::Click(x, y, state, button))],
        ),
        ViewEvent::KeyEvent(stroke) => if w.tabs.foreground() is Some {
            Ok(seq![ActionView::Engine(EngineCommand::SendKey(w.fg().id, stroke))])
        } else {
            Err(ShellError::NoForeground)
        },
    }
}

/// Handles one event of the rendering surface. No state changes.
pub fn handle_view_event(
    win_state: &mut State<WindowState>,
    app_state: &mut State<AppState>,
    event: ViewEvent,
) -> (handled: Result<Vec<Action>, ShellError>)
    ensures
        *final(win_state) == *old(win_state),
        *final(app_state) == *old(app_state),
        match handled {
            Ok(actions) => view_step(old(win_state).current()@, event) == Ok::<
                Seq<ActionView>,
                ShellError,
            >(actions_view(actions@)),
            Err(e) => view_step(old(win_state).current()@, event) == Err::<
                Seq<ActionView>,
                ShellError,
            >(e),
        },
{
    let mut actions: Vec<Action> = Vec::new();
    assert(actions_view(actions@) =~= Seq::empty());
    match event {
        ViewEvent::GeometryDidChange => {
            push_action(&mut actions, Action::Engine(EngineCommand::UpdateGeometry));
            push_action(&mut actions, Action::View(ViewCommand::UpdateDrawable));
        },
        ViewEvent::MouseWheel(delta, phase) => {
            push_action(&mut actions, Action::Engine(EngineCommand::Scroll(delta, phase)));
        },
        ViewEvent::MouseMoved(x, y) => {
            push_action(&mut actions, Action::Engine(EngineCommand::MouseMove(x, y)));
        },
        ViewEvent::MouseInput(state, button, x, y) => {
            push_action(&mut actions, Action::Engine(EngineCommand::Click(x, y, state, button)));
        },
        ViewEvent::KeyEvent(stroke) => {
            match win_state.get().tabs.ref_fg_browser() {
                Ok(b) => {
                    push_action(&mut actions, Action::Engine(EngineCommand::SendKey(b.id, stroke)));
                },
                Err(e) => {
                    return Err(e);
                },
            }
        },
    }
    Ok(actions)
}

} // verus!

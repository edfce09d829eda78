//! The handler of the application's events.

use crate::error::ShellError;
use crate::events::{
    actions_view, push_action, Action, ActionView, AppCommand, AppEvent, EngineCommand, ViewCommand,
};
use crate::state::State;
use crate::window::{AppState, WindowState};
use vstd::prelude::*;

verus! {

/// The application's state after an event of the application.
pub open spec fn app_step(a: AppState, event: AppEvent) -> AppState {
    match event {
        AppEvent::DoCommand(AppCommand::ToggleOptionDarkTheme) => AppState {
            dark_theme: !a.dark_theme,
            ..a
        },
        _ => a,
    }
}

/// What the caller has to do for an event of the application.
pub open spec fn app_actions(event: AppEvent) -> Seq<ActionView> {
    match event {
        AppEvent::DidChangeScreenParameters => seq![
            ActionView::Engine(EngineCommand::UpdateGeometry),
        ].push(ActionView::View(ViewCommand::UpdateDrawable)),
        _ => Seq::empty(),
    }
}

/// Handles one event of the application. It never fails.
pub fn handle_app_event(
    win_state: &mut State<WindowState>,
    app_state: &mut State<AppState>,
    event: AppEvent,
) -> (handled: Result<Vec<Action>, ShellError>)
    ensures
        *final(win_state) == *old(win_state),
        final(app_state).baseline() == old(app_state).baseline(),
        final(app_state).current() == app_step(old(app_state).current(), event),
        handled is Ok,
        actions_view(handled->Ok_0@) == app_actions(event),
{
    let mut actions: Vec<Action> = Vec::new();
    assert(actions_view(actions@) =~= Seq::empty());
    match event {
        AppEvent::DidFinishLaunching => {},
        AppEvent::WillTerminate => {},
        AppEvent::DidChangeScreenParameters => {
            push_action(&mut actions, Action::Engine(EngineCommand::UpdateGeometry));
            push_action(&mut actions, Action::View(ViewCommand::UpdateDrawable));
        },
        AppEvent::DoCommand(command) => {
            match command {
                AppCommand::ClearHistory => {},
                AppCommand::ToggleOptionDarkTheme => {
                    let a = app_state.get_mut();
                    a.dark_theme = !a.dark_theme;
                },
            }
        },
    }
    Ok(actions)
}

} // verus!

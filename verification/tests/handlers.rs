use servoshell::app_events::handle_app_event;
use servoshell::browser::{BrowserId, ZOOM_ACTUAL_SIZE};
use servoshell::engine_events::handle_servo_event;
use servoshell::error::ShellError;
use servoshell::events::{
    Action, AppCommand, AppEvent, ElementState, EngineCommand, KeyState, KeyStroke, MouseButton,
    MouseScrollDelta, ServoEvent, TouchPhase, ViewCommand, ViewEvent, WebRenderDebugOption,
    WindowCommand, WindowEvent, ZoomStep,
};
use servoshell::reports::{microdata_written, tab_opened, zoom_changed};
use servoshell::state::State;
use servoshell::view_events::handle_view_event;
use servoshell::window::{AppState, Cursor, WindowState};
use servoshell::window_events::handle_win_event;

fn shell_with(tabs: u32) -> (State<WindowState>, State<AppState>) {
    let mut win = State::new(WindowState::new());
    for id in 1..=tabs {
        tab_opened(&mut win, BrowserId(id), false).unwrap();
    }
    win.snapshot();
    (win, State::new(AppState::new()))
}

fn command(
    win: &mut State<WindowState>,
    app: &mut State<AppState>,
    cmd: WindowCommand,
) -> Vec<Action> {
    let (force, actions) = handle_win_event(win, app, WindowEvent::DoCommand(cmd)).unwrap();
    assert!(!force);
    actions
}

fn fg_id(win: &State<WindowState>) -> BrowserId {
    win.get().tabs.ref_fg_browser().unwrap().id
}

fn select(id: u32) -> Action {
    Action::Engine(EngineCommand::SelectBrowser(BrowserId(id)))
}

#[test]
fn history_for_an_unknown_session_changes_nothing() {
    let (mut win, mut app) = shell_with(2);
    let before = win.get().duplicate_state();
    let actions = handle_servo_event(
        &mut win,
        &mut app,
        ServoEvent::HistoryChanged(BrowserId(99), vec!["http://a/".to_string()], 0),
    )
    .unwrap();
    assert_eq!(actions, vec![Action::UnknownBrowser(BrowserId(99))]);
    assert_eq!(win.get(), &before);
    assert!(!win.has_changed());
    assert!(!app.has_changed());
    let actions = handle_servo_event(
        &mut win,
        &mut app,
        ServoEvent::HistoryChanged(BrowserId(99), vec![], 3),
    )
    .unwrap();
    assert_eq!(actions, vec![Action::UnknownBrowser(BrowserId(99))]);
    assert!(!win.has_changed());
}

trait DuplicateState {
    fn duplicate_state(&self) -> WindowState;
}

impl DuplicateState for WindowState {
    fn duplicate_state(&self) -> WindowState {
        servoshell::state::Snapshot::duplicate(self)
    }
}

#[test]
fn history_sets_the_url_and_the_two_directions() {
    let (mut win, mut app) = shell_with(2);
    let entries = vec!["http://a/".to_string(), "http://b/".to_string(), "http://c/".to_string()];
    let actions = handle_servo_event(
        &mut win,
        &mut app,
        ServoEvent::HistoryChanged(BrowserId(1), entries.clone(), 1),
    )
    .unwrap();
    assert_eq!(actions, vec![]);
    let first = win.get().tabs.browser_at(0).unwrap();
    assert_eq!(first.url, Some("http://b/".to_string()));
    assert!(first.can_go_back);
    assert!(first.can_go_forward);
    handle_servo_event(&mut win, &mut app, ServoEvent::HistoryChanged(BrowserId(1), entries.clone(), 0))
        .unwrap();
    let first = win.get().tabs.browser_at(0).unwrap();
    assert_eq!(first.url, Some("http://a/".to_string()));
    assert!(!first.can_go_back);
    assert!(first.can_go_forward);
    handle_servo_event(&mut win, &mut app, ServoEvent::HistoryChanged(BrowserId(1), entries.clone(), 2))
        .unwrap();
    let first = win.get().tabs.browser_at(0).unwrap();
    assert_eq!(first.url, Some("http://c/".to_string()));
    assert!(first.can_go_back);
    assert!(!first.can_go_forward);
    assert_eq!(win.get().tabs.browser_at(1).unwrap().url, None);
    let before = win.get().duplicate_state();
    assert_eq!(
        handle_servo_event(&mut win, &mut app, ServoEvent::HistoryChanged(BrowserId(1), entries, 3)),
        Err(ShellError::BadHistoryIndex)
    );
    assert_eq!(win.get(), &before);
}

#[test]
fn engine_events_about_a_tab_reach_it_in_the_background_too() {
    let (mut win, mut app) = shell_with(2);
    assert_eq!(
        handle_servo_event(
            &mut win,
            &mut app,
            ServoEvent::TitleChanged(BrowserId(1), Some("One".to_string()))
        ),
        Ok(vec![])
    );
    assert_eq!(handle_servo_event(&mut win, &mut app, ServoEvent::LoadStart(BrowserId(1))), Ok(vec![]));
    let first = win.get().tabs.browser_at(0).unwrap();
    assert_eq!(first.title, Some("One".to_string()));
    assert!(first.is_loading);
    assert!(first.is_background);
    assert_eq!(handle_servo_event(&mut win, &mut app, ServoEvent::LoadEnd(BrowserId(1))), Ok(vec![]));
    assert!(!win.get().tabs.browser_at(0).unwrap().is_loading);
    assert_eq!(
        handle_servo_event(&mut win, &mut app, ServoEvent::LoadStart(BrowserId(5))),
        Ok(vec![Action::UnknownBrowser(BrowserId(5))])
    );
    assert_eq!(
        handle_servo_event(&mut win, &mut app, ServoEvent::LoadEnd(BrowserId(5))),
        Ok(vec![Action::UnknownBrowser(BrowserId(5))])
    );
    assert_eq!(
        handle_servo_event(&mut win, &mut app, ServoEvent::TitleChanged(BrowserId(5), None)),
        Ok(vec![Action::UnknownBrowser(BrowserId(5))])
    );
    assert_eq!(
        handle_servo_event(&mut win, &mut app, ServoEvent::TitleChanged(BrowserId(1), None)),
        Ok(vec![])
    );
    assert_eq!(win.get().tabs.browser_at(0).unwrap().title, None);
}

#[test]
fn engine_events_about_the_window_and_the_application() {
    let (mut win, mut app) = shell_with(1);
    assert_eq!(
        handle_servo_event(&mut win, &mut app, ServoEvent::StatusChanged(Some("hover".to_string()))),
        Ok(vec![])
    );
    assert_eq!(win.get().status, Some("hover".to_string()));
    assert_eq!(handle_servo_event(&mut win, &mut app, ServoEvent::StatusChanged(None)), Ok(vec![]));
    assert_eq!(win.get().status, None);
    assert_eq!(handle_servo_event(&mut win, &mut app, ServoEvent::CursorChanged(Cursor(4))), Ok(vec![]));
    assert_eq!(app.get().cursor, Cursor(4));
    assert!(app.has_changed());
    assert_eq!(
        handle_servo_event(&mut win, &mut app, ServoEvent::SetFullScreenState(true)),
        Ok(vec![Action::View(ViewCommand::EnterFullscreen)])
    );
    assert_eq!(
        handle_servo_event(&mut win, &mut app, ServoEvent::SetFullScreenState(false)),
        Ok(vec![Action::View(ViewCommand::ExitFullscreen)])
    );
    assert_eq!(
        handle_servo_event(
            &mut win,
            &mut app,
            ServoEvent::OpenInDefaultBrowser("http://a/".to_string())
        ),
        Ok(vec![Action::OpenInDefaultBrowser("http://a/".to_string())])
    );
    let stroke = KeyStroke { character: Some('a'), key: 1, state: KeyState::Pressed, modifiers: 0 };
    for quiet in [
        ServoEvent::SetWindowInnerSize(1, 2),
        ServoEvent::SetWindowPosition(-1, 2),
        ServoEvent::HeadParsed(BrowserId(1)),
        ServoEvent::FaviconChanged(BrowserId(1), "http://a/i.png".to_string()),
        ServoEvent::Key(stroke),
    ] {
        win.snapshot();
        app.snapshot();
        assert_eq!(handle_servo_event(&mut win, &mut app, quiet), Ok(vec![]));
        assert!(!win.has_changed());
        assert!(!app.has_changed());
    }
}

#[test]
fn microdata_goes_to_a_file_named_by_its_format() {
    let (mut win, mut app) = shell_with(2);
    assert_eq!(
        handle_servo_event(
            &mut win,
            &mut app,
            ServoEvent::WriteMicrodata("BEGIN:VCARD".to_string(), "vcard".to_string())
        ),
        Ok(vec![Action::WriteMicrodata(
            "microdata.vcf".to_string(),
            "BEGIN:VCARD".to_string(),
            "vcard".to_string()
        )])
    );
    assert_eq!(
        handle_servo_event(
            &mut win,
            &mut app,
            ServoEvent::WriteMicrodata("{}".to_string(), "json".to_string())
        ),
        Ok(vec![Action::WriteMicrodata(
            "microdata.json".to_string(),
            "{}".to_string(),
            "json".to_string()
        )])
    );
    assert_eq!(
        handle_servo_event(
            &mut win,
            &mut app,
            ServoEvent::WriteMicrodata("x".to_string(), "xml".to_string())
        ),
        Err(ShellError::UnknownMicrodataType)
    );
    assert!(!win.has_changed());
    assert_eq!(microdata_written(&mut win, "json"), Ok(vec![]));
    assert_eq!(win.get().tabs.ref_fg_browser().unwrap().title, Some("Exported json".to_string()));
    assert_eq!(win.get().tabs.browser_at(0).unwrap().title, None);
    let mut empty = State::new(WindowState::new());
    assert_eq!(microdata_written(&mut empty, "json"), Err(ShellError::NoForeground));
}

#[test]
fn window_events_without_a_command() {
    let (mut win, mut app) = shell_with(1);
    assert_eq!(handle_win_event(&mut win, &mut app, WindowEvent::EventLoopAwaken), Ok((true, vec![])));
    assert!(!win.has_changed());
    assert_eq!(
        handle_win_event(&mut win, &mut app, WindowEvent::GeometryDidChange),
        Ok((
            false,
            vec![
                Action::Engine(EngineCommand::UpdateGeometry),
                Action::View(ViewCommand::UpdateDrawable)
            ]
        ))
    );
    for quiet in [WindowEvent::DidEnterFullScreen, WindowEvent::DidExitFullScreen, WindowEvent::WillClose] {
        assert_eq!(handle_win_event(&mut win, &mut app, quiet), Ok((false, vec![])));
    }
    assert!(!win.has_changed());
    command(&mut win, &mut app, WindowCommand::ShowOptions);
    assert!(win.get().options_open);
    assert_eq!(handle_win_event(&mut win, &mut app, WindowEvent::OptionsClosed), Ok((false, vec![])));
    assert!(!win.get().options_open);
    assert_eq!(
        handle_win_event(&mut win, &mut app, WindowEvent::UrlbarFocusChanged(true)),
        Ok((false, vec![]))
    );
    assert!(win.get().tabs.ref_fg_browser().unwrap().urlbar_focused);
    assert_eq!(
        handle_win_event(&mut win, &mut app, WindowEvent::UrlbarFocusChanged(false)),
        Ok((false, vec![]))
    );
    assert!(!win.get().tabs.ref_fg_browser().unwrap().urlbar_focused);
    assert!(!app.has_changed());
}

#[test]
fn a_window_without_tabs_refuses_what_needs_the_foreground() {
    let (mut win, mut app) = shell_with(0);
    assert_eq!(
        handle_win_event(&mut win, &mut app, WindowEvent::UrlbarFocusChanged(true)),
        Err(ShellError::NoForeground)
    );
    assert_eq!(
        handle_win_event(&mut win, &mut app, WindowEvent::DoCommand(WindowCommand::ToggleSidebar)),
        Err(ShellError::NoForeground)
    );
    assert_eq!(
        handle_win_event(&mut win, &mut app, WindowEvent::DoCommand(WindowCommand::NewTab)),
        Err(ShellError::NoForeground)
    );
    let stroke = KeyStroke { character: None, key: 7, state: KeyState::Released, modifiers: 3 };
    assert_eq!(
        handle_view_event(&mut win, &mut app, ViewEvent::KeyEvent(stroke)),
        Err(ShellError::NoForeground)
    );
    assert_eq!(zoom_changed(&mut win, 5), Err(ShellError::NoForeground));
    assert!(!win.has_changed());
    assert!(!win.get().sidebar_is_open);
    assert_eq!(handle_win_event(&mut win, &mut app, WindowEvent::EventLoopAwaken), Ok((true, vec![])));
    assert_eq!(handle_win_event(&mut win, &mut app, WindowEvent::OptionsClosed), Ok((false, vec![])));
}

#[test]
fn navigation_commands_name_the_foreground_session() {
    let (mut win, mut app) = shell_with(2);
    assert_eq!(
        command(&mut win, &mut app, WindowCommand::Reload),
        vec![Action::Engine(EngineCommand::Reload(BrowserId(2)))]
    );
    assert_eq!(
        command(&mut win, &mut app, WindowCommand::NavigateBack),
        vec![Action::Engine(EngineCommand::GoBack(BrowserId(2)))]
    );
    assert_eq!(
        command(&mut win, &mut app, WindowCommand::NavigateForward),
        vec![Action::Engine(EngineCommand::GoForward(BrowserId(2)))]
    );
    assert_eq!(command(&mut win, &mut app, WindowCommand::Stop), vec![]);
    assert!(!win.has_changed());
    assert_eq!(command(&mut win, &mut app, WindowCommand::OpenInDefaultBrowser), vec![]);
    win.get_mut().tabs.mut_fg_browser().unwrap().url = Some("http://a/".to_string());
    assert_eq!(
        command(&mut win, &mut app, WindowCommand::OpenInDefaultBrowser),
        vec![Action::OpenInDefaultBrowser("http://a/".to_string())]
    );
    assert_eq!(command(&mut win, &mut app, WindowCommand::OpenLocation), vec![]);
    assert!(win.get().tabs.ref_fg_browser().unwrap().urlbar_focused);
}

#[test]
fn loading_records_the_request_and_resolves_it() {
    let (mut win, mut app) = shell_with(1);
    win.get_mut().tabs.mut_fg_browser().unwrap().urlbar_focused = true;
    assert_eq!(
        command(&mut win, &mut app, WindowCommand::Load("example.com".to_string())),
        vec![Action::LoadUrl(BrowserId(1), "http://example.com/".to_string())]
    );
    let fg = win.get().tabs.ref_fg_browser().unwrap();
    assert_eq!(fg.user_input, Some("example.com".to_string()));
    assert!(!fg.urlbar_focused);
    assert_eq!(fg.url, None);
    assert_eq!(
        command(&mut win, &mut app, WindowCommand::Load("two words".to_string())),
        vec![Action::LoadUrl(
            BrowserId(1),
            "https://duckduckgo.com/html/?q=two%20words".to_string()
        )]
    );
    assert_eq!(
        win.get().tabs.ref_fg_browser().unwrap().user_input,
        Some("two words".to_string())
    );
}

#[test]
fn zooming_is_left_to_the_caller_and_recorded_on_its_report() {
    let (mut win, mut app) = shell_with(1);
    assert_eq!(
        command(&mut win, &mut app, WindowCommand::ZoomIn),
        vec![Action::AdjustZoom(BrowserId(1), ZOOM_ACTUAL_SIZE, ZoomStep::In)]
    );
    assert!(!win.has_changed());
    let scaled = (f32::from_bits(ZOOM_ACTUAL_SIZE) * 1.1).to_bits();
    assert_eq!(zoom_changed(&mut win, scaled), Ok(vec![Action::Engine(EngineCommand::Zoom(scaled))]));
    assert_eq!(win.get().tabs.ref_fg_browser().unwrap().zoom, scaled);
    assert_eq!(
        command(&mut win, &mut app, WindowCommand::ZoomOut),
        vec![Action::AdjustZoom(BrowserId(1), scaled, ZoomStep::Out)]
    );
    assert_eq!(
        command(&mut win, &mut app, WindowCommand::ZoomToActualSize),
        vec![Action::Engine(EngineCommand::ResetZoom)]
    );
    assert_eq!(win.get().tabs.ref_fg_browser().unwrap().zoom, ZOOM_ACTUAL_SIZE);
}

#[test]
fn panels_and_debug_options_toggle() {
    let (mut win, mut app) = shell_with(1);
    assert_eq!(command(&mut win, &mut app, WindowCommand::ToggleSidebar), vec![]);
    assert!(win.get().sidebar_is_open);
    assert_eq!(command(&mut win, &mut app, WindowCommand::ToggleSidebar), vec![]);
    assert!(!win.get().sidebar_is_open);
    assert_eq!(command(&mut win, &mut app, WindowCommand::ToggleOptionShowLogs), vec![]);
    assert!(win.get().logs_visible);
    assert_eq!(command(&mut win, &mut app, WindowCommand::ShowOptions), vec![]);
    assert!(win.get().options_open);
    assert_eq!(
        command(&mut win, &mut app, WindowCommand::ToggleOptionWRProfiler),
        vec![Action::Engine(EngineCommand::ToggleDebugOption(WebRenderDebugOption::Profiler))]
    );
    assert!(win.get().debug_options.wr_profiler);
    assert_eq!(
        command(&mut win, &mut app, WindowCommand::ToggleOptionWRTextureCacheDebug),
        vec![Action::Engine(EngineCommand::ToggleDebugOption(
            WebRenderDebugOption::TextureCacheDebug
        ))]
    );
    assert!(win.get().debug_options.wr_texture_cache_debug);
    assert_eq!(
        command(&mut win, &mut app, WindowCommand::ToggleOptionWRTargetDebug),
        vec![Action::Engine(EngineCommand::ToggleDebugOption(
            WebRenderDebugOption::RenderTargetDebug
        ))]
    );
    assert!(win.get().debug_options.wr_render_target_debug);
    assert_eq!(
        command(&mut win, &mut app, WindowCommand::ToggleOptionWRProfiler),
        vec![Action::Engine(EngineCommand::ToggleDebugOption(WebRenderDebugOption::Profiler))]
    );
    assert!(!win.get().debug_options.wr_profiler);
    win.snapshot();
    for quiet in [
        WindowCommand::ToggleOptionFragmentBorders,
        WindowCommand::ToggleOptionParallelDisplayListBuidling,
        WindowCommand::ToggleOptionShowParallelLayout,
        WindowCommand::ToggleOptionConvertMouseToTouch,
        WindowCommand::ToggleOptionTileBorders,
    ] {
        assert_eq!(command(&mut win, &mut app, quiet), vec![]);
    }
    assert!(!win.has_changed());
}

#[test]
fn a_new_tab_is_asked_of_the_engine_and_takes_the_foreground() {
    let (mut win, mut app) = shell_with(1);
    assert_eq!(
        command(&mut win, &mut app, WindowCommand::NewTab),
        vec![Action::NewBrowser("about:blank".to_string())]
    );
    assert_eq!(win.get().tabs.len(), 1);
    assert_eq!(
        tab_opened(&mut win, BrowserId(8), true),
        Ok(vec![select(8), Action::Engine(EngineCommand::UpdateGeometry)])
    );
    assert_eq!(win.get().tabs.len(), 2);
    let fg = win.get().tabs.ref_fg_browser().unwrap();
    assert_eq!(fg.id, BrowserId(8));
    assert!(fg.urlbar_focused);
    assert!(!fg.is_background);
    assert!(win.get().tabs.browser_at(0).unwrap().is_background);
}

#[test]
fn closing_a_tab_tells_the_engine_which_and_what_to_show() {
    let (mut win, mut app) = shell_with(3);
    assert_eq!(
        command(&mut win, &mut app, WindowCommand::CloseTab),
        vec![Action::Engine(EngineCommand::CloseBrowser(BrowserId(3))), select(2)]
    );
    assert_eq!(win.get().tabs.len(), 2);
    assert_eq!(fg_id(&win), BrowserId(2));
    command(&mut win, &mut app, WindowCommand::SelectTab(0));
    assert_eq!(
        command(&mut win, &mut app, WindowCommand::CloseTab),
        vec![Action::Engine(EngineCommand::CloseBrowser(BrowserId(1))), select(2)]
    );
    assert_eq!(win.get().tabs.len(), 1);
    win.snapshot();
    assert_eq!(command(&mut win, &mut app, WindowCommand::CloseTab), vec![]);
    assert_eq!(win.get().tabs.len(), 1);
    assert!(!win.has_changed());
}

#[test]
fn next_and_prev_wrap_round_at_the_ends() {
    let (mut win, mut app) = shell_with(3);
    assert_eq!(command(&mut win, &mut app, WindowCommand::NextTab), vec![select(1)]);
    assert_eq!(win.get().tabs.fg_browser_index(), Ok(0));
    assert_eq!(command(&mut win, &mut app, WindowCommand::NextTab), vec![select(2)]);
    assert_eq!(command(&mut win, &mut app, WindowCommand::PrevTab), vec![select(1)]);
    assert_eq!(command(&mut win, &mut app, WindowCommand::PrevTab), vec![select(3)]);
    assert_eq!(win.get().tabs.fg_browser_index(), Ok(2));
    assert_eq!(command(&mut win, &mut app, WindowCommand::SelectTab(1)), vec![select(2)]);
    assert_eq!(command(&mut win, &mut app, WindowCommand::SelectTab(3)), vec![]);
    assert_eq!(win.get().tabs.fg_browser_index(), Ok(1));
    let (mut one, mut app) = shell_with(1);
    assert_eq!(command(&mut one, &mut app, WindowCommand::NextTab), vec![]);
    assert_eq!(command(&mut one, &mut app, WindowCommand::PrevTab), vec![]);
    assert!(!one.has_changed());
}

#[test]
fn input_of_the_surface_is_handed_to_the_engine() {
    let (mut win, mut app) = shell_with(2);
    let delta = MouseScrollDelta::LineDelta(0f32.to_bits(), 2.5f32.to_bits());
    assert_eq!(
        handle_view_event(&mut win, &mut app, ViewEvent::MouseWheel(delta, TouchPhase::Moved)),
        Ok(vec![Action::Engine(EngineCommand::Scroll(delta, TouchPhase::Moved))])
    );
    assert_eq!(
        handle_view_event(&mut win, &mut app, ViewEvent::MouseMoved(3, -4)),
        Ok(vec![Action::Engine(EngineCommand::MouseMove(3, -4))])
    );
    assert_eq!(
        handle_view_event(
            &mut win,
            &mut app,
            ViewEvent::MouseInput(ElementState::Pressed, MouseButton::Left, 5, 6)
        ),
        Ok(vec![Action::Engine(EngineCommand::Click(5, 6, ElementState::Pressed, MouseButton::Left))])
    );
    let stroke = KeyStroke { character: Some('q'), key: 81, state: KeyState::Repeated, modifiers: 1 };
    assert_eq!(
        handle_view_event(&mut win, &mut app, ViewEvent::KeyEvent(stroke)),
        Ok(vec![Action::Engine(EngineCommand::SendKey(BrowserId(2), stroke))])
    );
    assert_eq!(
        handle_view_event(&mut win, &mut app, ViewEvent::GeometryDidChange),
        Ok(vec![
            Action::Engine(EngineCommand::UpdateGeometry),
            Action::View(ViewCommand::UpdateDrawable)
        ])
    );
    assert!(!win.has_changed());
    assert!(!app.has_changed());
}

#[test]
fn application_events_toggle_the_theme_at_most() {
    let (mut win, mut app) = shell_with(1);
    assert_eq!(handle_app_event(&mut win, &mut app, AppEvent::DidFinishLaunching), Ok(vec![]));
    assert_eq!(handle_app_event(&mut win, &mut app, AppEvent::WillTerminate), Ok(vec![]));
    assert_eq!(
        handle_app_event(&mut win, &mut app, AppEvent::DoCommand(AppCommand::ClearHistory)),
        Ok(vec![])
    );
    assert!(!app.has_changed());
    assert_eq!(
        handle_app_event(&mut win, &mut app, AppEvent::DidChangeScreenParameters),
        Ok(vec![
            Action::Engine(EngineCommand::UpdateGeometry),
            Action::View(ViewCommand::UpdateDrawable)
        ])
    );
    assert_eq!(
        handle_app_event(&mut win, &mut app, AppEvent::DoCommand(AppCommand::ToggleOptionDarkTheme)),
        Ok(vec![])
    );
    assert!(app.get().dark_theme);
    assert!(app.has_changed());
    assert_eq!(
        handle_app_event(&mut win, &mut app, AppEvent::DoCommand(AppCommand::ToggleOptionDarkTheme)),
        Ok(vec![])
    );
    assert!(!app.get().dark_theme);
    assert!(!app.has_changed());
    assert!(!win.has_changed());
}

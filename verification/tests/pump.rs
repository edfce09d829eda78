use servoshell::browser::BrowserId;
use servoshell::diff::{Change, Key};
use servoshell::error::ShellError;
use servoshell::events::{
    Action, AppCommand, AppEvent, EngineCommand, ServoEvent, ViewEvent, WindowCommand, WindowEvent,
};
use servoshell::pump::{commit, quiet_batch, Batch, Directive, Input, Pump, Stage};
use servoshell::state::{Snapshot, State};
use servoshell::tree::Value;
use servoshell::window::{AppState, Cursor, WindowState};

fn pump_with(tabs: u32) -> Pump {
    let mut pump = Pump::new(State::new(WindowState::new()), State::new(AppState::new()));
    for id in 1..=tabs {
        pump.handle(Input::TabOpened(BrowserId(id), false)).unwrap();
    }
    pump.finish_tick();
    pump
}

fn field(name: &str) -> Key {
    Key::Field(name.to_string())
}

#[test]
fn a_batch_is_handled_window_first_and_engine_last() {
    let batch = Batch {
        window: vec![WindowEvent::WillClose, WindowEvent::EventLoopAwaken],
        app: vec![AppEvent::WillTerminate],
        view: vec![ViewEvent::MouseMoved(1, 2), ViewEvent::GeometryDidChange],
        engine: vec![ServoEvent::LoadStart(BrowserId(1)), ServoEvent::LoadEnd(BrowserId(1))],
    };
    assert!(!batch.is_empty());
    assert_eq!(
        batch.into_inputs(),
        vec![
            Input::Window(WindowEvent::WillClose),
            Input::Window(WindowEvent::EventLoopAwaken),
            Input::App(AppEvent::WillTerminate),
            Input::View(ViewEvent::MouseMoved(1, 2)),
            Input::View(ViewEvent::GeometryDidChange),
            Input::Engine(ServoEvent::LoadStart(BrowserId(1))),
            Input::Engine(ServoEvent::LoadEnd(BrowserId(1))),
        ]
    );
}

#[test]
fn a_batch_is_quiet_when_all_four_sources_are() {
    let quiet = Batch { window: vec![], app: vec![], view: vec![], engine: vec![] };
    assert!(quiet.is_empty());
    assert_eq!(quiet.into_inputs(), vec![]);
    assert!(!Batch { window: vec![WindowEvent::WillClose], app: vec![], view: vec![], engine: vec![] }
        .is_empty());
    assert!(!Batch { window: vec![], app: vec![AppEvent::WillTerminate], view: vec![], engine: vec![] }
        .is_empty());
    assert!(!Batch {
        window: vec![],
        app: vec![],
        view: vec![ViewEvent::GeometryDidChange],
        engine: vec![]
    }
    .is_empty());
    assert!(!Batch {
        window: vec![],
        app: vec![],
        view: vec![],
        engine: vec![ServoEvent::HeadParsed(BrowserId(1))]
    }
    .is_empty());
}

#[test]
fn a_tick_renders_only_what_has_changed() {
    let mut pump = pump_with(1);
    let end = pump.finish_tick();
    assert_eq!(end.window, None);
    assert_eq!(end.app, None);
    assert!(!end.force_sync);
    pump.handle(Input::Window(WindowEvent::DoCommand(WindowCommand::ToggleSidebar))).unwrap();
    let end = pump.finish_tick();
    assert_eq!(
        end.window,
        Some(vec![Change::Modified(
            vec![field("sidebar_is_open")],
            Value::Bool(false),
            Value::Bool(true)
        )])
    );
    assert_eq!(end.app, None);
    assert!(!pump.win_state.has_changed());
    pump.handle(Input::Engine(ServoEvent::CursorChanged(Cursor(3)))).unwrap();
    pump.handle(Input::App(AppEvent::DoCommand(AppCommand::ToggleOptionDarkTheme))).unwrap();
    let end = pump.finish_tick();
    assert_eq!(end.window, None);
    assert_eq!(
        end.app,
        Some(vec![
            Change::Modified(vec![field("dark_theme")], Value::Bool(false), Value::Bool(true)),
            Change::Modified(vec![field("cursor")], Value::Int(0), Value::Int(3)),
        ])
    );
    let end = pump.finish_tick();
    assert_eq!(end.window, None);
    assert_eq!(end.app, None);
}

#[test]
fn the_forced_synchronisation_is_kept_until_the_end_of_the_tick() {
    let mut pump = pump_with(1);
    assert!(!pump.force_sync);
    assert_eq!(pump.handle(Input::Window(WindowEvent::EventLoopAwaken)), Ok(vec![]));
    assert!(pump.force_sync);
    assert_eq!(pump.handle(Input::Window(WindowEvent::WillClose)), Ok(vec![]));
    assert_eq!(pump.handle(Input::View(ViewEvent::MouseMoved(0, 0))).map(|a| a.len()), Ok(1));
    assert!(pump.force_sync);
    let end = pump.finish_tick();
    assert!(end.force_sync);
    assert_eq!(end.window, None);
    assert!(!pump.force_sync);
    assert!(!pump.finish_tick().force_sync);
}

#[test]
fn a_new_tab_shows_in_the_diff_of_the_window() {
    let mut pump = pump_with(1);
    assert_eq!(
        pump.handle(Input::Window(WindowEvent::DoCommand(WindowCommand::NewTab))),
        Ok(vec![Action::NewBrowser("about:blank".to_string())])
    );
    assert_eq!(
        pump.handle(Input::TabOpened(BrowserId(2), false)),
        Ok(vec![
            Action::Engine(EngineCommand::SelectBrowser(BrowserId(2))),
            Action::Engine(EngineCommand::UpdateGeometry)
        ])
    );
    let end = pump.finish_tick();
    let changes = end.window.unwrap();
    assert_eq!(changes.len(), 3);
    assert_eq!(
        changes[0],
        Change::Modified(
            vec![field("tabs"), field("browsers"), Key::Index(0), field("is_background")],
            Value::Bool(false),
            Value::Bool(true)
        )
    );
    match &changes[1] {
        Change::Added(path, Value::Record(fields)) => {
            assert_eq!(path, &vec![field("tabs"), field("browsers"), Key::Index(1)]);
            assert_eq!(fields[0], ("id".to_string(), Value::Int(2)));
            assert_eq!(fields.len(), 10);
        }
        other => panic!("not an added record: {:?}", other),
    }
    assert_eq!(
        changes[2],
        Change::Modified(
            vec![field("tabs"), field("current_index")],
            Value::Int(0),
            Value::Int(1)
        )
    );
}

#[test]
fn an_error_leaves_the_states_as_they_were() {
    let mut pump = pump_with(2);
    pump.handle(Input::Window(WindowEvent::EventLoopAwaken)).unwrap();
    let window = Snapshot::duplicate(pump.win_state.get());
    let app = *pump.app_state.get();
    assert_eq!(
        pump.handle(Input::Engine(ServoEvent::HistoryChanged(BrowserId(1), vec![], 0))),
        Err(ShellError::BadHistoryIndex)
    );
    assert_eq!(
        pump.handle(Input::Engine(ServoEvent::WriteMicrodata("x".to_string(), "".to_string()))),
        Err(ShellError::UnknownMicrodataType)
    );
    assert_eq!(pump.win_state.get(), &window);
    assert_eq!(pump.app_state.get(), &app);
    assert!(pump.force_sync);
    let mut empty = Pump::new(State::new(WindowState::new()), State::new(AppState::new()));
    assert_eq!(
        empty.handle(Input::Window(WindowEvent::DoCommand(WindowCommand::Reload))),
        Err(ShellError::NoForeground)
    );
    assert_eq!(empty.handle(Input::ZoomChanged(1)), Err(ShellError::NoForeground));
    assert_eq!(
        empty.handle(Input::MicrodataWritten("json".to_string())),
        Err(ShellError::NoForeground)
    );
}

#[test]
fn reports_are_routed_like_events() {
    let mut pump = pump_with(2);
    assert_eq!(
        pump.handle(Input::ZoomChanged(7)),
        Ok(vec![Action::Engine(EngineCommand::Zoom(7))])
    );
    assert_eq!(pump.win_state.get().tabs.ref_fg_browser().unwrap().zoom, 7);
    assert_eq!(pump.handle(Input::MicrodataWritten("vcard".to_string())), Ok(vec![]));
    assert_eq!(
        pump.win_state.get().tabs.ref_fg_browser().unwrap().title,
        Some("Exported vcard".to_string())
    );
}

#[test]
fn commit_hands_the_diff_over_once() {
    let mut state = State::new(Value::Int(1));
    assert_eq!(commit(&mut state), None);
    *state.get_mut() = Value::Int(2);
    assert_eq!(
        commit(&mut state),
        Some(vec![Change::Modified(vec![], Value::Int(1), Value::Int(2))])
    );
    assert_eq!(commit(&mut state), None);
    assert_eq!(state.get(), &Value::Int(2));
}

#[test]
fn the_states_are_written_down_field_by_field() {
    let pump = pump_with(1);
    match pump.app_state.get().encode() {
        Value::Record(fields) => {
            assert_eq!(
                fields,
                vec![
                    ("current_window_index".to_string(), Value::Null),
                    ("dark_theme".to_string(), Value::Bool(false)),
                    ("cursor".to_string(), Value::Int(0)),
                ]
            );
        }
        other => panic!("not a record: {:?}", other),
    }
    match pump.win_state.get().encode() {
        Value::Record(fields) => {
            let names: Vec<&str> = fields.iter().map(|(n, _)| n.as_str()).collect();
            assert_eq!(
                names,
                vec!["tabs", "sidebar_is_open", "options_open", "logs_visible", "status", "debug_options"]
            );
            match &fields[0].1 {
                Value::Record(tabs) => {
                    assert_eq!(tabs[1], ("current_index".to_string(), Value::Int(0)));
                    match &tabs[0].1 {
                        Value::List(browsers) => {
                            assert_eq!(
                                browsers[0],
                                Value::Record(vec![
                                    ("id".to_string(), Value::Int(1)),
                                    ("url".to_string(), Value::Null),
                                    ("title".to_string(), Value::Null),
                                    ("zoom".to_string(), Value::Int(0x3f80_0000)),
                                    ("is_loading".to_string(), Value::Bool(false)),
                                    ("can_go_back".to_string(), Value::Bool(false)),
                                    ("can_go_forward".to_string(), Value::Bool(false)),
                                    ("is_background".to_string(), Value::Bool(false)),
                                    ("urlbar_focused".to_string(), Value::Bool(false)),
                                    ("user_input".to_string(), Value::Null),
                                ])
                            );
                        }
                        other => panic!("not a list: {:?}", other),
                    }
                }
                other => panic!("not a record: {:?}", other),
            }
        }
        other => panic!("not a record: {:?}", other),
    }
}

fn window_batch(events: Vec<WindowEvent>) -> Batch {
    Batch { window: events, app: vec![], view: vec![], engine: vec![] }
}

#[test]
fn the_pump_asks_for_a_poll_then_handles_what_it_brought() {
    let mut pump = pump_with(1);
    assert_eq!(pump.stage, Stage::Idle);
    assert_eq!(pump.advance(), Ok(Directive::Poll));
    pump.polled(Batch {
        window: vec![WindowEvent::DoCommand(WindowCommand::Reload)],
        app: vec![],
        view: vec![],
        engine: vec![ServoEvent::LoadStart(BrowserId(1))],
    });
    assert_eq!(pump.stage, Stage::Draining);
    assert_eq!(pump.queue.len(), 2);
    assert_eq!(
        pump.advance(),
        Ok(Directive::Perform(vec![Action::Engine(EngineCommand::Reload(BrowserId(1)))]))
    );
    assert_eq!(pump.queue.len(), 1);
    assert_eq!(pump.advance(), Ok(Directive::Perform(vec![])));
    assert!(pump.win_state.get().tabs.ref_fg_browser().unwrap().is_loading);
    assert_eq!(pump.advance(), Ok(Directive::Poll));
    assert_eq!(pump.stage, Stage::Idle);
    let quiet = quiet_batch();
    assert!(quiet.is_empty());
    pump.polled(quiet);
    assert_eq!(pump.stage, Stage::Quiet);
    match pump.advance() {
        Ok(Directive::Finish(end)) => {
            assert!(!end.force_sync);
            assert_eq!(end.app, None);
            assert_eq!(
                end.window,
                Some(vec![Change::Modified(
                    vec![field("tabs"), field("browsers"), Key::Index(0), field("is_loading")],
                    Value::Bool(false),
                    Value::Bool(true)
                )])
            );
        }
        other => panic!("not finished: {:?}", other),
    }
    assert_eq!(pump.stage, Stage::Idle);
    assert_eq!(pump.advance(), Ok(Directive::Poll));
}

#[test]
fn a_failing_handler_ends_the_tick_with_its_error() {
    let mut pump = Pump::new(State::new(WindowState::new()), State::new(AppState::new()));
    pump.polled(window_batch(vec![
        WindowEvent::OptionsClosed,
        WindowEvent::UrlbarFocusChanged(true),
        WindowEvent::EventLoopAwaken,
    ]));
    assert_eq!(pump.advance(), Ok(Directive::Perform(vec![])));
    assert_eq!(pump.advance(), Err(ShellError::NoForeground));
    assert_eq!(pump.queue.len(), 1);
    assert!(!pump.force_sync);
}

#[test]
fn a_recorded_tick_runs_until_the_sources_are_quiet() {
    let mut pump = pump_with(2);
    let polls = vec![
        Batch {
            window: vec![WindowEvent::DoCommand(WindowCommand::NextTab)],
            app: vec![AppEvent::DidChangeScreenParameters],
            view: vec![],
            engine: vec![ServoEvent::TitleChanged(BrowserId(2), Some("two".to_string()))],
        },
        window_batch(vec![WindowEvent::EventLoopAwaken]),
        quiet_batch(),
        window_batch(vec![WindowEvent::DoCommand(WindowCommand::ToggleSidebar)]),
    ];
    let (actions, end) = pump.run_tick(polls).unwrap();
    assert_eq!(
        actions,
        vec![
            Action::Engine(EngineCommand::SelectBrowser(BrowserId(1))),
            Action::Engine(EngineCommand::UpdateGeometry),
            Action::View(servoshell::events::ViewCommand::UpdateDrawable),
        ]
    );
    assert!(end.force_sync);
    assert_eq!(end.app, None);
    assert_eq!(end.window.map(|d| d.len()), Some(4));
    assert!(!pump.win_state.get().sidebar_is_open);
    assert_eq!(pump.win_state.get().tabs.fg_browser_index(), Ok(0));
    assert_eq!(pump.win_state.get().tabs.browser_at(1).unwrap().title, Some("two".to_string()));
    assert!(!pump.win_state.has_changed());
    assert_eq!(pump.stage, Stage::Idle);
    assert!(pump.queue.is_empty());
    let (actions, end) = pump.run_tick(vec![]).unwrap();
    assert_eq!(actions, vec![]);
    assert_eq!(end.window, None);
    assert!(!end.force_sync);
}

#[test]
fn a_recorded_tick_stops_at_the_first_error() {
    let mut pump = pump_with(1);
    let polls = vec![
        window_batch(vec![WindowEvent::DoCommand(WindowCommand::ToggleSidebar)]),
        Batch {
            window: vec![],
            app: vec![],
            view: vec![],
            engine: vec![
                ServoEvent::WriteMicrodata("x".to_string(), "csv".to_string()),
                ServoEvent::StatusChanged(Some("late".to_string())),
            ],
        },
    ];
    assert_eq!(pump.run_tick(polls), Err(ShellError::UnknownMicrodataType));
    assert!(pump.win_state.get().sidebar_is_open);
    assert_eq!(pump.win_state.get().status, None);
    assert!(pump.win_state.has_changed());
}

#[test]
fn many_events_are_drained_in_as_many_steps() {
    let mut pump = pump_with(1);
    let mut polls = Vec::new();
    for round in 0..50 {
        let mut events = Vec::new();
        for _ in 0..=(round % 4) {
            events.push(WindowEvent::DoCommand(WindowCommand::ToggleSidebar));
        }
        polls.push(window_batch(events));
    }
    let (actions, end) = pump.run_tick(polls).unwrap();
    assert_eq!(actions, vec![]);
    let toggles: usize = (0..50).map(|round| round % 4 + 1).sum();
    assert_eq!(pump.win_state.get().sidebar_is_open, toggles % 2 == 1);
    assert_eq!(end.window.is_some(), toggles % 2 == 1);
}

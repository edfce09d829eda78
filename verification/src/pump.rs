//! The event pump: one tick, from the first poll of the sources to the rendering.

use crate::app_events::{app_actions, app_step, handle_app_event};
use crate::browser::BrowserId;
use crate::diff::{delta, edits, Change, Edit};
use crate::engine_events::{handle_servo_event, servo_step};
use crate::error::ShellError;
use crate::events::{actions_view, Action, ActionView, AppEvent, ServoEvent, ViewEvent, WindowEvent};
use crate::reports::{
    exported_step, microdata_written, opened_step, tab_opened, zoom_changed, zoomed_step,
};
use crate::state::{Snapshot, State};
use crate::view_events::{handle_view_event, view_step};
use crate::window::{AppState, WindowState, WindowView};
use crate::window_events::{handle_win_event, window_step, WindowStep};
use std::collections::VecDeque;
use vstd::prelude::*;

verus! {

/// One thing for the pump to handle: an event of one of the four sources, or
/// the caller's report on an action that it has performed.
#[derive(Debug, PartialEq, Eq)]
pub enum Input {
    Window(WindowEvent),
    App(AppEvent),
    View(ViewEvent),
    Engine(ServoEvent),
    /// The session asked for by `NewBrowser` exists, with this handle; the
    /// flag says whether the platform puts the caret in the URL bar.
    TabOpened(BrowserId, bool),
    /// The zoom factor named by `AdjustZoom` was scaled to this one.
    ZoomChanged(u32),
    /// The microdata named by `WriteMicrodata` was written, in this format.
    MicrodataWritten(String),
}

/// What one poll of the four sources brought.
#[derive(Debug, PartialEq, Eq)]
pub struct Batch {
    pub window: Vec<WindowEvent>,
    pub app: Vec<AppEvent>,
    pub view: Vec<ViewEvent>,
    pub engine: Vec<ServoEvent>,
}

impl Batch {
    /// Whether every source was empty: the tick has come to rest.
    pub open spec fn is_quiet(&self) -> bool {
        self.window@.len() == 0 && self.app@.len() == 0 && self.view@.len() == 0
            && self.engine@.len() == 0
    }

    /// The events in the order of their handling: the window's first, then the
    /// application's, the surface's and the engine's, each source in the order
    /// of arrival.
    pub open spec fn in_order(&self) -> Seq<Input> {
        self.window@.map_values(|e: WindowEvent| Input::Window(e)) + self.app@.map_values(
            |e: AppEvent| Input::App(e),
        ) + self.view@.map_values(|e: ViewEvent| Input::View(e)) + self.engine@.map_values(
            |e: ServoEvent| Input::Engine(e),
        )
    }

    /// Whether every source was empty.
    pub fn is_empty(&self) -> (quiet: bool)
        ensures
            quiet == self.is_quiet(),
    {
        self.window.len() == 0 && self.app.len() == 0 && self.view.len() == 0 && self.engine.len()
            == 0
    }

    /// The events in the order of their handling.
    pub fn into_inputs(self) -> (inputs: Vec<Input>)
        ensures
            inputs@ == self.in_order(),
    {
        let Batch { window, app, view, engine } = self;
        let mut inputs: Vec<Input> = Vec::new();
        let ghost from_window = window@.map_values(|e: WindowEvent| Input::Window(e));
        let ghost from_app = app@.map_values(|e: AppEvent| Input::App(e));
        let ghost from_view = view@.map_values(|e: ViewEvent| Input::View(e));
        let ghost from_engine = engine@.map_values(|e: ServoEvent| Input::Engine(e));
        for event in it: window
            invariant
                inputs@ == from_window.take(it.index() as int),
                from_window == window@.map_values(|e: WindowEvent| Input::Window(e)),
        {
            inputs.push(Input::Window(event));
        }
        assert(inputs@ =~= from_window);
        for event in it: app
            invariant
                inputs@ == from_window + from_app.take(it.index() as int),
                from_app == app@.map_values(|e: AppEvent| Input::App(e)),
        {
            inputs.push(Input::App(event));
        }
        assert(inputs@ =~= from_window + from_app);
        for event in it: view
            invariant
                inputs@ == from_window + from_app + from_view.take(it.index() as int),
                from_view == view@.map_values(|e: ViewEvent| Input::View(e)),
        {
            inputs.push(Input::View(event));
        }
        assert(inputs@ =~= from_window + from_app + from_view);
        for event in it: engine
            invariant
                inputs@ == from_window + from_app + from_view + from_engine.take(
                    it.index() as int,
                ),
                from_engine == engine@.map_values(|e: ServoEvent| Input::Engine(e)),
        {
            inputs.push(Input::Engine(event));
        }
        assert(inputs@ =~= from_window + from_app + from_view + from_engine);
        inputs
    }
}

/// What handling one input comes to: the two states afterwards, whether a
/// forced synchronisation is owed at the end of the tick, and what the caller
/// has to do.
pub struct PumpStep {
    pub window: WindowView,
    pub app: AppState,
    pub forced: bool,
    pub actions: Seq<ActionView>,
}

/// A step of the window alone, seen as a step of the pump.
pub open spec fn of_window(
    stepped: Result<WindowStep, ShellError>,
    a: AppState,
    forced: bool,
) -> Result<PumpStep, ShellError> {
    match stepped {
        Ok(s) => Ok(
            PumpStep {
                window: s.window,
                app: a,
                forced: forced || s.force_sync,
                actions: s.actions,
            },
        ),
        Err(e) => Err(e),
    }
}

/// What an input does, by the rules of its source.
#[verifier::opaque]
pub open spec fn outcome(w: WindowView, a: AppState, forced: bool, input: Input) -> Result<
    PumpStep,
    ShellError,
> {
    match input {
        Input::Window(event) => of_window(window_step(w, event), a, forced),
        Input::App(event) => Ok(
            PumpStep { window: w, app: app_step(a, event), forced, actions: app_actions(event) },
        ),
        Input::View(event) => match view_step(w, event) {
            Ok(actions) => Ok(PumpStep { window: w, app: a, forced, actions }),
            Err(e) => Err(e),
        },
        Input::Engine(event) => match servo_step(w, a, event) {
            Ok(s) => Ok(PumpStep { window: s.window, app: s.app, forced, actions: s.actions }),
            Err(e) => Err(e),
        },
        Input::TabOpened(id, focus_urlbar) => of_window(opened_step(w, id, focus_urlbar), a, forced),
        Input::ZoomChanged(zoom) => of_window(zoomed_step(w, zoom), a, forced),
        Input::MicrodataWritten(kind) => of_window(exported_step(w, kind@), a, forced),
    }
}

/// What is to be rendered and synchronised at the end of a tick.
#[derive(Debug, PartialEq, Eq)]
pub struct TickEnd {
    /// The diff of the window's state, where it has changed.
    pub window: Option<Vec<Change>>,
    /// The diff of the application's state, where it has changed.
    pub app: Option<Vec<Change>>,
    /// Whether the engine must synchronise its frame whatever has changed.
    pub force_sync: bool,
}

/// The operations of an optional diff.
pub open spec fn diff_view(diff: Option<Vec<Change>>) -> Option<Seq<Edit>> {
    match diff {
        Some(changes) => Some(edits(changes@)),
        None => None,
    }
}

/// Where the value has changed: its diff against what was last rendered, and
/// the value is taken as rendered.
pub fn commit<V: Snapshot>(state: &mut State<V>) -> (diff: Option<Vec<Change>>)
    ensures
        final(state).current() == old(state).current(),
        final(state).baseline() == old(state).current().tree(),
        !final(state).changed(),
        diff_view(diff) == if old(state).changed() {
            Some(old(state).pending())
        } else {
            None
        },
{
    if state.has_changed() {
        let changes = state.diff();
        state.snapshot();
        Some(changes)
    } else {
        None
    }
}

/// Where a tick stands.
#[derive(Clone, Copy, Debug, PartialEq, Eq, Structural)]
pub enum Stage {
    /// The sources are to be polled.
    Idle,
    /// The last poll brought events.
    Draining,
    /// The last poll found every source empty: the tick is to be finished.
    Quiet,
}

/// What the caller of the pump has to do next.
#[derive(Debug, PartialEq, Eq)]
pub enum Directive {
    /// Poll the four sources, without waiting, and hand what they bring to
    /// `polled`.
    Poll,
    /// Perform these actions in their order; hand each report that one of them
    /// asks for to `handle`, and perform what that returns as well.
    Perform(Vec<Action>),
    /// The sources are at rest: render the diffs, let the engine synchronise
    /// its frame, and give control back to the run loop.
    Finish(TickEnd),
}

/// The two state containers of the shell and what a tick has gathered so
/// far: the flag for a forced synchronisation, and the events of the last poll
/// that are still to be handled.
pub struct Pump {
    pub win_state: State<WindowState>,
    pub app_state: State<AppState>,
    /// Whether a forced synchronisation is owed at the end of the tick.
    pub force_sync: bool,
    pub stage: Stage,
    pub queue: VecDeque<Input>,
}

/// The effect of a run of inputs, handled one after the other: the states
/// and the flag after the last one and the actions of all of them, or the
/// error of the first one that fails.
pub open spec fn run(w: WindowView, a: AppState, forced: bool, inputs: Seq<Input>) -> Result<
    PumpStep,
    ShellError,
>
    decreases inputs.len(),
{
    if inputs.len() == 0 {
        Ok(PumpStep { window: w, app: a, forced, actions: Seq::empty() })
    } else {
        match outcome(w, a, forced, inputs[0]) {
            Ok(first) => match run(first.window, first.app, first.forced, inputs.skip(1)) {
                Ok(rest) => Ok(PumpStep { actions: first.actions + rest.actions, ..rest }),
                Err(e) => Err(e),
            },
            Err(e) => Err(e),
        }
    }
}

/// How far a run of inputs gets: the states and the flag after the last input
/// before the first one that fails, or after the last one of all, and the
/// actions gathered until then.
pub open spec fn progress(w: WindowView, a: AppState, forced: bool, inputs: Seq<Input>) -> PumpStep
    decreases inputs.len(),
{
    if inputs.len() == 0 {
        PumpStep { window: w, app: a, forced, actions: Seq::empty() }
    } else {
        match outcome(w, a, forced, inputs[0]) {
            Ok(first) => {
                let rest = progress(first.window, first.app, first.forced, inputs.skip(1));
                PumpStep { actions: first.actions + rest.actions, ..rest }
            },
            Err(_) => PumpStep { window: w, app: a, forced, actions: Seq::empty() },
        }
    }
}

/// The events that a tick handles when its polls bring `polls`: those of
/// every poll before the first one that finds the sources empty.
pub open spec fn script(polls: Seq<Batch>) -> Seq<Input>
    decreases polls.len(),
{
    if polls.len() == 0 || polls[0].is_quiet() {
        Seq::empty()
    } else {
        polls[0].in_order() + script(polls.skip(1))
    }
}

/// The events that are still to come from recorded polls: none once a poll
/// has found the sources empty.
pub open spec fn upcoming(stage: Stage, polls: Seq<Batch>) -> Seq<Input> {
    if stage == Stage::Quiet {
        Seq::empty()
    } else {
        script(polls)
    }
}

/// A run of inputs that follows one whose actions are `done`.
pub open spec fn continued(done: Seq<ActionView>, rest: Result<PumpStep, ShellError>) -> Result<
    PumpStep,
    ShellError,
> {
    match rest {
        Ok(step) => Ok(PumpStep { actions: done + step.actions, ..step }),
        Err(e) => Err(e),
    }
}

/// The progress of a run of inputs that follows one whose actions are `done`.
pub open spec fn extended(done: Seq<ActionView>, rest: PumpStep) -> PumpStep {
    PumpStep { actions: done + rest.actions, ..rest }
}

/// A poll that found every source empty.
pub fn quiet_batch() -> (batch: Batch)
    ensures
        batch.is_quiet(),
{
    Batch { window: Vec::new(), app: Vec::new(), view: Vec::new(), engine: Vec::new() }
}

impl Pump {
    /// Whether a forced synchronisation is owed at the end of the tick.
    pub open spec fn forced(&self) -> bool {
        self.force_sync
    }

    /// A pump over the two containers, at the start of a tick.
    pub fn new(win_state: State<WindowState>, app_state: State<AppState>) -> (pump: Pump)
        ensures
            pump.win_state == win_state,
            pump.app_state == app_state,
            !pump.forced(),
            pump.stage == Stage::Idle,
            pump.queue@ == Seq::<Input>::empty(),
    {
        Pump { win_state, app_state, force_sync: false, stage: Stage::Idle, queue: VecDeque::new() }
    }

    /// Handles one input by the rules of its source. An error ends the tick:
    /// it leaves both states as they were.
    pub fn handle(&mut self, input: Input) -> (handled: Result<Vec<Action>, ShellError>)
        ensures
            final(self).stage == old(self).stage,
            final(self).queue == old(self).queue,
            final(self).win_state.baseline() == old(self).win_state.baseline(),
            final(self).app_state.baseline() == old(self).app_state.baseline(),
            match handled {
                Ok(actions) => outcome(
                    old(self).win_state.current()@,
                    old(self).app_state.current(),
                    old(self).forced(),
                    input,
                ) == Ok::<PumpStep, ShellError>(
                    PumpStep {
                        window: final(self).win_state.current()@,
                        app: final(self).app_state.current(),
                        forced: final(self).forced(),
                        actions: actions_view(actions@),
                    },
                ),
                Err(e) => {
                    &&& outcome(
                        old(self).win_state.current()@,
                        old(self).app_state.current(),
                        old(self).forced(),
                        input,
                    ) == Err::<PumpStep, ShellError>(e)
                    &&& final(self).win_state.current()@ == old(self).win_state.current()@
                    &&& final(self).app_state.current() == old(self).app_state.current()
                    &&& final(self).forced() == old(self).forced()
                },
            },
    {
        reveal(outcome);
        match input {
            Input::Window(event) => {
                match handle_win_event(&mut self.win_state, &mut self.app_state, event) {
                    Ok((force_sync, actions)) => {
                        if force_sync {
                            self.force_sync = true;
                        }
                        Ok(actions)
                    },
                    Err(e) => Err(e),
                }
            },
            Input::App(event) => handle_app_event(&mut self.win_state, &mut self.app_state, event),
            Input::View(event) => handle_view_event(&mut self.win_state, &mut self.app_state, event),
            Input::Engine(event) => handle_servo_event(
                &mut self.win_state,
                &mut self.app_state,
                event,
            ),
            Input::TabOpened(id, focus_urlbar) => tab_opened(&mut self.win_state, id, focus_urlbar),
            Input::ZoomChanged(zoom) => zoom_changed(&mut self.win_state, zoom),
            Input::MicrodataWritten(kind) => microdata_written(&mut self.win_state, kind.as_str()),
        }
    }

    /// Ends the tick once the sources have come to rest: each state that has
    /// changed gives its diff and is taken as rendered, and the flag for the
    /// forced synchronisation is handed over and cleared.
    pub fn finish_tick(&mut self) -> (end: TickEnd)
        ensures
            final(self).win_state.current() == old(self).win_state.current(),
            final(self).app_state.current() == old(self).app_state.current(),
            !final(self).win_state.changed(),
            !final(self).app_state.changed(),
            !final(self).forced(),
            final(self).stage == old(self).stage,
            final(self).queue == old(self).queue,
            end.force_sync == old(self).forced(),
            diff_view(end.window) == if old(self).win_state.changed() {
                Some(old(self).win_state.pending())
            } else {
                None
            },
            diff_view(end.app) == if old(self).app_state.changed() {
                Some(old(self).app_state.pending())
            } else {
                None
            },
    {
        let window = commit(&mut self.win_state);
        let app = commit(&mut self.app_state);
        let force_sync = self.force_sync;
        self.force_sync = false;
        TickEnd { window, app, force_sync }
    }

    /// Takes what a poll of the four sources has brought: its events wait in
    /// the order of their handling, or, where there are none, the tick is to
    /// be finished.
    pub fn polled(&mut self, batch: Batch)
        ensures
            final(self).win_state == old(self).win_state,
            final(self).app_state == old(self).app_state,
            final(self).force_sync == old(self).force_sync,
            final(self).stage == if batch.is_quiet() {
                Stage::Quiet
            } else {
                Stage::Draining
            },
            final(self).queue@ == old(self).queue@ + batch.in_order(),
    {
        if batch.is_empty() {
            self.stage = Stage::Quiet;
            assert(batch.in_order() =~= Seq::<Input>::empty());
            assert(self.queue@ + batch.in_order() =~= self.queue@);
        } else {
            self.stage = Stage::Draining;
            let ghost before = self.queue@;
            let inputs = batch.into_inputs();
            for input in it: inputs
                invariant
                    self.queue@ == before + inputs@.take(it.index() as int),
                    self.win_state == old(self).win_state,
                    self.app_state == old(self).app_state,
                    self.force_sync == old(self).force_sync,
                    self.stage == Stage::Draining,
            {
                self.queue.push_back(input);
            }
            assert(inputs@.take(inputs@.len() as int) =~= inputs@);
        }
    }

    /// Says what is to be done next. An event that waits is handled, by the
    /// rules of its source, and its actions are to be performed. With none
    /// waiting, the sources are to be polled, unless the last poll found
    /// them empty: then the tick is finished.
    pub fn advance(&mut self) -> (next: Result<Directive, ShellError>)
        ensures
            old(self).queue@.len() > 0 ==> {
                &&& final(self).queue@ == old(self).queue@.skip(1)
                &&& final(self).stage == old(self).stage
                &&& final(self).win_state.baseline() == old(self).win_state.baseline()
                &&& final(self).app_state.baseline() == old(self).app_state.baseline()
                &&& match next {
                    Ok(directive) => {
                        &&& directive is Perform
                        &&& outcome(
                            old(self).win_state.current()@,
                            old(self).app_state.current(),
                            old(self).forced(),
                            old(self).queue@[0],
                        ) == Ok::<PumpStep, ShellError>(
                            PumpStep {
                                window: final(self).win_state.current()@,
                                app: final(self).app_state.current(),
                                forced: final(self).forced(),
                                actions: actions_view(directive->Perform_0@),
                            },
                        )
                    },
                    Err(e) => {
                        &&& outcome(
                            old(self).win_state.current()@,
                            old(self).app_state.current(),
                            old(self).forced(),
                            old(self).queue@[0],
                        ) == Err::<PumpStep, ShellError>(e)
                        &&& final(self).win_state.current()@ == old(self).win_state.current()@
                        &&& final(self).app_state.current() == old(self).app_state.current()
                        &&& final(self).forced() == old(self).forced()
                    },
                }
            },
            old(self).queue@.len() == 0 ==> {
                &&& final(self).queue@ == old(self).queue@
                &&& final(self).stage == Stage::Idle
                &&& final(self).win_state.current() == old(self).win_state.current()
                &&& final(self).app_state.current() == old(self).app_state.current()
                &&& next is Ok
            },
            old(self).queue@.len() == 0 && old(self).stage != Stage::Quiet ==> {
                &&& next == Ok::<Directive, ShellError>(Directive::Poll)
                &&& final(self).win_state == old(self).win_state
                &&& final(self).app_state == old(self).app_state
                &&& final(self).force_sync == old(self).force_sync
            },
            old(self).queue@.len() == 0 && old(self).stage == Stage::Quiet ==> {
                &&& next->Ok_0 is Finish
                &&& !final(self).win_state.changed()
                &&& !final(self).app_state.changed()
                &&& !final(self).forced()
                &&& next->Ok_0->Finish_0.force_sync == old(self).forced()
                &&& diff_view(next->Ok_0->Finish_0.window) == if old(self).win_state.changed() {
                    Some(old(self).win_state.pending())
                } else {
                    None
                }
                &&& diff_view(next->Ok_0->Finish_0.app) == if old(self).app_state.changed() {
                    Some(old(self).app_state.pending())
                } else {
                    None
                }
            },
    {
        match self.queue.pop_front() {
            Some(input) => {
                assert(self.queue@ =~= old(self).queue@.skip(1));
                match self.handle(input) {
                    Ok(actions) => Ok(Directive::Perform(actions)),
                    Err(e) => Err(e),
                }
            },
            None => {
                let quiet = self.stage == Stage::Quiet;
                self.stage = Stage::Idle;
                if quiet {
                    Ok(Directive::Finish(self.finish_tick()))
                } else {
                    Ok(Directive::Poll)
                }
            },
        }
    }

    /// Runs a tick to its end over recorded polls: each time the sources are
    /// to be polled the next batch of the record is taken, and an empty one
    /// once the record is used up. The events are handled in their order
    /// until a poll finds the sources empty or a handler fails. The actions
    /// are gathered, not performed: an action that asks for a report gets
    /// none.
    ///
    /// The tick ends after a number of steps that the number of recorded
    /// events and polls bounds.
    pub fn run_tick(&mut self, polls: Vec<Batch>) -> (ticked: Result<(Vec<Action>, TickEnd), ShellError>)
        ensures
            ticked is Err ==> final(self).win_state.baseline() == old(self).win_state.baseline()
                && final(self).app_state.baseline() == old(self).app_state.baseline(),
            ({
                let reached = progress(
                    old(self).win_state.current()@,
                    old(self).app_state.current(),
                    old(self).forced(),
                    old(self).queue@ + upcoming(old(self).stage, polls@),
                );
                &&& final(self).win_state.current()@ == reached.window
                &&& final(self).app_state.current() == reached.app
                &&& ticked is Err ==> final(self).forced() == reached.forced
            }),
            match ticked {
                Ok((actions, end)) => {
                    &&& run(
                        old(self).win_state.current()@,
                        old(self).app_state.current(),
                        old(self).forced(),
                        old(self).queue@ + upcoming(old(self).stage, polls@),
                    ) == Ok::<PumpStep, ShellError>(
                        PumpStep {
                            window: final(self).win_state.current()@,
                            app: final(self).app_state.current(),
                            forced: end.force_sync,
                            actions: actions_view(actions@),
                        },
                    )
                    &&& final(self).queue@.len() == 0
                    &&& final(self).stage == Stage::Idle
                    &&& !final(self).forced()
                    &&& !final(self).win_state.changed()
                    &&& !final(self).app_state.changed()
                    &&& diff_view(end.window) == if final(self).win_state.current().tree() != old(
                        self,
                    ).win_state.baseline() {
                        Some(
                            delta(
                                old(self).win_state.baseline(),
                                final(self).win_state.current().tree(),
                            ),
                        )
                    } else {
                        None
                    }
                    &&& diff_view(end.app) == if final(self).app_state.current().tree() != old(
                        self,
                    ).app_state.baseline() {
                        Some(
                            delta(
                                old(self).app_state.baseline(),
                                final(self).app_state.current().tree(),
                            ),
                        )
                    } else {
                        None
                    }
                },
                Err(e) => run(
                    old(self).win_state.current()@,
                    old(self).app_state.current(),
                    old(self).forced(),
                    old(self).queue@ + upcoming(old(self).stage, polls@),
                ) == Err::<PumpStep, ShellError>(e),
            },
    {
        let ghost total = run(
            self.win_state.current()@,
            self.app_state.current(),
            self.forced(),
            self.queue@ + upcoming(self.stage, polls@),
        );
        let ghost reach = progress(
            self.win_state.current()@,
            self.app_state.current(),
            self.forced(),
            self.queue@ + upcoming(self.stage, polls@),
        );
        let mut rest = polls;
        let mut actions: Vec<Action> = Vec::new();
        proof {
            assert(Seq::<ActionView>::empty() + reach.actions =~= reach.actions);
            let start = run(
                self.win_state.current()@,
                self.app_state.current(),
                self.forced(),
                self.queue@ + upcoming(self.stage, rest@),
            );
            assert(actions_view(actions@) =~= Seq::empty());
            if start is Ok {
                assert(Seq::<ActionView>::empty() + start->Ok_0.actions =~= start->Ok_0.actions);
            }
        }
        loop
            invariant
                self.win_state.baseline() == old(self).win_state.baseline(),
                self.app_state.baseline() == old(self).app_state.baseline(),
                total == run(
                    old(self).win_state.current()@,
                    old(self).app_state.current(),
                    old(self).forced(),
                    old(self).queue@ + upcoming(old(self).stage, polls@),
                ),
                total == continued(
                    actions_view(actions@),
                    run(
                        self.win_state.current()@,
                        self.app_state.current(),
                        self.forced(),
                        self.queue@ + upcoming(self.stage, rest@),
                    ),
                ),
                reach == progress(
                    old(self).win_state.current()@,
                    old(self).app_state.current(),
                    old(self).forced(),
                    old(self).queue@ + upcoming(old(self).stage, polls@),
                ),
                reach == extended(
                    actions_view(actions@),
                    progress(
                        self.win_state.current()@,
                        self.app_state.current(),
                        self.forced(),
                        self.queue@ + upcoming(self.stage, rest@),
                    ),
                ),
            decreases
                    rest@.len(),
                    (if self.stage == Stage::Quiet {
                        0int
                    } else {
                        1int
                    }),
                    self.queue@.len(),
        {
            let ghost pending = self.queue@ + upcoming(self.stage, rest@);
            let ghost done = actions_view(actions@);
            let ghost waiting = self.queue@;
            match self.advance() {
                Err(e) => {
                    proof {
                        assert(waiting.len() > 0);
                        assert(pending[0] == waiting[0]);
                    }
                    return Err(e);
                },
                Ok(Directive::Perform(mut more)) => {
                    let ghost first = actions_view(more@);
                    actions.append(&mut more);
                    proof {
                        assert(waiting.len() > 0);
                        assert(pending[0] == waiting[0]);
                        assert(pending.skip(1) =~= self.queue@ + upcoming(self.stage, rest@));
                        assert(actions_view(actions@) =~= done + first);
                        let after = run(
                            self.win_state.current()@,
                            self.app_state.current(),
                            self.forced(),
                            pending.skip(1),
                        );
                        if after is Ok {
                            assert(done + (first + after->Ok_0.actions) =~= (done + first)
                                + after->Ok_0.actions);
                        }
                        let further = progress(
                            self.win_state.current()@,
                            self.app_state.current(),
                            self.forced(),
                            pending.skip(1),
                        );
                        assert(done + (first + further.actions) =~= (done + first)
                            + further.actions);
                    }
                },
                Ok(Directive::Poll) => {
                    if rest.len() > 0 {
                        let ghost before = rest@;
                        let batch = rest.remove(0);
                        self.polled(batch);
                        proof {
                            assert(rest@ =~= before.skip(1));
                            assert(Seq::<Input>::empty() + batch.in_order() =~= batch.in_order());
                            if batch.is_quiet() {
                                assert(self.queue@ + upcoming(self.stage, rest@) =~= pending);
                            } else {
                                assert(self.queue@ + upcoming(self.stage, rest@) =~= pending);
                            }
                        }
                    } else {
                        let batch = quiet_batch();
                        self.polled(batch);
                        proof {
                            assert(batch.in_order() =~= Seq::<Input>::empty());
                            assert(self.queue@ + upcoming(self.stage, rest@) =~= pending);
                        }
                    }
                },
                Ok(Directive::Finish(end)) => {
                    proof {
                        assert(pending =~= Seq::<Input>::empty());
                        assert(done + Seq::<ActionView>::empty() =~= done);
                    }
                    return Ok((actions, end));
                },
            }
        }
    }
}

/// No input takes the single-foreground invariant from the window: whatever
/// is handled, a window whose tabs were well-formed has well-formed tabs
/// afterwards.
pub proof fn lemma_outcome_keeps_single_foreground(
    w: WindowView,
    a: AppState,
    forced: bool,
    input: Input,
)
    requires
        w.tabs.wf(),
    ensures
        outcome(w, a, forced, input) is Ok ==> outcome(w, a, forced, input)->Ok_0.window.tabs.wf(),
{
    reveal(outcome);
    match input {
        Input::Window(event) => {
            crate::window_events::lemma_window_step_keeps_single_foreground(w, event);
        },
        Input::Engine(event) => {
            crate::engine_events::lemma_servo_step_keeps_single_foreground(w, a, event);
        },
        Input::MicrodataWritten(kind) => {
            if w.tabs.foreground() is Some {
                crate::tabs::lemma_position_from(w.tabs.browsers, w.fg().id, 0);
            }
        },
        _ => {},
    }
}

/// The same for a run of inputs.
pub proof fn lemma_run_keeps_single_foreground(
    w: WindowView,
    a: AppState,
    forced: bool,
    inputs: Seq<Input>,
)
    requires
        w.tabs.wf(),
    ensures
        run(w, a, forced, inputs) is Ok ==> run(w, a, forced, inputs)->Ok_0.window.tabs.wf(),
    decreases inputs.len(),
{
    if inputs.len() > 0 {
        lemma_outcome_keeps_single_foreground(w, a, forced, inputs[0]);
        match outcome(w, a, forced, inputs[0]) {
            Ok(first) => {
                lemma_run_keeps_single_foreground(
                    first.window,
                    first.app,
                    first.forced,
                    inputs.skip(1),
                );
            },
            Err(_) => {},
        }
    }
}

} // verus!

//! The events of the four sources, and the actions that handlers answer with.

use crate::browser::BrowserId;
use crate::window::Cursor;
use vstd::prelude::*;

verus! {

/// A command from the window's menus, buttons and shortcuts.
#[derive(Debug, PartialEq, Eq)]
pub enum WindowCommand {
    Reload,
    Stop,
    NavigateBack,
    NavigateForward,
    OpenLocation,
    OpenInDefaultBrowser,
    ZoomIn,
    ZoomOut,
    ZoomToActualSize,
    ToggleSidebar,
    ShowOptions,
    Load(String),
    NewTab,
    CloseTab,
    NextTab,
    PrevTab,
    SelectTab(usize),
    ToggleOptionShowLogs,
    ToggleOptionFragmentBorders,
    ToggleOptionParallelDisplayListBuidling,
    ToggleOptionShowParallelLayout,
    ToggleOptionConvertMouseToTouch,
    ToggleOptionTileBorders,
    ToggleOptionWRProfiler,
    ToggleOptionWRTextureCacheDebug,
    ToggleOptionWRTargetDebug,
}

/// What a window reports.
#[derive(Debug, PartialEq, Eq)]
pub enum WindowEvent {
    EventLoopAwaken,
    GeometryDidChange,
    DidEnterFullScreen,
    DidExitFullScreen,
    WillClose,
    OptionsClosed,
    UrlbarFocusChanged(bool),
    DoCommand(WindowCommand),
}

/// A command from the application's menu.
#[derive(Clone, Copy, Debug, PartialEq, Eq, Structural)]
pub enum AppCommand {
    ClearHistory,
    ToggleOptionDarkTheme,
}

/// What the application reports.
#[derive(Clone, Copy, Debug, PartialEq, Eq, Structural)]
pub enum AppEvent {
    DidFinishLaunching,
    WillTerminate,
    DidChangeScreenParameters,
    DoCommand(AppCommand),
}

/// How far the wheel turned, in lines or in pixels. The two amounts are the
/// bits of single-precision numbers; the shell hands them on as they come.
#[derive(Clone, Copy, Debug, PartialEq, Eq, Structural)]
pub enum MouseScrollDelta {
    LineDelta(u32, u32),
    PixelDelta(u32, u32),
}

/// The stage of a scrolling gesture.
#[derive(Clone, Copy, Debug, PartialEq, Eq, Structural)]
pub enum TouchPhase {
    Started,
    Moved,
    Ended,
}

/// Whether a mouse button went down or up.
#[derive(Clone, Copy, Debug, PartialEq, Eq, Structural)]
pub enum ElementState {
    Pressed,
    Released,
}

#[derive(Clone, Copy, Debug, PartialEq, Eq, Structural)]
pub enum MouseButton {
    Left,
    Right,
    Middle,
}

#[derive(Clone, Copy, Debug, PartialEq, Eq, Structural)]
pub enum KeyState {
    Pressed,
    Released,
    Repeated,
}

/// A key stroke: the character it types, if any, the engine's number for the
/// key, what happened to it, and the modifier keys held, as a bit set.
#[derive(Clone, Copy, Debug, PartialEq, Eq, Structural)]
pub struct KeyStroke {
    pub character: Option<char>,
    pub key: u32,
    pub state: KeyState,
    pub modifiers: u8,
}

/// What the rendering surface reports.
#[derive(Clone, Copy, Debug, PartialEq, Eq, Structural)]
pub enum ViewEvent {
    GeometryDidChange,
    MouseWheel(MouseScrollDelta, TouchPhase),
    MouseInput(ElementState, MouseButton, i32, i32),
    MouseMoved(i32, i32),
    KeyEvent(KeyStroke),
}

/// What the engine reports. An event about a session names it by its handle.
#[derive(Debug, PartialEq, Eq)]
pub enum ServoEvent {
    SetWindowInnerSize(u32, u32),
    SetWindowPosition(i32, i32),
    SetFullScreenState(bool),
    TitleChanged(BrowserId, Option<String>),
    StatusChanged(Option<String>),
    LoadStart(BrowserId),
    LoadEnd(BrowserId),
    HeadParsed(BrowserId),
    /// The URLs of a session's history and the position of the current one.
    HistoryChanged(BrowserId, Vec<String>, usize),
    CursorChanged(Cursor),
    FaviconChanged(BrowserId, String),
    Key(KeyStroke),
    OpenInDefaultBrowser(String),
    /// Microdata found in a page, and the format it is written in.
    WriteMicrodata(String, String),
}

/// A debugging overlay of the renderer.
#[derive(Clone, Copy, Debug, PartialEq, Eq, Structural)]
pub enum WebRenderDebugOption {
    Profiler,
    TextureCacheDebug,
    RenderTargetDebug,
}

/// The direction of a zoom step.
#[derive(Clone, Copy, Debug, PartialEq, Eq, Structural)]
pub enum ZoomStep {
    In,
    Out,
}

/// A command for the engine that carries no text.
#[derive(Clone, Copy, Debug, PartialEq, Eq, Structural)]
pub enum EngineCommand {
    /// Take the geometry of the rendering surface anew.
    UpdateGeometry,
    Reload(BrowserId),
    GoBack(BrowserId),
    GoForward(BrowserId),
    /// Set the zoom factor, given as the bits of a single-precision number.
    Zoom(u32),
    ResetZoom,
    SelectBrowser(BrowserId),
    CloseBrowser(BrowserId),
    ToggleDebugOption(WebRenderDebugOption),
    Scroll(MouseScrollDelta, TouchPhase),
    MouseMove(i32, i32),
    Click(i32, i32, ElementState, MouseButton),
    SendKey(BrowserId, KeyStroke),
}

/// A command for the rendering surface.
#[derive(Clone, Copy, Debug, PartialEq, Eq, Structural)]
pub enum ViewCommand {
    UpdateDrawable,
    EnterFullscreen,
    ExitFullscreen,
}

/// What a handler asks its caller to do once the state is changed. The caller
/// performs the actions of a handler in their order.
#[derive(Debug, PartialEq, Eq)]
pub enum Action {
    Engine(EngineCommand),
    View(ViewCommand),
    /// Load the URL in the session.
    LoadUrl(BrowserId, String),
    /// The request stands for no location: report it and load nothing.
    RejectLocation(String),
    /// Open the URL with the system's default browser.
    OpenInDefaultBrowser(String),
    /// Create a session that loads the URL, then report it with `tab_opened`.
    NewBrowser(String),
    /// Scale the zoom factor of the session, given as bits, one step in the
    /// direction, then report the new factor with `zoom_changed`.
    AdjustZoom(BrowserId, u32, ZoomStep),
    /// Write the contents to the file of that name in the user's home, then
    /// report the format, the third text, with `microdata_written`.
    WriteMicrodata(String, String, String),
    /// An event named a session that the window does not hold: report it.
    UnknownBrowser(BrowserId),
}

/// Mathematical form of an [`Action`].
pub enum ActionView {
    Engine(EngineCommand),
    View(ViewCommand),
    LoadUrl(BrowserId, Seq<char>),
    RejectLocation(Seq<char>),
    OpenInDefaultBrowser(Seq<char>),
    NewBrowser(Seq<char>),
    AdjustZoom(BrowserId, u32, ZoomStep),
    WriteMicrodata(Seq<char>, Seq<char>, Seq<char>),
    UnknownBrowser(BrowserId),
}

impl View for Action {
    type V = ActionView;

    open spec fn view(&self) -> ActionView {
        match self {
            Action::Engine(c) => ActionView::Engine(*c),
            Action::View(c) => ActionView::View(*c),
            Action::LoadUrl(id, url) => ActionView::LoadUrl(*id, url@),
            Action::RejectLocation(request) => ActionView::RejectLocation(request@),
            Action::OpenInDefaultBrowser(url) => ActionView::OpenInDefaultBrowser(url@),
            Action::NewBrowser(url) => ActionView::NewBrowser(url@),
            Action::AdjustZoom(id, zoom, step) => ActionView::AdjustZoom(*id, *zoom, *step),
            Action::WriteMicrodata(name, contents, kind) => ActionView::WriteMicrodata(
                name@,
                contents@,
                kind@,
            ),
            Action::UnknownBrowser(id) => ActionView::UnknownBrowser(*id),
        }
    }
}

/// The actions that a list stands for.
pub open spec fn actions_view(actions: Seq<Action>) -> Seq<ActionView> {
    actions.map_values(|a: Action| a@)
}

/// Adds an action behind those gathered so far.
pub fn push_action(actions: &mut Vec<Action>, action: Action)
    ensures
        actions_view(final(actions)@) == actions_view(old(actions)@).push(action@),
{
    actions.push(action);
    assert(actions_view(actions@) =~= actions_view(old(actions)@).push(action@));
}

} // verus!

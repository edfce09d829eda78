//! The record that the shell keeps of one tab session.

use vstd::prelude::*;

verus! {

/// Handle that the engine assigns to a session; unique while the session lives.
#[derive(Clone, Copy, Debug, PartialEq, Eq, Structural)]
pub struct BrowserId(pub u32);

/// The bit pattern of the single-precision number 1.0, the zoom of a fresh tab.
pub const ZOOM_ACTUAL_SIZE: u32 = 0x3f80_0000;

/// What the shell records about one tab session.
///
/// `zoom` holds the zoom factor as the bits of a single-precision number: the
/// shell stores it and hands it on, and never computes with it.
#[derive(Debug, PartialEq, Eq)]
pub struct Browser {
    pub id: BrowserId,
    pub url: Option<String>,
    pub title: Option<String>,
    pub zoom: u32,
    pub is_loading: bool,
    pub can_go_back: bool,
    pub can_go_forward: bool,
    pub is_background: bool,
    pub urlbar_focused: bool,
    pub user_input: Option<String>,
}

/// Mathematical form of a [`Browser`]: its texts as sequences of characters.
pub struct BrowserView {
    pub id: BrowserId,
    pub url: Option<Seq<char>>,
    pub title: Option<Seq<char>>,
    pub zoom: u32,
    pub is_loading: bool,
    pub can_go_back: bool,
    pub can_go_forward: bool,
    pub is_background: bool,
    pub urlbar_focused: bool,
    pub user_input: Option<Seq<char>>,
}

/// The characters of an optional text.
pub open spec fn text_view(text: Option<String>) -> Option<Seq<char>> {
    match text {
        Some(s) => Some(s@),
        None => None,
    }
}

impl View for Browser {
    type V = BrowserView;

    open spec fn view(&self) -> BrowserView {
        BrowserView {
            id: self.id,
            url: text_view(self.url),
            title: text_view(self.title),
            zoom: self.zoom,
            is_loading: self.is_loading,
            can_go_back: self.can_go_back,
            can_go_forward: self.can_go_forward,
            is_background: self.is_background,
            urlbar_focused: self.urlbar_focused,
            user_input: text_view(self.user_input),
        }
    }
}

impl BrowserView {
    /// The record of a session that the engine has just created.
    pub open spec fn fresh(id: BrowserId) -> BrowserView {
        BrowserView {
            id,
            url: None,
            title: None,
            zoom: ZOOM_ACTUAL_SIZE,
            is_loading: false,
            can_go_back: false,
            can_go_forward: false,
            is_background: true,
            urlbar_focused: false,
            user_input: None,
        }
    }

    /// This record with its background flag replaced.
    pub open spec fn with_background(self, flag: bool) -> BrowserView {
        BrowserView { is_background: flag, ..self }
    }
}

/// A copy of an optional text.
pub fn duplicate_text(text: &Option<String>) -> (copy: Option<String>)
    ensures
        copy == *text,
{
    match text {
        Some(s) => Some(s.clone()),
        None => None,
    }
}

impl Browser {
    /// The record of a session that the engine has just created: nothing loaded,
    /// actual size, not yet shown.
    pub fn new(id: BrowserId) -> (browser: Browser)
        ensures
            browser@ == BrowserView::fresh(id),
    {
        Browser {
            id,
            url: None,
            title: None,
            zoom: ZOOM_ACTUAL_SIZE,
            is_loading: false,
            can_go_back: false,
            can_go_forward: false,
            is_background: true,
            urlbar_focused: false,
            user_input: None,
        }
    }

    /// A deep copy.
    pub fn duplicate(&self) -> (copy: Browser)
        ensures
            copy == *self,
    {
        Browser {
            id: self.id,
            url: duplicate_text(&self.url),
            title: duplicate_text(&self.title),
            zoom: self.zoom,
            is_loading: self.is_loading,
            can_go_back: self.can_go_back,
            can_go_forward: self.can_go_forward,
            is_background: self.is_background,
            urlbar_focused: self.urlbar_focused,
            user_input: duplicate_text(&self.user_input),
        }
    }
}

} // verus!

//! The tabs of a window: an ordered collection with exactly one tab in the foreground.

use crate::browser::{Browser, BrowserId, BrowserView};
use crate::error::ShellError;
use vstd::prelude::*;

verus! {

/// Mathematical form of a tab collection: the entries in order, and the index
/// that names the foreground tab.
#[verifier::ext_equal]
pub struct Tabs {
    pub browsers: Seq<BrowserView>,
    pub current: Option<int>,
}

/// An optional index as an optional number.
pub open spec fn as_position(index: Option<usize>) -> Option<int> {
    match index {
        Some(i) => Some(i as int),
        None => None,
    }
}

/// First position at or after `start` whose entry carries `id`.
pub open spec fn position_from(browsers: Seq<BrowserView>, id: BrowserId, start: int) -> Option<int>
    decreases browsers.len() - start,
{
    if start < 0 || start >= browsers.len() {
        None
    } else if browsers[start].id == id {
        Some(start)
    } else {
        position_from(browsers, id, start + 1)
    }
}

impl Tabs {
    pub open spec fn len(self) -> nat {
        self.browsers.len()
    }

    /// Position of the foreground tab: the index, where it names an entry.
    pub open spec fn foreground(self) -> Option<int> {
        match self.current {
            Some(i) => if 0 <= i < self.browsers.len() {
                Some(i)
            } else {
                None
            },
            None => None,
        }
    }

    /// The single-foreground invariant: an empty collection has no index; a
    /// non-empty one has an index that names an entry, that entry is the only
    /// one not in the background.
    pub open spec fn wf(self) -> bool {
        &&& self.browsers.len() == 0 ==> self.current is None
        &&& self.browsers.len() > 0 ==> self.foreground() is Some
        &&& forall|j: int|
            0 <= j < self.browsers.len() ==> (#[trigger] self.browsers[j]).is_background == (Some(j)
                != self.foreground())
    }

    /// First position of the entry that carries `id`.
    pub open spec fn position(self, id: BrowserId) -> Option<int> {
        position_from(self.browsers, id, 0)
    }

    /// The collection with the entry at `idx` in the foreground and every other
    /// entry in the background.
    pub open spec fn selected(self, idx: int) -> Tabs {
        Tabs {
            browsers: Seq::new(
                self.browsers.len(),
                |j: int| self.browsers[j].with_background(j != idx),
            ),
            current: Some(idx),
        }
    }

    /// The collection after `browser` was appended and brought to the foreground.
    pub open spec fn appended(self, browser: BrowserView) -> Tabs {
        Tabs { browsers: self.browsers.push(browser), current: self.current }.selected(
            self.browsers.len() as int,
        )
    }

    /// Where the foreground goes when the entry at `idx` leaves: to the entry
    /// that followed it, or to the last one.
    pub open spec fn successor(self, idx: int) -> int {
        if idx + 1 < self.browsers.len() {
            idx
        } else {
            self.browsers.len() - 2
        }
    }

    /// The collection after the entry at `idx` was closed.
    pub open spec fn closed(self, idx: int) -> Tabs {
        Tabs { browsers: self.browsers.remove(idx), current: self.current }.selected(
            self.successor(idx),
        )
    }

    /// The collection with the entry at `idx` replaced.
    pub open spec fn replaced(self, idx: int, browser: BrowserView) -> Tabs {
        Tabs { browsers: self.browsers.update(idx, browser), current: self.current }
    }

    /// Whether a tab follows the foreground one.
    pub open spec fn can_select_next(self) -> bool {
        self.foreground() is Some && self.foreground()->0 + 1 < self.browsers.len()
    }

    /// Whether a tab precedes the foreground one.
    pub open spec fn can_select_prev(self) -> bool {
        self.foreground() is Some && self.foreground()->0 > 0
    }

    /// The positions of the entries that are not in the background.
    pub open spec fn foreground_entries(self) -> Set<int> {
        Set::new(|j: int| 0 <= j < self.browsers.len() && !self.browsers[j].is_background)
    }

    /// The collection after one operation; an operation that is refused
    /// leaves it as it was.
    pub open spec fn after(self, op: TabOp) -> Tabs {
        match op {
            TabOp::AppendNew(browser) => if self.accepts_new() {
                self.appended(browser)
            } else {
                self
            },
            TabOp::KillFg => if self.browsers.len() > 1 && self.foreground() is Some {
                self.closed(self.foreground()->0)
            } else {
                self
            },
            TabOp::SelectNext => if self.can_select_next() {
                self.selected(self.foreground()->0 + 1)
            } else {
                self
            },
            TabOp::SelectPrev => if self.can_select_prev() {
                self.selected(self.foreground()->0 - 1)
            } else {
                self
            },
            TabOp::SelectFirst => if self.browsers.len() > 0 {
                self.selected(0)
            } else {
                self
            },
            TabOp::SelectLast => if self.browsers.len() > 0 {
                self.selected(self.browsers.len() - 1)
            } else {
                self
            },
            TabOp::SelectNth(idx) => if idx < self.browsers.len() {
                self.selected(idx as int)
            } else {
                self
            },
        }
    }

    /// The collection after a run of operations.
    pub open spec fn after_all(self, ops: Seq<TabOp>) -> Tabs
        decreases ops.len(),
    {
        if ops.len() == 0 {
            self
        } else {
            self.after_all(ops.drop_last()).after(ops.last())
        }
    }

    /// A collection that can take one more tab: it is empty or has a foreground.
    pub open spec fn accepts_new(self) -> bool {
        self.browsers.len() == 0 || self.foreground() is Some
    }
}

/// An operation that changes which tabs there are or which is in front.
pub enum TabOp {
    AppendNew(BrowserView),
    KillFg,
    SelectNext,
    SelectPrev,
    SelectFirst,
    SelectLast,
    SelectNth(usize),
}

/// Each operation keeps the single-foreground invariant.
pub proof fn lemma_operation_keeps_single_foreground(tabs: Tabs, op: TabOp)
    requires
        tabs.wf(),
    ensures
        tabs.after(op).wf(),
{
}

/// Whatever run of operations is made on a well-formed collection, such as
/// one tab alone in the foreground, the collection stays well-formed.
pub proof fn lemma_single_foreground(start: Tabs, ops: Seq<TabOp>)
    requires
        start.wf(),
    ensures
        start.after_all(ops).wf(),
    decreases ops.len(),
{
    if ops.len() > 0 {
        lemma_single_foreground(start, ops.drop_last());
        lemma_operation_keeps_single_foreground(start.after_all(ops.drop_last()), ops.last());
    }
}

/// In a well-formed collection that is not empty, exactly one entry is not in
/// the background: the one that the index names.
pub proof fn lemma_exactly_one_foreground(tabs: Tabs)
    requires
        tabs.wf(),
        tabs.len() > 0,
    ensures
        tabs.foreground() is Some,
        tabs.foreground_entries() == set![tabs.foreground()->0],
        tabs.foreground_entries().len() == 1,
{
    assert(tabs.foreground_entries() =~= set![tabs.foreground()->0]);
}

/// What `position_from` finds is an entry that carries the handle.
pub proof fn lemma_position_from(browsers: Seq<BrowserView>, id: BrowserId, start: int)
    requires
        0 <= start,
    ensures
        match position_from(browsers, id, start) {
            Some(i) => start <= i < browsers.len() && browsers[i].id == id,
            None => forall|k: int| start <= k < browsers.len() ==> (#[trigger] browsers[k]).id != id,
        },
    decreases browsers.len() - start,
{
    if start < browsers.len() && browsers[start].id != id {
        lemma_position_from(browsers, id, start + 1);
    }
}

/// Changing an entry in anything but its place in front or behind keeps the
/// single-foreground invariant.
pub proof fn lemma_replacing_keeps_single_foreground(tabs: Tabs, idx: int, browser: BrowserView)
    requires
        tabs.wf(),
        0 <= idx < tabs.len(),
        browser.is_background == tabs.browsers[idx].is_background,
    ensures
        tabs.replaced(idx, browser).wf(),
{
}

/// The queries of the caller's wrap-round policy: from the last tab there is
/// no next one, from the first no previous one.
pub proof fn lemma_no_step_past_the_ends(tabs: Tabs)
    requires
        tabs.len() >= 1,
        tabs.foreground() is Some,
    ensures
        tabs.foreground()->0 == tabs.len() - 1 ==> !tabs.can_select_next(),
        tabs.foreground()->0 == 0 ==> !tabs.can_select_prev(),
{
}

/// An ordered collection of tab sessions, one of them in the foreground.
#[derive(Debug, PartialEq, Eq)]
pub struct TabCollection {
    browsers: Vec<Browser>,
    current: Option<usize>,
}

impl View for TabCollection {
    type V = Tabs;

    closed spec fn view(&self) -> Tabs {
        Tabs {
            browsers: self.browsers@.map_values(|b: Browser| b@),
            current: as_position(self.current),
        }
    }
}

/// Puts the entry at `idx` in the foreground and all others in the background.
fn bring_forward(browsers: &mut Vec<Browser>, idx: usize)
    ensures
        final(browsers)@.len() == old(browsers)@.len(),
        forall|j: int|
            0 <= j < old(browsers)@.len() ==> (#[trigger] final(browsers)@[j])@ == old(
                browsers,
            )@[j]@.with_background(j != idx),
{
    let mut j: usize = 0;
    while j < browsers.len()
        invariant
            j <= browsers@.len(),
            browsers@.len() == old(browsers)@.len(),
            forall|k: int|
                0 <= k < j ==> (#[trigger] browsers@[k])@ == old(browsers)@[k]@.with_background(
                    k != idx,
                ),
            forall|k: int| j <= k < browsers@.len() ==> browsers@[k] == old(browsers)@[k],
        decreases browsers@.len() - j,
    {
        browsers[j].is_background = j != idx;
        j += 1;
    }
}

impl TabCollection {
    /// An empty collection.
    pub fn new() -> (tabs: TabCollection)
        ensures
            tabs@ == (Tabs { browsers: Seq::empty(), current: None }),
            tabs@.wf(),
    {
        TabCollection { browsers: Vec::new(), current: None }
    }

    /// Number of tabs.
    pub fn len(&self) -> (n: usize)
        ensures
            n == self@.len(),
    {
        self.browsers.len()
    }

    /// Whether a tab may be closed: the window keeps at least one.
    pub fn has_more_than_one(&self) -> (more: bool)
        ensures
            more == (self@.len() > 1),
    {
        self.browsers.len() > 1
    }

    /// The foreground index as it is stored.
    pub fn current_index(&self) -> (index: Option<usize>)
        ensures
            as_position(index) == self@.current,
    {
        self.current
    }

    /// Position of the foreground tab.
    pub fn fg_browser_index(&self) -> (index: Result<usize, ShellError>)
        ensures
            match index {
                Ok(i) => self@.foreground() == Some(i as int),
                Err(e) => e == ShellError::NoForeground && self@.foreground() is None,
            },
    {
        match self.current {
            Some(i) => {
                if i < self.browsers.len() {
                    Ok(i)
                } else {
                    Err(ShellError::NoForeground)
                }
            },
            None => Err(ShellError::NoForeground),
        }
    }

    /// The entry at `idx`, if there is one.
    pub fn browser_at(&self, idx: usize) -> (entry: Option<&Browser>)
        ensures
            match entry {
                Some(b) => idx < self@.len() && b@ == self@.browsers[idx as int],
                None => idx >= self@.len(),
            },
    {
        if idx < self.browsers.len() {
            Some(&self.browsers[idx])
        } else {
            None
        }
    }

    /// The foreground entry.
    pub fn ref_fg_browser(&self) -> (entry: Result<&Browser, ShellError>)
        ensures
            match entry {
                Ok(b) => self@.foreground() is Some && b@ == self@.browsers[self@.foreground()->0],
                Err(e) => e == ShellError::NoForeground && self@.foreground() is None,
            },
    {
        match self.fg_browser_index() {
            Ok(i) => Ok(&self.browsers[i]),
            Err(e) => Err(e),
        }
    }

    /// The foreground entry, for the caller to change. The collection ends as it
    /// was, with that entry as the caller leaves it.
    pub fn mut_fg_browser(&mut self) -> (entry: Result<&mut Browser, ShellError>)
        ensures
            match entry {
                Ok(b) => {
                    &&& old(self)@.foreground() is Some
                    &&& b@ == old(self)@.browsers[old(self)@.foreground()->0]
                    &&& final(self)@ =~= old(self)@.replaced(
                        old(self)@.foreground()->0,
                        final(b)@,
                    )
                },
                Err(e) => {
                    &&& e == ShellError::NoForeground
                    &&& old(self)@.foreground() is None
                    &&& final(self)@ == old(self)@
                },
            },
    {
        match self.fg_browser_index() {
            Ok(i) => Ok(&mut self.browsers[i]),
            Err(e) => Err(e),
        }
    }

    /// Whether an entry carries `id`.
    pub fn has_browser(&self, id: &BrowserId) -> (found: bool)
        ensures
            found == (self@.position(*id) is Some),
    {
        let mut i: usize = 0;
        while i < self.browsers.len() && self.browsers[i].id != *id
            invariant
                i <= self.browsers@.len(),
                position_from(self@.browsers, *id, 0) == position_from(self@.browsers, *id, i as int),
            decreases self.browsers@.len() - i,
        {
            i += 1;
        }
        i < self.browsers.len()
    }

    /// The first entry that carries `id`, for the caller to change; `None` where
    /// no entry carries it, whatever is in the foreground.
    pub fn find_browser(&mut self, id: &BrowserId) -> (entry: Option<&mut Browser>)
        ensures
            match entry {
                Some(b) => {
                    &&& old(self)@.position(*id) is Some
                    &&& b@ == old(self)@.browsers[old(self)@.position(*id)->0]
                    &&& final(self)@ =~= old(self)@.replaced(old(self)@.position(*id)->0, final(b)@)
                },
                None => old(self)@.position(*id) is None && final(self)@ == old(self)@,
            },
    {
        let mut i: usize = 0;
        while i < self.browsers.len() && self.browsers[i].id != *id
            invariant
                i <= self.browsers@.len(),
                *self == *old(self),
                position_from(self@.browsers, *id, 0) == position_from(self@.browsers, *id, i as int),
            decreases self.browsers@.len() - i,
        {
            i += 1;
        }
        if i < self.browsers.len() {
            Some(&mut self.browsers[i])
        } else {
            None
        }
    }

    /// Whether `select_nth(idx)` would succeed.
    pub fn can_select_nth(&self, idx: usize) -> (can: bool)
        ensures
            can == (idx < self@.len()),
    {
        idx < self.browsers.len()
    }

    /// Whether a tab follows the foreground one.
    pub fn can_select_next(&self) -> (can: bool)
        ensures
            can == self@.can_select_next(),
    {
        match self.fg_browser_index() {
            Ok(i) => i < self.browsers.len() - 1,
            Err(_) => false,
        }
    }

    /// Whether a tab precedes the foreground one.
    pub fn can_select_prev(&self) -> (can: bool)
        ensures
            can == self@.can_select_prev(),
    {
        match self.fg_browser_index() {
            Ok(i) => i > 0,
            Err(_) => false,
        }
    }

    /// Brings the tab at `idx` to the foreground.
    pub fn select_nth(&mut self, idx: usize) -> (done: Result<(), ShellError>)
        ensures
            match done {
                Ok(_) => idx < old(self)@.len() && final(self)@ == old(self)@.selected(idx as int),
                Err(e) => {
                    &&& e == ShellError::NoSuchBrowser
                    &&& idx >= old(self)@.len()
                    &&& final(self)@ == old(self)@
                },
            },
            done is Ok ==> final(self)@.wf(),
            final(self)@ == old(self)@.after(TabOp::SelectNth(idx)),
    {
        if idx < self.browsers.len() {
            bring_forward(&mut self.browsers, idx);
            self.current = Some(idx);
            assert(self@.browsers =~= old(self)@.selected(idx as int).browsers);
            Ok(())
        } else {
            Err(ShellError::NoSuchBrowser)
        }
    }

    /// Brings the first tab to the foreground.
    pub fn select_first(&mut self) -> (done: Result<(), ShellError>)
        ensures
            match done {
                Ok(_) => old(self)@.len() > 0 && final(self)@ == old(self)@.selected(0),
                Err(e) => {
                    &&& e == ShellError::NoSuchBrowser
                    &&& old(self)@.len() == 0
                    &&& final(self)@ == old(self)@
                },
            },
            done is Ok ==> final(self)@.wf(),
            final(self)@ == old(self)@.after(TabOp::SelectFirst),
    {
        self.select_nth(0)
    }

    /// Brings the last tab to the foreground.
    pub fn select_last(&mut self) -> (done: Result<(), ShellError>)
        ensures
            match done {
                Ok(_) => old(self)@.len() > 0 && final(self)@ == old(self)@.selected(
                    old(self)@.len() - 1,
                ),
                Err(e) => {
                    &&& e == ShellError::NoSuchBrowser
                    &&& old(self)@.len() == 0
                    &&& final(self)@ == old(self)@
                },
            },
            done is Ok ==> final(self)@.wf(),
            final(self)@ == old(self)@.after(TabOp::SelectLast),
    {
        let n = self.browsers.len();
        if n == 0 {
            Err(ShellError::NoSuchBrowser)
        } else {
            self.select_nth(n - 1)
        }
    }

    /// Moves the foreground one tab on; there is no wrapping round.
    pub fn select_next(&mut self) -> (done: Result<(), ShellError>)
        ensures
            match done {
                Ok(_) => {
                    &&& old(self)@.foreground() is Some
                    &&& old(self)@.foreground()->0 + 1 < old(self)@.len()
                    &&& final(self)@ == old(self)@.selected(old(self)@.foreground()->0 + 1)
                },
                Err(e) => {
                    &&& final(self)@ == old(self)@
                    &&& e == ShellError::NoForeground || e == ShellError::AtLastTab
                    &&& e == ShellError::NoForeground <==> old(self)@.foreground() is None
                    &&& e == ShellError::AtLastTab ==> old(self)@.foreground()->0 + 1 == old(
                        self,
                    )@.len()
                },
            },
            done is Ok ==> final(self)@.wf(),
            final(self)@ == old(self)@.after(TabOp::SelectNext),
    {
        match self.fg_browser_index() {
            Ok(i) => {
                if i < self.browsers.len() - 1 {
                    self.select_nth(i + 1)
                } else {
                    Err(ShellError::AtLastTab)
                }
            },
            Err(e) => Err(e),
        }
    }

    /// Moves the foreground one tab back; there is no wrapping round.
    pub fn select_prev(&mut self) -> (done: Result<(), ShellError>)
        ensures
            match done {
                Ok(_) => {
                    &&& old(self)@.foreground() is Some
                    &&& old(self)@.foreground()->0 > 0
                    &&& final(self)@ == old(self)@.selected(old(self)@.foreground()->0 - 1)
                },
                Err(e) => {
                    &&& final(self)@ == old(self)@
                    &&& e == ShellError::NoForeground || e == ShellError::AtFirstTab
                    &&& e == ShellError::NoForeground <==> old(self)@.foreground() is None
                    &&& e == ShellError::AtFirstTab ==> old(self)@.foreground() == Some(0int)
                },
            },
            done is Ok ==> final(self)@.wf(),
            final(self)@ == old(self)@.after(TabOp::SelectPrev),
    {
        match self.fg_browser_index() {
            Ok(i) => {
                if i > 0 {
                    self.select_nth(i - 1)
                } else {
                    Err(ShellError::AtFirstTab)
                }
            },
            Err(e) => Err(e),
        }
    }

    /// Appends a tab and brings it to the foreground. It is refused only on a
    /// collection that has tabs and no foreground.
    pub fn append_new(&mut self, browser: Browser) -> (done: Result<(), ShellError>)
        ensures
            match done {
                Ok(_) => old(self)@.accepts_new() && final(self)@ == old(self)@.appended(browser@),
                Err(e) => {
                    &&& e == ShellError::NoSuchBrowser
                    &&& !old(self)@.accepts_new()
                    &&& final(self)@ == old(self)@
                },
            },
            done is Ok ==> final(self)@.wf(),
            old(self)@.wf() ==> done is Ok,
            final(self)@ == old(self)@.after(TabOp::AppendNew(browser@)),
    {
        if self.browsers.len() > 0 && self.fg_browser_index().is_err() {
            return Err(ShellError::NoSuchBrowser);
        }
        let idx = self.browsers.len();
        self.browsers.push(browser);
        bring_forward(&mut self.browsers, idx);
        self.current = Some(idx);
        assert(self@.browsers =~= old(self)@.appended(browser@).browsers);
        Ok(())
    }

    /// Closes the foreground tab and hands its record back. The foreground moves
    /// to the tab that followed it, or to the last one. The only tab of a
    /// collection is never closed.
    pub fn kill_fg(&mut self) -> (closed: Result<Browser, ShellError>)
        ensures
            match closed {
                Ok(b) => {
                    &&& old(self)@.len() > 1
                    &&& old(self)@.foreground() is Some
                    &&& b@ == old(self)@.browsers[old(self)@.foreground()->0]
                    &&& final(self)@ == old(self)@.closed(old(self)@.foreground()->0)
                },
                Err(e) => {
                    &&& final(self)@ == old(self)@
                    &&& e == ShellError::LastTab || e == ShellError::NoForeground
                    &&& e == ShellError::LastTab <==> old(self)@.len() == 1
                    &&& e == ShellError::NoForeground ==> old(self)@.foreground() is None
                },
            },
            closed is Ok ==> final(self)@.wf(),
            old(self)@.len() == 1 ==> closed is Err && final(self)@ == old(self)@,
            final(self)@ == old(self)@.after(TabOp::KillFg),
    {
        if self.browsers.len() == 1 {
            return Err(ShellError::LastTab);
        }
        match self.fg_browser_index() {
            Ok(i) => {
                let gone = self.browsers.remove(i);
                let next = if i < self.browsers.len() {
                    i
                } else {
                    self.browsers.len() - 1
                };
                bring_forward(&mut self.browsers, next);
                self.current = Some(next);
                assert(self@.browsers =~= old(self)@.closed(i as int).browsers);
                Ok(gone)
            },
            Err(e) => Err(e),
        }
    }

    /// A deep copy.
    pub fn duplicate(&self) -> (copy: TabCollection)
        ensures
            copy@ == self@,
    {
        let mut browsers: Vec<Browser> = Vec::new();
        let mut i: usize = 0;
        while i < self.browsers.len()
            invariant
                i <= self.browsers@.len(),
                browsers@ == self.browsers@.take(i as int),
            decreases self.browsers@.len() - i,
        {
            browsers.push(self.browsers[i].duplicate());
            assert(self.browsers@.take(i + 1) =~= self.browsers@.take(i as int).push(
                self.browsers@[i as int],
            ));
            i += 1;
        }
        assert(self.browsers@.take(i as int) =~= self.browsers@);
        let copy = TabCollection { browsers, current: self.current };
        assert(copy@.browsers =~= self@.browsers);
        copy
    }
}

} // verus!

use servoshell::browser::{Browser, BrowserId, ZOOM_ACTUAL_SIZE};
use servoshell::error::ShellError;
use servoshell::tabs::TabCollection;

fn tabs_of(n: u32) -> TabCollection {
    let mut tabs = TabCollection::new();
    for id in 1..=n {
        tabs.append_new(Browser::new(BrowserId(id))).unwrap();
    }
    tabs
}

fn foreground_count(tabs: &TabCollection) -> usize {
    (0..tabs.len()).filter(|&i| !tabs.browser_at(i).unwrap().is_background).count()
}

#[test]
fn a_fresh_record_is_blank_and_in_the_background() {
    let b = Browser::new(BrowserId(9));
    assert_eq!(b.id, BrowserId(9));
    assert_eq!(b.url, None);
    assert_eq!(b.title, None);
    assert_eq!(b.user_input, None);
    assert_eq!(b.zoom, ZOOM_ACTUAL_SIZE);
    assert_eq!(f32::from_bits(b.zoom), 1.0);
    assert!(b.is_background);
    assert!(!b.is_loading && !b.can_go_back && !b.can_go_forward && !b.urlbar_focused);
    assert_eq!(b.duplicate(), b);
}

#[test]
fn an_empty_collection_has_no_foreground() {
    let mut tabs = TabCollection::new();
    assert_eq!(tabs.len(), 0);
    assert_eq!(tabs.current_index(), None);
    assert_eq!(tabs.fg_browser_index(), Err(ShellError::NoForeground));
    assert_eq!(tabs.ref_fg_browser().err(), Some(ShellError::NoForeground));
    assert_eq!(tabs.mut_fg_browser().err(), Some(ShellError::NoForeground));
    assert!(!tabs.has_more_than_one());
    assert!(!tabs.can_select_next());
    assert!(!tabs.can_select_prev());
    assert!(!tabs.can_select_nth(0));
    assert_eq!(tabs.select_first(), Err(ShellError::NoSuchBrowser));
    assert_eq!(tabs.select_last(), Err(ShellError::NoSuchBrowser));
    assert_eq!(tabs.select_next(), Err(ShellError::NoForeground));
    assert_eq!(tabs.select_prev(), Err(ShellError::NoForeground));
    assert_eq!(tabs.kill_fg(), Err(ShellError::NoForeground));
    assert!(tabs.browser_at(0).is_none());
}

#[test]
fn appending_twice_to_one_tab_gives_three_with_the_last_in_front() {
    let mut tabs = TabCollection::new();
    let first = Browser::new(BrowserId(1));
    assert_eq!(first.url, None);
    tabs.append_new(first).unwrap();
    tabs.append_new(Browser::new(BrowserId(2))).unwrap();
    tabs.append_new(Browser::new(BrowserId(3))).unwrap();
    assert_eq!(tabs.len(), 3);
    assert_eq!(tabs.fg_browser_index(), Ok(2));
    assert_eq!(tabs.ref_fg_browser().unwrap().id, BrowserId(3));
    assert!(tabs.browser_at(0).unwrap().is_background);
    assert!(tabs.browser_at(1).unwrap().is_background);
    assert!(!tabs.browser_at(2).unwrap().is_background);
}

#[test]
fn killing_the_last_tab_of_three_moves_the_foreground_to_the_second() {
    let mut tabs = tabs_of(3);
    let gone = tabs.kill_fg().unwrap();
    assert_eq!(gone.id, BrowserId(3));
    assert_eq!(tabs.len(), 2);
    assert_eq!(tabs.fg_browser_index(), Ok(1));
    assert_eq!(tabs.ref_fg_browser().unwrap().id, BrowserId(2));
    assert!(tabs.browser_at(0).unwrap().is_background);
    assert!(!tabs.browser_at(1).unwrap().is_background);
}

#[test]
fn killing_a_middle_tab_moves_the_foreground_to_the_one_that_followed() {
    let mut tabs = tabs_of(4);
    tabs.select_nth(1).unwrap();
    let gone = tabs.kill_fg().unwrap();
    assert_eq!(gone.id, BrowserId(2));
    assert!(!gone.is_background);
    assert_eq!(tabs.len(), 3);
    assert_eq!(tabs.fg_browser_index(), Ok(1));
    assert_eq!(tabs.ref_fg_browser().unwrap().id, BrowserId(3));
    assert_eq!(foreground_count(&tabs), 1);
}

#[test]
fn select_prev_at_the_first_tab_fails() {
    let mut tabs = tabs_of(3);
    tabs.select_first().unwrap();
    assert_eq!(tabs.fg_browser_index(), Ok(0));
    assert!(!tabs.can_select_prev());
    assert_eq!(tabs.select_prev(), Err(ShellError::AtFirstTab));
    assert_eq!(tabs.fg_browser_index(), Ok(0));
}

#[test]
fn select_next_at_the_last_tab_fails() {
    let mut tabs = tabs_of(3);
    assert_eq!(tabs.fg_browser_index(), Ok(2));
    assert!(!tabs.can_select_next());
    assert!(tabs.can_select_prev());
    assert_eq!(tabs.select_next(), Err(ShellError::AtLastTab));
    assert_eq!(tabs.fg_browser_index(), Ok(2));
}

#[test]
fn the_only_tab_is_never_killed() {
    let mut tabs = tabs_of(1);
    let before = tabs.duplicate();
    assert!(!tabs.has_more_than_one());
    assert_eq!(tabs.kill_fg(), Err(ShellError::LastTab));
    assert_eq!(tabs, before);
    assert_eq!(tabs.kill_fg(), Err(ShellError::LastTab));
    assert_eq!(tabs.len(), 1);
    assert_eq!(tabs.ref_fg_browser().unwrap().id, BrowserId(1));
}

#[test]
fn no_step_past_the_ends_for_any_size() {
    for n in 1..6u32 {
        let mut tabs = tabs_of(n);
        tabs.select_last().unwrap();
        assert!(!tabs.can_select_next());
        assert_eq!(tabs.can_select_prev(), n > 1);
        tabs.select_first().unwrap();
        assert!(!tabs.can_select_prev());
        assert_eq!(tabs.can_select_next(), n > 1);
    }
}

#[test]
fn exactly_one_tab_is_in_the_foreground_after_every_operation() {
    let mut tabs = tabs_of(1);
    assert_eq!(foreground_count(&tabs), 1);
    let mut next_id = 2;
    for round in 0..40u32 {
        match round % 8 {
            0 | 1 => {
                tabs.append_new(Browser::new(BrowserId(next_id))).unwrap();
                next_id += 1;
            }
            2 => {
                let _ = tabs.select_prev();
            }
            3 => {
                let _ = tabs.select_first();
            }
            4 => {
                let _ = tabs.select_next();
            }
            5 => {
                let _ = tabs.kill_fg();
            }
            6 => {
                let _ = tabs.select_nth((round as usize) % 3);
            }
            _ => {
                let _ = tabs.select_last();
            }
        }
        assert_eq!(foreground_count(&tabs), 1);
        let at = tabs.fg_browser_index().unwrap();
        assert!(!tabs.browser_at(at).unwrap().is_background);
        assert_eq!(tabs.current_index(), Some(at));
    }
}

#[test]
fn selecting_moves_the_foreground_by_one_or_to_a_position() {
    let mut tabs = tabs_of(4);
    tabs.select_first().unwrap();
    tabs.select_next().unwrap();
    assert_eq!(tabs.fg_browser_index(), Ok(1));
    tabs.select_next().unwrap();
    assert_eq!(tabs.fg_browser_index(), Ok(2));
    tabs.select_prev().unwrap();
    assert_eq!(tabs.fg_browser_index(), Ok(1));
    assert!(tabs.can_select_nth(3));
    assert!(!tabs.can_select_nth(4));
    tabs.select_nth(3).unwrap();
    assert_eq!(tabs.ref_fg_browser().unwrap().id, BrowserId(4));
    assert_eq!(tabs.select_nth(4), Err(ShellError::NoSuchBrowser));
    assert_eq!(tabs.fg_browser_index(), Ok(3));
    assert_eq!(foreground_count(&tabs), 1);
}

#[test]
fn find_browser_looks_at_every_tab() {
    let mut tabs = tabs_of(3);
    assert!(tabs.has_browser(&BrowserId(1)));
    assert!(!tabs.has_browser(&BrowserId(4)));
    let found = tabs.find_browser(&BrowserId(1)).unwrap();
    assert!(found.is_background);
    found.title = Some("first".to_string());
    assert_eq!(tabs.browser_at(0).unwrap().title, Some("first".to_string()));
    assert_eq!(tabs.browser_at(1).unwrap().title, None);
    assert!(tabs.find_browser(&BrowserId(4)).is_none());
    assert_eq!(tabs.len(), 3);
}

#[test]
fn mut_fg_browser_changes_the_foreground_tab_only() {
    let mut tabs = tabs_of(2);
    tabs.mut_fg_browser().unwrap().url = Some("about:blank".to_string());
    assert_eq!(tabs.ref_fg_browser().unwrap().url, Some("about:blank".to_string()));
    assert_eq!(tabs.browser_at(0).unwrap().url, None);
    assert_eq!(tabs.browser_at(1).unwrap().id, BrowserId(2));
}

#[test]
fn a_copy_of_a_collection_equals_it() {
    let mut tabs = tabs_of(3);
    tabs.mut_fg_browser().unwrap().title = Some("t".to_string());
    let copy = tabs.duplicate();
    assert_eq!(copy, tabs);
    tabs.select_first().unwrap();
    assert_ne!(copy, tabs);
}

#[test]
fn every_error_has_its_text() {
    assert_eq!(ShellError::NoForeground.message(), "No foreground browser");
    assert_eq!(ShellError::NoSuchBrowser.message(), "No such browser");
    assert_eq!(ShellError::LastTab.message(), "Can't close the last tab");
    assert_eq!(ShellError::AtFirstTab.message(), "Already on the first tab");
    assert_eq!(ShellError::AtLastTab.message(), "Already on the last tab");
    assert_eq!(ShellError::BadHistoryIndex.message(), "History index out of range");
    assert_eq!(
        ShellError::UnknownMicrodataType.message(),
        "Microdata type not passed as argument"
    );
}

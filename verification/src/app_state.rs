//! The interactive session's state machine: which page is shown, what is
//! selected, what is being typed, and the per-session read and favorite
//! marks. Everything here is plain state transition; rendering and input
//! dispatch live with the caller.

use vstd::prelude::*;

use crate::idset;
use crate::idset::{contains_id, ids_unique};
use crate::item::FeedItem;

verus! {

#[derive(Debug, PartialEq, Eq, Structural)]
pub enum InputMode {
    Normal,
    Adding,
    Deleting,
    FeedManager,
    Help,
}

#[derive(Debug, PartialEq, Eq, Structural)]
pub enum PageMode {
    FeedList,
    FeedManager,
    Favorites,
}

/// The state of one interactive session.
#[derive(Debug)]
pub struct App {
    pub running: bool,
    pub input_mode: InputMode,
    pub page_mode: PageMode,
    pub input_buffer: String,
    pub rss_feeds: Vec<String>,
    pub selected_index: Option<usize>,
    pub current_feed_content: Vec<FeedItem>,
    pub error_message: Option<String>,
    pub read_items: Vec<String>,
    pub favorites: Vec<String>,
    pub scroll: u16,
}

impl Default for App {
    fn default() -> (r: Self)
        ensures
            r.wf(),
            r.running,
            r.input_mode == InputMode::Normal,
            r.page_mode == PageMode::FeedList,
            r.input_buffer@.len() == 0,
            r.rss_feeds@.len() == 0,
            r.selected_index is None,
            r.current_feed_content@.len() == 0,
            r.error_message is None,
            r.read_items@.len() == 0,
            r.favorites@.len() == 0,
            r.scroll == 0,
    {
        App {
            running: true,
            input_mode: InputMode::Normal,
            page_mode: PageMode::FeedList,
            input_buffer: String::new(),
            rss_feeds: Vec::new(),
            selected_index: None,
            current_feed_content: Vec::new(),
            error_message: None,
            read_items: Vec::new(),
            favorites: Vec::new(),
            scroll: 0,
        }
    }
}

impl App {
    pub open spec fn wf(&self) -> bool {
        &&& ids_unique(self.read_items@)
        &&& ids_unique(self.favorites@)
    }

    /// How many rows the current page navigates over.
    pub open spec fn nav_len(&self) -> int {
        match self.page_mode {
            PageMode::FeedManager => self.rss_feeds@.len() as int,
            _ => self.current_feed_content@.len() as int,
        }
    }

    /// Handles the tick event of the terminal.
    pub fn tick(&self) {
    }

    /// Stops the session.
    pub fn quit(&mut self)
        ensures
            !final(self).running,
            (*final(self) == App { running: false, ..*old(self) }),
    {
        self.running = false;
    }

    pub fn clear_error(&mut self)
        ensures
            (*final(self) == App { error_message: None, ..*old(self) }),
    {
        self.error_message = None;
    }

    /// Whether the item is marked read.
    pub fn is_item_read(&self, item: &FeedItem) -> (r: bool)
        ensures
            r == contains_id(self.read_items@, item.id@),
    {
        idset::id_contains(&self.read_items, item.id.as_str())
    }

    /// Whether the item is marked favorite.
    pub fn is_item_favorite(&self, item: &FeedItem) -> (r: bool)
        ensures
            r == contains_id(self.favorites@, item.id@),
    {
        idset::id_contains(&self.favorites, item.id.as_str())
    }

    /// Toggles the read mark of the selected item, if any.
    pub fn toggle_read_status(&mut self)
        requires
            old(self).wf(),
        ensures
            final(self).wf(),
            (match old(self).selected_index {
                Some(i) => if i < old(self).current_feed_content@.len() {
                    forall|y: Seq<char>|
                        contains_id(final(self).read_items@, y) <==> (if y == old(self).current_feed_content@[i as int].id@ {
                            !contains_id(old(self).read_items@, y)
                        } else {
                            contains_id(old(self).read_items@, y)
                        })
                } else {
                    final(self).read_items@ == old(self).read_items@
                },
                None => final(self).read_items@ == old(self).read_items@,
            }),
            (*final(self) == App { read_items: final(self).read_items, ..*old(self) }),
    {
        if let Some(index) = self.selected_index {
            if index < self.current_feed_content.len() {
                let id = self.current_feed_content[index].id.clone();
                if idset::id_contains(&self.read_items, id.as_str()) {
                    idset::id_remove(&mut self.read_items, id.as_str());
                } else {
                    idset::id_insert(&mut self.read_items, id.as_str());
                }
            }
        }
    }

    /// Toggles the favorite mark of the selected item, if any.
    pub fn toggle_favorite(&mut self)
        requires
            old(self).wf(),
        ensures
            final(self).wf(),
            (match old(self).selected_index {
                Some(i) => if i < old(self).current_feed_content@.len() {
                    forall|y: Seq<char>|
                        contains_id(final(self).favorites@, y) <==> (if y == old(self).current_feed_content@[i as int].id@ {
                            !contains_id(old(self).favorites@, y)
                        } else {
                            contains_id(old(self).favorites@, y)
                        })
                } else {
                    final(self).favorites@ == old(self).favorites@
                },
                None => final(self).favorites@ == old(self).favorites@,
            }),
            (*final(self) == App { favorites: final(self).favorites, ..*old(self) }),
    {
        if let Some(index) = self.selected_index {
            if index < self.current_feed_content.len() {
                let id = self.current_feed_content[index].id.clone();
                if idset::id_contains(&self.favorites, id.as_str()) {
                    idset::id_remove(&mut self.favorites, id.as_str());
                } else {
                    idset::id_insert(&mut self.favorites, id.as_str());
                }
            }
        }
    }

    /// Marks the selected item read, if any.
    pub fn mark_as_read(&mut self)
        requires
            old(self).wf(),
        ensures
            final(self).wf(),
            (match old(self).selected_index {
                Some(i) => if i < old(self).current_feed_content@.len() {
                    forall|y: Seq<char>|
                        contains_id(final(self).read_items@, y) <==> (contains_id(
                            old(self).read_items@,
                            y,
                        ) || y == old(self).current_feed_content@[i as int].id@)
                } else {
                    final(self).read_items@ == old(self).read_items@
                },
                None => final(self).read_items@ == old(self).read_items@,
            }),
            (*final(self) == App { read_items: final(self).read_items, ..*old(self) }),
    {
        if let Some(index) = self.selected_index {
            if index < self.current_feed_content.len() {
                let id = self.current_feed_content[index].id.clone();
                idset::id_insert(&mut self.read_items, id.as_str());
            }
        }
    }

    /// Marks every item of the current list read.
    #[verifier::loop_isolation(false)]
    pub fn mark_all_as_read(&mut self)
        requires
            old(self).wf(),
        ensures
            final(self).wf(),
            forall|y: Seq<char>|
                contains_id(final(self).read_items@, y) <==> (contains_id(old(self).read_items@, y)
                    || exists|i: int|
                    0 <= i < old(self).current_feed_content@.len() && (#[trigger] old(self).current_feed_content@[i]).id@ == y),
            (*final(self) == App { read_items: final(self).read_items, ..*old(self) }),
    {
        let ghost cur = self.current_feed_content@;
        let mut i: usize = 0;
        while i < self.current_feed_content.len()
            invariant
                i <= cur.len(),
                self.current_feed_content@ == cur,
                ids_unique(self.read_items@),
                forall|y: Seq<char>|
                    contains_id(self.read_items@, y) <==> (contains_id(old(self).read_items@, y)
                        || exists|j: int| 0 <= j < i && (#[trigger] cur[j]).id@ == y),
                (*self == App { read_items: self.read_items, ..*old(self) }),
            decreases cur.len() - i,
        {
            let id = self.current_feed_content[i].id.clone();
            idset::id_insert(&mut self.read_items, id.as_str());
            proof {
                assert forall|y: Seq<char>| contains_id(self.read_items@, y) implies (contains_id(
                    old(self).read_items@,
                    y,
                ) || exists|j: int| 0 <= j < i + 1 && (#[trigger] cur[j]).id@ == y) by {
                    if y == cur[i as int].id@ {
                        assert((#[trigger] cur[i as int]).id@ == y);
                    }
                }
            }
            i += 1;
        }
    }

    /// Moves the selection one row up, wrapping to the bottom.
    pub fn select_previous(&mut self)
        ensures
            (match old(self).selected_index {
                Some(current) => if old(self).nav_len() == 0 {
                    final(self).selected_index is None
                } else if current > 0 {
                    final(self).selected_index == Some((current - 1) as usize)
                } else {
                    final(self).selected_index == Some((old(self).nav_len() - 1) as usize)
                },
                None => final(self).selected_index is None,
            }),
            (*final(self) == App { selected_index: final(self).selected_index, ..*old(self) }),
    {
        if let Some(current) = self.selected_index {
            let len = match self.page_mode {
                PageMode::FeedManager => self.rss_feeds.len(),
                _ => self.current_feed_content.len(),
            };
            if len == 0 {
                self.selected_index = None;
            } else if current > 0 {
                self.selected_index = Some(current - 1);
            } else {
                self.selected_index = Some(len - 1);
            }
        }
    }

    /// Moves the selection one row down, wrapping to the top.
    pub fn select_next(&mut self)
        ensures
            (match old(self).selected_index {
                Some(current) => if old(self).nav_len() == 0 {
                    final(self).selected_index is None
                } else if current + 1 < old(self).nav_len() {
                    final(self).selected_index == Some((current + 1) as usize)
                } else {
                    final(self).selected_index == Some(0usize)
                },
                None => final(self).selected_index is None,
            }),
            (*final(self) == App { selected_index: final(self).selected_index, ..*old(self) }),
    {
        if let Some(current) = self.selected_index {
            let len = match self.page_mode {
                PageMode::FeedManager => self.rss_feeds.len(),
                _ => self.current_feed_content.len(),
            };
            if len == 0 {
                self.selected_index = None;
            } else if current < len - 1 {
                self.selected_index = Some(current + 1);
            } else {
                self.selected_index = Some(0);
            }
        }
    }

    pub fn start_adding(&mut self)
        ensures
            final(self).input_mode == InputMode::Adding,
            final(self).input_buffer@.len() == 0,
            (*final(self) == App {
                input_mode: InputMode::Adding,
                input_buffer: final(self).input_buffer,
                ..*old(self)
            }),
    {
        self.input_mode = InputMode::Adding;
        self.input_buffer = String::new();
    }

    pub fn cancel_adding(&mut self)
        ensures
            final(self).input_mode == InputMode::Normal,
            final(self).input_buffer@.len() == 0,
            final(self).error_message is None,
            (*final(self) == App {
                input_mode: InputMode::Normal,
                input_buffer: final(self).input_buffer,
                error_message: None,
                ..*old(self)
            }),
    {
        self.input_mode = InputMode::Normal;
        self.input_buffer = String::new();
        self.error_message = None;
    }

    pub fn start_deleting(&mut self)
        ensures
            (if old(self).rss_feeds@.len() > 0 {
                *final(self) == App {
                    input_mode: InputMode::Deleting,
                    selected_index: Some(0usize),
                    ..*old(self)
                }
            } else {
                *final(self) == *old(self)
            }),
    {
        if self.rss_feeds.len() > 0 {
            self.input_mode = InputMode::Deleting;
            self.selected_index = Some(0);
        }
    }

    pub fn cancel_deleting(&mut self)
        ensures
            (*final(self) == App { input_mode: InputMode::Normal, ..*old(self) }),
    {
        self.input_mode = InputMode::Normal;
    }

    /// Removes the subscription at `index`, dropping the selection and the
    /// shown items.
    pub fn delete_feed(&mut self, index: usize)
        ensures
            (if index < old(self).rss_feeds@.len() {
                final(self).rss_feeds@ == old(self).rss_feeds@.remove(index as int) && final(self).selected_index is None && final(self).current_feed_content@.len() == 0 && *final(self) == App {
                    rss_feeds: final(self).rss_feeds,
                    selected_index: None,
                    current_feed_content: final(self).current_feed_content,
                    ..*old(self)
                }
            } else {
                *final(self) == *old(self)
            }),
    {
        if index < self.rss_feeds.len() {
            self.rss_feeds.remove(index);
            self.selected_index = None;
            self.current_feed_content.clear();
        }
    }

    /// Switches between the feed list and the feed manager. Reports whether
    /// the caller should refresh all feeds (leaving the manager triggers a
    /// refresh).
    pub fn toggle_feed_manager(&mut self) -> (refresh: bool)
        ensures
            refresh == (old(self).page_mode == PageMode::FeedManager),
            (if old(self).page_mode == PageMode::FeedManager {
                *final(self) == App {
                    page_mode: PageMode::FeedList,
                    selected_index: Some(0usize),
                    ..*old(self)
                }
            } else {
                *final(self) == App {
                    page_mode: PageMode::FeedManager,
                    selected_index: Some(0usize),
                    ..*old(self)
                }
            }),
    {
        match self.page_mode {
            PageMode::FeedManager => {
                self.page_mode = PageMode::FeedList;
                self.selected_index = Some(0);
                true
            },
            _ => {
                self.page_mode = PageMode::FeedManager;
                self.selected_index = Some(0);
                false
            },
        }
    }

    /// Switches between the favorites view and the feed list.
    pub fn toggle_favorites_page(&mut self)
        ensures
            (if old(self).page_mode == PageMode::Favorites {
                *final(self) == App { page_mode: PageMode::FeedList, ..*old(self) }
            } else {
                *final(self) == App { page_mode: PageMode::Favorites, ..*old(self) }
            }),
    {
        match self.page_mode {
            PageMode::Favorites => {
                self.page_mode = PageMode::FeedList;
            },
            _ => {
                self.page_mode = PageMode::Favorites;
            },
        }
    }

    /// Switches the help page on and off.
    pub fn toggle_help(&mut self)
        ensures
            (if old(self).input_mode == InputMode::Help {
                *final(self) == App { input_mode: InputMode::Normal, ..*old(self) }
            } else {
                *final(self) == App { input_mode: InputMode::Help, ..*old(self) }
            }),
    {
        match self.input_mode {
            InputMode::Help => {
                self.input_mode = InputMode::Normal;
            },
            _ => {
                self.input_mode = InputMode::Help;
            },
        }
    }

    pub fn scroll_up(&mut self)
        ensures
            (if old(self).scroll > 0 {
                *final(self) == App { scroll: (old(self).scroll - 1) as u16, ..*old(self) }
            } else {
                *final(self) == *old(self)
            }),
    {
        if self.scroll > 0 {
            self.scroll = self.scroll - 1;
        }
    }

    pub fn scroll_down(&mut self)
        ensures
            (if old(self).scroll < u16::MAX && (old(self).scroll as int) + 1 < old(self).nav_len() {
                *final(self) == App { scroll: (old(self).scroll + 1) as u16, ..*old(self) }
            } else {
                *final(self) == *old(self)
            }),
    {
        let max_scroll = match self.page_mode {
            PageMode::FeedManager => self.rss_feeds.len(),
            _ => self.current_feed_content.len(),
        };
        if self.scroll < u16::MAX && max_scroll > 0 && (self.scroll as usize) < max_scroll - 1 {
            self.scroll = self.scroll + 1;
        }
    }

    /// Scrolls back to the top.
    pub fn scroll_to_top(&mut self)
        ensures
            (*final(self) == App { scroll: 0, ..*old(self) }),
    {
        self.scroll = 0;
    }
}

} // verus!

//! The startpage's whole reactive state and the actions the composer wires
//! to it.
//!
//! Every user action is a function from the current state to the next one:
//! the composer itself stays a pure function of the signal values and the
//! viewport width, and the surrounding shell only performs the returned
//! effects (persisting the list, opening a URL) and feeds frame ticks back.

use vstd::prelude::*;
use crate::bookmarks::{add_bookmark, clone_bookmarks, remove_bookmark_by_url, Bookmark,
    BookmarkView, spec_remove_first_by_url};
use crate::keys::{key_for, spec_bump, spec_hash64, spec_key_for};
use crate::layout::{columns_for_width, spec_columns_for_width};
use crate::search::{search_target, SearchEngine, spec_search_url};
use crate::signal::{spec_set, Signal};
use crate::snackbar::{spec_tick, NotificationState, SnackbarRequest};
use crate::text::spec_trim;
use vstd::utf8::encode_utf8;
use crate::urls::spec_normalize_url;
use vstd::string::{StringExecFns, StringSliceAdditionalSpecFns};

verus! {

/// How long a transient notification stays up, in milliseconds.
pub const TOAST_DURATION_MS: u64 = 3000;

/// Whether `n` is showing a fresh toast reading `msg`, with the standard
/// duration and no action.
pub open spec fn spec_showing_toast(n: NotificationState, msg: Seq<char>) -> bool {
    match n {
        NotificationState::Showing { req, remaining_ms } => {
            &&& req.message@ == msg
            &&& req.action_label is None
            &&& req.duration_ms == TOAST_DURATION_MS
            &&& remaining_ms == TOAST_DURATION_MS
        },
        NotificationState::Idle => false,
    }
}

/// All state the running startpage owns: one signal per reactive value,
/// plus the notification scheduler.
pub struct AppState {
    pub bookmarks: Signal<Vec<Bookmark>>,
    pub query: Signal<String>,
    pub engine: Signal<SearchEngine>,
    pub new_title: Signal<String>,
    pub new_url: Signal<String>,
    pub form_epoch: Signal<u64>,
    pub notifications: NotificationState,
}

/// What one composition pass tells the renderer to draw, as plain values:
/// the toolkit turns this into widgets, the state never does.
pub struct ViewPlan {
    /// Grid columns for the current viewport width.
    pub columns: u32,
    /// Text of the visible notification, when one is showing.
    pub toast_message: Option<String>,
    /// Identity key of the title field, already folded with the epoch.
    pub title_field_key: u64,
    /// Identity key of the URL field, already folded with the epoch.
    pub url_field_key: u64,
    /// The engine the search pills mark as selected.
    pub engine: SearchEngine,
    /// The bookmarks to lay out, in display order.
    pub bookmarks: Vec<Bookmark>,
    /// One identity key per bookmark card, the hash of its URL.
    pub card_keys: Vec<u64>,
}

impl AppState {
    /// Fresh state around an already-loaded bookmark list: empty inputs,
    /// the default engine, epoch zero, nothing showing.
    pub fn new(stored: Vec<Bookmark>) -> (s: Self)
        ensures
            s.bookmarks.value == stored,
            !s.bookmarks.dirty,
            s.query.value@ == Seq::<char>::empty(),
            !s.query.dirty,
            s.engine.value == SearchEngine::DuckDuckGo,
            !s.engine.dirty,
            s.new_title.value@ == Seq::<char>::empty(),
            !s.new_title.dirty,
            s.new_url.value@ == Seq::<char>::empty(),
            !s.new_url.dirty,
            s.form_epoch.value == 0,
            !s.form_epoch.dirty,
            s.notifications == NotificationState::Idle,
    {
        AppState {
            bookmarks: Signal::new(stored),
            query: Signal::new(String::new()),
            engine: Signal::new(SearchEngine::DuckDuckGo),
            new_title: Signal::new(String::new()),
            new_url: Signal::new(String::new()),
            form_epoch: Signal::new(0),
            notifications: NotificationState::new(),
        }
    }

    /// Shows a toast with the standard duration and no action.
    fn show_toast(&mut self, msg: &str)
        ensures
            spec_showing_toast(final(self).notifications, msg@),
            final(self).bookmarks == old(self).bookmarks,
            final(self).query == old(self).query,
            final(self).engine == old(self).engine,
            final(self).new_title == old(self).new_title,
            final(self).new_url == old(self).new_url,
            final(self).form_epoch == old(self).form_epoch,
    {
        let req = SnackbarRequest {
            message: String::from_str(msg),
            action_label: None,
            duration_ms: TOAST_DURATION_MS,
        };
        self.notifications.show(req);
    }

    /// Submits the add-bookmark form.  On success the new entry is
    /// appended, both fields are cleared, the form epoch is bumped so the
    /// text widgets remount empty, and a confirmation toast shows; the
    /// result says whether the list changed and must be persisted.  On a
    /// validation failure nothing changes but the toast, which names the
    /// failed constraint.
    pub fn submit_add(&mut self) -> (changed: bool)
        ensures
            ({
                let title = old(self).new_title.value@;
                let url_raw = old(self).new_url.value@;
                &&& final(self).query == old(self).query
                &&& final(self).engine == old(self).engine
                &&& if spec_trim(title).len() == 0 || spec_trim(url_raw).len() == 0 {
                    &&& !changed
                    &&& spec_showing_toast(final(self).notifications, "Title and URL are required."@)
                    &&& final(self).bookmarks == old(self).bookmarks
                    &&& final(self).new_title == old(self).new_title
                    &&& final(self).new_url == old(self).new_url
                    &&& final(self).form_epoch == old(self).form_epoch
                } else if spec_normalize_url(url_raw) is None {
                    &&& !changed
                    &&& spec_showing_toast(
                        final(self).notifications,
                        "URL must be a domain or start with http(s)://"@,
                    )
                    &&& final(self).bookmarks == old(self).bookmarks
                    &&& final(self).new_title == old(self).new_title
                    &&& final(self).new_url == old(self).new_url
                    &&& final(self).form_epoch == old(self).form_epoch
                } else {
                    &&& changed
                    &&& final(self).bookmarks.value.deep_view() == old(
                        self,
                    ).bookmarks.value.deep_view().push(
                        BookmarkView {
                            title: spec_trim(title),
                            url: spec_normalize_url(url_raw)->Some_0,
                        },
                    )
                    &&& final(self).bookmarks.dirty
                    &&& final(self).new_title.value@ == Seq::<char>::empty()
                    &&& final(self).new_title.dirty == (old(self).new_title.dirty || title
                        != Seq::<char>::empty())
                    &&& final(self).new_url.value@ == Seq::<char>::empty()
                    &&& final(self).new_url.dirty == (old(self).new_url.dirty || url_raw
                        != Seq::<char>::empty())
                    &&& final(self).form_epoch.value == spec_bump(old(self).form_epoch.value)
                    &&& final(self).form_epoch.dirty
                    &&& spec_showing_toast(final(self).notifications, "Bookmark added."@)
                }
            }),
    {
        let title = self.new_title.get().clone();
        let url_raw = self.new_url.get().clone();
        match add_bookmark(self.bookmarks.get(), title.as_str(), url_raw.as_str()) {
            Err(e) => {
                self.show_toast(e.message());
                false
            },
            Ok(v) => {
                self.bookmarks.replace_notify(v);
                self.new_title.set(String::new());
                self.new_url.set(String::new());
                let bumped = crate::keys::bump_epoch(*self.form_epoch.get());
                self.form_epoch.replace_notify(bumped);
                self.show_toast("Bookmark added.");
                true
            },
        }
    }

    /// Removes the first bookmark with the given URL, shows the removal
    /// toast, and reports that the list must be persisted.
    pub fn submit_remove(&mut self, url: &str)
        ensures
            final(self).bookmarks.value.deep_view() == spec_remove_first_by_url(
                old(self).bookmarks.value.deep_view(),
                url@,
            ),
            final(self).bookmarks.dirty,
            spec_showing_toast(final(self).notifications, "Bookmark removed."@),
            final(self).query == old(self).query,
            final(self).engine == old(self).engine,
            final(self).new_title == old(self).new_title,
            final(self).new_url == old(self).new_url,
            final(self).form_epoch == old(self).form_epoch,
    {
        let v = remove_bookmark_by_url(self.bookmarks.get(), url);
        self.bookmarks.replace_notify(v);
        self.show_toast("Bookmark removed.");
    }

    /// The URL the search box should open for the current query: the query
    /// itself when it normalizes to a URL, else the selected engine's
    /// query URL.  Reading it changes nothing.
    pub fn search_url(&self) -> (r: String)
        ensures
            match spec_normalize_url(self.query.value@) {
                Some(u) => r@ == u,
                None => r@ == spec_search_url(self.engine.value, self.query.value@),
            },
    {
        search_target(*self.engine.get(), self.query.get().as_str())
    }

    /// The Clear control: dismisses any toast and empties the query.
    pub fn clear_search(&mut self)
        ensures
            final(self).notifications == NotificationState::Idle,
            final(self).query.value@ == Seq::<char>::empty(),
            final(self).query.dirty == (old(self).query.dirty || old(self).query.value@
                != Seq::<char>::empty()),
            final(self).bookmarks == old(self).bookmarks,
            final(self).engine == old(self).engine,
            final(self).new_title == old(self).new_title,
            final(self).new_url == old(self).new_url,
            final(self).form_epoch == old(self).form_epoch,
    {
        self.notifications.dismiss();
        self.query.set(String::new());
    }

    /// The Dismiss control: clears the notification slot at once.
    pub fn dismiss_notification(&mut self)
        ensures
            *final(self) == (AppState { notifications: NotificationState::Idle, ..*old(self) }),
    {
        self.notifications.dismiss();
    }

    /// Selects a search engine pill; an equal re-selection pends no change.
    pub fn select_engine(&mut self, e: SearchEngine)
        ensures
            *final(self) == (AppState { engine: spec_set(old(self).engine, e), ..*old(self) }),
    {
        self.engine.set(e);
    }

    /// One frame tick: advances the notification countdown by the elapsed
    /// wall-clock milliseconds and touches nothing else.
    pub fn frame_tick(&mut self, elapsed_ms: u64)
        ensures
            *final(self) == (AppState {
                notifications: spec_tick(old(self).notifications, elapsed_ms),
                ..*old(self)
            }),
    {
        self.notifications.tick(elapsed_ms);
    }

    /// One composition pass: a pure function of the current state and the
    /// viewport width to the plan the renderer draws.  Reading it mutates
    /// nothing.
    pub fn compose(&self, viewport_width: u32) -> (plan: ViewPlan)
        ensures
            plan.columns == spec_columns_for_width(viewport_width),
            match plan.toast_message {
                Some(m) => match self.notifications {
                    NotificationState::Showing { req, remaining_ms } => m@ == req.message@,
                    NotificationState::Idle => false,
                },
                None => self.notifications is Idle,
            },
            plan.title_field_key == spec_key_for("title".spec_bytes(), self.form_epoch.value),
            plan.url_field_key == spec_key_for("url".spec_bytes(), self.form_epoch.value),
            plan.engine == self.engine.value,
            plan.bookmarks@ == self.bookmarks.value@,
            plan.card_keys@.len() == self.bookmarks.value@.len(),
            forall|k: int| 0 <= k < plan.card_keys@.len() ==> plan.card_keys@[k] == spec_hash64(
                encode_utf8(self.bookmarks.value@[k]@.url),
            ),
    {
        let toast_message = match self.notifications.visible() {
            None => None,
            Some(req) => Some(req.message.clone()),
        };
        let items = self.bookmarks.get();
        let shown = clone_bookmarks(items);
        let mut card_keys: Vec<u64> = Vec::new();
        let mut k: usize = 0;
        while k < items.len()
            invariant
                0 <= k <= items@.len(),
                card_keys@.len() == k,
                forall|m: int| 0 <= m < k ==> card_keys@[m] == spec_hash64(
                    encode_utf8(items@[m]@.url),
                ),
            decreases items@.len() - k,
        {
            card_keys.push(crate::keys::hash64(items[k].url.as_str()));
            k = k + 1;
        }
        ViewPlan {
            columns: columns_for_width(viewport_width),
            toast_message,
            title_field_key: key_for("title", *self.form_epoch.get()),
            url_field_key: key_for("url", *self.form_epoch.get()),
            engine: *self.engine.get(),
            bookmarks: shown,
            card_keys,
        }
    }
}

} // verus!

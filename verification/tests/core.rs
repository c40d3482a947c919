use startpage::bookmarks::{add_bookmark, remove_bookmark_by_url, AddError, Bookmark};
use startpage::keys::{bump_epoch, hash64, key_for};
use startpage::layout::columns_for_width;
use startpage::search::SearchEngine;
use startpage::signal::Signal;
use startpage::snackbar::{NotificationState, SnackbarRequest};
use startpage::state::AppState;
use startpage::urls::normalize_url;

fn bm(title: &str, url: &str) -> Bookmark {
    Bookmark {
        title: String::from(title),
        url: String::from(url),
    }
}

fn toast_req(message: &str) -> SnackbarRequest {
    SnackbarRequest {
        message: String::from(message),
        action_label: None,
        duration_ms: 1000,
    }
}

#[test]
fn signal_get_returns_last_write() {
    let mut s: Signal<u64> = Signal::new(1);
    assert_eq!(*s.get(), 1);
    s.set(2);
    assert_eq!(*s.get(), 2);
    s.update(|v: &u64| v + 1);
    assert_eq!(*s.get(), 3);
    s.set(9);
    s.set(4);
    assert_eq!(*s.get(), 4);
}

#[test]
fn signal_set_of_equal_value_pends_no_change() {
    let mut s: Signal<u64> = Signal::new(7);
    assert!(!s.take_dirty());
    s.set(7);
    assert!(!s.take_dirty());
    s.set(8);
    assert!(s.take_dirty());
    assert!(!s.take_dirty());
}

#[test]
fn signal_update_always_pends_change() {
    let mut s: Signal<u64> = Signal::new(7);
    s.update(|v: &u64| *v);
    assert!(s.take_dirty());
    let mut t: Signal<String> = Signal::new(String::from("x"));
    t.set(String::from("x"));
    assert!(!t.take_dirty());
    t.replace_notify(String::from("x"));
    assert!(t.take_dirty());
}

#[test]
fn snackbar_show_replaces_pending_request() {
    let mut n = NotificationState::new();
    n.show(toast_req("first"));
    n.show(toast_req("second"));
    match n.visible() {
        Some(req) => assert_eq!(req.message, "second"),
        None => panic!("a notification should be visible"),
    }
    n.tick(500);
    match n.visible() {
        Some(req) => assert_eq!(req.message, "second"),
        None => panic!("the replacement should still be visible"),
    }
}

#[test]
fn snackbar_ticks_summing_to_duration_dismiss() {
    let mut n = NotificationState::new();
    n.show(SnackbarRequest {
        message: String::from("m"),
        action_label: None,
        duration_ms: 3000,
    });
    n.tick(1000);
    n.tick(1000);
    assert!(n.visible().is_some());
    n.tick(1000);
    assert!(n.visible().is_none());
    assert_eq!(n, NotificationState::Idle);
}

#[test]
fn snackbar_dismiss_clears_immediately() {
    let mut n = NotificationState::new();
    n.show(toast_req("m"));
    n.dismiss();
    assert!(n.visible().is_none());
    n.tick(10);
    assert!(n.visible().is_none());
}

#[test]
fn epoch_keys_differ_across_adjacent_epochs() {
    for e in [0u64, 1, 41, u64::MAX - 1, u64::MAX] {
        assert_ne!(key_for("title", e), key_for("title", bump_epoch(e)));
        assert_ne!(key_for("url", e), key_for("url", bump_epoch(e)));
    }
    assert_eq!(bump_epoch(u64::MAX), 0);
}

#[test]
fn hash_is_stable_and_spreads() {
    assert_eq!(hash64("title"), hash64("title"));
    assert_ne!(hash64("title"), hash64("url"));
    assert_eq!(key_for("title", 0), hash64("title"));
}

#[test]
fn normalize_url_cases() {
    assert_eq!(normalize_url("example.com"), Some(String::from("https://example.com")));
    assert_eq!(normalize_url(""), None);
    assert_eq!(normalize_url("https://x.com"), Some(String::from("https://x.com")));
    assert_eq!(normalize_url("http://x.com"), Some(String::from("http://x.com")));
    assert_eq!(normalize_url("two words"), None);
    assert_eq!(normalize_url("   "), None);
    assert_eq!(normalize_url("noscheme-nodot"), None);
    assert_eq!(normalize_url("  docs.rs  "), Some(String::from("https://docs.rs")));
}

#[test]
fn columns_follow_breakpoints() {
    assert_eq!(columns_for_width(500), 1);
    assert_eq!(columns_for_width(700), 2);
    assert_eq!(columns_for_width(1000), 3);
    assert_eq!(columns_for_width(1400), 4);
    assert_eq!(columns_for_width(519), 1);
    assert_eq!(columns_for_width(520), 2);
    assert_eq!(columns_for_width(859), 2);
    assert_eq!(columns_for_width(860), 3);
    assert_eq!(columns_for_width(1179), 3);
    assert_eq!(columns_for_width(1180), 4);
}

#[test]
fn add_bookmark_validates_and_appends() {
    let items = vec![bm("A", "https://a.io")];
    match add_bookmark(&items, "  Docs  ", " docs.rs ") {
        Ok(v) => {
            assert_eq!(v.len(), 2);
            assert_eq!(v[0], bm("A", "https://a.io"));
            assert_eq!(v[1], bm("Docs", "https://docs.rs"));
        }
        Err(_) => panic!("a valid submission should append"),
    }
    assert_eq!(add_bookmark(&items, "", "docs.rs"), Err(AddError::MissingField));
    assert_eq!(add_bookmark(&items, "Docs", "   "), Err(AddError::MissingField));
    assert_eq!(add_bookmark(&items, "Docs", "two words"), Err(AddError::InvalidUrl));
}

#[test]
fn remove_takes_first_match_only() {
    let items = vec![bm("A", "https://a.io"), bm("B", "https://b.io"), bm("A2", "https://a.io")];
    let r = remove_bookmark_by_url(&items, "https://a.io");
    assert_eq!(r, vec![bm("B", "https://b.io"), bm("A2", "https://a.io")]);
    let r2 = remove_bookmark_by_url(&items, "https://zzz.io");
    assert_eq!(r2, items);
}

#[test]
fn add_then_remove_restores_original_list() {
    let original = vec![bm("A", "https://a.io"), bm("B", "https://b.io")];
    let mut state = AppState::new(original.clone());
    state.new_title.set(String::from("Docs"));
    state.new_url.set(String::from("docs.rs"));
    assert!(state.submit_add());
    {
        let stored = state.bookmarks.get();
        assert_eq!(stored.len(), 3);
        assert_eq!(stored[0], bm("A", "https://a.io"));
        assert_eq!(stored[1], bm("B", "https://b.io"));
        assert_eq!(stored[2], bm("Docs", "https://docs.rs"));
    }
    state.submit_remove("https://docs.rs");
    assert_eq!(*state.bookmarks.get(), original);
}

#[test]
fn submit_add_rejections_mutate_nothing_but_the_toast() {
    let original = vec![bm("A", "https://a.io")];
    let mut state = AppState::new(original.clone());
    state.new_title.set(String::from(""));
    state.new_url.set(String::from("docs.rs"));
    assert!(!state.submit_add());
    assert_eq!(*state.bookmarks.get(), original);
    assert_eq!(*state.new_url.get(), "docs.rs");
    match state.notifications.visible() {
        Some(req) => assert_eq!(req.message, "Title and URL are required."),
        None => panic!("a rejection should raise a toast"),
    }
    state.new_title.set(String::from("T"));
    state.new_url.set(String::from("two words"));
    assert!(!state.submit_add());
    match state.notifications.visible() {
        Some(req) => assert_eq!(req.message, "URL must be a domain or start with http(s)://"),
        None => panic!("a rejection should raise a toast"),
    }
}

#[test]
fn submit_add_clears_fields_and_bumps_epoch() {
    let mut state = AppState::new(Vec::new());
    let epoch_before = *state.form_epoch.get();
    let plan_before = state.compose(900);
    state.new_title.set(String::from("Docs"));
    state.new_url.set(String::from("docs.rs"));
    assert!(state.submit_add());
    assert_eq!(*state.new_title.get(), "");
    assert_eq!(*state.new_url.get(), "");
    assert_eq!(*state.form_epoch.get(), epoch_before.wrapping_add(1));
    let plan_after = state.compose(900);
    assert_ne!(plan_before.title_field_key, plan_after.title_field_key);
    assert_ne!(plan_before.url_field_key, plan_after.url_field_key);
    match state.notifications.visible() {
        Some(req) => assert_eq!(req.message, "Bookmark added."),
        None => panic!("an added bookmark should raise a toast"),
    }
    state.frame_tick(3000);
    assert!(state.notifications.visible().is_none());
}

#[test]
fn compose_reports_state_as_plain_values() {
    let mut state = AppState::new(vec![bm("A", "https://a.io"), bm("B", "https://b.io")]);
    state.select_engine(SearchEngine::Brave);
    let plan = state.compose(700);
    assert_eq!(plan.columns, 2);
    assert_eq!(plan.engine, SearchEngine::Brave);
    assert_eq!(plan.toast_message, None);
    assert_eq!(plan.bookmarks.len(), 2);
    assert_eq!(plan.card_keys.len(), 2);
    assert_eq!(plan.card_keys[0], hash64("https://a.io"));
    assert_eq!(plan.title_field_key, key_for("title", 0));
    state.submit_remove("https://a.io");
    let plan2 = state.compose(700);
    assert_eq!(plan2.toast_message, Some(String::from("Bookmark removed.")));
    assert_eq!(plan2.bookmarks.len(), 1);
}

#[test]
fn clear_search_resets_query_and_toast() {
    let mut state = AppState::new(Vec::new());
    state.query.set(String::from("rust"));
    state.new_title.set(String::from(""));
    state.new_url.set(String::from(""));
    state.submit_add();
    assert!(state.notifications.visible().is_some());
    state.clear_search();
    assert_eq!(*state.query.get(), "");
    assert!(state.notifications.visible().is_none());
}

#[test]
fn search_engine_labels_and_urls() {
    assert_eq!(SearchEngine::DuckDuckGo.label(), "DuckDuckGo");
    assert_eq!(SearchEngine::Google.label(), "Google");
    assert_eq!(SearchEngine::Brave.label(), "Brave");
    assert_eq!(
        SearchEngine::DuckDuckGo.url("two words"),
        "https://duckduckgo.com/?q=two%20words"
    );
    assert_eq!(
        SearchEngine::Google.url(" rust "),
        "https://www.google.com/search?q=rust"
    );
    assert_eq!(
        SearchEngine::Brave.url("a&b"),
        "https://search.brave.com/search?q=a%26b"
    );
}

#[test]
fn search_url_opens_urls_directly_and_queries_otherwise() {
    let mut state = AppState::new(Vec::new());
    state.query.set(String::from("docs.rs"));
    assert_eq!(state.search_url(), "https://docs.rs");
    state.query.set(String::from("two words"));
    assert_eq!(state.search_url(), "https://duckduckgo.com/?q=two%20words");
    state.select_engine(SearchEngine::Google);
    assert_eq!(state.search_url(), "https://www.google.com/search?q=two%20words");
}

#[test]
fn snackbar_handles_extreme_durations() {
    let mut n = NotificationState::new();
    n.show(SnackbarRequest {
        message: String::from("m"),
        action_label: None,
        duration_ms: u64::MAX,
    });
    n.tick(u64::MAX - 1);
    assert!(n.visible().is_some());
    n.tick(u64::MAX);
    assert!(n.visible().is_none());
    n.show(SnackbarRequest {
        message: String::from("zero"),
        action_label: None,
        duration_ms: 0,
    });
    n.tick(0);
    assert!(n.visible().is_none());
}

#[test]
fn normalize_url_rejects_any_whitespace_inside() {
    assert_eq!(normalize_url("a\tb.com"), None);
    assert_eq!(normalize_url("a\nb.com"), None);
    assert_eq!(normalize_url("a\u{a0}b.com"), None);
    assert_eq!(normalize_url("a\u{2003}b.com"), None);
}

#[test]
fn normalize_url_trims_unicode_whitespace() {
    assert_eq!(normalize_url("docs.rs\u{a0}"), Some(String::from("https://docs.rs")));
    assert_eq!(
        normalize_url("\u{3000}docs.rs\u{2009}"),
        Some(String::from("https://docs.rs"))
    );
    assert_eq!(normalize_url("\u{a0}\u{2028}"), None);
}

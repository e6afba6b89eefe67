use pawkit_desktop::portal::{
    add_url_outcome, event_name, find_web_url, get_drag_url, is_web_url, on_window_event,
    portal_layout, read_url_from_pasteboard, toggle_portal, Pasteboard, PortalAction, PortalEvent,
    PortalState, ToggleAction, PORTAL_LABEL,
};

fn board(url: Option<&str>, text: Option<&str>) -> Option<Pasteboard> {
    Some(Pasteboard { url: url.map(str::to_string), text: text.map(str::to_string) })
}

#[test]
fn web_urls() {
    assert!(is_web_url("http://a"));
    assert!(is_web_url("https://a"));
    assert!(is_web_url("http://"));
    assert!(!is_web_url("HTTP://a"));
    assert!(!is_web_url("ftp://a"));
    assert!(!is_web_url(" http://a"));
    assert!(!is_web_url("http:/a"));
    assert!(!is_web_url(""));
}

#[test]
fn pasteboard_url_comes_first() {
    assert_eq!(
        read_url_from_pasteboard(&board(Some("https://a"), Some("https://b"))),
        Some("https://a".to_string())
    );
    assert_eq!(
        read_url_from_pasteboard(&board(Some("file:///x"), Some("http://b"))),
        Some("http://b".to_string())
    );
    assert_eq!(read_url_from_pasteboard(&board(None, Some("http://b"))), Some("http://b".to_string()));
    assert_eq!(read_url_from_pasteboard(&board(Some("x"), Some("y"))), None);
    assert_eq!(read_url_from_pasteboard(&board(None, None)), None);
    assert_eq!(read_url_from_pasteboard(&None), None);
}

#[test]
fn no_pasteboard_no_url() {
    assert_eq!(get_drag_url(&None, &None), None);
}

#[test]
fn general_pasteboard_stands_in_for_a_missing_drag_pasteboard() {
    let general = board(Some("https://g"), None);
    assert_eq!(get_drag_url(&None, &general), Some("https://g".to_string()));
    let drag = board(None, Some("plain"));
    assert_eq!(get_drag_url(&drag, &general), None);
    let drag = board(None, Some("http://d"));
    assert_eq!(get_drag_url(&drag, &general), Some("http://d".to_string()));
}

#[test]
fn first_web_url_among_paths() {
    let paths = vec!["/tmp/a".to_string(), "https://b".to_string(), "http://c".to_string()];
    assert_eq!(find_web_url(&paths), Some("https://b".to_string()));
    assert_eq!(find_web_url(&vec!["/tmp/a".to_string()]), None);
    assert_eq!(find_web_url(&vec![]), None);
}

#[test]
fn other_windows_are_left_alone() {
    assert_eq!(on_window_event("main", PortalEvent::CloseRequested), PortalAction::Ignore);
    assert_eq!(on_window_event("portal2", PortalEvent::Leave), PortalAction::Ignore);
    assert_eq!(on_window_event("", PortalEvent::Leave), PortalAction::Ignore);
    assert_eq!(on_window_event("porta", PortalEvent::Leave), PortalAction::Ignore);
}

#[test]
fn portal_close_is_turned_into_hide() {
    assert_eq!(PORTAL_LABEL, "portal");
    assert_eq!(on_window_event("portal", PortalEvent::CloseRequested), PortalAction::HideInsteadOfClose);
    assert_eq!(on_window_event("portal", PortalEvent::Other), PortalAction::Ignore);
}

#[test]
fn drop_of_a_url_path() {
    let paths = vec!["/tmp/a".to_string(), "https://b".to_string()];
    let event = PortalEvent::Drop { paths, drag: board(Some("https://ignored"), None), general: None };
    assert_eq!(on_window_event("portal", event), PortalAction::EmitDropUrl("https://b".to_string()));
}

#[test]
fn drop_of_files() {
    let paths = vec!["/tmp/a".to_string(), "/tmp/b".to_string()];
    let event = PortalEvent::Drop { paths: paths.clone(), drag: board(Some("https://ignored"), None), general: None };
    assert_eq!(on_window_event("portal", event), PortalAction::EmitDrop(paths));
}

#[test]
fn drop_without_paths_reads_the_pasteboard() {
    let event = PortalEvent::Drop { paths: vec![], drag: board(None, Some("http://d")), general: None };
    assert_eq!(on_window_event("portal", event), PortalAction::EmitDropUrl("http://d".to_string()));
    let event = PortalEvent::Drop { paths: vec![], drag: None, general: None };
    assert_eq!(on_window_event("portal", event), PortalAction::EmitDrop(vec![]));
}

#[test]
fn drag_enter_and_leave() {
    let paths = vec!["/tmp/a".to_string()];
    assert_eq!(
        on_window_event("portal", PortalEvent::Enter { paths: paths.clone() }),
        PortalAction::EmitDragEnter(paths)
    );
    assert_eq!(on_window_event("portal", PortalEvent::Leave), PortalAction::EmitDragLeave);
}

#[test]
fn names_of_the_emitted_events() {
    assert_eq!(event_name(&PortalAction::EmitDropUrl("u".to_string())), Some("tauri-drop-url"));
    assert_eq!(event_name(&PortalAction::EmitDrop(vec![])), Some("tauri-drop"));
    assert_eq!(event_name(&PortalAction::EmitDragEnter(vec![])), Some("tauri-drag-enter"));
    assert_eq!(event_name(&PortalAction::EmitDragLeave), Some("tauri-drag-leave"));
    assert_eq!(event_name(&PortalAction::HideInsteadOfClose), None);
    assert_eq!(event_name(&PortalAction::Ignore), None);
}

#[test]
fn toggling() {
    assert_eq!(toggle_portal(PortalState::Visible), ToggleAction::Hide);
    assert_eq!(toggle_portal(PortalState::Hidden), ToggleAction::ShowAndFocus);
    assert_eq!(toggle_portal(PortalState::Missing), ToggleAction::Recreate);
}

#[test]
fn layout_near_the_main_window() {
    let layout = portal_layout(Some((100, -20)));
    assert_eq!((layout.width, layout.height), (500, 600));
    assert_eq!((layout.min_width, layout.min_height), (300, 350));
    assert_eq!(layout.position, Some((150, 30)));
    assert_eq!(portal_layout(None).position, None);
    assert_eq!(
        portal_layout(Some((i32::MAX, i32::MIN))).position,
        Some((i32::MAX as i64 + 50, i32::MIN as i64 + 50))
    );
}

#[test]
fn outcome_of_a_portal_drop() {
    assert_eq!(add_url_outcome(true, Ok(())), Ok(()));
    assert_eq!(add_url_outcome(true, Err("closed".to_string())), Err("closed".to_string()));
    assert_eq!(add_url_outcome(false, Ok(())), Err("Main window not found".to_string()));
    assert_eq!(add_url_outcome(false, Err("x".to_string())), Err("Main window not found".to_string()));
}

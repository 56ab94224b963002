use rustine::weburl::UrlError;
use rustine::webview::{
    check_icon, enqueue, open_url, start_manager, IconPixels, LoopEvent, Surface, SurfaceAction,
    SurfaceManager, UserEvent,
};

fn png_2x1() -> Vec<u8> {
    vec![
        137, 80, 78, 71, 13, 10, 26, 10, 0, 0, 0, 13, 73, 72, 68, 82, 0, 0, 0, 2, 0, 0, 0, 1, 8,
        6, 0, 0, 0, 244, 34, 127, 138, 0, 0, 0, 14, 73, 68, 65, 84, 120, 156, 99, 248, 207, 192,
        0, 66, 13, 0, 15, 122, 3, 126, 119, 233, 127, 151, 0, 0, 0, 0, 73, 69, 78, 68, 174, 66,
        96, 130,
    ]
}

fn loads(actions: &[SurfaceAction]) -> Vec<String> {
    actions
        .iter()
        .map(|a| match a {
            SurfaceAction::Load(u) => u.clone(),
            other => panic!("not a load: {:?}", other),
        })
        .collect()
}

#[test]
fn opening_a_bare_host_queues_the_http_address() {
    let mut mgr = SurfaceManager::new();
    assert!(!mgr.is_started());
    assert_eq!(open_url(&mut mgr, "example.com".to_string()), Ok(()));
    assert!(mgr.is_started());
    assert_eq!(loads(&mgr.dispatch()), vec!["http://example.com".to_string()]);
    assert!(mgr.dispatch().is_empty());
}

#[test]
fn opening_an_empty_target_fails_and_starts_nothing() {
    let mut mgr = SurfaceManager::new();
    assert_eq!(open_url(&mut mgr, "".to_string()), Err(UrlError::Invalid));
    assert!(!mgr.is_started());
    assert!(mgr.dispatch().is_empty());
}

#[test]
fn opening_a_malformed_target_fails() {
    let mut mgr = SurfaceManager::new();
    assert_eq!(open_url(&mut mgr, "ht!tp://bad".to_string()), Err(UrlError::Invalid));
    assert!(!mgr.is_started());
    open_url(&mut mgr, "example.com".to_string()).unwrap();
    assert_eq!(open_url(&mut mgr, "ht!tp://bad".to_string()), Err(UrlError::Invalid));
    assert_eq!(loads(&mgr.dispatch()), vec!["http://example.com".to_string()]);
    assert!(mgr.dispatch().is_empty());
}

#[test]
fn two_opens_are_loaded_in_the_order_of_the_calls() {
    let mut mgr = SurfaceManager::new();
    open_url(&mut mgr, "https://first.example/".to_string()).unwrap();
    open_url(&mut mgr, "second.example".to_string()).unwrap();
    assert_eq!(loads(&mgr.dispatch()), vec!["https://first.example/".to_string()]);
    assert_eq!(loads(&mgr.dispatch()), vec!["http://second.example".to_string()]);
    assert!(mgr.dispatch().is_empty());
}

#[test]
fn starting_the_manager_twice_keeps_what_waits() {
    let mut mgr = SurfaceManager::new();
    start_manager(&mut mgr);
    assert!(mgr.is_started());
    open_url(&mut mgr, "example.com".to_string()).unwrap();
    start_manager(&mut mgr);
    assert_eq!(loads(&mgr.dispatch()), vec!["http://example.com".to_string()]);
}

#[test]
fn a_load_that_succeeded_shows_the_window_and_starts_a_run() {
    let mut surface = Surface::new();
    assert!(!surface.is_visible());
    let actions = surface.handle(LoopEvent::Loaded { url: "http://example.com".to_string(), ok: true });
    assert_eq!(actions.len(), 3);
    assert!(matches!(actions[0], SurfaceAction::SetVisible(true)));
    assert!(matches!(actions[1], SurfaceAction::Focus));
    assert!(matches!(&actions[2], SurfaceAction::Enrich(u) if u == "http://example.com"));
    assert!(surface.is_visible());
}

#[test]
fn a_load_that_failed_changes_nothing() {
    let mut surface = Surface::new();
    let actions = surface.handle(LoopEvent::Loaded { url: "http://example.com".to_string(), ok: false });
    assert!(actions.is_empty());
    assert!(!surface.is_visible());
}

#[test]
fn closing_hides_the_window_and_keeps_the_actor() {
    let mut mgr = SurfaceManager::new();
    open_url(&mut mgr, "example.com".to_string()).unwrap();
    mgr.dispatch();
    mgr.notify(LoopEvent::Loaded { url: "http://example.com".to_string(), ok: true });
    let actions = mgr.notify(LoopEvent::CloseRequested);
    assert_eq!(actions.len(), 1);
    assert!(matches!(actions[0], SurfaceAction::SetVisible(false)));
    assert!(mgr.is_started());
    open_url(&mut mgr, "again.example".to_string()).unwrap();
    assert_eq!(loads(&mgr.dispatch()), vec!["http://again.example".to_string()]);
    let shown = mgr.notify(LoopEvent::Loaded { url: "http://again.example".to_string(), ok: true });
    assert!(matches!(shown[0], SurfaceAction::SetVisible(true)));
}

#[test]
fn events_before_the_actor_runs_are_dropped() {
    let mut mgr = SurfaceManager::new();
    assert!(mgr.notify(LoopEvent::CloseRequested).is_empty());
    assert!(!mgr.is_started());
}

#[test]
fn other_events_do_nothing() {
    let mut surface = Surface::new();
    assert!(surface.handle(LoopEvent::Other).is_empty());
    assert!(!surface.is_visible());
}

#[test]
fn a_navigate_command_has_the_address_loaded() {
    let mut surface = Surface::new();
    let actions = surface.handle(LoopEvent::User(UserEvent::Navigate("about:blank".to_string())));
    assert_eq!(loads(&actions), vec!["about:blank".to_string()]);
    assert!(!surface.is_visible());
}

#[test]
fn an_icon_that_decodes_is_applied() {
    let mut surface = Surface::new();
    let actions = surface.handle(LoopEvent::User(UserEvent::Favicon(png_2x1())));
    assert_eq!(actions.len(), 1);
    match &actions[0] {
        SurfaceAction::SetIcon(p) => {
            assert_eq!(p.width, 2);
            assert_eq!(p.height, 1);
            assert_eq!(p.rgba, vec![255, 0, 0, 255, 0, 0, 255, 128]);
        }
        other => panic!("not an icon: {:?}", other),
    }
}

#[test]
fn an_icon_that_does_not_decode_is_dropped() {
    let mut surface = Surface::new();
    assert!(surface.handle(LoopEvent::User(UserEvent::Favicon(vec![1, 2, 3]))).is_empty());
    assert!(surface.handle(LoopEvent::User(UserEvent::Favicon(vec![]))).is_empty());
    let mut cut = png_2x1();
    cut.truncate(40);
    assert!(surface.handle(LoopEvent::User(UserEvent::Favicon(cut))).is_empty());
}

#[test]
fn only_pixels_that_fill_the_size_make_an_icon() {
    let ok = IconPixels { width: 2, height: 1, rgba: vec![0; 8] };
    assert!(check_icon(Some(ok)).is_some());
    let short = IconPixels { width: 2, height: 1, rgba: vec![0; 7] };
    assert!(check_icon(Some(short)).is_none());
    let long = IconPixels { width: 2, height: 1, rgba: vec![0; 12] };
    assert!(check_icon(Some(long)).is_none());
    let empty = IconPixels { width: 0, height: 5, rgba: vec![] };
    assert!(check_icon(Some(empty)).is_some());
    let huge = IconPixels { width: u32::MAX, height: u32::MAX, rgba: vec![0; 4] };
    assert!(check_icon(Some(huge)).is_none());
    assert!(check_icon(None).is_none());
    let mut surface = Surface::new();
    let bad = IconPixels { width: 1, height: 1, rgba: vec![0; 5] };
    assert!(surface
        .handle_decoded(LoopEvent::User(UserEvent::Favicon(vec![])), Some(bad))
        .is_empty());
}

#[test]
fn commands_of_both_kinds_are_worked_off_in_the_order_they_were_queued() {
    let mut mgr = SurfaceManager::new();
    enqueue(&mut mgr, UserEvent::Favicon(png_2x1()));
    assert!(mgr.is_started());
    enqueue(&mut mgr, UserEvent::Navigate("about:blank".to_string()));
    enqueue(&mut mgr, UserEvent::Favicon(vec![0, 1]));
    assert!(matches!(&mgr.dispatch()[0], SurfaceAction::SetIcon(p) if p.width == 2 && p.height == 1));
    assert_eq!(loads(&mgr.dispatch()), vec!["about:blank".to_string()]);
    assert!(mgr.dispatch().is_empty());
    assert!(mgr.dispatch().is_empty());
}

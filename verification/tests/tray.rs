use rustine::db::{init_db, UrlRecord};
use rustine::tray::{
    build_menu, event_for, get_receiver, label_for, menu_click, send_event, start_real_tray,
    start_tray, EventRegistry, TrayError, TrayEvent,
};

fn record(id: i64, label: &str, url: &str, site_name: Option<&str>) -> UrlRecord {
    UrlRecord {
        id,
        label: label.to_string(),
        url: url.to_string(),
        _timestamp: 0,
        site_name: site_name.map(|s| s.to_string()),
        icon_mime: None,
        icon_data: None,
    }
}

#[test]
fn sending_before_the_tray_starts_fails() {
    let mut reg = EventRegistry::new();
    assert_eq!(send_event(&mut reg, TrayEvent::Show), Err(TrayError::NotStarted));
    assert!(get_receiver(&reg).is_none());
    assert_eq!(TrayError::NotStarted.message(), "tray not started");
}

#[test]
fn events_are_received_in_the_order_they_were_sent() {
    let mut reg = EventRegistry::new();
    reg.start();
    let rx = get_receiver(&reg).unwrap();
    assert_eq!(rx.try_recv(&mut reg), None);
    assert_eq!(send_event(&mut reg, TrayEvent::Add), Ok(()));
    assert_eq!(send_event(&mut reg, TrayEvent::OpenUrl(7)), Ok(()));
    assert_eq!(send_event(&mut reg, TrayEvent::Quit), Ok(()));
    assert_eq!(rx.try_recv(&mut reg), Some(TrayEvent::Add));
    assert_eq!(rx.try_recv(&mut reg), Some(TrayEvent::OpenUrl(7)));
    assert_eq!(send_event(&mut reg, TrayEvent::Show), Ok(()));
    assert_eq!(rx.try_recv(&mut reg), Some(TrayEvent::Quit));
    assert_eq!(rx.try_recv(&mut reg), Some(TrayEvent::Show));
    assert_eq!(rx.try_recv(&mut reg), None);
}

#[test]
fn an_event_goes_to_one_receiver_only() {
    let mut reg = EventRegistry::new();
    reg.start();
    let first = get_receiver(&reg).unwrap();
    let second = get_receiver(&reg).unwrap();
    send_event(&mut reg, TrayEvent::Show).unwrap();
    assert_eq!(first.try_recv(&mut reg), Some(TrayEvent::Show));
    assert_eq!(second.try_recv(&mut reg), None);
}

#[test]
fn starting_twice_keeps_the_first_queue() {
    let mut reg = EventRegistry::new();
    reg.start();
    send_event(&mut reg, TrayEvent::Quit).unwrap();
    reg.start();
    let rx = get_receiver(&reg).unwrap();
    assert_eq!(rx.try_recv(&mut reg), Some(TrayEvent::Quit));
}

#[test]
fn a_receiver_of_an_unstarted_registry_gets_nothing() {
    let mut started = EventRegistry::new();
    started.start();
    let rx = get_receiver(&started).unwrap();
    let mut other = EventRegistry::new();
    assert_eq!(rx.try_recv(&mut other), None);
}

#[test]
fn a_history_entry_shows_site_name_or_label_and_the_url() {
    assert_eq!(
        label_for(&record(1, "my label", "https://example.com/", Some("Example"))),
        "Example (https://example.com/)"
    );
    assert_eq!(label_for(&record(1, "my label", "https://example.com/", None)), "my label (https://example.com/)");
    assert_eq!(label_for(&record(1, "", "", None)), " ()");
}

#[test]
fn the_menu_numbers_its_entries() {
    let records = vec![record(10, "a", "ua", None), record(20, "b", "ub", Some("B"))];
    let menu = build_menu(&records);
    assert_eq!(menu.show_id, 1);
    assert_eq!(menu.add_id, 2);
    assert_eq!(menu.quit_id, 6);
    assert_eq!(menu.history.len(), 2);
    assert_eq!(menu.history[0].id, 4);
    assert_eq!(menu.history[0].url_id, 10);
    assert_eq!(menu.history[0].label, "a (ua)");
    assert_eq!(menu.history[1].id, 5);
    assert_eq!(menu.history[1].url_id, 20);
    assert_eq!(menu.history[1].label, "B (ub)");
    let empty = build_menu(&Vec::new());
    assert_eq!(empty.quit_id, 4);
    assert!(empty.history.is_empty());
}

#[test]
fn a_click_raises_the_event_of_its_entry() {
    let records = vec![record(10, "a", "ua", None), record(20, "b", "ub", None)];
    let menu = build_menu(&records);
    assert_eq!(event_for(&menu, 1), Some(TrayEvent::Show));
    assert_eq!(event_for(&menu, 2), Some(TrayEvent::Add));
    assert_eq!(event_for(&menu, 3), None);
    assert_eq!(event_for(&menu, 4), Some(TrayEvent::OpenUrl(10)));
    assert_eq!(event_for(&menu, 5), Some(TrayEvent::OpenUrl(20)));
    assert_eq!(event_for(&menu, 6), Some(TrayEvent::Quit));
    assert_eq!(event_for(&menu, 7), None);
    assert_eq!(event_for(&menu, 0), None);
}

#[test]
fn a_history_entry_goes_before_a_fixed_entry_of_the_same_identity() {
    let mut menu = build_menu(&vec![record(10, "a", "ua", None)]);
    menu.history[0].id = 1;
    assert_eq!(event_for(&menu, 1), Some(TrayEvent::OpenUrl(10)));
}

#[test]
fn a_click_is_forwarded_to_the_registry() {
    let mut reg = EventRegistry::new();
    let menu = build_menu(&vec![record(10, "a", "ua", None)]);
    assert_eq!(menu_click(&mut reg, &menu, 4), Some(TrayEvent::OpenUrl(10)));
    assert!(get_receiver(&reg).is_none());
    reg.start();
    let rx = get_receiver(&reg).unwrap();
    assert_eq!(menu_click(&mut reg, &menu, 4), Some(TrayEvent::OpenUrl(10)));
    assert_eq!(menu_click(&mut reg, &menu, 99), None);
    assert_eq!(menu_click(&mut reg, &menu, 5), Some(TrayEvent::Quit));
    assert_eq!(rx.try_recv(&mut reg), Some(TrayEvent::OpenUrl(10)));
    assert_eq!(rx.try_recv(&mut reg), Some(TrayEvent::Quit));
    assert_eq!(rx.try_recv(&mut reg), None);
}

#[test]
fn the_tray_shows_the_five_most_recent_addresses() {
    let mut db = init_db(Vec::new(), Vec::new(), Vec::new()).unwrap();
    for i in 1..=7 {
        db.insert_url(&format!("l{}", i), &format!("http://h{}.example/", i), i).unwrap();
    }
    let mut reg = EventRegistry::new();
    let menu = start_tray(&mut reg, &mut db).unwrap();
    assert!(get_receiver(&reg).is_some());
    let targets: Vec<i64> = menu.history.iter().map(|h| h.url_id).collect();
    assert_eq!(targets, vec![7, 6, 5, 4, 3]);
    assert_eq!(menu.history[0].label, "l7 (http://h7.example/)");
    assert_eq!(menu.quit_id, 9);
}

#[test]
fn the_tray_over_a_closed_store_has_no_history() {
    let mut db = init_db(Vec::new(), Vec::new(), Vec::new()).unwrap();
    db.insert_url("a", "http://a.example/", 1).unwrap();
    db.close();
    let mut reg = EventRegistry::new();
    let menu = start_tray(&mut reg, &mut db).unwrap();
    assert!(menu.history.is_empty());
    assert_eq!(menu.quit_id, 4);
}

#[test]
fn the_menu_is_not_built_before_the_registry_is_started() {
    let mut db = init_db(Vec::new(), Vec::new(), Vec::new()).unwrap();
    let reg = EventRegistry::new();
    assert_eq!(start_real_tray(&reg, &mut db).unwrap_err(), TrayError::NotStarted);
}

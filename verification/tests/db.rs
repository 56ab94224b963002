use rustine::db::{
    db_thread, get_global, init_db, set_global, DbReply, DbRequest, GlobalDb, Icon, SiteMeta,
    Store, StoreError, UrlEntry,
};

fn filled(times: &[i64]) -> Store {
    let mut store = Store::new();
    for (i, t) in times.iter().enumerate() {
        let label = format!("l{}", i);
        let url = format!("http://h{}.example/", i);
        store.insert_url(&label, &url, *t).unwrap();
    }
    store
}

#[test]
fn test_site_meta_upsert_and_icon_insert() {
    let mut store = Store::new();

    store
        .upsert_site_meta("example.com", Some("Example Site"), None, None, None)
        .unwrap();

    let site = store.get_site_meta_by_origin("example.com").unwrap();
    assert_eq!(site.site_name.unwrap(), "Example Site");

    store
        .insert_icon(
            1i64,
            "https://example.com/icon.png",
            None,
            None,
            Some("image/png"),
            vec![1u8, 2u8, 3u8],
            None,
        )
        .unwrap();

    let icons = store.icons_of(1i64);
    assert_eq!(icons.len(), 1);
    assert_eq!(icons[0].mime.clone().unwrap(), "image/png");
    assert_eq!(icons[0].src_url, "https://example.com/icon.png");
    assert_eq!(icons[0].data, vec![1u8, 2u8, 3u8]);
}

#[test]
fn inserted_urls_are_listed_newest_first() {
    let mut store = Store::new();
    store.insert_url("a", "http://a.example/", 10).unwrap();
    store.insert_url("b", "http://b.example/", 30).unwrap();
    store.insert_url("c", "http://c.example/", 20).unwrap();
    let listed = store.list_recent(2);
    assert_eq!(listed.len(), 2);
    assert_eq!(listed[0].label, "b");
    assert_eq!(listed[0]._timestamp, 30);
    assert_eq!(listed[1].label, "c");
    assert_eq!(listed[1]._timestamp, 20);
}

#[test]
fn listing_length_is_the_smaller_of_limit_and_total() {
    let store = filled(&[5, 1, 9, 3]);
    assert_eq!(store.list_recent(0).len(), 0);
    assert_eq!(store.list_recent(1).len(), 1);
    assert_eq!(store.list_recent(3).len(), 3);
    assert_eq!(store.list_recent(4).len(), 4);
    assert_eq!(store.list_recent(5).len(), 4);
    assert_eq!(store.list_recent(i64::MAX).len(), 4);
    let all = store.list_recent(10);
    let times: Vec<i64> = all.iter().map(|r| r._timestamp).collect();
    assert_eq!(times, vec![9, 5, 3, 1]);
}

#[test]
fn listing_with_a_negative_limit_is_empty() {
    let store = filled(&[5, 1, 9]);
    assert_eq!(store.list_recent(-1).len(), 0);
    assert_eq!(store.list_recent(i64::MIN).len(), 0);
}

#[test]
fn listing_of_an_empty_store_is_empty() {
    let store = Store::new();
    assert!(store.list_recent(5).is_empty());
}

#[test]
fn entries_of_one_time_are_listed_in_the_order_of_saving() {
    let store = filled(&[7, 7, 8, 7]);
    let ids: Vec<i64> = store.list_recent(10).iter().map(|r| r.id).collect();
    assert_eq!(ids, vec![3, 1, 2, 4]);
}

#[test]
fn duplicates_are_saved_as_rows_of_their_own() {
    let mut store = Store::new();
    store.insert_url("same", "http://same.example/", 1).unwrap();
    store.insert_url("same", "http://same.example/", 1).unwrap();
    let listed = store.list_recent(10);
    assert_eq!(listed.len(), 2);
    assert_eq!(listed[0].id, 1);
    assert_eq!(listed[1].id, 2);
}

#[test]
fn identities_count_up_from_one() {
    let store = filled(&[1, 2, 3]);
    assert_eq!(store.get_by_id(1).unwrap().label, "l0");
    assert_eq!(store.get_by_id(2).unwrap().label, "l1");
    assert_eq!(store.get_by_id(3).unwrap().label, "l2");
    assert!(store.get_by_id(0).is_none());
    assert!(store.get_by_id(4).is_none());
}

#[test]
fn deleted_entry_is_absent() {
    let mut store = filled(&[1, 2, 3]);
    store.delete(2);
    assert!(store.get_by_id(2).is_none());
    assert_eq!(store.list_recent(10).len(), 2);
    assert_eq!(store.get_by_id(1).unwrap().label, "l0");
    assert_eq!(store.get_by_id(3).unwrap().label, "l2");
}

#[test]
fn deleting_an_unknown_identity_changes_nothing() {
    let mut store = filled(&[1, 2]);
    store.delete(42);
    assert!(store.get_by_id(42).is_none());
    assert_eq!(store.list_recent(10).len(), 2);
    store.delete(42);
    assert_eq!(store.list_recent(10).len(), 2);
}

#[test]
fn second_upsert_of_an_origin_wins() {
    let mut store = Store::new();
    store
        .upsert_site_meta(
            "https://example.com:443",
            Some("First"),
            Some("about"),
            Some("https://example.com/m.json"),
            Some(10),
        )
        .unwrap();
    store
        .upsert_site_meta("https://other.example:443", Some("Other"), None, None, None)
        .unwrap();
    store
        .upsert_site_meta("https://example.com:443", Some("Second"), None, None, Some(20))
        .unwrap();
    let site = store.get_site_meta_by_origin("https://example.com:443").unwrap();
    assert_eq!(site.id, 1);
    assert_eq!(site.origin, "https://example.com:443");
    assert_eq!(site.site_name.as_deref(), Some("Second"));
    assert_eq!(site.description, None);
    assert_eq!(site.manifest_url, None);
    assert_eq!(site.metadata_fetched_at, Some(20));
    let other = store.get_site_meta_by_origin("https://other.example:443").unwrap();
    assert_eq!(other.id, 2);
    assert_eq!(other.site_name.as_deref(), Some("Other"));
    store
        .upsert_site_meta("https://third.example:443", None, None, None, None)
        .unwrap();
    assert_eq!(store.get_site_meta_by_origin("https://third.example:443").unwrap().id, 3);
}

#[test]
fn unknown_origin_has_no_metadata() {
    let store = Store::new();
    assert!(store.get_site_meta_by_origin("https://example.com:443").is_none());
}

#[test]
fn every_inserted_icon_is_kept_and_the_newest_is_shown() {
    let mut store = Store::new();
    store
        .upsert_site_meta("https://example.com:443", Some("Example"), None, None, None)
        .unwrap();
    store.insert_url("ex", "https://example.com/page", 1).unwrap();
    let times = [Some(5), Some(9), None, Some(7)];
    for (i, t) in times.iter().enumerate() {
        store
            .insert_icon(
                1,
                &format!("https://example.com/{}.png", i),
                None,
                None,
                Some(&format!("image/x{}", i)),
                vec![i as u8],
                *t,
            )
            .unwrap();
    }
    let icons = store.icons_of(1);
    assert_eq!(icons.len(), 4);
    let ids: Vec<i64> = icons.iter().map(|i| i.id).collect();
    assert_eq!(ids, vec![1, 2, 3, 4]);
    let record = store.get_by_id(1).unwrap();
    assert_eq!(record.site_name.as_deref(), Some("Example"));
    assert_eq!(record.icon_mime.as_deref(), Some("image/x1"));
    assert_eq!(record.icon_data, Some(vec![1u8]));
    let listed = store.list_recent(1);
    assert_eq!(listed[0].icon_data, Some(vec![1u8]));
}

#[test]
fn of_icons_fetched_at_one_time_the_last_inserted_is_shown() {
    let mut store = Store::new();
    store.upsert_site_meta("http://a.example:80", None, None, None, None).unwrap();
    store.insert_url("a", "http://a.example/", 1).unwrap();
    store.insert_icon(1, "u1", None, None, None, vec![1], Some(3)).unwrap();
    store.insert_icon(1, "u2", None, None, None, vec![2], Some(3)).unwrap();
    let record = store.get_by_id(1).unwrap();
    assert_eq!(record.icon_data, Some(vec![2u8]));
    assert_eq!(record.icon_mime, None);
    assert_eq!(record.site_name, None);
}

#[test]
fn an_icon_without_fetch_time_is_never_shown() {
    let mut store = Store::new();
    store.upsert_site_meta("http://a.example:80", Some("A"), None, None, None).unwrap();
    store.insert_url("a", "http://a.example/", 1).unwrap();
    store.insert_icon(1, "u1", None, None, Some("image/png"), vec![1], None).unwrap();
    let record = store.get_by_id(1).unwrap();
    assert_eq!(record.site_name.as_deref(), Some("A"));
    assert_eq!(record.icon_data, None);
    assert_eq!(record.icon_mime, None);
    assert_eq!(store.icons_of(1).len(), 1);
}

#[test]
fn icons_of_other_sites_are_not_shown() {
    let mut store = Store::new();
    store.upsert_site_meta("http://a.example:80", Some("A"), None, None, None).unwrap();
    store.upsert_site_meta("http://b.example:80", Some("B"), None, None, None).unwrap();
    store.insert_url("a", "http://a.example/x", 1).unwrap();
    store.insert_url("b", "http://b.example/y", 2).unwrap();
    store.insert_icon(2, "ub", None, None, None, vec![9], Some(100)).unwrap();
    store.insert_icon(1, "ua", None, None, None, vec![1], Some(1)).unwrap();
    assert_eq!(store.get_by_id(1).unwrap().icon_data, Some(vec![1u8]));
    assert_eq!(store.get_by_id(2).unwrap().icon_data, Some(vec![9u8]));
    assert_eq!(store.icons_of(1).len(), 1);
    assert_eq!(store.icons_of(2).len(), 1);
    assert_eq!(store.icons_of(3).len(), 0);
}

#[test]
fn an_entry_without_known_site_comes_back_bare() {
    let mut store = Store::new();
    store.upsert_site_meta("https://example.com:443", Some("Example"), None, None, None).unwrap();
    store.insert_url("other", "https://elsewhere.example/", 1).unwrap();
    store.insert_url("no url", "not a url at all", 2).unwrap();
    store.insert_url("other port", "https://example.com:8443/", 3).unwrap();
    for id in 1..=3 {
        let r = store.get_by_id(id).unwrap();
        assert_eq!(r.site_name, None);
        assert_eq!(r.icon_mime, None);
        assert_eq!(r.icon_data, None);
    }
}

#[test]
fn the_site_of_an_entry_is_found_by_the_origin_of_its_url() {
    let mut store = Store::new();
    store.upsert_site_meta("https://example.com:443", Some("Example"), None, None, None).unwrap();
    store.insert_url("deep", "https://example.com/a/b?c=d#e", 1).unwrap();
    store.insert_url("upper", "HTTPS://EXAMPLE.COM/", 2).unwrap();
    assert_eq!(store.get_by_id(1).unwrap().site_name.as_deref(), Some("Example"));
    assert_eq!(store.get_by_id(2).unwrap().site_name.as_deref(), Some("Example"));
    assert_eq!(store.get_by_id(1).unwrap().url, "https://example.com/a/b?c=d#e");
}

#[test]
fn an_icon_of_an_unknown_site_is_refused() {
    let mut store = Store::new();
    let res = store.insert_icon(1, "u", None, None, None, vec![1], None);
    assert_eq!(res, Err(StoreError::Constraint));
    assert_eq!(store.icons_of(1).len(), 0);
    store.upsert_site_meta("o", None, None, None, None).unwrap();
    assert_eq!(store.insert_icon(2, "u", None, None, None, vec![1], None), Err(StoreError::Constraint));
    assert_eq!(store.insert_icon(1, "u", None, None, None, vec![1], None), Ok(()));
}

#[test]
fn a_closed_handle_fails_every_request() {
    let mut db = init_db(Vec::new(), Vec::new(), Vec::new()).unwrap();
    assert!(db.is_open());
    db.insert_url("a", "http://a.example/", 1).unwrap();
    db.close();
    assert!(!db.is_open());
    assert_eq!(db.insert_url("b", "http://b.example/", 2), Err(StoreError::HandleClosed));
    assert_eq!(db.list_recent(5).unwrap_err(), StoreError::HandleClosed);
    assert_eq!(db.delete(1), Err(StoreError::HandleClosed));
    assert_eq!(db.get_by_id(1).unwrap_err(), StoreError::HandleClosed);
    assert_eq!(db.upsert_site_meta("o", None, None, None, None), Err(StoreError::HandleClosed));
    assert_eq!(db.get_site_meta_by_origin("o").unwrap_err(), StoreError::HandleClosed);
    assert_eq!(
        db.insert_icon(1, "u", None, None, None, vec![], None),
        Err(StoreError::HandleClosed)
    );
    assert!(matches!(db.call(DbRequest::Delete { id: 1 }), Err(StoreError::HandleClosed)));
}

#[test]
fn a_handle_serves_the_store_operations() {
    let mut db = init_db(Vec::new(), Vec::new(), Vec::new()).unwrap();
    assert!(db.list_recent(5).unwrap().is_empty());
    db.insert_url("a", "https://example.com/", 10).unwrap();
    db.insert_url("b", "https://example.com/b", 20).unwrap();
    db.upsert_site_meta("https://example.com:443", Some("Example"), None, None, Some(1)).unwrap();
    let site = db.get_site_meta_by_origin("https://example.com:443").unwrap().unwrap();
    db.insert_icon(site.id, "https://example.com/favicon.ico", Some(16), Some(16), Some("image/x-icon"), vec![7, 7], Some(1))
        .unwrap();
    let listed = db.list_recent(5).unwrap();
    assert_eq!(listed.len(), 2);
    assert_eq!(listed[0].label, "b");
    assert_eq!(listed[0].site_name.as_deref(), Some("Example"));
    assert_eq!(listed[0].icon_mime.as_deref(), Some("image/x-icon"));
    assert_eq!(listed[0].icon_data, Some(vec![7u8, 7u8]));
    db.delete(2).unwrap();
    assert!(db.get_by_id(2).unwrap().is_none());
    assert_eq!(db.get_by_id(1).unwrap().unwrap().label, "a");
    assert_eq!(db.insert_icon(99, "u", None, None, None, vec![], None), Err(StoreError::Constraint));
}

#[test]
fn the_global_handle_is_set_once() {
    let mut slot = GlobalDb::new();
    assert!(get_global(&mut slot).is_none());
    let mut first = init_db(Vec::new(), Vec::new(), Vec::new()).unwrap();
    first.insert_url("first", "http://first.example/", 1).unwrap();
    assert_eq!(set_global(&mut slot, first), Ok(()));
    let second = init_db(Vec::new(), Vec::new(), Vec::new()).unwrap();
    assert_eq!(set_global(&mut slot, second), Err(StoreError::AlreadyInitialized));
    let db = get_global(&mut slot).unwrap();
    let listed = db.list_recent(5).unwrap();
    assert_eq!(listed.len(), 1);
    assert_eq!(listed[0].label, "first");
    db.insert_url("more", "http://more.example/", 2).unwrap();
    assert_eq!(get_global(&mut slot).unwrap().list_recent(5).unwrap().len(), 2);
}

#[test]
fn requests_are_served_in_the_order_of_arrival() {
    let mut store = Store::new();
    let inbox = vec![
        DbRequest::Insert { label: "a".to_string(), url: "http://a.example/".to_string(), _timestamp: 1 },
        DbRequest::GetById { id: 1 },
        DbRequest::Delete { id: 1 },
        DbRequest::GetById { id: 1 },
        DbRequest::InsertIcon {
            site_id: 5,
            src_url: "u".to_string(),
            width: None,
            height: None,
            mime: None,
            data: vec![],
            fetched_at: None,
        },
        DbRequest::UpsertSiteMeta {
            origin: "o".to_string(),
            site_name: Some("n".to_string()),
            description: None,
            manifest_url: None,
            metadata_fetched_at: None,
        },
        DbRequest::GetSiteMetaByOrigin { origin: "o".to_string() },
        DbRequest::ListRecent { limit: 3 },
    ];
    let replies = db_thread(&mut store, inbox);
    assert_eq!(replies.len(), 8);
    assert!(matches!(replies[0], DbReply::Done));
    assert!(matches!(&replies[1], DbReply::Record(Some(r)) if r.label == "a"));
    assert!(matches!(replies[2], DbReply::Done));
    assert!(matches!(replies[3], DbReply::Record(None)));
    assert!(matches!(replies[4], DbReply::Failed(StoreError::Constraint)));
    assert!(matches!(replies[5], DbReply::Done));
    assert!(matches!(&replies[6], DbReply::Site(Some(s)) if s.site_name.as_deref() == Some("n")));
    assert!(matches!(&replies[7], DbReply::Records(rs) if rs.is_empty()));
}

#[test]
fn a_thousand_interleaved_requests_of_two_callers_all_complete() {
    let mut store = Store::new();
    let mut inbox = Vec::new();
    for i in 0..500i64 {
        inbox.push(DbRequest::Insert {
            label: format!("one {}", i),
            url: "http://one.example/".to_string(),
            _timestamp: i,
        });
        inbox.push(DbRequest::Delete { id: i });
    }
    let replies = db_thread(&mut store, inbox);
    assert_eq!(replies.len(), 1000);
    assert!(replies.iter().all(|r| matches!(r, DbReply::Done)));
    let left = store.list_recent(1000);
    assert_eq!(left.len(), 1);
    assert_eq!(left[0].label, "one 499");
}

#[test]
fn replies_are_read_by_kind() {
    assert_eq!(DbReply::Done.into_unit(), Ok(()));
    assert_eq!(DbReply::Failed(StoreError::Full).into_unit(), Err(StoreError::Full));
    assert_eq!(DbReply::Record(None).into_unit(), Err(StoreError::Protocol));
    assert!(DbReply::Records(vec![]).into_records().unwrap().is_empty());
    assert_eq!(DbReply::Done.into_records().unwrap_err(), StoreError::Protocol);
    assert_eq!(DbReply::Failed(StoreError::Storage).into_records().unwrap_err(), StoreError::Storage);
    assert!(DbReply::Record(None).into_record().unwrap().is_none());
    assert_eq!(DbReply::Done.into_record().unwrap_err(), StoreError::Protocol);
    assert!(DbReply::Site(None).into_site().unwrap().is_none());
    assert_eq!(DbReply::Failed(StoreError::Constraint).into_site().unwrap_err(), StoreError::Constraint);
}

#[test]
fn errors_are_put_in_words() {
    assert_eq!(StoreError::HandleClosed.message(), "the store actor is gone");
    assert_eq!(StoreError::AlreadyInitialized.message(), "global DB handle already set");
    assert_eq!(StoreError::Constraint.message(), "the icon refers to a site that is not stored");
    assert_eq!(StoreError::Full.message(), "the table has no identity left");
    assert_eq!(StoreError::Storage.message(), "the storage layer failed");
    assert_eq!(StoreError::Protocol.message(), "the reply does not answer the request");
}

fn entry(id: i64) -> UrlEntry {
    UrlEntry { id, label: format!("l{}", id), url: "http://x.example/".to_string(), timestamp: id }
}

fn site(id: i64, origin: &str) -> SiteMeta {
    SiteMeta {
        id,
        origin: origin.to_string(),
        site_name: None,
        description: None,
        manifest_url: None,
        metadata_fetched_at: None,
    }
}

fn icon(id: i64, site_id: i64) -> Icon {
    Icon {
        id,
        site_id,
        src_url: "u".to_string(),
        width: None,
        height: None,
        mime: None,
        data: vec![id as u8],
        fetched_at: Some(id),
    }
}

#[test]
fn stored_tables_are_taken_over() {
    let mut store = Store::restore(
        vec![entry(2), entry(5)],
        vec![site(1, "a"), site(4, "b")],
        vec![icon(3, 4), icon(7, 1), icon(8, 4)],
    )
    .unwrap();
    assert_eq!(store.list_recent(10).len(), 2);
    assert_eq!(store.get_by_id(5).unwrap().label, "l5");
    assert_eq!(store.icons_of(4).len(), 2);
    store.insert_url("next", "http://n.example/", 1).unwrap();
    assert_eq!(store.get_by_id(6).unwrap().label, "next");
    store.upsert_site_meta("c", None, None, None, None).unwrap();
    assert_eq!(store.get_site_meta_by_origin("c").unwrap().id, 5);
    store.insert_icon(5, "u", None, None, None, vec![], None).unwrap();
    assert_eq!(store.icons_of(5)[0].id, 9);
    assert!(Store::restore(vec![], vec![], vec![]).is_ok());
}

#[test]
fn stored_tables_that_break_the_invariant_are_refused() {
    let refused = |urls, sites, icons| {
        assert_eq!(Store::restore(urls, sites, icons).unwrap_err(), StoreError::Storage);
    };
    refused(vec![entry(2), entry(2)], vec![], vec![]);
    refused(vec![entry(3), entry(2)], vec![], vec![]);
    refused(vec![], vec![site(1, "a"), site(2, "a")], vec![]);
    refused(vec![], vec![site(2, "a"), site(1, "b")], vec![]);
    refused(vec![], vec![site(1, "a"), site(2, "b"), site(3, "a")], vec![]);
    refused(vec![], vec![site(1, "a")], vec![icon(1, 2)]);
    refused(vec![], vec![], vec![icon(1, 1)]);
    refused(vec![], vec![site(1, "a")], vec![icon(2, 1), icon(1, 1)]);
}

#[test]
fn the_last_identity_cannot_be_followed() {
    let mut store = Store::restore(
        vec![entry(i64::MAX)],
        vec![site(i64::MAX, "a")],
        vec![icon(i64::MAX, i64::MAX)],
    )
    .unwrap();
    assert_eq!(store.insert_url("x", "y", 0), Err(StoreError::Full));
    assert_eq!(store.upsert_site_meta("b", None, None, None, None), Err(StoreError::Full));
    assert_eq!(store.upsert_site_meta("a", Some("n"), None, None, None), Ok(()));
    assert_eq!(
        store.insert_icon(i64::MAX, "u", None, None, None, vec![], None),
        Err(StoreError::Full)
    );
    assert_eq!(store.list_recent(5).len(), 1);
    assert_eq!(store.icons_of(i64::MAX).len(), 1);
    store.delete(i64::MAX);
    assert_eq!(store.insert_url("x", "y", 0), Ok(()));
    assert_eq!(store.get_by_id(1).unwrap().label, "x");
}

#[test]
fn the_verdict_says_what_serving_would_answer() {
    let mut store = Store::restore(vec![entry(i64::MAX)], vec![site(1, "a")], vec![]).unwrap();
    let insert = DbRequest::Insert { label: "l".to_string(), url: "u".to_string(), _timestamp: 0 };
    let orphan = DbRequest::InsertIcon {
        site_id: 9,
        src_url: "u".to_string(),
        width: None,
        height: None,
        mime: None,
        data: vec![],
        fetched_at: None,
    };
    let upsert = DbRequest::UpsertSiteMeta {
        origin: "b".to_string(),
        site_name: None,
        description: None,
        manifest_url: None,
        metadata_fetched_at: None,
    };
    assert_eq!(store.verdict(&insert), Err(StoreError::Full));
    assert_eq!(store.verdict(&orphan), Err(StoreError::Constraint));
    assert_eq!(store.verdict(&upsert), Ok(()));
    assert_eq!(store.verdict(&DbRequest::Delete { id: 3 }), Ok(()));
    assert_eq!(store.verdict(&DbRequest::ListRecent { limit: -1 }), Ok(()));
    assert!(matches!(store.serve(insert), DbReply::Failed(StoreError::Full)));
    assert!(matches!(store.serve(orphan), DbReply::Failed(StoreError::Constraint)));
    assert!(matches!(store.serve(upsert), DbReply::Done));
    assert_eq!(store.get_site_meta_by_origin("b").unwrap().id, 2);
}

#[test]
fn a_request_whose_write_failed_changes_nothing() {
    let mut store = Store::new();
    let insert = |label: &str| DbRequest::Insert {
        label: label.to_string(),
        url: "http://x.example/".to_string(),
        _timestamp: 1,
    };
    assert!(matches!(store.settle(insert("lost"), false), DbReply::Failed(StoreError::Storage)));
    assert!(store.list_recent(5).is_empty());
    assert!(matches!(store.settle(insert("kept"), true), DbReply::Done));
    assert_eq!(store.get_by_id(1).unwrap().label, "kept");
    assert!(matches!(store.settle(DbRequest::Delete { id: 1 }, false), DbReply::Failed(StoreError::Storage)));
    assert_eq!(store.list_recent(5).len(), 1);
}

#[test]
fn the_actor_starts_on_the_rows_of_an_earlier_run() {
    let mut db = init_db(
        vec![entry(2), entry(5)],
        vec![site(1, "http://x.example:80")],
        vec![icon(3, 1)],
    )
    .unwrap();
    assert!(db.is_open());
    let listed = db.list_recent(10).unwrap();
    let ids: Vec<i64> = listed.iter().map(|r| r.id).collect();
    assert_eq!(ids, vec![5, 2]);
    assert_eq!(listed[0].icon_data, Some(vec![3u8]));
    assert_eq!(db.get_by_id(2).unwrap().unwrap().label, "l2");
    assert_eq!(db.get_site_meta_by_origin("http://x.example:80").unwrap().unwrap().id, 1);
    db.insert_url("next", "http://n.example/", 9).unwrap();
    assert_eq!(db.get_by_id(6).unwrap().unwrap().label, "next");
}

#[test]
fn the_actor_starts_on_empty_storage_with_empty_tables() {
    let mut db = init_db(Vec::new(), Vec::new(), Vec::new()).unwrap();
    assert!(db.list_recent(10).unwrap().is_empty());
    assert!(db.get_by_id(1).unwrap().is_none());
    assert!(db.get_site_meta_by_origin("o").unwrap().is_none());
    db.insert_url("first", "http://f.example/", 1).unwrap();
    assert_eq!(db.get_by_id(1).unwrap().unwrap().label, "first");
}

#[test]
fn the_actor_does_not_start_on_broken_storage() {
    assert!(matches!(init_db(vec![entry(2), entry(1)], vec![], vec![]), Err(StoreError::Storage)));
    assert!(matches!(init_db(vec![], vec![], vec![icon(1, 1)]), Err(StoreError::Storage)));
    assert!(matches!(
        init_db(vec![], vec![site(1, "a"), site(2, "a")], vec![]),
        Err(StoreError::Storage)
    ));
}

#[test]
fn a_handle_settles_a_request_by_what_the_storage_took() {
    let mut db = init_db(Vec::new(), Vec::new(), Vec::new()).unwrap();
    let insert = |label: &str| DbRequest::Insert {
        label: label.to_string(),
        url: "http://x.example/".to_string(),
        _timestamp: 1,
    };
    let orphan = DbRequest::InsertIcon {
        site_id: 9,
        src_url: "u".to_string(),
        width: None,
        height: None,
        mime: None,
        data: vec![],
        fetched_at: None,
    };
    assert_eq!(db.verdict(&insert("a")), Ok(()));
    assert_eq!(db.verdict(&orphan), Err(StoreError::Constraint));
    assert!(matches!(db.settle(insert("lost"), false), Ok(DbReply::Failed(StoreError::Storage))));
    assert!(db.list_recent(5).unwrap().is_empty());
    assert!(matches!(db.settle(insert("kept"), true), Ok(DbReply::Done)));
    assert_eq!(db.get_by_id(1).unwrap().unwrap().label, "kept");
    db.close();
    assert_eq!(db.verdict(&insert("a")), Err(StoreError::HandleClosed));
    assert!(matches!(db.settle(insert("late"), true), Err(StoreError::HandleClosed)));
}

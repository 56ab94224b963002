use rustine::db::{get_global, init_db, set_global, DbReply, DbRequest, GlobalDb, SiteMeta, StoreError};
use rustine::enrich::{
    find_icons, find_manifest, persist, persist_global, pick_name, ready_doc, save_request,
    scan_links, scan_manifest, strip_slashes, Effect, Enrichment, FetchOutcome, ManifestDoc,
    PageLink,
};
use rustine::weburl::UrlParts;

const PAGE: &str = "https://example.com/app/index.html";

const HTML: &str = r#"<!doctype html>
<html><head>
<title>t</title>
<link rel="stylesheet" href="/s.css">
<link rel="ICON" href="/a.png">
<link rel="Manifest" href="site.webmanifest">
<link rel="apple-touch-icon" href="https://cdn.example/b.png">
<link rel="manifest" href="/second.json">
<link rel="icon">
<link href="/norel.png">
</head><body><a rel="icon" href="/not-a-link.png">x</a></body></html>"#;

fn bytes(body: &[u8], content_type: Option<&str>) -> FetchOutcome {
    FetchOutcome::Bytes { body: body.to_vec(), content_type: content_type.map(|s| s.to_string()) }
}

fn fetch_bytes(effects: &[Effect], at: usize) -> String {
    match &effects[at] {
        Effect::FetchBytes(u) => u.clone(),
        other => panic!("not a fetch for bytes: {:?}", other),
    }
}

fn fetch_text(effects: &[Effect], at: usize) -> String {
    match &effects[at] {
        Effect::FetchText(u) => u.clone(),
        other => panic!("not a fetch for text: {:?}", other),
    }
}

#[test]
fn links_are_read_in_the_order_of_the_page() {
    let links = scan_links(PAGE, HTML);
    let rels: Vec<Option<String>> = links.iter().map(|l| l.rel.clone()).collect();
    assert_eq!(
        rels,
        vec![
            Some("stylesheet".to_string()),
            Some("icon".to_string()),
            Some("manifest".to_string()),
            Some("apple-touch-icon".to_string()),
            Some("manifest".to_string()),
            Some("icon".to_string()),
        ]
    );
    let targets: Vec<Option<String>> = links.iter().map(|l| l.target.clone()).collect();
    assert_eq!(
        targets,
        vec![
            Some("https://example.com/s.css".to_string()),
            Some("https://example.com/a.png".to_string()),
            Some("https://example.com/app/site.webmanifest".to_string()),
            Some("https://cdn.example/b.png".to_string()),
            Some("https://example.com/second.json".to_string()),
            None,
        ]
    );
}

#[test]
fn a_page_without_links_has_none() {
    assert!(scan_links(PAGE, "").is_empty());
    assert!(scan_links(PAGE, "<p>hello</p>").is_empty());
}

#[test]
fn links_of_a_page_whose_address_does_not_parse_have_no_target() {
    let links = scan_links("not a url", HTML);
    assert_eq!(links.len(), 6);
    assert!(links.iter().all(|l| l.target.is_none()));
}

#[test]
fn the_manifest_is_the_first_link_that_names_one() {
    let links = scan_links(PAGE, HTML);
    assert_eq!(find_manifest(&links), Some("https://example.com/app/site.webmanifest".to_string()));
    assert_eq!(find_manifest(&Vec::new()), None);
    let unresolved = vec![
        PageLink { rel: Some("manifest".to_string()), target: None },
        PageLink { rel: None, target: Some("x".to_string()) },
        PageLink { rel: Some("webmanifest".to_string()), target: Some("y".to_string()) },
    ];
    assert_eq!(find_manifest(&unresolved), Some("y".to_string()));
}

#[test]
fn the_icons_are_all_links_that_name_one() {
    let links = scan_links(PAGE, HTML);
    assert_eq!(
        find_icons(&links),
        vec!["https://example.com/a.png".to_string(), "https://cdn.example/b.png".to_string()]
    );
}

#[test]
fn the_manifest_is_read_from_its_text() {
    let text = r#"{"name": "Example App", "short_name": "Ex", "icons": [
        {"src": "icon-1.png", "sizes": "48x48"}, {"sizes": "1x1"}, {"src": 7},
        {"src": "/icon-2.png"}, "junk"]}"#;
    let m = scan_manifest(PAGE, text).unwrap();
    assert_eq!(m.name.as_deref(), Some("Example App"));
    assert_eq!(
        m.icons,
        vec!["https://example.com/app/icon-1.png".to_string(), "https://example.com/icon-2.png".to_string()]
    );
}

#[test]
fn the_short_name_stands_in_for_the_name() {
    let m = scan_manifest(PAGE, r#"{"short_name": "Ex"}"#).unwrap();
    assert_eq!(m.name.as_deref(), Some("Ex"));
    assert!(m.icons.is_empty());
    let m = scan_manifest(PAGE, r#"{"name": 5, "short_name": "Ex", "icons": {}}"#).unwrap();
    assert_eq!(m.name.as_deref(), Some("Ex"));
    assert!(m.icons.is_empty());
    let m = scan_manifest(PAGE, "[]").unwrap();
    assert_eq!(m.name, None);
    assert_eq!(pick_name(&Some("a".to_string()), &Some("b".to_string())), Some("a".to_string()));
    assert_eq!(pick_name(&None, &Some("b".to_string())), Some("b".to_string()));
    assert_eq!(pick_name(&None, &None), None);
}

#[test]
fn a_text_that_is_no_json_is_no_manifest() {
    assert!(scan_manifest(PAGE, "").is_none());
    assert!(scan_manifest(PAGE, "{").is_none());
    assert!(scan_manifest(PAGE, "<html></html>").is_none());
}

#[test]
fn a_manifest_document_is_made_ready() {
    let doc = ManifestDoc {
        name: None,
        short_name: None,
        icons: Some(vec![Some("a.png".to_string()), None, Some("//cdn.example/b.png".to_string())]),
    };
    let m = ready_doc(PAGE, &doc);
    assert_eq!(m.name, None);
    assert_eq!(
        m.icons,
        vec!["https://example.com/app/a.png".to_string(), "https://cdn.example/b.png".to_string()]
    );
    let none = ManifestDoc { name: Some("n".to_string()), short_name: None, icons: None };
    assert!(ready_doc(PAGE, &none).icons.is_empty());
}

#[test]
fn trailing_slashes_are_dropped() {
    assert_eq!(strip_slashes("https://example.com:443"), "https://example.com:443");
    assert_eq!(strip_slashes("a//"), "a");
    assert_eq!(strip_slashes("/a/b/"), "/a/b");
    assert_eq!(strip_slashes("///"), "");
    assert_eq!(strip_slashes(""), "");
}

#[test]
fn a_run_starts_with_the_icon_at_the_wellknown_place() {
    let (run, effects) = Enrichment::begin(PAGE);
    assert!(!run.is_done());
    assert_eq!(run.origin(), "https://example.com:443");
    assert_eq!(run.url(), PAGE);
    assert_eq!(effects.len(), 1);
    assert_eq!(fetch_bytes(&effects, 0), "https://example.com:443/favicon.ico");
}

#[test]
fn a_run_for_an_address_without_origin_ends_at_once() {
    for url in ["about:blank", "data:text/plain,x", "no url", ""] {
        let (run, effects) = Enrichment::begin(url);
        assert!(run.is_done());
        assert!(effects.is_empty());
        let (run, effects) = run.advance(bytes(&[1], None), None);
        assert!(run.is_done());
        assert!(effects.is_empty());
    }
}

#[test]
fn a_run_starts_from_the_parts_of_its_address() {
    let parts = UrlParts {
        href: "foo://h/".to_string(),
        scheme: "foo".to_string(),
        host: Some("h".to_string()),
        port: None,
    };
    let (run, effects) = Enrichment::begin_with("foo://h/", Some(parts));
    assert_eq!(run.origin(), "foo://h");
    assert_eq!(fetch_bytes(&effects, 0), "foo://h/favicon.ico");
    let (run, effects) = Enrichment::begin_with("x", None);
    assert!(run.is_done());
    assert!(effects.is_empty());
}

#[test]
fn the_wellknown_icon_is_kept_and_ends_the_run() {
    let (run, _) = Enrichment::begin(PAGE);
    let (run, effects) = run.advance(bytes(&[1, 2, 3], Some("image/x-icon")), Some(5));
    assert!(run.is_done());
    assert_eq!(effects.len(), 2);
    match &effects[0] {
        Effect::SaveIcon { origin, site_name, manifest_url, src_url, mime, data, fetched_at } => {
            assert_eq!(origin, "https://example.com:443");
            assert_eq!(site_name, &None);
            assert_eq!(manifest_url, &None);
            assert_eq!(src_url, "https://example.com:443/favicon.ico");
            assert_eq!(mime, &None);
            assert_eq!(data, &vec![1, 2, 3]);
            assert_eq!(fetched_at, &Some(5));
        }
        other => panic!("not a save: {:?}", other),
    }
    assert!(matches!(&effects[1], Effect::PostFavicon(b) if b == &vec![1, 2, 3]));
}

#[test]
fn without_wellknown_icon_the_run_goes_by_manifest_and_links() {
    let (run, _) = Enrichment::begin(PAGE);
    let (run, effects) = run.advance(FetchOutcome::Failed, None);
    assert_eq!(effects.len(), 1);
    assert_eq!(fetch_text(&effects, 0), PAGE);

    let (run, effects) = run.advance(FetchOutcome::Text(HTML.to_string()), None);
    assert_eq!(effects.len(), 1);
    assert_eq!(fetch_text(&effects, 0), "https://example.com/app/site.webmanifest");

    let manifest = r#"{"short_name": "Ex", "icons": [{"src": "m1.png"}, {"src": "m2.png"}]}"#;
    let (run, effects) = run.advance(FetchOutcome::Text(manifest.to_string()), Some(6));
    assert_eq!(effects.len(), 2);
    match &effects[0] {
        Effect::SaveSite { origin, site_name, manifest_url, fetched_at } => {
            assert_eq!(origin, "https://example.com:443");
            assert_eq!(site_name.as_deref(), Some("Ex"));
            assert_eq!(manifest_url.as_deref(), Some("https://example.com/app/site.webmanifest"));
            assert_eq!(fetched_at, &Some(6));
        }
        other => panic!("not a save: {:?}", other),
    }
    assert_eq!(fetch_bytes(&effects, 1), "https://example.com/app/m1.png");

    let (run, effects) = run.advance(FetchOutcome::Failed, None);
    assert_eq!(effects.len(), 1);
    assert_eq!(fetch_bytes(&effects, 0), "https://example.com/app/m2.png");

    let (run, effects) = run.advance(bytes(&[9], Some("image/png")), Some(7));
    assert!(run.is_done());
    assert_eq!(effects.len(), 2);
    match &effects[0] {
        Effect::SaveIcon { origin, site_name, manifest_url, src_url, mime, data, fetched_at } => {
            assert_eq!(origin, "https://example.com:443");
            assert_eq!(site_name.as_deref(), Some("Ex"));
            assert_eq!(manifest_url.as_deref(), Some("https://example.com/app/site.webmanifest"));
            assert_eq!(src_url, "https://example.com/app/m2.png");
            assert_eq!(mime.as_deref(), Some("image/png"));
            assert_eq!(data, &vec![9]);
            assert_eq!(fetched_at, &Some(7));
        }
        other => panic!("not a save: {:?}", other),
    }
    assert!(matches!(&effects[1], Effect::PostFavicon(b) if b == &vec![9]));
}

#[test]
fn after_the_manifest_icons_the_linked_icons_are_tried() {
    let (run, _) = Enrichment::begin(PAGE);
    let (run, _) = run.advance(FetchOutcome::Failed, None);
    let (run, _) = run.advance(FetchOutcome::Text(HTML.to_string()), None);
    let (run, effects) = run.advance(FetchOutcome::Text(r#"{"icons": [{"src": "m1.png"}]}"#.to_string()), None);
    assert_eq!(fetch_bytes(&effects, 1), "https://example.com/app/m1.png");
    let (run, effects) = run.advance(FetchOutcome::Failed, None);
    assert_eq!(fetch_bytes(&effects, 0), "https://example.com/a.png");
    let (run, effects) = run.advance(FetchOutcome::Text("wrong kind".to_string()), None);
    assert_eq!(fetch_bytes(&effects, 0), "https://cdn.example/b.png");
    let (run, effects) = run.advance(bytes(&[4], Some("image/png")), None);
    assert!(run.is_done());
    match &effects[0] {
        Effect::SaveIcon { site_name, manifest_url, src_url, mime, fetched_at, .. } => {
            assert_eq!(site_name, &None);
            assert_eq!(manifest_url, &None);
            assert_eq!(src_url, "https://cdn.example/b.png");
            assert_eq!(mime, &None);
            assert_eq!(fetched_at, &None);
        }
        other => panic!("not a save: {:?}", other),
    }
}

#[test]
fn a_manifest_that_is_no_json_leaves_the_linked_icons() {
    let (run, _) = Enrichment::begin(PAGE);
    let (run, _) = run.advance(FetchOutcome::Failed, None);
    let (run, _) = run.advance(FetchOutcome::Text(HTML.to_string()), None);
    let (run, effects) = run.advance(FetchOutcome::Text("{not json".to_string()), None);
    assert_eq!(effects.len(), 1);
    assert_eq!(fetch_bytes(&effects, 0), "https://example.com/a.png");
    let (run, _) = run.advance(FetchOutcome::Failed, None);
    let (run, effects) = run.advance(FetchOutcome::Failed, None);
    assert!(run.is_done());
    assert!(effects.is_empty());
}

#[test]
fn a_page_without_manifest_goes_to_its_icons() {
    let (run, _) = Enrichment::begin("http://plain.example/");
    let (run, _) = run.advance(FetchOutcome::Failed, None);
    let html = r#"<link rel="shortcut icon" href="fav.png">"#;
    let (run, effects) = run.advance(FetchOutcome::Text(html.to_string()), None);
    assert!(!run.is_done());
    assert_eq!(fetch_bytes(&effects, 0), "http://plain.example/fav.png");
}

#[test]
fn a_run_that_finds_nothing_ends_silently() {
    let (run, _) = Enrichment::begin(PAGE);
    let (run, _) = run.advance(FetchOutcome::Failed, None);
    let (run, effects) = run.advance(FetchOutcome::Failed, None);
    assert!(run.is_done());
    assert!(effects.is_empty());

    let (run, _) = Enrichment::begin(PAGE);
    let (run, _) = run.advance(FetchOutcome::Failed, None);
    let (run, effects) = run.advance(FetchOutcome::Text("<p>nothing</p>".to_string()), None);
    assert!(run.is_done());
    assert!(effects.is_empty());

    let (run, _) = Enrichment::begin(PAGE);
    let (run, _) = run.advance(FetchOutcome::Failed, None);
    let (run, effects) = run.advance(bytes(&[1], None), None);
    assert!(run.is_done());
    assert!(effects.is_empty());
}

#[test]
fn steps_out_of_turn_change_nothing() {
    let (run, _) = Enrichment::begin(PAGE);
    let (run, effects) = run.on_page(Some(Vec::new()));
    assert!(effects.is_empty());
    let (run, effects) = run.on_manifest(None, None);
    assert!(effects.is_empty());
    assert!(!run.is_done());
    let (run, effects) = run.on_bytes(None, None);
    assert_eq!(fetch_text(&effects, 0), PAGE);
    let (run, effects) = run.on_bytes(Some((vec![1], None)), None);
    assert!(effects.is_empty());
    assert!(!run.is_done());
}

#[test]
fn saving_an_icon_stores_site_and_icon() {
    let mut db = init_db(Vec::new(), Vec::new(), Vec::new()).unwrap();
    db.insert_url("ex", "https://example.com/page", 1).unwrap();
    let save = Effect::SaveIcon {
        origin: "https://example.com:443".to_string(),
        site_name: Some("Example".to_string()),
        manifest_url: Some("https://example.com/m.json".to_string()),
        src_url: "https://example.com/i.png".to_string(),
        mime: Some("image/png".to_string()),
        data: vec![1, 2],
        fetched_at: Some(10),
    };
    persist(&mut db, &save);
    let site = db.get_site_meta_by_origin("https://example.com:443").unwrap().unwrap();
    assert_eq!(site.id, 1);
    assert_eq!(site.site_name.as_deref(), Some("Example"));
    assert_eq!(site.description, None);
    assert_eq!(site.manifest_url.as_deref(), Some("https://example.com/m.json"));
    assert_eq!(site.metadata_fetched_at, Some(10));
    let record = db.get_by_id(1).unwrap().unwrap();
    assert_eq!(record.site_name.as_deref(), Some("Example"));
    assert_eq!(record.icon_mime.as_deref(), Some("image/png"));
    assert_eq!(record.icon_data, Some(vec![1u8, 2u8]));

    let later = Effect::SaveIcon {
        origin: "https://example.com:443".to_string(),
        site_name: None,
        manifest_url: None,
        src_url: "https://example.com/favicon.ico".to_string(),
        mime: None,
        data: vec![3],
        fetched_at: Some(20),
    };
    persist(&mut db, &later);
    let record = db.get_by_id(1).unwrap().unwrap();
    assert_eq!(record.site_name, None);
    assert_eq!(record.icon_mime, None);
    assert_eq!(record.icon_data, Some(vec![3u8]));
}

#[test]
fn saving_a_site_stores_its_metadata_only() {
    let mut db = init_db(Vec::new(), Vec::new(), Vec::new()).unwrap();
    let save = Effect::SaveSite {
        origin: "o".to_string(),
        site_name: Some("n".to_string()),
        manifest_url: Some("m".to_string()),
        fetched_at: None,
    };
    persist(&mut db, &save);
    let site = db.get_site_meta_by_origin("o").unwrap().unwrap();
    assert_eq!(site.site_name.as_deref(), Some("n"));
    assert_eq!(site.manifest_url.as_deref(), Some("m"));
    persist(&mut db, &Effect::PostFavicon(vec![1]));
    persist(&mut db, &Effect::FetchText("x".to_string()));
    assert!(db.list_recent(5).unwrap().is_empty());
}

#[test]
fn saving_on_a_closed_handle_is_dropped() {
    let mut db = init_db(Vec::new(), Vec::new(), Vec::new()).unwrap();
    db.close();
    let save = Effect::SaveSite { origin: "o".to_string(), site_name: None, manifest_url: None, fetched_at: None };
    persist(&mut db, &save);
    assert!(!db.is_open());
}

#[test]
fn saving_goes_through_the_global_handle_once_it_is_set() {
    let mut slot = GlobalDb::new();
    let save = Effect::SaveSite { origin: "o".to_string(), site_name: None, manifest_url: None, fetched_at: Some(3) };
    persist_global(&mut slot, &save);
    assert!(get_global(&mut slot).is_none());
    set_global(&mut slot, init_db(Vec::new(), Vec::new(), Vec::new()).unwrap()).unwrap();
    persist_global(&mut slot, &save);
    let site = get_global(&mut slot).unwrap().get_site_meta_by_origin("o").unwrap().unwrap();
    assert_eq!(site.metadata_fetched_at, Some(3));
}

#[test]
fn saving_an_icon_takes_three_requests() {
    let save = Effect::SaveIcon {
        origin: "o".to_string(),
        site_name: Some("n".to_string()),
        manifest_url: None,
        src_url: "s".to_string(),
        mime: Some("m".to_string()),
        data: vec![1],
        fetched_at: Some(2),
    };
    match save_request(&save, 0, &None) {
        Some(DbRequest::UpsertSiteMeta { origin, site_name, description, manifest_url, metadata_fetched_at }) => {
            assert_eq!(origin, "o");
            assert_eq!(site_name.as_deref(), Some("n"));
            assert_eq!(description, None);
            assert_eq!(manifest_url, None);
            assert_eq!(metadata_fetched_at, Some(2));
        }
        other => panic!("not an upsert: {:?}", other),
    }
    assert!(matches!(
        save_request(&save, 1, &Some(DbReply::Failed(StoreError::Full))),
        Some(DbRequest::GetSiteMetaByOrigin { origin }) if origin == "o"
    ));
    let site = SiteMeta {
        id: 7,
        origin: "o".to_string(),
        site_name: None,
        description: None,
        manifest_url: None,
        metadata_fetched_at: None,
    };
    match save_request(&save, 2, &Some(DbReply::Site(Some(site)))) {
        Some(DbRequest::InsertIcon { site_id, src_url, width, height, mime, data, fetched_at }) => {
            assert_eq!(site_id, 7);
            assert_eq!(src_url, "s");
            assert_eq!(width, None);
            assert_eq!(height, None);
            assert_eq!(mime.as_deref(), Some("m"));
            assert_eq!(data, vec![1]);
            assert_eq!(fetched_at, Some(2));
        }
        other => panic!("not an insert: {:?}", other),
    }
    assert!(save_request(&save, 2, &Some(DbReply::Site(None))).is_none());
    assert!(save_request(&save, 2, &Some(DbReply::Done)).is_none());
    assert!(save_request(&save, 2, &None).is_none());
    assert!(save_request(&save, 3, &None).is_none());
}

#[test]
fn saving_a_site_takes_one_request() {
    let save = Effect::SaveSite { origin: "o".to_string(), site_name: None, manifest_url: None, fetched_at: None };
    assert!(matches!(save_request(&save, 0, &None), Some(DbRequest::UpsertSiteMeta { .. })));
    assert!(save_request(&save, 1, &Some(DbReply::Done)).is_none());
    assert!(save_request(&Effect::PostFavicon(vec![]), 0, &None).is_none());
    assert!(save_request(&Effect::FetchBytes("u".to_string()), 0, &None).is_none());
}

use mdflc::api::{Api, PathError, ServeConfig};
use mdflc::page::{render, render_source, DecodeError, Template, INDEX_HTML, NOT_FOUND_BODY};
use mdflc::pipeline::{plan_batch, plan_scan, render_batch, BatchEntry, RawChange, RenderedDoc};
use mdflc::registry::{resolve, ListenerRegistry, Outcome};
use mdflc::route::{clean_url, key_for_path, relative_path};
use mdflc::store::ContentStore;

fn change(path: &str, is_file: bool) -> RawChange {
    RawChange { path: path.to_string(), is_file }
}

fn shell() -> Template {
    Template::from_page("<body>{{md}}</body>").unwrap()
}

fn startup(base: &str, files: &[(&str, &str)]) -> ContentStore {
    let found: Vec<RawChange> = files.iter().map(|(p, _)| change(p, true)).collect();
    let plan = plan_scan(base, false, &found);
    let texts: Vec<Option<Vec<u8>>> = plan
        .iter()
        .map(|e| files.iter().find(|(p, _)| *p == e.path).map(|(_, t)| t.as_bytes().to_vec()))
        .collect();
    let mut store = ContentStore::new();
    store.apply(render_batch(&plan, &texts));
    store
}

#[test]
fn clean_url_strips_slash_and_suffix() {
    assert_eq!(clean_url("/a.md"), "a");
    assert_eq!(clean_url("a"), "a");
    assert_eq!(clean_url("/x/y.md"), "x/y");
    assert_eq!(clean_url("//a.md.md"), "/a.md");
    assert_eq!(clean_url(""), "");
    assert_eq!(clean_url("/"), "");
    assert_eq!(clean_url("/notes.txt"), "notes.txt");
}

#[test]
fn key_for_path_under_root() {
    assert_eq!(key_for_path("/docs", "/docs/a.md"), Some("a".to_string()));
    assert_eq!(key_for_path("/docs", "/docs/sub/b.md"), Some("sub/b".to_string()));
    assert_eq!(key_for_path("/", "/a.md"), Some("a".to_string()));
    assert_eq!(key_for_path("/docs", "/other/a.md"), None);
    assert_eq!(key_for_path("/docs", "/docsx/a.md"), None);
    assert_eq!(key_for_path("/docs", "/docs/a.txt"), None);
    assert_eq!(key_for_path("/docs", "/docs"), None);
}

#[test]
fn relative_path_cases() {
    assert_eq!(relative_path("/docs", "/docs/a/b.md"), Some("a/b.md"));
    assert_eq!(relative_path("/docs", "/docs"), Some(""));
    assert_eq!(relative_path("/docs/", "/docs/x"), Some("x"));
    assert_eq!(relative_path("/docs", "/doc"), None);
}

#[test]
fn url_and_path_keys_agree() {
    let base = "/srv/docs";
    for p in ["a", "guide/intro", "x.md", "deep/er/page"] {
        let url = format!("/{p}.md");
        let path = format!("{base}/{p}.md");
        assert_eq!(Some(clean_url(&url).to_string()), key_for_path(base, &path));
    }
}

#[test]
fn render_heading() {
    assert_eq!(render("# Hi"), "<h1>Hi</h1>\n");
    assert_eq!(render(""), "");
}

#[test]
fn render_source_decodes_utf8() {
    assert_eq!(render_source("# Grüße".as_bytes()), Ok("<h1>Grüße</h1>\n".to_string()));
    assert_eq!(render_source(&[b'#', b' ', 0xff, 0xfe]), Err(DecodeError));
    assert_eq!(render_source(&[0xed, 0xa0, 0x80]), Err(DecodeError));
}

#[test]
fn undecodable_file_keeps_stale_page() {
    let mut store = startup("/docs", &[("/docs/a.md", "# Old")]);
    let plan = plan_batch("/docs", &vec![change("/docs/a.md", true)]);
    let docs = render_batch(&plan, &vec![Some(vec![0xc3, 0x28])]);
    assert!(docs.is_empty());
    assert_eq!(store.apply(docs), 0);
    assert_eq!(store.get("a"), Some("<h1>Old</h1>\n".to_string()));
}

#[test]
fn read_after_write() {
    let mut store = ContentStore::new();
    assert_eq!(store.get("k"), None);
    store.put("k".to_string(), "one".to_string());
    assert_eq!(store.get("k"), Some("one".to_string()));
    store.put("k".to_string(), "two".to_string());
    store.put("j".to_string(), "other".to_string());
    assert_eq!(store.get("k"), Some("two".to_string()));
    assert_eq!(store.get("j"), Some("other".to_string()));
}

#[test]
fn puts_replace_whole_pages() {
    let mut store = ContentStore::new();
    store.put("k".to_string(), "before".to_string());
    let d1 = "a".repeat(1000);
    let d2 = "b".repeat(3);
    store.put("k".to_string(), d1.clone());
    assert_eq!(store.get("k"), Some(d1));
    store.put("k".to_string(), d2.clone());
    assert_eq!(store.get("k"), Some(d2));
}

#[test]
fn burst_of_one_file_renders_once() {
    let changes: Vec<RawChange> = (0..50).map(|_| change("/docs/a.md", true)).collect();
    let plan = plan_batch("/docs", &changes);
    assert_eq!(plan.len(), 1);
    assert_eq!(plan[0].path, "/docs/a.md");
    assert_eq!(plan[0].key, "a");

    let mut api = Api::new("u".to_string(), "/docs".to_string(), "/docs/a.md", ContentStore::new(), shell()).unwrap();
    let mut listeners = ListenerRegistry::new();
    let id = listeners.attach().unwrap();
    assert_eq!(listeners.wait(id), None);
    let docs = render_batch(&plan, &vec![Some(b"# A".to_vec())]);
    assert_eq!(docs.len(), 1);
    let woken = api.file_update(docs, &mut listeners);
    assert_eq!(woken, vec![id]);
}

#[test]
fn plan_skips_directories_foreign_and_repeated_paths() {
    let changes = vec![
        change("/docs/a.md", true),
        change("/docs/dir", false),
        change("/docs/gone.md", false),
        change("/elsewhere/b.md", true),
        change("/docs/b.md", true),
        change("/docs/a.md", true),
        change("/docs/img.png", true),
    ];
    let plan = plan_batch("/docs", &changes);
    let got: Vec<(String, String)> = plan.iter().map(|e| (e.path.clone(), e.key.clone())).collect();
    assert_eq!(
        got,
        vec![
            ("/docs/a.md".to_string(), "a".to_string()),
            ("/docs/b.md".to_string(), "b".to_string())
        ]
    );
}

#[test]
fn plan_scan_single_file_is_index() {
    let plan = plan_scan("/notes/readme.md", true, &Vec::new());
    assert_eq!(plan.len(), 1);
    assert_eq!(plan[0].path, "/notes/readme.md");
    assert_eq!(plan[0].key, "index");
}

#[test]
fn unreadable_file_keeps_stale_page() {
    let mut store = startup("/docs", &[("/docs/a.md", "# Old"), ("/docs/b.md", "# B")]);
    let plan = vec![
        BatchEntry { path: "/docs/a.md".to_string(), key: "a".to_string() },
        BatchEntry { path: "/docs/b.md".to_string(), key: "b".to_string() },
    ];
    let docs = render_batch(&plan, &vec![None, Some(b"# New".to_vec())]);
    assert_eq!(store.apply(docs), 1);
    assert_eq!(store.get("a"), Some("<h1>Old</h1>\n".to_string()));
    assert_eq!(store.get("b"), Some("<h1>New</h1>\n".to_string()));
}

#[test]
fn startup_request_and_edit() {
    let store = startup("/docs", &[("/docs/a.md", "# Hi")]);
    assert_eq!(store.get("a"), Some("<h1>Hi</h1>\n".to_string()));

    let mut api = Api::new("u".to_string(), "/docs".to_string(), "/docs/a.md", store, shell()).unwrap();
    let page = api.get_md("/a.md").unwrap();
    assert_eq!(page, "<body><h1>Hi</h1>\n</body>");

    let mut listeners = ListenerRegistry::new();
    let id = listeners.attach().unwrap();
    assert_eq!(listeners.wait(id), None);
    let plan = plan_batch("/docs", &vec![change("/docs/a.md", true)]);
    let docs = render_batch(&plan, &vec![Some(b"# Bye".to_vec())]);
    let woken = api.file_update(docs, &mut listeners);
    assert_eq!(woken, vec![id]);
    assert!(api.get_md("/a.md").unwrap().contains("<h1>Bye</h1>"));
}

#[test]
fn no_broadcast_without_listeners_or_pages() {
    let mut api = Api::new("u".to_string(), "/docs".to_string(), "/docs/a.md", ContentStore::new(), shell()).unwrap();
    let mut listeners = ListenerRegistry::new();
    let doc = RenderedDoc { key: "a".to_string(), html: "x".to_string() };
    assert!(api.file_update(vec![doc], &mut listeners).is_empty());
    let id = listeners.attach().unwrap();
    assert_eq!(listeners.wait(id), None);
    assert!(api.file_update(Vec::new(), &mut listeners).is_empty());
    assert_eq!(api.get_md("a"), Some("<body>x</body>".to_string()));
}

#[test]
fn missing_page_is_not_found() {
    let api = Api::new("u".to_string(), "/docs".to_string(), "/docs/a.md", ContentStore::new(), shell()).unwrap();
    assert_eq!(api.get_md("/missing.md"), None);
    assert_eq!(api.not_found(), format!("<body>{NOT_FOUND_BODY}</body>"));
}

#[test]
fn failed_set_root_keeps_serving() {
    let store = startup("/docs", &[("/docs/a.md", "# Hi")]);
    let mut api = Api::new("u".to_string(), "/docs".to_string(), "/docs/a.md", store, shell()).unwrap();
    assert_eq!(api.set_root(None), Err(PathError::NotFound));
    assert_eq!(api.base(), "/docs");
    assert!(api.get_md("/a.md").unwrap().contains("<h1>Hi</h1>"));
    assert_eq!(api.set_root(Some("/srv".to_string())), Ok(()));
    assert_eq!(api.base(), "/srv");
    assert_eq!(api.index(), "a.md");
    assert!(api.get_md("/a.md").is_some());
}

#[test]
fn set_index_must_be_below_root() {
    let mut config = ServeConfig::new("/docs".to_string(), "/docs/index.md").unwrap();
    assert_eq!(config.index(), "index.md");
    assert_eq!(config.set_index("/other/x.md"), Err(PathError::NotASubpath));
    assert_eq!(config.index(), "index.md");
    assert_eq!(config.set_index("/docs/guide/start.md"), Ok(()));
    assert_eq!(config.index(), "guide/start.md");
    assert!(matches!(ServeConfig::new("/docs".to_string(), "/tmp/x.md"), Err(PathError::NotASubpath)));
    assert!(matches!(
        Api::new("u".to_string(), "/docs".to_string(), "/etc/x.md", ContentStore::new(), shell()),
        Err(PathError::NotASubpath)
    ));
}

#[test]
fn template_splits_at_first_slot() {
    let t = Template::from_page("ab{{md}}cd{{md}}").unwrap();
    assert_eq!(t.html("X"), "abXcd{{md}}");
    assert_eq!(t.not_found(), format!("ab{NOT_FOUND_BODY}cd{{{{md}}}}"));
    assert!(Template::from_page("no slot").is_none());
    let standard = Template::from_page(INDEX_HTML).unwrap();
    assert!(standard.html("<p>z</p>").contains("<main><p>z</p></main>"));
}

#[test]
fn broadcast_wakes_current_waiters_only() {
    let mut reg = ListenerRegistry::new();
    let ids: Vec<u64> = (0..3).map(|_| reg.attach().unwrap()).collect();
    for id in &ids {
        assert_eq!(reg.wait(*id), None);
    }
    assert_eq!(reg.count(), 3);
    let mut woken = reg.fire();
    woken.sort();
    assert_eq!(woken, ids);
    let late = reg.attach().unwrap();
    assert!(!woken.contains(&late));
    assert_eq!(reg.wait(late), None);
    assert_eq!(reg.fire(), vec![late]);
    assert!(reg.fire().is_empty());
}

#[test]
fn shutdown_closes_every_waiter() {
    let mut reg = ListenerRegistry::new();
    let ids: Vec<u64> = (0..5).map(|_| reg.attach().unwrap()).collect();
    for id in &ids {
        assert_eq!(reg.wait(*id), None);
    }
    let mut closed = reg.shutdown();
    closed.sort();
    assert_eq!(closed, ids);
    assert!(reg.is_closed());
    for id in &ids {
        assert_eq!(reg.wait(*id), Some(Outcome::Closed));
    }
    let late = reg.attach().unwrap();
    assert_eq!(reg.wait(late), Some(Outcome::Closed));
    assert!(reg.fire().is_empty());
}

#[test]
fn release_counts_once() {
    let mut reg = ListenerRegistry::new();
    let a = reg.attach().unwrap();
    let b = reg.attach().unwrap();
    assert_eq!(reg.wait(a), None);
    reg.release(a);
    assert_eq!(reg.count(), 1);
    reg.release(a);
    assert_eq!(reg.count(), 1);
    assert_eq!(reg.wait(a), Some(Outcome::Closed));
    assert!(reg.fire().is_empty());
    reg.release(b);
    assert_eq!(reg.count(), 0);
}

#[test]
fn resolve_priority() {
    assert_eq!(resolve(true, true, true), Some(Outcome::Closed));
    assert_eq!(resolve(false, true, true), Some(Outcome::Changed));
    assert_eq!(resolve(false, false, true), Some(Outcome::PeerDisconnected));
    assert_eq!(resolve(false, false, false), None);
}

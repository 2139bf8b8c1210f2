use std::sync::Arc;

use vite_rs::artifact::{to_decimal, Artifact};
use vite_rs::serve::{
    index_probe, render_response, served_target, BuildMode, CacheStrategy, Request, Response,
    ViteServe,
};
use vite_rs::store::{list_compiled_files, IndexError, ManifestEntry, StaticStore};

fn artifact(content_type: &str, hash: Option<&str>, body: &[u8]) -> Artifact {
    Artifact {
        content_type: content_type.to_string(),
        content_length: body.len() as u64,
        content_hash: hash.map(|h| h.to_string()),
        last_modified: None,
        bytes: Arc::new(body.to_vec()),
    }
}

fn entry(key: &str, file: &str, is_entry: Option<bool>) -> ManifestEntry {
    ManifestEntry { key: key.to_string(), file: file.to_string(), is_entry }
}

fn request(path: &str, if_none_match: Option<&str>) -> Request {
    Request {
        path: path.to_string(),
        query: None,
        if_none_match: if_none_match.map(|s| s.to_string()),
    }
}

fn header<'a>(r: &'a Response, name: &str) -> Option<&'a str> {
    r.headers.iter().find(|h| h.name == name).map(|h| h.value.as_str())
}

fn scenario_store() -> StaticStore {
    let files = vec![
        ("index.html".to_string(), artifact("text/html", Some("hash-a"), b"<html>A</html>")),
        ("assets/app-abc.js".to_string(), artifact("text/javascript", Some("hash-b"), b"console.log('B')")),
    ];
    let manifest = vec![entry("src/app.ts", "assets/app-abc.js", Some(true))];
    StaticStore::build_index(files, &manifest).unwrap()
}

#[test]
fn scenario_index_alias_missing_and_not_modified() {
    let server = ViteServe::new(scenario_store(), BuildMode::Production);
    let root = server.serve(&request("/", None));
    assert_eq!(root.status, 200);
    assert_eq!(root.body, b"<html>A</html>".to_vec());
    let empty = server.serve(&request("", None));
    assert_eq!(empty.body, b"<html>A</html>".to_vec());

    let app = server.serve(&request("/src/app.ts", None));
    assert_eq!(app.status, 200);
    assert_eq!(app.body, b"console.log('B')".to_vec());
    assert_eq!(header(&app, "Content-Type"), Some("text/javascript"));

    let missing = server.serve(&request("/missing.js", None));
    assert_eq!(missing.status, 404);
    assert!(missing.body.is_empty());
    assert!(missing.headers.is_empty());

    let etag = header(&app, "ETag").unwrap().to_string();
    let again = server.serve(&request("/src/app.ts", Some(&etag)));
    assert_eq!(again.status, 304);
    assert!(again.body.is_empty());
}

#[test]
fn literal_paths_resolve_to_their_artifact() {
    let store = scenario_store();
    let a = store.resolve("index.html").unwrap();
    assert_eq!(*a.bytes, b"<html>A</html>".to_vec());
    let b = store.resolve("assets/app-abc.js").unwrap();
    assert_eq!(b.content_hash.as_deref(), Some("hash-b"));
    assert!(store.resolve("nothing/here.css").is_none());
    assert!(store.has_asset("src/app.ts"));
    assert!(!store.has_asset("src/other.ts"));
}

#[test]
fn literal_key_wins_over_alias() {
    let files = vec![
        ("main.js".to_string(), artifact("text/javascript", None, b"literal")),
        ("main-123.js".to_string(), artifact("text/javascript", None, b"compiled")),
    ];
    let manifest = vec![
        entry("main.js", "main-123.js", Some(true)),
        entry("entry.ts", "main-123.js", Some(true)),
        entry("lib.ts", "main-123.js", Some(false)),
        entry("other.ts", "main-123.js", None),
    ];
    let store = StaticStore::build_index(files, &manifest).unwrap();
    assert_eq!(store.resolve("main.js").unwrap().bytes.as_ref(), &b"literal".to_vec());
    assert!(store.resolve("lib.ts").is_none());
    assert_eq!(store.resolve("entry.ts").unwrap().bytes.as_ref(), &b"compiled".to_vec());
    assert!(store.resolve("other.ts").is_none());
    let first = store.resolve("main.js").unwrap();
    let second = store.resolve("main.js").unwrap();
    assert_eq!(first, second);
}

#[test]
fn later_file_of_same_path_replaces_earlier() {
    let files = vec![
        ("a.txt".to_string(), artifact("text/plain", None, b"one")),
        ("a.txt".to_string(), artifact("text/plain", None, b"two")),
    ];
    let store = StaticStore::build_index(files, &vec![]).unwrap();
    assert_eq!(store.resolve("a.txt").unwrap().bytes.as_ref(), &b"two".to_vec());
}

#[test]
fn unsorted_input_is_searchable() {
    let names = ["zeta.js", "alpha.js", "mid/dir.css", "Beta.js", "alpha.js.map", "\u{e9}t\u{e9}.txt", ""];
    let files: Vec<(String, Artifact)> = names
        .iter()
        .map(|n| (n.to_string(), artifact("text/plain", None, n.as_bytes())))
        .collect();
    let store = StaticStore::build_index(files, &vec![]).unwrap();
    for n in names.iter() {
        assert_eq!(store.resolve(n).unwrap().bytes.as_ref(), &n.as_bytes().to_vec());
    }
    assert!(store.resolve("alpha").is_none());
    assert!(store.resolve("zeta.jss").is_none());
}

#[test]
fn empty_store_finds_nothing() {
    let store = StaticStore::empty();
    assert!(store.resolve("index.html").is_none());
    let server = ViteServe::new(store, BuildMode::Development);
    assert_eq!(server.serve(&request("/", None)).status, 404);
}

#[test]
fn directory_index_is_preferred() {
    let files = vec![
        ("docs".to_string(), artifact("text/plain", None, b"plain docs")),
        ("docs/index.html".to_string(), artifact("text/html", None, b"docs index")),
        ("index.html".to_string(), artifact("text/html", None, b"root")),
    ];
    let server = ViteServe::new(StaticStore::build_index(files, &vec![]).unwrap(), BuildMode::Production);
    assert_eq!(server.serve(&request("/docs", None)).body, b"docs index".to_vec());
    assert_eq!(server.serve(&request("//docs", None)).body, b"docs index".to_vec());
    assert_eq!(server.serve(&request("/index.html", None)).body, b"root".to_vec());
    assert_eq!(server.serve(&request("", None)).body, b"root".to_vec());
}

#[test]
fn target_selection() {
    assert_eq!(index_probe("/"), None);
    assert_eq!(index_probe("///"), None);
    assert_eq!(index_probe("/a/b"), Some("a/b/index.html".to_string()));
    assert_eq!(served_target("", false), "index.html");
    assert_eq!(served_target("/a", true), "a/index.html");
    assert_eq!(served_target("/a", false), "a");
}

#[test]
fn etag_round_trip_keeps_headers() {
    let server = ViteServe::new(scenario_store(), BuildMode::Production)
        .with_cache_strategy(CacheStrategy::Lazy);
    let full = server.serve(&request("/index.html", None));
    let full_again = server.serve(&request("/index.html", None));
    let etag = header(&full, "ETag").unwrap().to_string();
    assert_eq!(etag, "hash-a");
    assert_eq!(header(&full_again, "ETag"), Some("hash-a"));
    let cached = server.serve(&request("/index.html", Some(&etag)));
    assert_eq!(full.status, 200);
    assert_eq!(cached.status, 304);
    assert!(cached.body.is_empty());
    assert_eq!(cached.headers, full.headers);
    let stale = server.serve(&request("/index.html", Some("\"hash-a\"")));
    assert_eq!(stale.status, 200);
}

#[test]
fn headers_in_order_with_length_etag_and_last_modified() {
    let mut a = artifact("text/css", None, b"body{}");
    a.last_modified = Some("Tue, 01 Jan 2030 00:00:00 GMT".to_string());
    let r = render_response(Some(a), &CacheStrategy::Eager, &None);
    let names: Vec<&str> = r.headers.iter().map(|h| h.name.as_str()).collect();
    assert_eq!(names, vec!["Content-Type", "Content-Length", "ETag", "Cache-Control", "Last-Modified"]);
    assert_eq!(header(&r, "Content-Length"), Some("6"));
    assert_eq!(header(&r, "ETag"), Some("6"));
    assert_eq!(header(&r, "Last-Modified"), Some("Tue, 01 Jan 2030 00:00:00 GMT"));
    let cached = render_response(Some(artifact("text/css", None, b"body{}")), &CacheStrategy::Eager, &Some("6".to_string()));
    assert_eq!(cached.status, 304);
    assert_eq!(cached.headers.len(), 4);
}

#[test]
fn cache_control_values() {
    assert_eq!(CacheStrategy::Eager.header_value(), "max-age=0, must-revalidate");
    assert_eq!(CacheStrategy::Lazy.header_value(), "max-age=0, stale-while-revalidate=604800");
    assert_eq!(CacheStrategy::NoCache.header_value(), "no-cache");
    assert_eq!(CacheStrategy::Custom("public, max-age=31536000".to_string()).header_value(), "public, max-age=31536000");
    let server = ViteServe::new(scenario_store(), BuildMode::Development);
    assert_eq!(server.cache_strategy, CacheStrategy::NoCache);
    let r = server.serve(&request("/", None));
    assert_eq!(header(&r, "Cache-Control"), Some("no-cache"));
    let prod = ViteServe::new(scenario_store(), BuildMode::Production);
    assert_eq!(prod.cache_strategy, CacheStrategy::Eager);
    let custom = prod.with_cache_strategy(CacheStrategy::Custom("private".to_string()));
    assert_eq!(header(&custom.serve(&request("/", None)), "Cache-Control"), Some("private"));
}

#[test]
fn decimal_formatting() {
    assert_eq!(to_decimal(0), "0");
    assert_eq!(to_decimal(7), "7");
    assert_eq!(to_decimal(604800), "604800");
    assert_eq!(to_decimal(u64::MAX), "18446744073709551615");
}

#[test]
fn compiled_file_listing() {
    let walked = vec![
        "assets\\app-abc.js".to_string(),
        ".vite/assets-index.json".to_string(),
        ".vite\\other".to_string(),
        "index.html".to_string(),
        "sub/.vite".to_string(),
        ".vitest.js".to_string(),
        ".vite-cache.json".to_string(),
    ];
    assert_eq!(
        list_compiled_files(&walked),
        vec![
            "assets/app-abc.js".to_string(),
            "index.html".to_string(),
            "sub/.vite".to_string(),
            ".vitest.js".to_string(),
            ".vite-cache.json".to_string(),
        ]
    );
    assert!(list_compiled_files(&vec![]).is_empty());
}

#[test]
fn artifact_from_file_guesses_type() {
    let a = Artifact::from_file("assets/app.js", b"let x;".to_vec(), None);
    assert_eq!(a.content_type, "text/javascript");
    assert_eq!(a.content_length, 6);
    assert_eq!(a.etag().len(), 64);
    assert!(a.etag().chars().all(|c| c.is_ascii_hexdigit() && !c.is_ascii_uppercase()));
    let b = Artifact::from_file("weird.unknownext", vec![], None);
    assert_eq!(b.content_type, "application/octet-stream");
    assert_eq!(b.etag(), "e3b0c44298fc1c149afbf4c8996fb92427ae41e4649b934ca495991b7852b855");
}

#[test]
fn manifest_naming_an_absent_file_fails() {
    let files = vec![("index.html".to_string(), artifact("text/html", None, b"x"))];
    let manifest = vec![
        entry("index.html", "index.html", Some(true)),
        entry("src/main.ts", "assets/main-1.js", Some(true)),
    ];
    match StaticStore::build_index(files, &manifest) {
        Err(IndexError::MissingFile(f)) => assert_eq!(f, "assets/main-1.js"),
        Ok(_) => panic!("an index was built over a missing file"),
    }
}

#[test]
fn copies_of_a_server_share_the_store() {
    let server = ViteServe::new(scenario_store(), BuildMode::Production);
    let copy = server.duplicate();
    assert!(Arc::ptr_eq(&server.assets, &copy.assets));
    assert_eq!(copy.cache_strategy, CacheStrategy::Eager);
    let first = server.assets.resolve("index.html").unwrap();
    let second = copy.assets.resolve("index.html").unwrap();
    assert!(Arc::ptr_eq(&first.bytes, &second.bytes));
    assert_eq!(first.etag(), second.etag());
}

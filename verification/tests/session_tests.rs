use kotlin_analyzer::diagnostics::Diagnostic;
use kotlin_analyzer::diagnostics::Severity;
use kotlin_analyzer::session::DocumentStore;

fn test_uri(path: &str) -> String {
    format!("file:///{path}")
}

#[test]
fn open_and_retrieve() {
    let mut store = DocumentStore::default();
    let uri = test_uri("test.kt");
    store.open(uri.clone(), "fun main() {}".into(), 1);

    let doc = store.get(&uri).unwrap();
    assert_eq!(doc.text, "fun main() {}");
    assert_eq!(doc.version, 1);
}

#[test]
fn change_updates_content() {
    let mut store = DocumentStore::default();
    let uri = test_uri("test.kt");
    store.open(uri.clone(), "fun main() {}".into(), 1);

    assert!(store.change(&uri, "fun main() { println() }".into(), 2));
    let doc = store.get(&uri).unwrap();
    assert_eq!(doc.text, "fun main() { println() }");
    assert_eq!(doc.version, 2);
}

#[test]
fn change_nonexistent_returns_false() {
    let mut store = DocumentStore::default();
    let uri = test_uri("missing.kt");
    assert!(!store.change(&uri, "text".into(), 1));
}

#[test]
fn close_removes_document() {
    let mut store = DocumentStore::default();
    let uri = test_uri("test.kt");
    store.open(uri.clone(), "fun main() {}".into(), 1);

    assert!(store.close(&uri));
    assert!(store.get(&uri).is_none());
}

#[test]
fn close_nonexistent_returns_false() {
    let mut store = DocumentStore::default();
    let uri = test_uri("missing.kt");
    assert!(!store.close(&uri));
}

#[test]
fn is_open_tracks_state() {
    let mut store = DocumentStore::default();
    let uri = test_uri("test.kt");

    assert!(!store.is_open(&uri));
    store.open(uri.clone(), "text".into(), 1);
    assert!(store.is_open(&uri));
    store.close(&uri);
    assert!(!store.is_open(&uri));
}

#[test]
fn all_documents_iterates_open_docs() {
    let mut store = DocumentStore::default();
    store.open(test_uri("a.kt"), "a".into(), 1);
    store.open(test_uri("b.kt"), "b".into(), 1);
    store.open(test_uri("c.kt"), "c".into(), 1);

    assert_eq!(store.all_documents().len(), 3);
}

#[test]
fn multiple_changes() {
    let mut store = DocumentStore::default();
    let uri = test_uri("test.kt");
    store.open(uri.clone(), "v1".into(), 1);
    store.change(&uri, "v2".into(), 2);
    store.change(&uri, "v3".into(), 3);

    let doc = store.get(&uri).unwrap();
    assert_eq!(doc.text, "v3");
    assert_eq!(doc.version, 3);
}

#[test]
fn change_with_stale_version_is_ignored() {
    let mut store = DocumentStore::default();
    let uri = test_uri("test.kt");
    store.open(uri.clone(), "v3".into(), 3);

    // still reports the document as open, but the content stands
    assert!(store.change(&uri, "older".into(), 2));
    assert!(store.change(&uri, "same".into(), 3));
    let doc = store.get(&uri).unwrap();
    assert_eq!(doc.text, "v3");
    assert_eq!(doc.version, 3);
}

#[test]
fn reopen_replaces_content() {
    let mut store = DocumentStore::default();
    let uri = test_uri("test.kt");
    store.open(uri.clone(), "first".into(), 5);
    store.open(uri.clone(), "second".into(), 1);

    let doc = store.get(&uri).unwrap();
    assert_eq!(doc.text, "second");
    assert_eq!(doc.version, 1);
    assert_eq!(store.all_documents().len(), 1);
}

fn sample_diag(message: &str) -> Diagnostic {
    Diagnostic {
        line: 0,
        column: 0,
        end_line: 0,
        end_column: 1,
        severity: Severity::Error,
        message: message.into(),
        code: None,
    }
}

#[test]
fn diagnostics_persist_after_close() {
    let mut store = DocumentStore::default();
    let uri = test_uri("test.kt");
    store.open(uri.clone(), "text".into(), 1);
    store.set_diagnostics(uri.clone(), vec![sample_diag("type mismatch")]);

    assert!(store.close(&uri));
    let diags = store.get_diagnostics(&uri).unwrap();
    assert_eq!(diags.len(), 1);
    assert_eq!(diags[0].message, "type mismatch");
}

#[test]
fn set_diagnostics_replaces_cache() {
    let mut store = DocumentStore::default();
    let uri = test_uri("test.kt");
    store.set_diagnostics(uri.clone(), vec![sample_diag("a"), sample_diag("b")]);
    store.set_diagnostics(uri.clone(), vec![sample_diag("c")]);

    let diags = store.get_diagnostics(&uri).unwrap();
    assert_eq!(diags.len(), 1);
    assert_eq!(diags[0].message, "c");
    assert!(store.get_diagnostics(&test_uri("other.kt")).is_none());
}

#[test]
fn all_returns_uri_text_version_triples() {
    let mut store = DocumentStore::default();
    store.open(test_uri("a.kt"), "alpha".into(), 1);
    store.open(test_uri("b.kt"), "beta".into(), 2);

    let all = store.all();
    assert_eq!(all.len(), 2);
    assert_eq!(all[0].0, test_uri("a.kt"));
    assert_eq!(all[0].1.text, "alpha");
    assert_eq!(all[1].1.version, 2);
}

#[test]
fn replay_covers_all_open_documents() {
    let mut store = DocumentStore::default();
    store.open(test_uri("a.kt"), "fun a() {}".into(), 3);
    store.open(test_uri("b.kt"), "fun b() {}".into(), 1);

    let notifications = kotlin_analyzer::params::replay_notifications(&store.all());
    assert_eq!(notifications.len(), 2);
    for n in &notifications {
        assert!(n.id.is_none());
        assert_eq!(n.method, "textDocument/didOpen");
    }
    let p: serde_json::Value =
        serde_json::from_str(notifications[0].params.as_ref().unwrap()).unwrap();
    assert_eq!(p["uri"], "file:///a.kt");
    assert_eq!(p["version"], 3);
    assert_eq!(p["text"], "fun a() {}");
}

use adduce::errors::Error;
use adduce::manifest::Block;
use adduce::render::{export_document, render_block, DocStore, StoredDoc};

fn store(entries: Vec<(&str, Option<&str>)>) -> DocStore {
    DocStore {
        docs: entries
            .into_iter()
            .map(|(p, c)| StoredDoc {
                path: p.to_string(),
                content: c.map(|s| s.to_string()),
            })
            .collect(),
    }
}

fn chars(v: Vec<char>) -> String {
    v.into_iter().collect()
}

#[test]
fn unsupported_format_is_rejected() {
    let b = Block {
        content_file: Some("feed/documents/a.pdf".to_string()),
        format: Some("pdf".to_string()),
    };
    let s = store(vec![("feed/documents/a.pdf", Some("raw bytes"))]);
    match render_block(&b, &s) {
        Err(Error::UnsupportedFormat { format }) => assert_eq!(format, "pdf"),
        _ => panic!("an unrecognized format must fail, not pass bytes through"),
    }
}

#[test]
fn absent_format_is_rejected() {
    let b = Block {
        content_file: Some("feed/documents/a.md".to_string()),
        format: None,
    };
    let s = store(vec![("feed/documents/a.md", Some("# A"))]);
    assert!(matches!(render_block(&b, &s), Err(Error::FormatMissing)));
}

#[test]
fn block_without_content_file_renders_empty() {
    let b = Block {
        content_file: None,
        format: Some("md".to_string()),
    };
    let s = store(vec![]);
    assert_eq!(chars(render_block(&b, &s).unwrap()), "");
}

#[test]
fn unreadable_source_fails() {
    let b = Block {
        content_file: Some("feed/documents/gone.md".to_string()),
        format: Some("md".to_string()),
    };
    match render_block(&b, &store(vec![])) {
        Err(Error::SourceUnreadable { path }) => assert_eq!(path, "feed/documents/gone.md"),
        _ => panic!("missing source must fail"),
    }
    match render_block(&b, &store(vec![("feed/documents/gone.md", None)])) {
        Err(Error::SourceUnreadable { path }) => assert_eq!(path, "feed/documents/gone.md"),
        _ => panic!("unreadable source must fail"),
    }
}

#[test]
fn markdown_block_renders() {
    let b = Block {
        content_file: Some("feed/documents/a.md".to_string()),
        format: Some("md".to_string()),
    };
    let s = store(vec![("feed/documents/a.md", Some("# A"))]);
    assert_eq!(chars(render_block(&b, &s).unwrap()), "<h1>A</h1>\n");
}

#[test]
fn export_of_missing_document_fails() {
    let conf = "title = \"t\"\n".to_string();
    let s = store(vec![]);
    match export_document(&"missing-doc".to_string(), false, Some(&conf), &s) {
        Err(Error::DocumentNotFound { document }) => assert_eq!(document, "missing-doc"),
        _ => panic!("export of a missing document must fail and write nothing"),
    }
}

#[test]
fn export_without_manifest_fails() {
    let s = store(vec![("feed/documents/doc.md", Some("# D"))]);
    assert!(matches!(
        export_document(&"doc".to_string(), true, None, &s),
        Err(Error::ConfigMissing)
    ));
}

#[test]
fn export_renders_manifest_blocks_then_document() {
    let conf = "title = \"t\"\n[[main]]\nblock = [ { content_file = \"feed/documents/intro.md\", format = \"md\" } ]\n".to_string();
    let s = store(vec![
        ("feed/documents/intro.md", Some("intro text")),
        ("feed/documents/doc.md", Some("# Doc")),
    ]);
    let out = chars(export_document(&"doc".to_string(), true, Some(&conf), &s).unwrap());
    assert_eq!(out, "<p>intro text</p>\n<h1>Doc</h1>\n");
}

#[test]
fn export_with_absent_main_renders_only_the_document() {
    let conf = "title = \"t\"\n".to_string();
    let s = store(vec![("feed/documents/doc.md", Some("# Doc"))]);
    let out = chars(export_document(&"doc".to_string(), true, Some(&conf), &s).unwrap());
    assert_eq!(out, "<h1>Doc</h1>\n");
}

#[test]
fn export_twice_is_byte_identical() {
    let conf = "title = \"t\"\n".to_string();
    let s = store(vec![("feed/documents/doc.md", Some("# Doc\n\nbody *text*"))]);
    let a = chars(export_document(&"doc".to_string(), true, Some(&conf), &s).unwrap());
    let b = chars(export_document(&"doc".to_string(), true, Some(&conf), &s).unwrap());
    assert_eq!(a, b);
}

#[test]
fn export_aborts_on_first_failing_block() {
    let conf = "title = \"t\"\n[[main]]\nblock = [ { content_file = \"feed/documents/gone.md\", format = \"md\" } ]\n".to_string();
    let s = store(vec![("feed/documents/doc.md", Some("# Doc"))]);
    match export_document(&"doc".to_string(), true, Some(&conf), &s) {
        Err(Error::SourceUnreadable { path }) => assert_eq!(path, "feed/documents/gone.md"),
        _ => panic!("a failing block must abort the export"),
    }
}

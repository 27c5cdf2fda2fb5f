use adduce::config::manifest_from_source;
use adduce::errors::Error;

#[test]
fn full_manifest_loads() {
    let src = r#"
title = "My feed"
link = "https://example.org"
description = "notes"
language = "en"
copyright = "me"
managing_editor = "ed@example.org"
webmaster = "web@example.org"
ttl = "30"
"#;
    let m = manifest_from_source(src).expect("well-formed manifest");
    assert_eq!(m.title.as_deref(), Some("My feed"));
    assert_eq!(m.link.as_deref(), Some("https://example.org"));
    assert_eq!(m.description.as_deref(), Some("notes"));
    assert_eq!(m.language.as_deref(), Some("en"));
    assert_eq!(m.copyright.as_deref(), Some("me"));
    assert_eq!(m.managing_editor.as_deref(), Some("ed@example.org"));
    assert_eq!(m.webmaster.as_deref(), Some("web@example.org"));
    assert_eq!(m.ttl.as_deref(), Some("30"));
    assert!(m.main.is_none());
}

#[test]
fn absent_fields_stay_absent_and_empty_stays_empty() {
    let m = manifest_from_source("title = \"\"\n").unwrap();
    // Present-but-empty is distinguishable from absent.
    assert_eq!(m.title.as_deref(), Some(""));
    assert_eq!(m.link, None);
    assert_eq!(m.description, None);
}

#[test]
fn numeric_ttl_passes_through_as_text() {
    let m = manifest_from_source("ttl = 60\n").unwrap();
    assert_eq!(m.ttl.as_deref(), Some("60"));
    let m2 = manifest_from_source("ttl = -5\n").unwrap();
    assert_eq!(m2.ttl.as_deref(), Some("-5"));
}

#[test]
fn unrecognized_fields_are_ignored() {
    let m = manifest_from_source("title = \"t\"\nfuture_field = \"x\"\n").unwrap();
    assert_eq!(m.title.as_deref(), Some("t"));
}

#[test]
fn unparsable_source_is_malformed() {
    match manifest_from_source("title = ") {
        Err(Error::ConfigMalformed { .. }) => {}
        other => panic!("expected ConfigMalformed, got {:?}", discriminant_name(&other)),
    }
}

#[test]
fn wrong_value_kind_is_malformed_naming_the_field() {
    match manifest_from_source("title = 3\n") {
        Err(Error::ConfigMalformed { detail }) => assert_eq!(detail, "title"),
        other => panic!("expected ConfigMalformed, got {:?}", discriminant_name(&other)),
    }
    match manifest_from_source("ttl = true\n") {
        Err(Error::ConfigMalformed { detail }) => assert_eq!(detail, "ttl"),
        other => panic!("expected ConfigMalformed, got {:?}", discriminant_name(&other)),
    }
}

#[test]
fn main_sections_load_in_order() {
    let src = r#"
title = "t"

[[main]]
block = [
  { content_file = "feed/documents/a.md", format = "md" },
  { content_file = "feed/documents/b.md", format = "md" },
]
"#;
    let m = manifest_from_source(src).unwrap();
    let sections = m.main.expect("main present");
    assert_eq!(sections.len(), 1);
    let files: Vec<&str> = sections[0]
        .blocks
        .iter()
        .map(|b| b.content_file.as_deref().unwrap())
        .collect();
    assert_eq!(files, vec!["feed/documents/a.md", "feed/documents/b.md"]);
}

#[test]
fn section_without_blocks_is_empty() {
    let src = "[[main]]\n";
    let m = manifest_from_source(src).unwrap();
    let sections = m.main.unwrap();
    assert_eq!(sections.len(), 1);
    assert!(sections[0].blocks.is_empty());
}

#[test]
fn block_with_wrong_kind_is_malformed() {
    let src = "[[main]]\nblock = [ { content_file = 3 } ]\n";
    match manifest_from_source(src) {
        Err(Error::ConfigMalformed { detail }) => assert_eq!(detail, "content_file"),
        other => panic!("expected ConfigMalformed, got {:?}", discriminant_name(&other)),
    }
}

fn discriminant_name(r: &Result<adduce::manifest::Manifest, Error>) -> &'static str {
    match r {
        Ok(_) => "Ok",
        Err(Error::ConfigMissing) => "ConfigMissing",
        Err(Error::ConfigMalformed { .. }) => "ConfigMalformed",
        Err(Error::DocumentNotFound { .. }) => "DocumentNotFound",
        Err(Error::SourceUnreadable { .. }) => "SourceUnreadable",
        Err(Error::FormatMissing) => "FormatMissing",
        Err(Error::UnsupportedFormat { .. }) => "UnsupportedFormat",
        Err(Error::WriteFailed { .. }) => "WriteFailed",
        Err(Error::MissingFeedFields { .. }) => "MissingFeedFields",
    }
}

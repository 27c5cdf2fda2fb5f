use adduce::manifest::{with_appended_block, Block, Manifest, Section};

fn empty_manifest() -> Manifest {
    Manifest {
        title: None,
        link: None,
        description: None,
        language: None,
        copyright: None,
        managing_editor: None,
        webmaster: None,
        ttl: None,
        main: None,
    }
}

fn block(file: &str, format: &str) -> Block {
    Block {
        content_file: Some(file.to_string()),
        format: Some(format.to_string()),
    }
}

#[test]
fn append_creates_main_when_absent() {
    let m = empty_manifest();
    let b = block("feed/documents/a.md", "md");
    let r = with_appended_block(m, b);
    let sections = r.main.expect("main must be created");
    assert_eq!(sections.len(), 1);
    assert_eq!(sections[0].blocks.len(), 1);
    assert_eq!(
        sections[0].blocks[0].content_file.as_deref(),
        Some("feed/documents/a.md")
    );
    assert_eq!(sections[0].blocks[0].format.as_deref(), Some("md"));
}

#[test]
fn append_preserves_prior_blocks_in_order() {
    let mut m = empty_manifest();
    m.main = Some(vec![Section {
        blocks: vec![block("one.md", "md"), block("two.md", "md")],
    }]);
    let r = with_appended_block(m, block("three.md", "md"));
    let sections = r.main.expect("main stays present");
    assert_eq!(sections.len(), 1);
    let files: Vec<&str> = sections[0]
        .blocks
        .iter()
        .map(|b| b.content_file.as_deref().unwrap())
        .collect();
    assert_eq!(files, vec!["one.md", "two.md", "three.md"]);
}

#[test]
fn append_to_empty_section_list_creates_one_section() {
    let mut m = empty_manifest();
    m.main = Some(Vec::new());
    let r = with_appended_block(m, block("only.md", "md"));
    let sections = r.main.unwrap();
    assert_eq!(sections.len(), 1);
    assert_eq!(sections[0].blocks.len(), 1);
    assert_eq!(sections[0].blocks[0].content_file.as_deref(), Some("only.md"));
}

#[test]
fn append_keeps_metadata_untouched() {
    let mut m = empty_manifest();
    m.title = Some("My feed".to_string());
    m.ttl = Some("60".to_string());
    let r = with_appended_block(m, block("a.md", "md"));
    assert_eq!(r.title.as_deref(), Some("My feed"));
    assert_eq!(r.ttl.as_deref(), Some("60"));
    assert_eq!(r.link, None);
}

#[test]
fn append_goes_to_last_section() {
    let mut m = empty_manifest();
    m.main = Some(vec![
        Section {
            blocks: vec![block("first.md", "md")],
        },
        Section {
            blocks: vec![block("second.md", "md")],
        },
    ]);
    let r = with_appended_block(m, block("new.md", "md"));
    let sections = r.main.unwrap();
    assert_eq!(sections.len(), 2);
    assert_eq!(sections[0].blocks.len(), 1);
    assert_eq!(sections[1].blocks.len(), 2);
    assert_eq!(
        sections[1].blocks[1].content_file.as_deref(),
        Some("new.md")
    );
}

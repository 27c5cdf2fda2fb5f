use adduce::errors::Error;
use adduce::feed::{missing_fields_message, synthesize_feed_document, DocumentText};

fn docs(entries: Vec<(&str, &str)>) -> Vec<DocumentText> {
    entries
        .into_iter()
        .map(|(n, c)| DocumentText {
            name: n.to_string(),
            content: c.to_string(),
        })
        .collect()
}

#[test]
fn feed_without_manifest_fails() {
    assert!(matches!(
        synthesize_feed_document(None, &docs(vec![])),
        Err(Error::ConfigMissing)
    ));
}

#[test]
fn missing_link_and_description_are_reported_together() {
    let conf = "title = \"t\"\n".to_string();
    match synthesize_feed_document(Some(&conf), &docs(vec![])) {
        Err(Error::MissingFeedFields { fields }) => {
            assert_eq!(fields, vec!["link".to_string(), "description".to_string()]);
            let message = missing_fields_message(&fields);
            assert!(message.contains("link"));
            assert!(message.contains("description"));
            assert_eq!(
                message,
                "RSS feed not generated. Missing required fields: link, description."
            );
        }
        _ => panic!("feed synthesis without link and description must fail"),
    }
}

#[test]
fn all_three_missing_are_reported_together() {
    let conf = "language = \"en\"\n".to_string();
    match synthesize_feed_document(Some(&conf), &docs(vec![])) {
        Err(Error::MissingFeedFields { fields }) => {
            assert_eq!(
                fields,
                vec![
                    "title".to_string(),
                    "link".to_string(),
                    "description".to_string()
                ]
            );
        }
        _ => panic!("feed synthesis without required fields must fail"),
    }
}

#[test]
fn three_documents_give_three_entries_with_raw_content() {
    let conf =
        "title = \"My feed\"\nlink = \"https://example.org\"\ndescription = \"notes\"\n"
            .to_string();
    let listing = docs(vec![
        ("a.md", "# A\nraw *markdown* stays raw"),
        ("b.md", "plain"),
        ("c.md", ""),
    ]);
    let xml = synthesize_feed_document(Some(&conf), &listing).unwrap();
    let channel = rss::Channel::read_from(xml.as_bytes()).expect("well-formed feed");
    assert_eq!(channel.title, "My feed");
    assert_eq!(channel.link, "https://example.org");
    assert_eq!(channel.description, "notes");
    assert_eq!(channel.generator.as_deref(), Some("Adduce"));
    assert_eq!(channel.items.len(), 3);
    assert_eq!(channel.items[0].title.as_deref(), Some("a.md"));
    assert_eq!(
        channel.items[0].description.as_deref(),
        Some("# A\nraw *markdown* stays raw")
    );
    assert_eq!(channel.items[1].title.as_deref(), Some("b.md"));
    assert_eq!(channel.items[1].description.as_deref(), Some("plain"));
    assert_eq!(channel.items[2].title.as_deref(), Some("c.md"));
}

#[test]
fn optional_channel_fields_pass_through_verbatim() {
    let conf = "title = \"t\"\nlink = \"l\"\ndescription = \"d\"\nlanguage = \"en\"\ncopyright = \"me\"\nmanaging_editor = \"ed\"\nwebmaster = \"web\"\nttl = 60\n".to_string();
    let xml = synthesize_feed_document(Some(&conf), &docs(vec![])).unwrap();
    let channel = rss::Channel::read_from(xml.as_bytes()).unwrap();
    assert_eq!(channel.language.as_deref(), Some("en"));
    assert_eq!(channel.copyright.as_deref(), Some("me"));
    assert_eq!(channel.managing_editor.as_deref(), Some("ed"));
    assert_eq!(channel.webmaster.as_deref(), Some("web"));
    assert_eq!(channel.ttl.as_deref(), Some("60"));
    assert_eq!(channel.items.len(), 0);
}

#[test]
fn malformed_manifest_fails_feed_synthesis() {
    let conf = "title = ".to_string();
    assert!(matches!(
        synthesize_feed_document(Some(&conf), &docs(vec![])),
        Err(Error::ConfigMalformed { .. })
    ));
}

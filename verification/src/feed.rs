//! The feed synthesizer.
//!
//! Every document in the store becomes one feed entry carrying its filename
//! as title and its raw, unrendered content as description.  The manifest's
//! required fields are validated together — every missing name is reported
//! in one message — and the channel's optional fields pass through verbatim.

use vstd::prelude::*;

use crate::config::manifest_source_spec;
use crate::config::manifest_from_source;
use crate::errors::{result_v, Error, ErrorV};
use crate::manifest::ManifestV;

verus! {

/// One source document as the feed synthesizer sees it: its filename and
/// its full raw content.
#[derive(Debug)]
pub struct DocumentText {
    pub name: String,
    pub content: String,
}

/// Mathematical model of a `DocumentText`.
#[verifier::ext_equal]
pub ghost struct DocumentTextV {
    pub name: Seq<char>,
    pub content: Seq<char>,
}

impl DeepView for DocumentText {
    type V = DocumentTextV;

    open spec fn deep_view(&self) -> DocumentTextV {
        DocumentTextV { name: self.name@, content: self.content@ }
    }
}

/// One syndication item: a document's filename and its raw content.
#[derive(Debug)]
pub struct FeedEntry {
    pub title: String,
    pub description: String,
}

/// Mathematical model of a `FeedEntry`.
#[verifier::ext_equal]
pub ghost struct FeedEntryV {
    pub title: Seq<char>,
    pub description: Seq<char>,
}

impl DeepView for FeedEntry {
    type V = FeedEntryV;

    open spec fn deep_view(&self) -> FeedEntryV {
        FeedEntryV { title: self.title@, description: self.description@ }
    }
}

/// The entries derived from a run of documents, in listing order: title is
/// the filename, description the raw content, never cached and never
/// rendered.
pub open spec fn entries_of(docs: Seq<DocumentTextV>) -> Seq<FeedEntryV> {
    docs.map_values(|d: DocumentTextV| FeedEntryV { title: d.name, description: d.content })
}

/// Derives one feed entry per document, fresh from the given listing.
pub fn feed_entries(docs: &Vec<DocumentText>) -> (r: Vec<FeedEntry>)
    ensures
        r.deep_view() == entries_of(docs.deep_view()),
{
    let mut r: Vec<FeedEntry> = Vec::new();
    let mut i: usize = 0;
    proof {
        assert(r.deep_view() =~= entries_of(docs.deep_view().take(0)));
    }
    while i < docs.len()
        invariant
            i <= docs.len(),
            r.deep_view() == entries_of(docs.deep_view().take(i as int)),
        decreases docs.len() - i,
    {
        let ghost rv = r.deep_view();
        let e = FeedEntry { title: docs[i].name.clone(), description: docs[i].content.clone() };
        let ghost ev = e.deep_view();
        r.push(e);
        proof {
            assert(r.deep_view() =~= rv.push(ev));
            assert(ev == FeedEntryV {
                title: docs.deep_view()[i as int].name,
                description: docs.deep_view()[i as int].content,
            });
            assert(entries_of(docs.deep_view().take(i as int + 1)) =~= entries_of(
                docs.deep_view().take(i as int),
            ).push(ev));
        }
        i = i + 1;
    }
    proof {
        assert(docs.deep_view().take(docs.deep_view().len() as int) =~= docs.deep_view());
    }
    r
}

/// The required-field names absent from a manifest, in manifest field
/// order: all of them together, not only the first.
pub open spec fn missing_fields_spec(m: ManifestV) -> Seq<Seq<char>> {
    (if m.title is None {
        seq!["title"@]
    } else {
        Seq::empty()
    }) + (if m.link is None {
        seq!["link"@]
    } else {
        Seq::empty()
    }) + (if m.description is None {
        seq!["description"@]
    } else {
        Seq::empty()
    })
}

/// Collects every missing required field name of a manifest.
pub fn missing_fields(m: &crate::manifest::Manifest) -> (r: Vec<String>)
    ensures
        r.deep_view() == missing_fields_spec(m.deep_view()),
{
    let mut r: Vec<String> = Vec::new();
    if m.title.is_none() {
        r.push(String::from_str("title"));
    }
    if m.link.is_none() {
        r.push(String::from_str("link"));
    }
    if m.description.is_none() {
        r.push(String::from_str("description"));
    }
    proof {
        assert(r.deep_view() =~= missing_fields_spec(m.deep_view()));
    }
    r
}

/// The field names joined with commas.
pub open spec fn joined(fields: Seq<Seq<char>>) -> Seq<char>
    decreases fields.len(),
{
    if fields.len() == 0 {
        Seq::empty()
    } else if fields.len() == 1 {
        fields[0]
    } else {
        fields[0] + ", "@ + joined(fields.skip(1))
    }
}

/// Appends `fields[i..]` to `out`, comma separated.
fn append_joined(out: &mut String, fields: &Vec<String>, i: usize)
    requires
        i <= fields.len(),
    ensures
        final(out)@ == old(out)@ + joined(fields.deep_view().skip(i as int)),
    decreases fields.len() - i,
{
    let ghost tail = fields.deep_view().skip(i as int);
    if i >= fields.len() {
        proof {
            assert(old(out)@ + joined(tail) =~= old(out)@);
        }
        return ;
    }
    proof {
        assert(tail[0] == fields.deep_view()[i as int]);
        assert(fields.deep_view()[i as int] == fields@[i as int]@);
    }
    out.append(fields[i].as_str());
    if i + 1 < fields.len() {
        out.append(", ");
        append_joined(out, fields, i + 1);
        proof {
            assert(tail.skip(1) =~= fields.deep_view().skip(i as int + 1));
            assert(joined(tail) == tail[0] + ", "@ + joined(tail.skip(1)));
            assert(old(out)@ + (tail[0] + ", "@ + joined(tail.skip(1))) =~= ((old(out)@ + tail[0])
                + ", "@) + joined(tail.skip(1)));
        }
    } else {
        proof {
            assert(tail.len() == 1);
            assert(joined(tail) == tail[0]);
        }
    }
}

/// The one message reporting every missing required field together.
pub open spec fn missing_message_spec(fields: Seq<Seq<char>>) -> Seq<char> {
    "RSS feed not generated. Missing required fields: "@ + joined(fields) + "."@
}

/// Builds the message naming every missing required field.
pub fn missing_fields_message(fields: &Vec<String>) -> (r: String)
    ensures
        r@ == missing_message_spec(fields.deep_view()),
{
    let mut r = String::from_str("RSS feed not generated. Missing required fields: ");
    proof {
        assert(fields.deep_view().skip(0) =~= fields.deep_view());
    }
    append_joined(&mut r, fields, 0);
    r.append(".");
    r
}

/// What the feed serializer returns for given channel fields, generator
/// identity and entries; the document is a function of these alone.
pub uninterp spec fn rss_document_of(
    title: Seq<char>,
    link: Seq<char>,
    description: Seq<char>,
    language: Option<Seq<char>>,
    copyright: Option<Seq<char>>,
    managing_editor: Option<Seq<char>>,
    webmaster: Option<Seq<char>>,
    ttl: Option<Seq<char>>,
    generator: Seq<char>,
    items: Seq<FeedEntryV>,
) -> Seq<char>;

/// Relies on `rss::Channel` and `rss::Item` (plain record constructors) and
/// on `rss::Channel`'s XML serializer, reached through `Display`: the
/// serialized feed depends on the channel fields and items alone.  Absent
/// optional fields are omitted from the output by the serializer.
#[verifier::external_body]
fn rss_render(
    title: &String,
    link: &String,
    description: &String,
    language: &Option<String>,
    copyright: &Option<String>,
    managing_editor: &Option<String>,
    webmaster: &Option<String>,
    ttl: &Option<String>,
    generator: &String,
    entries: &Vec<FeedEntry>,
) -> (r: String)
    ensures
        r@ == rss_document_of(
            title@,
            link@,
            description@,
            language.deep_view(),
            copyright.deep_view(),
            managing_editor.deep_view(),
            webmaster.deep_view(),
            ttl.deep_view(),
            generator@,
            entries.deep_view(),
        ),
{
    let items: Vec<rss::Item> = entries.iter().map(|e| rss::Item {
        title: Some(e.title.clone()), description: Some(e.description.clone()), ..Default::default()
    }).collect();
    let channel = rss::Channel {
        title: title.clone(), link: link.clone(), description: description.clone(),
        language: language.clone(), copyright: copyright.clone(),
        managing_editor: managing_editor.clone(), webmaster: webmaster.clone(),
        ttl: ttl.clone(), generator: Some(generator.clone()), items,
        ..Default::default()
    };
    channel.to_string()
}

/// What synthesizing the feed yields: the manifest must exist and load, its
/// required fields must all be present — every absent one is reported,
/// together — and the serialized channel carries the optional fields
/// verbatim, the generator identity, and one entry per document in listing
/// order.
pub open spec fn feed_document_spec(conf: Option<Seq<char>>, docs: Seq<DocumentTextV>) -> Result<
    Seq<char>,
    ErrorV,
> {
    match conf {
        None => Err(ErrorV::ConfigMissing),
        Some(source) => match manifest_source_spec(source) {
            Err(e) => Err(e),
            Ok(m) => if m.title is None || m.link is None || m.description is None {
                Err(ErrorV::MissingFeedFields { fields: missing_fields_spec(m) })
            } else {
                Ok(
                    rss_document_of(
                        m.title->0,
                        m.link->0,
                        m.description->0,
                        m.language,
                        m.copyright,
                        m.managing_editor,
                        m.webmaster,
                        m.ttl,
                        "Adduce"@,
                        entries_of(docs),
                    ),
                )
            },
        },
    }
}

/// Synthesizes the complete feed document from the manifest source text and
/// the current document listing.
pub fn synthesize_feed_document(conf_source: Option<&String>, docs: &Vec<DocumentText>) -> (r:
    Result<String, Error>)
    ensures
        result_v(r) == feed_document_spec(conf_source.deep_view(), docs.deep_view()),
{
    let source = match conf_source {
        None => {
            return Err(Error::ConfigMissing);
        },
        Some(s) => s,
    };
    let m = match manifest_from_source(source.as_str()) {
        Err(e) => {
            return Err(e);
        },
        Ok(m) => m,
    };
    let absent = missing_fields(&m);
    if absent.len() > 0 {
        proof {
            assert(missing_fields_spec(m.deep_view()).len() > 0);
            assert(m.deep_view().title is None || m.deep_view().link is None
                || m.deep_view().description is None);
        }
        return Err(Error::MissingFeedFields { fields: absent });
    }
    proof {
        assert(missing_fields_spec(m.deep_view()).len() == 0);
        assert(m.deep_view().title is Some && m.deep_view().link is Some && m.deep_view().description is Some);
    }
    let title = match &m.title {
        Some(t) => t,
        None => {
            proof {
                assert(false);
            }
            return Err(Error::ConfigMissing);
        },
    };
    let link = match &m.link {
        Some(l) => l,
        None => {
            proof {
                assert(false);
            }
            return Err(Error::ConfigMissing);
        },
    };
    let description = match &m.description {
        Some(d) => d,
        None => {
            proof {
                assert(false);
            }
            return Err(Error::ConfigMissing);
        },
    };
    let entries = feed_entries(docs);
    let generator = String::from_str("Adduce");
    let xml = rss_render(
        title,
        link,
        description,
        &m.language,
        &m.copyright,
        &m.managing_editor,
        &m.webmaster,
        &m.ttl,
        &generator,
        &entries,
    );
    Ok(xml)
}

/// A manifest that loads but misses both `link` and `description` (with
/// `title` present) makes feed synthesis fail, reporting exactly those two
/// field names, together and in order.
pub proof fn lemma_missing_link_and_description(
    source: Seq<char>,
    docs: Seq<DocumentTextV>,
    m: ManifestV,
)
    requires
        manifest_source_spec(source) == Ok::<ManifestV, ErrorV>(m),
        m.title is Some,
        m.link is None,
        m.description is None,
    ensures
        feed_document_spec(Some(source), docs) == Err::<Seq<char>, _>(
            ErrorV::MissingFeedFields { fields: seq!["link"@, "description"@] },
        ),
{
    assert(missing_fields_spec(m) =~= seq!["link"@, "description"@]);
}

/// Feed entries round-trip their documents: one entry per document, in
/// listing order, with title the filename and description the exact raw
/// content, unrendered.
pub proof fn lemma_entries_round_trip(docs: Seq<DocumentTextV>)
    ensures
        entries_of(docs).len() == docs.len(),
        forall|i: int|
            0 <= i < docs.len() ==> entries_of(docs)[i].title == docs[i].name && entries_of(
                docs,
            )[i].description == docs[i].content,
{
}

} // verus!

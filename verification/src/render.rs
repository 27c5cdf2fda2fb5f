//! The block renderer and the export pipeline.
//!
//! A block renders to an HTML fragment according to its format tag; an
//! export request expands into the manifest's blocks plus a synthetic block
//! for the requested document, rendered in order and concatenated.  Source
//! file contents are handed in as a snapshot, so the result is a function of
//! the request, the manifest source and that snapshot alone; either every
//! block renders and the whole page is produced, or the first failure aborts
//! the export with nothing produced.

use vstd::prelude::*;

use crate::config::manifest_source_spec;
use crate::config::manifest_from_source;
use crate::errors::{result_v, Error, ErrorV};
use crate::manifest::{
    blocks_of_manifest, blocks_of_sections, with_appended_block, with_appended_block_spec, Block,
    BlockV, Manifest, ManifestV, Section, SectionV,
};
use crate::markdown::{markdown_html, markdown_of_str};
use crate::paths::{document_path, document_path_spec};

verus! {

/// One source document as the export pipeline sees it: its path and its
/// content, absent when the file could not be read.
#[derive(Debug)]
pub struct StoredDoc {
    pub path: String,
    pub content: Option<String>,
}

/// Mathematical model of a `StoredDoc`.
#[verifier::ext_equal]
pub ghost struct StoredDocV {
    pub path: Seq<char>,
    pub content: Option<Seq<char>>,
}

impl DeepView for StoredDoc {
    type V = StoredDocV;

    open spec fn deep_view(&self) -> StoredDocV {
        StoredDocV { path: self.path@, content: self.content.deep_view() }
    }
}

/// A snapshot of the document store: the files the pipeline may read.
#[derive(Debug)]
pub struct DocStore {
    pub docs: Vec<StoredDoc>,
}

impl DeepView for DocStore {
    type V = Seq<StoredDocV>;

    open spec fn deep_view(&self) -> Seq<StoredDocV> {
        self.docs.deep_view()
    }
}

/// The content recorded for `path`: `None` when the path is not in the
/// snapshot, `Some(None)` when it is there but unreadable.
pub open spec fn store_lookup(docs: Seq<StoredDocV>, path: Seq<char>) -> Option<Option<Seq<char>>>
    decreases docs.len(),
{
    if docs.len() == 0 {
        None
    } else if docs[0].path == path {
        Some(docs[0].content)
    } else {
        store_lookup(docs.skip(1), path)
    }
}

/// A vector of characters models itself.
pub proof fn lemma_chars_deep_view(v: Vec<char>)
    ensures
        v.deep_view() =~= v@,
{
}

/// What rendering one block yields: an absent format fails, an unrecognized
/// format fails rather than passing raw bytes through, a block without a
/// content file renders empty, an unreadable source fails, and a readable
/// Markdown source renders to its HTML fragment.
pub open spec fn render_block_spec(b: BlockV, store: Seq<StoredDocV>) -> Result<
    Seq<char>,
    ErrorV,
> {
    match b.format {
        None => Err(ErrorV::FormatMissing),
        Some(f) => if f != "md"@ {
            Err(ErrorV::UnsupportedFormat { format: f })
        } else {
            match b.content_file {
                None => Ok(Seq::empty()),
                Some(p) => match store_lookup(store, p) {
                    Some(Some(text)) => Ok(markdown_html(text)),
                    _ => Err(ErrorV::SourceUnreadable { path: p }),
                },
            }
        },
    }
}

/// The concatenated rendering of a run of blocks, in order; the first
/// failure aborts the run.
pub open spec fn render_blocks_spec(bs: Seq<BlockV>, store: Seq<StoredDocV>) -> Result<
    Seq<char>,
    ErrorV,
>
    decreases bs.len(),
{
    if bs.len() == 0 {
        Ok(Seq::empty())
    } else {
        match render_block_spec(bs[0], store) {
            Err(e) => Err(e),
            Ok(h) => match render_blocks_spec(bs.skip(1), store) {
                Err(e) => Err(e),
                Ok(rest) => Ok(h + rest),
            },
        }
    }
}

/// Rendering a concatenation renders both runs in order; an error in the
/// first run wins.
pub proof fn lemma_render_blocks_concat(a: Seq<BlockV>, b: Seq<BlockV>, store: Seq<StoredDocV>)
    ensures
        render_blocks_spec(a + b, store) == (match render_blocks_spec(a, store) {
            Err(e) => Err::<Seq<char>, ErrorV>(e),
            Ok(ha) => match render_blocks_spec(b, store) {
                Err(e) => Err(e),
                Ok(hb) => Ok(ha + hb),
            },
        }),
    decreases a.len(),
{
    if a.len() == 0 {
        assert(a + b =~= b);
        match render_blocks_spec(b, store) {
            Err(e) => {},
            Ok(hb) => {
                assert(Seq::<char>::empty() + hb =~= hb);
            },
        }
    } else {
        lemma_render_blocks_concat(a.skip(1), b, store);
        assert((a + b)[0] == a[0]);
        assert((a + b).skip(1) =~= a.skip(1) + b);
        match render_block_spec(a[0], store) {
            Err(e) => {},
            Ok(h) => {
                match render_blocks_spec(a.skip(1), store) {
                    Err(e) => {},
                    Ok(rest) => {
                        match render_blocks_spec(b, store) {
                            Err(e) => {},
                            Ok(hb) => {
                                assert(h + (rest + hb) =~= (h + rest) + hb);
                            },
                        }
                    },
                }
            },
        }
    }
}

/// The rendering of a whole manifest: all its blocks, section by section,
/// in manifest order.
pub open spec fn render_manifest_spec(m: ManifestV, store: Seq<StoredDocV>) -> Result<
    Seq<char>,
    ErrorV,
> {
    render_blocks_spec(blocks_of_manifest(m), store)
}

/// What exporting a document yields: the document must exist, the manifest
/// must load, and the manifest's blocks followed by a synthetic Markdown
/// block for the document render in order into one page.
pub open spec fn export_spec(
    document_id: Seq<char>,
    doc_exists: bool,
    conf: Option<Seq<char>>,
    store: Seq<StoredDocV>,
) -> Result<Seq<char>, ErrorV> {
    if !doc_exists {
        Err(ErrorV::DocumentNotFound { document: document_id })
    } else {
        match conf {
            None => Err(ErrorV::ConfigMissing),
            Some(source) => match manifest_source_spec(source) {
                Err(e) => Err(e),
                Ok(m) => {
                    let b = BlockV {
                        content_file: Some(document_path_spec(document_id)),
                        format: Some("md"@),
                    };
                    render_manifest_spec(with_appended_block_spec(m, b), store)
                },
            },
        }
    }
}

/// The stored document under `path`, by reference.
fn store_find<'a>(store: &'a DocStore, path: &String) -> (r: Option<&'a StoredDoc>)
    ensures
        match r {
            Some(d) => store_lookup(store.deep_view(), path@) == Some(d.content.deep_view()),
            None => store_lookup(store.deep_view(), path@) is None,
        },
{
    let mut i: usize = 0;
    proof {
        assert(store.deep_view().skip(0) =~= store.deep_view());
    }
    while i < store.docs.len()
        invariant
            i <= store.docs.len(),
            store_lookup(store.deep_view(), path@) == store_lookup(
                store.deep_view().skip(i as int),
                path@,
            ),
        decreases store.docs.len() - i,
    {
        if store.docs[i].path == *path {
            return Some(&store.docs[i]);
        }
        proof {
            assert(store.deep_view().skip(i as int).skip(1) =~= store.deep_view().skip(
                i as int + 1,
            ));
        }
        i = i + 1;
    }
    None
}

/// Renders one block to its HTML fragment.
pub fn render_block(b: &Block, store: &DocStore) -> (r: Result<Vec<char>, Error>)
    ensures
        result_v(r) == render_block_spec(b.deep_view(), store.deep_view()),
{
    match &b.format {
        None => Err(Error::FormatMissing),
        Some(f) => {
            let md = String::from_str("md");
            if !(*f == md) {
                return Err(Error::UnsupportedFormat { format: f.clone() });
            }
            match &b.content_file {
                None => {
                    let empty: Vec<char> = Vec::new();
                    proof {
                        assert(empty.deep_view() =~= Seq::<char>::empty());
                    }
                    Ok(empty)
                },
                Some(p) => match store_find(store, p) {
                    None => Err(Error::SourceUnreadable { path: p.clone() }),
                    Some(d) => match &d.content {
                        None => Err(Error::SourceUnreadable { path: p.clone() }),
                        Some(text) => {
                            let h = markdown_of_str(text.as_str());
                            proof {
                                lemma_chars_deep_view(h);
                            }
                            Ok(h)
                        },
                    },
                },
            }
        },
    }
}

/// Renders a run of blocks in order, concatenating the fragments.
fn render_blocks(bs: &Vec<Block>, store: &DocStore) -> (r: Result<Vec<char>, Error>)
    ensures
        result_v(r) == render_blocks_spec(bs.deep_view(), store.deep_view()),
{
    let ghost sv = store.deep_view();
    let mut out: Vec<char> = Vec::new();
    let mut i: usize = 0;
    proof {
        assert(bs.deep_view().skip(0) =~= bs.deep_view());
        if render_blocks_spec(bs.deep_view(), sv) is Ok {
            assert(out@ + render_blocks_spec(bs.deep_view(), sv)->Ok_0 =~= render_blocks_spec(
                bs.deep_view(),
                sv,
            )->Ok_0);
        }
    }
    while i < bs.len()
        invariant
            i <= bs.len(),
            sv == store.deep_view(),
            render_blocks_spec(bs.deep_view(), sv) == match render_blocks_spec(
                bs.deep_view().skip(i as int),
                sv,
            ) {
                Ok(rest) => Ok::<_, ErrorV>(out@ + rest),
                Err(e) => Err::<Seq<char>, _>(e),
            },
        decreases bs.len() - i,
    {
        proof {
            assert(bs.deep_view().skip(i as int)[0] == bs.deep_view()[i as int]);
            assert(bs.deep_view().skip(i as int).skip(1) =~= bs.deep_view().skip(i as int + 1));
        }
        match render_block(&bs[i], store) {
            Err(e) => {
                return Err(e);
            },
            Ok(mut h) => {
                let ghost outv = out@;
                let ghost hv = h.deep_view();
                proof {
                    lemma_chars_deep_view(h);
                }
                out.append(&mut h);
                proof {
                    if render_blocks_spec(bs.deep_view().skip(i as int + 1), sv) is Ok {
                        let rest = render_blocks_spec(bs.deep_view().skip(i as int + 1), sv)->Ok_0;
                        assert(outv + (hv + rest) =~= out@ + rest);
                    }
                }
            },
        }
        i = i + 1;
    }
    proof {
        assert(bs.deep_view().skip(bs.deep_view().len() as int) =~= Seq::<BlockV>::empty());
        lemma_chars_deep_view(out);
        if render_blocks_spec(bs.deep_view(), sv) is Ok {
            assert(render_blocks_spec(bs.deep_view(), sv)->Ok_0 =~= out.deep_view());
        }
    }
    Ok(out)
}

/// Renders every section of a manifest in order, every block within a
/// section in order, concatenating all fragments into one page body.
pub fn render_manifest(m: &Manifest, store: &DocStore) -> (r: Result<Vec<char>, Error>)
    ensures
        result_v(r) == render_manifest_spec(m.deep_view(), store.deep_view()),
{
    let ghost sv = store.deep_view();
    match &m.main {
        None => {
            let empty: Vec<char> = Vec::new();
            proof {
                assert(empty.deep_view() =~= Seq::<char>::empty());
            }
            Ok(empty)
        },
        Some(ss) => {
            let mut out: Vec<char> = Vec::new();
            let mut k: usize = 0;
            proof {
                assert(ss.deep_view().skip(0) =~= ss.deep_view());
                if render_blocks_spec(blocks_of_sections(ss.deep_view()), sv) is Ok {
                    assert(out@ + render_blocks_spec(blocks_of_sections(ss.deep_view()), sv)->Ok_0
                        =~= render_blocks_spec(blocks_of_sections(ss.deep_view()), sv)->Ok_0);
                }
            }
            while k < ss.len()
                invariant
                    k <= ss.len(),
                    sv == store.deep_view(),
                    m.deep_view().main == Some(ss.deep_view()),
                    render_blocks_spec(blocks_of_sections(ss.deep_view()), sv)
                        == match render_blocks_spec(
                        blocks_of_sections(ss.deep_view().skip(k as int)),
                        sv,
                    ) {
                        Ok(rest) => Ok::<_, ErrorV>(out@ + rest),
                        Err(e) => Err::<Seq<char>, _>(e),
                    },
                decreases ss.len() - k,
            {
                proof {
                    let tailss = ss.deep_view().skip(k as int);
                    assert(tailss[0] == ss.deep_view()[k as int]);
                    assert(tailss.skip(1) =~= ss.deep_view().skip(k as int + 1));
                    assert(blocks_of_sections(tailss) == ss.deep_view()[k as int].blocks
                        + blocks_of_sections(ss.deep_view().skip(k as int + 1)));
                    lemma_render_blocks_concat(
                        ss.deep_view()[k as int].blocks,
                        blocks_of_sections(ss.deep_view().skip(k as int + 1)),
                        sv,
                    );
                    assert(ss.deep_view()[k as int].blocks == ss[k as int].blocks.deep_view());
                }
                match render_blocks(&ss[k].blocks, store) {
                    Err(e) => {
                        proof {
                            assert(render_blocks_spec(ss.deep_view()[k as int].blocks, sv)
                                == Err::<Seq<char>, ErrorV>(e.deep_view()));
                            assert(render_blocks_spec(
                                blocks_of_sections(ss.deep_view().skip(k as int)),
                                sv,
                            ) == Err::<Seq<char>, ErrorV>(e.deep_view()));
                            assert(render_blocks_spec(blocks_of_sections(ss.deep_view()), sv)
                                == Err::<Seq<char>, ErrorV>(e.deep_view()));
                        }
                        return Err(e);
                    },
                    Ok(mut h) => {
                        let ghost outv = out@;
                        let ghost hv = h.deep_view();
                        proof {
                            lemma_chars_deep_view(h);
                        }
                        out.append(&mut h);
                        proof {
                            if render_blocks_spec(
                                blocks_of_sections(ss.deep_view().skip(k as int + 1)),
                                sv,
                            ) is Ok {
                                let rest = render_blocks_spec(
                                    blocks_of_sections(ss.deep_view().skip(k as int + 1)),
                                    sv,
                                )->Ok_0;
                                assert(outv + (hv + rest) =~= out@ + rest);
                            }
                        }
                    },
                }
                k = k + 1;
            }
            proof {
                assert(ss.deep_view().skip(ss.deep_view().len() as int)
                    =~= Seq::<SectionV>::empty());
                lemma_chars_deep_view(out);
                if render_blocks_spec(blocks_of_sections(ss.deep_view()), sv) is Ok {
                    assert(render_blocks_spec(blocks_of_sections(ss.deep_view()), sv)->Ok_0
                        =~= out.deep_view());
                }
            }
            Ok(out)
        },
    }
}

/// Expands an export request into a rendered page body.
///
/// `doc_exists` says whether the requested source document exists;
/// `conf_source` is the manifest source text, absent when the manifest
/// resource does not exist; `store` is the snapshot of readable source
/// files.  The result is the whole page on success, and otherwise exactly
/// the first failure of the pipeline, with nothing produced.
pub fn export_document(
    document_id: &String,
    doc_exists: bool,
    conf_source: Option<&String>,
    store: &DocStore,
) -> (r: Result<Vec<char>, Error>)
    ensures
        result_v(r) == export_spec(
            document_id@,
            doc_exists,
            conf_source.deep_view(),
            store.deep_view(),
        ),
{
    if !doc_exists {
        return Err(Error::DocumentNotFound { document: document_id.clone() });
    }
    let source = match conf_source {
        None => {
            return Err(Error::ConfigMissing);
        },
        Some(s) => s,
    };
    let m = match manifest_from_source(source.as_str()) {
        Err(e) => {
            return Err(e);
        },
        Ok(m) => m,
    };
    let b = Block {
        content_file: Some(document_path(document_id.as_str())),
        format: Some(String::from_str("md")),
    };
    let expanded = with_appended_block(m, b);
    render_manifest(&expanded, store)
}

/// Rendering a block whose declared format is not recognized always fails
/// with `UnsupportedFormat`, never passing raw bytes through.
pub proof fn lemma_unrecognized_format_fails(b: BlockV, store: Seq<StoredDocV>)
    requires
        b.format matches Some(f) && f != "md"@,
    ensures
        render_block_spec(b, store) == Err::<Seq<char>, _>(
            ErrorV::UnsupportedFormat { format: b.format->0 },
        ),
{
}

/// Exporting a document that does not exist fails with `DocumentNotFound`,
/// whatever the manifest and the store hold.
pub proof fn lemma_missing_document_fails(
    document_id: Seq<char>,
    conf: Option<Seq<char>>,
    store: Seq<StoredDocV>,
)
    ensures
        export_spec(document_id, false, conf, store) == Err::<Seq<char>, _>(
            ErrorV::DocumentNotFound { document: document_id },
        ),
{
}

/// Exporting is deterministic: two runs over unchanged inputs yield
/// byte-identical output.
pub proof fn lemma_export_idempotent(
    id1: Seq<char>,
    id2: Seq<char>,
    exists1: bool,
    exists2: bool,
    conf1: Option<Seq<char>>,
    conf2: Option<Seq<char>>,
    store1: Seq<StoredDocV>,
    store2: Seq<StoredDocV>,
)
    requires
        id1 == id2,
        exists1 == exists2,
        conf1 == conf2,
        store1 == store2,
    ensures
        export_spec(id1, exists1, conf1, store1) == export_spec(id2, exists2, conf2, store2),
{
}

} // verus!

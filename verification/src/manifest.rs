//! The manifest model: feed metadata plus an ordered list of rendering
//! sections, each an ordered list of typed content blocks.

use vstd::prelude::*;

verus! {

/// A typed content reference: the unit of page composition.
#[derive(Debug)]
pub struct Block {
    /// Path of the source file this block renders, if any.
    pub content_file: Option<String>,
    /// Tag naming how the source is to be interpreted (presently "md").
    pub format: Option<String>,
}

/// An ordered group of blocks; order is render order.
#[derive(Debug)]
pub struct Section {
    pub blocks: Vec<Block>,
}

/// Root configuration object: feed metadata and the page composition.
///
/// `title`, `link` and `description` are required for feed synthesis but
/// optional for page export.  Absence of `main` is valid: a `main` is
/// synthesized on demand when a block must be appended.
#[derive(Debug)]
pub struct Manifest {
    pub title: Option<String>,
    pub link: Option<String>,
    pub description: Option<String>,
    pub language: Option<String>,
    pub copyright: Option<String>,
    pub managing_editor: Option<String>,
    pub webmaster: Option<String>,
    pub ttl: Option<String>,
    pub main: Option<Vec<Section>>,
}

/// Mathematical model of a `Block`.
#[verifier::ext_equal]
pub ghost struct BlockV {
    pub content_file: Option<Seq<char>>,
    pub format: Option<Seq<char>>,
}

/// Mathematical model of a `Section`.
#[verifier::ext_equal]
pub ghost struct SectionV {
    pub blocks: Seq<BlockV>,
}

/// Mathematical model of a `Manifest`.
#[verifier::ext_equal]
pub ghost struct ManifestV {
    pub title: Option<Seq<char>>,
    pub link: Option<Seq<char>>,
    pub description: Option<Seq<char>>,
    pub language: Option<Seq<char>>,
    pub copyright: Option<Seq<char>>,
    pub managing_editor: Option<Seq<char>>,
    pub webmaster: Option<Seq<char>>,
    pub ttl: Option<Seq<char>>,
    pub main: Option<Seq<SectionV>>,
}

impl DeepView for Block {
    type V = BlockV;

    open spec fn deep_view(&self) -> BlockV {
        BlockV {
            content_file: self.content_file.deep_view(),
            format: self.format.deep_view(),
        }
    }
}

impl DeepView for Section {
    type V = SectionV;

    open spec fn deep_view(&self) -> SectionV {
        SectionV { blocks: self.blocks.deep_view() }
    }
}

impl DeepView for Manifest {
    type V = ManifestV;

    open spec fn deep_view(&self) -> ManifestV {
        ManifestV {
            title: self.title.deep_view(),
            link: self.link.deep_view(),
            description: self.description.deep_view(),
            language: self.language.deep_view(),
            copyright: self.copyright.deep_view(),
            webmaster: self.webmaster.deep_view(),
            managing_editor: self.managing_editor.deep_view(),
            ttl: self.ttl.deep_view(),
            main: match self.main {
                None => None,
                Some(ss) => Some(ss.deep_view()),
            },
        }
    }
}

/// All blocks of a run of sections, flattened in render order.
pub open spec fn blocks_of_sections(ss: Seq<SectionV>) -> Seq<BlockV>
    decreases ss.len(),
{
    if ss.len() == 0 {
        Seq::empty()
    } else {
        ss[0].blocks + blocks_of_sections(ss.skip(1))
    }
}

/// All blocks of a manifest, flattened in render order.
pub open spec fn blocks_of_manifest(m: ManifestV) -> Seq<BlockV> {
    match m.main {
        None => Seq::empty(),
        Some(ss) => blocks_of_sections(ss),
    }
}

/// What `with_appended_block` returns: the same manifest, with `b` appended
/// to the last section of `main`; a one-block section is created when `main`
/// is absent or empty.
pub open spec fn with_appended_block_spec(m: ManifestV, b: BlockV) -> ManifestV {
    let sections = match m.main {
        None => seq![SectionV { blocks: seq![b] }],
        Some(ss) => if ss.len() == 0 {
            seq![SectionV { blocks: seq![b] }]
        } else {
            ss.update(ss.len() - 1, SectionV { blocks: ss.last().blocks.push(b) })
        },
    };
    ManifestV { main: Some(sections), ..m }
}

/// Returns a manifest whose `main` holds all prior blocks, in their original
/// order, followed by `b`; `main` is created when absent.  Blocks already
/// present are not changed.
pub fn with_appended_block(m: Manifest, b: Block) -> (r: Manifest)
    ensures
        r.deep_view() == with_appended_block_spec(m.deep_view(), b.deep_view()),
{
    let ghost mv = m.deep_view();
    let ghost bv = b.deep_view();
    let Manifest {
        title,
        link,
        description,
        language,
        copyright,
        managing_editor,
        webmaster,
        ttl,
        main,
    } = m;
    let sections: Vec<Section> = match main {
        None => {
            let mut one: Vec<Section> = Vec::new();
            one.push(Section { blocks: vec![b] });
            proof {
                assert(one.deep_view() =~~= seq![SectionV { blocks: seq![bv] }]);
            }
            one
        },
        Some(mut ss) => {
            if ss.len() == 0 {
                ss.push(Section { blocks: vec![b] });
                proof {
                    assert(ss.deep_view() =~~= seq![SectionV { blocks: seq![bv] }]);
                }
                ss
            } else {
                let n = ss.len();
                let Section { blocks: mut bs } = ss.remove(n - 1);
                bs.push(b);
                ss.push(Section { blocks: bs });
                proof {
                    let ghost expect = with_appended_block_spec(mv, bv).main->0;
                    assert(ss.deep_view() =~~= expect);
                }
                ss
            }
        },
    };
    let r = Manifest {
        title,
        link,
        description,
        language,
        copyright,
        managing_editor,
        webmaster,
        ttl,
        main: Some(sections),
    };
    proof {
        assert(r.deep_view() =~~= with_appended_block_spec(mv, bv));
    }
    r
}

/// When `main` is absent, appending yields exactly one section holding
/// exactly the appended block.
pub proof fn lemma_append_to_absent_main(m: ManifestV, b: BlockV)
    requires
        m.main is None,
    ensures
        with_appended_block_spec(m, b).main matches Some(ss) && ss =~~= seq![
            SectionV { blocks: seq![b] },
        ],
        blocks_of_manifest(with_appended_block_spec(m, b)) =~= seq![b],
{
    let ss = with_appended_block_spec(m, b).main->0;
    reveal_with_fuel(blocks_of_sections, 2);
    assert(blocks_of_sections(ss.skip(1)) =~= Seq::empty());
    assert(blocks_of_sections(ss) =~= seq![b]);
}

/// Appending to a run of sections whose last section is extended flattens to
/// the old flattening followed by the new block.
proof fn lemma_blocks_of_extended_last(ss: Seq<SectionV>, b: BlockV)
    requires
        ss.len() > 0,
    ensures
        blocks_of_sections(ss.update(ss.len() - 1, SectionV { blocks: ss.last().blocks.push(b) }))
            =~= blocks_of_sections(ss).push(b),
    decreases ss.len(),
{
    let upd = ss.update(ss.len() - 1, SectionV { blocks: ss.last().blocks.push(b) });
    if ss.len() == 1 {
        reveal_with_fuel(blocks_of_sections, 2);
        assert(upd.skip(1) =~= Seq::empty());
        assert(ss.skip(1) =~= Seq::empty());
        assert(blocks_of_sections(upd.skip(1)) =~= Seq::empty());
        assert(blocks_of_sections(ss.skip(1)) =~= Seq::empty());
        assert(blocks_of_sections(upd) =~= ss[0].blocks.push(b));
        assert(blocks_of_sections(ss) =~= ss[0].blocks);
    } else {
        lemma_blocks_of_extended_last(ss.skip(1), b);
        assert(upd.skip(1) =~~= ss.skip(1).update(
            ss.skip(1).len() - 1,
            SectionV { blocks: ss.skip(1).last().blocks.push(b) },
        ));
        assert(upd[0] == ss[0]);
        assert(blocks_of_sections(upd) =~= ss[0].blocks + blocks_of_sections(upd.skip(1)));
        assert(blocks_of_sections(ss) =~= ss[0].blocks + blocks_of_sections(ss.skip(1)));
    }
}

/// When `main` is present, appending preserves every prior block in its
/// original order and places the new block last.
pub proof fn lemma_append_preserves_prior_blocks(m: ManifestV, b: BlockV)
    requires
        m.main is Some,
    ensures
        blocks_of_manifest(with_appended_block_spec(m, b)) =~= blocks_of_manifest(m).push(b),
{
    let ss = m.main->0;
    if ss.len() == 0 {
        reveal_with_fuel(blocks_of_sections, 2);
        let rs = with_appended_block_spec(m, b).main->0;
        assert(rs.skip(1) =~= Seq::empty());
        assert(blocks_of_sections(rs) =~= seq![b]);
        assert(blocks_of_manifest(m).push(b) =~= seq![b]);
    } else {
        lemma_blocks_of_extended_last(ss, b);
    }
}

} // verus!

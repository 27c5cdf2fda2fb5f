//! Loading the manifest from its persisted TOML source.
//!
//! The TOML grammar itself is the parser crate's work; the result comes back
//! as a plain value tree, and everything after that — which fields are
//! recognized, which value kinds are acceptable, absent versus empty — is the
//! library's own, verified, shaping logic.

use vstd::prelude::*;

use crate::decimal::{decimal_of, i64_to_string};
use crate::errors::{result_v, Error, ErrorV};
use crate::manifest::{Block, BlockV, Manifest, ManifestV, Section, SectionV};

verus! {

/// A TOML value as a plain tree: exactly what the manifest shaping reads.
/// Kinds the manifest never stores (floats, datetimes) appear as `Other`,
/// so that they can still be rejected field by field.
pub enum RawValue {
    Text(String),
    Int(i64),
    Flag(bool),
    List(Vec<RawValue>),
    Table(Vec<(String, RawValue)>),
    Other,
}

/// What `toml::from_str` returns on a given source text, as a plain tree on
/// success and as the parser's own message on failure.  The result depends
/// on the text alone.
pub uninterp spec fn toml_document_of(s: Seq<char>) -> Result<RawValue, String>;

#[verifier::external_type_specification]
#[verifier::external_body]
pub struct ExTomlValue(toml::Value);

/// Converts a `toml::Value` tree into the library's plain representation,
/// one variant for one variant; floats and datetimes become `Other`.
#[verifier::external_body]
fn raw_of_value(v: &toml::Value) -> RawValue {
    match v {
        toml::Value::String(s) => RawValue::Text(s.clone()),
        toml::Value::Integer(i) => RawValue::Int(*i),
        toml::Value::Float(_) => RawValue::Other,
        toml::Value::Boolean(b) => RawValue::Flag(*b),
        toml::Value::Datetime(_) => RawValue::Other,
        toml::Value::Array(a) => RawValue::List(a.iter().map(raw_of_value).collect()),
        toml::Value::Table(t) => RawValue::Table(
            t.iter().map(|(k, x)| (k.clone(), raw_of_value(x))).collect(),
        ),
    }
}

/// Relies on `toml::from_str::<toml::Value>`: parses a TOML document into
/// its value tree; the outcome is a function of the source text alone.
#[verifier::external_body]
fn parse_toml(source: &str) -> (r: Result<RawValue, String>)
    ensures
        r == toml_document_of(source@),
{
    match toml::from_str::<toml::Value>(source) {
        Ok(v) => Ok(raw_of_value(&v)),
        Err(e) => Err(e.to_string()),
    }
}

/// The value under `key` in a table, if any.
pub open spec fn lookup_spec(t: Seq<(String, RawValue)>, key: Seq<char>) -> Option<RawValue>
    decreases t.len(),
{
    if t.len() == 0 {
        None
    } else if t[0].0@ == key {
        Some(t[0].1)
    } else {
        lookup_spec(t.skip(1), key)
    }
}

/// An optional string field: absent is `Ok(None)`, a string is `Ok(Some)`,
/// any other kind is malformed and yields the offending key.
pub open spec fn text_field_spec(t: Seq<(String, RawValue)>, key: Seq<char>) -> Result<
    Option<Seq<char>>,
    Seq<char>,
> {
    match lookup_spec(t, key) {
        None => Ok(None),
        Some(RawValue::Text(s)) => Ok(Some(s@)),
        Some(_) => Err(key),
    }
}

/// An optional string-or-number field: a number is passed through verbatim
/// as its decimal rendering; any other present kind is malformed.
pub open spec fn loose_field_spec(t: Seq<(String, RawValue)>, key: Seq<char>) -> Result<
    Option<Seq<char>>,
    Seq<char>,
> {
    match lookup_spec(t, key) {
        None => Ok(None),
        Some(RawValue::Text(s)) => Ok(Some(s@)),
        Some(RawValue::Int(i)) => Ok(Some(decimal_of(i as int))),
        Some(_) => Err(key),
    }
}

/// One block from its table: `content_file` and `format` are optional
/// strings; every unrecognized key is ignored.
pub open spec fn block_of_raw_spec(v: RawValue) -> Result<BlockV, Seq<char>> {
    match v {
        RawValue::Table(t) => match text_field_spec(t@, "content_file"@) {
            Err(k) => Err(k),
            Ok(content_file) => match text_field_spec(t@, "format"@) {
                Err(k) => Err(k),
                Ok(format) => Ok(BlockV { content_file, format }),
            },
        },
        _ => Err("block"@),
    }
}

/// A run of blocks, in list order; the first malformed one aborts.
pub open spec fn blocks_of_raw_spec(l: Seq<RawValue>) -> Result<Seq<BlockV>, Seq<char>>
    decreases l.len(),
{
    if l.len() == 0 {
        Ok(Seq::empty())
    } else {
        match block_of_raw_spec(l[0]) {
            Err(k) => Err(k),
            Ok(b) => match blocks_of_raw_spec(l.skip(1)) {
                Err(k) => Err(k),
                Ok(rest) => Ok(seq![b] + rest),
            },
        }
    }
}

/// One section from its table: an optional `block` list, absent meaning an
/// empty section.
pub open spec fn section_of_raw_spec(v: RawValue) -> Result<SectionV, Seq<char>> {
    match v {
        RawValue::Table(t) => match lookup_spec(t@, "block"@) {
            None => Ok(SectionV { blocks: Seq::empty() }),
            Some(RawValue::List(bs)) => match blocks_of_raw_spec(bs@) {
                Err(k) => Err(k),
                Ok(blocks) => Ok(SectionV { blocks }),
            },
            Some(_) => Err("block"@),
        },
        _ => Err("main"@),
    }
}

/// A run of sections, in list order.
pub open spec fn sections_of_raw_spec(l: Seq<RawValue>) -> Result<Seq<SectionV>, Seq<char>>
    decreases l.len(),
{
    if l.len() == 0 {
        Ok(Seq::empty())
    } else {
        match section_of_raw_spec(l[0]) {
            Err(k) => Err(k),
            Ok(s) => match sections_of_raw_spec(l.skip(1)) {
                Err(k) => Err(k),
                Ok(rest) => Ok(seq![s] + rest),
            },
        }
    }
}

/// The whole manifest from the parsed document: every recognized field
/// populates its slot, every unrecognized field is ignored, and an absent
/// optional field stays distinguishable from an empty one.
pub open spec fn manifest_of_raw_spec(v: RawValue) -> Result<ManifestV, Seq<char>> {
    match v {
        RawValue::Table(t) => match text_field_spec(t@, "title"@) {
            Err(k) => Err(k),
            Ok(title) => match text_field_spec(t@, "link"@) {
                Err(k) => Err(k),
                Ok(link) => match text_field_spec(t@, "description"@) {
                    Err(k) => Err(k),
                    Ok(description) => match loose_field_spec(t@, "language"@) {
                        Err(k) => Err(k),
                        Ok(language) => match loose_field_spec(t@, "copyright"@) {
                            Err(k) => Err(k),
                            Ok(copyright) => match loose_field_spec(t@, "managing_editor"@) {
                                Err(k) => Err(k),
                                Ok(managing_editor) => match loose_field_spec(t@, "webmaster"@) {
                                    Err(k) => Err(k),
                                    Ok(webmaster) => match loose_field_spec(t@, "ttl"@) {
                                        Err(k) => Err(k),
                                        Ok(ttl) => match main_of_raw_spec(t@) {
                                            Err(k) => Err(k),
                                            Ok(main) => Ok(ManifestV {
                                                title,
                                                link,
                                                description,
                                                language,
                                                copyright,
                                                managing_editor,
                                                webmaster,
                                                ttl,
                                                main,
                                            }),
                                        },
                                    },
                                },
                            },
                        },
                    },
                },
            },
        },
        _ => Err("document"@),
    }
}

/// The optional `main` list of sections.
pub open spec fn main_of_raw_spec(t: Seq<(String, RawValue)>) -> Result<
    Option<Seq<SectionV>>,
    Seq<char>,
> {
    match lookup_spec(t, "main"@) {
        None => Ok(None),
        Some(RawValue::List(ss)) => match sections_of_raw_spec(ss@) {
            Err(k) => Err(k),
            Ok(sections) => Ok(Some(sections)),
        },
        Some(_) => Err("main"@),
    }
}

/// What loading a manifest from a source text yields: the parser's failure
/// becomes `ConfigMalformed` with the parser's message, a shape failure
/// becomes `ConfigMalformed` naming the offending field, and otherwise the
/// shaped manifest.
pub open spec fn manifest_source_spec(s: Seq<char>) -> Result<ManifestV, ErrorV> {
    match toml_document_of(s) {
        Err(msg) => Err(ErrorV::ConfigMalformed { detail: msg@ }),
        Ok(v) => match manifest_of_raw_spec(v) {
            Err(key) => Err(ErrorV::ConfigMalformed { detail: key }),
            Ok(m) => Ok(m),
        },
    }
}

/// The value stored under `key`, by reference.
fn lookup<'a>(t: &'a Vec<(String, RawValue)>, key: &String) -> (r: Option<&'a RawValue>)
    ensures
        match r {
            Some(v) => lookup_spec(t@, key@) == Some(*v),
            None => lookup_spec(t@, key@) is None,
        },
{
    let mut i: usize = 0;
    proof {
        assert(t@.skip(0) =~= t@);
    }
    while i < t.len()
        invariant
            i <= t.len(),
            lookup_spec(t@, key@) == lookup_spec(t@.skip(i as int), key@),
        decreases t.len() - i,
    {
        if t[i].0 == *key {
            return Some(&t[i].1);
        }
        proof {
            assert(t@.skip(i as int).skip(1) =~= t@.skip(i as int + 1));
        }
        i = i + 1;
    }
    None
}

/// An optional string field of a table.
fn text_field(t: &Vec<(String, RawValue)>, key: &String) -> (r: Result<Option<String>, String>)
    ensures
        result_v(r) == text_field_spec(t@, key@),
{
    match lookup(t, key) {
        None => Ok(None),
        Some(RawValue::Text(s)) => Ok(Some(s.clone())),
        Some(_) => Err(key.clone()),
    }
}

/// An optional string-or-number field of a table.
fn loose_field(t: &Vec<(String, RawValue)>, key: &String) -> (r: Result<Option<String>, String>)
    ensures
        result_v(r) == loose_field_spec(t@, key@),
{
    match lookup(t, key) {
        None => Ok(None),
        Some(RawValue::Text(s)) => Ok(Some(s.clone())),
        Some(RawValue::Int(i)) => Ok(Some(i64_to_string(*i))),
        Some(_) => Err(key.clone()),
    }
}

/// One block from its raw value.
fn block_of_raw(v: &RawValue) -> (r: Result<Block, String>)
    ensures
        result_v(r) == block_of_raw_spec(*v),
{
    match v {
        RawValue::Table(t) => {
            let content_file = match text_field(t, &String::from_str("content_file")) {
                Err(k) => {
                    return Err(k);
                },
                Ok(c) => c,
            };
            let format = match text_field(t, &String::from_str("format")) {
                Err(k) => {
                    return Err(k);
                },
                Ok(f) => f,
            };
            Ok(Block { content_file, format })
        },
        _ => Err(String::from_str("block")),
    }
}

/// A run of blocks from a raw list.
fn blocks_of_raw(l: &Vec<RawValue>) -> (r: Result<Vec<Block>, String>)
    ensures
        result_v(r) == blocks_of_raw_spec(l@),
{
    let mut acc: Vec<Block> = Vec::new();
    let mut i: usize = 0;
    proof {
        assert(l@.skip(0) =~= l@);
        assert(acc.deep_view() =~= Seq::<BlockV>::empty());
        if blocks_of_raw_spec(l@) is Ok {
            assert(acc.deep_view() + blocks_of_raw_spec(l@)->Ok_0 =~= blocks_of_raw_spec(
                l@,
            )->Ok_0);
        }
    }
    while i < l.len()
        invariant
            i <= l.len(),
            blocks_of_raw_spec(l@) == match blocks_of_raw_spec(l@.skip(i as int)) {
                Ok(rest) => Ok::<_, Seq<char>>(acc.deep_view() + rest),
                Err(k) => Err::<Seq<BlockV>, _>(k),
            },
        decreases l.len() - i,
    {
        proof {
            assert(l@.skip(i as int)[0] == l@[i as int]);
            assert(l@.skip(i as int).skip(1) =~= l@.skip(i as int + 1));
        }
        match block_of_raw(&l[i]) {
            Err(k) => {
                return Err(k);
            },
            Ok(b) => {
                let ghost accv = acc.deep_view();
                let ghost bv = b.deep_view();
                acc.push(b);
                proof {
                    assert(acc.deep_view() =~= accv.push(bv));
                    if blocks_of_raw_spec(l@.skip(i as int + 1)) is Ok {
                        let rest = blocks_of_raw_spec(l@.skip(i as int + 1))->Ok_0;
                        assert(accv + (seq![bv] + rest) =~= acc.deep_view() + rest);
                    }
                }
            },
        }
        i = i + 1;
    }
    proof {
        assert(l@.skip(l@.len() as int) =~= Seq::<RawValue>::empty());
        if blocks_of_raw_spec(l@) is Ok {
            assert(blocks_of_raw_spec(l@)->Ok_0 =~= acc.deep_view());
        }
    }
    Ok(acc)
}

/// One section from its raw value.
fn section_of_raw(v: &RawValue) -> (r: Result<Section, String>)
    ensures
        result_v(r) == section_of_raw_spec(*v),
{
    match v {
        RawValue::Table(t) => match lookup(t, &String::from_str("block")) {
            None => {
                let empty: Vec<Block> = Vec::new();
                proof {
                    assert(empty.deep_view() =~= Seq::<BlockV>::empty());
                }
                Ok(Section { blocks: empty })
            },
            Some(RawValue::List(bs)) => match blocks_of_raw(bs) {
                Err(k) => Err(k),
                Ok(blocks) => Ok(Section { blocks }),
            },
            Some(_) => Err(String::from_str("block")),
        },
        _ => Err(String::from_str("main")),
    }
}

/// A run of sections from a raw list.
fn sections_of_raw(l: &Vec<RawValue>) -> (r: Result<Vec<Section>, String>)
    ensures
        result_v(r) == sections_of_raw_spec(l@),
{
    let mut acc: Vec<Section> = Vec::new();
    let mut i: usize = 0;
    proof {
        assert(l@.skip(0) =~= l@);
        assert(acc.deep_view() =~= Seq::<SectionV>::empty());
        if sections_of_raw_spec(l@) is Ok {
            assert(acc.deep_view() + sections_of_raw_spec(l@)->Ok_0 =~= sections_of_raw_spec(
                l@,
            )->Ok_0);
        }
    }
    while i < l.len()
        invariant
            i <= l.len(),
            sections_of_raw_spec(l@) == match sections_of_raw_spec(l@.skip(i as int)) {
                Ok(rest) => Ok::<_, Seq<char>>(acc.deep_view() + rest),
                Err(k) => Err::<Seq<SectionV>, _>(k),
            },
        decreases l.len() - i,
    {
        proof {
            assert(l@.skip(i as int)[0] == l@[i as int]);
            assert(l@.skip(i as int).skip(1) =~= l@.skip(i as int + 1));
        }
        match section_of_raw(&l[i]) {
            Err(k) => {
                return Err(k);
            },
            Ok(s) => {
                let ghost accv = acc.deep_view();
                let ghost sv = s.deep_view();
                acc.push(s);
                proof {
                    assert(acc.deep_view() =~= accv.push(sv));
                    if sections_of_raw_spec(l@.skip(i as int + 1)) is Ok {
                        let rest = sections_of_raw_spec(l@.skip(i as int + 1))->Ok_0;
                        assert(accv + (seq![sv] + rest) =~= acc.deep_view() + rest);
                    }
                }
            },
        }
        i = i + 1;
    }
    proof {
        assert(l@.skip(l@.len() as int) =~= Seq::<RawValue>::empty());
        if sections_of_raw_spec(l@) is Ok {
            assert(sections_of_raw_spec(l@)->Ok_0 =~= acc.deep_view());
        }
    }
    Ok(acc)
}

/// The whole manifest from the parsed document tree.
fn manifest_of_raw(v: &RawValue) -> (r: Result<Manifest, String>)
    ensures
        result_v(r) == manifest_of_raw_spec(*v),
{
    match v {
        RawValue::Table(t) => {
            let title = match text_field(t, &String::from_str("title")) {
                Err(k) => {
                    return Err(k);
                },
                Ok(x) => x,
            };
            let link = match text_field(t, &String::from_str("link")) {
                Err(k) => {
                    return Err(k);
                },
                Ok(x) => x,
            };
            let description = match text_field(t, &String::from_str("description")) {
                Err(k) => {
                    return Err(k);
                },
                Ok(x) => x,
            };
            let language = match loose_field(t, &String::from_str("language")) {
                Err(k) => {
                    return Err(k);
                },
                Ok(x) => x,
            };
            let copyright = match loose_field(t, &String::from_str("copyright")) {
                Err(k) => {
                    return Err(k);
                },
                Ok(x) => x,
            };
            let managing_editor = match loose_field(t, &String::from_str("managing_editor")) {
                Err(k) => {
                    return Err(k);
                },
                Ok(x) => x,
            };
            let webmaster = match loose_field(t, &String::from_str("webmaster")) {
                Err(k) => {
                    return Err(k);
                },
                Ok(x) => x,
            };
            let ttl = match loose_field(t, &String::from_str("ttl")) {
                Err(k) => {
                    return Err(k);
                },
                Ok(x) => x,
            };
            let main = match lookup(t, &String::from_str("main")) {
                None => None,
                Some(RawValue::List(ss)) => match sections_of_raw(ss) {
                    Err(k) => {
                        return Err(k);
                    },
                    Ok(sections) => Some(sections),
                },
                Some(_) => {
                    return Err(String::from_str("main"));
                },
            };
            Ok(
                Manifest {
                    title,
                    link,
                    description,
                    language,
                    copyright,
                    managing_editor,
                    webmaster,
                    ttl,
                    main,
                },
            )
        },
        _ => Err(String::from_str("document")),
    }
}

/// Parses a manifest source text into the manifest model.
///
/// Fails with `ConfigMalformed` exactly when the text is not a TOML document
/// of the expected shape; parsing is total and forward compatible: every
/// recognized field populates its slot and every unrecognized one is
/// ignored.
pub fn manifest_from_source(source: &str) -> (r: Result<Manifest, Error>)
    ensures
        result_v(r) == manifest_source_spec(source@),
{
    match parse_toml(source) {
        Err(msg) => Err(Error::ConfigMalformed { detail: msg }),
        Ok(v) => match manifest_of_raw(&v) {
            Err(k) => Err(Error::ConfigMalformed { detail: k }),
            Ok(m) => Ok(m),
        },
    }
}

} // verus!

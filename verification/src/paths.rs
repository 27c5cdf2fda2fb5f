//! The fixed derived paths of the feed layout, and the initial content of a
//! freshly created document.

use vstd::prelude::*;

verus! {

/// The source path of the document named `name`.
pub open spec fn document_path_spec(name: Seq<char>) -> Seq<char> {
    "feed/documents/"@ + name + ".md"@
}

/// The output path of the exported page of the document named `name`.
pub open spec fn export_path_spec(name: Seq<char>) -> Seq<char> {
    "feed/export/"@ + name + ".html"@
}

/// The initial content of a freshly created document: a heading of its name.
pub open spec fn initial_content_spec(name: Seq<char>) -> Seq<char> {
    "# "@ + name + "\n"@
}

/// The source path of the document named `name`.
pub fn document_path(name: &str) -> (r: String)
    ensures
        r@ == document_path_spec(name@),
{
    let mut r = String::from_str("feed/documents/");
    r.append(name);
    r.append(".md");
    r
}

/// The output path of the exported page of the document named `name`.
pub fn export_path(name: &str) -> (r: String)
    ensures
        r@ == export_path_spec(name@),
{
    let mut r = String::from_str("feed/export/");
    r.append(name);
    r.append(".html");
    r
}

/// The path of the persisted manifest.
pub fn conf_path() -> (r: String)
    ensures
        r@ == "feed/conf.toml"@,
{
    String::from_str("feed/conf.toml")
}

/// The path of the synthesized feed document.
pub fn feed_output_path() -> (r: String)
    ensures
        r@ == "feed/export/feed.xml"@,
{
    String::from_str("feed/export/feed.xml")
}

/// The initial content of a freshly created document.
pub fn initial_document_content(name: &str) -> (r: String)
    ensures
        r@ == initial_content_spec(name@),
{
    let mut r = String::from_str("# ");
    r.append(name);
    r.append("\n");
    r
}

} // verus!

use adduce::markdown::markdown_of_str;

fn html(src: &str) -> String {
    markdown_of_str(src).into_iter().collect()
}

#[test]
fn heading_renders_as_top_level_heading() {
    let out = html("# Hello");
    assert!(out.contains("<h1>Hello</h1>"));
}

#[test]
fn heading_levels() {
    assert_eq!(html("## Two"), "<h2>Two</h2>\n");
    assert_eq!(html("###### Six"), "<h6>Six</h6>\n");
    // Seven hashes are no heading: the line is an ordinary paragraph.
    assert_eq!(html("####### Seven"), "<p>####### Seven</p>\n");
}

#[test]
fn paragraph_renders() {
    assert_eq!(html("just text"), "<p>just text</p>\n");
}

#[test]
fn empty_source_renders_empty() {
    assert_eq!(html(""), "");
    assert_eq!(html("\n\n"), "");
}

#[test]
fn emphasis_and_strong() {
    assert_eq!(html("*a*"), "<p><em>a</em></p>\n");
    assert_eq!(html("**bold**"), "<p><strong>bold</strong></p>\n");
    assert_eq!(html("say *it* loud"), "<p>say <em>it</em> loud</p>\n");
}

#[test]
fn unterminated_emphasis_stays_literal() {
    assert_eq!(html("a * b"), "<p>a * b</p>\n");
}

#[test]
fn code_span_is_escaped() {
    assert_eq!(html("`<x>`"), "<p><code>&lt;x&gt;</code></p>\n");
}

#[test]
fn link_renders() {
    assert_eq!(
        html("[home](https://example.org)"),
        "<p><a href=\"https://example.org\">home</a></p>\n"
    );
}

#[test]
fn text_is_escaped() {
    assert_eq!(html("a & b < c"), "<p>a &amp; b &lt; c</p>\n");
}

#[test]
fn list_renders() {
    assert_eq!(
        html("- one\n- two"),
        "<ul>\n<li>one</li>\n<li>two</li>\n</ul>\n"
    );
}

#[test]
fn list_closes_before_following_paragraph() {
    assert_eq!(
        html("- one\nafter"),
        "<ul>\n<li>one</li>\n</ul>\n<p>after</p>\n"
    );
}

#[test]
fn fenced_code_block() {
    assert_eq!(
        html("```\nlet x = 1 < 2;\n```\n"),
        "<pre><code>\nlet x = 1 &lt; 2;\n</code></pre>\n"
    );
}

#[test]
fn unclosed_fence_runs_to_end() {
    assert_eq!(html("```\ncode"), "<pre><code>\ncode\n</code></pre>\n");
}

#[test]
fn rendering_is_deterministic() {
    let src = "# T\n\nsome *text*\n- a\n- b\n";
    assert_eq!(html(src), html(src));
}

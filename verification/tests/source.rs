use echo_rsvp::source::{
    html_to_text, is_html, is_html_extension, is_markdown, is_markdown_extension, is_url, markdown_to_text, source_kind, strip_tags_fallback,
    text_from_events, text_or_fallback, MarkdownEvent, SourceKind,
};

#[test]
fn strips_headings_and_emphasis() {
    let md = "# Title\n\nSome *bold* text with `code`.\n";
    let out = markdown_to_text(md);
    assert!(out.contains("Title"));
    assert!(out.contains("Some bold text with code."));
    assert!(!out.contains('#'));
    assert!(!out.contains('*'));
}

#[test]
fn drops_code_blocks() {
    let md = "Before.\n\n```rust\nfn main() {}\n```\n\nAfter.\n";
    let out = markdown_to_text(md);
    assert!(out.contains("Before"));
    assert!(out.contains("After"));
    assert!(!out.contains("fn main"));
}

#[test]
fn inline_code_kept() {
    assert!(markdown_to_text("Use `foo` here.").contains("Use foo here."));
}

#[test]
fn detects_markdown_extension() {
    assert!(is_markdown("notes.md"));
    assert!(is_markdown("NOTES.MD"));
    assert!(is_markdown("a/b/c.markdown"));
    assert!(!is_markdown("plain.txt"));
    assert!(!is_markdown("no_ext"));
}

#[test]
fn detects_urls() {
    assert!(is_url("https://example.com"));
    assert!(is_url("http://example.com/page"));
    assert!(!is_url("example.com"));
    assert!(!is_url("file.html"));
    assert!(!is_url("/abs/path"));
}

#[test]
fn detects_html_extension() {
    assert!(is_html("page.html"));
    assert!(is_html("page.HTM"));
    assert!(is_html("x.xhtml"));
    assert!(!is_html("x.md"));
}

#[test]
fn fallback_strips_tags_and_scripts() {
    let html = "<p>Hello <b>world</b></p><script>alert('x')</script><p>Bye</p>";
    let out = strip_tags_fallback(html);
    assert!(out.contains("Hello"));
    assert!(out.contains("world"));
    assert!(out.contains("Bye"));
    assert!(!out.contains("alert"));
}

#[test]
fn extracts_article_text_from_html() {
    // Readability needs substantial content to score as an article.
    let html = r#"<!DOCTYPE html>
<html><body>
<nav>Home About Contact Us</nav>
<article>
  <h1>Article Title</h1>
  <p>The quick brown fox jumps over the lazy dog. This paragraph has
  enough prose for readability's heuristic to classify it as the main
  content body of the document rather than boilerplate chrome.</p>
  <p>A second paragraph reinforces that judgement by adding more
  human-readable text. Readability looks at text density and tag
  ratios to make this call.</p>
</article>
<footer>Copyright 2026 — Privacy — Terms</footer>
<script>analytics();</script>
</body></html>"#;
    let out = html_to_text(html, Some("http://example.com/article"));
    assert!(out.contains("quick brown fox"));
    assert!(out.contains("second paragraph"));
    assert!(!out.contains("analytics"));
}

#[test]
fn fallback_exact_output() {
    assert_eq!(strip_tags_fallback("<p>Hello <b>world</b></p><script>alert('x')</script><p>Bye</p>"), "Hello worldBye");
    assert_eq!(strip_tags_fallback("no tags here"), "no tags here");
    assert_eq!(strip_tags_fallback("a<SCRIPT type=x>b</Script>c"), "ac");
    assert_eq!(strip_tags_fallback("1 < 2 and 3 > 2"), "1  2");
    assert!(!strip_tags_fallback("x <y> z < w").contains('<'));
}

#[test]
fn markdown_exact_output() {
    assert_eq!(markdown_to_text("# Title\n\nSome *bold* text.\n"), "Title\nSome bold text.\n");
    assert_eq!(markdown_to_text("- a\n- b\n"), "a\nb\n");
    assert_eq!(markdown_to_text("> quoted\n"), "quoted\n\n");
    assert_eq!(markdown_to_text("one\ntwo\n"), "one two\n");
}

#[test]
fn text_from_event_list() {
    let evs = vec![
        MarkdownEvent::Text("a".to_string()),
        MarkdownEvent::CodeBlockStart,
        MarkdownEvent::Text("hidden".to_string()),
        MarkdownEvent::CodeBlockEnd,
        MarkdownEvent::SoftBreak,
        MarkdownEvent::Code("b".to_string()),
        MarkdownEvent::HardBreak,
        MarkdownEvent::Other,
        MarkdownEvent::ParagraphEnd,
        MarkdownEvent::CodeBlockEnd,
        MarkdownEvent::Text("c".to_string()),
    ];
    assert_eq!(text_from_events(&evs), "a b \nc");
}

#[test]
fn fallback_used_only_without_article() {
    assert_eq!(text_or_fallback("<b>x</b>", None), "x");
    assert_eq!(text_or_fallback("<b>x</b>", Some("article".to_string())), "article");
}

#[test]
fn source_kinds() {
    assert_eq!(source_kind("https://example.com/a.md"), SourceKind::Url);
    assert_eq!(source_kind("notes.Markdown"), SourceKind::Markdown);
    assert_eq!(source_kind("page.htm"), SourceKind::Html);
    assert_eq!(source_kind("book.txt"), SourceKind::Plain);
    assert_eq!(source_kind(".md"), SourceKind::Plain);
}

#[test]
fn extension_classes() {
    assert!(is_markdown_extension("MD"));
    assert!(is_markdown_extension("markdown"));
    assert!(!is_markdown_extension("mdx"));
    assert!(is_html_extension("XHTML"));
    assert!(is_html_extension("htm"));
    assert!(!is_html_extension("html5"));
}

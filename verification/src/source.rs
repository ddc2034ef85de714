use vstd::prelude::*;

use pulldown_cmark::{Event as MdEv, Tag, TagEnd};

use crate::text::{
    ascii_lower, ascii_lower_char, chars_eq_str, chars_of, lower_char, push_char, push_str,
    to_ascii_lowercase,
};

verus! {

/// Whether `s` begins with `prefix`.
pub open spec fn starts_with(s: Seq<char>, prefix: Seq<char>) -> bool {
    prefix.len() <= s.len() && s.take(prefix.len() as int) == prefix
}

/// Whether `s` begins with `prefix`.
pub fn chars_start_with(s: &[char], prefix: &str) -> (r: bool)
    ensures
        r == starts_with(s@, prefix@),
{
    let p = chars_of(prefix);
    if p.len() > s.len() {
        return false;
    }
    for i in 0..p.len()
        invariant
            p@ == prefix@,
            p@.len() <= s@.len(),
            forall|j: int| 0 <= j < i ==> s@[j] == p@[j],
    {
        if s[i] != p[i] {
            return false;
        }
    }
    assert(s@.take(p@.len() as int) =~= p@);
    true
}

/// Whether `s` is a web address the reader fetches.
pub open spec fn spec_is_url(s: Seq<char>) -> bool {
    starts_with(s, "http://"@) || starts_with(s, "https://"@)
}

/// Whether `s` starts with `http://` or `https://`.
pub fn is_url(s: &str) -> (r: bool)
    ensures
        r == spec_is_url(s@),
{
    let cs = chars_of(s);
    chars_start_with(cs.as_slice(), "http://") || chars_start_with(cs.as_slice(), "https://")
}

/// What `std::path::Path::extension` gives for the path `path`: the part
/// of the file name after its last `.`, if any (as its documentation
/// describes; the path rules are not restated here).
pub uninterp spec fn path_extension(path: Seq<char>) -> Option<Seq<char>>;

/// `Path::new(path).extension()`, as a string. A path that came from a
/// `&str` has a UTF-8 extension, so nothing is lost in the conversion.
#[verifier::external_body]
fn file_extension(path: &str) -> (r: Option<String>)
    ensures
        match r {
            Some(e) => path_extension(path@) == Some(e@),
            None => path_extension(path@) is None,
        },
{
    std::path::Path::new(path).extension().and_then(|e| e.to_str()).map(|e| e.to_string())
}

/// Whether a file extension marks Markdown: `md` or `markdown` in any
/// ASCII case.
pub open spec fn markdown_extension(ext: Seq<char>) -> bool {
    ascii_lower(ext) == "md"@ || ascii_lower(ext) == "markdown"@
}

/// Whether a file extension marks HTML: `html`, `htm` or `xhtml` in any
/// ASCII case.
pub open spec fn html_extension(ext: Seq<char>) -> bool {
    ascii_lower(ext) == "html"@ || ascii_lower(ext) == "htm"@ || ascii_lower(ext) == "xhtml"@
}

/// Whether `path` names a Markdown file.
pub open spec fn spec_is_markdown(path: Seq<char>) -> bool {
    match path_extension(path) {
        Some(e) => markdown_extension(e),
        None => false,
    }
}

/// Whether `path` names an HTML file.
pub open spec fn spec_is_html(path: Seq<char>) -> bool {
    match path_extension(path) {
        Some(e) => html_extension(e),
        None => false,
    }
}

/// Whether the file extension `ext` marks Markdown.
pub fn is_markdown_extension(ext: &str) -> (r: bool)
    ensures
        r == markdown_extension(ext@),
{
    let l = to_ascii_lowercase(ext);
    chars_eq_str(l.as_slice(), "md") || chars_eq_str(l.as_slice(), "markdown")
}

/// Whether the file extension `ext` marks HTML.
pub fn is_html_extension(ext: &str) -> (r: bool)
    ensures
        r == html_extension(ext@),
{
    let l = to_ascii_lowercase(ext);
    chars_eq_str(l.as_slice(), "html") || chars_eq_str(l.as_slice(), "htm") || chars_eq_str(l.as_slice(), "xhtml")
}

/// Whether `path` names a Markdown file (by its extension).
pub fn is_markdown(path: &str) -> (r: bool)
    ensures
        r == spec_is_markdown(path@),
{
    match file_extension(path) {
        Some(e) => is_markdown_extension(e.as_str()),
        None => false,
    }
}

/// Whether `path` names an HTML file (by its extension).
pub fn is_html(path: &str) -> (r: bool)
    ensures
        r == spec_is_html(path@),
{
    match file_extension(path) {
        Some(e) => is_html_extension(e.as_str()),
        None => false,
    }
}

/// How the reader gets text out of a source given on the command line.
#[derive(Debug, Clone, Copy, PartialEq, Eq)]
pub enum SourceKind {
    /// Fetched over HTTP and read as an article.
    Url,
    /// A Markdown file, stripped of its syntax.
    Markdown,
    /// An HTML file, read as an article.
    Html,
    /// Plain text, read as it is.
    Plain,
}

/// How the source `path` is read.
pub open spec fn spec_source_kind(path: Seq<char>) -> SourceKind {
    if spec_is_url(path) {
        SourceKind::Url
    } else if spec_is_markdown(path) {
        SourceKind::Markdown
    } else if spec_is_html(path) {
        SourceKind::Html
    } else {
        SourceKind::Plain
    }
}

/// How the source `path` is read: web addresses first, then by extension.
pub fn source_kind(path: &str) -> (k: SourceKind)
    ensures
        k == spec_source_kind(path@),
{
    if is_url(path) {
        SourceKind::Url
    } else if is_markdown(path) {
        SourceKind::Markdown
    } else if is_html(path) {
        SourceKind::Html
    } else {
        SourceKind::Plain
    }
}

/// The state of the tag stripper: text kept so far, whether it is inside a
/// tag, whether it is inside a script, and the lower-cased tag read so far.
pub struct StripState {
    pub out: Seq<char>,
    pub in_tag: bool,
    pub in_script: bool,
    pub tag: Seq<char>,
}

/// The tag stripper's state after the first `k` characters of `html`.
pub open spec fn strip_scan(html: Seq<char>, k: nat) -> StripState
    decreases k,
{
    if k == 0 {
        StripState { out: seq![], in_tag: false, in_script: false, tag: seq![] }
    } else {
        let st = strip_scan(html, (k - 1) as nat);
        let c = html[k - 1];
        if st.in_tag {
            let tag = st.tag.push(ascii_lower_char(c));
            if c == '>' {
                let script = if starts_with(tag, "script"@) {
                    true
                } else if starts_with(tag, "/script"@) {
                    false
                } else {
                    st.in_script
                };
                StripState { out: st.out, in_tag: false, in_script: script, tag: seq![] }
            } else {
                StripState { tag, ..st }
            }
        } else if c == '<' {
            StripState { in_tag: true, tag: seq![], ..st }
        } else if !st.in_script {
            StripState { out: st.out.push(c), ..st }
        } else {
            st
        }
    }
}

/// The text of `html` with its tags and the insides of its scripts taken out.
pub open spec fn stripped(html: Seq<char>) -> Seq<char> {
    strip_scan(html, html.len()).out
}

/// Takes the tags out of `html`, and the text inside `<script>` elements.
pub fn strip_tags_fallback(html: &str) -> (r: String)
    ensures
        r@ == stripped(html@),
{
    let cs = chars_of(html);
    let mut out = String::new();
    let mut in_tag = false;
    let mut in_script = false;
    let mut tag: Vec<char> = Vec::new();
    let mut i: usize = 0;
    while i < cs.len()
        invariant
            cs@ == html@,
            i <= cs@.len(),
            ({
                let st = strip_scan(html@, i as nat);
                &&& out@ == st.out
                &&& in_tag == st.in_tag
                &&& in_script == st.in_script
                &&& tag@ == st.tag
            }),
        decreases cs@.len() - i,
    {
        let c = cs[i];
        if in_tag {
            tag.push(lower_char(c));
            if c == '>' {
                if chars_start_with(tag.as_slice(), "script") {
                    in_script = true;
                } else if chars_start_with(tag.as_slice(), "/script") {
                    in_script = false;
                }
                in_tag = false;
                tag = Vec::new();
            }
        } else if c == '<' {
            in_tag = true;
            tag = Vec::new();
        } else if !in_script {
            push_char(&mut out, c);
        }
        i = i + 1;
    }
    out
}

/// The tag stripper never lets a `<` through.
pub proof fn stripped_has_no_open_bracket(html: Seq<char>)
    ensures
        !stripped(html).contains('<'),
{
    lemma_strip_scan_no_bracket(html, html.len());
}

proof fn lemma_strip_scan_no_bracket(html: Seq<char>, k: nat)
    requires
        k <= html.len(),
    ensures
        !strip_scan(html, k).out.contains('<'),
    decreases k,
{
    if k > 0 {
        lemma_strip_scan_no_bracket(html, (k - 1) as nat);
        let st = strip_scan(html, (k - 1) as nat);
        assert forall|j: int| 0 <= j < strip_scan(html, k).out.len() implies strip_scan(html, k).out[j] != '<' by {
            if j < st.out.len() {
                assert(st.out[j] != '<') by {
                    if st.out[j] == '<' {
                        assert(st.out.contains('<'));
                    }
                }
            }
        }
    }
}

/// Text without a `<` passes through the tag stripper unchanged.
pub proof fn stripped_keeps_plain_text(html: Seq<char>)
    requires
        !html.contains('<'),
    ensures
        stripped(html) == html,
{
    lemma_strip_scan_plain(html, html.len());
    assert(html.take(html.len() as int) =~= html);
}

proof fn lemma_strip_scan_plain(html: Seq<char>, k: nat)
    requires
        k <= html.len(),
        !html.contains('<'),
    ensures
        strip_scan(html, k).out == html.take(k as int),
        !strip_scan(html, k).in_tag,
        !strip_scan(html, k).in_script,
    decreases k,
{
    if k > 0 {
        lemma_strip_scan_plain(html, (k - 1) as nat);
        if html[k - 1] == '<' {
            assert(html.contains('<'));
        }
        assert(html.take(k as int) =~= html.take(k - 1).push(html[k - 1]));
    } else {
        assert(html.take(0) =~= Seq::<char>::empty());
    }
}

/// Whether `idx` places each element of `a` at a position of `b` holding
/// the same value, positions strictly increasing.
pub open spec fn embeds(a: Seq<char>, b: Seq<char>, idx: Seq<int>) -> bool {
    &&& idx.len() == a.len()
    &&& forall|j: int| 0 <= j < idx.len() ==> 0 <= #[trigger] idx[j] < b.len() && b[idx[j]] == a[j]
    &&& forall|j: int, k: int| 0 <= j < k < idx.len() ==> idx[j] < idx[k]
}

/// What the tag stripper keeps is a subsequence of its input: characters
/// only ever drop out, never move or change.
pub proof fn stripped_is_subsequence(html: Seq<char>)
    ensures
        exists|idx: Seq<int>| embeds(stripped(html), html, idx),
{
    let idx = lemma_strip_positions(html, html.len());
    assert(embeds(stripped(html), html, idx));
}

proof fn lemma_strip_positions(html: Seq<char>, k: nat) -> (idx: Seq<int>)
    requires
        k <= html.len(),
    ensures
        embeds(strip_scan(html, k).out, html, idx),
        forall|j: int| 0 <= j < idx.len() ==> #[trigger] idx[j] < k,
    decreases k,
{
    if k == 0 {
        seq![]
    } else {
        let prev = lemma_strip_positions(html, (k - 1) as nat);
        let st = strip_scan(html, (k - 1) as nat);
        let c = html[k - 1];
        if !st.in_tag && c != '<' && !st.in_script {
            let idx = prev.push(k - 1);
            assert(strip_scan(html, k).out == st.out.push(c));
            assert forall|j: int| 0 <= j < idx.len() implies 0 <= #[trigger] idx[j] < html.len()
                && html[idx[j]] == strip_scan(html, k).out[j] by {
                if j < prev.len() {
                    assert(idx[j] == prev[j]);
                }
            }
            assert forall|j: int, m: int| 0 <= j < m < idx.len() implies idx[j] < idx[m] by {
                if m < prev.len() {
                    assert(idx[j] == prev[j] && idx[m] == prev[m]);
                } else {
                    assert(idx[j] == prev[j]);
                }
            }
            idx
        } else {
            assert(strip_scan(html, k).out == st.out);
            prev
        }
    }
}

/// A Markdown parser event, as far as text extraction tells events apart.
pub enum MarkdownEvent {
    CodeBlockStart,
    CodeBlockEnd,
    Text(String),
    Code(String),
    SoftBreak,
    HardBreak,
    ParagraphEnd,
    HeadingEnd,
    ItemEnd,
    BlockQuoteEnd,
    Other,
}

/// A [`MarkdownEvent`] with its text taken by view.
pub enum MarkdownEventView {
    CodeBlockStart,
    CodeBlockEnd,
    Text(Seq<char>),
    Code(Seq<char>),
    SoftBreak,
    HardBreak,
    ParagraphEnd,
    HeadingEnd,
    ItemEnd,
    BlockQuoteEnd,
    Other,
}

impl View for MarkdownEvent {
    type V = MarkdownEventView;

    open spec fn view(&self) -> MarkdownEventView {
        match self {
            MarkdownEvent::CodeBlockStart => MarkdownEventView::CodeBlockStart,
            MarkdownEvent::CodeBlockEnd => MarkdownEventView::CodeBlockEnd,
            MarkdownEvent::Text(t) => MarkdownEventView::Text(t@),
            MarkdownEvent::Code(t) => MarkdownEventView::Code(t@),
            MarkdownEvent::SoftBreak => MarkdownEventView::SoftBreak,
            MarkdownEvent::HardBreak => MarkdownEventView::HardBreak,
            MarkdownEvent::ParagraphEnd => MarkdownEventView::ParagraphEnd,
            MarkdownEvent::HeadingEnd => MarkdownEventView::HeadingEnd,
            MarkdownEvent::ItemEnd => MarkdownEventView::ItemEnd,
            MarkdownEvent::BlockQuoteEnd => MarkdownEventView::BlockQuoteEnd,
            MarkdownEvent::Other => MarkdownEventView::Other,
        }
    }
}

/// The events `pulldown_cmark::Parser::new` yields for the Markdown `md`,
/// in order.
pub uninterp spec fn markdown_event_stream(md: Seq<char>) -> Seq<MarkdownEventView>;

/// The events of `pulldown_cmark::Parser::new(md)`, each kept by its kind
/// and, for text and inline code, its text.
#[verifier::external_body]
fn parse_markdown(md: &str) -> (r: Vec<MarkdownEvent>)
    ensures
        r@.map_values(|e: MarkdownEvent| e@) == markdown_event_stream(md@),
{
    pulldown_cmark::Parser::new(md).map(|e| match e {
        MdEv::Start(Tag::CodeBlock(_)) => MarkdownEvent::CodeBlockStart,
        MdEv::End(TagEnd::CodeBlock) => MarkdownEvent::CodeBlockEnd,
        MdEv::Text(t) => MarkdownEvent::Text(t.to_string()),
        MdEv::Code(t) => MarkdownEvent::Code(t.to_string()),
        MdEv::SoftBreak => MarkdownEvent::SoftBreak,
        MdEv::HardBreak => MarkdownEvent::HardBreak,
        MdEv::End(TagEnd::Paragraph) => MarkdownEvent::ParagraphEnd,
        MdEv::End(TagEnd::Heading(_)) => MarkdownEvent::HeadingEnd,
        MdEv::End(TagEnd::Item) => MarkdownEvent::ItemEnd,
        MdEv::End(TagEnd::BlockQuote(_)) => MarkdownEvent::BlockQuoteEnd,
        _ => MarkdownEvent::Other,
    }).collect()
}

/// The text and the code-block nesting depth after the first `k` events.
pub open spec fn events_scan(evs: Seq<MarkdownEventView>, k: nat) -> (Seq<char>, nat)
    decreases k,
{
    if k == 0 {
        (seq![], 0)
    } else {
        let (out, depth) = events_scan(evs, (k - 1) as nat);
        match evs[k - 1] {
            MarkdownEventView::CodeBlockStart => (out, depth + 1),
            MarkdownEventView::CodeBlockEnd => (out, if depth > 0 { (depth - 1) as nat } else { 0 }),
            e => if depth > 0 {
                (out, depth)
            } else {
                match e {
                    MarkdownEventView::Text(t) => (out + t, depth),
                    MarkdownEventView::Code(t) => (out + t, depth),
                    MarkdownEventView::SoftBreak => (out.push(' '), depth),
                    MarkdownEventView::HardBreak => (out.push(' '), depth),
                    MarkdownEventView::ParagraphEnd => (out.push('\n'), depth),
                    MarkdownEventView::HeadingEnd => (out.push('\n'), depth),
                    MarkdownEventView::ItemEnd => (out.push('\n'), depth),
                    MarkdownEventView::BlockQuoteEnd => (out.push('\n'), depth),
                    _ => (out, depth),
                }
            },
        }
    }
}

/// The reading text of a Markdown event stream: text and inline code as
/// they are, a space for each line break, a newline after each paragraph,
/// heading, list item and block quote; code blocks left out.
pub open spec fn events_text(evs: Seq<MarkdownEventView>) -> Seq<char> {
    events_scan(evs, evs.len()).0
}

/// The reading text of a Markdown event stream (see [`events_text`]).
pub fn text_from_events(events: &[MarkdownEvent]) -> (r: String)
    ensures
        r@ == events_text(events@.map_values(|e: MarkdownEvent| e@)),
{
    let ghost evs = events@.map_values(|e: MarkdownEvent| e@);
    let mut out = String::new();
    let mut depth: u64 = 0;
    let mut i: usize = 0;
    while i < events.len()
        invariant
            i <= events@.len(),
            evs == events@.map_values(|e: MarkdownEvent| e@),
            depth <= i,
            ({
                let (o, d) = events_scan(evs, i as nat);
                &&& out@ == o
                &&& depth as nat == d
            }),
        decreases events@.len() - i,
    {
        assert(evs[i as int] == events@[i as int]@);
        match &events[i] {
            MarkdownEvent::CodeBlockStart => {
                depth = depth + 1;
            },
            MarkdownEvent::CodeBlockEnd => {
                depth = if depth > 0 { depth - 1 } else { 0 };
            },
            e => {
                if depth == 0 {
                    match e {
                        MarkdownEvent::Text(t) => push_str(&mut out, t.as_str()),
                        MarkdownEvent::Code(t) => push_str(&mut out, t.as_str()),
                        MarkdownEvent::SoftBreak => push_char(&mut out, ' '),
                        MarkdownEvent::HardBreak => push_char(&mut out, ' '),
                        MarkdownEvent::ParagraphEnd => push_char(&mut out, '\n'),
                        MarkdownEvent::HeadingEnd => push_char(&mut out, '\n'),
                        MarkdownEvent::ItemEnd => push_char(&mut out, '\n'),
                        MarkdownEvent::BlockQuoteEnd => push_char(&mut out, '\n'),
                        _ => {},
                    }
                }
            },
        }
        i = i + 1;
    }
    out
}

/// The reading text of the Markdown document `md`.
pub fn markdown_to_text(md: &str) -> (r: String)
    ensures
        r@ == events_text(markdown_event_stream(md@)),
{
    let events = parse_markdown(md);
    text_from_events(events.as_slice())
}

/// The base address used when a document has none of its own.
pub const FALLBACK_BASE_URL: &'static str = "https://example.invalid/";

/// What `readability::extractor::extract` finds as the article text of the
/// HTML document `html` read against the base address `base_url`; `None`
/// when it reports an error (the scoring rules are not restated here).
pub uninterp spec fn article_text(html: Seq<char>, base_url: Seq<char>) -> Option<Seq<char>>;

/// `readability::extractor::extract` on the bytes of `html`, with the base
/// address `base_url` parsed by `url::Url::parse` as the call needs it; the
/// extracted `text`, or `None` on any error.
#[verifier::external_body]
fn extract_article_text(html: &str, base_url: &str) -> (r: Option<String>)
    ensures
        match r {
            Some(t) => article_text(html@, base_url@) == Some(t@),
            None => article_text(html@, base_url@) is None,
        },
{
    let url = url::Url::parse(base_url).ok()?;
    let mut input = std::io::Cursor::new(html.as_bytes().to_vec());
    readability::extractor::extract(&mut input, &url).ok().map(|p| p.text)
}

/// The text an HTML reader shows: the extracted article if there is one,
/// else `html` with its tags stripped.
pub open spec fn html_text(html: Seq<char>, extracted: Option<Seq<char>>) -> Seq<char> {
    match extracted {
        Some(t) => t,
        None => stripped(html),
    }
}

/// The extracted article `extracted` if there is one, else `html` with its
/// tags stripped.
pub fn text_or_fallback(html: &str, extracted: Option<String>) -> (r: String)
    ensures
        r@ == html_text(html@, match extracted { Some(t) => Some(t@), None => None }),
{
    match extracted {
        Some(t) => t,
        None => strip_tags_fallback(html),
    }
}

/// The reading text of the HTML document `html`, whose address is
/// `base_url` when known.
pub fn html_to_text(html: &str, base_url: Option<&str>) -> (r: String)
    ensures
        r@ == html_text(
            html@,
            article_text(html@, match base_url { Some(u) => u@, None => FALLBACK_BASE_URL@ }),
        ),
{
    let url = match base_url {
        Some(u) => u,
        None => FALLBACK_BASE_URL,
    };
    let extracted = extract_article_text(html, url);
    text_or_fallback(html, extracted)
}

} // verus!

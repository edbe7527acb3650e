//! The content synthesis pipeline: from a fetched page to a clean, packageable
//! document. Fetching, probing images and writing files happen outside; each
//! stage here takes what was fetched as a plain value.
use vstd::prelude::*;
use vstd::string::*;

use crate::ident::{
    hyphenated, identifier, identifier_text, lemma_hyphenated_injective, oid_identifier,
};
use crate::text::{
    encode_text, escaped, push_char, replace_text, replaced, text_bytes, text_from_bytes,
};

verus! {

/// What `ammonia` makes of `dirty` with the tag `removed_tag` no longer allowed
/// and the attribute `removed_attribute` no longer allowed on `element`.
pub uninterp spec fn sanitized(
    dirty: Seq<char>,
    removed_tag: Seq<char>,
    element: Seq<char>,
    removed_attribute: Seq<char>,
) -> Seq<char>;

/// What `regex` makes of `text` when every match of `pattern` is replaced by
/// `replacement`; `None` when `pattern` is not a valid expression.
pub uninterp spec fn regex_replaced(
    pattern: Seq<char>,
    text: Seq<char>,
    replacement: Seq<char>,
) -> Option<Seq<char>>;

/// The text that the group `group` captured in each successive match of
/// `pattern` in `text`; `None` when `pattern` is not a valid expression.
pub uninterp spec fn regex_captures(
    pattern: Seq<char>,
    text: Seq<char>,
    group: Seq<char>,
) -> Option<Seq<Option<Seq<char>>>>;

/// The serialisation of `url` once parsed by the `url` crate; `None` when it
/// does not parse.
pub uninterp spec fn normalized_url(url: Seq<char>) -> Option<Seq<char>>;

/// Relies on `ammonia::Builder::clean` (from the default builder, with
/// `rm_tags` and `rm_tag_attributes`): the cleaned markup is a function of its
/// input and of the builder's settings.
#[verifier::external_body]
fn sanitize(dirty: &str, removed_tag: &str, element: &str, removed_attribute: &str) -> (r: String)
    ensures
        r@ == sanitized(dirty@, removed_tag@, element@, removed_attribute@),
{
    ammonia::Builder::default()
        .rm_tags(&[removed_tag])
        .rm_tag_attributes(element, &[removed_attribute])
        .clean(dirty)
        .to_string()
}

/// Relies on `regex::Regex::new` and `Regex::replace_all`.
#[verifier::external_body]
fn regex_replace_all(pattern: &str, text: &str, replacement: &str) -> (r: Option<String>)
    ensures
        match r {
            Some(s) => regex_replaced(pattern@, text@, replacement@) == Some(s@),
            None => regex_replaced(pattern@, text@, replacement@) is None,
        },
{
    match regex::Regex::new(pattern) {
        Ok(re) => Some(re.replace_all(text, replacement).to_string()),
        Err(_) => None,
    }
}

/// Relies on `regex::Regex::new`, `Regex::captures_iter` and `Captures::name`.
#[verifier::external_body]
fn regex_capture_all(pattern: &str, text: &str, group: &str) -> (r: Option<Vec<Option<String>>>)
    ensures
        match r {
            Some(v) => regex_captures(pattern@, text@, group@) == Some(
                v@.map_values(|o: Option<String>| opt_view(o)),
            ),
            None => regex_captures(pattern@, text@, group@) is None,
        },
{
    let re = match regex::Regex::new(pattern) {
        Ok(re) => re,
        Err(_) => return None,
    };
    let mut out: Vec<Option<String>> = Vec::new();
    for c in re.captures_iter(text) {
        out.push(match c.name(group) {
            Some(m) => Some(m.as_str().to_string()),
            None => None,
        });
    }
    Some(out)
}

/// Relies on `url::Url::parse` and the URL's serialisation.
#[verifier::external_body]
fn normalize_url(url: &str) -> (r: Option<String>)
    ensures
        opt_view(r) == normalized_url(url@),
{
    match url::Url::parse(url) {
        Ok(u) => Some(u.to_string()),
        Err(_) => None,
    }
}

/// What the DOM-based readability strategy extracted from a page.
#[derive(Clone, Debug)]
pub struct Extraction {
    /// The serialised readable tree; `None` when serialising failed.
    pub content: Option<Vec<u8>>,
    pub page_title: Option<String>,
    pub article_title: Option<String>,
    pub byline: Option<String>,
    pub description: Option<String>,
}

/// The plain values of an extraction: the serialised tree, then the page
/// title, the article title, the byline and the description.
pub type ExtractionView = (
    Option<Seq<u8>>,
    Option<Seq<char>>,
    Option<Seq<char>>,
    Option<Seq<char>>,
    Option<Seq<char>>,
);

/// What the readability strategy extracts from the page `body` with base URL
/// `base`.
pub uninterp spec fn readable_of(body: Seq<char>, base: Seq<char>) -> ExtractionView;

/// The plain values of an extraction.
pub open spec fn extraction_view(ex: Extraction) -> ExtractionView {
    (
        match ex.content {
            Some(b) => Some(b@),
            None => None,
        },
        opt_view(ex.page_title),
        opt_view(ex.article_title),
        opt_view(ex.byline),
        opt_view(ex.description),
    )
}

/// Relies on `readable_readability::Readability::parse`, with `base` as the
/// base URL, and on serialising the tree it returns: the result is a function
/// of the page and the base URL.
#[verifier::external_body]
fn readable_extract(body: &str, base: &str) -> (r: Extraction)
    ensures
        extraction_view(r) == readable_of(body@, base@),
{
    let base = url::Url::parse(base).ok();
    let (node, meta) = readable_readability::Readability::new().base_url(base).parse(body);
    let mut bytes: Vec<u8> = Vec::new();
    let content = match node.serialize(&mut bytes) {
        Ok(()) => Some(bytes),
        Err(_) => None,
    };
    Extraction {
        content,
        page_title: meta.page_title,
        article_title: meta.article_title,
        byline: meta.byline,
        description: meta.description,
    }
}

/// The view of an optional text.
pub open spec fn opt_view(o: Option<String>) -> Option<Seq<char>> {
    match o {
        Some(s) => Some(s@),
        None => None,
    }
}

/// An optional text, or `default` when it is absent.
pub open spec fn or_default(o: Option<Seq<char>>, default: Seq<char>) -> Seq<char> {
    match o {
        Some(s) => s,
        None => default,
    }
}

/// The number of bytes of a text in UTF-8.
pub open spec fn byte_len(s: Seq<char>) -> int {
    vstd::utf8::encode_utf8(s).len() as int
}

/// The extraction that wins: the longer one in bytes, the first one on a tie.
pub open spec fn selected(a: Seq<char>, b: Seq<char>) -> Seq<char> {
    if byte_len(a) >= byte_len(b) {
        a
    } else {
        b
    }
}

/// Picks between the two extractions: the longer one in bytes wins, and a tie
/// keeps the first.
pub fn select_content(a: String, b: String) -> (r: String)
    ensures
        r@ == selected(a@, b@),
{
    if a.as_str().as_bytes().len() >= b.as_str().as_bytes().len() {
        a
    } else {
        b
    }
}

/// The document template; the markers in double braces are filled in.
pub const TEMPLATE: &'static str = "<?xml version=\"1.0\" encoding=\"UTF-8\"?>\n<!DOCTYPE html>\n<html xmlns=\"http://www.w3.org/1999/xhtml\">\n<head>\n<meta charset=\"utf-8\" />\n<title>{{page_title}}</title>\n{{canonical}}\n</head>\n<body>\n<h1>{{article_title}}</h1>\n<p class=\"header\">{{header}}</p>\n{{content}}\n</body>\n</html>\n";

/// The canonical-link element for `url`.
pub open spec fn canonical_link(url: Seq<char>) -> Seq<char> {
    "<link rel=\"canonical\" href=\""@ + url + "\" />"@
}

/// The template with each marker replaced by its field.
pub open spec fn rendered(
    page_title: Seq<char>,
    article_title: Seq<char>,
    header: Seq<char>,
    content: Seq<char>,
    canonical: Option<Seq<char>>,
) -> Seq<char> {
    let t = replaced(TEMPLATE@, "{{page_title}}"@, page_title);
    let t = replaced(t, "{{article_title}}"@, article_title);
    let t = replaced(t, "{{header}}"@, header);
    let t = replaced(t, "{{content}}"@, content);
    replaced(
        t,
        "{{canonical}}"@,
        match canonical {
            Some(c) => canonical_link(c),
            None => Seq::empty(),
        },
    )
}

/// The banner of a synthesised document.
pub open spec fn header_text(url: Seq<char>, retrieved_on: Seq<char>) -> Seq<char> {
    "A rePocket-able version of <a class=\"shortened\" href=\""@ + url + "\">"@ + url
        + "</a><br />Retrieved on "@ + retrieved_on
}

/// The banner of a failure document.
pub open spec fn failure_header(reason: Seq<char>) -> Seq<char> {
    "Could not get the article contents. Reason: "@ + escaped(reason)
}

/// The body of a failure document.
pub open spec fn failure_content(reason: Seq<char>) -> Seq<char> {
    "<p>Could not get the article contents. Reason: "@ + escaped(reason) + "</p>"@
}

/// The placeholder standing for the scraping strategy when it failed.
pub open spec fn placeholder_content(reason: Seq<char>) -> Seq<char> {
    "<p>readability::extractor didn't work: "@ + reason + "</p>"@
}

/// A regular-expression rewrite, or the text unchanged when the expression is invalid.
pub open spec fn regex_step(text: Seq<char>, pattern: Seq<char>, replacement: Seq<char>) -> Seq<
    char,
> {
    match regex_replaced(pattern, text, replacement) {
        Some(r) => r,
        None => text,
    }
}

/// Each image URL replaced, in turn, by its local resource name.
pub open spec fn images_replaced(s: Seq<char>, images: Seq<(Seq<char>, Seq<char>)>) -> Seq<char>
    decreases images.len(),
{
    if images.len() == 0 {
        s
    } else if images[0].0.len() == 0 {
        images_replaced(s, images.drop_first())
    } else {
        images_replaced(replaced(s, images[0].0, images[0].1), images.drop_first())
    }
}

/// The markup after cleaning: sanitised without `div` elements and `alt`
/// attributes on images, void elements closed in XML style, image maps and
/// empty images dropped, and image URLs pointing at local resources.
pub open spec fn cleaned(html: Seq<char>, images: Seq<(Seq<char>, Seq<char>)>) -> Seq<char> {
    let s = sanitized(html, "div"@, "img"@, "alt"@);
    let s = regex_step(s, "<img(.*?)>"@, "<img$1 />"@);
    let s = regex_step(s, "<map>.*?</map>"@, ""@);
    let s = regex_step(s, "<source(.*?)>"@, "<source$1 />"@);
    let s = replaced(s, "<img />"@, Seq::empty());
    let s = replaced(s, "<hr>"@, "<hr />"@);
    let s = replaced(s, "<br>"@, "<br />"@);
    images_replaced(s, images)
}

/// The image sources found in the markup: the non-empty `src` of each image.
pub open spec fn sources_in(caps: Seq<Option<Seq<char>>>) -> Seq<Seq<char>>
    decreases caps.len(),
{
    if caps.len() == 0 {
        Seq::empty()
    } else {
        let rest = sources_in(caps.drop_last());
        match caps.last() {
            Some(s) => if s.len() > 0 {
                rest.push(s)
            } else {
                rest
            },
            None => rest,
        }
    }
}

/// The image sources of `content`.
pub open spec fn image_sources_of(content: Seq<char>) -> Seq<Seq<char>> {
    match regex_captures("<img.*?src=\"(?<url>.*?)\".*?>"@, content, "url"@) {
        Some(caps) => sources_in(caps),
        None => Seq::empty(),
    }
}

/// The last position of `c` in `s`.
pub open spec fn last_index(s: Seq<char>, c: char) -> Option<int>
    decreases s.len(),
{
    if s.len() == 0 {
        None
    } else if s.last() == c {
        Some(s.len() - 1)
    } else {
        last_index(s.drop_last(), c)
    }
}

/// The local resource name of the image at `url` with media type `mime`: its
/// identifier, prefixed by `p`, with the media subtype as extension. `None`
/// when the media type has no `/`.
pub open spec fn resource_name_of(url: Seq<char>, mime: Seq<char>) -> Option<Seq<char>> {
    match last_index(mime, '/') {
        Some(i) => Some(
            seq!['p'] + hyphenated(oid_identifier(url)) + seq!['.'] + mime.subrange(
                i + 1,
                mime.len() as int,
            ),
        ),
        None => None,
    }
}

/// The last position of `url` among the pairs.
pub open spec fn pair_index(s: Seq<(Seq<char>, Seq<char>)>, url: Seq<char>) -> Option<int>
    decreases s.len(),
{
    if s.len() == 0 {
        None
    } else if s.last().0 == url {
        Some(s.len() - 1)
    } else {
        pair_index(s.drop_last(), url)
    }
}

/// The pairs with `(url, name)` put in: replacing the pair of the same URL, or
/// appended.
pub open spec fn put_pair(s: Seq<(Seq<char>, Seq<char>)>, url: Seq<char>, name: Seq<char>) -> Seq<
    (Seq<char>, Seq<char>),
> {
    match pair_index(s, url) {
        Some(i) => s.update(i, (url, name)),
        None => s.push((url, name)),
    }
}

/// The view of the image pairs.
pub open spec fn pairs_view(v: Seq<(String, String)>) -> Seq<(Seq<char>, Seq<char>)> {
    v.map_values(|p: (String, String)| (p.0@, p.1@))
}

/// The file type a document is written as.
#[derive(Clone, Copy, Debug, PartialEq, Eq, Structural)]
pub enum FileType {
    Epub,
    Pdf,
    Html,
}

/// The file type written for a request: binary documents are always written
/// as PDF; an unknown request falls back to EPUB.
pub open spec fn format_for(requested: Seq<char>, is_pdf: bool) -> FileType {
    if is_pdf || requested == "pdf"@ {
        FileType::Pdf
    } else if requested == "html"@ {
        FileType::Html
    } else {
        FileType::Epub
    }
}

/// The file extension of a file type.
pub open spec fn extension_of(t: FileType) -> Seq<char> {
    match t {
        FileType::Epub => "epub"@,
        FileType::Pdf => "pdf"@,
        FileType::Html => "html"@,
    }
}

/// Why extraction failed when the readable tree could not be serialised.
pub open spec fn serialise_failure() -> Seq<char> {
    "the readable content could not be serialised"@
}

/// Why extraction failed when the readable tree was not valid UTF-8.
pub open spec fn encoding_failure() -> Seq<char> {
    "the readable content is not valid UTF-8"@
}

/// Why synthesis failed when the source URL does not parse.
pub open spec fn url_failure() -> Seq<char> {
    "the source URL could not be parsed"@
}

/// A document synthesised from one remote item.
#[derive(Clone, Debug)]
pub struct ArticleHandler {
    /// The resolved URL of the item.
    pub url: String,
    /// The fetched bytes are a binary document, kept verbatim in `payload`.
    pub is_pdf: bool,
    /// The document explains a failure in place of the content.
    pub failed: bool,
    /// The identifier derived from the URL.
    pub uuid: u128,
    pub page_title: String,
    pub article_title: String,
    pub author: String,
    pub header: String,
    pub description: String,
    /// The markup of the article.
    pub content: String,
    /// The bytes of a binary document.
    pub payload: Vec<u8>,
    pub canonical: Option<String>,
    /// Each image URL with its local resource name.
    pub images: Vec<(String, String)>,
}

impl ArticleHandler {
    /// This document explains, for the same source as `before`, the failure `reason`.
    pub open spec fn is_failure_of(self, before: ArticleHandler, reason: Seq<char>) -> bool {
        &&& self.url@ == before.url@
        &&& self.uuid == before.uuid
        &&& self.failed
        &&& !self.is_pdf
        &&& self.page_title@ == "rePocket Failed!"@
        &&& self.article_title@.len() == 0
        &&& self.author@.len() == 0
        &&& self.description@.len() == 0
        &&& self.header@ == failure_header(reason)
        &&& self.content@ == failure_content(reason)
        &&& self.payload@.len() == 0
        &&& self.canonical is None
        &&& self.images@.len() == 0
    }

    /// This document holds, for the same source as `before`, the extraction
    /// `ex` of the page at `url` retrieved on `when`, with markup `content`.
    pub open spec fn is_extraction_of(
        self,
        before: ArticleHandler,
        url: Seq<char>,
        ex: ExtractionView,
        when: Seq<char>,
        content: Seq<char>,
    ) -> bool {
        &&& self.url@ == before.url@
        &&& self.uuid == before.uuid
        &&& !self.failed
        &&& !self.is_pdf
        &&& self.content@ == content
        &&& self.header@ == header_text(url, when)
        &&& self.author@ == or_default(ex.3, "Unknown"@)
        &&& self.page_title@ == escaped(or_default(ex.1, "Page"@))
        &&& self.article_title@ == escaped(or_default(ex.2, "Article"@))
        &&& self.description@ == escaped(or_default(ex.4, "Description"@))
        &&& opt_view(self.canonical) == Some(url)
        &&& self.payload@ == before.payload@
        &&& self.images@ == before.images@
    }

    /// This document took in, for the same source as `before`, the extraction
    /// `ex` of the page at `url` retrieved on `when`: a failure document when
    /// the tree is missing or is not UTF-8, the extraction otherwise.
    pub open spec fn takes_extraction(
        self,
        before: ArticleHandler,
        url: Seq<char>,
        ex: ExtractionView,
        when: Seq<char>,
    ) -> bool {
        match ex.0 {
            None => self.is_failure_of(before, serialise_failure()),
            Some(b) => if vstd::utf8::valid_utf8(b) {
                self.is_extraction_of(before, url, ex, when, vstd::utf8::decode_utf8(b))
            } else {
                self.is_failure_of(before, encoding_failure())
            },
        }
    }

    /// A blank document for the item at `url`.
    pub fn new(url: &str) -> (r: ArticleHandler)
        ensures
            r.url@ == url@,
            r.uuid == oid_identifier(url@),
            !r.is_pdf,
            !r.failed,
            r.page_title@.len() == 0,
            r.article_title@.len() == 0,
            r.author@.len() == 0,
            r.header@.len() == 0,
            r.description@.len() == 0,
            r.content@.len() == 0,
            r.payload@.len() == 0,
            r.canonical is None,
            r.images@.len() == 0,
    {
        ArticleHandler {
            url: String::from_str(url),
            is_pdf: false,
            failed: false,
            uuid: identifier(url),
            page_title: String::new(),
            article_title: String::new(),
            author: String::new(),
            header: String::new(),
            description: String::new(),
            content: String::new(),
            payload: Vec::new(),
            canonical: None,
            images: Vec::new(),
        }
    }

    pub fn title(&self) -> (r: String)
        ensures
            r@ == self.article_title@,
    {
        self.article_title.clone()
    }

    pub fn uuid(&self) -> (r: u128)
        ensures
            r == self.uuid,
    {
        self.uuid
    }

    /// The text of the identifier: the stem of the document's file names.
    pub fn uuid_string(&self) -> (r: String)
        ensures
            r@ == hyphenated(self.uuid),
    {
        identifier_text(self.uuid)
    }

    /// Turns this document into one that explains the failure `reason`.
    pub fn fail(&mut self, reason: &str)
        ensures
            final(self).is_failure_of(*old(self), reason@),
    {
        let mut header = String::from_str("Could not get the article contents. Reason: ");
        let why = encode_text(reason);
        header.append(why.as_str());
        let mut content = String::from_str("<p>Could not get the article contents. Reason: ");
        content.append(why.as_str());
        content.append("</p>");
        self.is_pdf = false;
        self.failed = true;
        self.page_title = String::from_str("rePocket Failed!");
        self.article_title = String::new();
        self.author = String::new();
        self.description = String::new();
        self.header = header;
        self.content = content;
        self.payload = Vec::new();
        self.canonical = None;
        self.images = Vec::new();
    }

    /// Whether a response of this declared content type is a binary document.
    pub fn is_passthrough(content_type: &str) -> (r: bool)
        ensures
            r == (content_type@ == "application/pdf"@),
    {
        String::from_str(content_type) == String::from_str("application/pdf")
    }

    /// Keeps the fetched bytes of a binary document verbatim.
    pub fn accept_passthrough(&mut self, bytes: Vec<u8>)
        ensures
            *final(self) == (ArticleHandler { is_pdf: true, payload: bytes, ..*old(self) }),
    {
        self.is_pdf = true;
        self.payload = bytes;
    }

    /// Takes in what the readability strategy extracted from the page at
    /// `url`, retrieved on `retrieved_on`: missing fields get their defaults,
    /// text fields are escaped, and the banner and canonical link name `url`.
    pub fn apply_extraction(&mut self, url: &str, ex: Extraction, retrieved_on: &str)
        ensures
            final(self).takes_extraction(*old(self), url@, extraction_view(ex), retrieved_on@),
    {
        let content = match ex.content {
            None => {
                self.fail("the readable content could not be serialised");
                return ;
            },
            Some(b) => match text_from_bytes(b) {
                Some(t) => t,
                None => {
                    self.fail("the readable content is not valid UTF-8");
                    return ;
                },
            },
        };
        let mut header = String::from_str("A rePocket-able version of <a class=\"shortened\" href=\"");
        header.append(url);
        header.append("\">");
        header.append(url);
        header.append("</a><br />Retrieved on ");
        header.append(retrieved_on);
        self.header = header;
        self.author = match ex.byline {
            Some(b) => b,
            None => String::from_str("Unknown"),
        };
        self.page_title = match ex.page_title {
            Some(t) => encode_text(t.as_str()),
            None => encode_text("Page"),
        };
        self.article_title = match ex.article_title {
            Some(t) => encode_text(t.as_str()),
            None => encode_text("Article"),
        };
        self.description = match ex.description {
            Some(t) => encode_text(t.as_str()),
            None => encode_text("Description"),
        };
        self.canonical = Some(String::from_str(url));
        self.content = content;
        self.is_pdf = false;
        self.failed = false;
    }

    /// Runs the readability strategy on the fetched `body`, with the parsed
    /// source URL as base, and takes its result in; a URL that does not parse
    /// makes this a failure document.
    pub fn accept_markup(&mut self, body: &str, retrieved_on: &str)
        ensures
            match normalized_url(old(self).url@) {
                None => final(self).is_failure_of(*old(self), url_failure()),
                Some(u) => final(self).takes_extraction(
                    *old(self),
                    u,
                    readable_of(body@, u),
                    retrieved_on@,
                ),
            },
    {
        match normalize_url(self.url.as_str()) {
            None => {
                self.fail("the source URL could not be parsed");
            },
            Some(u) => {
                let ex = readable_extract(body, u.as_str());
                self.apply_extraction(u.as_str(), ex, retrieved_on);
            },
        }
    }

    /// The placeholder that stands for the scraping strategy's output when it failed.
    pub fn alternative_placeholder(reason: &str) -> (r: String)
        ensures
            r@ == placeholder_content(reason@),
    {
        let mut r = String::from_str("<p>readability::extractor didn't work: ");
        r.append(reason);
        r.append("</p>");
        r
    }

    /// Offers the scraping strategy's markup: it replaces the current content
    /// when it is longer in bytes. Failure and binary documents are kept.
    pub fn offer_alternative(&mut self, alternative: String)
        ensures
            final(self).content@ == if old(self).failed || old(self).is_pdf {
                old(self).content@
            } else {
                selected(old(self).content@, alternative@)
            },
            *final(self) == (ArticleHandler { content: final(self).content, ..*old(self) }),
    {
        if !self.failed && !self.is_pdf {
            let current = self.content.clone();
            self.content = select_content(current, alternative);
        }
    }
}

/// The captured texts, as the view of the wrapper's result.
fn keep_sources(caps: &Vec<Option<String>>) -> (r: Vec<String>)
    ensures
        r@.map_values(|t: String| t@) == sources_in(caps@.map_values(|o: Option<String>| opt_view(o))),
{
    let ghost cv = caps@.map_values(|o: Option<String>| opt_view(o));
    let mut out: Vec<String> = Vec::new();
    let mut i: usize = 0;
    while i < caps.len()
        invariant
            i <= caps@.len(),
            cv == caps@.map_values(|o: Option<String>| opt_view(o)),
            out@.map_values(|t: String| t@) == sources_in(cv.subrange(0, i as int)),
        decreases caps@.len() - i,
    {
        let ghost pre = cv.subrange(0, i + 1);
        assert(pre.drop_last() =~= cv.subrange(0, i as int));
        assert(pre.last() == opt_view(caps@[i as int]));
        match &caps[i] {
            Some(t) => {
                if !t.as_str().is_empty() {
                    let ghost before = out@;
                    out.push(t.clone());
                    assert(out@.map_values(|t: String| t@) =~= before.map_values(|t: String| t@).push(
                        t@,
                    ));
                }
            },
            None => {},
        }
        i = i + 1;
    }
    assert(cv.subrange(0, caps@.len() as int) =~= cv);
    out
}

/// The position of `url` among the image pairs, searching from the end.
fn find_pair(images: &Vec<(String, String)>, url: &String) -> (r: Option<usize>)
    ensures
        match r {
            Some(i) => i < images@.len() && pair_index(pairs_view(images@), url@) == Some(i as int),
            None => pair_index(pairs_view(images@), url@) is None,
        },
{
    let ghost pv = pairs_view(images@);
    let mut j: usize = images.len();
    assert(pv.subrange(0, j as int) =~= pv);
    while j > 0
        invariant
            j <= images@.len(),
            pv == pairs_view(images@),
            pair_index(pv, url@) == pair_index(pv.subrange(0, j as int), url@),
        decreases j,
    {
        let ghost sub = pv.subrange(0, j as int);
        assert(sub.last() == pv[j - 1]);
        if images[j - 1].0 == *url {
            return Some(j - 1);
        }
        assert(sub.drop_last() =~= pv.subrange(0, j - 1));
        j = j - 1;
    }
    assert(pv.subrange(0, 0).len() == 0);
    None
}

/// The last position of `c` in `s`.
fn find_last(s: &str, c: char) -> (r: Option<usize>)
    ensures
        match r {
            Some(i) => i < s@.len() && last_index(s@, c) == Some(i as int),
            None => last_index(s@, c) is None,
        },
{
    let n = s.unicode_len();
    let mut j: usize = n;
    assert(s@.subrange(0, j as int) =~= s@);
    while j > 0
        invariant
            n == s@.len(),
            j <= n,
            last_index(s@, c) == last_index(s@.subrange(0, j as int), c),
        decreases j,
    {
        let ghost sub = s@.subrange(0, j as int);
        if s.get_char(j - 1) == c {
            return Some(j - 1);
        }
        assert(sub.drop_last() =~= s@.subrange(0, j - 1));
        j = j - 1;
    }
    assert(s@.subrange(0, 0).len() == 0);
    None
}

/// The local resource name of the image at `url` with media type `mime`.
pub fn resource_name(url: &str, mime: &str) -> (r: Option<String>)
    ensures
        opt_view(r) == resource_name_of(url@, mime@),
{
    match find_last(mime, '/') {
        None => None,
        Some(i) => {
            let n = mime.unicode_len();
            let ext = mime.substring_char(i + 1, n);
            let mut name = String::new();
            push_char(&mut name, 'p');
            let id = identifier_text(identifier(url));
            name.append(id.as_str());
            push_char(&mut name, '.');
            name.append(ext);
            assert(name@ =~= seq!['p'] + hyphenated(oid_identifier(url@)) + seq!['.']
                + mime@.subrange(i + 1, mime@.len() as int));
            Some(name)
        },
    }
}

fn replace_images(s: String, images: &Vec<(String, String)>) -> (r: String)
    ensures
        r@ == images_replaced(s@, pairs_view(images@)),
{
    let ghost pv = pairs_view(images@);
    let mut out = s;
    let mut i: usize = 0;
    assert(pv.subrange(0, pv.len() as int) =~= pv);
    while i < images.len()
        invariant
            i <= images@.len(),
            pv == pairs_view(images@),
            images_replaced(s@, pv) == images_replaced(out@, pv.subrange(i as int, pv.len() as int)),
        decreases images@.len() - i,
    {
        let ghost rest = pv.subrange(i as int, pv.len() as int);
        assert(rest[0] == pv[i as int]);
        assert(rest.drop_first() =~= pv.subrange(i + 1, pv.len() as int));
        if !images[i].0.as_str().is_empty() {
            out = replace_text(out.as_str(), images[i].0.as_str(), images[i].1.as_str());
        }
        i = i + 1;
    }
    out
}

fn regex_or_keep(text: String, pattern: &str, replacement: &str) -> (r: String)
    ensures
        r@ == regex_step(text@, pattern@, replacement@),
{
    match regex_replace_all(pattern, text.as_str(), replacement) {
        Some(t) => t,
        None => text,
    }
}

impl ArticleHandler {
    /// The non-empty sources of the images in the markup, in order.
    pub fn image_sources(&self) -> (r: Vec<String>)
        ensures
            r@.map_values(|t: String| t@) == image_sources_of(self.content@),
    {
        match regex_capture_all("<img.*?src=\"(?<url>.*?)\".*?>", self.content.as_str(), "url") {
            Some(caps) => keep_sources(&caps),
            None => {
                let r: Vec<String> = Vec::new();
                assert(r@.map_values(|t: String| t@) =~= Seq::<Seq<char>>::empty());
                r
            },
        }
    }

    /// Records the image at `url`, whose media type a probe found to be
    /// `mime`, under its local resource name. Nothing changes, and `false` is
    /// returned, for a failure document, an empty URL or a media type without
    /// a subtype.
    pub fn add_image(&mut self, url: String, mime: &str) -> (r: bool)
        ensures
            match resource_name_of(url@, mime@) {
                Some(name) => if old(self).failed || url@.len() == 0 {
                    !r && *final(self) == *old(self)
                } else {
                    &&& r
                    &&& pairs_view(final(self).images@) == put_pair(
                        pairs_view(old(self).images@),
                        url@,
                        name,
                    )
                    &&& *final(self) == (ArticleHandler {
                        images: final(self).images,
                        ..*old(self)
                    })
                },
                None => !r && *final(self) == *old(self),
            },
    {
        if self.failed || url.as_str().is_empty() {
            return false;
        }
        let name = match resource_name(url.as_str(), mime) {
            Some(n) => n,
            None => {
                return false;
            },
        };
        let ghost old_pv = pairs_view(self.images@);
        let ghost nv = name@;
        let ghost uv = url@;
        match find_pair(&self.images, &url) {
            Some(i) => {
                self.images.set(i, (url, name));
                assert(pairs_view(self.images@) =~= old_pv.update(i as int, (uv, nv)));
            },
            None => {
                self.images.push((url, name));
                assert(pairs_view(self.images@) =~= old_pv.push((uv, nv)));
            },
        }
        true
    }

    /// Cleans markup for packaging (see `cleaned`), pointing the recorded
    /// image URLs at their local resource names.
    pub fn cleanup_html(&self, html: &str) -> (r: String)
        ensures
            r@ == cleaned(html@, pairs_view(self.images@)),
    {
        let out = sanitize(html, "div", "img", "alt");
        let out = regex_or_keep(out, "<img(.*?)>", "<img$1 />");
        let out = regex_or_keep(out, "<map>.*?</map>", "");
        let out = regex_or_keep(out, "<source(.*?)>", "<source$1 />");
        proof {
            reveal_strlit("<img />");
            reveal_strlit("<hr>");
            reveal_strlit("<br>");
            reveal_strlit("");
        }
        assert(""@ =~= Seq::<char>::empty());
        let out = replace_text(out.as_str(), "<img />", "");
        let out = replace_text(out.as_str(), "<hr>", "<hr />");
        let out = replace_text(out.as_str(), "<br>", "<br />");
        replace_images(out, &self.images)
    }

    /// Cleans the markup of an extracted document; failure and binary
    /// documents are kept.
    pub fn finish(&mut self)
        ensures
            final(self).content@ == if old(self).failed || old(self).is_pdf {
                old(self).content@
            } else {
                cleaned(old(self).content@, pairs_view(old(self).images@))
            },
            *final(self) == (ArticleHandler { content: final(self).content, ..*old(self) }),
    {
        if !self.failed && !self.is_pdf {
            self.content = self.cleanup_html(self.content.as_str());
        }
    }

    /// The document as markup: the template filled with its fields.
    pub fn html(&self) -> (r: Vec<u8>)
        ensures
            r@ == vstd::utf8::encode_utf8(
                rendered(
                    self.page_title@,
                    self.article_title@,
                    self.header@,
                    self.content@,
                    opt_view(self.canonical),
                ),
            ),
    {
        proof {
            reveal_strlit("{{page_title}}");
            reveal_strlit("{{article_title}}");
            reveal_strlit("{{header}}");
            reveal_strlit("{{content}}");
            reveal_strlit("{{canonical}}");
            reveal_strlit("");
        }
        let t = replace_text(TEMPLATE, "{{page_title}}", self.page_title.as_str());
        let t = replace_text(t.as_str(), "{{article_title}}", self.article_title.as_str());
        let t = replace_text(t.as_str(), "{{header}}", self.header.as_str());
        let t = replace_text(t.as_str(), "{{content}}", self.content.as_str());
        let t = match &self.canonical {
            Some(c) => {
                let mut link = String::from_str("<link rel=\"canonical\" href=\"");
                link.append(c.as_str());
                link.append("\" />");
                replace_text(t.as_str(), "{{canonical}}", link.as_str())
            },
            None => {
                assert(""@ =~= Seq::<char>::empty());
                replace_text(t.as_str(), "{{canonical}}", "")
            },
        };
        text_bytes(t.as_str())
    }

    /// The file type written for the request `requested`.
    pub fn save_format(&self, requested: &str) -> (r: FileType)
        ensures
            r == format_for(requested@, self.is_pdf),
    {
        let req = String::from_str(requested);
        if self.is_pdf || req == String::from_str("pdf") {
            FileType::Pdf
        } else if req == String::from_str("html") {
            FileType::Html
        } else {
            FileType::Epub
        }
    }

    /// The file name of the document written as `t`: its identifier text and
    /// the type's extension.
    pub fn file_name(&self, t: FileType) -> (r: String)
        ensures
            r@ == hyphenated(self.uuid) + seq!['.'] + extension_of(t),
    {
        let mut name = identifier_text(self.uuid);
        push_char(&mut name, '.');
        match t {
            FileType::Epub => name.append("epub"),
            FileType::Pdf => name.append("pdf"),
            FileType::Html => name.append("html"),
        }
        name
    }

    /// The bytes written for the document as markup or as PDF: the filled
    /// template for markup; for PDF the fetched bytes of a binary document,
    /// and the bare markup otherwise.
    pub fn plain_bytes(&self, t: FileType) -> (r: Vec<u8>)
        requires
            t != FileType::Epub,
        ensures
            t == FileType::Html ==> r@ == vstd::utf8::encode_utf8(
                rendered(
                    self.page_title@,
                    self.article_title@,
                    self.header@,
                    self.content@,
                    opt_view(self.canonical),
                ),
            ),
            t == FileType::Pdf && self.is_pdf ==> r@ == self.payload@,
            t == FileType::Pdf && !self.is_pdf ==> r@ == vstd::utf8::encode_utf8(self.content@),
    {
        match t {
            FileType::Html => self.html(),
            _ => if self.is_pdf {
                self.payload.clone()
            } else {
                text_bytes(self.content.as_str())
            },
        }
    }
}

/// Two images share a local resource name only when their URLs have the same
/// identifier and their media types the same subtype: images whose identifiers
/// differ never share a name.
pub proof fn lemma_resource_names_distinct(
    url1: Seq<char>,
    mime1: Seq<char>,
    url2: Seq<char>,
    mime2: Seq<char>,
)
    requires
        resource_name_of(url1, mime1) is Some,
        resource_name_of(url1, mime1) == resource_name_of(url2, mime2),
    ensures
        oid_identifier(url1) == oid_identifier(url2),
        mime1.subrange(last_index(mime1, '/')->0 + 1, mime1.len() as int) == mime2.subrange(
            last_index(mime2, '/')->0 + 1,
            mime2.len() as int,
        ),
{
    let n = resource_name_of(url1, mime1)->0;
    let h1 = hyphenated(oid_identifier(url1));
    let h2 = hyphenated(oid_identifier(url2));
    let i1 = last_index(mime1, '/')->0;
    let i2 = last_index(mime2, '/')->0;
    let e1 = mime1.subrange(i1 + 1, mime1.len() as int);
    let e2 = mime2.subrange(i2 + 1, mime2.len() as int);
    assert(n == seq!['p'] + h1 + seq!['.'] + e1);
    assert(n == seq!['p'] + h2 + seq!['.'] + e2);
    assert(n.subrange(1, 37) =~= h1);
    assert(n.subrange(1, 37) =~= h2);
    lemma_hyphenated_injective(oid_identifier(url1), oid_identifier(url2));
    assert(n.subrange(38, n.len() as int) =~= e1);
    assert(n.subrange(38, n.len() as int) =~= e2);
}

} // verus!

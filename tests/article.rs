use repocket::article::{resource_name, select_content, ArticleHandler, Extraction, FileType};
use repocket::descriptor::{Content, Metadata};
use repocket::ident::{fresh_identifier, identifier, identifier_text};
use repocket::package::{EpubError, EpubImage};
use repocket::text::{decimal_text, encode_text};
use uuid::Uuid;

fn extraction(content: &str) -> Extraction {
    Extraction {
        content: Some(content.as_bytes().to_vec()),
        page_title: Some("A & B".to_string()),
        article_title: None,
        byline: Some("Ada".to_string()),
        description: None,
    }
}

fn html_of(a: &ArticleHandler) -> String {
    String::from_utf8(a.html()).unwrap()
}

#[test]
fn identifier_is_deterministic_name_based() {
    let url = "https://example.com/post";
    assert_eq!(identifier(url), identifier(url));
    assert_ne!(identifier(url), identifier("https://example.com/other"));
    let expected = Uuid::new_v5(&Uuid::NAMESPACE_OID, url.as_bytes());
    assert_eq!(identifier(url), expected.as_u128());
    assert_eq!(identifier_text(identifier(url)), expected.hyphenated().to_string());
    assert_eq!(Uuid::from_u128(fresh_identifier()).get_version_num(), 4);
}

#[test]
fn longer_extraction_wins_and_ties_keep_the_first() {
    assert_eq!(select_content("aaaa".to_string(), "bb".to_string()), "aaaa");
    assert_eq!(select_content("aa".to_string(), "bbbb".to_string()), "bbbb");
    assert_eq!(select_content("ab".to_string(), "cd".to_string()), "ab");
    assert_eq!(select_content("é".to_string(), "abc".to_string()), "abc");
    assert_eq!(select_content("éé".to_string(), "abc".to_string()), "éé");
}

#[test]
fn alternative_replaces_shorter_content() {
    let mut a = ArticleHandler::new("https://example.com/");
    a.apply_extraction("https://example.com/", extraction("<p>x</p>"), "today");
    a.offer_alternative("<p>a much longer body</p>".to_string());
    assert_eq!(a.content, "<p>a much longer body</p>");
    a.offer_alternative("<p>s</p>".to_string());
    assert_eq!(a.content, "<p>a much longer body</p>");
}

#[test]
fn extraction_fields_get_defaults_and_escaping() {
    let mut a = ArticleHandler::new("https://example.com/");
    a.apply_extraction("https://example.com/", extraction("<p>body</p>"), "2024.October.24, 10:00:00");
    assert!(!a.failed);
    assert_eq!(a.page_title, "A &amp; B");
    assert_eq!(a.article_title, "Article");
    assert_eq!(a.description, "Description");
    assert_eq!(a.author, "Ada");
    assert_eq!(a.canonical, Some("https://example.com/".to_string()));
    assert_eq!(
        a.header,
        "A rePocket-able version of <a class=\"shortened\" href=\"https://example.com/\">https://example.com/</a><br />Retrieved on 2024.October.24, 10:00:00"
    );
    let page = html_of(&a);
    assert!(page.contains("<title>A &amp; B</title>"));
    assert!(page.contains("<link rel=\"canonical\" href=\"https://example.com/\" />"));
    assert!(page.contains("<p>body</p>"));
    assert!(!page.contains("{{"));
}

#[test]
fn invalid_utf8_extraction_becomes_a_failure_document() {
    let mut a = ArticleHandler::new("https://example.com/");
    let ex = Extraction {
        content: Some(vec![0xff, 0xfe]),
        page_title: None,
        article_title: None,
        byline: None,
        description: None,
    };
    a.apply_extraction("https://example.com/", ex, "today");
    assert!(a.failed);
    assert!(a.header.contains("not valid UTF-8"));
    let mut b = ArticleHandler::new("https://example.com/");
    let ex = Extraction { content: None, page_title: None, article_title: None, byline: None, description: None };
    b.apply_extraction("https://example.com/", ex, "today");
    assert!(b.failed);
    assert!(b.header.contains("could not be serialised"));
}

#[test]
fn timeout_gives_a_packageable_failure_document() {
    let mut a = ArticleHandler::new("https://slow.example.com/");
    a.fail("operation timed out after 30 s");
    assert!(a.failed);
    assert_eq!(a.page_title, "rePocket Failed!");
    assert!(a.header.contains("operation timed out after 30 s"));
    let page = html_of(&a);
    assert!(page.contains("operation timed out after 30 s"));
    assert_eq!(a.save_format("epub"), FileType::Epub);
    let book = a.epub(&Vec::new()).unwrap();
    assert_eq!(&book[0..2], b"PK");
    let (format, bytes) = a.package("epub", &Vec::new());
    assert_eq!(format, FileType::Epub);
    assert_eq!(&bytes[0..2], b"PK");
}

#[test]
fn failure_reason_is_escaped() {
    let mut a = ArticleHandler::new("https://example.com/");
    a.fail("status <404> & more");
    assert_eq!(a.header, "Could not get the article contents. Reason: status &lt;404&gt; &amp; more");
}

#[test]
fn unparseable_url_fails_markup_acceptance() {
    let mut a = ArticleHandler::new("not a url");
    a.accept_markup("<html><body><p>hi</p></body></html>", "today");
    assert!(a.failed);
    assert!(a.header.contains("could not be parsed"));
}

#[test]
fn markup_is_extracted_with_normalised_url() {
    let mut a = ArticleHandler::new("https://example.com");
    let body = "<html><head><title>T</title></head><body><article><p>Hello there, this is a paragraph of text that is long enough to count as content for the readability heuristic, with commas, and more words.</p></article></body></html>";
    a.accept_markup(body, "today");
    assert!(!a.failed);
    assert_eq!(a.canonical, Some("https://example.com/".to_string()));
    assert_eq!(a.page_title, "T");
    assert!(a.content.contains("Hello there"));
}

#[test]
fn pdf_responses_pass_through() {
    assert!(ArticleHandler::is_passthrough("application/pdf"));
    assert!(!ArticleHandler::is_passthrough("text/html; charset=utf-8"));
    let mut a = ArticleHandler::new("https://example.com/a.pdf");
    a.accept_passthrough(vec![1, 2, 3]);
    assert!(a.is_pdf);
    assert_eq!(a.save_format("epub"), FileType::Pdf);
    assert_eq!(a.plain_bytes(FileType::Pdf), vec![1, 2, 3]);
    a.offer_alternative("<p>longer than three bytes</p>".to_string());
    assert_eq!(a.content, "");
}

#[test]
fn format_choice_and_file_name() {
    let a = ArticleHandler::new("https://example.com/");
    assert_eq!(a.save_format("html"), FileType::Html);
    assert_eq!(a.save_format("pdf"), FileType::Pdf);
    assert_eq!(a.save_format("docx"), FileType::Epub);
    assert_eq!(a.file_name(FileType::Epub), format!("{}.epub", a.uuid_string()));
    assert_eq!(a.uuid_string(), identifier_text(identifier("https://example.com/")));
}

#[test]
fn resource_names_follow_identifier_and_subtype() {
    let url = "https://example.com/img.png";
    let id = identifier_text(identifier(url));
    assert_eq!(resource_name(url, "image/png"), Some(format!("p{}.png", id)));
    assert_eq!(resource_name(url, "image/svg+xml"), Some(format!("p{}.svg+xml", id)));
    assert_eq!(resource_name(url, "png"), None);
    assert_ne!(
        resource_name("https://example.com/a.png", "image/png"),
        resource_name("https://example.com/b.png", "image/png")
    );
}

#[test]
fn images_are_found_named_and_rewritten() {
    let mut a = ArticleHandler::new("https://example.com/");
    let body = "<p>x</p><img src=\"https://example.com/a.png\" alt=\"A\"><img src=\"\"><img src=\"https://example.com/b.jpg\">";
    a.apply_extraction("https://example.com/", extraction(body), "today");
    let sources = a.image_sources();
    assert_eq!(sources, vec!["https://example.com/a.png".to_string(), "https://example.com/b.jpg".to_string()]);
    assert!(a.add_image(sources[0].clone(), "image/png"));
    assert!(a.add_image(sources[1].clone(), "image/jpeg"));
    assert!(!a.add_image(String::new(), "image/png"));
    assert!(!a.add_image("https://example.com/c".to_string(), "nosubtype"));
    assert_eq!(a.images.len(), 2);
    assert_ne!(a.images[0].1, a.images[1].1);
    a.finish();
    assert!(!a.content.contains("https://example.com/a.png"));
    assert!(!a.content.contains("https://example.com/b.jpg"));
    assert!(a.content.contains(&a.images[0].1));
    assert!(a.content.contains(&a.images[1].1));
    assert!(!a.content.contains("alt="));
}

#[test]
fn cleanup_closes_void_elements_and_drops_divs() {
    let a = ArticleHandler::new("https://example.com/");
    let out = a.cleanup_html("<div><p>one<br>two</p><hr><img src=\"x.png\"><map><area></map></div>");
    assert!(!out.contains("<div"));
    assert!(out.contains("<br />"));
    assert!(out.contains("<hr />"));
    assert!(out.contains("<img src=\"x.png\" />"));
    assert!(!out.contains("<map>"));
}

#[test]
fn sanitizing_twice_changes_nothing() {
    let a = ArticleHandler::new("https://example.com/");
    for input in [
        "<div><p>one<br>two</p><hr><img src=\"x.png\" alt=\"y\"></div>",
        "<p onclick=\"x()\">text &amp; more</p><script>bad()</script>",
        "<ul><li>a</li><li>b</li></ul>",
    ] {
        let once = a.cleanup_html(input);
        let twice = a.cleanup_html(&once);
        assert_eq!(once, twice);
    }
}

#[test]
fn epub_embeds_images() {
    let mut a = ArticleHandler::new("https://example.com/");
    a.apply_extraction("https://example.com/", extraction("<p>body</p>"), "today");
    let images = vec![EpubImage { name: "pimg.png".to_string(), bytes: vec![137, 80, 78, 71], mime: "image/png".to_string() }];
    let book = a.epub(&images).unwrap();
    assert_eq!(&book[0..2], b"PK");
    assert!(a.assemble_epub(&images).is_some());
}

#[test]
fn text_helpers() {
    assert_eq!(encode_text("a < b && c > d"), "a &lt; b &amp;&amp; c &gt; d");
    assert_eq!(encode_text(""), "");
    assert_eq!(decimal_text(0), "0");
    assert_eq!(decimal_text(1729763686123), "1729763686123");
}

#[test]
fn descriptor_records() {
    let m = Metadata::new_at("DocumentType", "Title", "parent-id", 1729763686123);
    assert_eq!(m.last_modified, "1729763686123");
    assert_eq!(m.version, 1);
    assert_eq!(m.parent, "parent-id");
    assert!(!m.deleted);
    let now = Metadata::new("CollectionType", "Pocket", "");
    assert!(now.last_modified.len() >= 13);
    assert!(now.last_modified.chars().all(|c| c.is_ascii_digit()));
    let c = Content::new("epub");
    assert_eq!(c.ftype, "epub");
    assert_eq!(c.line_height, -1);
    assert_eq!(c.margins, 100);
    assert_eq!(c.orientation, "portrait");
    assert_eq!(c.transform, vec![1, 0, 0, 0, 1, 0, 0, 0, 1]);
}

#[test]
fn placeholder_for_failed_alternative() {
    assert_eq!(
        ArticleHandler::alternative_placeholder("timeout after 30s"),
        "<p>readability::extractor didn't work: timeout after 30s</p>"
    );
}

#[test]
fn epub_refuses_clashing_names_and_package_falls_back_to_html() {
    let mut a = ArticleHandler::new("https://example.com/");
    a.apply_extraction("https://example.com/", extraction("<p>body</p>"), "today");
    let img = EpubImage { name: "pimg.png".to_string(), bytes: vec![1, 2], mime: "image/png".to_string() };
    let images = vec![img.clone(), img];
    assert_eq!(a.epub(&images).err(), Some(EpubError::Assembly));
    let (format, bytes) = a.package("epub", &images);
    assert_eq!(format, FileType::Html);
    assert_eq!(bytes, a.html());
    let (format, bytes) = a.package("html", &images);
    assert_eq!(format, FileType::Html);
    assert_eq!(bytes, a.html());
}

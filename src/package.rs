//! Packaging a synthesised document as an EPUB container.
use vstd::prelude::*;

use crate::article::{format_for, ArticleHandler, FileType};

verus! {

/// An EPUB builder of `epub_builder`, writing into memory. Its generic
/// parameter is bound by a trait the crate does not export, so the builder is
/// held here rather than declared.
#[verifier::external_body]
pub struct EpubBook {
    builder: epub_builder::EpubBuilder<epub_builder::ZipLibrary>,
}

/// A file taken into a container: path, media type, whether it is the cover,
/// title, and bytes.
pub type EpubEntry = (Seq<char>, Seq<char>, bool, Seq<char>, Seq<u8>);

/// A container's metadata: title, authors and descriptions.
pub type EpubMeta = (Seq<char>, Seq<Seq<char>>, Seq<Seq<char>>);

/// The files an EPUB builder has taken in, in order.
pub uninterp spec fn epub_files(b: EpubBook) -> Seq<EpubEntry>;

/// The metadata an EPUB builder holds.
pub uninterp spec fn epub_meta(b: EpubBook) -> EpubMeta;

/// The entries stored uncompressed in a container stay below this size in bytes.
pub open spec fn entry_limit() -> int {
    0xffff_ffff
}

/// A file name the container takes as it is: non-empty, short, not hidden,
/// and without path separators.
pub open spec fn plain_name(p: Seq<char>) -> bool {
    &&& 0 < p.len() <= 255
    &&& p[0] != '.'
    &&& forall|i: int| 0 <= i < p.len() ==> p[i] != '/' && p[i] != '\\'
}

/// Some file of `files` has path `p`.
pub open spec fn path_taken(files: Seq<EpubEntry>, p: Seq<char>) -> bool {
    exists|i: int| 0 <= i < files.len() && (#[trigger] files[i]).0 == p
}

/// A file may be added: its name is plain and free, its size below the limit.
pub open spec fn can_add(files: Seq<EpubEntry>, p: Seq<char>, size: int) -> bool {
    plain_name(p) && !path_taken(files, p) && size < entry_limit()
}

/// No title, no author, no description.
pub open spec fn empty_meta() -> EpubMeta {
    (Seq::empty(), Seq::empty(), Seq::empty())
}

/// A list with `v` added, or emptied when `v` is empty.
pub open spec fn add_value(list: Seq<Seq<char>>, v: Seq<char>) -> Seq<Seq<char>> {
    if v.len() == 0 {
        Seq::empty()
    } else {
        list.push(v)
    }
}

/// Metadata after setting `key` to `value`.
pub open spec fn meta_set(m: EpubMeta, key: Seq<char>, value: Seq<char>) -> EpubMeta {
    if key == "title"@ {
        (value, m.1, m.2)
    } else if key == "author"@ {
        (m.0, add_value(m.1, value), m.2)
    } else if key == "description"@ {
        (m.0, m.1, add_value(m.2, value))
    } else {
        m
    }
}

/// The keys that always succeed.
pub open spec fn known_key(key: Seq<char>) -> bool {
    key == "title"@ || key == "author"@ || key == "description"@
}

/// A content page as the builder records it.
pub open spec fn page_entry(path: Seq<char>, title: Seq<char>, page: Seq<u8>) -> EpubEntry {
    (path, "application/xhtml+xml"@, false, title, page)
}

/// A resource, or the cover, as the builder records it.
pub open spec fn resource_entry(path: Seq<char>, mime: Seq<char>, cover: bool, bytes: Seq<u8>) -> EpubEntry {
    (path, mime, cover, Seq::empty(), bytes)
}

/// Relies on `ZipLibrary::new` and `EpubBuilder::new`: they only write fixed,
/// distinct entries into memory, so they succeed; a new builder has taken in
/// no file and holds empty metadata.
#[verifier::external_body]
fn epub_new() -> (r: Option<EpubBook>)
    ensures
        r is Some,
        r matches Some(b) ==> epub_files(b).len() == 0 && epub_meta(b) == empty_meta(),
{
    match epub_builder::ZipLibrary::new() {
        Ok(zip) => match epub_builder::EpubBuilder::new(zip) {
            Ok(builder) => Some(EpubBook { builder }),
            Err(_) => None,
        },
        Err(_) => None,
    }
}

/// Relies on `EpubBuilder::metadata`: `title` replaces the title; `author`
/// and `description` add a value, or clear the list for an empty one; those
/// keys always succeed. Unknown keys are refused and change nothing; the
/// other known keys leave these three fields alone. No file is taken in.
#[verifier::external_body]
fn epub_metadata(b: &mut EpubBook, key: &str, value: &str) -> (r: bool)
    ensures
        epub_files(*final(b)) == epub_files(*old(b)),
        known_key(key@) ==> r,
        r ==> epub_meta(*final(b)) == meta_set(epub_meta(*old(b)), key@, value@),
        !r ==> epub_meta(*final(b)) == epub_meta(*old(b)),
{
    b.builder.metadata(key, value).is_ok()
}

/// Relies on `EpubBuilder::epub_version` (EPUB 3.0), which takes in no file
/// and leaves the metadata alone.
#[verifier::external_body]
fn epub_version_3(b: &mut EpubBook)
    ensures
        epub_files(*final(b)) == epub_files(*old(b)),
        epub_meta(*final(b)) == epub_meta(*old(b)),
{
    b.builder.epub_version(epub_builder::EpubVersion::V30);
}

/// Relies on `EpubBuilder::add_content` with a titled text page: on success
/// the page is taken in as XHTML with its title and bytes; on failure (the
/// zip writer refusing the entry) no file is. A plain, free name below the
/// size limit is accepted.
#[verifier::external_body]
fn epub_add_page(b: &mut EpubBook, path: &str, page: &[u8], title: &str) -> (r: bool)
    ensures
        can_add(epub_files(*old(b)), path@, page@.len() as int) ==> r,
        r ==> epub_files(*final(b)) == epub_files(*old(b)).push(page_entry(path@, title@, page@)),
        !r ==> epub_files(*final(b)) == epub_files(*old(b)),
        epub_meta(*final(b)) == epub_meta(*old(b)),
{
    let content = epub_builder::EpubContent::new(path, page).title(title).reftype(
        epub_builder::ReferenceType::Text,
    );
    b.builder.add_content(content).is_ok()
}

/// Relies on `EpubBuilder::add_resource`: on success the file is taken in
/// with its bytes and no title; on failure no file is. A plain, free name
/// below the size limit is accepted.
#[verifier::external_body]
fn epub_add_resource(b: &mut EpubBook, path: &str, bytes: &[u8], mime: &str) -> (r: bool)
    ensures
        can_add(epub_files(*old(b)), path@, bytes@.len() as int) ==> r,
        r ==> epub_files(*final(b)) == epub_files(*old(b)).push(
            resource_entry(path@, mime@, false, bytes@),
        ),
        !r ==> epub_files(*final(b)) == epub_files(*old(b)),
        epub_meta(*final(b)) == epub_meta(*old(b)),
{
    b.builder.add_resource(path, bytes, mime).is_ok()
}

/// Relies on `EpubBuilder::add_cover_image`: on success the file is taken in
/// as the cover, with its bytes and no title; on failure no file is. A plain,
/// free name below the size limit is accepted.
#[verifier::external_body]
fn epub_add_cover(b: &mut EpubBook, path: &str, bytes: &[u8], mime: &str) -> (r: bool)
    ensures
        can_add(epub_files(*old(b)), path@, bytes@.len() as int) ==> r,
        r ==> epub_files(*final(b)) == epub_files(*old(b)).push(
            resource_entry(path@, mime@, true, bytes@),
        ),
        !r ==> epub_files(*final(b)) == epub_files(*old(b)),
        epub_meta(*final(b)) == epub_meta(*old(b)),
{
    b.builder.add_cover_image(path, bytes, mime).is_ok()
}

/// Relies on `EpubBuilder::generate`, writing the container into memory. The
/// container carries the time of generation, so nothing is assumed of it.
#[verifier::external_body]
fn epub_generate(b: EpubBook) -> (r: Option<Vec<u8>>) {
    let mut out: Vec<u8> = Vec::new();
    match b.builder.generate(&mut out) {
        Ok(()) => Some(out),
        Err(_) => None,
    }
}

/// A fetched image, to be embedded under its local resource name.
#[derive(Clone, Debug)]
pub struct EpubImage {
    pub name: String,
    pub bytes: Vec<u8>,
    pub mime: String,
}

/// Why packaging as EPUB failed.
#[derive(Clone, Copy, Debug, PartialEq, Eq, Structural)]
pub enum EpubError {
    /// The builder refused a file or a metadata field.
    Assembly,
    /// Writing out the container failed.
    Generation,
}

/// The path of the single content page.
pub open spec fn page_path() -> Seq<char> {
    "article.xhtml"@
}

/// The file taken in for the image at position `k`: the first one as the
/// cover, each other one as a resource.
pub open spec fn image_entry(img: EpubImage, k: int) -> EpubEntry {
    resource_entry(img.name@, img.mime@, k == 0, img.bytes@)
}

/// The files taken in for the images, in order.
pub open spec fn image_files(images: Seq<EpubImage>) -> Seq<EpubEntry> {
    Seq::new(images.len(), |k: int| image_entry(images[k], k))
}

/// A list of values that holds `v`, or nothing when `v` is empty.
pub open spec fn listed(v: Seq<char>) -> Seq<Seq<char>> {
    if v.len() == 0 {
        Seq::empty()
    } else {
        seq![v]
    }
}

impl ArticleHandler {
    /// The bytes of the content page.
    pub open spec fn page_bytes(self) -> Seq<u8> {
        vstd::utf8::encode_utf8(
            crate::article::rendered(
                self.page_title@,
                self.article_title@,
                self.header@,
                self.content@,
                crate::article::opt_view(self.canonical),
            ),
        )
    }

    /// The files of the container: the page, then the images.
    pub open spec fn manifest(self, images: Seq<EpubImage>) -> Seq<EpubEntry> {
        seq![page_entry(page_path(), self.article_title@, self.page_bytes())] + image_files(images)
    }

    /// The container's metadata: the article title, the author and the description.
    pub open spec fn epub_metadata_of(self) -> EpubMeta {
        (self.article_title@, listed(self.author@), listed(self.description@))
    }

    /// The page and the images can all be taken in: plain, distinct names
    /// other than the page's, and sizes below the limit.
    pub open spec fn epub_ready(self, images: Seq<EpubImage>) -> bool {
        &&& self.page_bytes().len() < entry_limit()
        &&& forall|k: int|
            0 <= k < images.len() ==> plain_name((#[trigger] images[k]).name@) && images[k].name@
                != page_path() && images[k].bytes@.len() < entry_limit()
        &&& forall|j: int, k: int|
            0 <= j < k < images.len() ==> (#[trigger] images[j]).name@ != (#[trigger] images[k]).name@
    }

    /// A builder holding this document as its single page, titled and
    /// described by its fields, with each image embedded, the first one as
    /// the cover. It succeeds whenever the images are ready to be taken in.
    pub fn assemble_epub(&self, images: &Vec<EpubImage>) -> (r: Option<EpubBook>)
        ensures
            self.epub_ready(images@) ==> r is Some,
            r matches Some(b) ==> epub_files(b) == self.manifest(images@) && epub_meta(b)
                == self.epub_metadata_of(),
    {
        let mut b = match epub_new() {
            Some(b) => b,
            None => {
                return None;
            },
        };
        proof {
            reveal_strlit("title");
            reveal_strlit("author");
            reveal_strlit("description");
            reveal_strlit("article.xhtml");
        }
        if !epub_metadata(&mut b, "title", self.article_title.as_str()) {
            return None;
        }
        if !epub_metadata(&mut b, "author", self.author.as_str()) {
            return None;
        }
        if !epub_metadata(&mut b, "description", self.description.as_str()) {
            return None;
        }
        proof {
            assert("author"@.len() != "title"@.len());
            assert("description"@.len() != "title"@.len());
            assert("description"@.len() != "author"@.len());
            assert(Seq::<Seq<char>>::empty().push(self.author@) =~= seq![self.author@]);
            assert(Seq::<Seq<char>>::empty().push(self.description@) =~= seq![self.description@]);
        }
        assert(epub_meta(b) == self.epub_metadata_of());
        epub_version_3(&mut b);
        let page = self.html();
        proof {
            assert(plain_name(page_path()));
            assert(!path_taken(epub_files(b), page_path()));
        }
        if !epub_add_page(&mut b, "article.xhtml", page.as_slice(), self.article_title.as_str()) {
            return None;
        }
        assert(epub_files(b) =~= self.manifest(images@.subrange(0, 0)));
        let mut i: usize = 0;
        while i < images.len()
            invariant
                i <= images@.len(),
                epub_files(b) == self.manifest(images@.subrange(0, i as int)),
                epub_meta(b) == self.epub_metadata_of(),
            decreases images@.len() - i,
        {
            let img = &images[i];
            let ghost pre = images@.subrange(0, i + 1);
            let ghost files = epub_files(b);
            assert(pre[i as int] == *img);
            proof {
                if self.epub_ready(images@) {
                    assert(plain_name(images@[i as int].name@));
                    if path_taken(files, img.name@) {
                        let k = choose|k: int| 0 <= k < files.len() && (#[trigger] files[k]).0
                            == img.name@;
                        if k == 0 {
                            assert(files[0].0 == page_path());
                        } else {
                            assert(files[k] == image_entry(images@[k - 1], k - 1));
                            assert(images@[k - 1].name@ != images@[i as int].name@);
                        }
                    }
                }
            }
            if i == 0 {
                if !epub_add_cover(&mut b, img.name.as_str(), img.bytes.as_slice(), img.mime.as_str()) {
                    return None;
                }
            } else if !epub_add_resource(&mut b, img.name.as_str(), img.bytes.as_slice(), img.mime.as_str()) {
                return None;
            }
            assert(epub_files(b) =~= self.manifest(pre));
            i = i + 1;
        }
        assert(images@.subrange(0, images@.len() as int) =~= images@);
        Some(b)
    }

    /// The bytes written for a plain (non-EPUB) file type: the filled template
    /// for HTML; for PDF the fetched bytes of a binary document, and the bare
    /// markup otherwise.
    pub open spec fn plain_output(self, t: FileType) -> Seq<u8> {
        if t == FileType::Html {
            self.page_bytes()
        } else if self.is_pdf {
            self.payload@
        } else {
            vstd::utf8::encode_utf8(self.content@)
        }
    }

    /// What to write for the request `requested`: the file type and its bytes.
    /// A plain type gives its bytes; EPUB gives the container, or, when
    /// packaging fails, the filled template as HTML. There is always
    /// something to write.
    pub fn package(&self, requested: &str, images: &Vec<EpubImage>) -> (r: (FileType, Vec<u8>))
        ensures
            format_for(requested@, self.is_pdf) != FileType::Epub ==> r.0 == format_for(
                requested@,
                self.is_pdf,
            ) && r.1@ == self.plain_output(r.0),
            format_for(requested@, self.is_pdf) == FileType::Epub ==> r.0 == FileType::Epub || (
            r.0 == FileType::Html && r.1@ == self.plain_output(FileType::Html)),
    {
        let t = self.save_format(requested);
        match t {
            FileType::Epub => match self.epub(images) {
                Ok(bytes) => (FileType::Epub, bytes),
                Err(_) => (FileType::Html, self.html()),
            },
            _ => (t, self.plain_bytes(t)),
        }
    }

    /// The document packaged as an EPUB container (see `assemble_epub`). It
    /// fails with `Assembly` only when the images are not ready to be taken
    /// in; otherwise only writing out the container can fail.
    pub fn epub(&self, images: &Vec<EpubImage>) -> (r: Result<Vec<u8>, EpubError>)
        ensures
            self.epub_ready(images@) ==> r != Err::<Vec<u8>, EpubError>(EpubError::Assembly),
    {
        match self.assemble_epub(images) {
            Some(b) => match epub_generate(b) {
                Some(bytes) => Ok(bytes),
                None => Err(EpubError::Generation),
            },
            None => Err(EpubError::Assembly),
        }
    }
}

} // verus!

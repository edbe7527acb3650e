//! The descriptor records of the e-reader's document store: one `.metadata`
//! and one `.content` record per folder or document.
use vstd::prelude::*;
use vstd::string::*;

use crate::text::{decimal, decimal_text};

verus! {

/// Relies on `SystemTime::now` and `SystemTime::duration_since`: the
/// milliseconds since the Unix epoch, or `None` when the clock stands before it.
#[verifier::external_body]
fn clock_millis() -> (r: Option<u128>) {
    match std::time::SystemTime::now().duration_since(std::time::UNIX_EPOCH) {
        Ok(d) => Some(d.as_millis()),
        Err(_) => None,
    }
}

/// The `.metadata` record of an entity of the document store.
#[derive(Clone, Debug)]
pub struct Metadata {
    pub deleted: bool,
    pub last_modified: String,
    pub last_opened_page: u64,
    pub metadata_modified: bool,
    pub modified: bool,
    pub parent: String,
    pub pinned: bool,
    pub synced: bool,
    pub dtype: String,
    pub version: u64,
    pub visible_name: String,
}

/// The parent that places an entity in the trash.
pub open spec fn trash() -> Seq<char> {
    seq!['t', 'r', 'a', 's', 'h']
}

impl Metadata {
    /// A fresh record of type `dtype`, named `name`, under `parent`, last
    /// modified at `millis` (milliseconds since the Unix epoch).
    pub fn new_at(dtype: &str, name: &str, parent: &str, millis: u128) -> (r: Metadata)
        ensures
            r.dtype@ == dtype@,
            r.visible_name@ == name@,
            r.parent@ == parent@,
            r.last_modified@ == decimal(millis as nat),
            !r.deleted,
            !r.metadata_modified,
            !r.modified,
            !r.pinned,
            !r.synced,
            r.last_opened_page == 0,
            r.version == 1,
    {
        Metadata {
            deleted: false,
            last_modified: decimal_text(millis),
            last_opened_page: 0,
            metadata_modified: false,
            modified: false,
            parent: String::from_str(parent),
            pinned: false,
            synced: false,
            dtype: String::from_str(dtype),
            version: 1,
            visible_name: String::from_str(name),
        }
    }

    /// A fresh record of type `dtype`, named `name`, under `parent`, last
    /// modified now (at the epoch if the clock stands before it).
    pub fn new(dtype: &str, name: &str, parent: &str) -> (r: Metadata)
        ensures
            r.dtype@ == dtype@,
            r.visible_name@ == name@,
            r.parent@ == parent@,
            exists|t: nat| r.last_modified@ == decimal(t),
            !r.deleted,
            !r.metadata_modified,
            !r.modified,
            !r.pinned,
            !r.synced,
            r.last_opened_page == 0,
            r.version == 1,
    {
        let millis = match clock_millis() {
            Some(t) => t,
            None => 0,
        };
        Metadata::new_at(dtype, name, parent, millis)
    }

    /// This record with its entity moved under `parent`.
    pub fn moved_to(&self, parent: &str) -> (r: Metadata)
        ensures
            r.parent@ == parent@,
            r.deleted == self.deleted,
            r.last_modified@ == self.last_modified@,
            r.last_opened_page == self.last_opened_page,
            r.metadata_modified == self.metadata_modified,
            r.modified == self.modified,
            r.pinned == self.pinned,
            r.synced == self.synced,
            r.dtype@ == self.dtype@,
            r.version == self.version,
            r.visible_name@ == self.visible_name@,
    {
        Metadata {
            deleted: self.deleted,
            last_modified: self.last_modified.clone(),
            last_opened_page: self.last_opened_page,
            metadata_modified: self.metadata_modified,
            modified: self.modified,
            parent: String::from_str(parent),
            pinned: self.pinned,
            synced: self.synced,
            dtype: self.dtype.clone(),
            version: self.version,
            visible_name: self.visible_name.clone(),
        }
    }

    /// This record with its entity moved to the trash.
    pub fn trashed(&self) -> (r: Metadata)
        ensures
            r.parent@ == trash(),
            r.deleted == self.deleted,
            r.last_modified@ == self.last_modified@,
            r.last_opened_page == self.last_opened_page,
            r.metadata_modified == self.metadata_modified,
            r.modified == self.modified,
            r.pinned == self.pinned,
            r.synced == self.synced,
            r.dtype@ == self.dtype@,
            r.version == self.version,
            r.visible_name@ == self.visible_name@,
    {
        let mut parent = String::new();
        crate::text::push_char(&mut parent, 't');
        crate::text::push_char(&mut parent, 'r');
        crate::text::push_char(&mut parent, 'a');
        crate::text::push_char(&mut parent, 's');
        crate::text::push_char(&mut parent, 'h');
        assert(parent@ =~= trash());
        self.moved_to(parent.as_str())
    }
}

/// The `.content` record of a document: its file type and display settings.
/// The transform is a 3x3 matrix, row by row.
#[derive(Clone, Debug)]
pub struct Content {
    pub ftype: String,
    pub font_name: String,
    pub line_height: i64,
    pub margins: u64,
    pub orientation: String,
    pub page_count: u64,
    pub text_alignment: String,
    pub text_scale: u64,
    pub transform: Vec<i64>,
}

/// The identity matrix, row by row.
pub open spec fn identity_transform() -> Seq<i64> {
    seq![1, 0, 0, 0, 1, 0, 0, 0, 1]
}

impl Content {
    /// The record of a document of file type `ftype`, with default settings.
    pub fn new(ftype: &str) -> (r: Content)
        ensures
            r.ftype@ == ftype@,
            r.font_name@.len() == 0,
            r.line_height == -1,
            r.margins == 100,
            r.orientation@ == "portrait"@,
            r.page_count == 1,
            r.text_alignment@ == "left"@,
            r.text_scale == 1,
            r.transform@ == identity_transform(),
    {
        let transform: Vec<i64> = vec![1, 0, 0, 0, 1, 0, 0, 0, 1];
        assert(transform@ =~= identity_transform());
        Content {
            ftype: String::from_str(ftype),
            font_name: String::new(),
            line_height: -1,
            margins: 100,
            orientation: String::from_str("portrait"),
            page_count: 1,
            text_alignment: String::from_str("left"),
            text_scale: 1,
            transform,
        }
    }
}

} // verus!

//! Queries for the remote reading list, and a builder for them.
use vstd::prelude::*;
use vstd::string::*;

verus! {

/// Which items a query selects by state.
#[derive(Clone, Copy, Debug, PartialEq, Eq, Structural)]
pub enum QState {
    Unread,
    Archive,
    All,
}

/// A yes/no flag, sent as 0 or 1.
#[derive(Clone, Copy, Debug, PartialEq, Eq, Structural)]
pub enum QBool {
    No,
    Yes,
}

/// A tag filter: one tag, or the untagged items.
#[derive(Clone, Debug, PartialEq, Eq)]
pub enum QTag {
    Tag(String),
    Untagged,
}

#[derive(Clone, Copy, Debug, PartialEq, Eq, Structural)]
pub enum QContentType {
    Article,
    Video,
    Image,
}

#[derive(Clone, Copy, Debug, PartialEq, Eq, Structural)]
pub enum QSort {
    Newest,
    Oldest,
    Title,
    Site,
}

#[derive(Clone, Copy, Debug, PartialEq, Eq, Structural)]
pub enum QDetailType {
    Simple,
    Complete,
}

/// The largest page size the service accepts.
pub const MAX_COUNT: u8 = 30;

/// The state named `s`, if any.
pub open spec fn state_named(s: Seq<char>) -> Option<QState> {
    if s == "Unread"@ {
        Some(QState::Unread)
    } else if s == "Archive"@ {
        Some(QState::Archive)
    } else if s == "All"@ {
        Some(QState::All)
    } else {
        None
    }
}

/// The content type named `s`, if any.
pub open spec fn content_type_named(s: Seq<char>) -> Option<QContentType> {
    if s == "Article"@ {
        Some(QContentType::Article)
    } else if s == "Video"@ {
        Some(QContentType::Video)
    } else if s == "Image"@ {
        Some(QContentType::Image)
    } else {
        None
    }
}

/// The sort order named `s`, if any.
pub open spec fn sort_named(s: Seq<char>) -> Option<QSort> {
    if s == "Newest"@ {
        Some(QSort::Newest)
    } else if s == "Oldest"@ {
        Some(QSort::Oldest)
    } else if s == "Title"@ {
        Some(QSort::Title)
    } else if s == "Site"@ {
        Some(QSort::Site)
    } else {
        None
    }
}

/// The detail type named `s`, if any.
pub open spec fn detail_type_named(s: Seq<char>) -> Option<QDetailType> {
    if s == "Simple"@ {
        Some(QDetailType::Simple)
    } else if s == "Complete"@ {
        Some(QDetailType::Complete)
    } else {
        None
    }
}

/// The flag with representation `v`, if any.
pub open spec fn flag_of(v: u8) -> Option<QBool> {
    if v == 0 {
        Some(QBool::No)
    } else if v == 1 {
        Some(QBool::Yes)
    } else {
        None
    }
}

fn same(a: &str, b: &str) -> (r: bool)
    ensures
        r == (a@ == b@),
{
    String::from_str(a) == String::from_str(b)
}

impl QState {
    pub fn from_name(s: &str) -> (r: Option<QState>)
        ensures
            r == state_named(s@),
    {
        if same(s, "Unread") {
            Some(QState::Unread)
        } else if same(s, "Archive") {
            Some(QState::Archive)
        } else if same(s, "All") {
            Some(QState::All)
        } else {
            None
        }
    }
}

impl QContentType {
    pub fn from_name(s: &str) -> (r: Option<QContentType>)
        ensures
            r == content_type_named(s@),
    {
        if same(s, "Article") {
            Some(QContentType::Article)
        } else if same(s, "Video") {
            Some(QContentType::Video)
        } else if same(s, "Image") {
            Some(QContentType::Image)
        } else {
            None
        }
    }
}

impl QSort {
    pub fn from_name(s: &str) -> (r: Option<QSort>)
        ensures
            r == sort_named(s@),
    {
        if same(s, "Newest") {
            Some(QSort::Newest)
        } else if same(s, "Oldest") {
            Some(QSort::Oldest)
        } else if same(s, "Title") {
            Some(QSort::Title)
        } else if same(s, "Site") {
            Some(QSort::Site)
        } else {
            None
        }
    }
}

impl QDetailType {
    pub fn from_name(s: &str) -> (r: Option<QDetailType>)
        ensures
            r == detail_type_named(s@),
    {
        if same(s, "Simple") {
            Some(QDetailType::Simple)
        } else if same(s, "Complete") {
            Some(QDetailType::Complete)
        } else {
            None
        }
    }
}

impl QBool {
    pub fn from_repr(v: u8) -> (r: Option<QBool>)
        ensures
            r == flag_of(v),
    {
        if v == 0 {
            Some(QBool::No)
        } else if v == 1 {
            Some(QBool::Yes)
        } else {
            None
        }
    }
}

/// A query for the remote reading list; absent fields are left out.
#[derive(Debug)]
pub struct PocketQuery {
    pub state: Option<QState>,
    pub favorite: Option<QBool>,
    pub tag: Option<String>,
    pub content_type: Option<QContentType>,
    pub sort: Option<QSort>,
    pub detail_type: Option<QDetailType>,
    pub search: Option<String>,
    pub domain: Option<String>,
    pub since: Option<u64>,
    pub count: Option<u8>,
    pub offset: Option<u32>,
    pub total: Option<QBool>,
}

impl PocketQuery {
    pub fn new(
        state: Option<QState>,
        favorite: Option<QBool>,
        tag: Option<String>,
        content_type: Option<QContentType>,
        sort: Option<QSort>,
        detail_type: Option<QDetailType>,
        search: Option<String>,
        domain: Option<String>,
        since: Option<u64>,
        count: Option<u8>,
        offset: Option<u32>,
        total: Option<QBool>,
    ) -> (r: Result<PocketQuery, ()>)
        ensures
            r == Ok::<PocketQuery, ()>(
                PocketQuery {
                    state,
                    favorite,
                    tag,
                    content_type,
                    sort,
                    detail_type,
                    search,
                    domain,
                    since,
                    count,
                    offset,
                    total,
                },
            ),
    {
        Ok(
            PocketQuery {
                state,
                favorite,
                tag,
                content_type,
                sort,
                detail_type,
                search,
                domain,
                since,
                count,
                offset,
                total,
            },
        )
    }
}

/// Builds a query field by field; every field starts out absent.
#[derive(Debug)]
pub struct QueryBuilder {
    pub state: Option<QState>,
    pub favorite: Option<QBool>,
    pub tag: Option<String>,
    pub content_type: Option<QContentType>,
    pub sort: Option<QSort>,
    pub detail_type: Option<QDetailType>,
    pub search: Option<String>,
    pub domain: Option<String>,
    pub since: Option<u64>,
    pub count: Option<u8>,
    pub offset: Option<u32>,
    pub total: Option<QBool>,
}

impl QueryBuilder {
    pub open spec fn is_empty(self) -> bool {
        &&& self.state is None
        &&& self.favorite is None
        &&& self.tag is None
        &&& self.content_type is None
        &&& self.sort is None
        &&& self.detail_type is None
        &&& self.search is None
        &&& self.domain is None
        &&& self.since is None
        &&& self.count is None
        &&& self.offset is None
        &&& self.total is None
    }
}

impl Default for QueryBuilder {
    fn default() -> (r: QueryBuilder)
        ensures
            r.is_empty(),
    {
        QueryBuilder {
            state: None,
            favorite: None,
            tag: None,
            content_type: None,
            sort: None,
            detail_type: None,
            search: None,
            domain: None,
            since: None,
            count: None,
            offset: None,
            total: None,
        }
    }
}

impl QueryBuilder {
    /// Selects by state; `state` must name one (`Unread`, `Archive` or `All`).
    pub fn set_state(self, state: &str) -> (r: QueryBuilder)
        requires
            state_named(state@) is Some,
        ensures
            r == (QueryBuilder { state: state_named(state@), ..self }),
    {
        QueryBuilder { state: QState::from_name(state), ..self }
    }

    /// Selects by favourite flag; a value other than 0 or 1 clears it.
    pub fn set_favorite(self, favorite: u8) -> (r: QueryBuilder)
        ensures
            r == (QueryBuilder { favorite: flag_of(favorite), ..self }),
    {
        QueryBuilder { favorite: QBool::from_repr(favorite), ..self }
    }

    pub fn set_tag(self, tag: &str) -> (r: QueryBuilder)
        ensures
            r.tag matches Some(t) && t@ == tag@,
            r == (QueryBuilder { tag: r.tag, ..self }),
    {
        QueryBuilder { tag: Some(String::from_str(tag)), ..self }
    }

    /// Selects by content type; `content_type` must name one.
    pub fn set_content_type(self, content_type: &str) -> (r: QueryBuilder)
        requires
            content_type_named(content_type@) is Some,
        ensures
            r == (QueryBuilder { content_type: content_type_named(content_type@), ..self }),
    {
        QueryBuilder { content_type: QContentType::from_name(content_type), ..self }
    }

    /// Sorts the results; `sort` must name an order.
    pub fn set_sort(self, sort: &str) -> (r: QueryBuilder)
        requires
            sort_named(sort@) is Some,
        ensures
            r == (QueryBuilder { sort: sort_named(sort@), ..self }),
    {
        QueryBuilder { sort: QSort::from_name(sort), ..self }
    }

    /// Sets the detail of the results; `detail_type` must name one.
    pub fn set_detail_type(self, detail_type: &str) -> (r: QueryBuilder)
        requires
            detail_type_named(detail_type@) is Some,
        ensures
            r == (QueryBuilder { detail_type: detail_type_named(detail_type@), ..self }),
    {
        QueryBuilder { detail_type: QDetailType::from_name(detail_type), ..self }
    }

    pub fn set_search(self, search: &str) -> (r: QueryBuilder)
        ensures
            r.search matches Some(t) && t@ == search@,
            r == (QueryBuilder { search: r.search, ..self }),
    {
        QueryBuilder { search: Some(String::from_str(search)), ..self }
    }

    pub fn set_domain(self, domain: &str) -> (r: QueryBuilder)
        ensures
            r.domain matches Some(t) && t@ == domain@,
            r == (QueryBuilder { domain: r.domain, ..self }),
    {
        QueryBuilder { domain: Some(String::from_str(domain)), ..self }
    }

    pub fn set_since(self, timestamp: u64) -> (r: QueryBuilder)
        ensures
            r == (QueryBuilder { since: Some(timestamp), ..self }),
    {
        QueryBuilder { since: Some(timestamp), ..self }
    }

    /// Sets the page size, capped at the largest the service accepts.
    pub fn set_count(self, count: u8) -> (r: QueryBuilder)
        ensures
            r == (QueryBuilder {
                count: Some(if count <= MAX_COUNT {
                    count
                } else {
                    MAX_COUNT
                }),
                ..self
            }),
    {
        let c = if count <= MAX_COUNT {
            count
        } else {
            MAX_COUNT
        };
        QueryBuilder { count: Some(c), ..self }
    }

    pub fn set_offset(self, offset: u32) -> (r: QueryBuilder)
        ensures
            r == (QueryBuilder { offset: Some(offset), ..self }),
    {
        QueryBuilder { offset: Some(offset), ..self }
    }

    /// Asks for the total count; a value other than 0 or 1 clears it.
    pub fn set_total(self, total: u8) -> (r: QueryBuilder)
        ensures
            r == (QueryBuilder { total: flag_of(total), ..self }),
    {
        QueryBuilder { total: QBool::from_repr(total), ..self }
    }

    /// The query with the fields set so far.
    pub fn build(self) -> (r: Result<PocketQuery, ()>)
        ensures
            r == Ok::<PocketQuery, ()>(
                PocketQuery {
                    state: self.state,
                    favorite: self.favorite,
                    tag: self.tag,
                    content_type: self.content_type,
                    sort: self.sort,
                    detail_type: self.detail_type,
                    search: self.search,
                    domain: self.domain,
                    since: self.since,
                    count: self.count,
                    offset: self.offset,
                    total: self.total,
                },
            ),
    {
        PocketQuery::new(
            self.state,
            self.favorite,
            self.tag,
            self.content_type,
            self.sort,
            self.detail_type,
            self.search,
            self.domain,
            self.since,
            self.count,
            self.offset,
            self.total,
        )
    }
}

} // verus!

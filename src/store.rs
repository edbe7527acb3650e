//! The reconciliation store: which remote items are tracked locally, and in
//! which stage of `new -> current -> read pending -> archived` each one is.
use vstd::prelude::*;

use crate::descriptor::Metadata;
use crate::ident::{
    fresh_identifier, hyphenated, identifier_text, lemma_text_spells, parse_identifier, spells,
    version_of,
};

verus! {

/// Where a tracked item stands.
#[derive(Clone, Copy, Debug, PartialEq, Eq, Structural)]
pub enum ItemState {
    /// Synthesised during this run, not yet part of the visible folder.
    New,
    /// Believed present in the visible folder.
    Current,
    /// Moved by the user into the archive folder; waiting for remote archiving.
    ReadPending,
    /// Archived both locally and remotely.
    Archived,
}

/// One tracked item: its local identifier, its remote numeric id and its stage.
#[derive(Clone, Copy, Debug, PartialEq, Eq, Structural)]
pub struct TrackedItem {
    pub id: u128,
    pub remote: u64,
    pub state: ItemState,
}

/// What was read from disk for one item: the parent recorded in its descriptor.
#[derive(Clone, Debug)]
pub struct Observation {
    pub id: u128,
    pub parent: String,
}

/// The abstract state of a store.
pub struct StoreState {
    pub folder: u128,
    pub archive: u128,
    pub items: Seq<TrackedItem>,
    pub watermark: u64,
}

/// No identifier is tracked twice, so each one stands in exactly one stage.
pub open spec fn unique_ids(s: Seq<TrackedItem>) -> bool {
    forall|i: int, j: int| 0 <= i < j < s.len() ==> s[i].id != s[j].id
}

/// The last position of `id` in `s` (the only one when identifiers are unique).
pub open spec fn index_of(s: Seq<TrackedItem>, id: u128) -> Option<int>
    decreases s.len(),
{
    if s.len() == 0 {
        None
    } else if s.last().id == id {
        Some(s.len() - 1)
    } else {
        index_of(s.drop_last(), id)
    }
}

/// The mapping from identifier to remote id of the items in stage `st`.
pub open spec fn in_state(s: Seq<TrackedItem>, st: ItemState) -> Map<u128, u64>
    decreases s.len(),
{
    if s.len() == 0 {
        Map::empty()
    } else {
        let m = in_state(s.drop_last(), st);
        if s.last().state == st {
            m.insert(s.last().id, s.last().remote)
        } else {
            m
        }
    }
}

/// The remote ids of the items in stage `st`, in order.
pub open spec fn remotes_in(s: Seq<TrackedItem>, st: ItemState) -> Seq<u64>
    decreases s.len(),
{
    if s.len() == 0 {
        Seq::empty()
    } else if s.last().state == st {
        remotes_in(s.drop_last(), st).push(s.last().remote)
    } else {
        remotes_in(s.drop_last(), st)
    }
}

/// The identifiers of the items in stage `st`, in order.
pub open spec fn ids_in(s: Seq<TrackedItem>, st: ItemState) -> Seq<u128>
    decreases s.len(),
{
    if s.len() == 0 {
        Seq::empty()
    } else if s.last().state == st {
        ids_in(s.drop_last(), st).push(s.last().id)
    } else {
        ids_in(s.drop_last(), st)
    }
}

/// `s` with the item `e` put in: it replaces the entry of the same identifier,
/// or is appended when there is none.
pub open spec fn put(s: Seq<TrackedItem>, e: TrackedItem) -> Seq<TrackedItem> {
    match index_of(s, e.id) {
        Some(i) => s.update(i, e),
        None => s.push(e),
    }
}

/// The parent of the first observation of `id` that lies outside `folder`, if any.
pub open spec fn departure(obs: Seq<Observation>, folder: Seq<char>, id: u128) -> Option<Seq<char>>
    decreases obs.len(),
{
    if obs.len() == 0 {
        None
    } else if obs[0].id == id && obs[0].parent@ != folder {
        Some(obs[0].parent@)
    } else {
        departure(obs.drop_first(), folder, id)
    }
}

/// What reconciliation makes of one item: new items join the visible folder;
/// a current item that left the folder becomes read-pending when it went to the
/// archive folder, and is dropped from tracking when it went anywhere else.
pub open spec fn reconciled_item(
    e: TrackedItem,
    obs: Seq<Observation>,
    folder: Seq<char>,
    archive: Seq<char>,
) -> Option<TrackedItem> {
    match e.state {
        ItemState::New => Some(TrackedItem { state: ItemState::Current, ..e }),
        ItemState::Current => match departure(obs, folder, e.id) {
            None => Some(e),
            Some(p) => if p == archive {
                Some(TrackedItem { state: ItemState::ReadPending, ..e })
            } else {
                None
            },
        },
        _ => Some(e),
    }
}

/// Reconciliation applied to every item, keeping the order.
pub open spec fn reconciled(
    s: Seq<TrackedItem>,
    obs: Seq<Observation>,
    folder: Seq<char>,
    archive: Seq<char>,
) -> Seq<TrackedItem>
    decreases s.len(),
{
    if s.len() == 0 {
        Seq::empty()
    } else {
        let rest = reconciled(s.drop_last(), obs, folder, archive);
        match reconciled_item(s.last(), obs, folder, archive) {
            Some(e) => rest.push(e),
            None => rest,
        }
    }
}

/// Every read-pending item becomes archived; the others are kept as they are.
pub open spec fn archive_read(s: Seq<TrackedItem>) -> Seq<TrackedItem> {
    Seq::new(
        s.len(),
        |i: int|
            if s[i].state == ItemState::ReadPending {
                TrackedItem { state: ItemState::Archived, ..s[i] }
            } else {
                s[i]
            },
    )
}

impl StoreState {
    pub open spec fn well_formed(self) -> bool {
        unique_ids(self.items)
    }

    pub open spec fn current(self) -> Map<u128, u64> {
        in_state(self.items, ItemState::Current)
    }

    pub open spec fn new_items(self) -> Map<u128, u64> {
        in_state(self.items, ItemState::New)
    }

    pub open spec fn read_pending(self) -> Map<u128, u64> {
        in_state(self.items, ItemState::ReadPending)
    }

    pub open spec fn archived(self) -> Map<u128, u64> {
        in_state(self.items, ItemState::Archived)
    }

    /// The store after a reconciliation pass over the observations `obs`.
    /// The store with `fresh` as archive folder when it names none (nil).
    pub open spec fn with_archive(self, fresh: u128) -> StoreState {
        if self.archive == 0 {
            StoreState { archive: fresh, ..self }
        } else {
            self
        }
    }

    /// The store after a consolidation: a nil archive folder is replaced by
    /// `fresh`, then reconciliation runs over `obs`.
    pub open spec fn after_consolidate(self, obs: Seq<Observation>, fresh: u128) -> StoreState {
        self.with_archive(fresh).after_reconcile(obs)
    }

    pub open spec fn after_reconcile(self, obs: Seq<Observation>) -> StoreState {
        StoreState {
            items: reconciled(self.items, obs, hyphenated(self.folder), hyphenated(self.archive)),
            ..self
        }
    }
}

/// The tracked items and folder identifiers that are kept across runs.
pub struct FSHandler {
    folder: u128,
    archive: u128,
    items: Vec<TrackedItem>,
    ts_last_query: u64,
}

impl FSHandler {
    #[verifier::type_invariant]
    closed spec fn inv(self) -> bool {
        unique_ids(self.items@)
    }
}

impl View for FSHandler {
    type V = StoreState;

    closed spec fn view(&self) -> StoreState {
        StoreState {
            folder: self.folder,
            archive: self.archive,
            items: self.items@,
            watermark: self.ts_last_query,
        }
    }
}

proof fn lemma_index_of_bounds(s: Seq<TrackedItem>, id: u128)
    ensures
        match index_of(s, id) {
            Some(i) => 0 <= i < s.len() && s[i].id == id,
            None => forall|k: int| 0 <= k < s.len() ==> s[k].id != id,
        },
    decreases s.len(),
{
    if s.len() > 0 && s.last().id != id {
        lemma_index_of_bounds(s.drop_last(), id);
        assert forall|k: int| 0 <= k < s.len() - 1 implies s[k] == s.drop_last()[k] by {}
    }
}

/// The position of `id` among `items`, searching from the end.
fn find(items: &Vec<TrackedItem>, id: u128) -> (r: Option<usize>)
    ensures
        match r {
            Some(i) => i < items@.len() && items@[i as int].id == id && index_of(items@, id)
                == Some(i as int),
            None => index_of(items@, id) is None,
        },
{
    proof {
        lemma_index_of_bounds(items@, id);
    }
    let mut j: usize = items.len();
    assert(items@.subrange(0, j as int) =~= items@);
    while j > 0
        invariant
            j <= items@.len(),
            index_of(items@, id) == index_of(items@.subrange(0, j as int), id),
        decreases j,
    {
        let sub = Ghost(items@.subrange(0, j as int));
        if items[j - 1].id == id {
            return Some(j - 1);
        }
        assert(sub@.drop_last() =~= items@.subrange(0, j - 1));
        j = j - 1;
    }
    assert(items@.subrange(0, 0).len() == 0);
    None
}


proof fn lemma_put_unique(s: Seq<TrackedItem>, e: TrackedItem)
    requires
        unique_ids(s),
    ensures
        unique_ids(put(s, e)),
{
    lemma_index_of_bounds(s, e.id);
}

/// Reconciliation only keeps or drops items, so identifiers stay unique.
proof fn lemma_reconciled_ids(
    s: Seq<TrackedItem>,
    obs: Seq<Observation>,
    folder: Seq<char>,
    archive: Seq<char>,
)
    requires
        unique_ids(s),
    ensures
        unique_ids(reconciled(s, obs, folder, archive)),
        forall|j: int|
            0 <= j < reconciled(s, obs, folder, archive).len() ==> exists|k: int|
                0 <= k < s.len() && s[k].id == #[trigger] reconciled(s, obs, folder, archive)[j].id,
    decreases s.len(),
{
    if s.len() > 0 {
        let d = s.drop_last();
        assert(unique_ids(d));
        lemma_reconciled_ids(d, obs, folder, archive);
        let rest = reconciled(d, obs, folder, archive);
        let r = reconciled(s, obs, folder, archive);
        assert forall|j: int| 0 <= j < rest.len() implies rest[j].id != s.last().id by {
            let k = choose|k: int| 0 <= k < d.len() && d[k].id == rest[j].id;
            assert(s[k] == d[k]);
        }
        assert forall|j: int| 0 <= j < r.len() implies exists|k: int|
            0 <= k < s.len() && s[k].id == #[trigger] r[j].id by {
            if j < rest.len() {
                assert(r[j] == rest[j]);
                let k = choose|k: int| 0 <= k < d.len() && d[k].id == rest[j].id;
                assert(s[k] == d[k]);
            } else {
                assert(s[s.len() - 1].id == r[j].id);
            }
        }
    }
}

/// The first observation of `id` whose parent lies outside `folder`.
fn find_departure(observed: &Vec<Observation>, folder: &String, id: u128) -> (r: Option<usize>)
    ensures
        match r {
            Some(k) => k < observed@.len() && departure(observed@, folder@, id) == Some(
                observed@[k as int].parent@,
            ),
            None => departure(observed@, folder@, id) is None,
        },
{
    let mut k: usize = 0;
    assert(observed@.subrange(0, observed@.len() as int) =~= observed@);
    while k < observed.len()
        invariant
            k <= observed@.len(),
            departure(observed@, folder@, id) == departure(
                observed@.subrange(k as int, observed@.len() as int),
                folder@,
                id,
            ),
        decreases observed@.len() - k,
    {
        let rest = Ghost(observed@.subrange(k as int, observed@.len() as int));
        assert(rest@[0] == observed@[k as int]);
        if observed[k].id == id && !(observed[k].parent == *folder) {
            return Some(k);
        }
        assert(rest@.drop_first() =~= observed@.subrange(k + 1, observed@.len() as int));
        k = k + 1;
    }
    None
}

impl FSHandler {
    /// A store with the given folder identifiers and no tracked items.
    pub fn with_folders(folder: u128, archive: u128) -> (r: FSHandler)
        ensures
            r@.folder == folder,
            r@.archive == archive,
            r@.items.len() == 0,
            r@.watermark == 0,
    {
        FSHandler { folder, archive, items: Vec::new(), ts_last_query: 0 }
    }

    /// A fresh store: two new random folder identifiers, nothing tracked.
    pub fn new() -> (r: FSHandler)
        ensures
            r@.items.len() == 0,
            r@.watermark == 0,
            crate::ident::version_of(r@.folder) == 4,
            crate::ident::version_of(r@.archive) == 4,
            r@.folder != r@.archive,
    {
        let folder = fresh_identifier();
        let drawn = fresh_identifier();
        // On the off chance that both draws agree, the lowest bit tells them
        // apart; it lies outside the version and variant fields.
        let archive = if drawn == folder {
            drawn ^ 1
        } else {
            drawn
        };
        assert(version_of(drawn) == 4 ==> version_of(drawn ^ 1) == 4) by (bit_vector);
        assert(drawn ^ 1 != drawn) by (bit_vector);
        FSHandler::with_folders(folder, archive)
    }

    pub fn folder_id(&self) -> (r: u128)
        ensures
            r == self@.folder,
    {
        self.folder
    }

    pub fn archive_id(&self) -> (r: u128)
        ensures
            r == self@.archive,
    {
        self.archive
    }

    /// The text of the visible folder's identifier, as descriptors record it.
    pub fn parent_uuid_string(&self) -> (r: String)
        ensures
            r@ == hyphenated(self@.folder),
    {
        identifier_text(self.folder)
    }

    /// The text of the archive folder's identifier, as descriptors record it.
    pub fn archive_uuid_string(&self) -> (r: String)
        ensures
            r@ == hyphenated(self@.archive),
    {
        identifier_text(self.archive)
    }

    /// The remote-query watermark.
    pub fn last_query_ts(&self) -> (r: u64)
        ensures
            r == self@.watermark,
    {
        self.ts_last_query
    }

    /// Advances the watermark to `ts` after a successful query; it never
    /// moves back.
    pub fn advance_watermark(&mut self, ts: u64)
        ensures
            final(self)@ == (StoreState {
                watermark: if ts > old(self)@.watermark {
                    ts
                } else {
                    old(self)@.watermark
                },
                ..old(self)@
            }),
    {
        if ts > self.ts_last_query {
            self.set_last_query_ts(ts);
        }
    }

    pub fn set_last_query_ts(&mut self, ts: u64)
        ensures
            final(self)@ == (StoreState { watermark: ts, ..old(self)@ }),
    {
        proof {
            use_type_invariant(&*self);
        }
        self.ts_last_query = ts;
    }

    /// Every store keeps each identifier in a single stage.
    pub fn well_formed(&self)
        ensures
            self@.well_formed(),
    {
        proof {
            use_type_invariant(self);
        }
    }

    /// Records a document synthesised in this run: the identifier is tracked as
    /// new, with the given remote id, whatever stage it stood in before.
    pub fn record_new(&mut self, id: u128, remote: u64)
        ensures
            final(self)@ == (StoreState {
                items: put(old(self)@.items, TrackedItem { id, remote, state: ItemState::New }),
                ..old(self)@
            }),
    {
        proof {
            use_type_invariant(&*self);
        }
        let e = TrackedItem { id, remote, state: ItemState::New };
        let mut items = self.items.clone();
        assert(items@ == self.items@);
        match find(&items, id) {
            Some(i) => {
                items.set(i, e);
            },
            None => {
                items.push(e);
            },
        }
        proof {
            lemma_put_unique(self.items@, e);
        }
        self.items = items;
    }

    /// The stage that `id` stands in, if it is tracked.
    pub fn state_of(&self, id: u128) -> (r: Option<ItemState>)
        ensures
            match index_of(self@.items, id) {
                Some(i) => r == Some(self@.items[i].state),
                None => r is None,
            },
    {
        match find(&self.items, id) {
            Some(i) => Some(self.items[i].state),
            None => None,
        }
    }

    /// Reconciles the store against what was read from disk.
    ///
    /// A store that names no archive folder (a nil identifier, as in a
    /// snapshot written before the archive existed) takes `fresh` as its
    /// archive folder first. Each current item whose descriptor now names a parent other than the
    /// visible folder leaves the folder: into read-pending when the parent is
    /// the archive folder, out of tracking otherwise. Items without such an
    /// observation stay. Then every new item becomes current.
    pub fn consolidate_with(&mut self, observed: &Vec<Observation>, fresh: u128)
        ensures
            final(self)@ == old(self)@.after_consolidate(observed@, fresh),
    {
        proof {
            use_type_invariant(&*self);
        }
        if self.archive == 0 {
            self.archive = fresh;
        }
        let folder_text = identifier_text(self.folder);
        let archive_text = identifier_text(self.archive);
        let ghost f = hyphenated(self.folder);
        let ghost a = hyphenated(self.archive);
        let mut out: Vec<TrackedItem> = Vec::new();
        let mut i: usize = 0;
        while i < self.items.len()
            invariant
                i <= self.items@.len(),
                folder_text@ == f,
                archive_text@ == a,
                out@ == reconciled(self.items@.subrange(0, i as int), observed@, f, a),
            decreases self.items@.len() - i,
        {
            let ghost pre = self.items@.subrange(0, i + 1);
            assert(pre.drop_last() =~= self.items@.subrange(0, i as int));
            let e = self.items[i];
            assert(pre.last() == e);
            match e.state {
                ItemState::New => {
                    out.push(TrackedItem { id: e.id, remote: e.remote, state: ItemState::Current });
                },
                ItemState::Current => {
                    match find_departure(observed, &folder_text, e.id) {
                        None => {
                            out.push(e);
                        },
                        Some(k) => {
                            if observed[k].parent == archive_text {
                                out.push(
                                    TrackedItem {
                                        id: e.id,
                                        remote: e.remote,
                                        state: ItemState::ReadPending,
                                    },
                                );
                            }
                        },
                    }
                },
                _ => {
                    out.push(e);
                },
            }
            i = i + 1;
        }
        assert(self.items@.subrange(0, self.items@.len() as int) =~= self.items@);
        proof {
            lemma_reconciled_ids(self.items@, observed@, f, a);
        }
        self.items = out;
    }

    /// Consolidates the store (see `consolidate_with`), drawing a fresh random
    /// archive folder when the store names none.
    pub fn consolidate(&mut self, observed: &Vec<Observation>)
        ensures
            old(self)@.archive != 0 ==> final(self)@ == old(self)@.after_reconcile(observed@),
            old(self)@.archive == 0 ==> version_of(final(self)@.archive) == 4 && final(self)@
                == (StoreState { archive: final(self)@.archive, ..old(self)@ }).after_reconcile(
                observed@,
            ),
    {
        let fresh = fresh_identifier();
        self.consolidate_with(observed, fresh);
    }

    /// The identifiers of the current items, whose descriptors reconciliation reads.
    pub fn current_ids(&self) -> (r: Vec<u128>)
        ensures
            r@ == ids_in(self@.items, ItemState::Current),
    {
        self.ids_in_state(ItemState::Current)
    }

    /// The identifiers of the items in stage `st`, in order.
    pub fn ids_in_state(&self, st: ItemState) -> (r: Vec<u128>)
        ensures
            r@ == ids_in(self@.items, st),
    {
        let mut out: Vec<u128> = Vec::new();
        let mut i: usize = 0;
        while i < self.items.len()
            invariant
                i <= self.items@.len(),
                out@ == ids_in(self.items@.subrange(0, i as int), st),
            decreases self.items@.len() - i,
        {
            let ghost pre = self.items@.subrange(0, i + 1);
            assert(pre.drop_last() =~= self.items@.subrange(0, i as int));
            if self.items[i].state == st {
                out.push(self.items[i].id);
            }
            i = i + 1;
        }
        assert(self.items@.subrange(0, self.items@.len() as int) =~= self.items@);
        out
    }

    /// The remote ids of the read-pending items: those to archive remotely.
    pub fn read_ids(&self) -> (r: Vec<u64>)
        ensures
            r@ == remotes_in(self@.items, ItemState::ReadPending),
    {
        let mut out: Vec<u64> = Vec::new();
        let mut i: usize = 0;
        while i < self.items.len()
            invariant
                i <= self.items@.len(),
                out@ == remotes_in(self.items@.subrange(0, i as int), ItemState::ReadPending),
            decreases self.items@.len() - i,
        {
            let ghost pre = self.items@.subrange(0, i + 1);
            assert(pre.drop_last() =~= self.items@.subrange(0, i as int));
            if self.items[i].state == ItemState::ReadPending {
                out.push(self.items[i].remote);
            }
            i = i + 1;
        }
        assert(self.items@.subrange(0, self.items@.len() as int) =~= self.items@);
        out
    }

    /// Moves every read-pending item into archived, and returns their
    /// identifiers: their descriptors are to be moved to the trash.
    pub fn clear_read(&mut self) -> (r: Vec<u128>)
        ensures
            r@ == ids_in(old(self)@.items, ItemState::ReadPending),
            final(self)@ == (StoreState { items: archive_read(old(self)@.items), ..old(self)@ }),
    {
        proof {
            use_type_invariant(&*self);
        }
        let moved = self.ids_in_state(ItemState::ReadPending);
        let mut items = self.items.clone();
        assert(items@ == self.items@);
        let mut i: usize = 0;
        while i < items.len()
            invariant
                items@.len() == self.items@.len(),
                i <= items@.len(),
                forall|k: int| 0 <= k < i ==> items@[k] == archive_read(self.items@)[k],
                forall|k: int| i <= k < items@.len() ==> items@[k] == self.items@[k],
            decreases items@.len() - i,
        {
            let e = items[i];
            if e.state == ItemState::ReadPending {
                items.set(i, TrackedItem { id: e.id, remote: e.remote, state: ItemState::Archived });
            }
            i = i + 1;
        }
        assert(items@ =~= archive_read(self.items@));
        self.items = items;
        moved
    }

    /// Settles the outcome of the remote archive call: only when it succeeded
    /// do the read-pending items become archived; otherwise they stay pending
    /// for the next cycle.
    pub fn settle_remote_archive(&mut self, succeeded: bool) -> (r: Vec<u128>)
        ensures
            succeeded ==> r@ == ids_in(old(self)@.items, ItemState::ReadPending) && final(self)@
                == (StoreState { items: archive_read(old(self)@.items), ..old(self)@ }),
            !succeeded ==> r@.len() == 0 && final(self)@ == old(self)@,
    {
        if succeeded {
            self.clear_read()
        } else {
            Vec::new()
        }
    }
}

proof fn lemma_fixed_point(
    t: Seq<TrackedItem>,
    obs: Seq<Observation>,
    folder: Seq<char>,
    archive: Seq<char>,
)
    requires
        forall|j: int| 0 <= j < t.len() ==> reconciled_item(#[trigger] t[j], obs, folder, archive) == Some(t[j]),
    ensures
        reconciled(t, obs, folder, archive) == t,
    decreases t.len(),
{
    if t.len() > 0 {
        let d = t.drop_last();
        assert forall|j: int| 0 <= j < d.len() implies reconciled_item(
            #[trigger] d[j],
            obs,
            folder,
            archive,
        ) == Some(d[j]) by {
            assert(d[j] == t[j]);
        }
        lemma_fixed_point(d, obs, folder, archive);
        assert(reconciled_item(t[t.len() - 1], obs, folder, archive) == Some(t.last()));
        assert(d.push(t.last()) =~= t);
    }
}

proof fn lemma_reconciled_settled(
    s: Seq<TrackedItem>,
    obs: Seq<Observation>,
    folder: Seq<char>,
    archive: Seq<char>,
)
    requires
        forall|i: int|
            0 <= i < s.len() && (#[trigger] s[i]).state == ItemState::New ==> departure(
                obs,
                folder,
                s[i].id,
            ) is None,
    ensures
        forall|j: int|
            0 <= j < reconciled(s, obs, folder, archive).len() ==> reconciled_item(
                #[trigger] reconciled(s, obs, folder, archive)[j],
                obs,
                folder,
                archive,
            ) == Some(reconciled(s, obs, folder, archive)[j]),
    decreases s.len(),
{
    if s.len() > 0 {
        let d = s.drop_last();
        assert forall|i: int|
            0 <= i < d.len() && (#[trigger] d[i]).state == ItemState::New implies departure(
            obs,
            folder,
            d[i].id,
        ) is None by {
            assert(d[i] == s[i]);
        }
        lemma_reconciled_settled(d, obs, folder, archive);
        let last = s[s.len() - 1];
        assert(last.state == ItemState::New ==> departure(obs, folder, last.id) is None);
    }
}

/// Consolidation is idempotent: a second pass over the same observations
/// changes nothing, whatever archive identifier it is offered, provided the
/// first pass had a non-nil archive to use and no observation reports an item
/// that was new before the first pass as having left the folder.
pub proof fn lemma_consolidate_idempotent(
    st: StoreState,
    obs: Seq<Observation>,
    fresh: u128,
    fresh2: u128,
)
    requires
        st.archive != 0 || fresh != 0,
        forall|i: int|
            0 <= i < st.items.len() && (#[trigger] st.items[i]).state == ItemState::New
                ==> departure(obs, hyphenated(st.folder), st.items[i].id) is None,
    ensures
        st.after_consolidate(obs, fresh).after_consolidate(obs, fresh2) == st.after_consolidate(
            obs,
            fresh,
        ),
{
    let s1 = st.with_archive(fresh);
    assert(s1.items == st.items && s1.folder == st.folder);
    lemma_reconcile_idempotent(s1, obs);
    assert(s1.after_reconcile(obs).with_archive(fresh2) == s1.after_reconcile(obs));
}

/// Reconciliation is idempotent: a second pass over the same observations
/// changes nothing, provided no observation reports an item that was new before
/// the first pass as having left the folder (its descriptor was just written
/// into the folder, and nothing outside changed it).
pub proof fn lemma_reconcile_idempotent(st: StoreState, obs: Seq<Observation>)
    requires
        forall|i: int|
            0 <= i < st.items.len() && (#[trigger] st.items[i]).state == ItemState::New
                ==> departure(obs, hyphenated(st.folder), st.items[i].id) is None,
    ensures
        st.after_reconcile(obs).after_reconcile(obs) == st.after_reconcile(obs),
{
    let f = hyphenated(st.folder);
    let a = hyphenated(st.archive);
    lemma_reconciled_settled(st.items, obs, f, a);
    lemma_fixed_point(reconciled(st.items, obs, f, a), obs, f, a);
}

/// The persisted form of a store, with identifiers written as text. Items that
/// are new or read-pending are transient and are not persisted.
#[derive(Clone, Debug)]
pub struct Snapshot {
    pub folder: String,
    pub archive: String,
    pub current_items: Vec<(String, u64)>,
    pub archived_items: Vec<(String, u64)>,
    pub ts_last_query: u64,
}

/// Why a snapshot could not be read back.
#[derive(Clone, Copy, Debug, PartialEq, Eq, Structural)]
pub enum SnapshotError {
    /// The folder identifier, the archive identifier or an item key is not an identifier.
    InvalidIdentifier,
}

/// The `(identifier, remote id)` pairs of the items in stage `st`, in order.
pub open spec fn entries_in(s: Seq<TrackedItem>, st: ItemState) -> Seq<(u128, u64)>
    decreases s.len(),
{
    if s.len() == 0 {
        Seq::empty()
    } else if s.last().state == st {
        entries_in(s.drop_last(), st).push((s.last().id, s.last().remote))
    } else {
        entries_in(s.drop_last(), st)
    }
}

/// `texts` writes the pairs `e`, each identifier spelled as text.
pub open spec fn written_as(texts: Seq<(String, u64)>, e: Seq<(u128, u64)>) -> bool {
    &&& texts.len() == e.len()
    &&& forall|k: int| 0 <= k < e.len() ==> spells((#[trigger] texts[k]).0@, e[k].0) && texts[k].1 == e[k].1
}

/// The items `e`, each put in stage `st` in turn.
pub open spec fn put_all(s: Seq<TrackedItem>, e: Seq<(u128, u64)>, st: ItemState) -> Seq<TrackedItem>
    decreases e.len(),
{
    if e.len() == 0 {
        s
    } else {
        put(put_all(s, e.drop_last(), st), TrackedItem { id: e.last().0, remote: e.last().1, state: st })
    }
}

/// The items of a store restored from its current and archived pairs.
pub open spec fn restored(current: Seq<(u128, u64)>, archived: Seq<(u128, u64)>) -> Seq<TrackedItem> {
    put_all(put_all(Seq::empty(), current, ItemState::Current), archived, ItemState::Archived)
}

impl Snapshot {
    /// This snapshot writes out a store with these folders, pairs and watermark.
    pub open spec fn describes(
        self,
        folder: u128,
        archive: u128,
        current: Seq<(u128, u64)>,
        archived: Seq<(u128, u64)>,
        ts: u64,
    ) -> bool {
        &&& spells(self.folder@, folder)
        &&& spells(self.archive@, archive)
        &&& written_as(self.current_items@, current)
        &&& written_as(self.archived_items@, archived)
        &&& self.ts_last_query == ts
    }
}

fn put_item(items: &mut Vec<TrackedItem>, e: TrackedItem)
    requires
        unique_ids(old(items)@),
    ensures
        final(items)@ == put(old(items)@, e),
        unique_ids(final(items)@),
{
    proof {
        lemma_put_unique(old(items)@, e);
    }
    match find(items, e.id) {
        Some(i) => {
            items.set(i, e);
        },
        None => {
            items.push(e);
        },
    }
}

fn put_entries(items: &mut Vec<TrackedItem>, entries: &Vec<(u128, u64)>, st: ItemState)
    requires
        unique_ids(old(items)@),
    ensures
        final(items)@ == put_all(old(items)@, entries@, st),
        unique_ids(final(items)@),
{
    let ghost start = items@;
    let mut i: usize = 0;
    while i < entries.len()
        invariant
            i <= entries@.len(),
            unique_ids(items@),
            items@ == put_all(start, entries@.subrange(0, i as int), st),
        decreases entries@.len() - i,
    {
        let ghost pre = entries@.subrange(0, i + 1);
        assert(pre.drop_last() =~= entries@.subrange(0, i as int));
        let (id, remote) = entries[i];
        put_item(items, TrackedItem { id, remote, state: st });
        i = i + 1;
    }
    assert(entries@.subrange(0, entries@.len() as int) =~= entries@);
}

/// Reads identifier texts back; `None` when one of them is not an identifier.
fn parse_entries(texts: &Vec<(String, u64)>) -> (r: Option<Vec<(u128, u64)>>)
    ensures
        forall|e: Seq<(u128, u64)>| #[trigger] written_as(texts@, e) ==> (r matches Some(v) && v@ == e),
        (exists|k: int| 0 <= k < texts@.len() && (#[trigger] texts@[k]).0@.len() == 0) ==> r is None,
{
    let mut out: Vec<(u128, u64)> = Vec::new();
    let mut i: usize = 0;
    while i < texts.len()
        invariant
            i <= texts@.len(),
            forall|e: Seq<(u128, u64)>| #[trigger]
                written_as(texts@, e) ==> out@ == e.subrange(0, i as int),
            forall|k: int| 0 <= k < i ==> (#[trigger] texts@[k]).0@.len() != 0,
        decreases texts@.len() - i,
    {
        match parse_identifier(texts[i].0.as_str()) {
            Some(u) => {
                let remote = texts[i].1;
                out.push((u, remote));
                assert forall|e: Seq<(u128, u64)>| #[trigger]
                    written_as(texts@, e) implies out@ == e.subrange(0, i + 1) by {
                    assert(spells(texts@[i as int].0@, e[i as int].0));
                    assert(e.subrange(0, i + 1) =~= e.subrange(0, i as int).push(e[i as int]));
                }
            },
            None => {
                return None;
            },
        }
        i = i + 1;
    }
    assert forall|e: Seq<(u128, u64)>| #[trigger] written_as(texts@, e) implies out@ == e by {
        assert(e.subrange(0, e.len() as int) =~= e);
    }
    Some(out)
}

/// Writes pairs out with each identifier as its canonical text.
fn write_entries(e: &Vec<(u128, u64)>) -> (r: Vec<(String, u64)>)
    ensures
        written_as(r@, e@),
{
    let mut out: Vec<(String, u64)> = Vec::new();
    let mut i: usize = 0;
    while i < e.len()
        invariant
            i <= e@.len(),
            out@.len() == i,
            forall|k: int| 0 <= k < i ==> (#[trigger] out@[k]).0@ == hyphenated(e@[k].0) && out@[k].1 == e@[k].1,
        decreases e@.len() - i,
    {
        let (id, remote) = e[i];
        out.push((identifier_text(id), remote));
        i = i + 1;
    }
    out
}

impl FSHandler {
    /// The pairs of the items in stage `st`, in order.
    pub fn entries_in_state(&self, st: ItemState) -> (r: Vec<(u128, u64)>)
        ensures
            r@ == entries_in(self@.items, st),
    {
        let mut out: Vec<(u128, u64)> = Vec::new();
        let mut i: usize = 0;
        while i < self.items.len()
            invariant
                i <= self.items@.len(),
                out@ == entries_in(self.items@.subrange(0, i as int), st),
            decreases self.items@.len() - i,
        {
            let ghost pre = self.items@.subrange(0, i + 1);
            assert(pre.drop_last() =~= self.items@.subrange(0, i as int));
            if self.items[i].state == st {
                out.push((self.items[i].id, self.items[i].remote));
            }
            i = i + 1;
        }
        assert(self.items@.subrange(0, self.items@.len() as int) =~= self.items@);
        out
    }

    /// A store holding the given current and archived pairs; a pair whose
    /// identifier was already put in replaces it.
    pub fn restore(
        folder: u128,
        archive: u128,
        current: &Vec<(u128, u64)>,
        archived: &Vec<(u128, u64)>,
        ts: u64,
    ) -> (r: FSHandler)
        ensures
            r@ == (StoreState { folder, archive, items: restored(current@, archived@), watermark: ts }),
    {
        let mut items: Vec<TrackedItem> = Vec::new();
        put_entries(&mut items, current, ItemState::Current);
        put_entries(&mut items, archived, ItemState::Archived);
        FSHandler { folder, archive, items, ts_last_query: ts }
    }

    /// The persisted form of this store.
    pub fn snapshot(&self) -> (r: Snapshot)
        ensures
            r.describes(
                self@.folder,
                self@.archive,
                entries_in(self@.items, ItemState::Current),
                entries_in(self@.items, ItemState::Archived),
                self@.watermark,
            ),
    {
        let current = self.entries_in_state(ItemState::Current);
        let archived = self.entries_in_state(ItemState::Archived);
        Snapshot {
            folder: identifier_text(self.folder),
            archive: identifier_text(self.archive),
            current_items: write_entries(&current),
            archived_items: write_entries(&archived),
            ts_last_query: self.ts_last_query,
        }
    }

    /// Reads a snapshot back, with `fresh` as the archive folder when the
    /// snapshot names none (an empty or nil archive identifier).
    pub fn from_snapshot_with(snap: &Snapshot, fresh: u128) -> (r: Result<FSHandler, SnapshotError>)
        ensures
            forall|f: u128, a: u128, cur: Seq<(u128, u64)>, arc: Seq<(u128, u64)>|
                #[trigger] snap.describes(f, a, cur, arc, snap.ts_last_query) ==> (r matches Ok(h)
                    && h@ == (StoreState {
                    folder: f,
                    archive: if a == 0 {
                        fresh
                    } else {
                        a
                    },
                    items: restored(cur, arc),
                    watermark: snap.ts_last_query,
                })),
            snap.folder@.len() == 0 ==> r is Err,
            r matches Ok(h) ==> h@.archive != 0 || fresh == 0,
    {
        let folder = match parse_identifier(snap.folder.as_str()) {
            Some(u) => u,
            None => {
                return Err(SnapshotError::InvalidIdentifier);
            },
        };
        let archive = if snap.archive.as_str().is_empty() {
            fresh
        } else {
            match parse_identifier(snap.archive.as_str()) {
                Some(0) => fresh,
                Some(u) => u,
                None => {
                    return Err(SnapshotError::InvalidIdentifier);
                },
            }
        };
        let current = match parse_entries(&snap.current_items) {
            Some(v) => v,
            None => {
                return Err(SnapshotError::InvalidIdentifier);
            },
        };
        let archived = match parse_entries(&snap.archived_items) {
            Some(v) => v,
            None => {
                return Err(SnapshotError::InvalidIdentifier);
            },
        };
        Ok(FSHandler::restore(folder, archive, &current, &archived, snap.ts_last_query))
    }

    /// Reads a snapshot back; a snapshot that names no archive folder gets a
    /// fresh one.
    pub fn from_snapshot(snap: &Snapshot) -> (r: Result<FSHandler, SnapshotError>)
        ensures
            forall|f: u128, a: u128, cur: Seq<(u128, u64)>, arc: Seq<(u128, u64)>|
                #[trigger] snap.describes(f, a, cur, arc, snap.ts_last_query) ==> (r matches Ok(h)
                    && h@.folder == f && h@.items == restored(cur, arc) && h@.watermark
                    == snap.ts_last_query && (a != 0 ==> h@.archive == a) && (a == 0
                    ==> version_of(h@.archive) == 4)),
            snap.folder@.len() == 0 ==> r is Err,
            r matches Ok(h) ==> h@.archive != 0,
    {
        let fresh = fresh_identifier();
        FSHandler::from_snapshot_with(snap, fresh)
    }
}

/// The pairs `e` as items in stage `st`.
pub open spec fn as_items(e: Seq<(u128, u64)>, st: ItemState) -> Seq<TrackedItem> {
    Seq::new(e.len(), |k: int| TrackedItem { id: e[k].0, remote: e[k].1, state: st })
}

/// No identifier occurs twice among the pairs.
pub open spec fn distinct_keys(e: Seq<(u128, u64)>) -> bool {
    forall|i: int, j: int| 0 <= i < j < e.len() ==> e[i].0 != e[j].0
}

proof fn lemma_entries_facts(s: Seq<TrackedItem>, st: ItemState)
    requires
        unique_ids(s),
    ensures
        distinct_keys(entries_in(s, st)),
        forall|k: int|
            0 <= k < entries_in(s, st).len() ==> exists|i: int|
                0 <= i < s.len() && s[i].id == (#[trigger] entries_in(s, st)[k]).0 && s[i].state == st,
    decreases s.len(),
{
    if s.len() > 0 {
        let d = s.drop_last();
        assert(unique_ids(d));
        lemma_entries_facts(d, st);
        let ed = entries_in(d, st);
        let e = entries_in(s, st);
        if s.last().state == st {
            assert forall|k: int| 0 <= k < ed.len() implies ed[k].0 != s.last().id by {
                let i = choose|i: int| 0 <= i < d.len() && d[i].id == ed[k].0 && d[i].state == st;
                assert(s[i] == d[i]);
            }
            assert forall|k: int| 0 <= k < e.len() implies exists|i: int|
                0 <= i < s.len() && s[i].id == (#[trigger] e[k]).0 && s[i].state == st by {
                if k < ed.len() {
                    assert(e[k] == ed[k]);
                    let i = choose|i: int| 0 <= i < d.len() && d[i].id == ed[k].0 && d[i].state == st;
                    assert(s[i] == d[i]);
                } else {
                    assert(s[s.len() - 1].id == e[k].0);
                }
            }
        } else {
            assert(e == ed);
            assert forall|k: int| 0 <= k < e.len() implies exists|i: int|
                0 <= i < s.len() && s[i].id == (#[trigger] e[k]).0 && s[i].state == st by {
                assert(e[k] == ed[k]);
                let i = choose|i: int| 0 <= i < d.len() && d[i].id == ed[k].0 && d[i].state == st;
                assert(s[i] == d[i]);
                assert(s[i].id == e[k].0 && s[i].state == st);
            }
        }
    }
}

proof fn lemma_put_all_fresh(b: Seq<TrackedItem>, e: Seq<(u128, u64)>, st: ItemState)
    requires
        distinct_keys(e),
        forall|k: int, i: int| 0 <= k < e.len() && 0 <= i < b.len() ==> b[i].id != e[k].0,
    ensures
        put_all(b, e, st) == b + as_items(e, st),
    decreases e.len(),
{
    if e.len() == 0 {
        assert(b + as_items(e, st) =~= b);
    } else {
        let d = e.drop_last();
        assert forall|k: int, i: int| 0 <= k < d.len() && 0 <= i < b.len() implies b[i].id
            != d[k].0 by {
            assert(d[k] == e[k]);
        }
        lemma_put_all_fresh(b, d, st);
        let t = b + as_items(d, st);
        let id = e.last().0;
        assert forall|k: int| 0 <= k < t.len() implies t[k].id != id by {
            if k < b.len() {
                assert(t[k] == b[k]);
                assert(b[k].id != e[e.len() - 1].0);
            } else {
                assert(t[k].id == e[k - b.len()].0);
            }
        }
        lemma_index_of_bounds(t, id);
        assert(t.push(TrackedItem { id, remote: e.last().1, state: st }) =~= b + as_items(e, st));
    }
}

proof fn lemma_in_state_concat(x: Seq<TrackedItem>, y: Seq<TrackedItem>, st: ItemState)
    ensures
        in_state(x + y, st) == in_state(x, st).union_prefer_right(in_state(y, st)),
    decreases y.len(),
{
    if y.len() == 0 {
        assert(x + y =~= x);
        assert(in_state(x, st).union_prefer_right(Map::empty()) =~= in_state(x, st));
    } else {
        let yd = y.drop_last();
        lemma_in_state_concat(x, yd, st);
        assert((x + y).drop_last() =~= x + yd);
        assert((x + y).last() == y.last());
        if y.last().state == st {
            assert(in_state(x, st).union_prefer_right(in_state(yd, st)).insert(
                y.last().id,
                y.last().remote,
            ) =~= in_state(x, st).union_prefer_right(
                in_state(yd, st).insert(y.last().id, y.last().remote),
            ));
        }
    }
}

proof fn lemma_in_state_entries(s: Seq<TrackedItem>, st: ItemState, st2: ItemState)
    ensures
        in_state(as_items(entries_in(s, st), st), st2) == if st == st2 {
            in_state(s, st)
        } else {
            Map::empty()
        },
    decreases s.len(),
{
    if s.len() == 0 {
        assert(as_items(entries_in(s, st), st).len() == 0);
    } else {
        let d = s.drop_last();
        lemma_in_state_entries(d, st, st2);
        let ed = entries_in(d, st);
        if s.last().state == st {
            let item = TrackedItem { id: s.last().id, remote: s.last().remote, state: st };
            assert(as_items(entries_in(s, st), st) =~= as_items(ed, st).push(item));
            assert(as_items(ed, st).push(item).drop_last() =~= as_items(ed, st));
        }
    }
}

/// Persisting a store and reading it back gives the same current and archived
/// items; the new and read-pending items, which are not persisted, are gone.
pub proof fn lemma_snapshot_round_trip(st: StoreState)
    requires
        st.well_formed(),
    ensures
        ({
            let back = restored(
                entries_in(st.items, ItemState::Current),
                entries_in(st.items, ItemState::Archived),
            );
            &&& in_state(back, ItemState::Current) == st.current()
            &&& in_state(back, ItemState::Archived) == st.archived()
            &&& in_state(back, ItemState::New) == Map::<u128, u64>::empty()
            &&& in_state(back, ItemState::ReadPending) == Map::<u128, u64>::empty()
        }),
{
    let s = st.items;
    let ec = entries_in(s, ItemState::Current);
    let ea = entries_in(s, ItemState::Archived);
    lemma_entries_facts(s, ItemState::Current);
    lemma_entries_facts(s, ItemState::Archived);
    let empty = Seq::<TrackedItem>::empty();
    lemma_put_all_fresh(empty, ec, ItemState::Current);
    assert(empty + as_items(ec, ItemState::Current) =~= as_items(ec, ItemState::Current));
    let x = as_items(ec, ItemState::Current);
    assert forall|k: int, i: int| 0 <= k < ea.len() && 0 <= i < x.len() implies x[i].id
        != ea[k].0 by {
        let p = choose|p: int| 0 <= p < s.len() && s[p].id == ec[i].0 && s[p].state == ItemState::Current;
        let q = choose|q: int| 0 <= q < s.len() && s[q].id == ea[k].0 && s[q].state == ItemState::Archived;
        assert(x[i].id == ec[i].0);
        if p < q {
            assert(s[p].id != s[q].id);
        } else if q < p {
            assert(s[q].id != s[p].id);
        }
    }
    lemma_put_all_fresh(x, ea, ItemState::Archived);
    let y = as_items(ea, ItemState::Archived);
    lemma_in_state_concat(x, y, ItemState::Current);
    lemma_in_state_concat(x, y, ItemState::Archived);
    lemma_in_state_concat(x, y, ItemState::New);
    lemma_in_state_concat(x, y, ItemState::ReadPending);
    lemma_in_state_entries(s, ItemState::Current, ItemState::Current);
    lemma_in_state_entries(s, ItemState::Current, ItemState::Archived);
    lemma_in_state_entries(s, ItemState::Current, ItemState::New);
    lemma_in_state_entries(s, ItemState::Current, ItemState::ReadPending);
    lemma_in_state_entries(s, ItemState::Archived, ItemState::Current);
    lemma_in_state_entries(s, ItemState::Archived, ItemState::Archived);
    lemma_in_state_entries(s, ItemState::Archived, ItemState::New);
    lemma_in_state_entries(s, ItemState::Archived, ItemState::ReadPending);
    assert(in_state(s, ItemState::Current).union_prefer_right(Map::empty()) =~= in_state(
        s,
        ItemState::Current,
    ));
    assert(Map::<u128, u64>::empty().union_prefer_right(in_state(s, ItemState::Archived))
        =~= in_state(s, ItemState::Archived));
    assert(Map::<u128, u64>::empty().union_prefer_right(Map::<u128, u64>::empty()) =~= Map::<
        u128,
        u64,
    >::empty());
}

impl FSHandler {
    /// The descriptors that create the two folders: the visible folder at the
    /// root of the document store, and the archive folder inside it. Each comes
    /// with the text of its identifier, the stem of its file names.
    pub fn folder_records(&self) -> (r: Vec<(String, Metadata)>)
        ensures
            r@.len() == 2,
            r@[0].0@ == hyphenated(self@.folder),
            r@[0].1.dtype@ == "CollectionType"@,
            r@[0].1.visible_name@ == "Pocket"@,
            r@[0].1.parent@.len() == 0,
            r@[1].0@ == hyphenated(self@.archive),
            r@[1].1.dtype@ == "CollectionType"@,
            r@[1].1.visible_name@ == "Archive"@,
            r@[1].1.parent@ == hyphenated(self@.folder),
    {
        let folder = identifier_text(self.folder);
        let archive = identifier_text(self.archive);
        proof {
            reveal_strlit("");
        }
        let top = Metadata::new("CollectionType", "Pocket", "");
        let inner = Metadata::new("CollectionType", "Archive", folder.as_str());
        let mut r: Vec<(String, Metadata)> = Vec::new();
        r.push((folder, top));
        r.push((archive, inner));
        r
    }
}

proof fn lemma_in_state_at(s: Seq<TrackedItem>, st: ItemState, id: u128)
    requires
        unique_ids(s),
    ensures
        match index_of(s, id) {
            Some(i) => (in_state(s, st).contains_key(id) <==> s[i].state == st) && (s[i].state
                == st ==> in_state(s, st)[id] == s[i].remote),
            None => !in_state(s, st).contains_key(id),
        },
    decreases s.len(),
{
    if s.len() > 0 {
        let d = s.drop_last();
        assert(unique_ids(d));
        lemma_in_state_at(d, st, id);
        lemma_index_of_bounds(d, id);
        if s.last().id == id {
            if let Some(k) = index_of(d, id) {
                assert(s[k] == d[k]);
                assert(s[k].id != s[s.len() - 1].id);
            }
        } else {
            if let Some(k) = index_of(d, id) {
                assert(s[k] == d[k]);
            }
        }
    }
}

proof fn lemma_reconciled_at(
    s: Seq<TrackedItem>,
    obs: Seq<Observation>,
    folder: Seq<char>,
    archive: Seq<char>,
    id: u128,
)
    requires
        unique_ids(s),
        index_of(s, id) is Some,
    ensures
        ({
            let r = reconciled(s, obs, folder, archive);
            let i = index_of(s, id)->0;
            match reconciled_item(s[i], obs, folder, archive) {
                Some(e) => index_of(r, id) matches Some(j) && 0 <= j < r.len() && r[j] == e,
                None => index_of(r, id) is None,
            }
        }),
    decreases s.len(),
{
    let d = s.drop_last();
    assert(unique_ids(d));
    lemma_index_of_bounds(s, id);
    let rest = reconciled(d, obs, folder, archive);
    if s.last().id == id {
        lemma_reconciled_ids(d, obs, folder, archive);
        assert forall|k: int| 0 <= k < rest.len() implies rest[k].id != id by {
            let m = choose|m: int| 0 <= m < d.len() && d[m].id == #[trigger] rest[k].id;
            assert(s[m] == d[m]);
        }
        lemma_index_of_bounds(rest, id);
        if let Some(e) = reconciled_item(s.last(), obs, folder, archive) {
            assert(rest.push(e).drop_last() =~= rest);
        }
    } else {
        let i = index_of(s, id)->0;
        assert(index_of(s, id) == index_of(d, id));
        assert(s[i] == d[i]);
        lemma_reconciled_at(d, obs, folder, archive, id);
        if let Some(e) = reconciled_item(s.last(), obs, folder, archive) {
            assert(rest.push(e).drop_last() =~= rest);
            if let Some(j) = index_of(rest, id) {
                lemma_index_of_bounds(rest, id);
                assert(rest.push(e)[j] == rest[j]);
            }
        }
    }
}

/// A current item whose descriptor now names the archive folder becomes
/// read-pending with its remote id, and is no longer current.
pub proof fn lemma_archive_move_read_pending(st: StoreState, obs: Seq<Observation>, id: u128)
    requires
        st.well_formed(),
        st.current().contains_key(id),
        departure(obs, hyphenated(st.folder), id) == Some(hyphenated(st.archive)),
    ensures
        st.after_reconcile(obs).read_pending().contains_key(id),
        st.after_reconcile(obs).read_pending()[id] == st.current()[id],
        !st.after_reconcile(obs).current().contains_key(id),
        !st.after_reconcile(obs).archived().contains_key(id),
{
    let f = hyphenated(st.folder);
    let a = hyphenated(st.archive);
    let s = st.items;
    lemma_in_state_at(s, ItemState::Current, id);
    let i = index_of(s, id)->0;
    lemma_index_of_bounds(s, id);
    assert(s[i].state == ItemState::Current);
    let e = TrackedItem { state: ItemState::ReadPending, ..s[i] };
    assert(reconciled_item(s[i], obs, f, a) == Some(e));
    lemma_reconciled_at(s, obs, f, a, id);
    lemma_reconciled_ids(s, obs, f, a);
    let r = reconciled(s, obs, f, a);
    lemma_in_state_at(r, ItemState::ReadPending, id);
    lemma_in_state_at(r, ItemState::Current, id);
    lemma_in_state_at(r, ItemState::Archived, id);
}

} // verus!

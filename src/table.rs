//! The versioned concurrent map that backs a store: an `evmap` write handle,
//! whose pending and published contents are named here and changed only
//! through the functions below.
use vstd::prelude::*;
use vstd::multiset::Multiset;
use crate::key::{NativeKey, NativeKeyView};
use crate::value::{Value, RowView, row_view, rows_view};

verus! {

/// The rows held under each key, as one copy of the map holds them.
pub type Contents = Map<NativeKeyView, Multiset<RowView>>;

/// One `evmap` map from native keys to bags of rows, with an `i64` meta.
#[verifier::external_body]
pub struct Table {
    handle: evmap::WriteHandle<NativeKey, Vec<Value>, i64, fnv::FnvBuildHasher>,
}

/// The writer's copy: every operation so far, published or not.
pub uninterp spec fn pending_of(t: Table) -> Contents;

/// The copy that readers see, as of the last refresh.
pub uninterp spec fn published_of(t: Table) -> Contents;

/// Whether a refresh has happened, so that readers see a copy at all.
pub uninterp spec fn ready_of(t: Table) -> bool;

/// The meta that the next refresh publishes.
pub uninterp spec fn meta_of(t: Table) -> i64;

/// The meta that readers see, as of the last refresh.
pub uninterp spec fn published_meta_of(t: Table) -> i64;

/// The bag under a key of a copy; a key that is absent has none.
pub open spec fn bag(c: Contents, k: NativeKeyView) -> Multiset<RowView> {
    if c.dom().contains(k) {
        c[k]
    } else {
        Multiset::empty()
    }
}

/// Whether a write changed nothing that readers can see, nor the meta.
pub open spec fn unpublished_change(a: Table, b: Table) -> bool {
    published_of(b) == published_of(a) && ready_of(b) == ready_of(a) && meta_of(b) == meta_of(a)
        && published_meta_of(b) == published_meta_of(a)
}

/// Relies on evmap's `Options::with_meta`, `Options::with_hasher` and
/// `Options::construct`: a new map holds no key, is not ready until its first
/// refresh, and carries the given meta.
#[verifier::external_body]
pub fn table_new(meta: i64) -> (t: Table)
    ensures
        pending_of(t) == Contents::empty(),
        !ready_of(t),
        meta_of(t) == meta,
{
    let (_readers, handle) = evmap::Options::default().with_meta(meta).with_hasher(
        fnv::FnvBuildHasher::default(),
    ).construct();
    Table { handle }
}

/// Relies on evmap's `WriteHandle::insert`: the row joins the key's bag in
/// the pending copy, and the key is created if it was absent.
#[verifier::external_body]
pub fn table_insert(t: &mut Table, k: NativeKey, row: Vec<Value>)
    ensures
        pending_of(*final(t)) == pending_of(*old(t)).insert(
            k@,
            bag(pending_of(*old(t)), k@).insert(row_view(row@)),
        ),
        unpublished_change(*old(t), *final(t)),
{
    t.handle.insert(k, row);
}

/// Relies on evmap's `WriteHandle::remove`: one instance of an equal row
/// leaves the key's bag in the pending copy, if the key holds one; the key
/// stays, also when its bag becomes empty.
#[verifier::external_body]
pub fn table_remove(t: &mut Table, k: NativeKey, row: Vec<Value>)
    ensures
        pending_of(*final(t)) == (if pending_of(*old(t)).dom().contains(k@) {
            pending_of(*old(t)).insert(k@, pending_of(*old(t))[k@].remove(row_view(row@)))
        } else {
            pending_of(*old(t))
        }),
        unpublished_change(*old(t), *final(t)),
{
    t.handle.remove(k, row);
}

/// Relies on evmap's `WriteHandle::clear`: the key is present with an empty
/// bag in the pending copy.
#[verifier::external_body]
pub fn table_clear(t: &mut Table, k: NativeKey)
    ensures
        pending_of(*final(t)) == pending_of(*old(t)).insert(k@, Multiset::empty()),
        unpublished_change(*old(t), *final(t)),
{
    t.handle.clear(k);
}

/// Relies on evmap's `WriteHandle::empty`: the key is absent from the pending
/// copy.
#[verifier::external_body]
pub fn table_empty(t: &mut Table, k: NativeKey)
    ensures
        pending_of(*final(t)) == pending_of(*old(t)).remove(k@),
        unpublished_change(*old(t), *final(t)),
{
    t.handle.empty(k);
}

/// Relies on evmap's `WriteHandle::refresh`: readers now see the pending copy
/// and the pending meta, and the map is ready.
#[verifier::external_body]
pub fn table_refresh(t: &mut Table)
    ensures
        pending_of(*final(t)) == pending_of(*old(t)),
        published_of(*final(t)) == pending_of(*old(t)),
        ready_of(*final(t)),
        meta_of(*final(t)) == meta_of(*old(t)),
        published_meta_of(*final(t)) == meta_of(*old(t)),
{
    t.handle.refresh();
}

/// Relies on evmap's `WriteHandle::set_meta`: the pending meta is replaced
/// and the former one returned; readers see it after the next refresh.
#[verifier::external_body]
pub fn table_set_meta(t: &mut Table, meta: i64) -> (prev: i64)
    ensures
        prev == meta_of(*old(t)),
        meta_of(*final(t)) == meta,
        pending_of(*final(t)) == pending_of(*old(t)),
        published_of(*final(t)) == published_of(*old(t)),
        ready_of(*final(t)) == ready_of(*old(t)),
        published_meta_of(*final(t)) == published_meta_of(*old(t)),
{
    t.handle.set_meta(meta)
}

/// Relies on evmap's `ReadHandle::meta_get_and`, reached through the write
/// handle: nothing before the first refresh; after it, the published meta
/// and, if the key is present in the published copy, a copy of its rows.
#[verifier::external_body]
pub fn table_lookup(t: &Table, k: &NativeKey) -> (r: Option<(Option<Vec<Vec<Value>>>, i64)>)
    ensures
        r is None <==> !ready_of(*t),
        r matches Some((rows, m)) ==> {
            &&& m == published_meta_of(*t)
            &&& (rows is Some <==> published_of(*t).dom().contains(k@))
            &&& (rows matches Some(rs) ==> rows_view(rs@).to_multiset() == published_of(
                *t,
            )[k@])
        },
{
    t.handle.meta_get_and(k, |rows: &[Vec<Value>]| rows.to_vec())
}

} // verus!

verus! {

/// A read side of one `evmap` map, for use from any thread.
#[verifier::external_body]
pub struct TableReader {
    handle: evmap::ReadHandle<NativeKey, Vec<Value>, i64, fnv::FnvBuildHasher>,
}

/// Relies on evmap's `ReadHandle::clone`, reached through the write handle:
/// another reader of the same map.
#[verifier::external_body]
pub fn table_reader(t: &Table) -> (r: TableReader) {
    TableReader { handle: (*t.handle).clone() }
}

/// Relies on evmap's `ReadHandle::meta_get_and`. What a reader sees depends
/// on when the writer last refreshed, which nothing here orders, so nothing is
/// stated of it.
#[verifier::external_body]
pub fn reader_lookup(r: &TableReader, k: &NativeKey) -> (res: Option<(Option<Vec<Vec<Value>>>, i64)>) {
    r.handle.meta_get_and(k, |rows: &[Vec<Value>]| rows.to_vec())
}

} // verus!

//! The store façade: one handle over the map of the shape chosen at creation,
//! which every operation dispatches to.
use vstd::prelude::*;
use vstd::multiset::Multiset;
use crate::key::{
    Shape, arity_ok, cols_within, embed, fits, native_key, native_key_of_row, project,
    shape_for, shape_of_arity,
};
use crate::model::{
    Bags, StoreView, batch_size, lemma_batch_size_prefix, lemma_lift_insert, lemma_lift_remove,
    lemma_meta_kept, lift, memory_delta,
};
use crate::table::{
    Table, TableReader, bag, meta_of, pending_of, published_meta_of, published_of, reader_lookup,
    ready_of, table_clear, table_empty, table_insert, table_lookup, table_new, table_reader,
    table_refresh, table_remove, table_set_meta,
};
use crate::value::{
    Record, RecordView, RowView, Value, deep_size_of, records_view, row_view, rows_view,
};

verus! {

/// What a map of native keys holds and shows, seen through the generic keys
/// of a shape.
pub open spec fn view_of(shape: Shape, t: Table) -> StoreView {
    StoreView {
        shape,
        pending: lift(shape, pending_of(t)),
        ready: ready_of(t),
        published: lift(shape, published_of(t)),
        meta: meta_of(t),
        published_meta: published_meta_of(t),
    }
}

/// Whether a lookup's result is what the model shows: the same meta, the same
/// presence of the key, and rows that make up the same bag.
pub open spec fn lookup_matches(
    r: Option<(Option<Vec<Vec<Value>>>, i64)>,
    s: Option<(Option<Multiset<RowView>>, i64)>,
) -> bool {
    match (r, s) {
        (None, None) => true,
        (Some((None, m)), Some((None, n))) => m == n,
        (Some((Some(rows), m)), Some((Some(b), n))) => m == n && rows_view(rows@).to_multiset()
            == b,
        _ => false,
    }
}

/// The keyed record store, over the representation of keys that the number
/// of index columns selects.
pub enum Handle {
    Single(Table),
    Double(Table),
    Many(Table),
}

impl Handle {
    pub open spec fn shape(&self) -> Shape {
        match self {
            Handle::Single(_) => Shape::Single,
            Handle::Double(_) => Shape::Double,
            Handle::Many(_) => Shape::Many,
        }
    }

    pub open spec fn table(&self) -> Table {
        match self {
            Handle::Single(t) => *t,
            Handle::Double(t) => *t,
            Handle::Many(t) => *t,
        }
    }
}

impl View for Handle {
    type V = StoreView;

    open spec fn view(&self) -> StoreView {
        view_of(self.shape(), self.table())
    }
}

fn clear_in(t: &mut Table, shape: Shape, k: &[Value])
    requires
        fits(shape, row_view(k@)),
    ensures
        view_of(shape, *final(t)) == view_of(shape, *old(t)).clear(row_view(k@)),
{
    let ghost t0 = *t;
    let nk = native_key(shape, k);
    table_clear(t, nk);
    proof {
        lemma_lift_insert(shape, pending_of(t0), row_view(k@), Multiset::empty());
    }
}

fn empty_in(t: &mut Table, shape: Shape, k: &[Value])
    requires
        fits(shape, row_view(k@)),
    ensures
        view_of(shape, *final(t)) == view_of(shape, *old(t)).empty(row_view(k@)),
{
    let ghost t0 = *t;
    let nk = native_key(shape, k);
    table_empty(t, nk);
    proof {
        lemma_lift_remove(shape, pending_of(t0), row_view(k@));
    }
}

fn lookup_in(t: &Table, shape: Shape, k: &[Value]) -> (r: Option<(Option<Vec<Vec<Value>>>, i64)>)
    requires
        fits(shape, row_view(k@)),
    ensures
        lookup_matches(r, view_of(shape, *t).lookup(row_view(k@))),
{
    let nk = native_key(shape, k);
    table_lookup(t, &nk)
}

/// Files one positive row of a batch.
fn insert_in(t: &mut Table, shape: Shape, cols: &[usize], row: Vec<Value>)
    requires
        arity_ok(shape, cols@.len()),
        cols_within(cols@, row@.len()),
    ensures
        view_of(shape, *final(t)) == view_of(shape, *old(t)).insert(
            project(row_view(row@), cols@),
            row_view(row@),
        ),
{
    let ghost t0 = *t;
    let ghost k = project(row_view(row@), cols@);
    let nk = native_key_of_row(shape, row.as_slice(), cols);
    table_insert(t, nk, row);
    proof {
        lemma_lift_insert(
            shape,
            pending_of(t0),
            k,
            bag(pending_of(t0), embed(shape, k)).insert(row_view(row@)),
        );
    }
}

/// Takes back one negative row of a batch.
fn remove_in(t: &mut Table, shape: Shape, cols: &[usize], row: Vec<Value>)
    requires
        arity_ok(shape, cols@.len()),
        cols_within(cols@, row@.len()),
    ensures
        view_of(shape, *final(t)) == view_of(shape, *old(t)).remove(
            project(row_view(row@), cols@),
            row_view(row@),
        ),
{
    let ghost t0 = *t;
    let ghost k = project(row_view(row@), cols@);
    let nk = native_key_of_row(shape, row.as_slice(), cols);
    table_remove(t, nk, row);
    proof {
        if pending_of(t0).dom().contains(embed(shape, k)) {
            lemma_lift_insert(
                shape,
                pending_of(t0),
                k,
                pending_of(t0)[embed(shape, k)].remove(row_view(row@)),
            );
        }
    }
}

/// Whether a batch can be applied to a store of a shape indexed by `cols`:
/// every record is a diff whose row has at least `width` columns and holds
/// every index column, and its accounting fits an `isize`.
pub open spec fn batch_ok(shape: Shape, cols: Seq<usize>, width: nat, rs: Seq<RecordView>) -> bool {
    &&& arity_ok(shape, cols.len())
    &&& forall|i: int|
        0 <= i < rs.len() ==> {
            &&& (#[trigger] rs[i]).is_diff()
            &&& rs[i].row().len() >= width
            &&& cols_within(cols, rs[i].row().len())
        }
    &&& batch_size(rs) <= isize::MAX
}

fn add_in(t: &mut Table, shape: Shape, cols: &[usize], width: usize, rs: Vec<Record>) -> (delta:
    isize)
    requires
        batch_ok(shape, cols@, width as nat, records_view(rs@)),
    ensures
        view_of(shape, *final(t)) == view_of(shape, *old(t)).apply_all(cols@, records_view(rs@)),
        delta == memory_delta(records_view(rs@)),
{
    let ghost t0 = *t;
    let ghost rsv = records_view(rs@);
    let n = rs.len();
    let mut rs = rs;
    // Reverse the batch so that popping hands the records out in order.
    let mut rev: Vec<Record> = Vec::new();
    while rs.len() > 0
        invariant
            rs@.len() + rev@.len() == n,
            forall|j: int| 0 <= j < rs@.len() ==> #[trigger] rs@[j]@ == rsv[j],
            forall|j: int| 0 <= j < rev@.len() ==> #[trigger] rev@[j]@ == rsv[n - 1 - j],
            rsv.len() == n,
        decreases rs@.len(),
    {
        let r = rs.pop().unwrap();
        rev.push(r);
    }
    let mut delta: isize = 0;
    let mut i: usize = 0;
    while i < n
        invariant
            i <= n,
            rsv.len() == n,
            rev@.len() == n - i,
            forall|j: int| 0 <= j < rev@.len() ==> #[trigger] rev@[j]@ == rsv[n - 1 - j],
            batch_ok(shape, cols@, width as nat, rsv),
            view_of(shape, *t) == view_of(shape, t0).apply_all(cols@, rsv.take(i as int)),
            delta == memory_delta(rsv.take(i as int)),
            -(batch_size(rsv.take(i as int)) as int) <= delta <= batch_size(rsv.take(i as int)),
        decreases n - i,
    {
        proof {
            assert(rsv.take(i as int + 1).drop_last() =~= rsv.take(i as int));
            assert(rsv.take(i as int + 1).last() == rsv[i as int]);
            lemma_batch_size_prefix(rsv, i as int + 1);
        }
        let rec = rev.pop().unwrap();
        proof {
            assert(rec@ == rsv[i as int]);
        }
        match rec {
            Record::Positive(row) => {
                let size = deep_size_of(row.as_slice());
                insert_in(t, shape, cols, row);
                delta = delta + size as isize;
            },
            Record::Negative(row) => {
                let size = deep_size_of(row.as_slice());
                remove_in(t, shape, cols, row);
                delta = delta - size as isize;
            },
            Record::BaseOperation(_) => {
                proof {
                    assert(rsv[i as int].is_diff());
                }
            },
        }
        i = i + 1;
    }
    proof {
        assert(rsv.take(n as int) =~= rsv);
    }
    delta
}

impl Handle {
    /// A store indexed by the given columns, holding nothing, not yet
    /// published, with the given meta pending.
    pub fn new(cols: &[usize], meta: i64) -> (h: Handle)
        ensures
            h@.shape == shape_for(cols@.len()),
            h@.pending == Bags::empty(),
            !h@.ready,
            h@.meta == meta,
    {
        let t = table_new(meta);
        let shape = shape_of_arity(cols.len());
        proof {
            assert(lift(shape, pending_of(t)) =~= Map::empty());
        }
        match shape {
            Shape::Single => Handle::Single(t),
            Shape::Double => Handle::Double(t),
            Shape::Many => Handle::Many(t),
        }
    }

    /// Marks a key as known to hold no rows: present with an empty bag.
    pub fn clear(&mut self, k: &[Value])
        requires
            fits(old(self)@.shape, row_view(k@)),
        ensures
            final(self)@ == old(self)@.clear(row_view(k@)),
    {
        match self {
            Handle::Single(t) => clear_in(t, Shape::Single, k),
            Handle::Double(t) => clear_in(t, Shape::Double, k),
            Handle::Many(t) => clear_in(t, Shape::Many, k),
        }
    }

    /// Evicts a key: it becomes absent, so that a lookup misses.
    pub fn empty(&mut self, k: &[Value])
        requires
            fits(old(self)@.shape, row_view(k@)),
        ensures
            final(self)@ == old(self)@.empty(row_view(k@)),
    {
        match self {
            Handle::Single(t) => empty_in(t, Shape::Single, k),
            Handle::Double(t) => empty_in(t, Shape::Double, k),
            Handle::Many(t) => empty_in(t, Shape::Many, k),
        }
    }

    /// Publishes the writer's copy and the pending meta to readers.
    pub fn refresh(&mut self)
        ensures
            final(self)@ == old(self)@.refresh(),
    {
        match self {
            Handle::Single(t) => table_refresh(t),
            Handle::Double(t) => table_refresh(t),
            Handle::Many(t) => table_refresh(t),
        }
    }

    /// Replaces the pending meta and returns the former one.
    pub fn set_meta(&mut self, meta: i64) -> (prev: i64)
        ensures
            prev == old(self)@.meta,
            final(self)@ == old(self)@.set_meta(meta),
    {
        match self {
            Handle::Single(t) => table_set_meta(t, meta),
            Handle::Double(t) => table_set_meta(t, meta),
            Handle::Many(t) => table_set_meta(t, meta),
        }
    }

    /// What a reader sees for a key: `None` before the first refresh, else
    /// the published meta with a copy of the key's rows if it is present.
    pub fn lookup(&self, k: &[Value]) -> (r: Option<(Option<Vec<Vec<Value>>>, i64)>)
        requires
            fits(self@.shape, row_view(k@)),
        ensures
            lookup_matches(r, self@.lookup(row_view(k@))),
    {
        match self {
            Handle::Single(t) => lookup_in(t, Shape::Single, k),
            Handle::Double(t) => lookup_in(t, Shape::Double, k),
            Handle::Many(t) => lookup_in(t, Shape::Many, k),
        }
    }

    /// Applies `then` to the rows of a key as readers see them, and returns
    /// its result with the published meta; `None` before the first refresh,
    /// and no result where the key is absent.
    pub fn meta_get_and<F, T>(&self, k: &[Value], then: F) -> (r: Option<(Option<T>, i64)>) where
        F: FnOnce(&[Vec<Value>]) -> T,

        requires
            fits(self@.shape, row_view(k@)),
            forall|rows: &[Vec<Value>]| then.requires((rows,)),
        ensures
            r is None <==> !self@.ready,
            r matches Some((x, m)) ==> {
                &&& m == self@.published_meta
                &&& (x is Some <==> self@.published.dom().contains(row_view(k@)))
            },
            r matches Some((Some(x), _)) ==> exists|rows: &[Vec<Value>]|
                rows_view(rows@).to_multiset() == self@.published[row_view(k@)] && then.ensures(
                    (rows,),
                    x,
                ),
    {
        match self.lookup(k) {
            None => None,
            Some((None, m)) => Some((None, m)),
            Some((Some(rows), m)) => {
                let x = then(rows.as_slice());
                Some((Some(x), m))
            },
        }
    }

    /// Applies a batch of diffs to the writer's copy, filing each row under
    /// its projection onto `cols`, and returns the signed memory delta.
    pub fn add(&mut self, cols: &[usize], width: usize, rs: Vec<Record>) -> (delta: isize)
        requires
            batch_ok(old(self)@.shape, cols@, width as nat, records_view(rs@)),
        ensures
            final(self)@ == old(self)@.apply_all(cols@, records_view(rs@)),
            delta == memory_delta(records_view(rs@)),
            final(self)@.shape == old(self)@.shape,
            final(self)@.ready == old(self)@.ready,
            final(self)@.published == old(self)@.published,
            final(self)@.meta == old(self)@.meta,
            final(self)@.published_meta == old(self)@.published_meta,
    {
        proof {
            lemma_meta_kept(old(self)@, cols@, records_view(rs@));
        }
        match self {
            Handle::Single(t) => add_in(t, Shape::Single, cols, width, rs),
            Handle::Double(t) => add_in(t, Shape::Double, cols, width, rs),
            Handle::Many(t) => add_in(t, Shape::Many, cols, width, rs),
        }
    }
}

/// A reader of a store, which may live on another thread than the writer.
/// Reads never wait for the writer; each shows some published copy with its
/// meta, as of a refresh that the writer made.
pub struct Reader {
    shape: Shape,
    table: TableReader,
}

impl Reader {
    pub closed spec fn shape(&self) -> Shape {
        self.shape
    }

    /// What this reader sees now for a key, in the form of `Handle::lookup`.
    pub fn lookup(&self, k: &[Value]) -> (r: Option<(Option<Vec<Vec<Value>>>, i64)>)
        requires
            fits(self.shape(), row_view(k@)),
    {
        let nk = native_key(self.shape, k);
        reader_lookup(&self.table, &nk)
    }
}

impl Handle {
    /// A new reader of this store.
    pub fn reader(&self) -> (r: Reader)
        ensures
            r.shape() == self@.shape,
    {
        match self {
            Handle::Single(t) => Reader { shape: Shape::Single, table: table_reader(t) },
            Handle::Double(t) => Reader { shape: Shape::Double, table: table_reader(t) },
            Handle::Many(t) => Reader { shape: Shape::Many, table: table_reader(t) },
        }
    }
}

} // verus!

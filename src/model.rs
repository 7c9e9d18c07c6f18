//! The mathematical model of a store: the rows under each generic key in the
//! writer's copy and in the published copy, and the two metas.
use vstd::prelude::*;
use vstd::multiset::Multiset;
use crate::key::{Shape, embed, fits, lemma_embed_injective, project};
use crate::table::Contents;
use crate::value::{RecordView, RowView, ValueView, row_size};

verus! {

/// The bag of rows under each generic key.
pub type Bags = Map<Seq<ValueView>, Multiset<RowView>>;

/// A map of native keys seen through the generic keys of a shape.
pub open spec fn lift(shape: Shape, c: Contents) -> Bags {
    Map::new(
        |k: Seq<ValueView>| fits(shape, k) && c.dom().contains(embed(shape, k)),
        |k: Seq<ValueView>| c[embed(shape, k)],
    )
}

/// The bag under a key; a key that is absent has none.
pub open spec fn bucket(m: Bags, k: Seq<ValueView>) -> Multiset<RowView> {
    if m.dom().contains(k) {
        m[k]
    } else {
        Multiset::empty()
    }
}

/// What a store holds and shows.
pub struct StoreView {
    pub shape: Shape,
    /// The writer's copy.
    pub pending: Bags,
    /// Whether a refresh has happened.
    pub ready: bool,
    /// The copy that readers see.
    pub published: Bags,
    /// The meta that the next refresh publishes.
    pub meta: i64,
    /// The meta that readers see.
    pub published_meta: i64,
}

impl StoreView {
    pub open spec fn insert(self, k: Seq<ValueView>, row: RowView) -> StoreView {
        StoreView { pending: self.pending.insert(k, bucket(self.pending, k).insert(row)), ..self }
    }

    pub open spec fn remove(self, k: Seq<ValueView>, row: RowView) -> StoreView {
        if self.pending.dom().contains(k) {
            StoreView { pending: self.pending.insert(k, self.pending[k].remove(row)), ..self }
        } else {
            self
        }
    }

    pub open spec fn clear(self, k: Seq<ValueView>) -> StoreView {
        StoreView { pending: self.pending.insert(k, Multiset::empty()), ..self }
    }

    pub open spec fn empty(self, k: Seq<ValueView>) -> StoreView {
        StoreView { pending: self.pending.remove(k), ..self }
    }

    pub open spec fn refresh(self) -> StoreView {
        StoreView {
            ready: true,
            published: self.pending,
            published_meta: self.meta,
            ..self
        }
    }

    pub open spec fn set_meta(self, meta: i64) -> StoreView {
        StoreView { meta, ..self }
    }

    /// One diff, filed under the projection of its row onto `cols`.
    pub open spec fn apply(self, cols: Seq<usize>, r: RecordView) -> StoreView {
        match r {
            RecordView::Positive(row) => self.insert(project(row, cols), row),
            RecordView::Negative(row) => self.remove(project(row, cols), row),
            RecordView::BaseOperation(_) => self,
        }
    }

    /// A batch of diffs, in order.
    pub open spec fn apply_all(self, cols: Seq<usize>, rs: Seq<RecordView>) -> StoreView
        decreases rs.len(),
    {
        if rs.len() == 0 {
            self
        } else {
            self.apply_all(cols, rs.drop_last()).apply(cols, rs.last())
        }
    }

    /// What a reader sees for a key: nothing before the first refresh, else
    /// the published meta with the key's bag if the key is present.
    pub open spec fn lookup(self, k: Seq<ValueView>) -> Option<(Option<Multiset<RowView>>, i64)> {
        if !self.ready {
            None
        } else if self.published.dom().contains(k) {
            Some((Some(self.published[k]), self.published_meta))
        } else {
            Some((None, self.published_meta))
        }
    }
}

/// The signed memory accounted for a batch: the sizes of the rows added
/// less those of the rows removed.
pub open spec fn memory_delta(rs: Seq<RecordView>) -> int
    decreases rs.len(),
{
    if rs.len() == 0 {
        0
    } else {
        memory_delta(rs.drop_last()) + match rs.last() {
            RecordView::Positive(r) => row_size(r) as int,
            RecordView::Negative(r) => -(row_size(r) as int),
            RecordView::BaseOperation(_) => 0,
        }
    }
}

/// The sizes of all rows of a batch, added or removed.
pub open spec fn batch_size(rs: Seq<RecordView>) -> nat
    decreases rs.len(),
{
    if rs.len() == 0 {
        0
    } else {
        batch_size(rs.drop_last()) + row_size(rs.last().row())
    }
}

pub proof fn lemma_batch_size_prefix(rs: Seq<RecordView>, n: int)
    requires
        0 <= n <= rs.len(),
    ensures
        batch_size(rs.take(n)) <= batch_size(rs),
    decreases rs.len(),
{
    if n < rs.len() {
        assert(rs.drop_last().take(n) =~= rs.take(n));
        lemma_batch_size_prefix(rs.drop_last(), n);
    } else {
        assert(rs.take(n) =~= rs);
    }
}

/// A batch of diffs changes neither the pending nor the published meta, nor
/// what readers see.
pub proof fn lemma_meta_kept(s: StoreView, cols: Seq<usize>, rs: Seq<RecordView>)
    ensures
        s.apply_all(cols, rs).meta == s.meta,
        s.apply_all(cols, rs).published_meta == s.published_meta,
        s.apply_all(cols, rs).published == s.published,
        s.apply_all(cols, rs).ready == s.ready,
        s.apply_all(cols, rs).shape == s.shape,
    decreases rs.len(),
{
    if rs.len() > 0 {
        lemma_meta_kept(s, cols, rs.drop_last());
    }
}

/// Changing the bag of a native key changes the bag of its generic key.
pub proof fn lemma_lift_insert(shape: Shape, c: Contents, k: Seq<ValueView>, b: Multiset<RowView>)
    requires
        fits(shape, k),
    ensures
        lift(shape, c.insert(embed(shape, k), b)) == lift(shape, c).insert(k, b),
{
    assert forall|k2: Seq<ValueView>|
        fits(shape, k2) && embed(shape, k2) == embed(shape, k) implies k2 == k by {
        lemma_embed_injective(shape, k2, k);
    }
    assert(lift(shape, c.insert(embed(shape, k), b)) =~= lift(shape, c).insert(k, b));
}

/// Removing a native key removes its generic key.
pub proof fn lemma_lift_remove(shape: Shape, c: Contents, k: Seq<ValueView>)
    requires
        fits(shape, k),
    ensures
        lift(shape, c.remove(embed(shape, k))) == lift(shape, c).remove(k),
{
    assert forall|k2: Seq<ValueView>|
        fits(shape, k2) && embed(shape, k2) == embed(shape, k) implies k2 == k by {
        lemma_embed_injective(shape, k2, k);
    }
    assert(lift(shape, c.remove(embed(shape, k))) =~= lift(shape, c).remove(k));
}

} // verus!

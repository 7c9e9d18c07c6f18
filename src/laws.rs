//! Laws of the store, stated over its model and proved.
use vstd::prelude::*;
use vstd::multiset::Multiset;
use crate::key::project;
use crate::model::{Bags, StoreView, bucket, lemma_meta_kept, memory_delta};
use crate::value::{RecordView, RowView, ValueView, row_size};

verus! {

/// A store that holds nothing and has never been refreshed shows nothing
/// for any key; after its first refresh every key misses, with the meta.
pub proof fn law_untouched_key(s: StoreView, k: Seq<ValueView>)
    requires
        s.pending == Bags::empty(),
        !s.ready,
    ensures
        s.lookup(k) is None,
        s.refresh().lookup(k) == Some::<(Option<Multiset<RowView>>, i64)>((None, s.meta)),
{
}

/// The number of positive records of a batch.
pub open spec fn positives(rs: Seq<RecordView>) -> nat
    decreases rs.len(),
{
    if rs.len() == 0 {
        0
    } else {
        positives(rs.drop_last()) + if rs.last() is Positive {
            1nat
        } else {
            0nat
        }
    }
}

/// The number of negative records of a batch.
pub open spec fn negatives(rs: Seq<RecordView>) -> nat
    decreases rs.len(),
{
    if rs.len() == 0 {
        0
    } else {
        negatives(rs.drop_last()) + if rs.last() is Negative {
            1nat
        } else {
            0nat
        }
    }
}

/// Whether every record of a batch is a diff filed under `k`.
pub open spec fn all_under(cols: Seq<usize>, rs: Seq<RecordView>, k: Seq<ValueView>) -> bool {
    forall|i: int| 0 <= i < rs.len() ==> (#[trigger] rs[i]).is_diff() && project(rs[i].row(), cols) == k
}

/// Whether each negative record of a batch finds a matching row when its
/// turn comes.
pub open spec fn removals_match(s: StoreView, cols: Seq<usize>, rs: Seq<RecordView>) -> bool
    decreases rs.len(),
{
    if rs.len() == 0 {
        true
    } else {
        removals_match(s, cols, rs.drop_last()) && (rs.last() is Negative ==> bucket(
            s.apply_all(cols, rs.drop_last()).pending,
            project(rs.last().row(), cols),
        ).count(rs.last().row()) > 0)
    }
}

/// A removal that matches no row changes nothing.
pub proof fn law_unmatched_removal(s: StoreView, k: Seq<ValueView>, row: RowView)
    requires
        bucket(s.pending, k).count(row) == 0,
    ensures
        s.remove(k, row) == s,
{
    if s.pending.dom().contains(k) {
        assert(s.pending[k].remove(row) =~= s.pending[k]);
        assert(s.pending.insert(k, s.pending[k]) =~= s.pending);
    }
}

/// After a batch of diffs for one key whose removals all match, the key's
/// bag has grown by the positives less the negatives, and once published a
/// lookup shows that many rows.
pub proof fn law_row_count(s: StoreView, cols: Seq<usize>, rs: Seq<RecordView>, k: Seq<ValueView>)
    requires
        all_under(cols, rs, k),
        removals_match(s, cols, rs),
    ensures
        bucket(s.apply_all(cols, rs).pending, k).len() + negatives(rs) == bucket(s.pending, k).len()
            + positives(rs),
        s.pending.dom().contains(k) || positives(rs) > 0 ==> (s.apply_all(cols, rs).refresh().lookup(
            k,
        ) matches Some((Some(b), m)) && m == s.meta && b.len() + negatives(rs) == bucket(
            s.pending,
            k,
        ).len() + positives(rs)),
    decreases rs.len(),
{
    if rs.len() > 0 {
        let pre = rs.drop_last();
        assert forall|i: int| 0 <= i < pre.len() implies (#[trigger] pre[i]).is_diff() && project(
            pre[i].row(),
            cols,
        ) == k by {
            assert(pre[i] == rs[i]);
        }
        law_row_count(s, cols, pre, k);
        lemma_meta_kept(s, cols, pre);
        lemma_meta_kept(s, cols, rs);
        assert(rs.last() == rs[rs.len() - 1]);
        lemma_key_kept(s, cols, pre, k);
    } else {
        lemma_meta_kept(s, cols, rs);
    }
}

/// A batch of diffs for a key never drops it, and its first positive files it.
proof fn lemma_key_kept(s: StoreView, cols: Seq<usize>, rs: Seq<RecordView>, k: Seq<ValueView>)
    requires
        all_under(cols, rs, k),
    ensures
        s.pending.dom().contains(k) || positives(rs) > 0 ==> s.apply_all(cols, rs).pending.dom().contains(
            k,
        ),
    decreases rs.len(),
{
    if rs.len() > 0 {
        let pre = rs.drop_last();
        assert forall|i: int| 0 <= i < pre.len() implies (#[trigger] pre[i]).is_diff() && project(
            pre[i].row(),
            cols,
        ) == k by {
            assert(pre[i] == rs[i]);
        }
        lemma_key_kept(s, cols, pre, k);
        assert(rs.last() == rs[rs.len() - 1]);
    }
}

/// Removing the last row of a key leaves it present and empty, as clearing
/// it does; evicting it instead makes it absent.
pub proof fn law_last_removal_is_clear(s: StoreView, k: Seq<ValueView>, row: RowView)
    requires
        bucket(s.pending, k) == Multiset::<RowView>::singleton(row),
    ensures
        s.remove(k, row) == s.clear(k),
        s.remove(k, row).pending.dom().contains(k),
        !s.empty(k).pending.dom().contains(k),
        s.remove(k, row).refresh().lookup(k) == Some((Some(Multiset::<RowView>::empty()), s.meta)),
{
    assert(s.pending.dom().contains(k)) by {
        if !s.pending.dom().contains(k) {
            assert(Multiset::<RowView>::singleton(row).count(row) == 1);
        }
    }
    assert(Multiset::<RowView>::singleton(row).remove(row) =~= Multiset::empty());
}

/// An evicted key misses once published.
pub proof fn law_evicted_key_misses(s: StoreView, k: Seq<ValueView>)
    ensures
        s.empty(k).refresh().lookup(k) == Some::<(Option<Multiset<RowView>>, i64)>((None, s.meta)),
{
}

/// The meta set by the writer is what readers see after the next refresh,
/// whatever batch of diffs came between.
pub proof fn law_meta_published(s: StoreView, v: i64, cols: Seq<usize>, rs: Seq<RecordView>, k: Seq<ValueView>)
    ensures
        (s.set_meta(v).apply_all(cols, rs).refresh().lookup(k) matches Some((_, m)) && m == v),
{
    lemma_meta_kept(s.set_meta(v), cols, rs);
}

/// Stores of different shapes that hold the same rows and metas stay alike
/// under the same batch, refresh and lookups: the shape changes only how
/// keys are held.
pub proof fn law_shapes_agree(
    s1: StoreView,
    s2: StoreView,
    cols: Seq<usize>,
    rs: Seq<RecordView>,
    k: Seq<ValueView>,
)
    requires
        s1.pending == s2.pending,
        s1.published == s2.published,
        s1.ready == s2.ready,
        s1.meta == s2.meta,
        s1.published_meta == s2.published_meta,
    ensures
        s1.apply_all(cols, rs).pending == s2.apply_all(cols, rs).pending,
        s1.apply_all(cols, rs).lookup(k) == s2.apply_all(cols, rs).lookup(k),
        s1.apply_all(cols, rs).refresh().lookup(k) == s2.apply_all(cols, rs).refresh().lookup(k),
    decreases rs.len(),
{
    lemma_meta_kept(s1, cols, rs);
    lemma_meta_kept(s2, cols, rs);
    if rs.len() > 0 {
        law_shapes_agree(s1, s2, cols, rs.drop_last(), k);
    }
}

/// The memory charged for a sequence of rows.
pub open spec fn sizes(rows: Seq<RowView>) -> int
    decreases rows.len(),
{
    if rows.len() == 0 {
        0
    } else {
        sizes(rows.drop_last()) + row_size(rows.last())
    }
}

/// The rows, each as a positive record.
pub open spec fn inserts(rows: Seq<RowView>) -> Seq<RecordView> {
    rows.map_values(|r: RowView| RecordView::Positive(r))
}

/// The rows, each as a negative record.
pub open spec fn deletes(rows: Seq<RowView>) -> Seq<RecordView> {
    rows.map_values(|r: RowView| RecordView::Negative(r))
}

proof fn lemma_delta_of_inserts(p: Seq<RowView>)
    ensures
        memory_delta(inserts(p)) == sizes(p),
    decreases p.len(),
{
    if p.len() > 0 {
        assert(inserts(p).drop_last() =~= inserts(p.drop_last()));
        lemma_delta_of_inserts(p.drop_last());
    }
}

proof fn lemma_delta_split(p: Seq<RowView>, n: Seq<RowView>)
    ensures
        memory_delta(inserts(p) + deletes(n)) == sizes(p) - sizes(n),
    decreases n.len(),
{
    if n.len() == 0 {
        assert(inserts(p) + deletes(n) =~= inserts(p));
        lemma_delta_of_inserts(p);
    } else {
        let c = inserts(p) + deletes(n);
        assert(c.drop_last() =~= inserts(p) + deletes(n.drop_last()));
        assert(c.last() == RecordView::Negative(n.last()));
        lemma_delta_split(p, n.drop_last());
    }
}

proof fn lemma_sizes_remove(s: Seq<RowView>, i: int)
    requires
        0 <= i < s.len(),
    ensures
        sizes(s) == sizes(s.remove(i)) + row_size(s[i]),
    decreases s.len(),
{
    if i == s.len() - 1 {
        assert(s.remove(i) =~= s.drop_last());
    } else {
        assert(s.remove(i).drop_last() =~= s.drop_last().remove(i));
        assert(s.remove(i).last() == s.last());
        lemma_sizes_remove(s.drop_last(), i);
    }
}

proof fn lemma_sizes_concat(a: Seq<RowView>, b: Seq<RowView>)
    ensures
        sizes(a + b) == sizes(a) + sizes(b),
    decreases b.len(),
{
    if b.len() == 0 {
        assert(a + b =~= a);
    } else {
        assert((a + b).drop_last() =~= a + b.drop_last());
        assert((a + b).last() == b.last());
        lemma_sizes_concat(a, b.drop_last());
    }
}

/// Rows that make up the same bag cost the same.
proof fn lemma_sizes_of_bag(a: Seq<RowView>, b: Seq<RowView>)
    requires
        a.to_multiset() == b.to_multiset(),
    ensures
        sizes(a) == sizes(b),
    decreases a.len(),
{
    broadcast use vstd::seq_lib::group_to_multiset_ensures;

    if a.len() == 0 {
        assert(b.to_multiset().len() == 0);
    } else {
        let x = a.last();
        let rest = a.drop_last();
        assert(rest.push(x) =~= a);
        assert(a.to_multiset().count(x) > 0);
        assert(b.contains(x));
        let i = choose|i: int| 0 <= i < b.len() && b[i] == x;
        vstd::seq_lib::to_multiset_remove(b, i);
        assert(b.remove(i).to_multiset() =~= rest.to_multiset());
        lemma_sizes_of_bag(rest, b.remove(i));
        lemma_sizes_remove(b, i);
    }
}

/// A batch that adds the rows `pos` and then takes back the rows `neg`, each
/// of which matches one of `pos`, is charged the sizes of the rows that
/// survive it.
pub proof fn law_delta_of_net_rows(pos: Seq<RowView>, neg: Seq<RowView>, net: Seq<RowView>)
    requires
        pos.to_multiset() == neg.to_multiset().add(net.to_multiset()),
    ensures
        memory_delta(inserts(pos) + deletes(neg)) == sizes(net),
{
    lemma_delta_split(pos, neg);
    vstd::seq_lib::lemma_multiset_commutative(neg, net);
    lemma_sizes_of_bag(pos, neg + net);
    lemma_sizes_concat(neg, net);
}

} // verus!

use vstd::prelude::*;
use crate::value::{Value, ValueView, RowView, copy_value, row_view};

verus! {

/// Which key representation a store uses, fixed when the store is made.
#[derive(PartialEq, Eq, Structural, Clone, Copy, Debug)]
pub enum Shape {
    /// One index column: the key is a single value.
    Single,
    /// Two index columns: the key is a pair of values.
    Double,
    /// Any other number of index columns: the key is a sequence of values.
    Many,
}

/// The shape chosen for a store indexed by `n` columns.
pub open spec fn shape_for(n: nat) -> Shape {
    if n == 1 {
        Shape::Single
    } else if n == 2 {
        Shape::Double
    } else {
        Shape::Many
    }
}

/// Whether a shape takes keys of `n` values.
pub open spec fn arity_ok(shape: Shape, n: nat) -> bool {
    match shape {
        Shape::Single => n == 1,
        Shape::Double => n == 2,
        Shape::Many => true,
    }
}

/// Whether a generic key has the arity that a shape takes.
pub open spec fn fits(shape: Shape, k: Seq<ValueView>) -> bool {
    arity_ok(shape, k.len())
}

/// The shape for `n` index columns.
pub fn shape_of_arity(n: usize) -> (s: Shape)
    ensures
        s == shape_for(n as nat),
{
    if n == 1 {
        Shape::Single
    } else if n == 2 {
        Shape::Double
    } else {
        Shape::Many
    }
}

/// The key as a store of the given shape holds it natively.
#[derive(Clone, PartialEq, Eq, Hash, Debug)]
pub enum NativeKey {
    Single(Value),
    Double(Value, Value),
    Many(Vec<Value>),
}

/// What a `NativeKey` is: two native keys compare equal exactly when their
/// views are equal.
pub enum NativeKeyView {
    Single(ValueView),
    Double(ValueView, ValueView),
    Many(Seq<ValueView>),
}

impl View for NativeKey {
    type V = NativeKeyView;

    open spec fn view(&self) -> NativeKeyView {
        match self {
            NativeKey::Single(a) => NativeKeyView::Single(a@),
            NativeKey::Double(a, b) => NativeKeyView::Double(a@, b@),
            NativeKey::Many(vs) => NativeKeyView::Many(row_view(vs@)),
        }
    }
}

/// The native form of a generic key for a shape.
pub open spec fn embed(shape: Shape, k: Seq<ValueView>) -> NativeKeyView {
    match shape {
        Shape::Single => NativeKeyView::Single(k[0]),
        Shape::Double => NativeKeyView::Double(k[0], k[1]),
        Shape::Many => NativeKeyView::Many(k),
    }
}

/// The projection of a row onto the given columns, in their order.
pub open spec fn project(row: RowView, cols: Seq<usize>) -> Seq<ValueView> {
    Seq::new(cols.len(), |i: int| row[cols[i] as int])
}

/// Whether every column index lies within the row.
pub open spec fn cols_within(cols: Seq<usize>, width: nat) -> bool {
    forall|i: int| 0 <= i < cols.len() ==> #[trigger] cols[i] < width
}

/// Distinct generic keys of a shape's arity have distinct native forms.
pub proof fn lemma_embed_injective(shape: Shape, a: Seq<ValueView>, b: Seq<ValueView>)
    requires
        fits(shape, a),
        fits(shape, b),
        embed(shape, a) == embed(shape, b),
    ensures
        a == b,
{
    match shape {
        Shape::Single => {
            assert(a =~= b);
        },
        Shape::Double => {
            assert(a =~= b);
        },
        Shape::Many => {},
    }
}

/// Copies a slice of values into an owned vector.
pub fn copy_values(vs: &[Value]) -> (r: Vec<Value>)
    ensures
        row_view(r@) == row_view(vs@),
{
    let mut r: Vec<Value> = Vec::new();
    let mut i: usize = 0;
    while i < vs.len()
        invariant
            i <= vs.len(),
            r@.len() == i,
            forall|j: int| 0 <= j < i ==> #[trigger] r@[j]@ == vs@[j]@,
        decreases vs.len() - i,
    {
        r.push(copy_value(&vs[i]));
        i = i + 1;
    }
    assert(row_view(r@) =~= row_view(vs@));
    r
}

/// The native key of a store of the given shape for a generic key.
pub fn native_key(shape: Shape, k: &[Value]) -> (r: NativeKey)
    requires
        fits(shape, row_view(k@)),
    ensures
        r@ == embed(shape, row_view(k@)),
{
    match shape {
        Shape::Single => NativeKey::Single(copy_value(&k[0])),
        Shape::Double => NativeKey::Double(copy_value(&k[0]), copy_value(&k[1])),
        Shape::Many => NativeKey::Many(copy_values(k)),
    }
}

/// Projects a row onto the given columns.
pub fn project_row(row: &[Value], cols: &[usize]) -> (r: Vec<Value>)
    requires
        cols_within(cols@, row@.len()),
    ensures
        row_view(r@) == project(row_view(row@), cols@),
{
    let mut r: Vec<Value> = Vec::new();
    let mut i: usize = 0;
    while i < cols.len()
        invariant
            i <= cols.len(),
            cols_within(cols@, row@.len()),
            r@.len() == i,
            forall|j: int| 0 <= j < i ==> #[trigger] r@[j]@ == row@[cols@[j] as int]@,
        decreases cols.len() - i,
    {
        let c = cols[i];
        r.push(copy_value(&row[c]));
        i = i + 1;
    }
    assert(row_view(r@) =~= project(row_view(row@), cols@));
    r
}

/// The native key under which a store of the given shape files a row.
pub fn native_key_of_row(shape: Shape, row: &[Value], cols: &[usize]) -> (r: NativeKey)
    requires
        fits(shape, project(row_view(row@), cols@)),
        cols_within(cols@, row@.len()),
    ensures
        r@ == embed(shape, project(row_view(row@), cols@)),
{
    match shape {
        Shape::Single => NativeKey::Single(copy_value(&row[cols[0]])),
        Shape::Double => NativeKey::Double(copy_value(&row[cols[0]]), copy_value(&row[cols[1]])),
        Shape::Many => NativeKey::Many(project_row(row, cols)),
    }
}

} // verus!

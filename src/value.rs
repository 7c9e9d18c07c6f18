use vstd::prelude::*;

verus! {

/// Bytes charged for a row's own header, whatever it holds.
pub const ROW_BYTES: usize = 24;

/// Bytes charged for each value slot of a row.
pub const VALUE_BYTES: usize = 32;

/// A scalar cell of a row, and a component of a key.
#[derive(Clone, PartialEq, Eq, Hash, Debug)]
pub enum Value {
    Null,
    Int(i64),
    Text(String),
}

/// What a `Value` is, mathematically: two values compare equal exactly when
/// their views are equal.
pub enum ValueView {
    Null,
    Int(i64),
    Text(Seq<char>),
}

impl View for Value {
    type V = ValueView;

    open spec fn view(&self) -> ValueView {
        match self {
            Value::Null => ValueView::Null,
            Value::Int(i) => ValueView::Int(*i),
            Value::Text(s) => ValueView::Text(s@),
        }
    }
}

/// The mathematical content of a row.
pub type RowView = Seq<ValueView>;

pub open spec fn row_view(r: Seq<Value>) -> RowView {
    r.map_values(|v: Value| v@)
}

pub open spec fn rows_view(rs: Seq<Vec<Value>>) -> Seq<RowView> {
    rs.map_values(|r: Vec<Value>| row_view(r@))
}

/// A tagged diff applied to the store.
pub enum Record {
    /// The row is now present.
    Positive(Vec<Value>),
    /// One present instance of the row is now absent.
    Negative(Vec<Value>),
    /// A base-table operation that passes through materialized state; it is
    /// never handed to a store.
    BaseOperation(Vec<Value>),
}

pub enum RecordView {
    Positive(RowView),
    Negative(RowView),
    BaseOperation(RowView),
}

impl View for Record {
    type V = RecordView;

    open spec fn view(&self) -> RecordView {
        match self {
            Record::Positive(r) => RecordView::Positive(row_view(r@)),
            Record::Negative(r) => RecordView::Negative(row_view(r@)),
            Record::BaseOperation(r) => RecordView::BaseOperation(row_view(r@)),
        }
    }
}

impl RecordView {
    pub open spec fn row(self) -> RowView {
        match self {
            RecordView::Positive(r) => r,
            RecordView::Negative(r) => r,
            RecordView::BaseOperation(r) => r,
        }
    }

    pub open spec fn is_diff(self) -> bool {
        !(self is BaseOperation)
    }
}

/// Memory charged for one value.
pub open spec fn value_size(v: ValueView) -> nat {
    match v {
        ValueView::Text(s) => (VALUE_BYTES + s.len()) as nat,
        _ => VALUE_BYTES as nat,
    }
}

/// Memory charged for the values of a row.
pub open spec fn values_size(r: RowView) -> nat
    decreases r.len(),
{
    if r.len() == 0 {
        0
    } else {
        values_size(r.drop_last()) + value_size(r.last())
    }
}

/// Memory charged for a whole row: its header and its values.
pub open spec fn row_size(r: RowView) -> nat {
    (ROW_BYTES + values_size(r)) as nat
}

/// An identical copy of a value.
pub fn copy_value(v: &Value) -> (r: Value)
    ensures
        r@ == v@,
{
    match v {
        Value::Null => Value::Null,
        Value::Int(i) => Value::Int(*i),
        Value::Text(s) => Value::Text(s.clone()),
    }
}

/// Memory charged for one value.
pub fn value_size_of(v: &Value) -> (n: usize)
    requires
        value_size(v@) <= usize::MAX,
    ensures
        n == value_size(v@),
{
    match v {
        Value::Text(s) => VALUE_BYTES + s.as_str().unicode_len(),
        _ => VALUE_BYTES,
    }
}

/// Deep memory size of a row, used for memory accounting.
pub fn deep_size_of(row: &[Value]) -> (n: usize)
    requires
        row_size(row_view(row@)) <= usize::MAX,
    ensures
        n == row_size(row_view(row@)),
{
    let mut total: usize = ROW_BYTES;
    let mut i: usize = 0;
    while i < row.len()
        invariant
            i <= row.len(),
            row_size(row_view(row@)) <= usize::MAX,
            total == ROW_BYTES + values_size(row_view(row@).take(i as int)),
        decreases row.len() - i,
    {
        proof {
            lemma_values_size_prefix(row_view(row@), i as int + 1);
            let t = row_view(row@).take(i as int + 1);
            assert(t.drop_last() =~= row_view(row@).take(i as int));
        }
        total = total + value_size_of(&row[i]);
        i = i + 1;
    }
    proof {
        assert(row_view(row@).take(row@.len() as int) =~= row_view(row@));
    }
    total
}

/// The size of a prefix never exceeds the size of the whole.
pub proof fn lemma_values_size_prefix(r: RowView, n: int)
    requires
        0 <= n <= r.len(),
    ensures
        values_size(r.take(n)) <= values_size(r),
    decreases r.len(),
{
    if n < r.len() {
        assert(r.drop_last().take(n) =~= r.take(n));
        lemma_values_size_prefix(r.drop_last(), n);
    } else {
        assert(r.take(n) =~= r);
    }
}

} // verus!

verus! {

pub open spec fn records_view(rs: Seq<Record>) -> Seq<RecordView> {
    rs.map_values(|r: Record| r@)
}

} // verus!

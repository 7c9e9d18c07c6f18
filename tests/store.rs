use backlog::handle::Handle;
use backlog::value::{deep_size_of, Record, Value};

fn num(i: i64) -> Value {
    Value::Int(i)
}

fn txt(s: &str) -> Value {
    Value::Text(s.to_string())
}

fn count(h: &Handle, k: &[Value]) -> Option<(Option<usize>, i64)> {
    h.meta_get_and(k, |rows: &[Vec<Value>]| rows.len())
}

fn sorted_rows(h: &Handle, k: &[Value]) -> Option<Vec<Vec<Value>>> {
    match h.lookup(k) {
        Some((Some(mut rows), _)) => {
            rows.sort_by(|a, b| format!("{:?}", a).cmp(&format!("{:?}", b)));
            Some(rows)
        }
        _ => None,
    }
}

#[test]
fn lookup_before_first_refresh_is_none() {
    let mut h = Handle::new(&[0], 7);
    assert!(h.lookup(&[num(1)]).is_none());
    h.add(&[0], 2, vec![Record::Positive(vec![num(1), num(2)])]);
    assert!(h.lookup(&[num(1)]).is_none());
    assert!(count(&h, &[num(1)]).is_none());
}

#[test]
fn untouched_key_misses_after_first_refresh() {
    let mut h = Handle::new(&[0], 7);
    h.refresh();
    assert_eq!(count(&h, &[num(1)]), Some((None, 7)));
    assert_eq!(h.lookup(&[num(1)]), Some((None, 7)));
}

#[test]
fn writes_stay_unseen_until_refresh() {
    let mut h = Handle::new(&[0], 0);
    h.add(&[0], 2, vec![Record::Positive(vec![num(1), num(2)])]);
    h.refresh();
    h.add(&[0], 2, vec![Record::Positive(vec![num(1), num(3)])]);
    assert_eq!(count(&h, &[num(1)]), Some((Some(1), 0)));
    h.refresh();
    assert_eq!(count(&h, &[num(1)]), Some((Some(2), 0)));
}

#[test]
fn count_is_positives_less_matching_negatives() {
    let mut h = Handle::new(&[0], 1);
    h.add(
        &[0],
        2,
        vec![
            Record::Positive(vec![num(1), num(10)]),
            Record::Positive(vec![num(1), num(11)]),
            Record::Positive(vec![num(1), num(10)]),
            Record::Negative(vec![num(1), num(10)]),
            Record::Positive(vec![num(2), num(12)]),
        ],
    );
    h.refresh();
    assert_eq!(count(&h, &[num(1)]), Some((Some(2), 1)));
    assert_eq!(count(&h, &[num(2)]), Some((Some(1), 1)));
    assert_eq!(
        sorted_rows(&h, &[num(1)]),
        Some(vec![vec![num(1), num(10)], vec![num(1), num(11)]])
    );
}

#[test]
fn unmatched_removal_is_a_no_op() {
    let mut h = Handle::new(&[0], 0);
    h.add(&[0], 2, vec![Record::Positive(vec![num(1), num(10)])]);
    h.add(&[0], 2, vec![Record::Negative(vec![num(1), num(99)])]);
    h.add(&[0], 2, vec![Record::Negative(vec![num(5), num(99)])]);
    h.refresh();
    assert_eq!(count(&h, &[num(1)]), Some((Some(1), 0)));
    assert_eq!(count(&h, &[num(5)]), Some((None, 0)));
}

#[test]
fn removing_last_row_leaves_key_present_and_empty() {
    let mut h = Handle::new(&[0], 3);
    h.add(&[0], 2, vec![Record::Positive(vec![num(1), num(10)])]);
    h.refresh();
    h.add(&[0], 2, vec![Record::Negative(vec![num(1), num(10)])]);
    h.refresh();
    assert_eq!(count(&h, &[num(1)]), Some((Some(0), 3)));
    assert_eq!(h.lookup(&[num(1)]), Some((Some(vec![]), 3)));
}

#[test]
fn clear_matches_removal_down_to_zero() {
    let mut a = Handle::new(&[0], 0);
    let mut b = Handle::new(&[0], 0);
    a.add(&[0], 1, vec![Record::Positive(vec![num(4)])]);
    b.add(&[0], 1, vec![Record::Positive(vec![num(4)])]);
    a.add(&[0], 1, vec![Record::Negative(vec![num(4)])]);
    b.clear(&[num(4)]);
    a.refresh();
    b.refresh();
    assert_eq!(count(&a, &[num(4)]), Some((Some(0), 0)));
    assert_eq!(count(&b, &[num(4)]), Some((Some(0), 0)));
}

#[test]
fn clear_creates_known_empty_key() {
    let mut h = Handle::new(&[0], 0);
    h.clear(&[num(8)]);
    h.refresh();
    assert_eq!(count(&h, &[num(8)]), Some((Some(0), 0)));
}

#[test]
fn empty_evicts_key() {
    let mut h = Handle::new(&[0], 5);
    h.add(&[0], 2, vec![Record::Positive(vec![num(1), num(10)])]);
    h.refresh();
    h.empty(&[num(1)]);
    h.refresh();
    assert_eq!(count(&h, &[num(1)]), Some((None, 5)));
    assert_eq!(h.lookup(&[num(1)]), Some((None, 5)));
}

#[test]
fn set_meta_is_seen_after_refresh() {
    let mut h = Handle::new(&[0], -1);
    h.refresh();
    assert_eq!(h.set_meta(42), -1);
    h.add(&[0], 2, vec![Record::Positive(vec![num(1), num(10)])]);
    assert_eq!(count(&h, &[num(1)]), Some((None, -1)));
    h.refresh();
    assert_eq!(count(&h, &[num(1)]), Some((Some(1), 42)));
    assert_eq!(count(&h, &[num(2)]), Some((None, 42)));
    assert_eq!(h.set_meta(43), 42);
}

#[test]
fn memory_delta_counts_surviving_rows() {
    let a = vec![num(1), txt("a")];
    let b = vec![num(1), txt("bbbbbbbbbbbbbbbbbbbbbbbbbbbbbbbbbbbbbbbbbbbbbbbbbbb")];
    let mut h = Handle::new(&[0], 0);
    let delta = h.add(
        &[0],
        2,
        vec![
            Record::Positive(a.clone()),
            Record::Positive(b.clone()),
            Record::Negative(a.clone()),
        ],
    );
    assert_eq!(delta, deep_size_of(&b) as isize);
    h.refresh();
    assert_eq!(h.lookup(&[num(1)]), Some((Some(vec![b]), 0)));
}

#[test]
fn memory_delta_is_signed() {
    let a = vec![num(1), txt("abc")];
    let mut h = Handle::new(&[0], 0);
    assert_eq!(h.add(&[0], 2, vec![Record::Positive(a.clone())]), 91);
    assert_eq!(h.add(&[0], 2, vec![Record::Negative(a.clone())]), -91);
    assert_eq!(h.add(&[0], 2, vec![]), 0);
}

#[test]
fn deep_size_of_exact_values() {
    assert_eq!(deep_size_of(&[]), 24);
    assert_eq!(deep_size_of(&[num(5)]), 56);
    assert_eq!(deep_size_of(&[Value::Null, txt("hello")]), 24 + 32 + 32 + 5);
    assert_eq!(deep_size_of(&[txt("é")]), 24 + 32 + 1);
}

#[test]
fn shape_follows_index_column_count() {
    assert!(matches!(Handle::new(&[0], 0), Handle::Single(_)));
    assert!(matches!(Handle::new(&[0, 1], 0), Handle::Double(_)));
    assert!(matches!(Handle::new(&[0, 1, 2], 0), Handle::Many(_)));
}

fn run_same_ops(cols: &[usize]) -> Vec<Option<(Option<usize>, i64)>> {
    let mut h = Handle::new(cols, 0);
    let row = |a: i64, b: i64, c: i64, d: i64| vec![num(a), num(b), num(c), num(d)];
    h.add(
        cols,
        4,
        vec![
            Record::Positive(row(1, 2, 3, 4)),
            Record::Positive(row(1, 2, 3, 5)),
            Record::Positive(row(1, 2, 3, 5)),
            Record::Negative(row(1, 2, 3, 5)),
            Record::Positive(row(6, 7, 8, 9)),
        ],
    );
    h.set_meta(9);
    h.refresh();
    let key = |a: i64, b: i64, c: i64| -> Vec<Value> {
        vec![num(a), num(b), num(c)][..cols.len()].to_vec()
    };
    let mut out = vec![count(&h, &key(1, 2, 3)), count(&h, &key(6, 7, 8)), count(&h, &key(0, 0, 0))];
    h.clear(&key(1, 2, 3));
    h.empty(&key(6, 7, 8));
    h.refresh();
    out.push(count(&h, &key(1, 2, 3)));
    out.push(count(&h, &key(6, 7, 8)));
    out
}

#[test]
fn shapes_give_the_same_results() {
    let single = run_same_ops(&[0]);
    let double = run_same_ops(&[0, 1]);
    let many = run_same_ops(&[0, 1, 2]);
    let expected = vec![
        Some((Some(2), 9)),
        Some((Some(1), 9)),
        Some((None, 9)),
        Some((Some(0), 9)),
        Some((None, 9)),
    ];
    assert_eq!(single, expected);
    assert_eq!(double, expected);
    assert_eq!(many, expected);
}

#[test]
fn double_key_projects_columns_in_order() {
    let mut h = Handle::new(&[2, 0], 0);
    h.add(&[2, 0], 3, vec![Record::Positive(vec![txt("x"), num(0), num(7)])]);
    h.refresh();
    assert_eq!(count(&h, &[num(7), txt("x")]), Some((Some(1), 0)));
    assert_eq!(count(&h, &[txt("x"), num(7)]), Some((None, 0)));
}

#[test]
fn wide_key_uses_all_columns() {
    let mut h = Handle::new(&[0, 1, 2], 0);
    h.add(
        &[0, 1, 2],
        3,
        vec![
            Record::Positive(vec![num(1), num(2), num(3)]),
            Record::Positive(vec![num(1), num(2), num(4)]),
        ],
    );
    h.refresh();
    assert_eq!(count(&h, &[num(1), num(2), num(3)]), Some((Some(1), 0)));
    assert_eq!(count(&h, &[num(1), num(2), num(4)]), Some((Some(1), 0)));
    assert_eq!(count(&h, &[num(1), num(2), num(5)]), Some((None, 0)));
}

#[test]
fn text_keys_compare_by_content() {
    let mut h = Handle::new(&[0], 0);
    h.add(&[0], 1, vec![Record::Positive(vec![txt("k")])]);
    h.refresh();
    let key = vec![Value::Text(String::from("k"))];
    assert_eq!(count(&h, &key), Some((Some(1), 0)));
    h.add(&[0], 1, vec![Record::Negative(vec![Value::Text(String::from("k"))])]);
    h.refresh();
    assert_eq!(count(&h, &key), Some((Some(0), 0)));
}

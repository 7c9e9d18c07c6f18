use backlog::handle::Handle;
use backlog::value::{Record, Value};

fn reader_count(r: &backlog::handle::Reader, k: i64) -> Option<(Option<usize>, i64)> {
    r.lookup(&[Value::Int(k)]).map(|(rows, m)| (rows.map(|rs| rs.len()), m))
}

#[test]
fn reader_sees_published_state_only() {
    let mut h = Handle::new(&[0], 1);
    let r = h.reader();
    assert_eq!(reader_count(&r, 1), None);
    h.add(&[0], 1, vec![Record::Positive(vec![Value::Int(1)])]);
    assert_eq!(reader_count(&r, 1), None);
    h.refresh();
    assert_eq!(reader_count(&r, 1), Some((Some(1), 1)));
    h.add(&[0], 1, vec![Record::Positive(vec![Value::Int(1)])]);
    h.set_meta(2);
    assert_eq!(reader_count(&r, 1), Some((Some(1), 1)));
    h.refresh();
    assert_eq!(reader_count(&r, 1), Some((Some(2), 2)));
    assert_eq!(reader_count(&r, 3), Some((None, 2)));
}

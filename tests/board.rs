use geo_board::geometry::{
    BoundingBox, Point, LAT_MAX, LAT_MIN, LON_MAX, LON_MIN, RANDOM_HALF_WIDTH,
};
use geo_board::ingest::{load_snapshot, submit, Applied, IngestCoordinator, LoadError, Phase, WriterCommand};
use geo_board::message::{Message, PostError};
use geo_board::store::{is_time_ordered, MessageStore, RETENTION_SECONDS};

fn bbox(nw_lat: i64, nw_lon: i64, se_lat: i64, se_lon: i64) -> BoundingBox {
    BoundingBox {
        nw: Point { lat: nw_lat, lon: nw_lon },
        se: Point { lat: se_lat, lon: se_lon },
    }
}

fn msg(created_at: i64, user: &str, text: &str, bounding_box: BoundingBox) -> Message {
    Message { created_at, user: user.to_string(), text: text.to_string(), bounding_box }
}

fn times(v: &[Message]) -> Vec<i64> {
    v.iter().map(|m| m.created_at).collect()
}

fn two_message_store() -> MessageStore {
    let mut store = MessageStore::new();
    store.append(msg(100, "ann", "first", bbox(50, 0, 40, 10)));
    store.append(msg(200, "bob", "second", bbox(10, 10, 0, 20)));
    store
}

#[test]
fn overlap_overlaps() {
    let a = BoundingBox {
        nw: Point { lat: 50, lon: 0 },
        se: Point { lat: 40, lon: 10 },
    };
    let b = BoundingBox {
        nw: Point { lat: 49, lon: 2 },
        se: Point { lat: 42, lon: 20 },
    };
    assert!(a.overlap(&b));
}

#[test]
fn overlap_is_symmetric_for_the_test_boxes() {
    let a = bbox(50, 0, 40, 10);
    let b = bbox(49, 2, 42, 20);
    assert!(b.overlap(&a));
}

#[test]
fn overlap_holds_both_ways_for_a_contained_box() {
    let outer = bbox(50, 0, 40, 10);
    let inner = bbox(48, 2, 42, 8);
    assert!(outer.overlap(&inner));
    assert!(inner.overlap(&outer));
}

#[test]
fn overlap_sees_a_cross() {
    // The boxes share the point (5, 5) though no corner of either lies in the other.
    let tall = bbox(10, 4, 0, 6);
    let wide = bbox(6, 0, 4, 10);
    assert!(tall.overlap(&wide));
    assert!(wide.overlap(&tall));
}

#[test]
fn overlap_on_touching_edges() {
    let a = bbox(10, 0, 0, 10);
    let b = bbox(20, 10, 10, 20);
    assert!(a.overlap(&b));
    assert!(b.overlap(&a));
}

#[test]
fn overlap_with_corners_out_of_order() {
    let a = bbox(40, 10, 50, 0);
    let b = bbox(49, 2, 42, 20);
    assert!(a.overlap(&b));
    assert!(b.overlap(&a));
    assert!(!a.overlap(&bbox(60, 0, 55, 10)));
}

#[test]
fn disjoint_boxes_do_not_overlap() {
    let a = bbox(50, 0, 40, 10);
    let b = bbox(10, 10, 0, 20);
    assert!(!a.overlap(&b));
    assert!(!b.overlap(&a));
    assert!(!a.overlap(&bbox(50, 11, 40, 20)));
}

#[test]
fn around_builds_a_square() {
    let b = BoundingBox::around(Point { lat: 5, lon: -7 }, 3);
    assert_eq!(b, bbox(8, -10, 2, -4));
}

#[test]
fn random_boxes_are_unit_squares_in_range() {
    let mut centers = Vec::new();
    for _ in 0..20 {
        let b = BoundingBox::random();
        assert_eq!(b.nw.lat - b.se.lat, 2 * RANDOM_HALF_WIDTH);
        assert_eq!(b.se.lon - b.nw.lon, 2 * RANDOM_HALF_WIDTH);
        let lat = b.nw.lat - RANDOM_HALF_WIDTH;
        let lon = b.nw.lon + RANDOM_HALF_WIDTH;
        assert!(LAT_MIN <= lat && lat < LAT_MAX);
        assert!(LON_MIN <= lon && lon < LON_MAX);
        centers.push((lat, lon));
    }
    assert!(centers.iter().any(|c| *c != centers[0]));
}

#[test]
fn new_message_refuses_empty_user() {
    let r = Message::new(1, String::new(), "hi".to_string(), bbox(1, 0, 0, 1));
    assert_eq!(r.unwrap_err(), PostError::EmptyUser);
}

#[test]
fn new_message_refuses_empty_text() {
    let r = Message::new(1, "ann".to_string(), String::new(), bbox(1, 0, 0, 1));
    assert_eq!(r.unwrap_err(), PostError::EmptyText);
}

#[test]
fn new_message_keeps_fields() {
    let m = Message::new(7, "ann".to_string(), "hi".to_string(), bbox(1, 0, 0, 1)).unwrap();
    assert_eq!(m.created_at, 7);
    assert_eq!(m.user, "ann");
    assert_eq!(m.text, "hi");
    assert_eq!(m.bounding_box, bbox(1, 0, 0, 1));
    let d = m.duplicate();
    assert_eq!(d.user, "ann");
    assert_eq!(d.created_at, 7);
}

#[test]
fn append_keeps_the_message_as_given() {
    let mut store = two_message_store();
    assert_eq!(store.last_created_at(), Some(200));
    store.append(msg(200, "cat", "same time", bbox(1, 0, 0, 1)));
    store.append(msg(300, "dan", "later", bbox(1, 0, 0, 1)));
    assert_eq!(store.len(), 4);
    assert_eq!(times(&store.snapshot()), vec![100, 200, 200, 300]);
    assert_eq!(MessageStore::new().last_created_at(), None);
}

#[test]
fn writer_stamps_at_apply_time() {
    let mut store = two_message_store();
    let mut writer = IngestCoordinator::new();
    let r = writer.apply_at(&mut store, WriterCommand::Write(msg(5, "cat", "x", bbox(1, 0, 0, 1))), 250);
    assert!(matches!(r, Applied::Stored));
    // A clock that reads earlier than the newest message takes its time.
    let r = writer.apply_at(&mut store, WriterCommand::Write(msg(999, "dan", "y", bbox(1, 0, 0, 1))), 240);
    assert!(matches!(r, Applied::Stored));
    let snap = store.snapshot();
    assert_eq!(times(&snap), vec![100, 200, 250, 250]);
    assert_eq!(snap[3].user, "dan");
}

#[test]
fn query_returns_overlapping_message() {
    let store = two_message_store();
    let r = store.query(&bbox(49, 2, 42, 20));
    assert_eq!(r.len(), 1);
    assert_eq!(r[0].created_at, 100);
    assert_eq!(r[0].user, "ann");
    assert_eq!(store.len(), 2);
}

#[test]
fn query_keeps_store_order_without_duplicates() {
    let mut store = two_message_store();
    store.append(msg(300, "cat", "third", bbox(45, 5, 44, 6)));
    let r = store.query(&bbox(90, -10, -10, 30));
    assert_eq!(times(&r), vec![100, 200, 300]);
    let none = store.query(&bbox(-50, -50, -60, -40));
    assert!(none.is_empty());
}

#[test]
fn evict_before_removes_older_prefix() {
    let mut store = two_message_store();
    assert_eq!(store.evict_before(150), 1);
    let rest = store.snapshot();
    assert_eq!(times(&rest), vec![200]);
    assert_eq!(rest[0].user, "bob");
}

#[test]
fn evict_before_twice_evicts_nothing_more() {
    let mut store = two_message_store();
    assert_eq!(store.evict_before(150), 1);
    assert_eq!(store.evict_before(150), 0);
    assert_eq!(store.len(), 1);
}

#[test]
fn evict_before_everything_and_nothing() {
    let mut store = two_message_store();
    assert_eq!(store.evict_before(100), 0);
    assert_eq!(store.evict_before(1000), 2);
    assert_eq!(store.len(), 0);
    assert_eq!(store.evict_before(1000), 0);
}

#[test]
fn evict_expired_uses_retention_window() {
    let mut store = two_message_store();
    assert_eq!(store.evict_expired(100 + RETENTION_SECONDS), 0);
    assert_eq!(store.evict_expired(101 + RETENTION_SECONDS), 1);
    assert_eq!(store.evict_expired(i64::MIN), 0);
    assert_eq!(store.len(), 1);
}

#[test]
fn reap_evicts_by_the_clock() {
    let mut store = MessageStore::new();
    store.append(msg(0, "ann", "old", bbox(1, 0, 0, 1)));
    store.append(msg(i64::MAX, "bob", "future", bbox(1, 0, 0, 1)));
    assert_eq!(store.reap(), 1);
    assert_eq!(times(&store.snapshot()), vec![i64::MAX]);
}

#[test]
fn snapshot_restore_round_trip() {
    let mut store = two_message_store();
    store.append(msg(300, "cat", "third", bbox(45, 5, 44, 6)));
    let snap = store.snapshot();
    let mut other = MessageStore::new();
    assert!(other.restore(snap));
    let a = store.snapshot();
    let b = other.snapshot();
    assert_eq!(times(&a), times(&b));
    for (x, y) in a.iter().zip(b.iter()) {
        assert_eq!(x.user, y.user);
        assert_eq!(x.text, y.text);
        assert_eq!(x.bounding_box, y.bounding_box);
    }
}

#[test]
fn restore_refuses_out_of_order() {
    let mut store = two_message_store();
    let bad = vec![msg(5, "a", "x", bbox(1, 0, 0, 1)), msg(4, "b", "y", bbox(1, 0, 0, 1))];
    assert!(!is_time_ordered(&bad));
    assert!(!store.restore(bad));
    assert_eq!(times(&store.snapshot()), vec![100, 200]);
}

#[test]
fn is_time_ordered_accepts_ties_and_empty() {
    assert!(is_time_ordered(&Vec::new()));
    let v = vec![msg(5, "a", "x", bbox(1, 0, 0, 1)), msg(5, "b", "y", bbox(1, 0, 0, 1))];
    assert!(is_time_ordered(&v));
}

#[test]
fn writer_appends_then_dumps_then_refuses() {
    let mut store = MessageStore::new();
    let mut writer = IngestCoordinator::new();
    assert_eq!(writer.phase(), Phase::Running);
    let r = writer.apply(&mut store, WriterCommand::Write(msg(10, "ann", "hi", bbox(1, 0, 0, 1))));
    assert!(matches!(r, Applied::Stored));
    assert_eq!(store.len(), 1);
    assert!(!writer.finish());
    match writer.apply(&mut store, WriterCommand::Dump) {
        Applied::Dump(v) => {
            assert_eq!(v.len(), 1);
            assert_eq!(v[0].user, "ann");
            assert!(v[0].created_at > 1_600_000_000);
        }
        other => panic!("expected a dump, got {:?}", other),
    }
    assert_eq!(writer.phase(), Phase::Dumping);
    let r = writer.apply(&mut store, WriterCommand::Write(msg(20, "bob", "late", bbox(1, 0, 0, 1))));
    assert!(matches!(r, Applied::Refused));
    assert_eq!(store.len(), 1);
    assert!(writer.finish());
    assert_eq!(writer.phase(), Phase::Terminated);
    assert!(matches!(writer.apply(&mut store, WriterCommand::Dump), Applied::Refused));
}

#[test]
fn submit_with_empty_user_is_rejected() {
    let store = two_message_store();
    let r = submit(String::new(), "hello".to_string(), bbox(1, 0, 0, 1));
    assert!(matches!(r, Err(PostError::EmptyUser)));
    assert_eq!(store.len(), 2);
}

#[test]
fn submit_with_empty_text_is_rejected() {
    let r = submit("ann".to_string(), String::new(), bbox(1, 0, 0, 1));
    assert!(matches!(r, Err(PostError::EmptyText)));
}

#[test]
fn submit_stamps_and_keeps_fields() {
    match submit("ann".to_string(), "hello".to_string(), bbox(1, 0, 0, 1)) {
        Ok(WriterCommand::Write(m)) => {
            assert_eq!(m.user, "ann");
            assert_eq!(m.text, "hello");
            assert_eq!(m.bounding_box, bbox(1, 0, 0, 1));
            assert!(m.created_at > 1_600_000_000);
        }
        other => panic!("expected a write, got {:?}", other),
    }
}

#[test]
fn load_snapshot_cases() {
    assert_eq!(load_snapshot(None).unwrap().len(), 0);
    let good = vec![msg(1, "a", "x", bbox(1, 0, 0, 1)), msg(2, "b", "y", bbox(1, 0, 0, 1))];
    assert_eq!(times(&load_snapshot(Some(good)).unwrap().snapshot()), vec![1, 2]);
    let bad = vec![msg(2, "a", "x", bbox(1, 0, 0, 1)), msg(1, "b", "y", bbox(1, 0, 0, 1))];
    assert!(matches!(load_snapshot(Some(bad)), Err(LoadError::OutOfOrder)));
}

#[test]
fn larger_viewport_keeps_crossing_message() {
    let mut store = MessageStore::new();
    store.append(msg(1, "ann", "tall", bbox(10, 4, 0, 6)));
    let small = store.query(&bbox(6, 3, 4, 7));
    let large = store.query(&bbox(6, 0, 4, 10));
    assert_eq!(small.len(), 1);
    assert_eq!(large.len(), 1);
    assert_eq!(large[0].text, "tall");
}

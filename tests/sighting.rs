use dog_monitor::sighting::{DogSighting, SightingStore, Timestamp};

fn at(secs: u64) -> Timestamp {
    Timestamp { secs_since_epoch: secs, nanos_since_epoch: 0 }
}

#[test]
fn empty_store_has_nothing() {
    let store = SightingStore::new();
    assert!(store.peek().is_none());
    assert!(store.latest_timestamp().is_none());
}

#[test]
fn latest_publish_wins() {
    let mut store = SightingStore::new();
    store.publish(DogSighting::new(at(1), vec![1, 1]));
    let first = store.peek().expect("a sighting was published");
    assert_eq!(first.timestamp, at(1));
    assert_eq!(first.image, vec![1u8, 1]);

    store.publish(DogSighting::new(at(2), vec![2, 2, 2]));
    let second = store.peek().expect("a sighting was published");
    assert_eq!(second.timestamp, at(2));
    assert_eq!(second.image, vec![2u8, 2, 2]);
    assert_eq!(store.latest_timestamp(), Some(at(2)));

    let again = store.peek().expect("peeking keeps the sighting");
    assert_eq!(again.image, vec![2u8, 2, 2]);
}

#[test]
fn duplicate_copies_everything() {
    let s = DogSighting::new(Timestamp { secs_since_epoch: 5, nanos_since_epoch: 7 }, vec![9, 8, 7]);
    let d = s.duplicate();
    assert_eq!(d.timestamp, s.timestamp);
    assert_eq!(d.image, s.image);
}

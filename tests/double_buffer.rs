use dog_monitor::double_buffer::DoubleBuffer;

#[test]
fn front_alternates_with_swaps() {
    let mut db = DoubleBuffer::new(1u32, 2u32);
    assert_eq!(*db.front(), 1);
    db.swap();
    assert_eq!(*db.front(), 2);
    db.swap();
    assert_eq!(*db.front(), 1);
    db.swap();
    assert_eq!(*db.front(), 2);
}

#[test]
fn back_write_invisible_until_swap() {
    let mut db = DoubleBuffer::new(String::from("front"), String::from("back"));
    {
        let (front, back) = db.buffers();
        assert_eq!(front, "front");
        assert_eq!(back, "back");
        *back = format!("{}-next", front);
    }
    assert_eq!(db.clone_front(), "front");
    assert_eq!(db.front(), "front");
    db.swap();
    assert_eq!(db.front(), "front-next");
    assert_eq!(db.clone_front(), "front-next");
}

#[test]
fn back_accessor_writes_the_back_slot() {
    let mut db = DoubleBuffer::new(7u8, 8u8);
    *db.back() = 9;
    assert_eq!(*db.front(), 7);
    db.swap();
    assert_eq!(*db.front(), 9);
    *db.back() = 11;
    db.swap();
    assert_eq!(*db.front(), 11);
}

#[test]
fn to_front_hands_out_current_front() {
    let db = DoubleBuffer::new(vec![1u8], vec![2u8]);
    assert_eq!(db.to_front(), vec![1u8]);
    let mut db = DoubleBuffer::new(vec![1u8], vec![2u8]);
    db.swap();
    assert_eq!(db.to_front(), vec![2u8]);
}

#[test]
fn default_holds_default_values() {
    let mut db: DoubleBuffer<u32> = DoubleBuffer::default();
    assert_eq!(*db.front(), 0);
    *db.back() = 5;
    db.swap();
    assert_eq!(*db.front(), 5);
    db.swap();
    assert_eq!(*db.front(), 0);
}

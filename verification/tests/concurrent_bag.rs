use hkcp::SimpleBag;

#[test]
fn concurrent_bag_add_entry() {
    let mut simple_bag: SimpleBag<String> = SimpleBag::new(10);
    simple_bag.release_entry(String::from("hello Rust"));
    assert_eq!(simple_bag.size(), 10);
    assert_eq!(simple_bag.available_size(), 1);
    simple_bag.release_entry(String::from("hello Rust 2"));
    assert_eq!(simple_bag.size(), 10);
    assert_eq!(simple_bag.available_size(), 2);
}

#[test]
fn concurrent_bag_borrow_entry() {
    let mut simple_bag: SimpleBag<String> = SimpleBag::new(10);
    simple_bag.release_entry(String::from("hello Rust"));
    assert_eq!(simple_bag.size(), 10);
    assert_eq!(simple_bag.available_size(), 1);
    let str = simple_bag.borrow_entry().unwrap();
    assert_eq!(simple_bag.size(), 10);
    assert_eq!(simple_bag.available_size(), 0);
    assert_eq!(str, String::from("hello Rust"));
}

#[test]
fn concurrent_bag_borrow_entry_mut() {
    let mut simple_bag: SimpleBag<String> = SimpleBag::new(10);
    simple_bag.release_entry(String::from("hello Rust"));
    assert_eq!(simple_bag.size(), 10);
    assert_eq!(simple_bag.available_size(), 1);
    let mut str = simple_bag.borrow_entry().unwrap();
    assert_eq!(simple_bag.size(), 10);
    assert_eq!(simple_bag.available_size(), 0);
    assert_eq!(str, String::from("hello Rust"));
    str.insert_str(0, "hello,");
    assert_eq!(str, String::from("hello,hello Rust"));
}

#[test]
fn simple_bag_new_is_empty() {
    let mut bag: SimpleBag<u32> = SimpleBag::new(3);
    assert_eq!(bag.size(), 3);
    assert_eq!(bag.available_size(), 0);
    assert_eq!(bag.borrow_entry_std(), None);
    assert_eq!(bag.available_size(), 0);
}

#[test]
fn simple_bag_borrow_takes_first_occupied_slot() {
    let mut bag: SimpleBag<u32> = SimpleBag::new(3);
    bag.release_entry_std(1);
    bag.release_entry_std(2);
    bag.release_entry_std(3);
    assert_eq!(bag.available_size(), 3);
    assert_eq!(bag.borrow_entry_std(), Some(1));
    assert_eq!(bag.borrow_entry_std(), Some(2));
    // The first empty slot is the first one again.
    bag.release_entry_std(4);
    assert_eq!(bag.borrow_entry_std(), Some(4));
    assert_eq!(bag.borrow_entry_std(), Some(3));
    assert_eq!(bag.borrow_entry_std(), None);
    assert_eq!(bag.available_size(), 0);
}

#[test]
fn simple_bag_full_drops_release() {
    let mut bag: SimpleBag<u32> = SimpleBag::new(1);
    bag.release_entry(1);
    bag.release_entry(2);
    assert_eq!(bag.available_size(), 1);
    assert_eq!(bag.borrow_entry(), Some(1));
    assert_eq!(bag.borrow_entry(), None);
}

#[test]
fn simple_bag_without_slots() {
    let mut bag: SimpleBag<u32> = SimpleBag::new(0);
    bag.release_entry(1);
    assert_eq!(bag.size(), 0);
    assert_eq!(bag.available_size(), 0);
    assert_eq!(bag.borrow_entry(), None);
}

#[test]
fn simple_bag_rnd_matches_std() {
    for _ in 0..20 {
        let mut bag: SimpleBag<u32> = SimpleBag::new(5);
        bag.release_entry_rnd(10);
        bag.release_entry_rnd(11);
        bag.release_entry_rnd(12);
        assert_eq!(bag.available_size(), 3);
        assert_eq!(bag.borrow_entry_rnd(), Some(10));
        bag.release_entry_rnd(13);
        assert_eq!(bag.borrow_entry_rnd(), Some(13));
        assert_eq!(bag.borrow_entry_rnd(), Some(11));
        assert_eq!(bag.borrow_entry_rnd(), Some(12));
        assert_eq!(bag.borrow_entry_rnd(), None);
        assert_eq!(bag.available_size(), 0);
    }
}

#[test]
fn simple_bag_borrow_after_wait() {
    let mut bag: SimpleBag<u32> = SimpleBag::new(2);
    assert_eq!(bag.borrow_entry(), None);
    bag.release_entry(5);
    assert_eq!(bag.borrow_entry_after_wait(true), None);
    assert_eq!(bag.available_size(), 1);
    assert_eq!(bag.borrow_entry_after_wait(false), Some(5));
    assert_eq!(bag.available_size(), 0);
}

#[test]
fn simple_bag_add_and_remove_slots() {
    let mut bag: SimpleBag<u32> = SimpleBag::new(1);
    bag.add_entry(7);
    assert_eq!(bag.size(), 2);
    // add_entry leaves the counter alone, so a borrow of that entry wraps it.
    assert_eq!(bag.available_size(), 0);
    assert_eq!(bag.borrow_entry(), Some(7));
    assert_eq!(bag.available_size(), u16::MAX);
    bag.add_entry(8);
    bag.remove_entry();
    assert_eq!(bag.size(), 2);
    assert_eq!(bag.borrow_entry(), None);
    bag.remove_entry();
    bag.remove_entry();
    bag.remove_entry();
    assert_eq!(bag.size(), 0);
}

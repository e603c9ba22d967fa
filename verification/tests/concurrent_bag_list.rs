use hkcp::ConcurrentBag;

#[test]
fn concurrent_bag_list_add_entry() {
    let mut simple_bag: ConcurrentBag<String> = ConcurrentBag::new();
    simple_bag.release_entry(String::from("hello Rust"));
    assert_eq!(simple_bag.size(), 1);
    simple_bag.release_entry(String::from("hello Rust 2"));
    assert_eq!(simple_bag.size(), 2);
}

#[test]
fn concurrent_bag_list_borrow_entry() {
    let mut simple_bag: ConcurrentBag<String> = ConcurrentBag::new();
    simple_bag.release_entry(String::from("hello Rust"));
    assert_eq!(simple_bag.size(), 1);
    let str = simple_bag.borrow_entry().unwrap();
    assert_eq!(simple_bag.size(), 0);
    assert_eq!(str, String::from("hello Rust"));
}

#[test]
fn concurrent_bag_list_borrow_entry_mut() {
    let mut simple_bag: ConcurrentBag<String> = ConcurrentBag::new();
    simple_bag.release_entry(String::from("hello Rust"));
    assert_eq!(simple_bag.size(), 1);
    let mut str = simple_bag.borrow_entry().unwrap();
    assert_eq!(simple_bag.size(), 0);
    assert_eq!(str, String::from("hello Rust"));
    str.insert_str(0, "hello,");
    assert_eq!(str, String::from("hello,hello Rust"));
}

#[test]
fn concurrent_bag_list_empty_borrow() {
    let mut bag: ConcurrentBag<u32> = ConcurrentBag::new();
    assert_eq!(bag.borrow_entry(), None);
    assert_eq!(bag.size(), 0);
}

#[test]
fn concurrent_bag_list_takes_turns() {
    let mut bag: ConcurrentBag<u32> = ConcurrentBag::new();
    // Releases alternate: 1 and 3 go to the first stack, 2 and 4 to the second.
    bag.release_entry(1);
    bag.release_entry(2);
    bag.release_entry(3);
    bag.release_entry(4);
    assert_eq!(bag.size(), 4);
    // Borrows alternate too, each popping the top of its stack.
    assert_eq!(bag.borrow_entry(), Some(3));
    assert_eq!(bag.borrow_entry(), Some(4));
    assert_eq!(bag.borrow_entry(), Some(1));
    assert_eq!(bag.borrow_entry(), Some(2));
    assert_eq!(bag.borrow_entry(), None);
    assert_eq!(bag.size(), 0);
}

#[test]
fn concurrent_bag_list_size_after_history() {
    let mut bag: ConcurrentBag<u32> = ConcurrentBag::new();
    let mut releases = 0;
    let mut handed_out = 0;
    for i in 0..7 {
        bag.release_entry(i);
        releases += 1;
        if i % 3 == 0 {
            if bag.borrow_entry().is_some() {
                handed_out += 1;
            }
        }
    }
    for _ in 0..10 {
        if bag.borrow_entry().is_some() {
            handed_out += 1;
        }
        assert_eq!(bag.size(), releases - handed_out);
    }
    assert_eq!(bag.size(), 0);
    assert_eq!(handed_out, 7);
}

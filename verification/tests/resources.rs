use cem::resources::Resources;

#[test]
fn resource_is_contained_after_insert() {
    struct A;

    let mut resources = Resources::default();

    resources.insert(A);
    assert!(resources.contains::<A>());
    let _a = resources.get::<A>().unwrap();
    let _a = resources.get_mut::<A>().unwrap();
}

#[test]
fn can_hold_multiple_resources() {
    struct A;
    struct B;

    let mut resources = Resources::default();

    resources.insert(A);
    assert!(resources.contains::<A>());

    let _a = resources.get::<A>().unwrap();
    let _a = resources.get_mut::<A>().unwrap();
    assert!(!resources.contains::<B>());
    assert!(resources.get::<B>().is_none());

    resources.insert(B);
    let _a = resources.get::<A>().unwrap();
    let _a = resources.get_mut::<A>().unwrap();
    let _b = resources.get::<B>().unwrap();
    let _b = resources.get_mut::<B>().unwrap();
}

#[test]
fn get_mut_or_insert_with_doesnt_insert_twice() {
    struct A(u32);

    let mut resources = Resources::default();

    let a = resources.get_mut_or_insert(A(1));
    assert_eq!(a.0, 1);
    assert!(resources.contains::<A>());

    let a = resources.get_mut_or_insert(A(2));
    assert_eq!(a.0, 1);
}

#[test]
fn insert_hands_back_the_previous_value() {
    struct A(u32);
    struct B;

    let mut resources = Resources::new();
    assert!(resources.insert(A(1)).is_none());
    assert!(resources.contains::<A>());
    assert!(!resources.contains::<B>());

    let previous = resources.insert(A(2)).unwrap();
    assert_eq!(previous.0, 1);
    assert_eq!(resources.get::<A>().unwrap().0, 2);

    match resources.entry::<A>() {
        cem::resources::Entry::Occupied(occupied) => assert_eq!(occupied.remove().0, 2),
        cem::resources::Entry::Vacant(_) => panic!("A is stored"),
    }
    assert!(!resources.contains::<A>());
    assert!(resources.get::<A>().is_none());
}

#[test]
fn entry_api() {
    struct Counter(u32);

    let mut resources = Resources::default();
    resources.entry::<Counter>().and_modify(|c| c.0 += 1).or_insert(Counter(10));
    assert_eq!(resources.get::<Counter>().unwrap().0, 10);
    resources.entry::<Counter>().and_modify(|c| c.0 += 1).or_insert(Counter(10));
    assert_eq!(resources.get::<Counter>().unwrap().0, 11);

    let value = resources.get_mut_or_insert_with(|| Counter(0));
    value.0 = 20;
    assert_eq!(resources.get::<Counter>().unwrap().0, 20);

    match resources.entry::<Counter>() {
        cem::resources::Entry::Occupied(mut occupied) => {
            assert_eq!(occupied.get().0, 20);
            occupied.get_mut().0 = 21;
            let old = occupied.insert(Counter(30));
            assert_eq!(old.0, 21);
            assert_eq!(occupied.remove().0, 30);
        }
        cem::resources::Entry::Vacant(_) => panic!("counter is stored"),
    }
    assert!(!resources.contains::<Counter>());

    let occupied = resources.entry::<Counter>().insert_entry(Counter(5));
    assert_eq!(occupied.get().0, 5);
    assert_eq!(*resources.get_mut_or_insert_default::<u64>(), 0);
    assert!(resources.get_mut::<u64>().is_some());
}

#[test]
fn expect_finds_a_stored_value() {
    struct Counter(u32);

    let mut resources = Resources::new();
    resources.insert(Counter(3));
    assert_eq!(resources.expect::<Counter>().0, 3);
    resources.expect_mut::<Counter>().0 = 4;
    assert_eq!(resources.get::<Counter>().unwrap().0, 4);
}


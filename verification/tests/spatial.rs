use cem::spatial::LeafIndexMap;

#[test]
fn leaf_indices_are_handed_out_in_order() {
    let mut world = hecs::World::new();
    let a = world.spawn((1u32,));
    let b = world.spawn((2u32,));

    let mut map = LeafIndexMap::default();
    let ia = map.insert(a);
    let ib = map.insert(b);
    assert_eq!(ia, 0);
    assert_eq!(ib, 1);
    assert_eq!(map.resolve(ia), a);
    assert_eq!(map.resolve(ib), b);

    assert_eq!(map.remove(ia), Some(a));
    assert_eq!(map.remove(ia), None);
    let ic = map.insert(a);
    assert_eq!(ic, 2);
    assert_eq!(map.resolve(ic), a);
}

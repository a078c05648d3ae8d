use mondrian::window::WindowRef;
use mondrian::window_map::WindowMap;

#[test]
fn window_map_insert_get_remove() {
    let mut m: WindowMap<u32> = WindowMap::new();
    let a = WindowRef::new(10);
    let b = WindowRef::new(20);
    assert_eq!(m.len(), 0);
    assert_eq!(m.insert(a, 1), None);
    assert_eq!(m.insert(b, 2), None);
    assert_eq!(m.insert(a, 3), Some(1));
    assert_eq!(m.len(), 2);
    assert_eq!(m.get(&a), Some(3));
    assert!(m.contains_key(&b));
    assert_eq!(m.find(&b), Some(1));
    assert_eq!(m.entry(0), (a, 3));
    assert_eq!(m.keys(), vec![a, b]);
    assert_eq!(m.remove(&a), Some(3));
    assert_eq!(m.remove(&a), None);
    assert!(!m.contains_key(&a));
    assert_eq!(m.len(), 1);
    m.set_value(0, 7);
    assert_eq!(m.get(&b), Some(7));
}

use mondrian::containers::{
    latest_keys, ActiveContainerKey, Container, ContainerEntry, ContainerKey, ContainerKeyTrait,
    ContainerLayer, ContainerMap, ContainersMap, CrossLayerContainerKey, InactiveContainers,
};
use mondrian::result::TilesManagerError;

fn key(vd: u128, m: &str, layer: ContainerLayer) -> ContainerKey {
    ContainerKey::new(vd, m.to_string(), layer)
}

#[test]
fn layer_predicates() {
    assert!(ContainerLayer::Focalized.is_focalized());
    assert!(ContainerLayer::HalfFocalized.is_focalized());
    assert!(!ContainerLayer::Normal.is_focalized());
    assert!(ContainerLayer::HalfFocalized.is_focalized_or_half());
    assert!(ContainerLayer::Focalized.is_focalized_or_half());
    assert!(!ContainerLayer::Normal.is_focalized_or_half());
}

#[test]
fn container_key_queries() {
    let k = key(7, "MONITOR1", ContainerLayer::Focalized);
    assert!(k.is_vd(7));
    assert!(!k.is_vd(8));
    assert!(k.is_monitor("MONITOR1"));
    assert!(!k.is_monitor("MONITOR2"));
    assert!(k.is_layer(ContainerLayer::Focalized));
    assert!(!k.is_layer(ContainerLayer::Normal));
    assert!(ContainerKeyTrait::is_vd(&k, 7));
}

#[test]
fn container_key_constructors() {
    let n = ContainerKey::normal(1, "M".to_string());
    assert_eq!(n.layer, ContainerLayer::Normal);
    let f = ContainerKey::focalized(1, "M".to_string());
    assert_eq!(f.layer, ContainerLayer::Focalized);
    let h = ContainerKey::half_focalized(1, "M".to_string());
    assert_eq!(h.layer, ContainerLayer::HalfFocalized);
    let back = h.to_normal();
    assert!(back.same_key(&n));
    assert_eq!(back.monitor, "M");
    assert!(!f.same_key(&n));
}

#[test]
fn cross_layer_keys_ignore_the_layer() {
    let a: CrossLayerContainerKey = key(1, "M", ContainerLayer::Normal).into();
    let b: CrossLayerContainerKey = key(1, "M", ContainerLayer::Focalized).into();
    let c: CrossLayerContainerKey = key(2, "M", ContainerLayer::Normal).into();
    let d: CrossLayerContainerKey = key(1, "N", ContainerLayer::Normal).into();
    assert!(a == b);
    assert!(a != c);
    assert!(a != d);
}

#[test]
fn cross_layer_round_trip_keeps_the_key() {
    let k = key(3, "MONITOR2", ContainerLayer::HalfFocalized);
    let c: CrossLayerContainerKey = k.clone().into();
    let back: ContainerKey = c.into();
    assert!(back.same_key(&k));
    assert_eq!(back.layer, ContainerLayer::HalfFocalized);
}

#[test]
fn active_keys_compare_by_monitor() {
    let a = ActiveContainerKey { vd: 1, monitor: "M".to_string() };
    let b = ActiveContainerKey { vd: 2, monitor: "M".to_string() };
    let c = ActiveContainerKey { vd: 1, monitor: "N".to_string() };
    assert!(a == b);
    assert!(a != c);
    assert!(a.is_vd(1));
}

#[test]
fn container_entry_new() {
    let e = ContainerEntry::new(5u32, "x");
    assert_eq!(e.key, 5);
    assert_eq!(e.value, "x");
}

#[test]
fn container_layers_and_trees() {
    let mut c = Container::new(1u32, 2u32, 3u32);
    assert_eq!(c.current(), ContainerLayer::Normal);
    assert_eq!(*c.tree(), 1);
    assert_eq!(*c.get_tree(ContainerLayer::HalfFocalized), 3);
    c.set_current(ContainerLayer::Focalized);
    assert_eq!(*c.tree(), 2);
    *c.tree_mut() = 20;
    assert_eq!(*c.get_tree(ContainerLayer::Focalized), 20);
    *c.get_tree_mut(ContainerLayer::Normal) = 10;
    assert_eq!(*c.get_tree(ContainerLayer::Normal), 10);
    assert_eq!(c.current(), ContainerLayer::Focalized);
}

#[test]
fn inactive_containers_lookup() {
    let mut m: ContainerMap<ContainerKey, (u32, u128)> = ContainerMap::new();
    m.push(key(1, "A", ContainerLayer::Focalized), (10, 0));
    m.push(key(1, "A", ContainerLayer::Normal), (11, 0));
    m.push(key(1, "A", ContainerLayer::Normal), (12, 0));
    m.push(key(2, "B", ContainerLayer::Normal), (20, 0));
    assert_eq!(m.len(), 4);
    let base = key(1, "A", ContainerLayer::HalfFocalized);
    assert_eq!(*m.get_normal(&base).unwrap(), 11);
    let missing = key(3, "A", ContainerLayer::Normal);
    assert_eq!(m.get_normal(&missing).err(), Some(TilesManagerError::ContainerNotFound { refresh: false }));
    assert!(InactiveContainers::has_vd(&m, 2));
    assert!(!InactiveContainers::has_vd(&m, 9));
    assert!(ContainersMap::has_vd(&m, 1));
}

#[test]
fn latest_keys_pick_latest_per_monitor() {
    let entries = vec![
        (key(1, "A", ContainerLayer::Normal), 5),
        (key(1, "B", ContainerLayer::Normal), 7),
        (key(1, "A", ContainerLayer::Focalized), 9),
        (key(2, "A", ContainerLayer::Normal), 50),
        (key(1, "B", ContainerLayer::Focalized), 7),
        (key(1, "A", ContainerLayer::Normal), 9),
    ];
    assert_eq!(latest_keys(&entries, 1, None), vec![2, 1]);
    assert_eq!(latest_keys(&entries, 1, Some(ContainerLayer::Normal)), vec![5, 1]);
    assert_eq!(latest_keys(&entries, 3, None), Vec::<usize>::new());
}

#[test]
fn active_key_conversions() {
    let k = ContainerKey::focalized(7, "MONITOR2".to_string());
    let a = ActiveContainerKey::from(k);
    assert_eq!(a.vd, 7);
    assert_eq!(a.monitor, "MONITOR2");
    let back = ContainerKey::from(a);
    assert_eq!(back.vd, 7);
    assert_eq!(back.monitor, "MONITOR2");
    assert_eq!(back.layer, ContainerLayer::Normal);
}

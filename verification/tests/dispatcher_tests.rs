use mondrian::dispatcher::EventRegistry;
use mondrian::events::WindowsEventManager;

fn sorted(mut v: Vec<u32>) -> Vec<u32> {
    v.sort();
    v
}

#[test]
fn added_handlers_get_increasing_keys() {
    let mut r = EventRegistry::new();
    let (k0, hooks0) = r.add(&Some(vec![3, 5]));
    let (k1, hooks1) = r.add(&Some(vec![5, 7]));
    assert_eq!(k0, 0);
    assert_eq!(k1, 1);
    assert_eq!(hooks0, vec![(3, true), (5, true)]);
    assert_eq!(hooks1, vec![(5, false), (7, true)]);
}

#[test]
fn repeated_event_keeps_the_first_hook() {
    let mut r = EventRegistry::new();
    let (_, hooks) = r.add(&Some(vec![4, 4]));
    assert_eq!(hooks, vec![(4, true), (4, false)]);
}

#[test]
fn handler_of_all_events_uses_event_zero() {
    let mut r = EventRegistry::new();
    let (k, hooks) = r.add(&None);
    assert_eq!(hooks, vec![(0, true)]);
    let (specific, rest) = r.dispatch(9);
    assert!(specific.is_empty());
    assert_eq!(rest, vec![k]);
}

#[test]
fn dispatch_lists_specific_then_general_handlers() {
    let mut r = EventRegistry::new();
    let (a, _) = r.add(&Some(vec![1, 2]));
    let (b, _) = r.add(&Some(vec![2]));
    let (c, _) = r.add(&None);
    let (specific, general) = r.dispatch(2);
    assert_eq!(sorted(specific), vec![a, b]);
    assert_eq!(general, vec![c]);
    let (specific, general) = r.dispatch(1);
    assert_eq!(specific, vec![a]);
    assert_eq!(general, vec![c]);
    let (specific, _) = r.dispatch(42);
    assert!(specific.is_empty());
}

#[test]
fn removing_the_last_handler_of_an_event_unhooks_it() {
    let mut r = EventRegistry::new();
    let (a, _) = r.add(&Some(vec![1, 2]));
    let (b, _) = r.add(&Some(vec![2, 3]));
    assert_eq!(r.remove(a, &Some(vec![1, 2])), vec![1]);
    let (specific, _) = r.dispatch(2);
    assert_eq!(specific, vec![b]);
    assert!(r.dispatch(1).0.is_empty());
    assert_eq!(sorted(r.remove(b, &Some(vec![2, 3]))), vec![2, 3]);
    assert!(r.dispatch(2).0.is_empty());
}

#[test]
fn removing_an_unknown_key_changes_nothing() {
    let mut r = EventRegistry::new();
    let (a, _) = r.add(&Some(vec![1]));
    assert!(r.remove(a + 1, &Some(vec![1])).is_empty());
    assert_eq!(r.dispatch(1).0, vec![a]);
    assert_eq!(r.remove(a, &Some(vec![1])), vec![1]);
    assert!(r.remove(a, &Some(vec![1])).is_empty());
}

#[test]
fn add_then_remove_restores_the_hooks() {
    let mut r = EventRegistry::new();
    let (a, _) = r.add(&Some(vec![1]));
    let (b, hooks) = r.add(&Some(vec![1, 2]));
    assert_eq!(hooks, vec![(1, false), (2, true)]);
    assert_eq!(r.remove(b, &Some(vec![1, 2])), vec![2]);
    assert_eq!(r.dispatch(1).0, vec![a]);
    let (_, hooks) = r.add(&Some(vec![2]));
    assert_eq!(hooks, vec![(2, true)]);
}

#[test]
fn removed_handler_is_not_dispatched_even_if_it_reports_other_events() {
    let mut r = EventRegistry::new();
    let (a, _) = r.add(&Some(vec![1, 2]));
    assert!(r.remove(a, &Some(vec![3])).is_empty());
    assert!(r.dispatch(1).0.is_empty());
    assert!(r.dispatch(2).0.is_empty());
}

#[test]
fn event_manager_returns_hooked_keys_in_order() {
    let mut m = WindowsEventManager::new();
    m.hook(4);
    m.hook(2);
    m.hook(9);
    assert_eq!(m.unhook_all(), vec![4, 2, 9]);
    assert!(m.unhook_all().is_empty());
}

#[test]
fn fresh_handler_is_dispatched_once() {
    let mut r = EventRegistry::new();
    let (_, _) = r.add(&None);
    let (k, _) = r.add(&Some(vec![9]));
    let (specific, all) = r.dispatch(9);
    assert_eq!(specific.iter().filter(|x| **x == k).count(), 1);
    assert_eq!(all.iter().filter(|x| **x == k).count(), 0);
    let (specific, all) = r.dispatch(4);
    assert!(!specific.contains(&k));
    assert!(!all.contains(&k));
}

use std::collections::HashMap;

use benilla::parked::{Parked, Realized};

/// A stand-in for the asset store: reserved ids and the values it holds.
#[derive(Default)]
struct Store {
    next: u64,
    held: HashMap<u64, u8>,
}

impl Store {
    fn reserve(&mut self) -> u64 {
        self.next += 1;
        self.next
    }
    fn contains(&self, id: u64) -> bool {
        self.held.contains_key(&id)
    }
}

struct Stub(u8);

fn defer(parked: &mut Parked<Stub>, store: &mut Store, v: u8) -> u64 {
    let id = store.reserve();
    parked.defer(id, Stub(v));
    id
}

fn realize(parked: &mut Parked<Stub>, store: &mut Store, id: u64) -> bool {
    match parked.realize(id, store.contains(id)) {
        Realized::InStore => true,
        Realized::Unknown => false,
        Realized::Insert(a) => {
            store.held.insert(id, a.0);
            true
        }
    }
}

fn realize_visible(parked: &mut Parked<Stub>, store: &mut Store, bound: &[(u64, Option<bool>)]) {
    let walk: Vec<(u64, Option<bool>, bool)> =
        bound.iter().map(|(id, v)| (*id, *v, store.contains(*id))).collect();
    for (id, a) in parked.realize_visible(&walk) {
        store.held.insert(id, a.0);
    }
}

#[test]
fn deferred_asset_is_absent_until_realized() {
    let mut store = Store::default();
    let mut parked = Parked::new();
    let handle = defer(&mut parked, &mut store, 1);
    assert!(!store.contains(handle));
    assert_eq!(parked.len(), 1);
    assert!(realize(&mut parked, &mut store, handle));
    assert_eq!(store.held.get(&handle).copied(), Some(1));
    assert!(parked.is_empty());
    // Realizing again is a no-op that still reports the asset present.
    assert!(realize(&mut parked, &mut store, handle));
    // An id nobody parked and the store lacks: false, nothing inserted.
    let stray = store.reserve();
    assert!(!realize(&mut parked, &mut store, stray));
    assert!(!store.contains(stray));
}

#[test]
fn bound_and_visible_realizes_in_the_walk_hidden_does_not() {
    let mut store = Store::default();
    let mut parked = Parked::new();
    let shown = defer(&mut parked, &mut store, 1);
    let hidden = defer(&mut parked, &mut store, 2);
    let unlaned = defer(&mut parked, &mut store, 3);
    realize_visible(
        &mut parked,
        &mut store,
        &[(shown, Some(true)), (hidden, Some(false)), (unlaned, None)],
    );
    assert!(store.contains(shown), "visible ⇒ realized");
    assert!(!store.contains(hidden), "hidden ⇒ still parked");
    assert!(store.contains(unlaned), "no visibility lane ⇒ bound is enough");
    assert_eq!(parked.len(), 1);
    parked.purge(hidden);
    assert!(parked.is_empty(), "the store's unused report drops the parked value");
}

#[test]
fn realize_all_empties_the_table_and_hands_back_every_value() {
    let mut store = Store::default();
    let mut parked = Parked::new();
    let a = defer(&mut parked, &mut store, 7);
    let b = defer(&mut parked, &mut store, 8);
    let mut all: Vec<(u64, u8)> = parked.realize_all().into_iter().map(|(id, s)| (id, s.0)).collect();
    all.sort();
    assert_eq!(all, vec![(a, 7), (b, 8)]);
    assert!(parked.is_empty());
}

#[test]
fn a_binding_seen_twice_takes_its_value_once() {
    let mut store = Store::default();
    let mut parked = Parked::new();
    let a = defer(&mut parked, &mut store, 5);
    let walk = vec![(a, Some(true), false), (a, Some(true), false)];
    let taken: Vec<u64> = parked.realize_visible(&walk).into_iter().map(|(id, _)| id).collect();
    assert_eq!(taken, vec![a]);
    assert!(parked.is_empty());
}

#[test]
fn an_asset_already_in_the_store_keeps_its_parked_value() {
    let mut parked: Parked<Stub> = Parked::new();
    parked.defer(4, Stub(1));
    assert!(matches!(parked.realize(4, true), Realized::InStore));
    assert_eq!(parked.len(), 1);
    let taken = parked.realize_visible(&[(4, None, true)]);
    assert!(taken.is_empty());
    assert_eq!(parked.len(), 1);
}

#[test]
fn deferring_an_id_again_replaces_its_value() {
    let mut parked: Parked<Stub> = Parked::new();
    parked.defer(9, Stub(1));
    parked.defer(9, Stub(2));
    assert_eq!(parked.len(), 1);
    match parked.realize(9, false) {
        Realized::Insert(s) => assert_eq!(s.0, 2),
        _ => panic!("the parked value should come back"),
    }
}

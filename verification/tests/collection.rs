use balloon_sim::collection::{Collection, HasId};
use balloon_sim::config::Color;
use balloon_sim::fixed::Fixed;
use balloon_sim::id::{Id, IdGenerator};
use balloon_sim::model::Balloon;
use balloon_sim::vec2::Vec2;

fn balloon(id: Id, x: i64) -> Balloon {
    Balloon {
        id,
        mass: Fixed::from_int(1),
        position: Vec2::new(Fixed::from_int(x), Fixed::zero()),
        velocity: Vec2::zero(),
        radius: Fixed::from_raw(250_000),
        length: Fixed::from_int(1),
        drag: Fixed::zero(),
        color: Color { r: 255, g: 0, b: 0, a: 255 },
        attached_to_player: false,
        popped: false,
    }
}

#[test]
fn identifiers_count_up_from_zero() {
    let mut ids = IdGenerator::new();
    assert_eq!(ids.remaining(), u64::MAX);
    let a = ids.gen();
    let b = ids.gen();
    let c = ids.gen();
    assert_eq!(a.raw(), 0);
    assert_eq!(b.raw(), 1);
    assert_eq!(c.raw(), 2);
    assert_ne!(a, b);
    assert!(a < b && b < c);
    assert_eq!(ids.remaining(), u64::MAX - 3);
}

#[test]
fn the_default_generator_is_a_new_one() {
    let mut ids = IdGenerator::default();
    assert_eq!(ids.gen().raw(), 0);
}

#[test]
fn a_new_collection_is_empty() {
    let c: Collection<Balloon> = Collection::new();
    assert_eq!(c.len(), 0);
    assert!(c.is_empty());
    assert!(c.ids().is_empty());
}

#[test]
fn entities_keep_the_order_of_insertion() {
    let mut ids = IdGenerator::new();
    let (a, b, c) = (ids.gen(), ids.gen(), ids.gen());
    let mut all = Collection::new();
    all.insert(balloon(c, 30));
    all.insert(balloon(a, 10));
    all.insert(balloon(b, 20));
    assert_eq!(all.len(), 3);
    assert!(!all.is_empty());
    assert_eq!(all.ids(), vec![c, a, b]);
    assert_eq!(*all.at(0), balloon(c, 30));
    assert_eq!(*all.at(1), balloon(a, 10));
    assert_eq!(*all.at(2), balloon(b, 20));
    assert_eq!(all.at(1).id(), a);
}

#[test]
fn an_entity_is_found_by_its_identifier() {
    let mut ids = IdGenerator::new();
    let (a, b, c) = (ids.gen(), ids.gen(), ids.gen());
    let mut all = Collection::new();
    all.insert(balloon(a, 10));
    all.insert(balloon(b, 20));
    assert_eq!(all.get(&b), Some(&balloon(b, 20)));
    assert_eq!(all.get(&c), None);
    assert_eq!(all.position(&a), Some(0));
    assert_eq!(all.position(&b), Some(1));
    assert_eq!(all.position(&c), None);
}

#[test]
fn inserting_a_held_identifier_overwrites_in_place() {
    let mut ids = IdGenerator::new();
    let (a, b) = (ids.gen(), ids.gen());
    let mut all = Collection::new();
    all.insert(balloon(a, 10));
    all.insert(balloon(b, 20));
    all.insert(balloon(a, 99));
    assert_eq!(all.len(), 2);
    assert_eq!(all.ids(), vec![a, b]);
    assert_eq!(*all.at(0), balloon(a, 99));
}

#[test]
fn removing_returns_the_entity_and_closes_the_gap() {
    let mut ids = IdGenerator::new();
    let (a, b, c) = (ids.gen(), ids.gen(), ids.gen());
    let mut all = Collection::new();
    all.insert(balloon(a, 10));
    all.insert(balloon(b, 20));
    all.insert(balloon(c, 30));
    assert_eq!(all.remove(&b), Some(balloon(b, 20)));
    assert_eq!(all.remove(&b), None);
    assert_eq!(all.ids(), vec![a, c]);
    assert_eq!(all.len(), 2);
}

#[test]
fn a_changed_entity_takes_the_place_of_the_old_one() {
    let mut ids = IdGenerator::new();
    let (a, b) = (ids.gen(), ids.gen());
    let mut all = Collection::new();
    all.insert(balloon(a, 10));
    all.insert(balloon(b, 20));
    let mut changed = *all.at(1);
    changed.popped = true;
    all.set(1, changed);
    assert!(all.at(1).popped);
    assert!(!all.at(0).popped);
    assert_eq!(all.ids(), vec![a, b]);
}

#[test]
fn retain_keeps_what_the_predicate_accepts_in_order() {
    let mut ids = IdGenerator::new();
    let mut all = Collection::new();
    let mut made = Vec::new();
    for x in 0..6 {
        let id = ids.gen();
        made.push(id);
        all.insert(balloon(id, x));
    }
    all.retain(|b: &Balloon| b.position.x.raw % 2_000_000 == 0);
    assert_eq!(all.ids(), vec![made[0], made[2], made[4]]);
    all.retain(|_: &Balloon| false);
    assert!(all.is_empty());
}

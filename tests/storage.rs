use room_ecs::entity::{Allocator, Entity};
use room_ecs::storage::{join, join_with, DenseStorage, NullStorage};

fn ent(index: usize, generation: u64) -> Entity {
    Entity { index, generation }
}

#[test]
fn get_and_remove_on_missing_component_are_absent() {
    let mut s: DenseStorage<u32> = DenseStorage::new();
    let e = ent(3, 0);
    assert_eq!(s.get(e), None);
    assert_eq!(s.remove(e), None);
    assert!(!s.contains(e));
    s.insert(ent(1, 0), 7);
    assert_eq!(s.get(e), None);
    assert_eq!(s.remove(e), None);
    assert_eq!(s.get(ent(1, 0)), Some(&7));
}

#[test]
fn insert_overwrites_and_remove_is_idempotent() {
    let mut s: DenseStorage<u32> = DenseStorage::new();
    let e = ent(2, 5);
    s.insert(e, 1);
    s.insert(e, 2);
    assert_eq!(s.get(e), Some(&2));
    assert_eq!(s.remove(e), Some(2));
    assert_eq!(s.remove(e), None);
    assert_eq!(s.get(e), None);
}

#[test]
fn stale_generation_reads_as_absent() {
    let mut s: DenseStorage<char> = DenseStorage::new();
    s.insert(ent(0, 1), 'a');
    assert_eq!(s.get(ent(0, 0)), None);
    assert_eq!(s.remove(ent(0, 0)), None);
    assert_eq!(s.get(ent(0, 1)), Some(&'a'));
    s.insert(ent(0, 2), 'b');
    assert_eq!(s.get(ent(0, 1)), None);
    assert_eq!(s.get(ent(0, 2)), Some(&'b'));
}

#[test]
fn null_storage_marks_presence_only() {
    let mut s = NullStorage::new();
    let e = ent(4, 0);
    assert!(!s.contains(e));
    assert!(!s.remove(e));
    s.insert(e);
    assert!(s.contains(e));
    assert!(!s.contains(ent(4, 1)));
    assert!(s.remove(e));
    assert!(!s.contains(e));
}

#[test]
fn join_yields_entities_in_both() {
    let mut a: DenseStorage<u32> = DenseStorage::new();
    let mut b: DenseStorage<char> = DenseStorage::new();
    a.insert(ent(0, 0), 10);
    a.insert(ent(2, 0), 12);
    a.insert(ent(5, 1), 15);
    a.insert(ent(6, 0), 16);
    b.insert(ent(2, 0), 'x');
    b.insert(ent(5, 1), 'y');
    b.insert(ent(6, 1), 'z');
    b.insert(ent(9, 0), 'w');
    let r = join(&a, &b);
    assert_eq!(r, vec![ent(2, 0), ent(5, 1)]);
}

#[test]
fn join_with_empty_storage_is_empty() {
    let mut a: DenseStorage<u32> = DenseStorage::new();
    let empty: DenseStorage<u32> = DenseStorage::new();
    a.insert(ent(0, 0), 1);
    a.insert(ent(1, 0), 2);
    assert!(join(&a, &empty).is_empty());
    assert!(join(&empty, &a).is_empty());
}

#[test]
fn allocator_recycles_slots_with_new_generation() {
    let mut al = Allocator::new();
    let a = al.create();
    let b = al.create();
    assert_eq!(a, ent(0, 0));
    assert_eq!(b, ent(1, 0));
    assert!(al.delete(a));
    assert!(!al.delete(a));
    assert!(!al.is_alive(a));
    let c = al.create();
    assert_eq!(c, ent(0, 1));
    assert!(al.is_alive(c));
    assert!(!al.is_alive(a));
    assert!(al.is_alive(b));
}

#[test]
fn join_with_narrows_to_entities_in_all_storages() {
    let mut a: DenseStorage<u32> = DenseStorage::new();
    let mut b: DenseStorage<u32> = DenseStorage::new();
    let mut c: DenseStorage<u32> = DenseStorage::new();
    for i in 0..6 {
        a.insert(ent(i, 0), i as u32);
        b.insert(ent(i, 0), i as u32);
    }
    c.insert(ent(1, 0), 0);
    c.insert(ent(4, 0), 0);
    c.insert(ent(5, 3), 0);
    c.insert(ent(8, 0), 0);
    let ab = join(&a, &b);
    assert_eq!(join_with(&ab, &c), vec![ent(1, 0), ent(4, 0)]);
    let empty: DenseStorage<u32> = DenseStorage::new();
    assert!(join_with(&ab, &empty).is_empty());
}

use room_ecs::components::{floor_cell, Position, Printable};
use room_ecs::grid::{Furniture, TileGrid};
use room_ecs::room::Room;
use room_ecs::system::{render, Dispatcher, Frame, System};
use room_ecs::world::{EntityBuilder, World};

fn pos(x: f32, y: f32) -> Position {
    Position::new((x * 1000.0).round() as i64, (y * 1000.0).round() as i64)
}

fn lines(f: &Frame) -> Vec<String> {
    f.rows().iter().map(|r| r.iter().collect::<String>()).collect()
}

fn printer() -> Dispatcher {
    Dispatcher::new().with(System::Print)
}

#[test]
fn glyphs_of_tiles() {
    assert_eq!(Furniture::Empty.to_char(), '\u{b7}');
    assert_eq!(Furniture::Table.to_char(), 'T');
    assert_eq!(Furniture::Chair.to_char(), 'L');
}

#[test]
fn floor_of_coordinates() {
    assert_eq!(floor_cell(1500), 1);
    assert_eq!(floor_cell(0), 0);
    assert_eq!(floor_cell(999), 0);
    assert_eq!(floor_cell(-100), -1);
    assert_eq!(floor_cell(-1000), -1);
    assert_eq!(floor_cell(-1001), -2);
    assert_eq!(pos(10.0, 0.0).cell(), (10, 0));
}

#[test]
fn put_then_read_round_trips() {
    let d = printer();
    let mut room = Room::new(10, 8, &d);
    room.put(Furniture::Table, 2, 4);
    let g = room.world.grid().unwrap();
    assert_eq!(g.dim(), (10, 8));
    for x in 0..10 {
        for y in 0..8 {
            let want = if x == 2 && y == 4 { Furniture::Table } else { Furniture::Empty };
            assert_eq!(g.get(x, y), want);
        }
    }
    assert_eq!(room.dim(), Some((10, 8)));
}

#[test]
fn empty_room_frame() {
    let d = printer();
    let room = Room::new(10, 8, &d);
    let frames = d.dispatch(&room.world);
    assert_eq!(frames.len(), 1);
    let l = lines(&frames[0]);
    assert_eq!(l.len(), 8);
    for line in l {
        assert_eq!(line, "\u{b7}".repeat(10));
    }
}

#[test]
fn entity_drawn_at_floored_cell() {
    let d = printer();
    let mut room = Room::new(10, 8, &d);
    room.world.build_entity(
        EntityBuilder::new().with_position(pos(1.5, 0.0)).with_printable(Printable::new('P')),
    );
    let frames = d.dispatch(&room.world);
    let l = lines(&frames[0]);
    assert_eq!(l.len(), 8);
    assert_eq!(l[0], "\u{b7}P\u{b7}\u{b7}\u{b7}\u{b7}\u{b7}\u{b7}\u{b7}\u{b7}");
    for line in &l[1..] {
        assert_eq!(*line, "\u{b7}".repeat(10));
    }
}

#[test]
fn table_drawn_in_its_row() {
    let d = printer();
    let mut room = Room::new(10, 8, &d);
    room.put(Furniture::Table, 2, 4);
    let frames = d.dispatch(&room.world);
    let l = lines(&frames[0]);
    assert_eq!(l[4], "\u{b7}\u{b7}T\u{b7}\u{b7}\u{b7}\u{b7}\u{b7}\u{b7}\u{b7}");
    assert_eq!(l[3], "\u{b7}".repeat(10));
}

#[test]
fn entity_outside_grid_is_not_drawn() {
    let d = printer();
    let mut room = Room::new(10, 8, &d);
    room.world.build_entity(
        EntityBuilder::new().with_position(pos(-0.1, 0.0)).with_printable(Printable::new('A')),
    );
    room.world.build_entity(
        EntityBuilder::new().with_position(pos(10.0, 0.0)).with_printable(Printable::new('B')),
    );
    let frames = d.dispatch(&room.world);
    let l = lines(&frames[0]);
    assert_eq!(l.len(), 8);
    for line in l {
        assert_eq!(line, "\u{b7}".repeat(10));
    }
}

#[test]
fn entity_glyph_covers_tile_and_later_entity_wins() {
    let d = printer();
    let mut room = Room::new(4, 2, &d);
    room.put(Furniture::Chair, 3, 1);
    room.put(Furniture::Table, 0, 0);
    room.world.build_entity(
        EntityBuilder::new().with_position(pos(3.2, 1.9)).with_printable(Printable::new('a')),
    );
    room.world.build_entity(
        EntityBuilder::new().with_position(pos(3.7, 1.1)).with_printable(Printable::new('b')),
    );
    room.world.build_entity(EntityBuilder::new().with_position(pos(1.0, 0.0)));
    room.world.build_entity(EntityBuilder::new().with_printable(Printable::new('z')));
    let f = render(&room.world);
    assert_eq!(lines(&f), vec!["T\u{b7}\u{b7}\u{b7}".to_string(), "\u{b7}\u{b7}\u{b7}b".to_string()]);
}

#[test]
fn deleted_entity_handle_stays_absent() {
    let mut w = World::new();
    let e = w.build_entity(
        EntityBuilder::new().with_position(pos(1.0, 1.0)).with_printable(Printable::new('x')).with_player(),
    );
    assert!(w.is_player(e));
    assert!(w.delete_entity(e));
    assert!(!w.delete_entity(e));
    let n = w.build_entity(EntityBuilder::new().with_position(pos(2.0, 2.0)));
    assert_eq!(n.index, e.index);
    assert_ne!(n, e);
    assert_eq!(w.position(e), None);
    assert_eq!(w.printable(e), None);
    assert!(!w.is_player(e));
    assert!(!w.insert_position(e, pos(0.0, 0.0)));
    assert_eq!(w.position(n), Some(pos(2.0, 2.0)));
    assert!(w.is_alive(n));
    assert!(!w.is_alive(e));
}

#[test]
fn world_components_attach_and_detach() {
    let mut w = World::new();
    let e = w.build_entity(EntityBuilder::new());
    assert_eq!(w.position(e), None);
    assert_eq!(w.remove_position(e), None);
    assert!(w.insert_position(e, pos(0.5, 0.5)));
    assert!(w.insert_printable(e, Printable::new('q')));
    assert!(w.insert_player(e));
    assert_eq!(w.drawn_entities(), vec![e]);
    assert_eq!(w.remove_position(e), Some(pos(0.5, 0.5)));
    assert_eq!(w.remove_printable(e), Some(Printable::new('q')));
    assert!(w.remove_player(e));
    assert!(!w.remove_player(e));
    assert!(w.drawn_entities().is_empty());
}

#[test]
fn setup_registers_default_grid_only_when_needed() {
    let mut w = World::new();
    Dispatcher::new().setup(&mut w);
    assert!(!w.has_grid());
    assert!(render(&w).rows().is_empty());
    printer().setup(&mut w);
    assert_eq!(w.grid().unwrap().dim(), (0, 0));
    w.insert_grid(TileGrid::new(3, 1));
    printer().setup(&mut w);
    assert_eq!(w.grid().unwrap().dim(), (3, 1));
    let d = printer().with(System::Print);
    let frames = d.dispatch(&w);
    assert_eq!(frames.len(), 2);
    assert_eq!(lines(&frames[1]), vec!["\u{b7}\u{b7}\u{b7}".to_string()]);
}

#[test]
fn rebuilt_slot_shows_only_new_glyph() {
    let d = printer();
    let mut room = Room::new(10, 8, &d);
    let e = room.world.build_entity(
        EntityBuilder::new().with_position(pos(1.5, 0.0)).with_printable(Printable::new('P')),
    );
    assert!(room.world.delete_entity(e));
    let e2 = room.world.build_entity(
        EntityBuilder::new().with_position(pos(3.5, 0.0)).with_printable(Printable::new('Q')),
    );
    assert_eq!(e2.index, e.index);
    assert!(!room.world.insert_printable(e, Printable::new('X')));
    let l = lines(&d.dispatch(&room.world)[0]);
    assert_eq!(l[0], "\u{b7}\u{b7}\u{b7}Q\u{b7}\u{b7}\u{b7}\u{b7}\u{b7}\u{b7}");
    for line in &l[1..] {
        assert_eq!(*line, "\u{b7}".repeat(10));
    }
}

#[test]
fn entity_without_glyph_is_not_drawn() {
    let d = printer();
    let mut room = Room::new(10, 8, &d);
    let e = room.world.build_entity(EntityBuilder::new().with_position(pos(1.5, 0.0)));
    assert_eq!(room.world.remove_printable(e), None);
    let l = lines(&d.dispatch(&room.world)[0]);
    assert_eq!(l, vec!["\u{b7}".repeat(10); 8]);
}

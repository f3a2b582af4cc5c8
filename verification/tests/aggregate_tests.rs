use plant_core::aggregate::{Room, SharedAggregateStore};
use plant_core::models::{Plant, DEFAULT_HUMIDITY_BITS};

fn plant(name: &str, humidity: u32) -> Plant {
    Plant {
        id: String::new(),
        name: String::from(name),
        humidity,
        care: None,
        target_humidity: DEFAULT_HUMIDITY_BITS,
    }
}

#[test]
fn add_room_returns_post_mutation_snapshot() {
    let mut store = SharedAggregateStore::new();
    let snap = store.add_room(Room { name: String::from("Kitchen"), plants: vec![] });
    assert_eq!(snap.len(), 1);
    assert_eq!(snap[0].name, "Kitchen");
    assert!(snap[0].plants.is_empty());
}

#[test]
fn scenario_kitchen_then_missing_basil_update() {
    let mut store = SharedAggregateStore::new();
    store.add_room(Room { name: String::from("Kitchen"), plants: vec![] });
    let before = store.snapshot();

    let name = String::from("Basil");
    let after = store.update_humidity_by_name(&name, 0.9f32.to_bits());

    assert_eq!(after, before);
    assert_eq!(after.len(), 1);
    assert_eq!(after[0].name, "Kitchen");
    assert!(after[0].plants.is_empty());
}

#[test]
fn missing_name_update_is_byte_for_byte_noop() {
    let mut store = SharedAggregateStore::new();
    store.add_room(Room {
        name: String::from("Study"),
        plants: vec![plant("Fern", DEFAULT_HUMIDITY_BITS), plant("Moss", 0.3f32.to_bits())],
    });
    let before = store.snapshot();

    let name = String::from("Basil");
    let after = store.update_humidity_by_name(&name, 0.9f32.to_bits());

    assert_eq!(after, before);
}

#[test]
fn update_hits_first_match_in_room_then_plant_order() {
    let mut store = SharedAggregateStore::new();
    store.add_room(Room {
        name: String::from("Hall"),
        plants: vec![plant("Moss", DEFAULT_HUMIDITY_BITS)],
    });
    store.add_room(Room {
        name: String::from("Study"),
        plants: vec![plant("Basil", DEFAULT_HUMIDITY_BITS), plant("Basil", DEFAULT_HUMIDITY_BITS)],
    });
    store.add_room(Room {
        name: String::from("Porch"),
        plants: vec![plant("Basil", DEFAULT_HUMIDITY_BITS)],
    });

    let name = String::from("Basil");
    let snap = store.update_humidity_by_name(&name, 0.9f32.to_bits());

    // Only the first matching plant of the first matching room changed.
    assert_eq!(snap[0].plants[0].humidity, DEFAULT_HUMIDITY_BITS);
    assert_eq!(snap[1].plants[0].humidity, 0.9f32.to_bits());
    assert_eq!(snap[1].plants[1].humidity, DEFAULT_HUMIDITY_BITS);
    assert_eq!(snap[2].plants[0].humidity, DEFAULT_HUMIDITY_BITS);
}

#[test]
fn update_changes_only_the_humidity_field() {
    let mut store = SharedAggregateStore::new();
    let mut fern = plant("Fern", DEFAULT_HUMIDITY_BITS);
    fern.care = Some(String::from("keep shaded"));
    store.add_room(Room { name: String::from("Study"), plants: vec![fern] });

    let name = String::from("Fern");
    let snap = store.update_humidity_by_name(&name, 0.8f32.to_bits());

    let updated = &snap[0].plants[0];
    assert_eq!(updated.humidity, 0.8f32.to_bits());
    assert_eq!(updated.name, "Fern");
    assert_eq!(updated.care, Some(String::from("keep shaded")));
    assert_eq!(updated.target_humidity, DEFAULT_HUMIDITY_BITS);
}

#[test]
fn interleaved_histories_agree_with_their_serial_order() {
    // Two callers, each one add and one update, serialized by the lock in
    // the order A1 B1 A2 B2: replaying the same four operations in that
    // serial order on a second store yields the identical final snapshot.
    let mut live = SharedAggregateStore::new();
    let basil = String::from("Basil");
    let moss = String::from("Moss");
    live.add_room(Room { name: String::from("Kitchen"), plants: vec![plant("Basil", 0)] });
    live.add_room(Room { name: String::from("Hall"), plants: vec![plant("Moss", 0)] });
    live.update_humidity_by_name(&basil, 0.9f32.to_bits());
    let final_live = live.update_humidity_by_name(&moss, 0.4f32.to_bits());

    let mut replay = SharedAggregateStore::new();
    replay.add_room(Room { name: String::from("Kitchen"), plants: vec![plant("Basil", 0)] });
    replay.add_room(Room { name: String::from("Hall"), plants: vec![plant("Moss", 0)] });
    replay.update_humidity_by_name(&basil, 0.9f32.to_bits());
    let final_replay = replay.update_humidity_by_name(&moss, 0.4f32.to_bits());

    assert_eq!(final_live, final_replay);
    assert_eq!(final_live[0].plants[0].humidity, 0.9f32.to_bits());
    assert_eq!(final_live[1].plants[0].humidity, 0.4f32.to_bits());
}

#[test]
fn snapshot_is_a_consistent_copy() {
    let mut store = SharedAggregateStore::new();
    store.add_room(Room { name: String::from("Kitchen"), plants: vec![plant("Basil", 0)] });
    let snap = store.snapshot();

    // Later mutations do not reach into an earlier snapshot.
    let basil = String::from("Basil");
    store.update_humidity_by_name(&basil, 0.9f32.to_bits());
    assert_eq!(snap[0].plants[0].humidity, 0);
}

#[test]
fn room_duplicate_copies_every_field() {
    let room = Room {
        name: String::from("Study"),
        plants: vec![plant("Fern", 0.25f32.to_bits()), plant("Moss", 0.75f32.to_bits())],
    };
    let copy = room.duplicate();
    assert_eq!(copy, room);
}

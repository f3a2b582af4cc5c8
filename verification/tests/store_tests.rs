use plant_core::models::{Plant, NewPlant, DEFAULT_HUMIDITY_BITS};
use plant_core::store::{
    find_plant_by_uid, insert_image_with_key, insert_new_plant, insert_new_plant_image,
    insert_plant_with_key, update_plant_humidity, BackendError, PlantStore,
};

#[test]
fn default_humidity_is_half() {
    assert_eq!(DEFAULT_HUMIDITY_BITS, 0.5f32.to_bits());
}

#[test]
fn new_plant_details_carry_the_name() {
    let form = NewPlant::new("Test plant");
    assert_eq!(form.name, "Test plant");
}

#[test]
fn scenario_insert_fern_then_fetch_identical() {
    let mut store = PlantStore::new();
    let plant = insert_new_plant(&mut store, "Fern").expect("insert into empty store");
    assert_eq!(plant.id.len(), 36);
    assert!(!plant.id.is_empty());
    assert_eq!(plant.name, "Fern");
    assert_eq!(f32::from_bits(plant.humidity), 0.5);
    assert_eq!(f32::from_bits(plant.target_humidity), 0.5);
    assert_eq!(plant.care, None);

    let fetched = find_plant_by_uid(&store, &plant.id)
        .expect("lookup cannot fail")
        .expect("plant was just inserted");
    assert_eq!(fetched, plant);
}

#[test]
fn scenario_fetch_never_inserted_key_is_none() {
    let store = PlantStore::new();
    let missing = String::from("no-such-key");
    let found = find_plant_by_uid(&store, &missing).expect("lookup cannot fail");
    assert_eq!(found, None);
}

#[test]
fn scenario_update_humidity_to_eight_tenths() {
    let mut store = PlantStore::new();
    let plant = insert_new_plant(&mut store, "Fern").expect("insert into empty store");

    update_plant_humidity(&mut store, &plant.id, 0.8f32.to_bits()).expect("update cannot fail");

    let fetched = find_plant_by_uid(&store, &plant.id)
        .expect("lookup cannot fail")
        .expect("plant is present");
    assert_eq!(f32::from_bits(fetched.humidity), 0.8);
    assert_eq!(fetched.id, plant.id);
    assert_eq!(fetched.name, plant.name);
    assert_eq!(fetched.care, plant.care);
    assert_eq!(fetched.target_humidity, plant.target_humidity);
}

#[test]
fn same_name_twice_yields_distinct_keys() {
    let mut store = PlantStore::new();
    let first = insert_new_plant(&mut store, "Basil").expect("insert into empty store");
    let second = insert_new_plant(&mut store, "Basil").expect("fresh key expected");
    assert_ne!(first.id, second.id);

    let refetched_first = find_plant_by_uid(&store, &first.id)
        .expect("lookup cannot fail")
        .expect("first is present");
    assert_eq!(refetched_first, first);
    let refetched_second = find_plant_by_uid(&store, &second.id)
        .expect("lookup cannot fail")
        .expect("second is present");
    assert_eq!(refetched_second, second);
}

#[test]
fn duplicate_key_is_rejected_and_store_unchanged() {
    let mut store = PlantStore::new();
    let key = String::from("fixed-key");
    let original =
        insert_plant_with_key(&mut store, key.clone(), "Fern").expect("key not yet present");

    let clash = insert_plant_with_key(&mut store, key.clone(), "Moss");
    assert_eq!(clash, Err(BackendError::DuplicateKey));

    let fetched = find_plant_by_uid(&store, &key)
        .expect("lookup cannot fail")
        .expect("original is present");
    assert_eq!(fetched, original);
}

#[test]
fn update_of_missing_key_is_silent_noop() {
    let mut store = PlantStore::new();
    let plant = insert_new_plant(&mut store, "Fern").expect("insert into empty store");

    let missing = String::from("no-such-key");
    update_plant_humidity(&mut store, &missing, 0.9f32.to_bits()).expect("no-op success");

    let fetched = find_plant_by_uid(&store, &plant.id)
        .expect("lookup cannot fail")
        .expect("plant is present");
    assert_eq!(fetched, plant);
    let still_missing = find_plant_by_uid(&store, &missing).expect("lookup cannot fail");
    assert_eq!(still_missing, None);
}

#[test]
fn insert_image_records_url_and_reference() {
    let mut store = PlantStore::new();
    let plant = insert_new_plant(&mut store, "Fern").expect("insert into empty store");

    let image = insert_new_plant_image(&mut store, "http://example.test/fern.png", &plant.id)
        .expect("fresh key expected");
    assert_eq!(image.id.len(), 36);
    assert_eq!(image.url, "http://example.test/fern.png");
    assert_eq!(image.plant_id, plant.id);
}

#[test]
fn image_reference_is_advisory_only() {
    let mut store = PlantStore::new();
    let image = insert_new_plant_image(&mut store, "http://example.test/x.png", "dangling")
        .expect("no referential constraint");
    assert_eq!(image.plant_id, "dangling");
}

#[test]
fn duplicate_image_key_is_rejected() {
    let mut store = PlantStore::new();
    let key = String::from("image-key");
    insert_image_with_key(&mut store, key.clone(), "http://example.test/a.png", "p1")
        .expect("key not yet present");
    let clash = insert_image_with_key(&mut store, key, "http://example.test/b.png", "p2");
    assert_eq!(clash, Err(BackendError::DuplicateKey));
}

#[test]
fn fresh_keys_differ_between_insertions() {
    let mut store = PlantStore::new();
    let mut keys = Vec::new();
    for _ in 0..10 {
        let plant = insert_new_plant(&mut store, "Fern").expect("fresh key expected");
        assert_eq!(plant.id.len(), 36);
        keys.push(plant.id);
    }
    for i in 0..keys.len() {
        for j in (i + 1)..keys.len() {
            assert_ne!(keys[i], keys[j]);
        }
    }
}

#[test]
fn duplicate_copies_every_field() {
    let plant = Plant {
        id: String::from("id-1"),
        name: String::from("Fern"),
        humidity: 0.25f32.to_bits(),
        care: Some(String::from("mist daily")),
        target_humidity: 0.75f32.to_bits(),
    };
    let copy = plant.duplicate();
    assert_eq!(copy, plant);
}

use plant_core::access::{
    find_plant_with_pooled_handle, insert_plant_with_pooled_handle,
    update_humidity_with_pooled_handle, AccessError,
};
use plant_core::pool::{PoolError, ResourcePool};
use plant_core::store::PlantStore;

#[test]
fn pooled_operations_never_leak_a_handle() {
    // With a single slot, every operation must have returned its handle,
    // or the next one could not succeed.
    let mut pool = ResourcePool::new(1);
    let mut store = PlantStore::new();

    let plant = insert_plant_with_pooled_handle(&mut pool, &mut store, "Fern")
        .expect("slot free, store empty");
    update_humidity_with_pooled_handle(&mut pool, &mut store, &plant.id, 0.8f32.to_bits())
        .expect("slot free again");
    let fetched = find_plant_with_pooled_handle(&mut pool, &store, &plant.id)
        .expect("slot free again")
        .expect("plant present");
    assert_eq!(fetched.humidity, 0.8f32.to_bits());

    // The slot is still free afterwards.
    assert!(pool.acquire().is_ok());
}

#[test]
fn exhausted_pool_fails_before_touching_the_store() {
    let mut pool = ResourcePool::new(1);
    let _held = pool.acquire().expect("slot free");
    let mut store = PlantStore::new();

    let denied = insert_plant_with_pooled_handle(&mut pool, &mut store, "Fern");
    assert_eq!(
        denied,
        Err(AccessError::Pool(PoolError::ExhaustedOrBackendUnavailable))
    );

    // The store was never written.
    let missing = String::from("anything");
    let found = find_plant_with_pooled_handle(&mut ResourcePool::new(1), &store, &missing)
        .expect("fresh pool has a free slot");
    assert_eq!(found, None);
}

#[test]
fn pool_and_data_failures_stay_distinct() {
    let mut pool = ResourcePool::new(2);
    let mut store = PlantStore::new();
    let _held = pool.acquire().expect("slot free");

    // One slot left: the operation itself succeeds.
    let ok = update_humidity_with_pooled_handle(
        &mut pool,
        &mut store,
        &String::from("missing"),
        0.1f32.to_bits(),
    );
    assert_eq!(ok, Ok(()));

    let _held2 = pool.acquire().expect("second slot free");
    // No slots left: the failure is a pool failure, not a data failure.
    let denied = update_humidity_with_pooled_handle(
        &mut pool,
        &mut store,
        &String::from("missing"),
        0.1f32.to_bits(),
    );
    assert!(matches!(denied, Err(AccessError::Pool(_))));
}

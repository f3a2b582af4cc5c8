//! Pooled access to the keyed store: one handle, one operation, then
//! release.
//!
//! Each function here checks a handle out of the [`ResourcePool`], performs
//! exactly one [`crate::store`] operation, and returns the handle before
//! handing the result back — on every exit path, so no failure can leak a
//! held resource. The pool's abstract state after any call equals its state
//! before it. A resource-level failure ([`AccessError::Pool`]) is kept
//! distinct from a data-level one ([`AccessError::Backend`]) so the caller
//! can decide whether to retry.

use vstd::prelude::*;
use crate::models::Plant;
use crate::pool::PoolError;
use crate::pool::ResourcePool;
use crate::store::BackendError;
use crate::store::PlantStore;
use crate::store::contains_fresh_shaped_key;
use crate::store::contains_id;
use crate::store::find_by_id;
use crate::store::find_plant_by_uid;
use crate::store::insert_new_plant;
use crate::store::update_humidity_in;
use crate::store::update_plant_humidity;
use crate::models::DEFAULT_HUMIDITY_BITS;
use crate::models::PlantView;

verus! {

/// Failure of one pooled store access: a resource or scheduling problem,
/// or a data problem, never conflated.
#[derive(Debug, Clone, Copy, PartialEq, Eq)]
pub enum AccessError {
    /// No handle became available within policy; transient, retryable.
    Pool(PoolError),
    /// The store itself rejected the operation; propagated verbatim.
    Backend(BackendError),
}

/// Look up a plant through a pooled handle. The handle is acquired, used
/// for this one operation and released: the pool leaves the call exactly
/// as it entered it. Fails with a pool error exactly when no handle is
/// free.
pub fn find_plant_with_pooled_handle(pool: &mut ResourcePool, store: &PlantStore, uid: &String)
    -> (r: Result<Option<Plant>, AccessError>)
    ensures
        final(pool)@ == old(pool)@,
        match r {
            Ok(found) => {
                &&& !(forall|i: int| 0 <= i < old(pool)@.len() ==> old(pool)@[i])
                &&& match found {
                    Option::Some(p) => find_by_id(store@.plants, uid@) == Option::Some(p@),
                    Option::None => find_by_id(store@.plants, uid@) == Option::None::<PlantView>,
                }
            },
            Err(e) => {
                &&& e == AccessError::Pool(PoolError::ExhaustedOrBackendUnavailable)
                &&& forall|i: int| 0 <= i < old(pool)@.len() ==> old(pool)@[i]
            },
        },
{
    match pool.acquire() {
        Ok(handle) => {
            let found = match find_plant_by_uid(store, uid) {
                Ok(found) => found,
                Err(_) => {
                    proof {
                        assert(false);
                    }
                    Option::None
                },
            };
            proof {
                assert(old(pool)@.update(handle@, true).update(handle@, false) =~= old(pool)@);
            }
            pool.release(handle);
            Ok(found)
        },
        Err(e) => Err(AccessError::Pool(e)),
    }
}

/// Create a plant through a pooled handle, under the same one-handle,
/// one-operation discipline. Fails with a pool error exactly when no
/// handle is free (the store is then untouched), and passes the store's
/// own outcome through otherwise.
pub fn insert_plant_with_pooled_handle(pool: &mut ResourcePool, store: &mut PlantStore, nm: &str)
    -> (r: Result<Plant, AccessError>)
    requires
        old(store).wf(),
    ensures
        final(pool)@ == old(pool)@,
        final(store).wf(),
        final(store)@.images == old(store)@.images,
        match r {
            Ok(p) => {
                &&& p@.id.len() == 36
                &&& p@.name == nm@
                &&& p@.humidity == DEFAULT_HUMIDITY_BITS
                &&& p@.target_humidity == DEFAULT_HUMIDITY_BITS
                &&& p@.care == Option::None::<Seq<char>>
                &&& !contains_id(old(store)@.plants, p@.id)
                &&& final(store)@.plants == old(store)@.plants.push(p@)
            },
            Err(AccessError::Pool(e)) => {
                &&& e == PoolError::ExhaustedOrBackendUnavailable
                &&& forall|i: int| 0 <= i < old(pool)@.len() ==> old(pool)@[i]
                &&& final(store)@ == old(store)@
            },
            Err(AccessError::Backend(e)) => {
                &&& e == BackendError::DuplicateKey
                &&& final(store)@ == old(store)@
                &&& contains_fresh_shaped_key(old(store)@.plants)
            },
        },
{
    match pool.acquire() {
        Ok(handle) => {
            let outcome = insert_new_plant(store, nm);
            proof {
                assert(old(pool)@.update(handle@, true).update(handle@, false) =~= old(pool)@);
            }
            pool.release(handle);
            match outcome {
                Ok(p) => Ok(p),
                Err(e) => Err(AccessError::Backend(e)),
            }
        },
        Err(e) => Err(AccessError::Pool(e)),
    }
}

/// Update a plant's humidity through a pooled handle, under the same
/// one-handle, one-operation discipline. Fails with a pool error exactly
/// when no handle is free (the store is then untouched); otherwise the
/// store's field-scoped update — a silent no-op on a missing key — has
/// been applied.
pub fn update_humidity_with_pooled_handle(
    pool: &mut ResourcePool,
    store: &mut PlantStore,
    uid: &String,
    data: u32,
) -> (r: Result<(), AccessError>)
    requires
        old(store).wf(),
    ensures
        final(pool)@ == old(pool)@,
        final(store).wf(),
        final(store)@.images == old(store)@.images,
        match r {
            Ok(u) => {
                &&& !(forall|i: int| 0 <= i < old(pool)@.len() ==> old(pool)@[i])
                &&& final(store)@.plants == update_humidity_in(old(store)@.plants, uid@, data)
            },
            Err(e) => {
                &&& e == AccessError::Pool(PoolError::ExhaustedOrBackendUnavailable)
                &&& forall|i: int| 0 <= i < old(pool)@.len() ==> old(pool)@[i]
                &&& final(store)@ == old(store)@
            },
        },
{
    match pool.acquire() {
        Ok(handle) => {
            let outcome = update_plant_humidity(store, uid, data);
            proof {
                assert(old(pool)@.update(handle@, true).update(handle@, false) =~= old(pool)@);
            }
            pool.release(handle);
            match outcome {
                Ok(u) => Ok(u),
                Err(_) => {
                    proof {
                        assert(false);
                    }
                    Ok(())
                },
            }
        },
        Err(e) => Err(AccessError::Pool(e)),
    }
}

} // verus!

//! Keyed entity store: lookup-by-key, insert and field-scoped update of
//! plant and plant-image records.
//!
//! [`PlantStore`] is the record-level backend of the keyed access pattern:
//! each record is addressed by a globally unique, immutable string key
//! assigned at creation. The embedding application drives every operation
//! through a pooled handle inside one gateway submission ("one handle, one
//! operation, then release"); the verified core covers the record logic
//! itself.

use vstd::prelude::*;
use vstd::string::StringExecFns;
use crate::models::DEFAULT_HUMIDITY_BITS;
use crate::models::Plant;
use crate::models::PlantImage;
use crate::models::PlantImageView;
use crate::models::PlantView;
use crate::models::set_humidity_of;

verus! {

/// Data-layer failure, propagated verbatim to the caller and never retried
/// by the core itself.
#[derive(Debug, Clone, Copy, PartialEq, Eq, Structural)]
pub enum BackendError {
    /// The key chosen for a new record is already present: the store's
    /// uniqueness constraint rejected the write.
    DuplicateKey,
}

/// Some record in `s` carries the key `id`.
pub open spec fn contains_id(s: Seq<PlantView>, id: Seq<char>) -> bool {
    exists|i: int| 0 <= i < s.len() && s[i].id == id
}

/// No two records in `s` carry the same key.
pub open spec fn unique_ids(s: Seq<PlantView>) -> bool {
    forall|i: int, j: int| 0 <= i < j < s.len() ==> s[i].id != s[j].id
}

/// Some image record in `s` carries the key `id`.
pub open spec fn contains_image_id(s: Seq<PlantImageView>, id: Seq<char>) -> bool {
    exists|i: int| 0 <= i < s.len() && s[i].id == id
}

/// No two image records in `s` carry the same key.
pub open spec fn unique_image_ids(s: Seq<PlantImageView>) -> bool {
    forall|i: int, j: int| 0 <= i < j < s.len() ==> s[i].id != s[j].id
}

/// The first record in `s` whose key is `id`, if any. Under [`unique_ids`]
/// there is at most one such record.
pub open spec fn find_by_id(s: Seq<PlantView>, id: Seq<char>) -> Option<PlantView>
    decreases s.len(),
{
    if s.len() == 0 {
        Option::None
    } else if s[0].id == id {
        Option::Some(s[0])
    } else {
        find_by_id(s.subrange(1, s.len() as int), id)
    }
}

/// `s` with the measured humidity of the first record keyed `id` replaced
/// by `value`; when no record carries `id`, `s` unchanged (the documented
/// silent no-op of the update path).
pub open spec fn update_humidity_in(s: Seq<PlantView>, id: Seq<char>, value: u32) -> Seq<
    PlantView,
>
    decreases s.len(),
{
    if s.len() == 0 {
        s
    } else if s[0].id == id {
        seq![set_humidity_of(s[0], value)] + s.subrange(1, s.len() as int)
    } else {
        seq![s[0]] + update_humidity_in(s.subrange(1, s.len() as int), id, value)
    }
}

/// When the first record keyed `id` sits at position `k`, the lookup
/// returns exactly that record.
pub proof fn lemma_find_first(s: Seq<PlantView>, id: Seq<char>, k: int)
    requires
        0 <= k < s.len(),
        s[k].id == id,
        forall|j: int| 0 <= j < k ==> s[j].id != id,
    ensures
        find_by_id(s, id) == Option::Some(s[k]),
    decreases k,
{
    if k > 0 {
        lemma_find_first(s.subrange(1, s.len() as int), id, k - 1);
    }
}

/// When no record carries `id`, the lookup returns nothing.
pub proof fn lemma_find_absent(s: Seq<PlantView>, id: Seq<char>)
    requires
        forall|j: int| 0 <= j < s.len() ==> s[j].id != id,
    ensures
        find_by_id(s, id) == Option::None::<PlantView>,
    decreases s.len(),
{
    if s.len() > 0 {
        lemma_find_absent(s.subrange(1, s.len() as int), id);
    }
}

/// When the first record keyed `id` sits at position `k`, the update
/// rewrites exactly that record and leaves every other one in place.
pub proof fn lemma_update_first(s: Seq<PlantView>, id: Seq<char>, value: u32, k: int)
    requires
        0 <= k < s.len(),
        s[k].id == id,
        forall|j: int| 0 <= j < k ==> s[j].id != id,
    ensures
        update_humidity_in(s, id, value) == s.update(k, set_humidity_of(s[k], value)),
    decreases k,
{
    let tail = s.subrange(1, s.len() as int);
    if k == 0 {
        assert(seq![set_humidity_of(s[0], value)] + tail =~= s.update(
            0,
            set_humidity_of(s[0], value),
        ));
    } else {
        lemma_update_first(tail, id, value, k - 1);
        assert(seq![s[0]] + tail.update(k - 1, set_humidity_of(tail[k - 1], value)) =~= s.update(
            k,
            set_humidity_of(s[k], value),
        ));
    }
}

/// Updating a key that no record carries is a silent no-op: the store's
/// contents are left exactly as they were.
pub proof fn lemma_update_absent(s: Seq<PlantView>, id: Seq<char>, value: u32)
    requires
        forall|j: int| 0 <= j < s.len() ==> s[j].id != id,
    ensures
        update_humidity_in(s, id, value) == s,
    decreases s.len(),
{
    if s.len() > 0 {
        let tail = s.subrange(1, s.len() as int);
        lemma_update_absent(tail, id, value);
        assert(seq![s[0]] + tail =~= s);
    }
}

/// Keys are immutable once assigned: a humidity update never changes any
/// record's key, nor the number or order of records.
pub proof fn lemma_update_preserves_ids(s: Seq<PlantView>, id: Seq<char>, value: u32)
    ensures
        update_humidity_in(s, id, value).len() == s.len(),
        forall|i: int|
            0 <= i < s.len() ==> #[trigger] update_humidity_in(s, id, value)[i].id == s[i].id,
    decreases s.len(),
{
    if s.len() > 0 {
        let tail = s.subrange(1, s.len() as int);
        if s[0].id == id {
        } else {
            lemma_update_preserves_ids(tail, id, value);
            let u = seq![s[0]] + update_humidity_in(tail, id, value);
            assert forall|i: int| 0 <= i < s.len() implies #[trigger] u[i].id == s[i].id by {
                if i > 0 {
                    assert(u[i] == update_humidity_in(tail, id, value)[i - 1]);
                }
            }
        }
    }
}

/// Rewriting one record with another that carries the same key keeps keys
/// unique.
pub proof fn lemma_unique_update_same_id(s: Seq<PlantView>, k: int, p: PlantView)
    requires
        unique_ids(s),
        0 <= k < s.len(),
        p.id == s[k].id,
    ensures
        unique_ids(s.update(k, p)),
{
    assert forall|i: int, j: int| 0 <= i < j < s.update(k, p).len() implies s.update(k, p)[i].id
        != s.update(k, p)[j].id by {
        assert(s[i].id != s[j].id);
    }
}

/// Appending a record with a key not yet present keeps keys unique.
pub proof fn lemma_unique_push(s: Seq<PlantView>, p: PlantView)
    requires
        unique_ids(s),
        !contains_id(s, p.id),
    ensures
        unique_ids(s.push(p)),
{
    assert forall|i: int, j: int| 0 <= i < j < s.push(p).len() implies s.push(p)[i].id != s.push(
        p,
    )[j].id by {
        if j == s.len() {
            assert(!(exists|k: int| 0 <= k < s.len() && s[k].id == p.id));
        }
    }
}

/// Creation assigns a unique key: when a second record is inserted after a
/// first one, under the store's rule that an insert only accepts a key not
/// yet present, the two assigned keys differ.
pub proof fn lemma_insert_keys_distinct(s0: Seq<PlantView>, p1: PlantView, p2: PlantView)
    requires
        !contains_id(s0, p1.id),
        !contains_id(s0.push(p1), p2.id),
    ensures
        p1.id != p2.id,
{
    assert(s0.push(p1)[s0.len() as int].id == p1.id);
}

/// Re-fetching by the key assigned at insertion returns exactly the record
/// that was inserted, every field as written.
pub proof fn lemma_find_after_insert(s: Seq<PlantView>, p: PlantView)
    requires
        !contains_id(s, p.id),
    ensures
        find_by_id(s.push(p), p.id) == Option::Some(p),
{
    assert forall|j: int| 0 <= j < s.len() implies s.push(p)[j].id != p.id by {
        if s[j].id == p.id {
            assert(contains_id(s, p.id));
        }
    }
    lemma_find_first(s.push(p), p.id, s.len() as int);
}

/// Abstract contents of a [`PlantStore`]: the two independently keyed
/// relations it holds.
pub struct StoreView {
    pub plants: Seq<PlantView>,
    pub images: Seq<PlantImageView>,
}

/// In-memory keyed backend holding plant records and plant-image records,
/// each relation addressed by its own unique string keys.
pub struct PlantStore {
    plants: Vec<Plant>,
    images: Vec<PlantImage>,
}

impl View for PlantStore {
    type V = StoreView;

    closed spec fn view(&self) -> StoreView {
        StoreView {
            plants: self.plants@.map_values(|p: Plant| p@),
            images: self.images@.map_values(|q: PlantImage| q@),
        }
    }
}

impl PlantStore {
    /// Well-formedness: keys are unique within each relation.
    pub open spec fn wf(&self) -> bool {
        unique_ids(self@.plants) && unique_image_ids(self@.images)
    }

    /// An empty store.
    pub fn new() -> (r: PlantStore)
        ensures
            r.wf(),
            r@.plants.len() == 0,
            r@.images.len() == 0,
    {
        PlantStore { plants: Vec::new(), images: Vec::new() }
    }
}

/// Relies on `uuid::Uuid::new_v4` and the `Display` impl of `uuid::Uuid`:
/// a fresh random version-4 identifier rendered in its hyphenated form,
/// which is always 36 characters. Randomness allows no stronger promise;
/// in particular, distinctness from earlier keys is not assumed.
#[verifier::external_body]
fn fresh_key() -> (r: String)
    ensures
        r@.len() == 36,
{
    uuid::Uuid::new_v4().to_string()
}

/// Find the plant record carrying the key `uid`. Absence is not a failure:
/// it is `None`. The in-memory backend itself cannot fail, so the result
/// is always `Ok`.
pub fn find_plant_by_uid(store: &PlantStore, uid: &String) -> (r: Result<
    Option<Plant>,
    BackendError,
>)
    ensures
        match r {
            Ok(found) => match found {
                Option::Some(p) => find_by_id(store@.plants, uid@) == Option::Some(p@),
                Option::None => find_by_id(store@.plants, uid@) == Option::None::<PlantView>,
            },
            Err(_) => false,
        },
{
    let n = store.plants.len();
    let mut i: usize = 0;
    while i < n
        invariant
            n == store.plants@.len(),
            i <= n,
            forall|j: int| 0 <= j < i ==> store@.plants[j].id != uid@,
        decreases n - i,
    {
        if store.plants[i].id == *uid {
            proof {
                lemma_find_first(store@.plants, uid@, i as int);
            }
            return Ok(Option::Some(store.plants[i].duplicate()));
        }
        i += 1;
    }
    proof {
        lemma_find_absent(store@.plants, uid@);
    }
    Ok(Option::None)
}

/// Some record's key has the 36-character length that every freshly drawn
/// key carries: only such a store can reject a creation through a key
/// collision.
pub open spec fn contains_fresh_shaped_key(s: Seq<PlantView>) -> bool {
    exists|i: int| 0 <= i < s.len() && s[i].id.len() == 36
}

/// Some image record's key has the 36-character length that every freshly
/// drawn key carries: only such a store can reject an image creation
/// through a key collision.
pub open spec fn contains_fresh_shaped_image_key(s: Seq<PlantImageView>) -> bool {
    exists|i: int| 0 <= i < s.len() && s[i].id.len() == 36
}

/// Insert a fully populated plant record under the caller-supplied key.
/// Succeeds exactly when the key is not yet present; a present key is
/// rejected by the uniqueness constraint and the store is unchanged.
pub fn insert_plant_with_key(store: &mut PlantStore, key: String, nm: &str) -> (r: Result<
    Plant,
    BackendError,
>)
    requires
        old(store).wf(),
    ensures
        final(store).wf(),
        final(store)@.images == old(store)@.images,
        match r {
            Ok(p) => {
                &&& !contains_id(old(store)@.plants, key@)
                &&& p@.id == key@
                &&& p@.name == nm@
                &&& p@.humidity == DEFAULT_HUMIDITY_BITS
                &&& p@.target_humidity == DEFAULT_HUMIDITY_BITS
                &&& p@.care == Option::None::<Seq<char>>
                &&& final(store)@.plants == old(store)@.plants.push(p@)
            },
            Err(e) => {
                &&& e == BackendError::DuplicateKey
                &&& contains_id(old(store)@.plants, key@)
                &&& final(store)@ == old(store)@
            },
        },
{
    let n = store.plants.len();
    let mut i: usize = 0;
    while i < n
        invariant
            n == store.plants@.len(),
            i <= n,
            store@ == old(store)@,
            store.wf(),
            forall|j: int| 0 <= j < i ==> store@.plants[j].id != key@,
        decreases n - i,
    {
        if store.plants[i].id == key {
            proof {
                assert(store@.plants[i as int].id == key@);
            }
            return Err(BackendError::DuplicateKey);
        }
        i += 1;
    }
    let plant = Plant {
        id: key,
        name: String::from_str(nm),
        humidity: DEFAULT_HUMIDITY_BITS,
        care: Option::None,
        target_humidity: DEFAULT_HUMIDITY_BITS,
    };
    let result = plant.duplicate();
    proof {
        lemma_unique_push(store@.plants, plant@);
        assert(store.plants@.push(plant).map_values(|p: Plant| p@) =~= store@.plants.push(
            plant@,
        ));
    }
    store.plants.push(plant);
    Ok(result)
}

/// Create a new plant named `nm`: assign a fresh unique key and write the
/// fully populated record — defaults of humidity 0.5 and target 0.5 (as
/// bit patterns) and no care notes — in one step, returning it. Should the
/// randomly drawn key collide with an existing one, the uniqueness
/// constraint surfaces as [`BackendError::DuplicateKey`] and the store is
/// unchanged.
pub fn insert_new_plant(store: &mut PlantStore, nm: &str) -> (r: Result<Plant, BackendError>)
    requires
        old(store).wf(),
    ensures
        final(store).wf(),
        final(store)@.images == old(store)@.images,
        match r {
            Ok(p) => {
                &&& p@.id.len() == 36
                &&& p@.name == nm@
                &&& p@.humidity == DEFAULT_HUMIDITY_BITS
                &&& p@.target_humidity == DEFAULT_HUMIDITY_BITS
                &&& p@.care == Option::None::<Seq<char>>
                &&& !contains_id(old(store)@.plants, p@.id)
                &&& final(store)@.plants == old(store)@.plants.push(p@)
            },
            Err(e) => {
                &&& e == BackendError::DuplicateKey
                &&& final(store)@ == old(store)@
                &&& contains_fresh_shaped_key(old(store)@.plants)
            },
        },
{
    let key = fresh_key();
    let ghost k: Seq<char> = key@;
    let r = insert_plant_with_key(store, key, nm);
    proof {
        if r is Err {
            let i = choose|i: int|
                0 <= i < old(store)@.plants.len() && old(store)@.plants[i].id == k;
            assert(old(store)@.plants[i].id.len() == 36);
        }
    }
    r
}

/// Insert an image record under the caller-supplied key. Succeeds exactly
/// when the key is not yet present among image records. `plant_uid` is an
/// advisory reference: the store does not require it to name an existing
/// plant.
pub fn insert_image_with_key(store: &mut PlantStore, key: String, url_str: &str, plant_uid: &str)
    -> (r: Result<PlantImage, BackendError>)
    requires
        old(store).wf(),
    ensures
        final(store).wf(),
        final(store)@.plants == old(store)@.plants,
        match r {
            Ok(img) => {
                &&& !contains_image_id(old(store)@.images, key@)
                &&& img@.id == key@
                &&& img@.url == url_str@
                &&& img@.plant_id == plant_uid@
                &&& final(store)@.images == old(store)@.images.push(img@)
            },
            Err(e) => {
                &&& e == BackendError::DuplicateKey
                &&& contains_image_id(old(store)@.images, key@)
                &&& final(store)@ == old(store)@
            },
        },
{
    let n = store.images.len();
    let mut i: usize = 0;
    while i < n
        invariant
            n == store.images@.len(),
            i <= n,
            store@ == old(store)@,
            store.wf(),
            forall|j: int| 0 <= j < i ==> store@.images[j].id != key@,
        decreases n - i,
    {
        if store.images[i].id == key {
            proof {
                assert(store@.images[i as int].id == key@);
            }
            return Err(BackendError::DuplicateKey);
        }
        i += 1;
    }
    let image = PlantImage {
        id: key,
        url: String::from_str(url_str),
        plant_id: String::from_str(plant_uid),
    };
    let result = image.duplicate();
    proof {
        assert forall|a: int, b: int|
            0 <= a < b < store@.images.push(image@).len() implies store@.images.push(
            image@,
        )[a].id != store@.images.push(image@)[b].id by {
            if b == store@.images.len() {
                assert(!(exists|k: int|
                    0 <= k < store@.images.len() && store@.images[k].id == image@.id));
            }
        }
        assert(store.images@.push(image).map_values(|q: PlantImage| q@) =~= store@.images.push(
            image@,
        ));
    }
    store.images.push(image);
    Ok(result)
}

/// Attach a new image to a plant: assign a fresh unique key and write the
/// image record, returning it. As with plant creation, a colliding random
/// key surfaces the uniqueness constraint.
pub fn insert_new_plant_image(store: &mut PlantStore, url_str: &str, plant_uid: &str) -> (r:
    Result<PlantImage, BackendError>)
    requires
        old(store).wf(),
    ensures
        final(store).wf(),
        final(store)@.plants == old(store)@.plants,
        match r {
            Ok(img) => {
                &&& img@.id.len() == 36
                &&& img@.url == url_str@
                &&& img@.plant_id == plant_uid@
                &&& !contains_image_id(old(store)@.images, img@.id)
                &&& final(store)@.images == old(store)@.images.push(img@)
            },
            Err(e) => {
                &&& e == BackendError::DuplicateKey
                &&& final(store)@ == old(store)@
                &&& contains_fresh_shaped_image_key(old(store)@.images)
            },
        },
{
    let key = fresh_key();
    let ghost k: Seq<char> = key@;
    let r = insert_image_with_key(store, key, url_str, plant_uid);
    proof {
        if r is Err {
            let i = choose|i: int|
                0 <= i < old(store)@.images.len() && old(store)@.images[i].id == k;
            assert(old(store)@.images[i].id.len() == 36);
        }
    }
    r
}

/// Set the measured humidity of the record keyed `uid` to `data`, leaving
/// every other field and record unchanged. A key that no record carries is
/// a silent no-op success, not an error (documented behavior of the update
/// path). The in-memory backend itself cannot fail, so the result is
/// always `Ok`.
pub fn update_plant_humidity(store: &mut PlantStore, uid: &String, data: u32) -> (r: Result<
    (),
    BackendError,
>)
    requires
        old(store).wf(),
    ensures
        final(store).wf(),
        final(store)@.images == old(store)@.images,
        final(store)@.plants == update_humidity_in(old(store)@.plants, uid@, data),
        r == Result::<(), BackendError>::Ok(()),
{
    let n = store.plants.len();
    let mut i: usize = 0;
    while i < n
        invariant
            n == store.plants@.len(),
            i <= n,
            store@ == old(store)@,
            store.wf(),
            forall|j: int| 0 <= j < i ==> store@.plants[j].id != uid@,
        decreases n - i,
    {
        if store.plants[i].id == *uid {
            let updated = store.plants[i].with_humidity(data);
            proof {
                lemma_update_first(store@.plants, uid@, data, i as int);
                lemma_unique_update_same_id(
                    store@.plants,
                    i as int,
                    set_humidity_of(store@.plants[i as int], data),
                );
                assert(store.plants@.update(i as int, updated).map_values(|p: Plant| p@)
                    =~= store@.plants.update(i as int, set_humidity_of(store@.plants[i as int],
                    data,
                )));
            }
            store.plants.set(i, updated);
            return Ok(());
        }
        i += 1;
    }
    proof {
        lemma_update_absent(store@.plants, uid@, data);
    }
    Ok(())
}

} // verus!

//! Value types for plant records and their mathematical views.
//!
//! Humidity readings travel through the core as the raw bit pattern of an
//! IEEE 754 single-precision value (`u32`): the core stores and copies
//! readings but never interprets them numerically, and range validation is
//! an external collaborator's responsibility.

use vstd::prelude::*;
use vstd::string::StringExecFns;

verus! {

/// Bit pattern of the reading 0.5, the default humidity and target humidity
/// assigned to a newly created plant.
pub const DEFAULT_HUMIDITY_BITS: u32 = 0x3F00_0000;

/// Mathematical value of a [`Plant`] record.
pub struct PlantView {
    pub id: Seq<char>,
    pub name: Seq<char>,
    pub humidity: u32,
    pub care: Option<Seq<char>>,
    pub target_humidity: u32,
}

/// A fully populated plant record: either absent from a store or complete,
/// never partially constructed.
#[derive(Debug, Clone, PartialEq)]
pub struct Plant {
    pub id: String,
    pub name: String,
    pub humidity: u32,
    pub care: Option<String>,
    pub target_humidity: u32,
}

impl View for Plant {
    type V = PlantView;

    open spec fn view(&self) -> PlantView {
        PlantView {
            id: self.id@,
            name: self.name@,
            humidity: self.humidity,
            care: match self.care {
                Option::Some(c) => Option::Some(c@),
                Option::None => Option::None,
            },
            target_humidity: self.target_humidity,
        }
    }
}

/// `p` with its measured humidity replaced by `value`; every other field is
/// unchanged.
pub open spec fn set_humidity_of(p: PlantView, value: u32) -> PlantView {
    PlantView {
        id: p.id,
        name: p.name,
        humidity: value,
        care: p.care,
        target_humidity: p.target_humidity,
    }
}

impl Plant {
    /// A copy of this record with the measured humidity replaced by `value`.
    pub fn with_humidity(&self, value: u32) -> (r: Plant)
        ensures
            r@ == set_humidity_of(self@, value),
    {
        Plant {
            id: self.id.clone(),
            name: self.name.clone(),
            humidity: value,
            care: match &self.care {
                Option::Some(c) => Option::Some(c.clone()),
                Option::None => Option::None,
            },
            target_humidity: self.target_humidity,
        }
    }

    /// An owned copy whose abstract value equals this record's.
    pub fn duplicate(&self) -> (r: Plant)
        ensures
            r@ == self@,
    {
        Plant {
            id: self.id.clone(),
            name: self.name.clone(),
            humidity: self.humidity,
            care: match &self.care {
                Option::Some(c) => Option::Some(c.clone()),
                Option::None => Option::None,
            },
            target_humidity: self.target_humidity,
        }
    }
}

/// Mathematical value of a [`PlantImage`] record.
pub struct PlantImageView {
    pub id: Seq<char>,
    pub url: Seq<char>,
    pub plant_id: Seq<char>,
}

/// An image attached to a plant. `plant_id` is an advisory reference to a
/// [`Plant`]'s key: the core does not enforce referential integrity.
#[derive(Debug, Clone, PartialEq)]
pub struct PlantImage {
    pub id: String,
    pub url: String,
    pub plant_id: String,
}

impl View for PlantImage {
    type V = PlantImageView;

    open spec fn view(&self) -> PlantImageView {
        PlantImageView { id: self.id@, url: self.url@, plant_id: self.plant_id@ }
    }
}

impl PlantImage {
    /// An owned copy whose abstract value equals this record's.
    pub fn duplicate(&self) -> (r: PlantImage)
        ensures
            r@ == self@,
    {
        PlantImage {
            id: self.id.clone(),
            url: self.url.clone(),
            plant_id: self.plant_id.clone(),
        }
    }
}

/// Details supplied by a caller when creating a plant.
#[derive(Debug, Clone, PartialEq)]
pub struct NewPlant {
    pub name: String,
}

impl NewPlant {
    /// Constructs new plant details from a name.
    pub fn new(name: &str) -> (r: NewPlant)
        ensures
            r.name@ == name@,
    {
        NewPlant { name: String::from_str(name) }
    }
}

/// A bare humidity reading carried from an external caller into a store's
/// update path, as the bit pattern of a single-precision value.
#[derive(Debug, Clone, Copy, PartialEq, Eq)]
pub struct Humidity {
    pub humidity: u32,
}

} // verus!

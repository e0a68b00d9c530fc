//! Events the client reacts to.

use vstd::prelude::*;

verus! {

/// Something happened that a page may need to react to.
pub enum Event {
    Navigation { target_type: TargetResourceType, id: Option<u64> },
    NewDataReady { data_type: DataType },
}

/// Where a navigation points.
pub enum TargetResourceType {
    Main,
    Class,
    ClassMaterial,
}

/// Which kind of data became ready.
pub enum DataType {
    ClassListing,
    SingleClassListingTeachers { id: u64 },
    ClassData { id: u64 },
    MaterialData { id: u64 },
}

} // verus!

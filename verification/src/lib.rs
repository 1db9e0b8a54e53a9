//! Confinement puts a constrain on the number of elements within a collection.
pub mod collection;
pub mod confined;
pub mod error;
pub mod laws;
pub mod num;
pub mod std_bridge;
pub mod utf8;

pub use collection::{Collection, KeyedCollection};
pub use confined::Confined;
pub use error::Error;
pub use num::u24;
pub use confined::{
    LargeDeque, LargeHashMap, LargeHashSet, LargeOrdMap, LargeOrdSet, LargeString, LargeVec,
    MediumDeque, MediumHashMap, MediumHashSet, MediumOrdMap, MediumOrdSet, MediumString, MediumVec,
    NonEmptyDeque, NonEmptyHashMap, NonEmptyHashSet, NonEmptyOrdMap, NonEmptyOrdSet, NonEmptyString,
    NonEmptyVec, SmallDeque, SmallHashMap, SmallHashSet, SmallOrdMap, SmallOrdSet, SmallString,
    SmallVec, TinyDeque, TinyHashMap, TinyHashSet, TinyOrdMap, TinyOrdSet, TinyString, TinyVec,
};

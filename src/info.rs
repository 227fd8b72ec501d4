//! The read-only catalogue that turns names into types, as the fit loader consumes it.
use vstd::prelude::*;

use crate::data_types::{Type, TypeDogmaEffect};

verus! {

/// Name and type lookups in the static data corpus.
///
/// Implemented by each data source (protobuf files, a browser host, a test table).
pub trait InfoName {
    /// The dogma effects that a type carries, in catalogue order.
    fn get_dogma_effects(&self, type_id: i32) -> Vec<TypeDogmaEffect>;

    /// Group and category of a type.
    fn get_type(&self, type_id: i32) -> Type;

    /// Type id of the type with this exact name (0 when unknown).
    fn type_name_to_id(&self, name: &str) -> i32;
}

} // verus!

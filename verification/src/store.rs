//! The interface that the namespace, registry and configuration stores share.
use vstd::prelude::*;
use crate::error::DataError;
use crate::storage::Storage;

verus! {

/// A store: a list of values of one kind, kept under a fixed name in a
/// storage backend.
pub trait Store {
    /// The kind of value kept.
    type Target;
    /// The storage backend.
    type Storage: Storage;

    /// A copy of the storage backend.
    fn get_storage(&self) -> Self::Storage;

    /// The name under which the store keeps its values in the backend.
    fn get_storage_key(&self) -> &str;

    /// A copy of the values.
    fn get_values(&self) -> Vec<Self::Target>;

    /// Replaces the values.
    fn set_values(&mut self, values: Vec<Self::Target>);

    /// Whether `value` can be appended: on other values appending panics.
    spec fn append_defined(&self, value: Self::Target) -> bool;

    /// Adds a value, merging it with what is kept where the store's rules say so.
    fn append(&mut self, value: Self::Target) -> Result<(), DataError>
        requires
            old(self).append_defined(value),
    ;

    /// Removes what a value names.
    fn remove(&mut self, value: Self::Target) -> Result<(), DataError>;
}

} // verus!

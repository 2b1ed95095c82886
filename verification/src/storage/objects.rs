//! A checkpoint in an object store.
use crate::checkpoint::CheckpointStore;
use crate::storage::load;
use crate::storage::load::{load, Fetched, LoadFailure};
use vstd::prelude::*;

verus! {

/// A failure of an object store, `object_store::Error`.
#[verifier::external_type_specification]
#[verifier::external_body]
pub struct ExObjectStoreError(object_store::Error);

/// Errors produced by [`ObjectStoreCheckpoint`].
#[derive(Debug)]
pub enum ObjectStoreCheckpointError {
    ObjectStore(object_store::Error),
    Json(serde_json::Error),
}

/// A JSON checkpoint stored in a caller-configured object store.
#[derive(Debug)]
pub struct ObjectStoreCheckpoint<S, Pa> {
    pub store: S,
    pub path: Pa,
}

impl<C, S, Pa> CheckpointStore<C> for ObjectStoreCheckpoint<S, Pa> {
    type Error = ObjectStoreCheckpointError;
}

impl<S: Clone, Pa: Clone> Clone for ObjectStoreCheckpoint<S, Pa> {
    fn clone(&self) -> (copy: Self)
        ensures
            vstd::pervasive::cloned(self.store, copy.store),
            vstd::pervasive::cloned(self.path, copy.path),
    {
        ObjectStoreCheckpoint { store: self.store.clone(), path: self.path.clone() }
    }
}

impl<S, Pa> ObjectStoreCheckpoint<S, Pa> {
    /// A checkpoint at a path of a store.
    pub fn new(store: S, path: impl Into<Pa>) -> (checkpoint: Self)
        ensures
            checkpoint.store == store,
            call_ensures(Into::<Pa>::into, (path,), checkpoint.path),
    {
        Self { store, path: path.into() }
    }

    /// The store.
    pub fn store(&self) -> (store: &S)
        ensures
            *store == self.store,
    {
        &self.store
    }

    /// The path of the checkpoint.
    pub fn path(&self) -> (path: &Pa)
        ensures
            *path == self.path,
    {
        &self.path
    }

    /// What loading the object came to: a missing object is no checkpoint.
    pub fn loaded<C, F>(
        fetched: Fetched<Vec<u8>, object_store::Error>,
        decode: F,
    ) -> (loaded: Result<Option<C>, ObjectStoreCheckpointError>) where
        F: FnOnce(Vec<u8>) -> Result<C, serde_json::Error>,

        requires
            fetched matches Fetched::Found(bytes) ==> call_requires(decode, (bytes,)),
        ensures
            load::may_load(
                fetched,
                decode,
                match loaded {
                    Ok(checkpoint) => Ok(checkpoint),
                    Err(ObjectStoreCheckpointError::ObjectStore(error)) => Err(
                        LoadFailure::Fetch(error),
                    ),
                    Err(ObjectStoreCheckpointError::Json(error)) => Err(
                        LoadFailure::Decode(error),
                    ),
                },
            ),
    {
        match load(fetched, decode) {
            Ok(checkpoint) => Ok(checkpoint),
            Err(LoadFailure::Fetch(error)) => Err(ObjectStoreCheckpointError::ObjectStore(error)),
            Err(LoadFailure::Decode(error)) => Err(ObjectStoreCheckpointError::Json(error)),
        }
    }
}

} // verus!

//! Type-keyed stores: one slot per stored type, used for application-wide
//! and per-request shared data.
//!
//! The stores map a type identity (`std::any::TypeId`) to one shared value of
//! that type (`Arc<dyn Any>`). Verus cannot express type-erased values, so
//! both containers are held behind trusted wrappers; nothing in the verified
//! logic depends on what a store holds.

use std::any::{Any, TypeId};
use std::collections::HashMap;
use std::sync::{Arc, RwLock};
use vstd::prelude::*;

verus! {

/// Thread-safe application-wide store: one value per stored type, shared by
/// every request. Cloning the handle shares the same underlying store.
#[verifier::external_body]
pub struct AppData {
    inner: Arc<RwLock<HashMap<TypeId, Arc<dyn Any + Send + Sync>>>>,
}

impl AppData {
    /// An empty store.
    /// Relies on `std::collections::HashMap::new`.
    #[verifier::external_body]
    pub fn new() -> (r: AppData) {
        AppData { inner: Arc::new(RwLock::new(HashMap::new())) }
    }

    /// A handle to the same underlying store.
    /// Relies on `std::sync::Arc::clone`: the clone shares the allocation,
    /// so the new handle is the same store as this one.
    #[verifier::external_body]
    pub fn clone_handle(&self) -> (r: AppData)
        ensures
            r == *self,
    {
        AppData { inner: Arc::clone(&self.inner) }
    }

    /// Store a value under its type, returning the value previously stored
    /// under that type, if any.
    /// Relies on `std::collections::HashMap::insert` under a write lock:
    /// one slot per `TypeId`, the previous occupant is returned.
    #[verifier::external_body]
    pub fn provide_arc<T: Send + Sync + 'static>(&self, value: Arc<T>) -> (r: Option<Arc<T>>) {
        let mut map = match self.inner.write() {
            Ok(g) => g,
            Err(p) => p.into_inner(),
        };
        let prev = map.insert(TypeId::of::<T>(), value);
        prev.and_then(|p| p.downcast::<T>().ok())
    }

    /// The value stored under type `T`, if any.
    /// Relies on `std::collections::HashMap::get` under a read lock and
    /// `Arc::downcast`: a value inserted as `T` downcasts back to `T`.
    #[verifier::external_body]
    pub fn get<T: Send + Sync + 'static>(&self) -> (r: Option<Arc<T>>) {
        let map = match self.inner.read() {
            Ok(g) => g,
            Err(p) => p.into_inner(),
        };
        map.get(&TypeId::of::<T>()).and_then(|v| Arc::clone(v).downcast::<T>().ok())
    }

    /// Remove and return the value stored under type `T`, if any.
    /// Relies on `std::collections::HashMap::remove` under a write lock.
    #[verifier::external_body]
    pub fn remove<T: Send + Sync + 'static>(&self) -> (r: Option<Arc<T>>) {
        let mut map = match self.inner.write() {
            Ok(g) => g,
            Err(p) => p.into_inner(),
        };
        map.remove(&TypeId::of::<T>()).and_then(|p| p.downcast::<T>().ok())
    }
}

/// Per-request store: one value per stored type, owned by a single request.
#[verifier::external_body]
pub struct Extensions {
    inner: HashMap<TypeId, Arc<dyn Any + Send + Sync>>,
}

impl Extensions {
    /// An empty store.
    /// Relies on `std::collections::HashMap::new`.
    #[verifier::external_body]
    pub fn new() -> (r: Extensions) {
        Extensions { inner: HashMap::new() }
    }

    /// Store a value under its type, returning the previous occupant, if any.
    /// Relies on `std::collections::HashMap::insert`: one slot per `TypeId`.
    #[verifier::external_body]
    pub fn set<T: Send + Sync + 'static>(&mut self, value: Arc<T>) -> (r: Option<Arc<T>>) {
        let prev = self.inner.insert(TypeId::of::<T>(), value);
        prev.and_then(|p| p.downcast::<T>().ok())
    }

    /// The value stored under type `T`, if any.
    /// Relies on `std::collections::HashMap::get` and `Arc::downcast`.
    #[verifier::external_body]
    pub fn get<T: Send + Sync + 'static>(&self) -> (r: Option<Arc<T>>) {
        self.inner.get(&TypeId::of::<T>()).and_then(|v| Arc::clone(v).downcast::<T>().ok())
    }
}

} // verus!

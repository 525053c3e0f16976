//! The property registry: a one-shot initialization guard with an admin
//! principal. Property registration and verification are provided by a
//! separate collaborator and are outside this core.

use vstd::prelude::*;

use crate::types::Principal;

verus! {

/// Errors of the property-registry operations.
#[derive(Clone, Copy, Debug, PartialEq, Eq, Structural)]
pub enum PropertyError {
    /// The registry has already been initialized.
    AlreadyInitialized,
    /// The registry has not been initialized yet.
    NotInitialized,
    /// A property with this identifier already exists.
    PropertyAlreadyExists,
    /// The property identifier is empty.
    InvalidPropertyId,
    /// The metadata reference is empty.
    InvalidMetadata,
    /// The caller is not the registry admin.
    Unauthorized,
    /// No property exists under the identifier.
    PropertyNotFound,
    /// The property is already verified.
    AlreadyVerified,
}

/// The registry's persisted state: the admin principal and the
/// initialization flag.
#[derive(Clone, Copy, Debug, PartialEq, Eq, Structural)]
pub struct ContractState {
    pub admin: Principal,
    pub initialized: bool,
}

/// The property registry ledger.
pub struct PropertyRegistryContract {
    /// The one-shot initialization guard.
    pub initialized: bool,
    /// The registry state, present once initialized.
    pub state: Option<ContractState>,
}

impl PropertyRegistryContract {
    /// A fresh, uninitialized registry.
    pub fn new() -> (r: PropertyRegistryContract)
        ensures
            !r.initialized,
            r.state is None,
    {
        PropertyRegistryContract { initialized: false, state: None }
    }

    /// Initialize the registry with an admin principal. Fails with
    /// `AlreadyInitialized`, leaving the registry unchanged, iff the
    /// registry was initialized before; otherwise records the admin.
    ///
    /// The caller must have been authenticated as `admin` by the substrate.
    pub fn initialize(&mut self, admin: Principal) -> (r: Result<(), PropertyError>)
        ensures
            old(self).initialized ==> r == Err::<(), PropertyError>(
                PropertyError::AlreadyInitialized,
            ) && *final(self) == *old(self),
            !old(self).initialized ==> r == Ok::<(), PropertyError>(()) && final(self).initialized
                && final(self).state == Some(ContractState { admin, initialized: true }),
    {
        if self.initialized {
            return Err(PropertyError::AlreadyInitialized);
        }
        self.initialized = true;
        self.state = Some(ContractState { admin, initialized: true });
        Ok(())
    }

    /// The current registry state, if initialized.
    pub fn get_state(&self) -> (r: Option<ContractState>)
        ensures
            r == self.state,
    {
        self.state
    }
}

} // verus!

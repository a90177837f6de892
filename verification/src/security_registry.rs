use vstd::prelude::*;

use crate::address::Address;
use crate::token::address_view;

verus! {

/// Why a registry operation was refused. A refusal leaves the state as it was.
#[derive(Debug, Clone, Copy, PartialEq, Eq, Structural)]
pub enum RegistryError {
    /// `initialize` on a registry that already has a super-administrator.
    AlreadyInitialized,
    /// An operation that needs the super-administrator before `initialize`.
    NotInitialized,
}

/// The stored state of the registry.
pub struct RegistryState {
    pub admin: Option<Seq<u8>>,
    pub paused: Option<bool>,
}

impl RegistryState {
    /// Whether the system is paused (not when nothing is recorded).
    pub open spec fn is_paused(self) -> bool {
        self.paused == Some(true)
    }

    /// `initialize`: refused when a super-administrator is set; otherwise
    /// records it and an unpaused system.
    pub open spec fn initialize(self, admin: Seq<u8>) -> (RegistryState, Result<(), RegistryError>) {
        if self.admin is Some {
            (self, Err(RegistryError::AlreadyInitialized))
        } else {
            (RegistryState { admin: Some(admin), paused: Some(false) }, Ok(()))
        }
    }

    /// `set_paused`: records the pause status; needs a super-administrator.
    pub open spec fn set_paused(self, paused: bool) -> (RegistryState, Result<(), RegistryError>) {
        if self.admin is None {
            (self, Err(RegistryError::NotInitialized))
        } else {
            (RegistryState { paused: Some(paused), ..self }, Ok(()))
        }
    }

    /// `transfer_admin`: hands the super-administrator role to `new_admin`.
    pub open spec fn transfer_admin(self, new_admin: Seq<u8>) -> (RegistryState, Result<(), RegistryError>) {
        if self.admin is None {
            (self, Err(RegistryError::NotInitialized))
        } else {
            (RegistryState { admin: Some(new_admin), ..self }, Ok(()))
        }
    }
}

/// The system-wide pause switch that other contracts consult, and its
/// super-administrator. Who signed a call is checked around these methods:
/// `set_paused` and `transfer_admin` need the current super-administrator.
pub struct SecurityRegistry {
    admin: Option<Address>,
    paused: Option<bool>,
}

impl View for SecurityRegistry {
    type V = RegistryState;

    closed spec fn view(&self) -> RegistryState {
        RegistryState { admin: address_view(self.admin), paused: self.paused }
    }
}

impl SecurityRegistry {
    /// Rebuilds the contract from its stored parts.
    pub fn from_parts(admin: Option<Address>, paused: Option<bool>) -> (r: SecurityRegistry)
        ensures
            r@.admin == address_view(admin),
            r@.paused == paused,
    {
        SecurityRegistry { admin, paused }
    }

    /// The stored pause flag, if any.
    pub fn stored_paused(&self) -> (r: Option<bool>)
        ensures
            r == self@.paused,
    {
        self.paused
    }

    /// A registry with empty storage.
    pub fn new() -> (r: SecurityRegistry)
        ensures
            r@.admin is None,
            r@.paused is None,
    {
        SecurityRegistry { admin: None, paused: None }
    }

    /// Records the super-administrator and an unpaused system.
    pub fn initialize(&mut self, admin: Address) -> (r: Result<(), RegistryError>)
        ensures
            final(self)@ == old(self)@.initialize(admin@).0,
            r == old(self)@.initialize(admin@).1,
    {
        if self.admin.is_some() {
            return Err(RegistryError::AlreadyInitialized);
        }
        self.admin = Some(admin);
        self.paused = Some(false);
        Ok(())
    }

    /// Sets the pause status.
    pub fn set_paused(&mut self, paused: bool) -> (r: Result<(), RegistryError>)
        ensures
            final(self)@ == old(self)@.set_paused(paused).0,
            r == old(self)@.set_paused(paused).1,
    {
        if self.admin.is_none() {
            return Err(RegistryError::NotInitialized);
        }
        self.paused = Some(paused);
        Ok(())
    }

    /// The current pause status (not paused when nothing is recorded).
    pub fn is_paused(&self) -> (r: bool)
        ensures
            r == self@.is_paused(),
    {
        self.paused == Some(true)
    }

    /// The current super-administrator.
    pub fn get_admin(&self) -> (r: Result<&Address, RegistryError>)
        ensures
            match r {
                Ok(a) => self@.admin == Some(a@),
                Err(e) => self@.admin is None && e == RegistryError::NotInitialized,
            },
    {
        match &self.admin {
            Some(a) => Ok(a),
            None => Err(RegistryError::NotInitialized),
        }
    }

    /// Hands the super-administrator role to `new_admin`.
    pub fn transfer_admin(&mut self, new_admin: Address) -> (r: Result<(), RegistryError>)
        ensures
            final(self)@ == old(self)@.transfer_admin(new_admin@).0,
            r == old(self)@.transfer_admin(new_admin@).1,
    {
        if self.admin.is_none() {
            return Err(RegistryError::NotInitialized);
        }
        self.admin = Some(new_admin);
        Ok(())
    }
}

/// The pause status reads back as last set, and a transferred
/// super-administrator role reads back as its new holder.
pub proof fn registry_settings_read_back(s: RegistryState, paused: bool, new_admin: Seq<u8>)
    requires
        s.admin is Some,
    ensures
        s.set_paused(paused).1 is Ok,
        s.set_paused(paused).0.is_paused() == paused,
        s.transfer_admin(new_admin).1 is Ok,
        s.transfer_admin(new_admin).0.admin == Some(new_admin),
        s.transfer_admin(new_admin).0.paused == s.paused,
{
}

/// A freshly initialized registry is not paused, and it cannot be
/// initialized again.
pub proof fn registry_initializes_once_unpaused(s: RegistryState, admin: Seq<u8>, other: Seq<u8>)
    requires
        s.admin is None,
    ensures
        !s.initialize(admin).0.is_paused(),
        s.initialize(admin).0.admin == Some(admin),
        s.initialize(admin).0.initialize(other).1 == Err::<(), RegistryError>(
            RegistryError::AlreadyInitialized,
        ),
{
}

} // verus!

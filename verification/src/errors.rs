//! Errors of the configuration store.

use vstd::prelude::*;

verus! {

/// What can go wrong in a configuration-store operation.
#[derive(Debug, Clone)]
pub enum StoreError {
    /// Neither an XDG nor a global git configuration path could be found.
    Location,
    /// Creating the dedicated configuration file or its parent directories
    /// failed; carries the I/O error's text.
    Io(String),
    /// The configuration backend failed to open, parse, read or write;
    /// carries the backend's own message.
    Backend(String),
    /// A single-value lookup found no entry under its key.
    MissingKey,
}

impl StoreError {
    /// True of the variant that reports a missing single-value entry.
    pub open spec fn is_missing_key(&self) -> bool {
        matches!(self, StoreError::MissingKey)
    }

    /// True of the variant that reports a backend failure.
    pub open spec fn is_backend(&self) -> bool {
        matches!(self, StoreError::Backend(_))
    }

    /// A plain-text description of the error.
    pub fn message(&self) -> (r: String)
        ensures
            *self matches StoreError::Io(m) ==> r@ == m@,
            *self matches StoreError::Backend(m) ==> r@ == m@,
            self.is_missing_key() ==> r@ == "config value was not found"@,
            *self matches StoreError::Location ==> r@ == "Unable to find XDG or User git configuration"@,
    {
        match self {
            StoreError::Location => String::from_str("Unable to find XDG or User git configuration"),
            StoreError::Io(m) => m.clone(),
            StoreError::Backend(m) => m.clone(),
            StoreError::MissingKey => String::from_str("config value was not found"),
        }
    }
}

} // verus!

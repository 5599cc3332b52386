use vstd::prelude::*;

verus! {

/// The errors of mix key construction and replay detection.
#[derive(Debug)]
pub enum MixKeyError {
    /// The backing store could not be opened or written on first use.
    CreateCacheFailed,
    /// The store's directory is bound to another epoch.
    LoadCacheFailed,
    /// The stored private key was rejected, or a new one could not be made.
    KeyError(ecdh_wrapper::errors::KeyError),
    /// The operating system's randomness source could not be opened.
    IoError(std::io::Error),
    /// A store read or write failed.
    StoreError,
    /// The epoch clock has a period of zero.
    InvalidClock,
}

impl MixKeyError {
    /// A short description of the error.
    pub fn message(&self) -> (r: String)
        ensures
            self is CreateCacheFailed ==> r@ == "Failed to create cache."@,
            self is LoadCacheFailed ==> r@ == "Failed to load cache."@,
            self is KeyError ==> r@ == "Mix key error."@,
            self is IoError ==> r@ == "I/O error."@,
            self is StoreError ==> r@ == "Failed to set page cache key."@,
            self is InvalidClock ==> r@ == "Invalid epoch clock."@,
    {
        match self {
            MixKeyError::CreateCacheFailed => String::from_str("Failed to create cache."),
            MixKeyError::LoadCacheFailed => String::from_str("Failed to load cache."),
            MixKeyError::KeyError(_) => String::from_str("Mix key error."),
            MixKeyError::IoError(_) => String::from_str("I/O error."),
            MixKeyError::StoreError => String::from_str("Failed to set page cache key."),
            MixKeyError::InvalidClock => String::from_str("Invalid epoch clock."),
        }
    }
}

} // verus!

use vstd::prelude::*;

verus! {

/// Why a review could not be created.
#[derive(Debug, Clone, Copy, PartialEq, Eq, Structural)]
pub enum ReviewError {
    /// The slot holds no committed review yet.
    UninitializedAccount,
    /// The slot address is not the program address of the owner and the title.
    InvalidPDA,
    /// The encoded review would not fit in a slot.
    InvalidDataLength,
    /// The rating lies outside `1..=5`.
    InvalidRating,
    /// The owner did not sign the request.
    MissingAuthorization,
    /// The slot already holds a committed review.
    AlreadyInitialized,
    /// No bump seed gives an address off the curve (this includes a title
    /// longer than a seed may be).
    AddressDerivationExhausted,
    /// The slot's bytes do not decode as a review record.
    InvalidAccountData,
}

impl ReviewError {
    /// The custom error code of the four program-specific errors, in the order
    /// in which they are declared; `None` for those that map to a standard
    /// program error.
    pub fn custom_code(&self) -> (r: Option<u32>)
        ensures
            r == match *self {
                ReviewError::UninitializedAccount => Some(0u32),
                ReviewError::InvalidPDA => Some(1u32),
                ReviewError::InvalidDataLength => Some(2u32),
                ReviewError::InvalidRating => Some(3u32),
                _ => None,
            },
    {
        match self {
            ReviewError::UninitializedAccount => Some(0),
            ReviewError::InvalidPDA => Some(1),
            ReviewError::InvalidDataLength => Some(2),
            ReviewError::InvalidRating => Some(3),
            _ => None,
        }
    }

}

} // verus!

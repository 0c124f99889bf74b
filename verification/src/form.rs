//! The versions and variants of the JPK_V7 form.
use vstd::prelude::*;

verus! {

/// Monthly (`M`) or quarterly (`K`) filing.
#[derive(Debug, PartialEq, Eq, Structural, Clone, Copy)]
pub enum FormVariant {
    Unknown,
    M,
    K,
}

/// The schema version of the input document.
#[derive(Debug, PartialEq, Eq, Structural, Clone, Copy)]
pub enum FormVersion {
    Unknown,
    V1,
    V2,
    V3,
}

} // verus!

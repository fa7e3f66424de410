//! Generation of random passwords from a fixed alphabet.
//!
//! The alphabet always contains the 68 base characters (letters, digits and
//! six common symbols); in extended mode 24 further symbols are added, with
//! the policy that the first character of a password is never drawn from the
//! extended region.

pub mod args;
pub mod password;

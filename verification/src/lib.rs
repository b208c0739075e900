//! Generation and validation of Turkish national identity numbers (TCKN).
//!
//! A TCKN is written with eleven decimal digits. The first digit is not zero
//! and the last two digits are check digits computed from the digits before
//! them. [`validate`] decides whether a string is such a number, and
//! [`generate`] draws a random one.

pub mod checksum;
pub mod digits;
pub mod generation;
pub mod random;
pub mod validation;

pub use generation::generate;
pub use validation::validate;

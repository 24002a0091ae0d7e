//! Ordered directory traversal with an adjacent-duplicate guard, and the
//! normalisation of a file's timestamps into native and civil forms.
pub mod guard;
pub mod time;
pub mod traverse;

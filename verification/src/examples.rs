//! Example screens: small components exercising the component contract.

pub mod counter;
pub mod list_selector;

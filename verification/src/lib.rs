//! Formatting policy, settings state and declaration-layout rules used when
//! turning debug-information type records into source-level declarations.

pub mod access;
pub mod declaration;
pub mod decoder;
pub mod dependencies;
pub mod enumeration;
pub mod layout;
pub mod numeral;
pub mod ordering;
pub mod placement;
pub mod policy;
pub mod reconstruct;
pub mod records;
pub mod settings;

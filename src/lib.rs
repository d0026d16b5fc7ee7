//! Bridging typed methods to a dynamically typed host runtime: classification
//! of method declarations, argument descriptor tables, argument binding, the
//! control of one bridged call, and sparse protocol slot tables.
pub mod async_slots;
pub mod binding;
pub mod call;
pub mod descriptor;
pub mod method;
pub mod signature;

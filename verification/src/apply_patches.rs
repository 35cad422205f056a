//! Reading a patch message and applying it to a tree.
pub mod diff;
pub mod header;
pub mod email;
pub mod apply;
pub mod display;
pub mod bulk;

pub use email::{EmailMessage, InvalidEmailMessage};

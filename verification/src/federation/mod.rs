//! Federation with other servers over ActivityPub.

pub mod activity;
pub mod actor;
pub mod address;
pub mod inbox;
pub mod json;
pub mod links;
pub mod note;

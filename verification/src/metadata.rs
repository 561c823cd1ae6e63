//! The fixed records and self-describing frames of the container format.

pub mod anchor;
pub mod field_description;
pub mod list_frame;
pub mod record_frame;

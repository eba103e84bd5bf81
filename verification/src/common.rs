//! Building blocks shared by every layer.

pub mod daily_schedule;
pub mod error;
pub mod helper;
pub mod io;
pub mod list;
pub mod object_id;
pub mod property_id;
pub mod spec;
pub mod tag;

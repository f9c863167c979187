//! A small task-list library: a record model with a five-state status, a
//! line-oriented storage format, and the paging and editing operations of an
//! interactive session. Everything here is verified; reading the terminal and
//! touching the file system are left to the surrounding binary.

pub mod chars;
pub mod digits;
pub mod session;
pub mod status;
pub mod store;
pub mod task;

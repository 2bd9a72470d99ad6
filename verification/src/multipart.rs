//! Project endpoints that take everything, descriptor and files, in one
//! multipart submission.

pub mod create;
pub mod delete;
pub mod field;
pub mod update;

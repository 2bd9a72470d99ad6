//! Project endpoints that take a JSON body and refer to files uploaded
//! beforehand.

pub mod create;
pub mod delete;
pub mod update;
pub mod upload;

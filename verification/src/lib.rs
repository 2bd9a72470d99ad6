//! Verified core of a photo gallery backend.

pub mod access;
pub mod admin;
pub mod countries;
pub mod exif;
pub mod multipart;
pub mod pic_info;
pub mod project;
pub mod projects;
pub mod reply;
pub mod storage;
pub mod text;
pub mod tokens;
pub mod trusted;
pub mod visitor;

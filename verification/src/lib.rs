//! Discovery, selection and safe removal of installed .NET SDK versions.

pub mod doctor;
pub mod fetch;
pub mod installer;
pub mod inventory;
pub mod json;
pub mod listing;
pub mod paths;
pub mod pin;
pub mod releases;
pub mod removal;
pub mod report;
pub mod selector;
pub mod text;

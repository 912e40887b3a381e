//! Loading of API description documents that are split over several files,
//! and the dialect independent model that is built from them.

pub mod documents;
pub mod error;
pub mod models;
pub mod utils;

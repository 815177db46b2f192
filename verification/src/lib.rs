//! Verified core of the manhua reading tracker: the chapter-URL grammar,
//! title normalisation, fuzzy series matching and the event resolver.

pub mod text;
pub mod types;
pub mod decimal;
pub mod static_files;
pub mod similarity;
pub mod process;
pub mod middleware;
pub mod db;
pub mod routes;

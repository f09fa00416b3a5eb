pub mod cinema;
pub mod db;
pub mod error;
pub mod feed;
pub mod film;
pub mod orchestrator;
pub mod staleness;
pub mod text;

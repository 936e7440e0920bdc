pub mod models;
pub mod routes;
pub mod selector;
pub mod text;

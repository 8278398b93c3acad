pub mod app;
pub mod handler;

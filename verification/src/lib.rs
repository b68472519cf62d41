pub mod api;
pub mod assoc;
pub mod db;
pub mod error;
pub mod ids;
pub mod json;
pub mod models;
pub mod poller;
pub mod search_window;
pub mod seed;
pub mod services;
pub mod text;

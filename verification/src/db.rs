pub mod paths;
pub mod schema;
pub mod sql;

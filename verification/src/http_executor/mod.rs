pub mod mysql;
pub mod query;

pub mod any_sql;
pub mod mysql;
pub mod postgres;

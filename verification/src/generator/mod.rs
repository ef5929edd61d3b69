pub mod mysql;

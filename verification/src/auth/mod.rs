pub mod method;
pub mod mysql;
pub mod statement;

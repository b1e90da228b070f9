pub mod mysql;
pub mod postgres;

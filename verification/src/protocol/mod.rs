pub mod authentication;
pub mod message;
pub mod scram;

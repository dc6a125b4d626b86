pub mod catalog;
pub mod engine;
pub mod lemmas;

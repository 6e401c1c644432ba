//! The catalogs that describe assertions, doctors and advice, and the store of
//! experiences.
pub mod collection;
pub mod toml_advice_parser;
pub mod toml_assertion_parser;
pub mod toml_doctor_parser;
pub mod sqlite_experience_store;

//! Discovery of mail server settings in the Thunderbird autoconfig format:
//! the model of the configuration document, the rules that turn an address
//! or a domain into the places to look, and the bookkeeping of cached results.

pub mod cache;
pub mod fetch;
pub mod mozilla_config;
pub mod order;
pub mod outside;
pub mod select;
pub mod text;

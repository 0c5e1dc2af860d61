pub mod cli;
pub mod config;
pub mod dup;
pub mod duration;
pub mod json;
pub mod kubernetes;
pub mod lists;
pub mod logging;
pub mod metrics;
pub mod network;
pub mod order;
pub mod parser;
pub mod privileges;
pub mod table;
pub mod text;

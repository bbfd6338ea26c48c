//! Evaluation of nested indicator-of-compromise definitions against evidence
//! that was gathered on a host.

pub mod arg_parser;
pub mod cert_checker;
pub mod conns_checker;
pub mod conversion;
pub mod data;
pub mod dir_resolver;
pub mod dns_checker;
pub mod file_checker;
pub mod flattener;
pub mod hasher;
pub mod ioc_evaluator;
pub mod ioc_service;
pub mod mutant_checker;
pub mod pattern;
pub mod process_checker;
pub mod properties;
pub mod query_result;
pub mod registry_checker;
pub mod text;
pub mod tree_verdict;
pub mod utils;
pub mod windows_bindings;

use vstd::prelude::*;

pub mod module;
pub mod named;
pub mod lang_value;
pub mod module_store;
pub mod runtime_scope;
pub mod helper;
pub mod external_functions;
pub mod types;
pub mod class;
pub mod ast;
pub mod module_scope;
pub mod scope_storage;
pub mod parser_scope;
pub mod utils;
pub mod parse;
pub mod parse_spec;
pub mod typing;
pub mod type_check;
pub mod parsing_types;
pub mod preparse;
pub mod module_preparser;
pub mod module_parser;
pub mod scope_building;
pub mod module_initializer;
pub mod module_loader;
pub mod tokens;
pub mod text;
pub mod errors;
pub mod config;

verus! {
} // verus!

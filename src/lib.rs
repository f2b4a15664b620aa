pub mod ast;
pub mod source;
pub mod tokenizer;
pub mod tokenstream;
pub mod names;
pub mod common;
pub mod context;
pub mod subtype_indication;
pub mod subprogram;
pub mod alias_declaration;
pub mod design_file;

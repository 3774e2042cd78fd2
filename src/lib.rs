pub mod asm_compiler;
pub mod asm_laws;
pub mod asm_spec;
pub mod ast;
pub mod grammar;
pub mod lex_laws;
pub mod lexer;
pub mod llvm_compiler;
pub mod network_model;
pub mod parser;
pub mod platform_detector;
pub mod react_compiler;
pub mod render;
pub mod roundtrip;
pub mod text;
pub mod three_extensions;
pub mod ui_extensions;
pub mod universal_compiler;

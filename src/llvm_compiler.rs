use vstd::prelude::*;
use vstd::string::*;
use crate::ast::{ASTNode, SymbolTable};

verus! {

/// What every operation of the LLVM backend reports.
pub open spec fn unavailable() -> Seq<char> {
    "LLVM compiler temporarily disabled. Re-enable inkwell dependency in Cargo.toml and uncomment implementation."@
}

fn unavailable_message() -> (r: String)
    ensures
        r@ == unavailable(),
{
    String::from_str("LLVM compiler temporarily disabled. Re-enable inkwell dependency in Cargo.toml and uncomment implementation.")
}

/// The LLVM IR backend. It is not built in: every operation fails with the same message.
pub struct LLVMCompiler;

impl LLVMCompiler {
    pub fn new(module_name: &str) -> (r: LLVMCompiler) {
        LLVMCompiler
    }

    pub fn compile(&mut self, ast: &ASTNode, symbol_table: &mut SymbolTable) -> (r: Result<(), String>)
        ensures
            r is Err,
            r->Err_0@ == unavailable(),
            final(symbol_table)@ == old(symbol_table)@,
    {
        Result::Err(unavailable_message())
    }

    pub fn create_main_function(&mut self) -> (r: Result<(), String>)
        ensures
            r is Err,
            r->Err_0@ == unavailable(),
    {
        Result::Err(unavailable_message())
    }

    pub fn write_to_file(&self, filename: &str) -> (r: Result<(), String>)
        ensures
            r is Err,
            r->Err_0@ == unavailable(),
    {
        Result::Err(unavailable_message())
    }

    pub fn print_ir(&self) -> (r: String)
        ensures
            r@ == unavailable(),
    {
        unavailable_message()
    }
}

} // verus!

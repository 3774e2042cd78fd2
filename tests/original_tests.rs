use gaiascript::asm_compiler;
use gaiascript::parser;

#[test]
fn test_parse_simple_network() {
    let input = "N";
    let result = parser::parse(input);
    assert!(result.is_ok(), "Failed to parse: {:?}", result.err());
}

#[test]
fn lib_test_parse_simple_network() {
    let input = "N";
    let result = parser::parse(input);
    assert!(result.is_ok(), "Failed to parse: {:?}", result.err());
}

fn check_asm_compilation() {
    let input = "N I → C₁ 32 → D₁ 10";
    let ast = parser::parse(input).unwrap();

    let x86_asm = asm_compiler::compile_to_asm(&ast, asm_compiler::AsmTarget::X86_64);
    assert!(x86_asm.contains("section .text"));
    assert!(x86_asm.contains("global _start"));

    let arm_asm = asm_compiler::compile_to_asm(&ast, asm_compiler::AsmTarget::ARM64);
    assert!(arm_asm.contains(".global _start"));

    let wasm_asm = asm_compiler::compile_to_asm(&ast, asm_compiler::AsmTarget::WASM);
    assert!(wasm_asm.contains("(module"));
    assert!(wasm_asm.contains("(func (export \"run\")"));
}

#[test]
fn test_asm_compilation() {
    check_asm_compilation();
}

#[test]
fn lib_test_asm_compilation() {
    check_asm_compilation();
}

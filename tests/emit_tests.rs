use gaiascript::asm_compiler::{compile_to_asm, AsmCompiler, AsmTarget};
use gaiascript::parser::parse;

fn count(hay: &str, needle: &str) -> usize {
    hay.matches(needle).count()
}

#[test]
fn scenario_targets() {
    let ast = parse("N I → C₁ 32 → D₁ 10").unwrap();
    let x86 = compile_to_asm(&ast, AsmTarget::X86_64);
    assert!(x86.contains("section .text"));
    assert!(x86.contains("global _start"));
    assert!(x86.ends_with("    syscall\n"));
    let wasm = compile_to_asm(&ast, AsmTarget::WASM);
    assert!(wasm.starts_with("(module"));
    assert_eq!(count(&wasm, "(func (export \"run\")"), 1);
    let ui = compile_to_asm(&ast, AsmTarget::WASMUI);
    assert!(ui.starts_with("(module"));
    assert!(ui.contains("(func $allocate (export \"allocate\")"));
    assert_eq!(count(&ui, "(export \"run\")"), 1);
}

#[test]
fn exact_x86_text_for_a_small_network() {
    let ast = parse("N D₁ 10 ρ").unwrap();
    let x86 = compile_to_asm(&ast, AsmTarget::X86_64);
    let expected = "; GaiaScript X86-64 Assembly\nsection .text\nglobal _start\n_start:\n    ; Network definition\n    ; Components: None\n    ; Layer: dense with activation relu\n    call gaia_dense_relu\n    mov r0, 10\n    ; Exit system call\n    mov rax, 60 ; sys_exit\n    mov rdi, 0  ; exit code 0\n    syscall\n";
    assert_eq!(x86, expected);
}

#[test]
fn block_emits_one_body_and_one_loop() {
    let ast = parse("N [D 7]×3").unwrap();
    let x86 = compile_to_asm(&ast, AsmTarget::X86_64);
    assert_eq!(count(&x86, "call gaia_dense_none"), 1);
    assert_eq!(count(&x86, "mov rcx, 3\n"), 1);
    assert_eq!(count(&x86, "block_loop_L0:\n"), 1);
    assert_eq!(count(&x86, "jnz block_loop_L0\n"), 1);
    let arm = compile_to_asm(&ast, AsmTarget::ARM64);
    assert_eq!(count(&arm, "bl gaia_dense_none"), 1);
    assert_eq!(count(&arm, "mov x19, #3\n"), 1);
    assert_eq!(count(&arm, "bne block_loop_L0\n"), 1);
    let wasm = compile_to_asm(&ast, AsmTarget::WASM);
    assert_eq!(count(&wasm, "call $dense_none"), 1);
    assert_eq!(count(&wasm, "(loop $block_loop_L0\n"), 1);
    assert_eq!(count(&wasm, "(block $block_end_L1\n"), 1);
    assert_eq!(count(&wasm, "br_if $block_loop_L0\n"), 1);
    assert_eq!(count(&wasm, "(local $temp_0 i32)"), 1);
    assert_eq!(count(&wasm, "    i32.const 3\n"), 1);
}

#[test]
fn sibling_and_nested_blocks_get_distinct_names() {
    let ast = parse("N [D 1]×2 → [[P]×2]×5").unwrap();
    let wasm = compile_to_asm(&ast, AsmTarget::WASM);
    for name in ["block_loop_L0", "block_end_L1", "block_loop_L2", "block_end_L3", "block_loop_L4", "block_end_L5"] {
        assert_eq!(count(&wasm, &format!("(loop ${}\n", name)) + count(&wasm, &format!("(block ${}\n", name)), 1);
    }
    for name in ["temp_0 ", "temp_1 ", "temp_2 "] {
        assert_eq!(count(&wasm, &format!("(local ${}", name)), 1);
    }
}

#[test]
fn data_flow_hands_off_one_value() {
    let ast = parse("N I 4 → D 2").unwrap();
    let x86 = compile_to_asm(&ast, AsmTarget::X86_64);
    let push = x86.find("push rax").unwrap();
    let call = x86.find("call gaia_dense_none").unwrap();
    let pop = x86.find("pop rbx").unwrap();
    assert!(x86.find("call gaia_input_image").unwrap() < push);
    assert!(push < call && call < pop);
}

#[test]
fn input_defaults_are_loaded_before_the_call() {
    let ast = parse("N I").unwrap();
    let x86 = compile_to_asm(&ast, AsmTarget::X86_64);
    assert!(x86.contains("    ; Input: image with params [1, 224, 224, 3]\n    mov r0, 1\n    mov r1, 224\n    mov r2, 224\n    mov r3, 3\n    call gaia_input_image\n"));
    let ast = parse("N T").unwrap();
    let wasm = compile_to_asm(&ast, AsmTarget::WASM);
    assert!(wasm.contains("    i32.const 128  ;; Input parameter 1\n    call $input_text\n"));
}

#[test]
fn large_numbers_are_written_in_full() {
    let ast = parse("N D 1234567890").unwrap();
    let arm = compile_to_asm(&ast, AsmTarget::ARM64);
    assert!(arm.contains("    mov x0, #1234567890\n"));
}

#[test]
fn component_and_loss_lowering() {
    let ast = parse("N⟨enc⟩ enc: D 3\nenc ⊳ out ⟿ mse").unwrap();
    let x86 = compile_to_asm(&ast, AsmTarget::X86_64);
    assert!(x86.contains("    ; Components: Some([\"enc\"])\n"));
    assert!(x86.contains("component_enc:\n    ; Component: enc\n"));
    assert!(x86.contains("    ret\n"));
    assert!(x86.contains("    ; Loss function: mse for component out\n"));
    assert!(x86.contains("    call gaia_loss_mse\n"));
    let wasm = compile_to_asm(&ast, AsmTarget::WASM);
    assert!(wasm.contains("    ;; (func $enc (param i32) (result i32)\n"));
    assert!(wasm.contains("    call $loss_mse\n"));
}

#[test]
fn compiler_postamble_per_compile() {
    let ast = parse("N").unwrap();
    let mut c = AsmCompiler::new(AsmTarget::ARM64);
    let text = c.compile(&ast);
    assert!(text.starts_with("// GaiaScript ARM64 Assembly\n"));
    assert_eq!(count(&text, "svc #0"), 1);
}

#[test]
fn each_compile_starts_over() {
    let ast = parse("N [D 7]×3").unwrap();
    let mut c = AsmCompiler::new(AsmTarget::X86_64);
    let first = c.compile(&ast);
    let second = c.compile(&ast);
    assert_eq!(first, second);
    assert_eq!(first, compile_to_asm(&ast, AsmTarget::X86_64));
    assert_eq!(count(&second, "section .text"), 1);
    assert_eq!(count(&second, "syscall"), 1);
    assert_eq!(count(&second, "block_loop_L0:"), 1);
}

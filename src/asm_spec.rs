use vstd::prelude::*;
use crate::ast::{ActivationFunction, AstView, InputType, LayerType};
use crate::text::dec;

verus! {

/// The instruction sets and text dialects that the assembly emitter targets.
#[derive(Debug, Clone, Copy, PartialEq, Eq, Structural)]
pub enum AsmTarget {
    X86_64,
    ARM64,
    /// WebAssembly text, minimal module.
    WASM,
    /// WebAssembly text with host imports and a memory allocator.
    WASMUI,
}

pub open spec fn is_wasm(t: AsmTarget) -> bool {
    t == AsmTarget::WASM || t == AsmTarget::WASMUI
}

/// The indentation and comment marker that starts a comment line.
pub open spec fn comment(t: AsmTarget) -> Seq<char> {
    match t {
        AsmTarget::X86_64 => "    ; "@,
        AsmTarget::ARM64 => "    // "@,
        _ => "    ;; "@,
    }
}

pub open spec fn layer_name(l: LayerType) -> Seq<char> {
    match l {
        LayerType::Convolutional(_) => "conv"@,
        LayerType::Dense(_) => "dense"@,
        LayerType::Pooling => "pooling"@,
        LayerType::Flatten => "flatten"@,
        LayerType::Upsampling => "upsampling"@,
        LayerType::LSTM => "lstm"@,
        LayerType::AttentionHeads => "attention_heads"@,
        LayerType::Reshape => "reshape"@,
        LayerType::Embedding => "embedding"@,
        LayerType::BatchSize => "batch_size"@,
        LayerType::TransposeConv => "transpose_conv"@,
        LayerType::Attention => "attention"@,
    }
}

pub open spec fn activation_name(a: ActivationFunction) -> Seq<char> {
    match a {
        ActivationFunction::ReLU => "relu"@,
        ActivationFunction::Sigmoid => "sigmoid"@,
        ActivationFunction::Tanh => "tanh"@,
        ActivationFunction::Softmax => "softmax"@,
        ActivationFunction::Linear => "none"@,
    }
}

pub open spec fn input_name(i: InputType) -> Seq<char> {
    match i {
        InputType::Text => "text"@,
        InputType::Image => "image"@,
        InputType::Sequence => "sequence"@,
        InputType::Latent => "latent"@,
    }
}

/// The shape an input takes when it is given no parameters.
pub open spec fn default_shape(i: InputType) -> Seq<usize> {
    match i {
        InputType::Image => seq![1usize, 224usize, 224usize, 3usize],
        InputType::Text => seq![1usize, 128usize],
        InputType::Sequence => seq![1usize, 100usize],
        InputType::Latent => seq![1usize, 100usize],
    }
}

/// The shape an input is loaded with: its parameters, or its default when it has none.
pub open spec fn input_shape(i: InputType, params: Seq<usize>) -> Seq<usize> {
    if params.len() == 0 {
        default_shape(i)
    } else {
        params
    }
}

/// `[a, b, c]`: a list of numbers as text.
pub open spec fn list_text(ps: Seq<usize>) -> Seq<char> {
    "["@ + list_items(ps) + "]"@
}

pub open spec fn list_items(ps: Seq<usize>) -> Seq<char>
    decreases ps.len(),
{
    if ps.len() == 0 {
        Seq::empty()
    } else if ps.len() == 1 {
        dec(ps[0] as nat)
    } else {
        list_items(ps.subrange(0, ps.len() - 1)) + ", "@ + dec(ps[ps.len() - 1] as nat)
    }
}

/// `Some(["a", "b"])` or `None`: the declared components as text.
pub open spec fn components_text(c: Option<Seq<Seq<char>>>) -> Seq<char> {
    match c {
        Option::Some(ids) => "Some(["@ + quoted_items(ids) + "])"@,
        Option::None => "None"@,
    }
}

pub open spec fn quoted_items(ids: Seq<Seq<char>>) -> Seq<char>
    decreases ids.len(),
{
    if ids.len() == 0 {
        Seq::empty()
    } else if ids.len() == 1 {
        "\""@ + ids[0] + "\""@
    } else {
        quoted_items(ids.subrange(0, ids.len() - 1)) + ", \""@ + ids[ids.len() - 1] + "\""@
    }
}

/// The instruction that loads parameter `p` in position `i`; on WASM the
/// trailing comment names it with `note`.
pub open spec fn param_line(t: AsmTarget, i: nat, p: usize, note: Seq<char>) -> Seq<char> {
    match t {
        AsmTarget::X86_64 => "    mov r"@ + dec(i) + ", "@ + dec(p as nat) + "\n"@,
        AsmTarget::ARM64 => "    mov x"@ + dec(i) + ", #"@ + dec(p as nat) + "\n"@,
        _ => "    i32.const "@ + dec(p as nat) + note + dec(i) + "\n"@,
    }
}

/// One loading instruction per parameter, in order.
pub open spec fn param_lines(t: AsmTarget, ps: Seq<usize>, note: Seq<char>) -> Seq<char>
    decreases ps.len(),
{
    if ps.len() == 0 {
        Seq::empty()
    } else {
        param_lines(t, ps.subrange(0, ps.len() - 1), note) + param_line(
            t,
            (ps.len() - 1) as nat,
            ps[ps.len() - 1],
            note,
        )
    }
}

pub open spec fn layer_note() -> Seq<char> {
    "  ;; Parameter "@
}

pub open spec fn input_note() -> Seq<char> {
    "  ;; Input parameter "@
}

pub open spec fn layer_call(t: AsmTarget, l: Seq<char>, a: Seq<char>) -> Seq<char> {
    match t {
        AsmTarget::X86_64 => "    call gaia_"@ + l + "_"@ + a + "\n"@,
        AsmTarget::ARM64 => "    bl gaia_"@ + l + "_"@ + a + "\n"@,
        _ => "    call $"@ + l + "_"@ + a + "  ;; Call the layer function\n"@,
    }
}

pub open spec fn layer_text(
    t: AsmTarget,
    l: LayerType,
    params: Seq<usize>,
    a: ActivationFunction,
) -> Seq<char> {
    comment(t) + "Layer: "@ + layer_name(l) + " with activation "@ + activation_name(a) + "\n"@
        + layer_call(t, layer_name(l), activation_name(a)) + param_lines(t, params, layer_note())
}

pub open spec fn input_call(t: AsmTarget, i: Seq<char>) -> Seq<char> {
    match t {
        AsmTarget::X86_64 => "    call gaia_input_"@ + i + "\n"@,
        AsmTarget::ARM64 => "    bl gaia_input_"@ + i + "\n"@,
        _ => "    call $input_"@ + i + "\n"@,
    }
}

/// An input loads its shape, then calls the constructor for its kind.
pub open spec fn input_text(t: AsmTarget, i: InputType, params: Seq<usize>) -> Seq<char> {
    comment(t) + "Input: "@ + input_name(i) + " with params "@ + list_text(input_shape(i, params))
        + "\n"@ + param_lines(t, input_shape(i, params), input_note()) + input_call(
        t,
        input_name(i),
    )
}

/// The name of the `k`-th label, made from a prefix and the label counter.
pub open spec fn label_name(prefix: Seq<char>, k: nat) -> Seq<char> {
    prefix + "_L"@ + dec(k)
}

/// The name of the `k`-th temporary.
pub open spec fn temp_name(k: nat) -> Seq<char> {
    "temp_"@ + dec(k)
}

pub open spec fn loop_label(k: nat) -> Seq<char> {
    label_name("block_loop"@, k)
}

pub open spec fn end_label(k: nat) -> Seq<char> {
    label_name("block_end"@, k)
}

/// What opens a repeated block: the counter set to `n`, then the loop head.
pub open spec fn block_open(t: AsmTarget, n: usize, lp: Seq<char>, end: Seq<char>, ctr: Seq<char>) -> Seq<char> {
    comment(t) + "Block with "@ + dec(n as nat) + " repetitions\n"@ + block_init(t, n, lp, end, ctr)
}

pub open spec fn block_init(t: AsmTarget, n: usize, lp: Seq<char>, end: Seq<char>, ctr: Seq<char>) -> Seq<char> {
    match t {
        AsmTarget::X86_64 => "    mov rcx, "@ + dec(n as nat) + "\n"@ + lp + ":\n"@ + "    push rcx\n"@,
        AsmTarget::ARM64 => "    mov x19, #"@ + dec(n as nat) + "\n"@ + lp + ":\n"@
            + "    str x19, [sp, #-16]!\n"@,
        _ => "    (local $"@ + ctr + " i32)  ;; Loop counter\n"@ + "    i32.const "@ + dec(n as nat)
            + "\n"@ + "    local.set $"@ + ctr + "\n"@ + "    (block $"@ + end + "\n"@
            + "      (loop $"@ + lp + "\n"@,
    }
}

/// What closes a repeated block: decrement the counter and branch back while it is not zero.
pub open spec fn block_close(t: AsmTarget, lp: Seq<char>, ctr: Seq<char>) -> Seq<char> {
    match t {
        AsmTarget::X86_64 => "    pop rcx\n"@ + "    dec rcx\n"@ + "    jnz "@ + lp + "\n"@,
        AsmTarget::ARM64 => "    ldr x19, [sp], #16\n"@ + "    subs x19, x19, #1\n"@ + "    bne "@ + lp
            + "\n"@,
        _ => "        local.get $"@ + ctr + "\n"@ + "        i32.const 1\n"@ + "        i32.sub\n"@
            + "        local.tee $"@ + ctr + "\n"@ + "        i32.const 0\n"@ + "        i32.gt_s\n"@
            + "        br_if $"@ + lp + "\n"@ + "      )\n"@ + "    )\n"@,
    }
}

/// The hand-off of the single live value after the producing side of a data flow.
pub open spec fn flow_save(t: AsmTarget) -> Seq<char> {
    match t {
        AsmTarget::X86_64 => "    ; Connect layers (dataflow)\n"@
            + "    push rax  ; Save output from previous layer\n"@,
        AsmTarget::ARM64 => "    // Connect layers (dataflow)\n"@
            + "    str x0, [sp, #-16]!  // Save output from previous layer\n"@,
        _ => "    ;; Connect layers (dataflow)\n"@ + "    ;; Previous layer result is on stack\n"@,
    }
}

/// The retrieval of the handed-off value after the consuming side.
pub open spec fn flow_restore(t: AsmTarget) -> Seq<char> {
    match t {
        AsmTarget::X86_64 => "    pop rbx  ; Get input from previous layer\n"@
            + "    ; Connect layers and continue processing\n"@,
        AsmTarget::ARM64 => "    ldr x1, [sp], #16  // Get input from previous layer\n"@
            + "    // Connect layers and continue processing\n"@,
        _ => "    ;; Connect layers and continue processing\n"@,
    }
}

pub open spec fn loss_head(t: AsmTarget, to: Seq<char>, f: Seq<char>) -> Seq<char> {
    comment(t) + "Loss function: "@ + f + " for component "@ + to + "\n"@
}

pub open spec fn loss_call(t: AsmTarget, f: Seq<char>) -> Seq<char> {
    match t {
        AsmTarget::X86_64 => "    call gaia_loss_"@ + f + "\n"@,
        AsmTarget::ARM64 => "    bl gaia_loss_"@ + f + "\n"@,
        _ => "    call $loss_"@ + f + "\n"@,
    }
}

pub open spec fn component_head(t: AsmTarget, id: Seq<char>) -> Seq<char> {
    if is_wasm(t) {
        comment(t) + "Component: "@ + id + "\n"@ + "    ;; (func $"@ + id + " (param i32) (result i32)\n"@
    } else {
        "component_"@ + id + ":\n"@ + comment(t) + "Component: "@ + id + "\n"@
    }
}

pub open spec fn component_tail(t: AsmTarget) -> Seq<char> {
    if is_wasm(t) {
        "    ;; )\n"@
    } else {
        "    ret\n"@
    }
}

pub open spec fn network_head(t: AsmTarget, c: Option<Seq<Seq<char>>>) -> Seq<char> {
    comment(t) + "Network definition\n"@ + comment(t) + "Components: "@ + components_text(c) + "\n"@
}

/// The number of repeated blocks in a tree; each takes two labels and one temporary.
pub open spec fn blocks(n: AstView) -> nat
    decreases n,
{
    match n {
        AstView::Network { body, .. } => blocks_seq(body),
        AstView::Component { expr, .. } => blocks(*expr),
        AstView::Block { content, .. } => 1 + blocks(*content),
        AstView::DataFlow { from, to } => blocks(*from) + blocks(*to),
        AstView::Loss { from, .. } => blocks(*from),
        AstView::Expression { items } => blocks_seq(items),
        _ => 0,
    }
}

pub open spec fn blocks_seq(s: Seq<AstView>) -> nat
    decreases s,
{
    if s.len() == 0 {
        0
    } else {
        blocks_seq(s.subrange(0, s.len() - 1)) + blocks(s[s.len() - 1])
    }
}

/// The text emitted for a tree, where `lc` and `tc` are the label and
/// temporary counters when its emission starts.
pub open spec fn emit(t: AsmTarget, n: AstView, lc: nat, tc: nat) -> Seq<char>
    decreases n,
{
    match n {
        AstView::Network { components, body } => network_head(t, components) + emit_seq(
            t,
            body,
            lc,
            tc,
        ),
        AstView::Component { id, expr } => component_head(t, id) + emit(t, *expr, lc, tc)
            + component_tail(t),
        AstView::Layer { layer_type, params, activation } => layer_text(
            t,
            layer_type,
            params,
            activation,
        ),
        AstView::Block { content, repetitions } => block_open(
            t,
            repetitions,
            loop_label(lc),
            end_label(lc + 1),
            temp_name(tc),
        ) + emit(t, *content, lc + 2, tc + 1) + block_close(t, loop_label(lc), temp_name(tc)),
        AstView::Input { input_type, params } => input_text(t, input_type, params),
        AstView::DataFlow { from, to } => emit(t, *from, lc, tc) + flow_save(t) + emit(
            t,
            *to,
            lc + 2 * blocks(*from),
            tc + blocks(*from),
        ) + flow_restore(t),
        AstView::Loss { from, to, function } => loss_head(t, to, function) + emit(t, *from, lc, tc)
            + loss_call(t, function),
        AstView::Expression { items } => emit_seq(t, items, lc, tc),
        _ => Seq::empty(),
    }
}

pub open spec fn emit_seq(t: AsmTarget, s: Seq<AstView>, lc: nat, tc: nat) -> Seq<char>
    decreases s,
{
    if s.len() == 0 {
        Seq::empty()
    } else {
        let init = s.subrange(0, s.len() - 1);
        emit_seq(t, init, lc, tc) + emit(
            t,
            s[s.len() - 1],
            lc + 2 * blocks_seq(init),
            tc + blocks_seq(init),
        )
    }
}

/// The module or file header of each target.
pub open spec fn preamble(t: AsmTarget) -> Seq<char> {
    match t {
        AsmTarget::X86_64 => "; GaiaScript X86-64 Assembly\n"@ + "section .text\n"@ + "global _start\n"@
            + "_start:\n"@,
        AsmTarget::ARM64 => "// GaiaScript ARM64 Assembly\n"@ + ".text\n"@ + ".global _start\n"@
            + "_start:\n"@,
        AsmTarget::WASM => "(module\n"@ + "  ;; GaiaScript WebAssembly\n"@
            + "  (memory (export \"memory\") 1)\n"@ + "  (func (export \"run\") (result i32)\n"@,
        AsmTarget::WASMUI => wasm_ui_preamble(),
    }
}

pub open spec fn wasm_ui_preamble() -> Seq<char> {
    "(module\n"@ + "  ;; GaiaUI WebAssembly Component\n"@ + "  ;; Import JavaScript environment\n"@
        + "  (import \"env\" \"memory\" (memory 1))\n"@
        + "  (import \"env\" \"log_value\" (func $log_value (param i32)))\n"@
        + "  (import \"env\" \"update_dom\" (func $update_dom (param i32 i32)))\n"@ + "\n"@
        + "  ;; Global state management\n"@
        + "  (global $next_alloc_ptr (mut i32) (i32.const 1024))\n"@
        + "  (global $component_counter (mut i32) (i32.const 0))\n"@ + "\n"@
        + "  ;; Memory allocation\n"@
        + "  (func $allocate (export \"allocate\") (param $size i32) (result i32)\n"@
        + "    (local $ptr i32)\n"@ + "    global.get $next_alloc_ptr\n"@ + "    local.set $ptr\n"@
        + "    global.get $next_alloc_ptr\n"@ + "    local.get $size\n"@ + "    i32.add\n"@
        + "    i32.const 7\n"@ + "    i32.add\n"@ + "    i32.const -8\n"@ + "    i32.and\n"@
        + "    global.set $next_alloc_ptr\n"@ + "    local.get $ptr\n"@ + "  )\n"@
}

/// The exit sequence or closing of each target.
pub open spec fn postamble(t: AsmTarget) -> Seq<char> {
    match t {
        AsmTarget::X86_64 => "    ; Exit system call\n"@ + "    mov rax, 60 ; sys_exit\n"@
            + "    mov rdi, 0  ; exit code 0\n"@ + "    syscall\n"@,
        AsmTarget::ARM64 => "    // Exit\n"@ + "    mov x0, #0  // Exit code 0\n"@
            + "    mov x8, #93 // sys_exit\n"@ + "    svc #0\n"@,
        AsmTarget::WASM => "    i32.const 0 ;; Return value\n"@ + "  )\n"@ + ")\n"@,
        AsmTarget::WASMUI => "  ;; Main entry point (run function)\n"@
            + "  (func $run (export \"run\") (result i32)\n"@ + "    i32.const 0  ;; Success return code\n"@
            + "  )\n"@ + ")\n"@,
    }
}

} // verus!

use vstd::prelude::*;
use vstd::string::*;
use crate::asm_spec::{
    activation_name, block_close, block_init, block_open, blocks, blocks_seq, comment,
    component_head, component_tail, components_text, emit, emit_seq, end_label, flow_restore,
    flow_save, input_call, input_name, input_shape, input_text, is_wasm, label_name, layer_call,
    layer_name, layer_text, list_items, list_text, loop_label, loss_call, loss_head, network_head,
    param_line, param_lines, postamble, preamble, quoted_items, temp_name,
};
use crate::ast::{
    lemma_nodes_view, node_view, nodes_view, strings_view, ASTNode, ActivationFunction, BlockNode,
    ComponentNode, InputNode, InputType, LayerNode, LayerType, LossNode, NetworkNode,
};
use crate::text::{dec, push_dec};

use crate::asm_laws::{
    grown, lemma_grown_compose, lemma_names_are_slots, lemma_slot_names_differ, lemma_slots_len,
    lemma_slots_prepend, names, slots,
};

pub use crate::asm_spec::AsmTarget;

verus! {

/// Lowers a syntax tree to assembly or WebAssembly text for one target.
/// Label and temporary names come from two counters that only grow.
pub struct AsmCompiler {
    target: AsmTarget,
    code: String,
    temp_var_count: usize,
    label_count: usize,
    issued: Ghost<Seq<Seq<char>>>,
}

/// `b` is `a` after emitting `piece` and using the names of `k` blocks.
pub open spec fn advanced(a: AsmCompiler, b: AsmCompiler, piece: Seq<char>, k: nat) -> bool {
    &&& b.target_of() == a.target_of()
    &&& b.text() == a.text() + piece
    &&& b.labels() == a.labels() + 2 * k
    &&& b.temps() == a.temps() + k
    &&& b.issued() == grown(a.issued(), k, a.labels(), a.temps())
}

/// The counters leave room for the names of `k` more blocks.
pub open spec fn room_for(c: AsmCompiler, k: nat) -> bool {
    c.labels() + 2 * k <= usize::MAX && c.temps() + k <= usize::MAX
}

impl AsmCompiler {
    pub closed spec fn target_of(&self) -> AsmTarget {
        self.target
    }

    /// The text emitted so far.
    pub closed spec fn text(&self) -> Seq<char> {
        self.code@
    }

    /// The number of labels made so far.
    pub closed spec fn labels(&self) -> nat {
        self.label_count as nat
    }

    /// The number of temporaries made so far.
    pub closed spec fn temps(&self) -> nat {
        self.temp_var_count as nat
    }

    /// Every label and temporary name made since the text last started
    /// over, in the order they were made.
    pub closed spec fn issued(&self) -> Seq<Seq<char>> {
        self.issued@
    }

    /// A compiler for `target` whose text holds the target's preamble.
    pub fn new(target: AsmTarget) -> (r: AsmCompiler)
        ensures
            r.target_of() == target,
            r.text() == preamble(target),
            r.labels() == 0,
            r.temps() == 0,
            r.issued() == Seq::<Seq<char>>::empty(),
    {
        let mut compiler = AsmCompiler {
            target,
            code: String::new(),
            temp_var_count: 0,
            label_count: 0,
            issued: Ghost(Seq::empty()),
        };
        compiler.add_preamble();
        assert(compiler.code@ =~= preamble(target));
        compiler
    }

    fn put(&mut self, s: &str)
        ensures
            advanced(*old(self), *final(self), s@, 0),
    {
        self.code.append(s);
    }

    fn put_dec(&mut self, n: usize)
        ensures
            advanced(*old(self), *final(self), dec(n as nat), 0),
    {
        push_dec(&mut self.code, n);
    }

    fn put_comment(&mut self)
        ensures
            advanced(*old(self), *final(self), comment(old(self).target), 0),
    {
        match self.target {
            AsmTarget::X86_64 => self.put("    ; "),
            AsmTarget::ARM64 => self.put("    // "),
            _ => self.put("    ;; "),
        }
    }

    /// A fresh label: `prefix`, `_L` and the label counter, which then grows by one.
    fn new_label(&mut self, prefix: &str) -> (r: String)
        requires
            old(self).label_count < usize::MAX,
        ensures
            r@ == label_name(prefix@, old(self).label_count as nat),
            final(self).label_count == old(self).label_count + 1,
            final(self).temp_var_count == old(self).temp_var_count,
            final(self).code@ == old(self).code@,
            final(self).target == old(self).target,
            final(self).issued@ == old(self).issued@.push(r@),
    {
        let mut label = String::from_str(prefix);
        label.append("_L");
        push_dec(&mut label, self.label_count);
        self.label_count = self.label_count + 1;
        self.issued = Ghost(self.issued@.push(label@));
        assert(label@ =~= label_name(prefix@, old(self).label_count as nat));
        label
    }

    /// A fresh temporary: `temp_` and the temporary counter, which then grows by one.
    fn new_temp(&mut self) -> (r: String)
        requires
            old(self).temp_var_count < usize::MAX,
        ensures
            r@ == temp_name(old(self).temp_var_count as nat),
            final(self).temp_var_count == old(self).temp_var_count + 1,
            final(self).label_count == old(self).label_count,
            final(self).code@ == old(self).code@,
            final(self).target == old(self).target,
            final(self).issued@ == old(self).issued@.push(r@),
    {
        let mut temp = String::from_str("temp_");
        push_dec(&mut temp, self.temp_var_count);
        self.temp_var_count = self.temp_var_count + 1;
        self.issued = Ghost(self.issued@.push(temp@));
        assert(temp@ =~= temp_name(old(self).temp_var_count as nat));
        temp
    }

    fn add_preamble(&mut self)
        ensures
            advanced(*old(self), *final(self), preamble(old(self).target), 0),
    {
        match self.target {
            AsmTarget::X86_64 => {
                self.put("; GaiaScript X86-64 Assembly\n");
                self.put("section .text\n");
                self.put("global _start\n");
                self.put("_start:\n");
            },
            AsmTarget::ARM64 => {
                self.put("// GaiaScript ARM64 Assembly\n");
                self.put(".text\n");
                self.put(".global _start\n");
                self.put("_start:\n");
            },
            AsmTarget::WASM => {
                self.put("(module\n");
                self.put("  ;; GaiaScript WebAssembly\n");
                self.put("  (memory (export \"memory\") 1)\n");
                self.put("  (func (export \"run\") (result i32)\n");
            },
            AsmTarget::WASMUI => {
                self.put("(module\n");
                self.put("  ;; GaiaUI WebAssembly Component\n");
                self.put("  ;; Import JavaScript environment\n");
                self.put("  (import \"env\" \"memory\" (memory 1))\n");
                self.put("  (import \"env\" \"log_value\" (func $log_value (param i32)))\n");
                self.put("  (import \"env\" \"update_dom\" (func $update_dom (param i32 i32)))\n");
                self.put("\n");
                self.put("  ;; Global state management\n");
                self.put("  (global $next_alloc_ptr (mut i32) (i32.const 1024))\n");
                self.put("  (global $component_counter (mut i32) (i32.const 0))\n");
                self.put("\n");
                self.put("  ;; Memory allocation\n");
                self.put("  (func $allocate (export \"allocate\") (param $size i32) (result i32)\n");
                self.put("    (local $ptr i32)\n");
                self.put("    global.get $next_alloc_ptr\n");
                self.put("    local.set $ptr\n");
                self.put("    global.get $next_alloc_ptr\n");
                self.put("    local.get $size\n");
                self.put("    i32.add\n");
                self.put("    i32.const 7\n");
                self.put("    i32.add\n");
                self.put("    i32.const -8\n");
                self.put("    i32.and\n");
                self.put("    global.set $next_alloc_ptr\n");
                self.put("    local.get $ptr\n");
                self.put("  )\n");
            },
        }
        assert(self.code@ =~= old(self).code@ + preamble(old(self).target));
    }

    fn add_postamble(&mut self)
        ensures
            advanced(*old(self), *final(self), postamble(old(self).target), 0),
    {
        match self.target {
            AsmTarget::X86_64 => {
                self.put("    ; Exit system call\n");
                self.put("    mov rax, 60 ; sys_exit\n");
                self.put("    mov rdi, 0  ; exit code 0\n");
                self.put("    syscall\n");
            },
            AsmTarget::ARM64 => {
                self.put("    // Exit\n");
                self.put("    mov x0, #0  // Exit code 0\n");
                self.put("    mov x8, #93 // sys_exit\n");
                self.put("    svc #0\n");
            },
            AsmTarget::WASM => {
                self.put("    i32.const 0 ;; Return value\n");
                self.put("  )\n");
                self.put(")\n");
            },
            AsmTarget::WASMUI => {
                self.put("  ;; Main entry point (run function)\n");
                self.put("  (func $run (export \"run\") (result i32)\n");
                self.put("    i32.const 0  ;; Success return code\n");
                self.put("  )\n");
                self.put(")\n");
            },
        }
        assert(self.code@ =~= old(self).code@ + postamble(old(self).target));
    }
}

} // verus!

verus! {

/// A prefix of a tree list holds no more blocks than the whole list.
proof fn lemma_blocks_prefix(s: Seq<crate::ast::AstView>, i: int)
    requires
        0 <= i <= s.len(),
    ensures
        blocks_seq(s.subrange(0, i)) <= blocks_seq(s),
    decreases s.len(),
{
    if i == s.len() {
        assert(s.subrange(0, i) == s);
    } else {
        let init = s.subrange(0, s.len() - 1);
        lemma_blocks_prefix(init, i);
        assert(init.subrange(0, i) == s.subrange(0, i));
    }
}

fn layer_str(l: LayerType) -> (r: &'static str)
    ensures
        r@ == layer_name(l),
{
    match l {
        LayerType::Convolutional(_) => "conv",
        LayerType::Dense(_) => "dense",
        LayerType::Pooling => "pooling",
        LayerType::Flatten => "flatten",
        LayerType::Upsampling => "upsampling",
        LayerType::LSTM => "lstm",
        LayerType::AttentionHeads => "attention_heads",
        LayerType::Reshape => "reshape",
        LayerType::Embedding => "embedding",
        LayerType::BatchSize => "batch_size",
        LayerType::TransposeConv => "transpose_conv",
        LayerType::Attention => "attention",
    }
}

fn activation_str(a: ActivationFunction) -> (r: &'static str)
    ensures
        r@ == activation_name(a),
{
    match a {
        ActivationFunction::ReLU => "relu",
        ActivationFunction::Sigmoid => "sigmoid",
        ActivationFunction::Tanh => "tanh",
        ActivationFunction::Softmax => "softmax",
        ActivationFunction::Linear => "none",
    }
}

fn input_str(i: InputType) -> (r: &'static str)
    ensures
        r@ == input_name(i),
{
    match i {
        InputType::Text => "text",
        InputType::Image => "image",
        InputType::Sequence => "sequence",
        InputType::Latent => "latent",
    }
}

/// The shape that an input node is loaded with.
pub fn shape_of(input: &InputNode) -> (r: Vec<usize>)
    ensures
        r@ == input_shape(input.input_type, input.params@),
{
    if input.params.len() > 0 {
        input.params.clone()
    } else {
        let r = match input.input_type {
            InputType::Image => vec![1, 224, 224, 3],
            InputType::Text => vec![1, 128],
            InputType::Sequence => vec![1, 100],
            InputType::Latent => vec![1, 100],
        };
        assert(r@ =~= input_shape(input.input_type, input.params@));
        r
    }
}

impl AsmCompiler {
    fn put_param(&mut self, i: usize, p: usize, note: &str)
        ensures
            advanced(*old(self), *final(self), param_line(old(self).target, i as nat, p, note@), 0),
    {
        match self.target {
            AsmTarget::X86_64 => {
                self.put("    mov r");
                self.put_dec(i);
                self.put(", ");
                self.put_dec(p);
            },
            AsmTarget::ARM64 => {
                self.put("    mov x");
                self.put_dec(i);
                self.put(", #");
                self.put_dec(p);
            },
            _ => {
                self.put("    i32.const ");
                self.put_dec(p);
                self.put(note);
                self.put_dec(i);
            },
        }
        self.put("\n");
        assert(self.code@ =~= old(self).code@ + param_line(old(self).target, i as nat, p, note@));
    }

    fn put_params(&mut self, ps: &Vec<usize>, note: &str)
        ensures
            advanced(*old(self), *final(self), param_lines(old(self).target, ps@, note@), 0),
    {
        let mut i: usize = 0;
        while i < ps.len()
            invariant
                i <= ps.len(),
                advanced(
                    *old(self),
                    *self,
                    param_lines(old(self).target, ps@.subrange(0, i as int), note@),
                    0,
                ),
            decreases ps.len() - i,
        {
            self.put_param(i, ps[i], note);
            proof {
                let next = ps@.subrange(0, i + 1);
                assert(next.subrange(0, i as int) == ps@.subrange(0, i as int));
                assert(self.code@ =~= old(self).code@ + param_lines(old(self).target, next, note@));
            }
            i = i + 1;
        }
        assert(ps@.subrange(0, ps.len() as int) == ps@);
    }

    fn put_list(&mut self, ps: &Vec<usize>)
        ensures
            advanced(*old(self), *final(self), list_text(ps@), 0),
    {
        self.put("[");
        let mut i: usize = 0;
        while i < ps.len()
            invariant
                i <= ps.len(),
                advanced(*old(self), *self, "["@ + list_items(ps@.subrange(0, i as int)), 0),
            decreases ps.len() - i,
        {
            if i > 0 {
                self.put(", ");
            }
            self.put_dec(ps[i]);
            proof {
                let next = ps@.subrange(0, i + 1);
                assert(next.subrange(0, i as int) == ps@.subrange(0, i as int));
                assert(self.code@ =~= old(self).code@ + ("["@ + list_items(next)));
            }
            i = i + 1;
        }
        self.put("]");
        assert(ps@.subrange(0, ps.len() as int) == ps@);
        assert(self.code@ =~= old(self).code@ + list_text(ps@));
    }

    fn put_components(&mut self, c: &Option<Vec<String>>)
        ensures
            advanced(
                *old(self),
                *final(self),
                components_text(crate::ast::option_strings_view(*c)),
                0,
            ),
    {
        match c {
            Option::Some(ids) => {
                let ghost v = strings_view(ids@);
                self.put("Some([");
                let mut i: usize = 0;
                while i < ids.len()
                    invariant
                        i <= ids.len(),
                        v == strings_view(ids@),
                        advanced(
                            *old(self),
                            *self,
                            "Some(["@ + quoted_items(v.subrange(0, i as int)),
                            0,
                        ),
                    decreases ids.len() - i,
                {
                    if i > 0 {
                        self.put(", \"");
                    } else {
                        self.put("\"");
                    }
                    self.put(ids[i].as_str());
                    self.put("\"");
                    proof {
                        assert(v[i as int] == ids@[i as int]@);
                        let next = v.subrange(0, i + 1);
                        assert(next.subrange(0, i as int) == v.subrange(0, i as int));
                        assert(self.code@ =~= old(self).code@ + ("Some(["@ + quoted_items(next)));
                    }
                    i = i + 1;
                }
                self.put("])");
                assert(v.subrange(0, ids.len() as int) == v);
                assert(self.code@ =~= old(self).code@ + components_text(
                    crate::ast::option_strings_view(*c),
                ));
            },
            Option::None => {
                self.put("None");
            },
        }
    }

    fn compile_layer(&mut self, layer: &LayerNode)
        ensures
            advanced(
                *old(self),
                *final(self),
                layer_text(old(self).target, layer.layer_type, layer.params@, layer.activation),
                0,
            ),
    {
        let layer_s = layer_str(layer.layer_type);
        let activation_s = activation_str(layer.activation);
        self.put_comment();
        self.put("Layer: ");
        self.put(layer_s);
        self.put(" with activation ");
        self.put(activation_s);
        self.put("\n");
        match self.target {
            AsmTarget::X86_64 => self.put("    call gaia_"),
            AsmTarget::ARM64 => self.put("    bl gaia_"),
            _ => self.put("    call $"),
        }
        self.put(layer_s);
        self.put("_");
        self.put(activation_s);
        if is_wasm_target(self.target) {
            self.put("  ;; Call the layer function\n");
        } else {
            self.put("\n");
        }
        let ghost mid = self.code@;
        assert(mid =~= old(self).code@ + comment(self.target) + "Layer: "@ + layer_s@
            + " with activation "@ + activation_s@ + "\n"@ + layer_call(
            self.target,
            layer_s@,
            activation_s@,
        ));
        self.put_params(&layer.params, "  ;; Parameter ");
        assert(self.code@ =~= old(self).code@ + layer_text(
            old(self).target,
            layer.layer_type,
            layer.params@,
            layer.activation,
        ));
    }

    fn compile_input(&mut self, input: &InputNode)
        ensures
            advanced(
                *old(self),
                *final(self),
                input_text(old(self).target, input.input_type, input.params@),
                0,
            ),
    {
        let kind = input_str(input.input_type);
        let shape = shape_of(input);
        self.put_comment();
        self.put("Input: ");
        self.put(kind);
        self.put(" with params ");
        self.put_list(&shape);
        self.put("\n");
        self.put_params(&shape, "  ;; Input parameter ");
        let ghost mid = self.code@;
        match self.target {
            AsmTarget::X86_64 => self.put("    call gaia_input_"),
            AsmTarget::ARM64 => self.put("    bl gaia_input_"),
            _ => self.put("    call $input_"),
        }
        self.put(kind);
        self.put("\n");
        assert(self.code@ =~= mid + input_call(self.target, kind@));
        assert(self.code@ =~= old(self).code@ + input_text(
            old(self).target,
            input.input_type,
            input.params@,
        ));
    }
}

fn is_wasm_target(t: AsmTarget) -> (r: bool)
    ensures
        r == is_wasm(t),
{
    match t {
        AsmTarget::WASM | AsmTarget::WASMUI => true,
        _ => false,
    }
}

} // verus!

verus! {

impl AsmCompiler {
    /// Lowers `ast` afresh: the text and both counters start over, so the
    /// result holds the target's preamble once, the lowered tree, then the
    /// closing sequence once. Every label and temporary made during the call
    /// is recorded, and no two of them are textually equal.
    pub fn compile(&mut self, ast: &ASTNode) -> (r: String)
        requires
            2 * blocks(ast@) <= usize::MAX,
        ensures
            r@ == preamble(old(self).target_of()) + emit(old(self).target_of(), ast@, 0, 0)
                + postamble(old(self).target_of()),
            final(self).target_of() == old(self).target_of(),
            final(self).text() == r@,
            final(self).labels() == 2 * blocks(ast@),
            final(self).temps() == blocks(ast@),
            final(self).issued() == names(ast@, 0, 0),
            forall|i: int, j: int|
                0 <= i < j < final(self).issued().len() ==> #[trigger] final(self).issued()[i]
                    != #[trigger] final(self).issued()[j],
    {
        self.code = String::new();
        self.label_count = 0;
        self.temp_var_count = 0;
        self.issued = Ghost(Seq::empty());
        self.add_preamble();
        let ghost start = self.code@;
        assert(start =~= preamble(self.target));
        self.generate_code(ast);
        self.add_postamble();
        assert(self.code@ =~= preamble(old(self).target) + emit(old(self).target, ast@, 0, 0)
            + postamble(old(self).target));
        proof {
            lemma_names_are_slots(ast@, 0, 0);
            lemma_slots_len(blocks(ast@), 0, 0);
            if blocks(ast@) == 0 {
                assert(slots(0, 0, 0) =~= Seq::<Seq<char>>::empty());
            } else {
                assert(Seq::<Seq<char>>::empty() + slots(blocks(ast@), 0, 0) =~= slots(
                    blocks(ast@),
                    0,
                    0,
                ));
            }
            assert forall|i: int, j: int| 0 <= i < j < self.issued@.len() implies self.issued@[i]
                != self.issued@[j] by {
                lemma_slot_names_differ(i, j, 0, 0, blocks(ast@));
            }
        }
        self.code.clone()
    }

    /// Dispatches on the kind of `node`; user-interface and 3D nodes emit nothing.
    fn generate_code(&mut self, node: &ASTNode)
        requires
            room_for(*old(self), blocks(node@)),
        ensures
            advanced(
                *old(self),
                *final(self),
                emit(old(self).target, node@, old(self).labels(), old(self).temps()),
                blocks(node@),
            ),
        decreases node, 1nat,
    {
        match node {
            ASTNode::Network(network) => self.compile_network(network),
            ASTNode::Component(component) => self.compile_component(component),
            ASTNode::Layer(layer) => self.compile_layer(layer),
            ASTNode::Block(block) => self.compile_block(block),
            ASTNode::Input(input) => self.compile_input(input),
            ASTNode::DataFlow(_, _) => self.compile_dataflow(node),
            ASTNode::Loss(loss) => self.compile_loss(loss),
            ASTNode::Expression(expr) => self.compile_expression(expr),
            _ => {
                assert(self.code@ =~= old(self).code@ + Seq::<char>::empty());
            },
        }
    }

    fn compile_network(&mut self, network: &NetworkNode)
        requires
            room_for(*old(self), blocks_seq(nodes_view(network.body@))),
        ensures
            advanced(
                *old(self),
                *final(self),
                emit(
                    old(self).target,
                    node_view(ASTNode::Network(*network)),
                    old(self).labels(),
                    old(self).temps(),
                ),
                blocks_seq(nodes_view(network.body@)),
            ),
        decreases network, 0nat,
    {
        self.put_comment();
        self.put("Network definition\n");
        self.put_comment();
        self.put("Components: ");
        self.put_components(&network.components);
        self.put("\n");
        let ghost mid = self.code@;
        assert(mid =~= old(self).code@ + network_head(
            old(self).target,
            crate::ast::option_strings_view(network.components),
        ));
        self.compile_expression(&network.body);
        assert(self.code@ =~= old(self).code@ + emit(
            old(self).target,
            node_view(ASTNode::Network(*network)),
            old(self).labels(),
            old(self).temps(),
        ));
    }

    fn compile_component(&mut self, component: &ComponentNode)
        requires
            room_for(*old(self), blocks(node_view(*component.expr))),
        ensures
            advanced(
                *old(self),
                *final(self),
                component_head(old(self).target, component.id@) + emit(
                    old(self).target,
                    node_view(*component.expr),
                    old(self).labels(),
                    old(self).temps(),
                ) + component_tail(old(self).target),
                blocks(node_view(*component.expr)),
            ),
        decreases component, 0nat,
    {
        let wasm = is_wasm_target(self.target);
        if wasm {
            self.put_comment();
            self.put("Component: ");
            self.put(component.id.as_str());
            self.put("\n");
            self.put("    ;; (func $");
            self.put(component.id.as_str());
            self.put(" (param i32) (result i32)\n");
        } else {
            self.put("component_");
            self.put(component.id.as_str());
            self.put(":\n");
            self.put_comment();
            self.put("Component: ");
            self.put(component.id.as_str());
            self.put("\n");
        }
        let ghost mid = self.code@;
        assert(mid =~= old(self).code@ + component_head(old(self).target, component.id@));
        self.generate_code(&component.expr);
        let ghost mid2 = self.code@;
        if wasm {
            self.put("    ;; )\n");
        } else {
            self.put("    ret\n");
        }
        assert(self.code@ =~= mid2 + component_tail(old(self).target));
        assert(self.code@ =~= old(self).code@ + (component_head(old(self).target, component.id@)
            + emit(old(self).target, node_view(*component.expr), old(self).labels(), old(self).temps())
            + component_tail(old(self).target)));
    }

    fn compile_block(&mut self, block: &BlockNode)
        requires
            room_for(*old(self), 1 + blocks(node_view(*block.content))),
        ensures
            advanced(
                *old(self),
                *final(self),
                block_open(
                    old(self).target,
                    block.repetitions,
                    loop_label(old(self).labels()),
                    end_label(old(self).labels() + 1),
                    temp_name(old(self).temps()),
                ) + emit(
                    old(self).target,
                    node_view(*block.content),
                    old(self).labels() + 2,
                    old(self).temps() + 1,
                ) + block_close(
                    old(self).target,
                    loop_label(old(self).labels()),
                    temp_name(old(self).temps()),
                ),
                1 + blocks(node_view(*block.content)),
            ),
        decreases block, 0nat,
    {
        let loop_l = self.new_label("block_loop");
        let end_l = self.new_label("block_end");
        let counter_var = self.new_temp();
        let ghost t = old(self).target;
        let ghost named = self.issued@;
        assert(named == old(self).issued@.push(loop_l@).push(end_l@).push(counter_var@));
        self.open_block(block.repetitions, &loop_l, &end_l, &counter_var);
        let ghost opened = self.code@;
        self.generate_code(&block.content);
        let ghost body_done = self.code@;
        self.close_block(&loop_l, &counter_var);
        assert(self.code@ =~= old(self).code@ + (block_open(
            t,
            block.repetitions,
            loop_l@,
            end_l@,
            counter_var@,
        ) + emit(t, node_view(*block.content), old(self).labels() + 2, old(self).temps() + 1)
            + block_close(t, loop_l@, counter_var@)));
        proof {
            let s0 = old(self).issued@;
            let lc = old(self).labels();
            let tc = old(self).temps();
            let bc = blocks(node_view(*block.content));
            lemma_slots_prepend(bc, lc, tc);
            assert(named =~= s0 + seq![loop_label(lc), end_label(lc + 1), temp_name(tc)]);
            if bc == 0 {
                assert(slots(0, lc + 2, tc + 1) =~= Seq::<Seq<char>>::empty());
                assert(self.issued@ =~= s0 + slots(1, lc, tc));
            } else {
                assert(self.issued@ =~= s0 + slots(bc + 1, lc, tc));
            }
        }
    }

    #[verifier::rlimit(50)]
    fn open_block(&mut self, n: usize, loop_l: &String, end_l: &String, counter_var: &String)
        ensures
            advanced(
                *old(self),
                *final(self),
                block_open(old(self).target, n, loop_l@, end_l@, counter_var@),
                0,
            ),
    {
        self.put_comment();
        self.put("Block with ");
        self.put_dec(n);
        self.put(" repetitions\n");
        let ghost head = self.code@;
        match self.target {
            AsmTarget::X86_64 => {
                self.put("    mov rcx, ");
                self.put_dec(n);
                self.put("\n");
                self.put(loop_l.as_str());
                self.put(":\n");
                self.put("    push rcx\n");
                assert(self.code@ =~= head + block_init(old(self).target, n, loop_l@, end_l@, counter_var@));
            },
            AsmTarget::ARM64 => {
                self.put("    mov x19, #");
                self.put_dec(n);
                self.put("\n");
                self.put(loop_l.as_str());
                self.put(":\n");
                self.put("    str x19, [sp, #-16]!\n");
                assert(self.code@ =~= head + block_init(old(self).target, n, loop_l@, end_l@, counter_var@));
            },
            _ => {
                self.put("    (local $");
                self.put(counter_var.as_str());
                self.put(" i32)  ;; Loop counter\n");
                self.put("    i32.const ");
                self.put_dec(n);
                self.put("\n");
                self.put("    local.set $");
                self.put(counter_var.as_str());
                self.put("\n");
                self.put("    (block $");
                self.put(end_l.as_str());
                self.put("\n");
                self.put("      (loop $");
                self.put(loop_l.as_str());
                self.put("\n");
                assert(self.code@ =~= head + block_init(old(self).target, n, loop_l@, end_l@, counter_var@));
            },
        }
        assert(self.code@ =~= old(self).code@ + block_open(
            old(self).target,
            n,
            loop_l@,
            end_l@,
            counter_var@,
        ));
    }

    fn close_block(&mut self, loop_l: &String, counter_var: &String)
        ensures
            advanced(*old(self), *final(self), block_close(old(self).target, loop_l@, counter_var@), 0),
    {
        match self.target {
            AsmTarget::X86_64 => {
                self.put("    pop rcx\n");
                self.put("    dec rcx\n");
                self.put("    jnz ");
                self.put(loop_l.as_str());
                self.put("\n");
            },
            AsmTarget::ARM64 => {
                self.put("    ldr x19, [sp], #16\n");
                self.put("    subs x19, x19, #1\n");
                self.put("    bne ");
                self.put(loop_l.as_str());
                self.put("\n");
            },
            _ => {
                self.put("        local.get $");
                self.put(counter_var.as_str());
                self.put("\n");
                self.put("        i32.const 1\n");
                self.put("        i32.sub\n");
                self.put("        local.tee $");
                self.put(counter_var.as_str());
                self.put("\n");
                self.put("        i32.const 0\n");
                self.put("        i32.gt_s\n");
                self.put("        br_if $");
                self.put(loop_l.as_str());
                self.put("\n");
                self.put("      )\n");
                self.put("    )\n");
            },
        }
        assert(self.code@ =~= old(self).code@ + block_close(old(self).target, loop_l@, counter_var@));
    }

    fn compile_dataflow(&mut self, flow: &ASTNode)
        requires
            flow is DataFlow,
            room_for(*old(self), blocks(flow@)),
        ensures
            advanced(
                *old(self),
                *final(self),
                emit(old(self).target, flow@, old(self).labels(), old(self).temps()),
                blocks(flow@),
            ),
        decreases flow, 0nat,
    {
        if let ASTNode::DataFlow(from, to) = flow {
            let ghost t = old(self).target;
            self.generate_code(from);
            let ghost a = self.code@;
            match self.target {
                AsmTarget::X86_64 => {
                    self.put("    ; Connect layers (dataflow)\n");
                    self.put("    push rax  ; Save output from previous layer\n");
                },
                AsmTarget::ARM64 => {
                    self.put("    // Connect layers (dataflow)\n");
                    self.put("    str x0, [sp, #-16]!  // Save output from previous layer\n");
                },
                _ => {
                    self.put("    ;; Connect layers (dataflow)\n");
                    self.put("    ;; Previous layer result is on stack\n");
                },
            }
            assert(self.code@ =~= a + flow_save(t));
            self.generate_code(to);
            let ghost b = self.code@;
            match self.target {
                AsmTarget::X86_64 => {
                    self.put("    pop rbx  ; Get input from previous layer\n");
                    self.put("    ; Connect layers and continue processing\n");
                },
                AsmTarget::ARM64 => {
                    self.put("    ldr x1, [sp], #16  // Get input from previous layer\n");
                    self.put("    // Connect layers and continue processing\n");
                },
                _ => {
                    self.put("    ;; Connect layers and continue processing\n");
                },
            }
            assert(self.code@ =~= b + flow_restore(t));
            proof {
                lemma_grown_compose(
                    old(self).issued@,
                    blocks(node_view(**from)),
                    blocks(node_view(**to)),
                    old(self).labels(),
                    old(self).temps(),
                );
            }
            assert(self.code@ =~= old(self).code@ + emit(
                t,
                flow@,
                old(self).labels(),
                old(self).temps(),
            ));
        }
    }

    fn compile_loss(&mut self, loss: &LossNode)
        requires
            room_for(*old(self), blocks(node_view(*loss.from))),
        ensures
            advanced(
                *old(self),
                *final(self),
                loss_head(old(self).target, loss.to@, loss.function@) + emit(
                    old(self).target,
                    node_view(*loss.from),
                    old(self).labels(),
                    old(self).temps(),
                ) + loss_call(old(self).target, loss.function@),
                blocks(node_view(*loss.from)),
            ),
        decreases loss, 0nat,
    {
        let ghost t = old(self).target;
        self.put_comment();
        self.put("Loss function: ");
        self.put(loss.function.as_str());
        self.put(" for component ");
        self.put(loss.to.as_str());
        self.put("\n");
        assert(self.code@ =~= old(self).code@ + loss_head(t, loss.to@, loss.function@));
        self.generate_code(&loss.from);
        let ghost a = self.code@;
        match self.target {
            AsmTarget::X86_64 => self.put("    call gaia_loss_"),
            AsmTarget::ARM64 => self.put("    bl gaia_loss_"),
            _ => self.put("    call $loss_"),
        }
        self.put(loss.function.as_str());
        self.put("\n");
        assert(self.code@ =~= a + loss_call(t, loss.function@));
        assert(self.code@ =~= old(self).code@ + (loss_head(t, loss.to@, loss.function@) + emit(
            t,
            node_view(*loss.from),
            old(self).labels(),
            old(self).temps(),
        ) + loss_call(t, loss.function@)));
    }

    /// Lowers each node of a list in order.
    fn compile_expression(&mut self, expr: &Vec<ASTNode>)
        requires
            room_for(*old(self), blocks_seq(nodes_view(expr@))),
        ensures
            advanced(
                *old(self),
                *final(self),
                emit_seq(old(self).target, nodes_view(expr@), old(self).labels(), old(self).temps()),
                blocks_seq(nodes_view(expr@)),
            ),
        decreases expr, 0nat,
    {
        let ghost s = nodes_view(expr@);
        let ghost t = old(self).target;
        let ghost lc = old(self).labels();
        let ghost tc = old(self).temps();
        proof {
            lemma_nodes_view(expr@);
        }
        let mut i: usize = 0;
        while i < expr.len()
            invariant
                i <= expr.len(),
                s == nodes_view(expr@),
                s.len() == expr@.len(),
                forall|j: int| 0 <= j < expr@.len() ==> #[trigger] s[j] == node_view(expr@[j]),
                t == old(self).target,
                lc == old(self).labels(),
                tc == old(self).temps(),
                room_for(*old(self), blocks_seq(s)),
                advanced(
                    *old(self),
                    *self,
                    emit_seq(t, s.subrange(0, i as int), lc, tc),
                    blocks_seq(s.subrange(0, i as int)),
                ),
            decreases expr.len() - i,
        {
            let ghost before = self.code@;
            let ghost next = s.subrange(0, i + 1);
            proof {
                assert(next.subrange(0, i as int) == s.subrange(0, i as int));
                assert(next[i as int] == s[i as int]);
                lemma_blocks_prefix(s, i + 1);
                assert(decreases_to!(expr => expr[i as int]));
            }
            let ghost issued_before = self.issued@;
            self.generate_code(&expr[i]);
            assert(self.code@ =~= old(self).code@ + emit_seq(t, next, lc, tc));
            proof {
                lemma_grown_compose(
                    old(self).issued@,
                    blocks_seq(s.subrange(0, i as int)),
                    blocks(s[i as int]),
                    lc,
                    tc,
                );
            }
            i = i + 1;
        }
        assert(s.subrange(0, expr.len() as int) == s);
    }
}

/// Lowers `ast` for `target`: the target's preamble, the lowered tree, then
/// the target's closing sequence.
pub fn compile_to_asm(ast: &ASTNode, target: AsmTarget) -> (r: String)
    requires
        2 * blocks(ast@) <= usize::MAX,
    ensures
        r@ == preamble(target) + emit(target, ast@, 0, 0) + postamble(target),
{
    let mut compiler = AsmCompiler::new(target);
    compiler.compile(ast)
}

} // verus!

verus! {

/// The number of repeated blocks in `node`, if it fits a `usize`. Lowering
/// needs twice this many labels, so `compile_to_asm` asks for it to be at
/// most half of `usize::MAX`.
pub fn count_blocks(node: &ASTNode) -> (r: Option<usize>)
    ensures
        r is Some <==> blocks(node@) <= usize::MAX,
        r is Some ==> r->0 == blocks(node@),
    decreases node, 1nat,
{
    match node {
        ASTNode::Network(n) => count_blocks_in(&n.body),
        ASTNode::Component(c) => count_blocks(&c.expr),
        ASTNode::Block(b) => match count_blocks(&b.content) {
            Option::Some(k) => if k < usize::MAX {
                Option::Some(k + 1)
            } else {
                Option::None
            },
            Option::None => Option::None,
        },
        ASTNode::DataFlow(from, to) => {
            let a = count_blocks(from);
            let b = count_blocks(to);
            match (a, b) {
                (Option::Some(x), Option::Some(y)) => if x <= usize::MAX - y {
                    Option::Some(x + y)
                } else {
                    Option::None
                },
                _ => Option::None,
            }
        },
        ASTNode::Loss(l) => count_blocks(&l.from),
        ASTNode::Expression(v) => count_blocks_in(v),
        _ => Option::Some(0),
    }
}

/// The number of repeated blocks in a list of nodes, if it fits a `usize`.
pub fn count_blocks_in(v: &Vec<ASTNode>) -> (r: Option<usize>)
    ensures
        r is Some <==> blocks_seq(nodes_view(v@)) <= usize::MAX,
        r is Some ==> r->0 == blocks_seq(nodes_view(v@)),
    decreases v, 0nat,
{
    let ghost s = nodes_view(v@);
    proof {
        lemma_nodes_view(v@);
    }
    let mut total: usize = 0;
    let mut i: usize = 0;
    while i < v.len()
        invariant
            i <= v.len(),
            s == nodes_view(v@),
            s.len() == v@.len(),
            forall|j: int| 0 <= j < v@.len() ==> #[trigger] s[j] == node_view(v@[j]),
            total == blocks_seq(s.subrange(0, i as int)),
        decreases v.len() - i,
    {
        let ghost next = s.subrange(0, i + 1);
        proof {
            assert(next.subrange(0, i as int) == s.subrange(0, i as int));
            assert(decreases_to!(v => v[i as int]));
            lemma_blocks_prefix(s, i + 1);
        }
        match count_blocks(&v[i]) {
            Option::Some(k) => {
                if total > usize::MAX - k {
                    return Option::None;
                }
                total = total + k;
            },
            Option::None => {
                return Option::None;
            },
        }
        i = i + 1;
    }
    assert(s.subrange(0, v.len() as int) == s);
    Option::Some(total)
}

} // verus!

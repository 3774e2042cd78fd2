use vstd::prelude::*;
use vstd::string::*;
use crate::ast::{
    node_view, nodes_view, lemma_nodes_view, ASTNode, ActivationFunction, AstView, BlockNode,
    ComponentNode, InputNode, InputType, LayerNode, LayerType, LossNode, NetworkNode,
};
use crate::text::{dec, push_dec};

verus! {

/// The subscript digit `d` as text.
pub open spec fn subscript_digit_text(d: nat) -> Seq<char> {
    if d == 0 {
        "₀"@
    } else if d == 1 {
        "₁"@
    } else if d == 2 {
        "₂"@
    } else if d == 3 {
        "₃"@
    } else if d == 4 {
        "₄"@
    } else if d == 5 {
        "₅"@
    } else if d == 6 {
        "₆"@
    } else if d == 7 {
        "₇"@
    } else if d == 8 {
        "₈"@
    } else {
        "₉"@
    }
}

/// `n` in subscript digits.
pub open spec fn subscript_dec(n: nat) -> Seq<char>
    decreases n,
{
    if n < 10 {
        subscript_digit_text(n)
    } else {
        subscript_dec(n / 10) + subscript_digit_text(n % 10)
    }
}

/// The index suffix of a convolution or dense glyph: none for index 0.
pub open spec fn index_text(idx: usize) -> Seq<char> {
    if idx == 0 {
        Seq::empty()
    } else {
        subscript_dec(idx as nat)
    }
}

pub open spec fn layer_glyph_text(l: LayerType) -> Seq<char> {
    match l {
        LayerType::Convolutional(i) => "C"@ + index_text(i),
        LayerType::Dense(i) => "D"@ + index_text(i),
        LayerType::Pooling => "P"@,
        LayerType::Flatten => "F"@,
        LayerType::Upsampling => "U"@,
        LayerType::LSTM => "L"@,
        LayerType::AttentionHeads => "H"@,
        LayerType::Reshape => "R"@,
        LayerType::Embedding => "E"@,
        LayerType::BatchSize => "B"@,
        LayerType::TransposeConv => "T"@,
        LayerType::Attention => "A"@,
    }
}

pub open spec fn activation_text(a: ActivationFunction) -> Seq<char> {
    match a {
        ActivationFunction::ReLU => " ρ"@,
        ActivationFunction::Sigmoid => " σ"@,
        ActivationFunction::Tanh => " τ"@,
        ActivationFunction::Softmax => " S"@,
        ActivationFunction::Linear => Seq::empty(),
    }
}

pub open spec fn input_glyph_text(i: InputType) -> Seq<char> {
    match i {
        InputType::Text => "T"@,
        InputType::Image => "I"@,
        InputType::Sequence => "S"@,
        InputType::Latent => "Z"@,
    }
}

/// ` a b c`: each parameter after a space.
pub open spec fn params_text(ps: Seq<usize>) -> Seq<char>
    decreases ps.len(),
{
    if ps.len() == 0 {
        Seq::empty()
    } else {
        params_text(ps.subrange(0, ps.len() - 1)) + " "@ + dec(ps[ps.len() - 1] as nat)
    }
}

/// `⟨a⊕b⟩`, or nothing when no list was declared.
pub open spec fn components_decl_text(c: Option<Seq<Seq<char>>>) -> Seq<char> {
    match c {
        Option::Some(ids) => "⟨"@ + ids_text(ids) + "⟩"@,
        Option::None => Seq::empty(),
    }
}

pub open spec fn ids_text(ids: Seq<Seq<char>>) -> Seq<char>
    decreases ids.len(),
{
    if ids.len() == 0 {
        Seq::empty()
    } else if ids.len() == 1 {
        ids[0]
    } else {
        ids_text(ids.subrange(0, ids.len() - 1)) + "⊕"@ + ids[ids.len() - 1]
    }
}

/// The canonical text of a tree in the notation.
pub open spec fn render(n: AstView) -> Seq<char>
    decreases n,
{
    match n {
        AstView::Network { components, body } => "N"@ + components_decl_text(components)
            + render_lines(body),
        AstView::Component { id, expr } => id + ": "@ + render(*expr),
        AstView::Layer { layer_type, params, activation } => layer_glyph_text(layer_type) + params_text(
            params,
        ) + activation_text(activation),
        AstView::Block { content, repetitions } => "["@ + render(*content) + "]×"@ + dec(
            repetitions as nat,
        ),
        AstView::Input { input_type, params } => input_glyph_text(input_type) + params_text(params),
        AstView::DataFlow { from, to } => render(*from) + " → "@ + render(*to),
        AstView::Loss { from, to, function } => render(*from) + "⊳"@ + to + "⟿"@ + function,
        AstView::Expression { items } => render_spaced(items),
        AstView::UIComponent { .. } => "UIComponent"@,
        AstView::EventHandler { .. } => "EventHandler"@,
        AstView::DataBinding { .. } => "DataBinding"@,
        AstView::ThreeDComponent { .. } => "ThreeDComponent"@,
        AstView::Asset { .. } => "Asset"@,
    }
}

/// Each item on a line of its own, after a line break.
pub open spec fn render_lines(s: Seq<AstView>) -> Seq<char>
    decreases s,
{
    if s.len() == 0 {
        Seq::empty()
    } else {
        render_lines(s.subrange(0, s.len() - 1)) + "\n"@ + render(s[s.len() - 1])
    }
}

/// The items separated by single spaces.
pub open spec fn render_spaced(s: Seq<AstView>) -> Seq<char>
    decreases s,
{
    if s.len() == 0 {
        Seq::empty()
    } else if s.len() == 1 {
        render(s[0])
    } else {
        render_spaced(s.subrange(0, s.len() - 1)) + " "@ + render(s[s.len() - 1])
    }
}

fn subscript_digit_str(d: usize) -> (r: &'static str)
    requires
        d < 10,
    ensures
        r@ == subscript_digit_text(d as nat),
{
    if d == 0 {
        "₀"
    } else if d == 1 {
        "₁"
    } else if d == 2 {
        "₂"
    } else if d == 3 {
        "₃"
    } else if d == 4 {
        "₄"
    } else if d == 5 {
        "₅"
    } else if d == 6 {
        "₆"
    } else if d == 7 {
        "₇"
    } else if d == 8 {
        "₈"
    } else {
        "₉"
    }
}

fn push_subscript(out: &mut String, n: usize)
    ensures
        final(out)@ == old(out)@ + subscript_dec(n as nat),
    decreases n,
{
    if n >= 10 {
        push_subscript(out, n / 10);
    }
    out.append(subscript_digit_str(n % 10));
    proof {
        if n >= 10 {
            assert(final(out)@ =~= old(out)@ + subscript_dec(n as nat));
        }
    }
}

fn push_params(out: &mut String, ps: &Vec<usize>)
    ensures
        final(out)@ == old(out)@ + params_text(ps@),
{
    let mut i: usize = 0;
    while i < ps.len()
        invariant
            i <= ps.len(),
            out@ == old(out)@ + params_text(ps@.subrange(0, i as int)),
        decreases ps.len() - i,
    {
        out.append(" ");
        push_dec(out, ps[i]);
        proof {
            let next = ps@.subrange(0, i + 1);
            assert(next.subrange(0, i as int) == ps@.subrange(0, i as int));
            assert(out@ =~= old(out)@ + params_text(next));
        }
        i = i + 1;
    }
    assert(ps@.subrange(0, ps.len() as int) == ps@);
}

impl LayerNode {
    /// Appends the canonical text of this layer to `out`.
    pub fn write_text(&self, out: &mut String)
        ensures
            final(out)@ == old(out)@ + layer_glyph_text(self.layer_type) + params_text(self.params@)
                + activation_text(self.activation),
    {
        let ghost start = out@;
        match self.layer_type {
            LayerType::Convolutional(i) => {
                out.append("C");
                if i > 0 {
                    push_subscript(out, i);
                }
            },
            LayerType::Dense(i) => {
                out.append("D");
                if i > 0 {
                    push_subscript(out, i);
                }
            },
            LayerType::Pooling => out.append("P"),
            LayerType::Flatten => out.append("F"),
            LayerType::Upsampling => out.append("U"),
            LayerType::LSTM => out.append("L"),
            LayerType::AttentionHeads => out.append("H"),
            LayerType::Reshape => out.append("R"),
            LayerType::Embedding => out.append("E"),
            LayerType::BatchSize => out.append("B"),
            LayerType::TransposeConv => out.append("T"),
            LayerType::Attention => out.append("A"),
        }
        assert(out@ =~= start + layer_glyph_text(self.layer_type));
        push_params(out, &self.params);
        let ghost mid = out@;
        match self.activation {
            ActivationFunction::ReLU => out.append(" ρ"),
            ActivationFunction::Sigmoid => out.append(" σ"),
            ActivationFunction::Tanh => out.append(" τ"),
            ActivationFunction::Softmax => out.append(" S"),
            ActivationFunction::Linear => {},
        }
        assert(out@ =~= mid + activation_text(self.activation));
        assert(out@ =~= start + layer_glyph_text(self.layer_type) + params_text(self.params@)
            + activation_text(self.activation));
    }
}

impl InputNode {
    /// Appends the canonical text of this input to `out`.
    pub fn write_text(&self, out: &mut String)
        ensures
            final(out)@ == old(out)@ + input_glyph_text(self.input_type) + params_text(self.params@),
    {
        let ghost start = out@;
        match self.input_type {
            InputType::Text => out.append("T"),
            InputType::Image => out.append("I"),
            InputType::Sequence => out.append("S"),
            InputType::Latent => out.append("Z"),
        }
        push_params(out, &self.params);
        assert(out@ =~= start + input_glyph_text(self.input_type) + params_text(self.params@));
    }
}

impl ASTNode {
    /// The canonical text of this tree in the notation.
    pub fn to_text(&self) -> (r: String)
        ensures
            r@ == render(self@),
    {
        let mut out = String::new();
        write_node(self, &mut out);
        assert(out@ =~= render(self@));
        out
    }
}

/// Appends the canonical text of `node` to `out`.
pub fn write_node(node: &ASTNode, out: &mut String)
    ensures
        final(out)@ == old(out)@ + render(node@),
    decreases node, 1nat,
{
    match node {
        ASTNode::Network(net) => write_network(net, out),
        ASTNode::Component(c) => write_component(c, out),
        ASTNode::Layer(l) => l.write_text(out),
        ASTNode::Block(b) => write_block(b, out),
        ASTNode::Input(i) => i.write_text(out),
        ASTNode::DataFlow(from, to) => {
            write_node(from, out);
            out.append(" → ");
            write_node(to, out);
            assert(out@ =~= old(out)@ + render(node@));
        },
        ASTNode::Loss(l) => write_loss(l, out),
        ASTNode::Expression(items) => write_spaced(items, out),
        ASTNode::UIComponent(_) => out.append("UIComponent"),
        ASTNode::EventHandler(_) => out.append("EventHandler"),
        ASTNode::DataBinding(_) => out.append("DataBinding"),
        ASTNode::ThreeDComponent(_) => out.append("ThreeDComponent"),
        ASTNode::Asset(_) => out.append("Asset"),
    }
}

fn write_network(net: &NetworkNode, out: &mut String)
    ensures
        final(out)@ == old(out)@ + render(node_view(ASTNode::Network(*net))),
    decreases net, 0nat,
{
    out.append("N");
    match &net.components {
        Option::Some(ids) => {
            let ghost v = crate::ast::strings_view(ids@);
            let ghost head = out@;
            out.append("⟨");
            let mut i: usize = 0;
            while i < ids.len()
                invariant
                    i <= ids.len(),
                    v == crate::ast::strings_view(ids@),
                    out@ == head + "⟨"@ + ids_text(v.subrange(0, i as int)),
                decreases ids.len() - i,
            {
                if i > 0 {
                    out.append("⊕");
                }
                out.append(ids[i].as_str());
                proof {
                    assert(v[i as int] == ids@[i as int]@);
                    let next = v.subrange(0, i + 1);
                    assert(next.subrange(0, i as int) == v.subrange(0, i as int));
                    assert(out@ =~= head + "⟨"@ + ids_text(next));
                }
                i = i + 1;
            }
            out.append("⟩");
            assert(v.subrange(0, ids.len() as int) == v);
        },
        Option::None => {},
    }
    let ghost head = out@;
    assert(head =~= old(out)@ + "N"@ + components_decl_text(
        crate::ast::option_strings_view(net.components),
    ));
    let ghost s = nodes_view(net.body@);
    proof {
        lemma_nodes_view(net.body@);
    }
    let mut i: usize = 0;
    while i < net.body.len()
        invariant
            i <= net.body.len(),
            s == nodes_view(net.body@),
            s.len() == net.body@.len(),
            forall|j: int| 0 <= j < net.body@.len() ==> #[trigger] s[j] == node_view(net.body@[j]),
            out@ == head + render_lines(s.subrange(0, i as int)),
        decreases net.body.len() - i,
    {
        out.append("\n");
        proof {
            assert(decreases_to!(net.body => net.body[i as int]));
        }
        write_node(&net.body[i], out);
        proof {
            let next = s.subrange(0, i + 1);
            assert(next.subrange(0, i as int) == s.subrange(0, i as int));
            assert(out@ =~= head + render_lines(next));
        }
        i = i + 1;
    }
    assert(s.subrange(0, net.body.len() as int) == s);
    assert(out@ =~= old(out)@ + render(node_view(ASTNode::Network(*net))));
}

fn write_component(c: &ComponentNode, out: &mut String)
    ensures
        final(out)@ == old(out)@ + c.id@ + ": "@ + render(node_view(*c.expr)),
    decreases c, 0nat,
{
    out.append(c.id.as_str());
    out.append(": ");
    write_node(&c.expr, out);
    assert(out@ =~= old(out)@ + c.id@ + ": "@ + render(node_view(*c.expr)));
}

fn write_block(b: &BlockNode, out: &mut String)
    ensures
        final(out)@ == old(out)@ + "["@ + render(node_view(*b.content)) + "]×"@ + dec(
            b.repetitions as nat,
        ),
    decreases b, 0nat,
{
    out.append("[");
    write_node(&b.content, out);
    out.append("]×");
    push_dec(out, b.repetitions);
    assert(out@ =~= old(out)@ + "["@ + render(node_view(*b.content)) + "]×"@ + dec(
        b.repetitions as nat,
    ));
}

fn write_loss(l: &LossNode, out: &mut String)
    ensures
        final(out)@ == old(out)@ + render(node_view(*l.from)) + "⊳"@ + l.to@ + "⟿"@ + l.function@,
    decreases l, 0nat,
{
    write_node(&l.from, out);
    out.append("⊳");
    out.append(l.to.as_str());
    out.append("⟿");
    out.append(l.function.as_str());
    assert(out@ =~= old(out)@ + render(node_view(*l.from)) + "⊳"@ + l.to@ + "⟿"@ + l.function@);
}

fn write_spaced(items: &Vec<ASTNode>, out: &mut String)
    ensures
        final(out)@ == old(out)@ + render_spaced(nodes_view(items@)),
    decreases items, 0nat,
{
    let ghost s = nodes_view(items@);
    proof {
        lemma_nodes_view(items@);
    }
    let mut i: usize = 0;
    while i < items.len()
        invariant
            i <= items.len(),
            s == nodes_view(items@),
            s.len() == items@.len(),
            forall|j: int| 0 <= j < items@.len() ==> #[trigger] s[j] == node_view(items@[j]),
            out@ == old(out)@ + render_spaced(s.subrange(0, i as int)),
        decreases items.len() - i,
    {
        if i > 0 {
            out.append(" ");
        }
        proof {
            assert(decreases_to!(items => items[i as int]));
        }
        write_node(&items[i], out);
        proof {
            let next = s.subrange(0, i + 1);
            assert(next.subrange(0, i as int) == s.subrange(0, i as int));
            assert(out@ =~= old(out)@ + render_spaced(next));
        }
        i = i + 1;
    }
    assert(s.subrange(0, items.len() as int) == s);
}

} // verus!

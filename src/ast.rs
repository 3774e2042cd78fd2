use vstd::prelude::*;
use crate::three_extensions::{AssetNode, ThreeDComponentNode, ThreeDComponentType};
use crate::ui_extensions::{
    copy_pairs, pairs_view, DataBindingNode, EventHandlerNode, UIComponentNode, UIComponentType,
};

verus! {

/// A node of the abstract syntax tree. Every node owns its children.
#[derive(Debug)]
pub enum ASTNode {
    Network(NetworkNode),
    Component(ComponentNode),
    Layer(LayerNode),
    Block(BlockNode),
    Input(InputNode),
    DataFlow(Box<ASTNode>, Box<ASTNode>),
    Loss(LossNode),
    Expression(Vec<ASTNode>),
    UIComponent(UIComponentNode),
    EventHandler(EventHandlerNode),
    DataBinding(DataBindingNode),
    ThreeDComponent(ThreeDComponentNode),
    Asset(AssetNode),
}

/// The top-level unit: the components declared up front, then the body.
#[derive(Debug)]
pub struct NetworkNode {
    pub components: Option<Vec<String>>,
    pub body: Vec<ASTNode>,
}

/// A named, reusable sub-graph.
#[derive(Debug)]
pub struct ComponentNode {
    pub id: String,
    pub expr: Box<ASTNode>,
}

#[derive(Debug, Clone, Copy, PartialEq, Eq, Structural)]
pub enum ActivationFunction {
    ReLU,
    Sigmoid,
    Tanh,
    Softmax,
    Linear,
}

/// The kind of a layer; convolution and dense layers carry an index.
#[derive(Debug, Clone, Copy, PartialEq, Eq, Structural)]
pub enum LayerType {
    Convolutional(usize),
    Dense(usize),
    Pooling,
    Flatten,
    Upsampling,
    LSTM,
    AttentionHeads,
    Reshape,
    Embedding,
    BatchSize,
    TransposeConv,
    Attention,
}

/// One stage of a computation graph with positional parameters.
#[derive(Debug, Clone)]
pub struct LayerNode {
    pub layer_type: LayerType,
    pub params: Vec<usize>,
    pub activation: ActivationFunction,
}

/// A sub-graph repeated `repetitions` times.
#[derive(Debug)]
pub struct BlockNode {
    pub content: Box<ASTNode>,
    pub repetitions: usize,
}

#[derive(Debug, Clone, Copy, PartialEq, Eq, Structural)]
pub enum InputType {
    Text,
    Image,
    Sequence,
    Latent,
}

/// An input of some kind with its shape parameters.
#[derive(Debug, Clone)]
pub struct InputNode {
    pub input_type: InputType,
    pub params: Vec<usize>,
}

/// A loss function `function` attached to component `to`, fed by `from`.
#[derive(Debug)]
pub struct LossNode {
    pub from: Box<ASTNode>,
    pub to: String,
    pub function: String,
}

/// The mathematical value of a syntax tree: strings as character sequences
/// and child lists as sequences. Two trees are deep-equal when their views are equal.
pub enum AstView {
    Network { components: Option<Seq<Seq<char>>>, body: Seq<AstView> },
    Component { id: Seq<char>, expr: Box<AstView> },
    Layer { layer_type: LayerType, params: Seq<usize>, activation: ActivationFunction },
    Block { content: Box<AstView>, repetitions: usize },
    Input { input_type: InputType, params: Seq<usize> },
    DataFlow { from: Box<AstView>, to: Box<AstView> },
    Loss { from: Box<AstView>, to: Seq<char>, function: Seq<char> },
    Expression { items: Seq<AstView> },
    UIComponent {
        component_type: UIComponentType,
        dimensions: Option<(usize, usize)>,
        properties: Seq<(Seq<char>, Seq<char>)>,
    },
    EventHandler { event_type: Seq<char>, source: Seq<char>, handler: Box<AstView> },
    DataBinding { target: Seq<char>, source: Seq<char>, bidirectional: bool },
    ThreeDComponent { component_type: ThreeDComponentType, params: Seq<(Seq<char>, Seq<char>)> },
    Asset { path: Seq<char>, asset_type: Seq<char> },
}

pub open spec fn strings_view(s: Seq<String>) -> Seq<Seq<char>> {
    s.map_values(|x: String| x@)
}

pub open spec fn option_strings_view(o: Option<Vec<String>>) -> Option<Seq<Seq<char>>> {
    match o {
        Option::Some(v) => Option::Some(strings_view(v@)),
        Option::None => Option::None,
    }
}

/// The view of a node.
pub open spec fn node_view(n: ASTNode) -> AstView
    decreases n,
{
    match n {
        ASTNode::Network(net) => AstView::Network {
            components: option_strings_view(net.components),
            body: nodes_view(net.body@),
        },
        ASTNode::Component(c) => AstView::Component { id: c.id@, expr: Box::new(node_view(*c.expr)) },
        ASTNode::Layer(l) => AstView::Layer {
            layer_type: l.layer_type,
            params: l.params@,
            activation: l.activation,
        },
        ASTNode::Block(b) => AstView::Block {
            content: Box::new(node_view(*b.content)),
            repetitions: b.repetitions,
        },
        ASTNode::Input(i) => AstView::Input { input_type: i.input_type, params: i.params@ },
        ASTNode::DataFlow(f, t) => AstView::DataFlow {
            from: Box::new(node_view(*f)),
            to: Box::new(node_view(*t)),
        },
        ASTNode::Loss(l) => AstView::Loss {
            from: Box::new(node_view(*l.from)),
            to: l.to@,
            function: l.function@,
        },
        ASTNode::Expression(v) => AstView::Expression { items: nodes_view(v@) },
        ASTNode::UIComponent(u) => AstView::UIComponent {
            component_type: u.component_type,
            dimensions: u.dimensions,
            properties: pairs_view(u.properties@),
        },
        ASTNode::EventHandler(h) => AstView::EventHandler {
            event_type: h.event_type@,
            source: h.source@,
            handler: Box::new(node_view(*h.handler)),
        },
        ASTNode::DataBinding(d) => AstView::DataBinding {
            target: d.target@,
            source: d.source@,
            bidirectional: d.bidirectional,
        },
        ASTNode::ThreeDComponent(t) => AstView::ThreeDComponent {
            component_type: t.component_type,
            params: pairs_view(t.params@),
        },
        ASTNode::Asset(a) => AstView::Asset { path: a.path@, asset_type: a.asset_type@ },
    }
}

/// The view of a list of nodes, element by element.
pub open spec fn nodes_view(s: Seq<ASTNode>) -> Seq<AstView>
    decreases s,
{
    if s.len() == 0 {
        Seq::empty()
    } else {
        nodes_view(s.subrange(0, s.len() - 1)).push(node_view(s[s.len() - 1]))
    }
}

impl View for ASTNode {
    type V = AstView;

    open spec fn view(&self) -> AstView {
        node_view(*self)
    }
}

/// The view of a list of nodes has one entry per node, in order.
pub proof fn lemma_nodes_view(s: Seq<ASTNode>)
    ensures
        nodes_view(s).len() == s.len(),
        forall|j: int| 0 <= j < s.len() ==> #[trigger] nodes_view(s)[j] == node_view(s[j]),
    decreases s.len(),
{
    if s.len() > 0 {
        lemma_nodes_view(s.subrange(0, s.len() - 1));
    }
}

/// Two node lists whose elements are pairwise deep-equal have equal views.
pub proof fn lemma_nodes_view_eq(a: Seq<ASTNode>, b: Seq<ASTNode>)
    requires
        a.len() == b.len(),
        forall|j: int| 0 <= j < a.len() ==> node_view(#[trigger] a[j]) == node_view(b[j]),
    ensures
        nodes_view(a) == nodes_view(b),
{
    lemma_nodes_view(a);
    lemma_nodes_view(b);
    assert(nodes_view(a) =~= nodes_view(b));
}

/// Copies a list of strings.
pub fn copy_strings(v: &Vec<String>) -> (r: Vec<String>)
    ensures
        strings_view(r@) == strings_view(v@),
{
    let mut r: Vec<String> = Vec::new();
    let mut i: usize = 0;
    while i < v.len()
        invariant
            i <= v.len(),
            r@.len() == i,
            forall|j: int| 0 <= j < i ==> r@[j]@ == v@[j]@,
        decreases v.len() - i,
    {
        r.push(v[i].clone());
        i = i + 1;
    }
    assert(strings_view(r@) =~= strings_view(v@));
    r
}

/// Copies a list of nodes, each one deeply.
pub fn copy_nodes(v: &Vec<ASTNode>) -> (r: Vec<ASTNode>)
    ensures
        nodes_view(r@) == nodes_view(v@),
    decreases v,
{
    let mut r: Vec<ASTNode> = Vec::new();
    let mut i: usize = 0;
    while i < v.len()
        invariant
            i <= v.len(),
            r@.len() == i,
            forall|j: int| 0 <= j < i ==> node_view(#[trigger] r@[j]) == node_view(v@[j]),
        decreases v.len() - i,
    {
        proof {
            assert(decreases_to!(v => v[i as int]));
        }
        let c = v[i].deep_copy();
        r.push(c);
        i = i + 1;
    }
    proof {
        lemma_nodes_view_eq(r@, v@);
    }
    r
}

impl ASTNode {
    /// A copy of this tree that shares no storage with it.
    pub fn deep_copy(&self) -> (r: ASTNode)
        ensures
            r@ == self@,
        decreases self,
    {
        match self {
            ASTNode::Network(net) => {
                let components = match &net.components {
                    Option::Some(c) => Option::Some(copy_strings(c)),
                    Option::None => Option::None,
                };
                ASTNode::Network(NetworkNode { components, body: copy_nodes(&net.body) })
            },
            ASTNode::Component(c) => ASTNode::Component(
                ComponentNode { id: c.id.clone(), expr: Box::new(c.expr.deep_copy()) },
            ),
            ASTNode::Layer(l) => ASTNode::Layer(
                LayerNode {
                    layer_type: l.layer_type,
                    params: l.params.clone(),
                    activation: l.activation,
                },
            ),
            ASTNode::Block(b) => ASTNode::Block(
                BlockNode { content: Box::new(b.content.deep_copy()), repetitions: b.repetitions },
            ),
            ASTNode::Input(i) => ASTNode::Input(
                InputNode { input_type: i.input_type, params: i.params.clone() },
            ),
            ASTNode::DataFlow(f, t) => ASTNode::DataFlow(
                Box::new(f.deep_copy()),
                Box::new(t.deep_copy()),
            ),
            ASTNode::Loss(l) => ASTNode::Loss(
                LossNode {
                    from: Box::new(l.from.deep_copy()),
                    to: l.to.clone(),
                    function: l.function.clone(),
                },
            ),
            ASTNode::Expression(v) => ASTNode::Expression(copy_nodes(v)),
            ASTNode::UIComponent(u) => ASTNode::UIComponent(
                UIComponentNode {
                    component_type: u.component_type,
                    dimensions: u.dimensions,
                    properties: copy_pairs(&u.properties),
                },
            ),
            ASTNode::EventHandler(h) => ASTNode::EventHandler(
                EventHandlerNode {
                    event_type: h.event_type.clone(),
                    source: h.source.clone(),
                    handler: Box::new(h.handler.deep_copy()),
                },
            ),
            ASTNode::DataBinding(d) => ASTNode::DataBinding(
                DataBindingNode {
                    target: d.target.clone(),
                    source: d.source.clone(),
                    bidirectional: d.bidirectional,
                },
            ),
            ASTNode::ThreeDComponent(t) => ASTNode::ThreeDComponent(
                ThreeDComponentNode {
                    component_type: t.component_type,
                    params: copy_pairs(&t.params),
                },
            ),
            ASTNode::Asset(a) => ASTNode::Asset(
                AssetNode { path: a.path.clone(), asset_type: a.asset_type.clone() },
            ),
        }
    }
}

} // verus!

verus! {

/// The map that a list of (id, tree) entries stands for: a later entry for
/// an id replaces an earlier one.
pub open spec fn entries_map(s: Seq<(String, ASTNode)>) -> Map<Seq<char>, AstView>
    decreases s.len(),
{
    if s.len() == 0 {
        Map::empty()
    } else {
        let last = s[s.len() - 1];
        entries_map(s.subrange(0, s.len() - 1)).insert(last.0@, last.1@)
    }
}

/// Entries after position `i` that name another id leave its lookup unchanged.
proof fn lemma_entries_tail(s: Seq<(String, ASTNode)>, k: Seq<char>, i: int)
    requires
        0 <= i <= s.len(),
        forall|j: int| i <= j < s.len() ==> (#[trigger] s[j]).0@ != k,
    ensures
        entries_map(s).contains_key(k) == entries_map(s.subrange(0, i)).contains_key(k),
        entries_map(s).contains_key(k) ==> entries_map(s)[k] == entries_map(s.subrange(0, i))[k],
    decreases s.len() - i,
{
    if i < s.len() {
        let t = s.subrange(0, s.len() - 1);
        assert(t.subrange(0, i) == s.subrange(0, i));
        lemma_entries_tail(t, k, i);
    } else {
        assert(s.subrange(0, i) == s);
    }
}

/// The table of named components, used to resolve references by copying.
#[derive(Debug)]
pub struct SymbolTable {
    components: Vec<(String, ASTNode)>,
}

impl View for SymbolTable {
    type V = Map<Seq<char>, AstView>;

    closed spec fn view(&self) -> Map<Seq<char>, AstView> {
        entries_map(self.components@)
    }
}

impl SymbolTable {
    /// An empty table.
    pub fn new() -> (r: SymbolTable)
        ensures
            r@ == Map::<Seq<char>, AstView>::empty(),
    {
        SymbolTable { components: Vec::new() }
    }

    /// Binds `name` to `node`, replacing any earlier binding of `name`.
    pub fn add_component(&mut self, name: String, node: ASTNode)
        ensures
            final(self)@ == old(self)@.insert(name@, node@),
    {
        self.components.push((name, node));
        proof {
            let s = self.components@;
            assert(s.subrange(0, s.len() - 1) == old(self).components@);
        }
    }

    /// The tree bound to `name`, if any.
    pub fn get_component(&self, name: &str) -> (r: Option<&ASTNode>)
        ensures
            r is Some <==> self@.contains_key(name@),
            r is Some ==> r->0@ == self@[name@],
    {
        let key = name.to_owned();
        let mut i: usize = self.components.len();
        while i > 0
            invariant
                i <= self.components@.len(),
                key@ == name@,
                forall|j: int| i <= j < self.components@.len() ==> (
                #[trigger] self.components@[j]).0@ != name@,
            decreases i,
        {
            if self.components[i - 1].0 == key {
                proof {
                    let s = self.components@;
                    lemma_entries_tail(s, name@, i as int);
                    let t = s.subrange(0, i as int);
                    assert(t.subrange(0, i - 1) == s.subrange(0, i - 1));
                }
                return Option::Some(&self.components[i - 1].1);
            }
            i = i - 1;
        }
        proof {
            lemma_entries_tail(self.components@, name@, 0);
        }
        Option::None
    }

    /// A fresh copy of the tree bound to `name`, if any. Each call yields a
    /// tree of its own, so two resolutions of one id never share storage.
    pub fn resolve(&self, name: &str) -> (r: Option<ASTNode>)
        ensures
            r is Some <==> self@.contains_key(name@),
            r is Some ==> r->0@ == self@[name@],
    {
        match self.get_component(name) {
            Option::Some(n) => Option::Some(n.deep_copy()),
            Option::None => Option::None,
        }
    }
}

/// Looking an id up after binding it yields the bound tree, whatever the
/// table held before; the other ids keep their bindings.
pub proof fn law_add_then_get(table: SymbolTable, after: SymbolTable, id: Seq<char>, node: ASTNode)
    requires
        after@ == table@.insert(id, node@),
    ensures
        after@.contains_key(id),
        after@[id] == node@,
        forall|k: Seq<char>| k != id ==> (after@.contains_key(k) == table@.contains_key(k)),
        forall|k: Seq<char>| k != id && table@.contains_key(k) ==> after@[k] == table@[k],
{
}

} // verus!

use vstd::prelude::*;
use vstd::string::*;
use crate::ast::{
    node_view, nodes_view, strings_view, ASTNode, ActivationFunction, AstView, BlockNode,
    ComponentNode, InputNode, InputType, LayerNode, LayerType, LossNode, NetworkNode, SymbolTable,
};
use crate::grammar::{
    activation_glyph, cons_id, cons_node, indexed, input_glyph, is_subscript, layer_glyph, p_chain,
    p_expr, p_ids, p_items, p_network, p_numbers, p_term, spec_parse, subscript_value, sym_at,
};
use crate::lexer::{
    chars_of, parse_error, run_value_of, tokenize, toks_view, ParseError, Token, TokenKind,
};

verus! {

/// `w` is the one character `c`.
fn is_single(w: &Vec<char>, c: char) -> (r: bool)
    ensures
        r == (w@ == seq![c]),
{
    if w.len() == 1 && w[0] == c {
        assert(w@ =~= seq![c]);
        true
    } else {
        false
    }
}

/// `c` followed by subscript digits, and the index they spell.
fn indexed_of(w: &Vec<char>, c: char) -> (r: Option<usize>)
    ensures
        r == indexed(w@, c),
{
    if w.len() == 0 || w[0] != c {
        return Option::None;
    }
    let mut k: usize = 1;
    while k < w.len()
        invariant
            1 <= k <= w@.len(),
            forall|m: int| 1 <= m < k ==> is_subscript(#[trigger] w@[m]),
        decreases w@.len() - k,
    {
        if !('₀' <= w[k] && w[k] <= '₉') {
            return Option::None;
        }
        k = k + 1;
    }
    let v = run_value_of(w, 1, w.len(), '₀');
    proof {
        assert(subscript_value(w@.subrange(1, w@.len() as int)) == crate::grammar::run_value(
            w@.subrange(1, w@.len() as int),
            '₀',
        ));
    }
    v
}

pub fn input_glyph_of(w: &String) -> (r: Option<InputType>)
    ensures
        r == input_glyph(w@),
{
    let cs = chars_of(w.as_str());
    if is_single(&cs, 'T') {
        Option::Some(InputType::Text)
    } else if is_single(&cs, 'I') {
        Option::Some(InputType::Image)
    } else if is_single(&cs, 'S') {
        Option::Some(InputType::Sequence)
    } else if is_single(&cs, 'Z') {
        Option::Some(InputType::Latent)
    } else {
        Option::None
    }
}

pub fn layer_glyph_of(w: &String) -> (r: Option<LayerType>)
    ensures
        r == layer_glyph(w@),
{
    let cs = chars_of(w.as_str());
    if let Option::Some(idx) = indexed_of(&cs, 'C') {
        return Option::Some(LayerType::Convolutional(idx));
    }
    if let Option::Some(idx) = indexed_of(&cs, 'D') {
        return Option::Some(LayerType::Dense(idx));
    }
    if is_single(&cs, 'P') {
        Option::Some(LayerType::Pooling)
    } else if is_single(&cs, 'F') {
        Option::Some(LayerType::Flatten)
    } else if is_single(&cs, 'U') {
        Option::Some(LayerType::Upsampling)
    } else if is_single(&cs, 'L') {
        Option::Some(LayerType::LSTM)
    } else if is_single(&cs, 'H') {
        Option::Some(LayerType::AttentionHeads)
    } else if is_single(&cs, 'R') {
        Option::Some(LayerType::Reshape)
    } else if is_single(&cs, 'E') {
        Option::Some(LayerType::Embedding)
    } else if is_single(&cs, 'B') {
        Option::Some(LayerType::BatchSize)
    } else if is_single(&cs, 'T') {
        Option::Some(LayerType::TransposeConv)
    } else if is_single(&cs, 'A') {
        Option::Some(LayerType::Attention)
    } else {
        Option::None
    }
}

pub fn activation_glyph_of(w: &String) -> (r: Option<ActivationFunction>)
    ensures
        r == activation_glyph(w@),
{
    let cs = chars_of(w.as_str());
    if is_single(&cs, 'ρ') {
        Option::Some(ActivationFunction::ReLU)
    } else if is_single(&cs, 'σ') {
        Option::Some(ActivationFunction::Sigmoid)
    } else if is_single(&cs, 'τ') {
        Option::Some(ActivationFunction::Tanh)
    } else if is_single(&cs, 'S') {
        Option::Some(ActivationFunction::Softmax)
    } else {
        Option::None
    }
}

/// Whether token `i` is the symbol `c`.
fn symbol_at(toks: &Vec<Token>, i: usize, c: char) -> (r: bool)
    ensures
        r == sym_at(toks_view(toks@), i as int, c),
{
    if i < toks.len() {
        match &toks[i].kind {
            TokenKind::Symbol(d) => *d == c,
            _ => false,
        }
    } else {
        false
    }
}

/// The character offset to report for an error at token `i`.
fn offset_at(toks: &Vec<Token>, i: usize) -> usize {
    if i < toks.len() {
        toks[i].start
    } else if toks.len() > 0 {
        toks[toks.len() - 1].start
    } else {
        0
    }
}

/// The recursive-descent parser of the notation, over tokens.
pub struct AoplParser;

impl AoplParser {
    /// The numbers from token `i` on, and the position after them.
    pub fn parse_numbers(toks: &Vec<Token>, i: usize) -> (r: (Vec<usize>, usize))
        ensures
            p_numbers(toks_view(toks@), i as int) == (r.0@, r.1 as int),
            i <= r.1,
            i < toks@.len() ==> r.1 <= toks@.len(),
    {
        let ghost tv = toks_view(toks@);
        let mut params: Vec<usize> = Vec::new();
        let mut k: usize = i;
        while k < toks.len()
            invariant
                tv == toks_view(toks@),
                tv.len() == toks@.len(),
                i <= k,
                i < toks@.len() ==> k <= toks@.len(),
                p_numbers(tv, i as int) == (params@ + p_numbers(tv, k as int).0, p_numbers(tv, k as int).1),
            ensures
                i <= k,
                i < toks@.len() ==> k <= toks@.len(),
                p_numbers(tv, i as int) == (params@ + p_numbers(tv, k as int).0, p_numbers(tv, k as int).1),
                p_numbers(tv, k as int) == (Seq::<usize>::empty(), k as int),
            decreases toks.len() - k,
        {
            match &toks[k].kind {
                TokenKind::Number(n) => {
                    let ghost before = params@;
                    params.push(*n);
                    proof {
                        let rest = p_numbers(tv, k + 1);
                        assert(before + p_numbers(tv, k as int).0 =~= params@ + rest.0);
                    }
                    k = k + 1;
                },
                _ => {
                    assert(p_numbers(tv, k as int) == (Seq::<usize>::empty(), k as int));
                    break ;
                },
            }
        }
        assert(params@ + Seq::<usize>::empty() =~= params@);
        (params, k)
    }

    /// One term from token `i`.
    pub fn parse_term(toks: &Vec<Token>, i: usize, table: &SymbolTable) -> (r: Result<(ASTNode, usize), ParseError>)
        ensures
            r is Ok <==> p_term(toks_view(toks@), i as int, table@) is Some,
            r is Ok ==> p_term(toks_view(toks@), i as int, table@) == Option::Some(
                (r->Ok_0.0@, r->Ok_0.1 as int),
            ) && i < r->Ok_0.1 <= toks@.len(),
        decreases toks@.len() - i, 0nat,
    {
        let ghost tv = toks_view(toks@);
        if i >= toks.len() {
            return Result::Err(parse_error(offset_at(toks, i), "a term"));
        }
        match &toks[i].kind {
            TokenKind::Symbol(c) => {
                if *c != '[' {
                    return Result::Err(parse_error(toks[i].start, "a term"));
                }
                let (content, j) = match Self::parse_expr(toks, i + 1, table) {
                    Result::Ok(p) => p,
                    Result::Err(e) => {
                        return Result::Err(e);
                    },
                };
                if !Self::closes_block(toks, j) {
                    return Result::Err(parse_error(offset_at(toks, j), "`]×` and a count of at least 1"));
                }
                let n = match &toks[j + 2].kind {
                    TokenKind::Number(n) => *n,
                    _ => 0,
                };
                let block = ASTNode::Block(BlockNode { content: Box::new(content), repetitions: n });
                Result::Ok((block, j + 3))
            },
            TokenKind::Word(w) => {
                let (params, j) = Self::parse_numbers(toks, i + 1);
                if let Option::Some(kind) = input_glyph_of(w) {
                    return Result::Ok((ASTNode::Input(InputNode { input_type: kind, params }), j));
                }
                if let Option::Some(layer_type) = layer_glyph_of(w) {
                    let mut activation = ActivationFunction::Linear;
                    let mut end = j;
                    if j < toks.len() {
                        if let TokenKind::Word(a) = &toks[j].kind {
                            if let Option::Some(act) = activation_glyph_of(a) {
                                activation = act;
                                end = j + 1;
                            }
                        }
                    }
                    let layer = ASTNode::Layer(LayerNode { layer_type, params, activation });
                    return Result::Ok((layer, end));
                }
                match table.resolve(w.as_str()) {
                    Option::Some(n) => Result::Ok((n, i + 1)),
                    Option::None => Result::Err(
                        parse_error(toks[i].start, "a known glyph or a component defined earlier"),
                    ),
                }
            },
            TokenKind::Number(_) => Result::Err(parse_error(toks[i].start, "a term")),
        }
    }

    /// Whether tokens `j..j+3` are `]`, `×` and a count of at least 1.
    fn closes_block(toks: &Vec<Token>, j: usize) -> (r: bool)
        ensures
            r == (sym_at(toks_view(toks@), j as int, ']') && sym_at(toks_view(toks@), j + 1, '×') && j
                + 2 < toks@.len() && toks_view(toks@)[j + 2] is Number && toks_view(toks@)[j
                + 2]->Number_0 >= 1),
    {
        if j >= toks.len() || toks.len() - j < 3 {
            return false;
        }
        if !symbol_at(toks, j, ']') || !symbol_at(toks, j + 1, '×') {
            return false;
        }
        match &toks[j + 2].kind {
            TokenKind::Number(n) => *n >= 1,
            _ => false,
        }
    }

    /// A chain `term (→ term)*` from token `i`, composed from the left.
    pub fn parse_expr(toks: &Vec<Token>, i: usize, table: &SymbolTable) -> (r: Result<(ASTNode, usize), ParseError>)
        ensures
            r is Ok <==> p_expr(toks_view(toks@), i as int, table@) is Some,
            r is Ok ==> p_expr(toks_view(toks@), i as int, table@) == Option::Some(
                (r->Ok_0.0@, r->Ok_0.1 as int),
            ) && i < r->Ok_0.1 <= toks@.len(),
        decreases toks@.len() - i, 2nat,
    {
        let ghost tv = toks_view(toks@);
        let (first, j) = match Self::parse_term(toks, i, table) {
            Result::Ok(p) => p,
            Result::Err(e) => {
                return Result::Err(e);
            },
        };
        let mut acc = first;
        let mut k = j;
        loop
            invariant
                tv == toks_view(toks@),
                tv.len() == toks@.len(),
                i < k <= toks@.len(),
                p_expr(tv, i as int, table@) == p_chain(tv, k as int, acc@, table@),
            ensures
                i < k <= toks@.len(),
                p_expr(tv, i as int, table@) == p_chain(tv, k as int, acc@, table@),
                !sym_at(tv, k as int, '→'),
            decreases toks@.len() - k,
        {
            if !symbol_at(toks, k, '→') {
                break ;
            }
            assert(k < toks.len());
            let (next, m) = match Self::parse_term(toks, k + 1, table) {
                Result::Ok(p) => p,
                Result::Err(e) => {
                    return Result::Err(e);
                },
            };
            acc = ASTNode::DataFlow(Box::new(acc), Box::new(next));
            k = m;
        }
        Result::Ok((acc, k))
    }

    /// `id (⊕ id)*` from token `i`.
    pub fn parse_ids(toks: &Vec<Token>, i: usize) -> (r: Result<(Vec<String>, usize), ParseError>)
        ensures
            r is Ok <==> p_ids(toks_view(toks@), i as int) is Some,
            r is Ok ==> p_ids(toks_view(toks@), i as int) == Option::Some(
                (strings_view(r->Ok_0.0@), r->Ok_0.1 as int),
            ),
    {
        let ghost tv = toks_view(toks@);
        let mut ids: Vec<String> = Vec::new();
        let mut k = i;
        loop
            invariant
                tv == toks_view(toks@),
                i <= k,
                p_ids(tv, i as int) == cons_all(strings_view(ids@), p_ids(tv, k as int)),
            decreases toks@.len() - k,
        {
            if k >= toks.len() {
                return Result::Err(parse_error(offset_at(toks, k), "a component id"));
            }
            let w = match &toks[k].kind {
                TokenKind::Word(w) => w.clone(),
                _ => {
                    return Result::Err(parse_error(toks[k].start, "a component id"));
                },
            };
            let ghost before = strings_view(ids@);
            ids.push(w);
            assert(strings_view(ids@) =~= before.push(tv[k as int]->Word_0));
            if symbol_at(toks, k + 1, '⊕') {
                proof {
                    lemma_cons_all(before, tv[k as int]->Word_0, p_ids(tv, k + 2));
                }
                k = k + 2;
            } else {
                assert(strings_view(ids@) =~= before + seq![tv[k as int]->Word_0]);
                return Result::Ok((ids, k + 1));
            }
        }
    }
}

pub open spec fn prepend_nodes(a: Seq<AstView>, r: Option<Seq<AstView>>) -> Option<Seq<AstView>> {
    match r {
        Option::Some(rest) => Option::Some(a + rest),
        Option::None => Option::None,
    }
}

proof fn lemma_prepend_nodes(a: Seq<AstView>, x: AstView, r: Option<Seq<AstView>>)
    ensures
        prepend_nodes(a.push(x), r) == prepend_nodes(a, cons_node(x, r)),
{
    if let Option::Some(rest) = r {
        assert(a.push(x) + rest =~= a + (seq![x] + rest));
    }
}

/// Appending a node appends its view.
proof fn lemma_nodes_view_push(before: Seq<ASTNode>, after: Seq<ASTNode>, x: ASTNode)
    requires
        after == before.push(x),
    ensures
        nodes_view(after) == nodes_view(before).push(node_view(x)),
{
    assert(after.subrange(0, after.len() - 1) == before);
}

impl AoplParser {
    /// The body items from token `i` to the end. Each component definition is
    /// bound in the table as it is parsed, so a reference resolves only to a
    /// component defined before it.
    pub fn parse_items(toks: &Vec<Token>, i: usize) -> (r: Result<Vec<ASTNode>, ParseError>)
        ensures
            r is Ok <==> p_items(toks_view(toks@), i as int, Map::empty()) is Some,
            r is Ok ==> p_items(toks_view(toks@), i as int, Map::empty()) == Option::Some(
                nodes_view(r->Ok_0@),
            ),
    {
        let ghost tv = toks_view(toks@);
        let mut table = SymbolTable::new();
        let mut body: Vec<ASTNode> = Vec::new();
        let mut k = i;
        while k < toks.len()
            invariant
                tv == toks_view(toks@),
                tv.len() == toks@.len(),
                i <= k,
                p_items(tv, i as int, Map::empty()) == prepend_nodes(
                    nodes_view(body@),
                    p_items(tv, k as int, table@),
                ),
            decreases toks@.len() - k,
        {
            let ghost before = body@;
            let is_def = match &toks[k].kind {
                TokenKind::Word(_) => symbol_at(toks, k + 1, ':'),
                _ => false,
            };
            if is_def {
                let id = match &toks[k].kind {
                    TokenKind::Word(w) => w.clone(),
                    _ => String::new(),
                };
                let (e, j) = match Self::parse_expr(toks, k + 2, &table) {
                    Result::Ok(p) => p,
                    Result::Err(err) => {
                        return Result::Err(err);
                    },
                };
                let ghost env = table@;
                table.add_component(id.clone(), e.deep_copy());
                let item = ASTNode::Component(ComponentNode { id, expr: Box::new(e) });
                proof {
                    lemma_prepend_nodes(nodes_view(before), item@, p_items(tv, j as int, table@));
                }
                body.push(item);
                proof {
                    lemma_nodes_view_push(before, body@, item);
                }
                k = j;
            } else {
                let (e, j) = match Self::parse_expr(toks, k, &table) {
                    Result::Ok(p) => p,
                    Result::Err(err) => {
                        return Result::Err(err);
                    },
                };
                if symbol_at(toks, j, '⊳') {
                    if !Self::loss_tail(toks, j) {
                        return Result::Err(parse_error(offset_at(toks, j), "`⊳ id ⟿ name`"));
                    }
                    let to = match &toks[j + 1].kind {
                        TokenKind::Word(w) => w.clone(),
                        _ => String::new(),
                    };
                    let function = match &toks[j + 3].kind {
                        TokenKind::Word(w) => w.clone(),
                        _ => String::new(),
                    };
                    let item = ASTNode::Loss(LossNode { from: Box::new(e), to, function });
                    proof {
                        lemma_prepend_nodes(nodes_view(before), item@, p_items(tv, j + 4, table@));
                    }
                    body.push(item);
                    proof {
                        lemma_nodes_view_push(before, body@, item);
                    }
                    k = j + 4;
                } else {
                    proof {
                        lemma_prepend_nodes(nodes_view(before), e@, p_items(tv, j as int, table@));
                    }
                    body.push(e);
                    proof {
                        lemma_nodes_view_push(before, body@, e);
                    }
                    k = j;
                }
            }
        }
        assert(nodes_view(body@) + Seq::<AstView>::empty() =~= nodes_view(body@));
        Result::Ok(body)
    }

    /// Whether tokens `j+1..j+4` are an id, `⟿` and a function name.
    fn loss_tail(toks: &Vec<Token>, j: usize) -> (r: bool)
        ensures
            r == (j + 3 < toks@.len() && toks_view(toks@)[j + 1] is Word && sym_at(
                toks_view(toks@),
                j + 2,
                '⟿',
            ) && toks_view(toks@)[j + 3] is Word),
    {
        if j >= toks.len() || toks.len() - j < 4 {
            return false;
        }
        let to_is_word = match &toks[j + 1].kind {
            TokenKind::Word(_) => true,
            _ => false,
        };
        let function_is_word = match &toks[j + 3].kind {
            TokenKind::Word(_) => true,
            _ => false,
        };
        to_is_word && symbol_at(toks, j + 2, '⟿') && function_is_word
    }

    /// A whole network from tokens.
    pub fn parse_network(toks: &Vec<Token>) -> (r: Result<ASTNode, ParseError>)
        ensures
            r is Ok <==> p_network(toks_view(toks@)) is Some,
            r is Ok ==> p_network(toks_view(toks@)) == Option::Some(r->Ok_0@),
    {
        let ghost tv = toks_view(toks@);
        let starts_with_n = if toks.len() >= 1 {
            match &toks[0].kind {
                TokenKind::Word(w) => is_single(&chars_of(w.as_str()), 'N'),
                _ => false,
            }
        } else {
            false
        };
        if !starts_with_n {
            return Result::Err(parse_error(offset_at(toks, 0), "`N`"));
        }
        let opens_list = toks.len() >= 2 && match &toks[1].kind {
            TokenKind::Symbol(c) => *c == '⟨' || *c == '〈',
            _ => false,
        };
        if opens_list {
            let (ids, j) = match Self::parse_ids(toks, 2) {
                Result::Ok(p) => p,
                Result::Err(e) => {
                    return Result::Err(e);
                },
            };
            let closes_list = j < toks.len() && match &toks[j].kind {
                TokenKind::Symbol(c) => *c == '⟩' || *c == '〉',
                _ => false,
            };
            if !closes_list {
                return Result::Err(parse_error(offset_at(toks, j), "`⟩`"));
            }
            let body = match Self::parse_items(toks, j + 1) {
                Result::Ok(b) => b,
                Result::Err(e) => {
                    return Result::Err(e);
                },
            };
            Result::Ok(ASTNode::Network(NetworkNode { components: Option::Some(ids), body }))
        } else {
            let body = match Self::parse_items(toks, 1) {
                Result::Ok(b) => b,
                Result::Err(e) => {
                    return Result::Err(e);
                },
            };
            Result::Ok(ASTNode::Network(NetworkNode { components: Option::None, body }))
        }
    }
}

/// Parses the notation into a network. Fails exactly when the text is not
/// well formed; the tree is the one the grammar assigns to the text.
///
/// The glyph `T` is read as a text input wherever a term starts, so a
/// transposed convolution never comes out of a parse; build such a layer
/// directly instead.
pub fn parse(input: &str) -> (r: Result<ASTNode, ParseError>)
    ensures
        r is Ok <==> spec_parse(input@) is Some,
        r is Ok ==> spec_parse(input@) == Option::Some(r->Ok_0@),
{
    let toks = match tokenize(input) {
        Result::Ok(t) => t,
        Result::Err(e) => {
            return Result::Err(e);
        },
    };
    AoplParser::parse_network(&toks)
}

pub open spec fn cons_all(a: Seq<Seq<char>>, r: Option<(Seq<Seq<char>>, int)>) -> Option<(Seq<Seq<char>>, int)> {
    match r {
        Option::Some((rest, j)) => Option::Some((a + rest, j)),
        Option::None => Option::None,
    }
}

proof fn lemma_cons_all(a: Seq<Seq<char>>, x: Seq<char>, r: Option<(Seq<Seq<char>>, int)>)
    ensures
        cons_all(a.push(x), r) == cons_all(a, cons_id(x, r)),
{
    if let Option::Some((rest, j)) = r {
        assert(a.push(x) + rest =~= a + (seq![x] + rest));
    }
}

} // verus!

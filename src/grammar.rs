use vstd::prelude::*;
use crate::ast::{ActivationFunction, AstView, InputType, LayerType};

verus! {

// Lexical level: the notation is split into symbols, numbers and words.
// Whitespace separates tokens and is otherwise ignored.

pub open spec fn is_space(c: char) -> bool {
    c == ' ' || c == '\t' || c == '\n' || c == '\r'
}

/// The one-character operators: data flow, definition, loss attachment,
/// block brackets and repetition, component-list delimiters and separator.
pub open spec fn is_symbol(c: char) -> bool {
    c == '→' || c == ':' || c == '⊳' || c == '⟿' || c == '[' || c == ']' || c == '×' || c == '⟨'
        || c == '⟩' || c == '〈' || c == '〉' || c == '⊕'
}

pub open spec fn is_word_char(c: char) -> bool {
    !is_space(c) && !is_symbol(c)
}

pub open spec fn is_digit(c: char) -> bool {
    '0' <= c <= '9'
}

pub open spec fn all_digits(w: Seq<char>) -> bool {
    forall|k: int| 0 <= k < w.len() ==> is_digit(#[trigger] w[k])
}

/// The value of a run of digits, where `zero` is the digit for 0.
pub open spec fn run_value(w: Seq<char>, zero: char) -> nat
    decreases w.len(),
{
    if w.len() == 0 {
        0
    } else {
        (run_value(w.subrange(0, w.len() - 1), zero) * 10 + ((w[w.len() - 1] as int) - (zero as int))) as nat
    }
}

pub open spec fn digits_value(w: Seq<char>) -> nat {
    run_value(w, '0')
}

/// A token of the notation.
pub enum Tok {
    Word(Seq<char>),
    Number(usize),
    Symbol(char),
}

/// The end of the run of word characters that starts at `i`.
pub open spec fn word_end(s: Seq<char>, i: int) -> int
    decreases s.len() - i,
{
    if 0 <= i < s.len() && is_word_char(s[i]) {
        word_end(s, i + 1)
    } else {
        i
    }
}

pub open spec fn prepend(t: Tok, r: Option<Seq<Tok>>) -> Option<Seq<Tok>> {
    match r {
        Option::Some(rest) => Option::Some(seq![t] + rest),
        Option::None => Option::None,
    }
}

/// The tokens of `s` from position `i` on; `None` when a number does not fit a `usize`.
pub open spec fn lex_from(s: Seq<char>, i: int) -> Option<Seq<Tok>>
    decreases s.len() - i,
{
    if i < 0 || i >= s.len() {
        Option::Some(Seq::empty())
    } else if is_space(s[i]) {
        lex_from(s, i + 1)
    } else if is_symbol(s[i]) {
        prepend(Tok::Symbol(s[i]), lex_from(s, i + 1))
    } else {
        let j = word_end(s, i);
        let w = s.subrange(i, j);
        if j <= i || j > s.len() {
            Option::None
        } else if all_digits(w) {
            if digits_value(w) > usize::MAX {
                Option::None
            } else {
                prepend(Tok::Number(digits_value(w) as usize), lex_from(s, j))
            }
        } else {
            prepend(Tok::Word(w), lex_from(s, j))
        }
    }
}

pub open spec fn lex(s: Seq<char>) -> Option<Seq<Tok>> {
    lex_from(s, 0)
}

// Glyph tables.

pub open spec fn input_glyph(w: Seq<char>) -> Option<InputType> {
    if w == seq!['T'] {
        Option::Some(InputType::Text)
    } else if w == seq!['I'] {
        Option::Some(InputType::Image)
    } else if w == seq!['S'] {
        Option::Some(InputType::Sequence)
    } else if w == seq!['Z'] {
        Option::Some(InputType::Latent)
    } else {
        Option::None
    }
}

pub open spec fn is_subscript(c: char) -> bool {
    '₀' <= c <= '₉'
}

pub open spec fn subscript_value(w: Seq<char>) -> nat {
    run_value(w, '₀')
}

/// `c` followed by subscript digits whose value fits a `usize`; the index is
/// 0 when there are none.
pub open spec fn indexed(w: Seq<char>, c: char) -> Option<usize> {
    if w.len() >= 1 && w[0] == c && (forall|k: int| 1 <= k < w.len() ==> is_subscript(#[trigger] w[k]))
        && subscript_value(w.subrange(1, w.len() as int)) <= usize::MAX {
        Option::Some(subscript_value(w.subrange(1, w.len() as int)) as usize)
    } else {
        Option::None
    }
}

/// The layer kind a glyph word names. `T` names a transposed convolution
/// here, but a term is matched against the input glyphs first, where `T` is
/// text input; so no text parses to a transposed convolution.
pub open spec fn layer_glyph(w: Seq<char>) -> Option<LayerType> {
    if indexed(w, 'C') is Some {
        Option::Some(LayerType::Convolutional(indexed(w, 'C')->0))
    } else if indexed(w, 'D') is Some {
        Option::Some(LayerType::Dense(indexed(w, 'D')->0))
    } else if w == seq!['P'] {
        Option::Some(LayerType::Pooling)
    } else if w == seq!['F'] {
        Option::Some(LayerType::Flatten)
    } else if w == seq!['U'] {
        Option::Some(LayerType::Upsampling)
    } else if w == seq!['L'] {
        Option::Some(LayerType::LSTM)
    } else if w == seq!['H'] {
        Option::Some(LayerType::AttentionHeads)
    } else if w == seq!['R'] {
        Option::Some(LayerType::Reshape)
    } else if w == seq!['E'] {
        Option::Some(LayerType::Embedding)
    } else if w == seq!['B'] {
        Option::Some(LayerType::BatchSize)
    } else if w == seq!['T'] {
        Option::Some(LayerType::TransposeConv)
    } else if w == seq!['A'] {
        Option::Some(LayerType::Attention)
    } else {
        Option::None
    }
}

pub open spec fn activation_glyph(w: Seq<char>) -> Option<ActivationFunction> {
    if w == seq!['ρ'] {
        Option::Some(ActivationFunction::ReLU)
    } else if w == seq!['σ'] {
        Option::Some(ActivationFunction::Sigmoid)
    } else if w == seq!['τ'] {
        Option::Some(ActivationFunction::Tanh)
    } else if w == seq!['S'] {
        Option::Some(ActivationFunction::Softmax)
    } else {
        Option::None
    }
}

pub open spec fn is_open_list(c: char) -> bool {
    c == '⟨' || c == '〈'
}

pub open spec fn is_close_list(c: char) -> bool {
    c == '⟩' || c == '〉'
}

// Syntactic level, over tokens. `env` holds the components defined so far.

pub open spec fn sym_at(toks: Seq<Tok>, i: int, c: char) -> bool {
    0 <= i < toks.len() && toks[i] == Tok::Symbol(c)
}

/// The numbers that follow position `i`, and the position after them.
pub open spec fn p_numbers(toks: Seq<Tok>, i: int) -> (Seq<usize>, int)
    decreases toks.len() - i,
{
    if 0 <= i < toks.len() && toks[i] is Number {
        let (rest, j) = p_numbers(toks, i + 1);
        (seq![toks[i]->Number_0] + rest, j)
    } else {
        (Seq::empty(), i)
    }
}

/// One term: a block, an input, a layer or a component reference. A
/// reference must name a component defined earlier in the body; any other
/// word (an unknown glyph, a forward or self reference) is an error.
pub open spec fn p_term(toks: Seq<Tok>, i: int, env: Map<Seq<char>, AstView>) -> Option<(AstView, int)>
    decreases toks.len() - i, 0nat,
{
    if i < 0 || i >= toks.len() {
        Option::None
    } else if toks[i] == Tok::Symbol('[') {
        match p_expr(toks, i + 1, env) {
            Option::Some((e, j)) => if sym_at(toks, j, ']') && sym_at(toks, j + 1, '×') && j + 2
                < toks.len() && toks[j + 2] is Number && toks[j + 2]->Number_0 >= 1 {
                Option::Some(
                    (AstView::Block { content: Box::new(e), repetitions: toks[j + 2]->Number_0 }, j + 3),
                )
            } else {
                Option::None
            },
            Option::None => Option::None,
        }
    } else if toks[i] is Word {
        let w = toks[i]->Word_0;
        let (params, j) = p_numbers(toks, i + 1);
        if input_glyph(w) is Some {
            Option::Some((AstView::Input { input_type: input_glyph(w)->0, params }, j))
        } else if layer_glyph(w) is Some {
            if 0 <= j < toks.len() && toks[j] is Word && activation_glyph(toks[j]->Word_0) is Some {
                Option::Some(
                    (
                        AstView::Layer {
                            layer_type: layer_glyph(w)->0,
                            params,
                            activation: activation_glyph(toks[j]->Word_0)->0,
                        },
                        j + 1,
                    ),
                )
            } else {
                Option::Some(
                    (
                        AstView::Layer {
                            layer_type: layer_glyph(w)->0,
                            params,
                            activation: ActivationFunction::Linear,
                        },
                        j,
                    ),
                )
            }
        } else if env.contains_key(w) {
            Option::Some((env[w], i + 1))
        } else {
            Option::None
        }
    } else {
        Option::None
    }
}

/// `term (→ term)*`, composed from the left.
pub open spec fn p_expr(toks: Seq<Tok>, i: int, env: Map<Seq<char>, AstView>) -> Option<(AstView, int)>
    decreases toks.len() - i, 2nat,
{
    match p_term(toks, i, env) {
        Option::Some((first, j)) => if i < j <= toks.len() {
            p_chain(toks, j, first, env)
        } else {
            Option::None
        },
        Option::None => Option::None,
    }
}

/// The rest of a chain after `acc`, starting at position `i`.
pub open spec fn p_chain(toks: Seq<Tok>, i: int, acc: AstView, env: Map<Seq<char>, AstView>) -> Option<
    (AstView, int),
>
    decreases toks.len() - i, 1nat,
{
    if sym_at(toks, i, '→') {
        match p_term(toks, i + 1, env) {
            Option::Some((next, j)) => if i + 1 < j <= toks.len() {
                p_chain(toks, j, AstView::DataFlow { from: Box::new(acc), to: Box::new(next) }, env)
            } else {
                Option::None
            },
            Option::None => Option::None,
        }
    } else {
        Option::Some((acc, i))
    }
}

pub open spec fn cons_node(x: AstView, r: Option<Seq<AstView>>) -> Option<Seq<AstView>> {
    match r {
        Option::Some(rest) => Option::Some(seq![x] + rest),
        Option::None => Option::None,
    }
}

pub open spec fn cons_id(x: Seq<char>, r: Option<(Seq<Seq<char>>, int)>) -> Option<(Seq<Seq<char>>, int)> {
    match r {
        Option::Some((rest, j)) => Option::Some((seq![x] + rest, j)),
        Option::None => Option::None,
    }
}

/// The body items from position `i` to the end: component definitions
/// (`id : expr`, which bind `id` for later items), loss attachments
/// (`expr ⊳ id ⟿ name`) and plain expressions.
pub open spec fn p_items(toks: Seq<Tok>, i: int, env: Map<Seq<char>, AstView>) -> Option<Seq<AstView>>
    decreases toks.len() - i,
{
    if i < 0 || i >= toks.len() {
        Option::Some(Seq::empty())
    } else if toks[i] is Word && sym_at(toks, i + 1, ':') {
        let id = toks[i]->Word_0;
        match p_expr(toks, i + 2, env) {
            Option::Some((e, j)) => if i < j <= toks.len() {
                cons_node(AstView::Component { id, expr: Box::new(e) }, p_items(toks, j, env.insert(id, e)))
            } else {
                Option::None
            },
            Option::None => Option::None,
        }
    } else {
        match p_expr(toks, i, env) {
            Option::Some((e, j)) => {
                if sym_at(toks, j, '⊳') {
                    if i <= j && j + 3 < toks.len() && toks[j + 1] is Word && sym_at(toks, j + 2, '⟿')
                        && toks[j + 3] is Word {
                        let item = AstView::Loss {
                            from: Box::new(e),
                            to: toks[j + 1]->Word_0,
                            function: toks[j + 3]->Word_0,
                        };
                        cons_node(item, p_items(toks, j + 4, env))
                    } else {
                        Option::None
                    }
                } else if i < j <= toks.len() {
                    cons_node(e, p_items(toks, j, env))
                } else {
                    Option::None
                }
            },
            Option::None => Option::None,
        }
    }
}

/// `id (⊕ id)*` from position `i`, and the position after the last id.
pub open spec fn p_ids(toks: Seq<Tok>, i: int) -> Option<(Seq<Seq<char>>, int)>
    decreases toks.len() - i,
{
    if 0 <= i < toks.len() && toks[i] is Word {
        if sym_at(toks, i + 1, '⊕') {
            cons_id(toks[i]->Word_0, p_ids(toks, i + 2))
        } else {
            Option::Some((seq![toks[i]->Word_0], i + 1))
        }
    } else {
        Option::None
    }
}

/// A network: `N`, an optional list `⟨id ⊕ … ⟩` of components, then the body.
pub open spec fn p_network(toks: Seq<Tok>) -> Option<AstView> {
    if toks.len() >= 1 && toks[0] == Tok::Word(seq!['N']) {
        if toks.len() >= 2 && toks[1] is Symbol && is_open_list(toks[1]->Symbol_0) {
            match p_ids(toks, 2) {
                Option::Some((ids, j)) => if 0 <= j < toks.len() && toks[j] is Symbol && is_close_list(
                    toks[j]->Symbol_0,
                ) {
                    match p_items(toks, j + 1, Map::empty()) {
                        Option::Some(body) => Option::Some(
                            AstView::Network { components: Option::Some(ids), body },
                        ),
                        Option::None => Option::None,
                    }
                } else {
                    Option::None
                },
                Option::None => Option::None,
            }
        } else {
            match p_items(toks, 1, Map::empty()) {
                Option::Some(body) => Option::Some(AstView::Network { components: Option::None, body }),
                Option::None => Option::None,
            }
        }
    } else {
        Option::None
    }
}

/// The tree that the text `s` denotes, if it is well formed.
pub open spec fn spec_parse(s: Seq<char>) -> Option<AstView> {
    match lex(s) {
        Option::Some(toks) => p_network(toks),
        Option::None => Option::None,
    }
}

} // verus!

verus! {

/// A component definition `id : e` binds `id` to the tree of `e` for the
/// items after it, and every later reference to `id` that is not a glyph
/// reads as that same tree: each reference site gets a tree deep-equal to
/// the definition's. The parser builds each site's tree as a copy of its own.
pub proof fn law_definition_then_reference(
    toks: Seq<Tok>,
    i: int,
    env: Map<Seq<char>, AstView>,
    id: Seq<char>,
    e: AstView,
    j: int,
    k: int,
)
    requires
        0 <= i,
        i + 1 < toks.len(),
        toks[i] == Tok::Word(id),
        sym_at(toks, i + 1, ':'),
        p_expr(toks, i + 2, env) == Option::Some((e, j)),
        i < j <= toks.len(),
        0 <= k < toks.len(),
        toks[k] == Tok::Word(id),
        input_glyph(id) is None,
        layer_glyph(id) is None,
    ensures
        p_items(toks, i, env) == cons_node(
            AstView::Component { id, expr: Box::new(e) },
            p_items(toks, j, env.insert(id, e)),
        ),
        p_term(toks, k, env.insert(id, e)) == Option::Some((e, k + 1)),
{
}

} // verus!

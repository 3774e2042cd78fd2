use vstd::prelude::*;
use crate::ast::{ActivationFunction, AstView, InputType, LayerType};
use crate::grammar::{
    activation_glyph, cons_node, input_glyph, layer_glyph, p_chain, p_expr, p_items, p_network,
    p_numbers, p_term, sym_at, Tok,
};
use crate::render::{
    activation_text, index_text, input_glyph_text, layer_glyph_text, subscript_dec,
    subscript_digit_text,
};
use crate::grammar::{
    indexed, is_close_list, is_digit, is_open_list, is_subscript, is_word_char, p_ids, run_value,
};

verus! {

// Trees that the canonical rendering reproduces exactly.

/// A term whose rendering reads back as itself. A transposed convolution
/// shares its glyph with text input, which the grammar reads first, so it
/// has no rendering of its own.
pub open spec fn term_ok(t: AstView) -> bool
    decreases t, 0nat,
{
    match t {
        AstView::Layer { layer_type, .. } => layer_type != LayerType::TransposeConv,
        AstView::Input { .. } => true,
        AstView::Block { content, repetitions } => repetitions >= 1 && chain_ok(*content),
        _ => false,
    }
}

/// A chain of terms composed from the left, as the grammar builds it.
pub open spec fn chain_ok(t: AstView) -> bool
    decreases t, 1nat,
{
    match t {
        AstView::DataFlow { from, to } => chain_ok(*from) && term_ok(*to),
        _ => term_ok(t),
    }
}

/// The last term of a chain.
pub open spec fn last_term(t: AstView) -> AstView {
    match t {
        AstView::DataFlow { to, .. } => *to,
        _ => t,
    }
}

/// The first term of a chain.
pub open spec fn first_term(t: AstView) -> AstView
    decreases t,
{
    match t {
        AstView::DataFlow { from, .. } => first_term(*from),
        _ => t,
    }
}

/// A chain that ends in a layer without activation would take a following
/// `S` (sequence input) as its softmax activation.
pub open spec fn ends_bare_layer(t: AstView) -> bool {
    last_term(t) matches AstView::Layer { activation: ActivationFunction::Linear, .. }
}

pub open spec fn starts_with_sequence(t: AstView) -> bool {
    first_term(t) matches AstView::Input { input_type: InputType::Sequence, .. }
}

/// Body items that are chains, where no item ending in a bare layer is
/// followed by one starting with a sequence input.
pub open spec fn body_ok(body: Seq<AstView>) -> bool {
    &&& forall|k: int| 0 <= k < body.len() ==> chain_ok(#[trigger] body[k])
    &&& forall|k: int|
        0 <= k < body.len() - 1 ==> !(ends_bare_layer(#[trigger] body[k]) && starts_with_sequence(
            body[k + 1],
        ))
}

/// A network without a declared component list whose body reads back as itself.
/// An id that reads back as one word: word characters, not starting with a digit.
pub open spec fn id_ok(w: Seq<char>) -> bool {
    &&& w.len() >= 1
    &&& forall|k: int| 0 <= k < w.len() ==> is_word_char(#[trigger] w[k])
    &&& !is_digit(w[0])
}

/// No declared component list, or a non-empty list of ids that read back as words.
pub open spec fn list_ok(c: Option<Seq<Seq<char>>>) -> bool {
    match c {
        Option::Some(ids) => ids.len() >= 1 && forall|k: int| 0 <= k < ids.len() ==> id_ok(
            #[trigger] ids[k],
        ),
        Option::None => true,
    }
}

/// A network whose declared component list and body read back as themselves.
pub open spec fn network_ok(t: AstView) -> bool {
    match t {
        AstView::Network { components, body } => list_ok(components) && body_ok(body),
        _ => false,
    }
}

// The tokens of a rendering.

pub open spec fn nums(ps: Seq<usize>) -> Seq<Tok>
    decreases ps.len(),
{
    if ps.len() == 0 {
        Seq::empty()
    } else {
        nums(ps.subrange(0, ps.len() - 1)).push(Tok::Number(ps[ps.len() - 1]))
    }
}

pub open spec fn activation_toks(a: ActivationFunction) -> Seq<Tok> {
    match a {
        ActivationFunction::Linear => Seq::empty(),
        _ => seq![Tok::Word(activation_text(a).subrange(1, activation_text(a).len() as int))],
    }
}

pub open spec fn term_toks(t: AstView) -> Seq<Tok>
    decreases t, 0nat,
{
    match t {
        AstView::Layer { layer_type, params, activation } => seq![Tok::Word(layer_glyph_text(layer_type))]
            + nums(params) + activation_toks(activation),
        AstView::Input { input_type, params } => seq![Tok::Word(input_glyph_text(input_type))] + nums(
            params,
        ),
        AstView::Block { content, repetitions } => seq![Tok::Symbol('[')] + chain_toks(*content)
            + seq![Tok::Symbol(']'), Tok::Symbol('×'), Tok::Number(repetitions)],
        _ => Seq::empty(),
    }
}

pub open spec fn chain_toks(t: AstView) -> Seq<Tok>
    decreases t, 1nat,
{
    match t {
        AstView::DataFlow { from, to } => chain_toks(*from) + seq![Tok::Symbol('→')] + term_toks(*to),
        _ => term_toks(t),
    }
}

pub open spec fn body_toks(body: Seq<AstView>) -> Seq<Tok>
    decreases body.len(),
{
    if body.len() == 0 {
        Seq::empty()
    } else {
        chain_toks(body[0]) + body_toks(body.subrange(1, body.len() as int))
    }
}

/// `id (⊕ id)*` as tokens.
pub open spec fn ids_toks(ids: Seq<Seq<char>>) -> Seq<Tok>
    decreases ids.len(),
{
    if ids.len() == 0 {
        Seq::empty()
    } else if ids.len() == 1 {
        seq![Tok::Word(ids[0])]
    } else {
        seq![Tok::Word(ids[0]), Tok::Symbol('⊕')] + ids_toks(ids.subrange(1, ids.len() as int))
    }
}

pub open spec fn list_toks(c: Option<Seq<Seq<char>>>) -> Seq<Tok> {
    match c {
        Option::Some(ids) => seq![Tok::Symbol('⟨')] + ids_toks(ids) + seq![Tok::Symbol('⟩')],
        Option::None => Seq::empty(),
    }
}

pub open spec fn network_toks(t: AstView) -> Seq<Tok> {
    match t {
        AstView::Network { components, body } => seq![Tok::Word(seq!['N'])] + list_toks(components)
            + body_toks(body),
        _ => Seq::empty(),
    }
}

/// What may follow the tokens of a chain whose last term is `last` at position `e`.
pub open spec fn follows(toks: Seq<Tok>, e: int, last: AstView) -> bool {
    &&& !(0 <= e < toks.len() && toks[e] is Number)
    &&& (last matches AstView::Layer { activation: ActivationFunction::Linear, .. }) ==> !(0 <= e
        < toks.len() && toks[e] is Word && activation_glyph(toks[e]->Word_0) is Some)
}

/// `toks` holds `piece` from position `i`.
pub open spec fn holds_at(toks: Seq<Tok>, i: int, piece: Seq<Tok>) -> bool {
    0 <= i && i + piece.len() <= toks.len() && toks.subrange(i, i + piece.len()) == piece
}

proof fn lemma_nums_len(ps: Seq<usize>)
    ensures
        nums(ps).len() == ps.len(),
        forall|k: int| 0 <= k < ps.len() ==> #[trigger] nums(ps)[k] == Tok::Number(ps[k]),
    decreases ps.len(),
{
    if ps.len() > 0 {
        lemma_nums_len(ps.subrange(0, ps.len() - 1));
    }
}

/// Reading numbers consumes the run from the front.
proof fn lemma_nums_tail(toks: Seq<Tok>, i: int, ps: Seq<usize>)
    requires
        holds_at(toks, i, nums(ps)),
        !(0 <= i + ps.len() < toks.len() && toks[i + ps.len()] is Number),
    ensures
        p_numbers(toks, i) == (ps, i + ps.len()),
    decreases ps.len(),
{
    lemma_nums_len(ps);
    if ps.len() == 0 {
    } else {
        assert(toks[i] == nums(ps)[0]);
        let rest = ps.subrange(1, ps.len() as int);
        lemma_nums_len(rest);
        assert(toks.subrange(i + 1, i + 1 + rest.len()) =~= nums(rest)) by {
            assert forall|k: int| 0 <= k < rest.len() implies toks.subrange(i + 1, i + 1 + rest.len())[k]
                == nums(rest)[k] by {
                assert(toks[i + 1 + k] == nums(ps)[1 + k]);
            }
        }
        lemma_nums_tail(toks, i + 1, rest);
        assert(seq![ps[0]] + rest =~= ps);
    }
}

proof fn lemma_holds_split(toks: Seq<Tok>, i: int, a: Seq<Tok>, b: Seq<Tok>)
    requires
        holds_at(toks, i, a + b),
    ensures
        holds_at(toks, i, a),
        holds_at(toks, i + a.len(), b),
{
    let w = toks.subrange(i, i + a.len() + b.len());
    assert(w == a + b);
    assert forall|k: int| 0 <= k < a.len() implies toks.subrange(i, i + a.len())[k] == a[k] by {
        assert(w[k] == (a + b)[k]);
    }
    assert forall|k: int| 0 <= k < b.len() implies toks.subrange(i + a.len(), i + a.len() + b.len())[k]
        == b[k] by {
        assert(w[a.len() + k] == (a + b)[a.len() + k]);
    }
    assert(toks.subrange(i, i + a.len()) =~= a);
    assert(toks.subrange(i + a.len(), i + a.len() + b.len()) =~= b);
}

proof fn lemma_subscript_digit(d: nat)
    requires
        d < 10,
    ensures
        subscript_digit_text(d).len() == 1,
        subscript_digit_text(d)[0] as int == ('₀' as int) + d,
        is_subscript(subscript_digit_text(d)[0]),
{
    reveal_strlit("₀");
    reveal_strlit("₁");
    reveal_strlit("₂");
    reveal_strlit("₃");
    reveal_strlit("₄");
    reveal_strlit("₅");
    reveal_strlit("₆");
    reveal_strlit("₇");
    reveal_strlit("₈");
    reveal_strlit("₉");
}

/// Subscript digits spell back the index they were written from.
proof fn lemma_subscript_dec(n: nat)
    ensures
        forall|k: int| 0 <= k < subscript_dec(n).len() ==> is_subscript(#[trigger] subscript_dec(n)[k]),
        run_value(subscript_dec(n), '₀') == n,
        subscript_dec(n).len() >= 1,
    decreases n,
{
    lemma_subscript_digit(n % 10);
    let s = subscript_dec(n);
    if n < 10 {
        assert(s.subrange(0, 0) =~= Seq::<char>::empty());
        assert(run_value(s.subrange(0, 0), '₀') == 0);
    } else {
        lemma_subscript_dec(n / 10);
        assert(s.subrange(0, s.len() - 1) =~= subscript_dec(n / 10));
        assert(s[s.len() - 1] == subscript_digit_text(n % 10)[0]);
        assert forall|k: int| 0 <= k < s.len() implies is_subscript(#[trigger] s[k]) by {
            if k < s.len() - 1 {
                assert(s[k] == subscript_dec(n / 10)[k]);
            }
        }
    }
}

proof fn lemma_indexed(c: char, idx: usize)
    ensures
        indexed(seq![c] + index_text(idx), c) == Option::Some(idx),
{
    let w = seq![c] + index_text(idx);
    assert(w.subrange(1, w.len() as int) =~= index_text(idx));
    if idx > 0 {
        lemma_subscript_dec(idx as nat);
    }
}

proof fn lemma_glyphs()
    ensures
        "C"@ == seq!['C'],
        "D"@ == seq!['D'],
        "P"@ == seq!['P'],
        "F"@ == seq!['F'],
        "U"@ == seq!['U'],
        "L"@ == seq!['L'],
        "H"@ == seq!['H'],
        "R"@ == seq!['R'],
        "E"@ == seq!['E'],
        "B"@ == seq!['B'],
        "T"@ == seq!['T'],
        "A"@ == seq!['A'],
        "I"@ == seq!['I'],
        "S"@ == seq!['S'],
        "Z"@ == seq!['Z'],
        " ρ"@ == seq![' ', 'ρ'],
        " σ"@ == seq![' ', 'σ'],
        " τ"@ == seq![' ', 'τ'],
        " S"@ == seq![' ', 'S'],
{
    reveal_strlit("C");
    reveal_strlit("D");
    reveal_strlit("P");
    reveal_strlit("F");
    reveal_strlit("U");
    reveal_strlit("L");
    reveal_strlit("H");
    reveal_strlit("R");
    reveal_strlit("E");
    reveal_strlit("B");
    reveal_strlit("T");
    reveal_strlit("A");
    reveal_strlit("I");
    reveal_strlit("S");
    reveal_strlit("Z");
    reveal_strlit(" ρ");
    reveal_strlit(" σ");
    reveal_strlit(" τ");
    reveal_strlit(" S");
}

/// The glyph word of a layer reads back as that layer, and as no input.
proof fn lemma_layer_word(l: LayerType)
    requires
        l != LayerType::TransposeConv,
    ensures
        layer_glyph(layer_glyph_text(l)) == Option::Some(l),
        input_glyph(layer_glyph_text(l)) is None,
        activation_glyph(layer_glyph_text(l)) is None,
        layer_glyph_text(l).len() >= 1,
{
    lemma_glyphs();
    match l {
        LayerType::Convolutional(i) => {
            lemma_indexed('C', i);
            assert(layer_glyph_text(l)[0] == 'C');
        },
        LayerType::Dense(i) => {
            lemma_indexed('D', i);
            assert(layer_glyph_text(l)[0] == 'D');
            assert(indexed(layer_glyph_text(l), 'C') is None);
        },
        _ => {},
    }
}

proof fn lemma_input_word(k: InputType)
    ensures
        input_glyph(input_glyph_text(k)) == Option::Some(k),
        input_glyph_text(k).len() == 1,
        activation_glyph(input_glyph_text(k)) is Some ==> k == InputType::Sequence,
{
    lemma_glyphs();
    let c = input_glyph_text(k)[0];
    assert(c != 'ρ' && c != 'σ' && c != 'τ');
    match k {
        InputType::Text => {
            assert(seq!['T'][0] != seq!['S'][0]);
        },
        InputType::Image => {
            assert(seq!['I'][0] != seq!['T'][0]);
            assert(seq!['I'][0] != seq!['S'][0]);
        },
        InputType::Sequence => {
            assert(seq!['S'][0] != seq!['T'][0]);
            assert(seq!['S'][0] != seq!['I'][0]);
        },
        InputType::Latent => {
            assert(seq!['Z'][0] != seq!['T'][0]);
            assert(seq!['Z'][0] != seq!['I'][0]);
            assert(seq!['Z'][0] != seq!['S'][0]);
        },
    }
    if activation_glyph(input_glyph_text(k)) is Some {
        assert(input_glyph_text(k)[0] == seq!['ρ'][0] || input_glyph_text(k)[0] == seq!['σ'][0]
            || input_glyph_text(k)[0] == seq!['τ'][0] || input_glyph_text(k)[0] == seq!['S'][0]);
    }
}

proof fn lemma_activation_word(a: ActivationFunction)
    requires
        a != ActivationFunction::Linear,
    ensures
        activation_toks(a) == seq![
            Tok::Word(activation_text(a).subrange(1, activation_text(a).len() as int)),
        ],
        activation_glyph(activation_text(a).subrange(1, activation_text(a).len() as int))
            == Option::Some(a),
{
    lemma_glyphs();
    let w = activation_text(a).subrange(1, 2);
    assert(w =~= seq![activation_text(a)[1]]);
    match a {
        ActivationFunction::ReLU => {},
        ActivationFunction::Sigmoid => {
            assert(w[0] != seq!['ρ'][0]);
        },
        ActivationFunction::Tanh => {
            assert(w[0] != seq!['ρ'][0]);
            assert(w[0] != seq!['σ'][0]);
        },
        ActivationFunction::Softmax => {
            assert(w[0] != seq!['ρ'][0]);
            assert(w[0] != seq!['σ'][0]);
            assert(w[0] != seq!['τ'][0]);
        },
        ActivationFunction::Linear => {},
    }
}

/// The tokens of a term read back as the term.
pub proof fn lemma_parse_term(t: AstView, toks: Seq<Tok>, i: int, env: Map<Seq<char>, AstView>)
    requires
        term_ok(t),
        holds_at(toks, i, term_toks(t)),
        follows(toks, i + term_toks(t).len(), t),
    ensures
        term_toks(t).len() >= 1,
        p_term(toks, i, env) == Option::Some((t, i + term_toks(t).len())),
    decreases t, 0nat,
{
    let tt = term_toks(t);
    assert(toks[i] == tt[0]);
    match t {
        AstView::Input { input_type, params } => {
            lemma_input_word(input_type);
            lemma_holds_split(toks, i, seq![Tok::Word(input_glyph_text(input_type))], nums(params));
            lemma_nums_len(params);
            lemma_nums_tail(toks, i + 1, params);
        },
        AstView::Layer { layer_type, params, activation } => {
            lemma_layer_word(layer_type);
            let head = seq![Tok::Word(layer_glyph_text(layer_type))] + nums(params);
            lemma_holds_split(toks, i, head, activation_toks(activation));
            lemma_holds_split(toks, i, seq![Tok::Word(layer_glyph_text(layer_type))], nums(params));
            lemma_nums_len(params);
            let j = i + 1 + params.len();
            if activation != ActivationFunction::Linear {
                lemma_activation_word(activation);
                assert(toks[j] == activation_toks(activation)[0]);
            }
            lemma_nums_tail(toks, i + 1, params);
        },
        AstView::Block { content, repetitions } => {
            let c = *content;
            let a = seq![Tok::Symbol('[')];
            let tail = seq![Tok::Symbol(']'), Tok::Symbol('×'), Tok::Number(repetitions)];
            lemma_holds_split(toks, i, a + chain_toks(c), tail);
            lemma_holds_split(toks, i, a, chain_toks(c));
            let e = i + 1 + chain_toks(c).len();
            assert(toks[e] == tail[0]);
            assert(toks[e + 1] == tail[1]);
            assert(toks[e + 2] == tail[2]);
            lemma_parse_chain(c, toks, i + 1, env);
        },
        _ => {},
    }
}

/// The tokens of a chain read back as the chain, which a following arrow would continue.
pub proof fn lemma_parse_chain(t: AstView, toks: Seq<Tok>, i: int, env: Map<Seq<char>, AstView>)
    requires
        chain_ok(t),
        holds_at(toks, i, chain_toks(t)),
        follows(toks, i + chain_toks(t).len(), last_term(t)),
    ensures
        chain_toks(t).len() >= 1,
        p_expr(toks, i, env) == p_chain(toks, i + chain_toks(t).len(), t, env),
    decreases t, 1nat,
{
    match t {
        AstView::DataFlow { from, to } => {
            let f = *from;
            let l = *to;
            let arrow = seq![Tok::Symbol('→')];
            lemma_holds_split(toks, i, chain_toks(f) + arrow, term_toks(l));
            lemma_holds_split(toks, i, chain_toks(f), arrow);
            let m = i + chain_toks(f).len();
            assert(toks[m] == arrow[0]);
            lemma_parse_chain(f, toks, i, env);
            lemma_parse_term(l, toks, m + 1, env);
        },
        _ => {
            lemma_parse_term(t, toks, i, env);
        },
    }
}

/// No token of a chain is a definition or loss symbol.
proof fn lemma_chain_plain(t: AstView)
    requires
        chain_ok(t),
    ensures
        forall|k: int|
            0 <= k < chain_toks(t).len() ==> #[trigger] chain_toks(t)[k] != Tok::Symbol(':')
                && chain_toks(t)[k] != Tok::Symbol('⊳'),
    decreases t, 1nat,
{
    match t {
        AstView::DataFlow { from, to } => {
            lemma_chain_plain(*from);
            lemma_term_plain(*to);
            let a = chain_toks(*from) + seq![Tok::Symbol('→')];
            assert forall|k: int| 0 <= k < chain_toks(t).len() implies #[trigger] chain_toks(t)[k]
                != Tok::Symbol(':') && chain_toks(t)[k] != Tok::Symbol('⊳') by {
                if k < chain_toks(*from).len() {
                    assert(chain_toks(t)[k] == chain_toks(*from)[k]);
                } else if k == chain_toks(*from).len() {
                } else {
                    assert(chain_toks(t)[k] == term_toks(*to)[k - a.len()]);
                }
            }
        },
        _ => {
            lemma_term_plain(t);
        },
    }
}

proof fn lemma_term_plain(t: AstView)
    requires
        term_ok(t),
    ensures
        forall|k: int|
            0 <= k < term_toks(t).len() ==> #[trigger] term_toks(t)[k] != Tok::Symbol(':')
                && term_toks(t)[k] != Tok::Symbol('⊳'),
    decreases t, 0nat,
{
    match t {
        AstView::Layer { layer_type, params, activation } => {
            lemma_nums_len(params);
            let a = seq![Tok::Word(layer_glyph_text(layer_type))];
            assert forall|k: int| 0 <= k < term_toks(t).len() implies #[trigger] term_toks(t)[k]
                != Tok::Symbol(':') && term_toks(t)[k] != Tok::Symbol('⊳') by {
                if k == 0 {
                } else if k < 1 + params.len() {
                    assert(term_toks(t)[k] == nums(params)[k - 1]);
                } else {
                    assert(term_toks(t)[k] == activation_toks(activation)[k - 1 - params.len()]);
                }
            }
        },
        AstView::Input { input_type, params } => {
            lemma_nums_len(params);
            assert forall|k: int| 0 <= k < term_toks(t).len() implies #[trigger] term_toks(t)[k]
                != Tok::Symbol(':') && term_toks(t)[k] != Tok::Symbol('⊳') by {
                if k > 0 {
                    assert(term_toks(t)[k] == nums(params)[k - 1]);
                }
            }
        },
        AstView::Block { content, repetitions } => {
            lemma_chain_plain(*content);
            let c = chain_toks(*content);
            assert forall|k: int| 0 <= k < term_toks(t).len() implies #[trigger] term_toks(t)[k]
                != Tok::Symbol(':') && term_toks(t)[k] != Tok::Symbol('⊳') by {
                if 1 <= k < 1 + c.len() {
                    assert(term_toks(t)[k] == c[k - 1]);
                }
            }
        },
        _ => {},
    }
}

/// The first token of a chain opens a term: a glyph word or a block bracket.
proof fn lemma_first_tok(t: AstView)
    requires
        chain_ok(t),
    ensures
        chain_toks(t).len() >= 1,
        !(chain_toks(t)[0] is Number),
        chain_toks(t)[0] != Tok::Symbol('→'),
        chain_toks(t)[0] != Tok::Symbol('⊳'),
        chain_toks(t)[0] is Symbol ==> chain_toks(t)[0] == Tok::Symbol('['),
        chain_toks(t)[0] is Word && activation_glyph(chain_toks(t)[0]->Word_0) is Some
            ==> starts_with_sequence(t),
    decreases t,
{
    match t {
        AstView::DataFlow { from, to } => {
            assert(chain_ok(*from));
            lemma_first_tok(*from);
            assert(chain_toks(*from).len() >= 1);
            assert(chain_toks(t) == chain_toks(*from) + seq![Tok::Symbol('→')] + term_toks(*to));
            assert(chain_toks(t).len() >= 1);
            assert(chain_toks(t)[0] == chain_toks(*from)[0]);
            assert(first_term(t) == first_term(*from));
        },
        AstView::Layer { layer_type, .. } => {
            assert(term_ok(t));
            assert(chain_toks(t) == term_toks(t));
            lemma_layer_word(layer_type);
        },
        AstView::Input { input_type, .. } => {
            assert(chain_toks(t) == term_toks(t));
            lemma_input_word(input_type);
        },
        AstView::Block { content, repetitions } => {
            let tt = seq![Tok::Symbol('[')] + chain_toks(*content) + seq![
                Tok::Symbol(']'),
                Tok::Symbol('×'),
                Tok::Number(repetitions),
            ];
            assert(chain_toks(t) == term_toks(t));
            assert(term_toks(t) == tt);
            assert(tt[0] == Tok::Symbol('['));
        },
        _ => {
            assert(term_ok(t));
        },
    }
}

proof fn lemma_body_ok_tail(body: Seq<AstView>)
    requires
        body_ok(body),
        body.len() >= 1,
    ensures
        body_ok(body.subrange(1, body.len() as int)),
{
    let rest = body.subrange(1, body.len() as int);
    assert forall|k: int| 0 <= k < rest.len() implies chain_ok(#[trigger] rest[k]) by {
        assert(rest[k] == body[k + 1]);
    }
    assert forall|k: int| 0 <= k < rest.len() - 1 implies !(ends_bare_layer(#[trigger] rest[k])
        && starts_with_sequence(rest[k + 1])) by {
        assert(rest[k] == body[k + 1]);
        assert(rest[k + 1] == body[k + 2]);
    }
}

/// The tokens of a body read back as its items.
#[verifier::rlimit(40)]
pub proof fn lemma_parse_items(body: Seq<AstView>, toks: Seq<Tok>, i: int, env: Map<Seq<char>, AstView>)
    requires
        body_ok(body),
        0 <= i <= toks.len(),
        toks.subrange(i, toks.len() as int) == body_toks(body),
    ensures
        p_items(toks, i, env) == Option::Some(body),
    decreases body.len(),
{
    if body.len() == 0 {
        assert(body_toks(body) == Seq::<Tok>::empty());
        assert(toks.subrange(i, toks.len() as int).len() == 0);
        assert(i == toks.len());
        assert(p_items(toks, i, env) == Option::Some(Seq::<AstView>::empty()));
        assert(body =~= Seq::<AstView>::empty());
    } else {
        let item = body[0];
        let rest = body.subrange(1, body.len() as int);
        let ct = chain_toks(item);
        assert(chain_ok(item));
        lemma_first_tok(item);
        lemma_chain_plain(item);
        assert(body_toks(body) == ct + body_toks(rest));
        assert(toks.len() - i == ct.len() + body_toks(rest).len());
        lemma_holds_split(toks, i, ct, body_toks(rest));
        let e = i + ct.len();
        assert(toks[i] == ct[0]);
        if i + 1 < toks.len() {
            if 1 < ct.len() {
                assert(toks[i + 1] == ct[1]);
            } else {
                lemma_first_tok(rest[0]);
                assert(toks[i + 1] == body_toks(rest)[0]);
                assert(chain_ok(rest[0]) && body_toks(rest)[0] == chain_toks(rest[0])[0]);
            }
        }
        if e < toks.len() {
            assert(rest.len() >= 1);
            assert(chain_ok(rest[0]));
            lemma_first_tok(rest[0]);
            assert(toks[e] == body_toks(rest)[0]);
            assert(body_toks(rest)[0] == chain_toks(rest[0])[0]);
            assert(rest[0] == body[1]);
        } else {
            assert(rest.len() == 0) by {
                if rest.len() > 0 {
                    lemma_first_tok(rest[0]);
                }
            }
        }
        assert(follows(toks, e, last_term(item)));
        lemma_parse_chain(item, toks, i, env);
        assert(!sym_at(toks, e, '→'));
        assert(p_chain(toks, e, item, env) == Option::Some((item, e)));
        assert(p_expr(toks, i, env) == Option::Some((item, e)));
        assert(!(toks[i] is Word && sym_at(toks, i + 1, ':')));
        assert(!sym_at(toks, e, '⊳'));
        assert(i < e <= toks.len());
        assert(p_items(toks, i, env) == cons_node(item, p_items(toks, e, env)));
        lemma_body_ok_tail(body);
        assert(toks.subrange(e, toks.len() as int) == body_toks(rest));
        lemma_parse_items(rest, toks, e, env);
        assert(seq![item] + rest =~= body);
    }
}

/// The tokens of a network read back as the network.
proof fn lemma_ids_len(ids: Seq<Seq<char>>)
    requires
        ids.len() >= 1,
    ensures
        ids_toks(ids).len() == 2 * ids.len() - 1,
    decreases ids.len(),
{
    if ids.len() > 1 {
        lemma_ids_len(ids.subrange(1, ids.len() as int));
    }
}

/// The tokens of an id list read back as the list.
proof fn lemma_parse_ids(ids: Seq<Seq<char>>, toks: Seq<Tok>, i: int)
    requires
        ids.len() >= 1,
        holds_at(toks, i, ids_toks(ids)),
        !sym_at(toks, i + ids_toks(ids).len(), '⊕'),
    ensures
        p_ids(toks, i) == Option::Some((ids, i + ids_toks(ids).len())),
    decreases ids.len(),
{
    lemma_ids_len(ids);
    let it = ids_toks(ids);
    assert(toks[i] == it[0]);
    if ids.len() == 1 {
        assert(seq![ids[0]] =~= ids);
    } else {
        let rest = ids.subrange(1, ids.len() as int);
        let head = seq![Tok::Word(ids[0]), Tok::Symbol('⊕')];
        lemma_holds_split(toks, i, head, ids_toks(rest));
        assert(toks[i + 1] == head[1]);
        lemma_parse_ids(rest, toks, i + 2);
        assert(seq![ids[0]] + rest =~= ids);
    }
}

/// The tokens of a network read back as the network.
pub proof fn lemma_parse_network(t: AstView)
    requires
        network_ok(t),
    ensures
        p_network(network_toks(t)) == Option::Some(t),
{
    if let AstView::Network { components, body } = t {
        let toks = network_toks(t);
        let lt = list_toks(components);
        let start: int = 1 + lt.len() as int;
        assert(toks.subrange(start, toks.len() as int) =~= body_toks(body));
        if body.len() > 0 {
            assert(chain_ok(body[0]));
            lemma_first_tok(body[0]);
            assert(toks[start] == body_toks(body)[0]);
        }
        lemma_parse_items(body, toks, start, Map::empty());
        if let Option::Some(ids) = components {
            lemma_ids_len(ids);
            let open = seq![Tok::Symbol('⟨')];
            assert(toks[1] == Tok::Symbol('⟨'));
            assert(toks =~= seq![Tok::Word(seq!['N'])] + open + ids_toks(ids) + (seq![
                Tok::Symbol('⟩'),
            ] + body_toks(body)));
            assert(toks.subrange(0, toks.len() as int) =~= toks);
            lemma_holds_split(
                toks,
                0,
                seq![Tok::Word(seq!['N'])] + open + ids_toks(ids),
                seq![Tok::Symbol('⟩')] + body_toks(body),
            );
            lemma_holds_split(toks, 0, seq![Tok::Word(seq!['N'])] + open, ids_toks(ids));
            let j: int = 2 + ids_toks(ids).len() as int;
            assert(toks[j] == Tok::Symbol('⟩'));
            lemma_parse_ids(ids, toks, 2);
            assert(is_open_list('⟨') && is_close_list('⟩'));
        } else {
            assert(lt =~= Seq::<Tok>::empty());
        }
    }
}

} // verus!

use vstd::prelude::*;
use crate::ast::{ActivationFunction, AstView, LayerType};
use crate::grammar::{
    all_digits, digits_value, is_digit, is_space, is_subscript, is_symbol, is_word_char, lex,
    lex_from, run_value, spec_parse, word_end, Tok,
};
use crate::render::{
    activation_text, components_decl_text, ids_text, index_text, input_glyph_text,
    layer_glyph_text, params_text, render, render_lines, subscript_dec, subscript_digit_text,
};
use crate::roundtrip::{
    activation_toks, body_toks, chain_ok, chain_toks, id_ok, ids_toks, lemma_parse_network,
    list_ok, list_toks, network_ok, nums, term_ok, term_toks,
};
use crate::text::{dec, digit_text};

verus! {

/// `s` lexes to exactly `ts`.
pub open spec fn lexes(s: Seq<char>, ts: Seq<Tok>) -> bool {
    lex_from(s, 0) == Option::Some(ts)
}

/// Where two texts meet, at least one side is not part of a word.
pub open spec fn boundary_ok(a: Seq<char>, b: Seq<char>) -> bool {
    a.len() == 0 || b.len() == 0 || !is_word_char(a[a.len() - 1]) || !is_word_char(b[0])
}

pub open spec fn concat_opt(x: Option<Seq<Tok>>, y: Option<Seq<Tok>>) -> Option<Seq<Tok>> {
    match (x, y) {
        (Option::Some(p), Option::Some(q)) => Option::Some(p + q),
        _ => Option::None,
    }
}

proof fn lemma_word_end_shift(p: Seq<char>, b: Seq<char>, k: int)
    requires
        0 <= k <= b.len(),
    ensures
        word_end(p + b, p.len() + k) == p.len() + word_end(b, k),
    decreases b.len() - k,
{
    if k < b.len() {
        assert((p + b)[p.len() + k] == b[k]);
        lemma_word_end_shift(p, b, k + 1);
    }
}

proof fn lemma_word_end_bounds(s: Seq<char>, i: int)
    requires
        0 <= i <= s.len(),
    ensures
        i <= word_end(s, i) <= s.len(),
        forall|m: int| i <= m < word_end(s, i) ==> is_word_char(#[trigger] s[m]),
        word_end(s, i) < s.len() ==> !is_word_char(s[word_end(s, i)]),
    decreases s.len() - i,
{
    if i < s.len() && is_word_char(s[i]) {
        lemma_word_end_bounds(s, i + 1);
    }
}

/// Lexing the tail `b` of `p + b` does not depend on `p`.
proof fn lemma_lex_shift(p: Seq<char>, b: Seq<char>, k: int)
    requires
        0 <= k <= b.len(),
    ensures
        lex_from(p + b, p.len() + k) == lex_from(b, k),
    decreases b.len() - k,
{
    let s = p + b;
    let i = p.len() + k;
    if k < b.len() {
        assert(s[i] == b[k]);
        if is_space(b[k]) || is_symbol(b[k]) {
            lemma_lex_shift(p, b, k + 1);
        } else {
            lemma_word_end_shift(p, b, k);
            lemma_word_end_bounds(b, k);
            let j = word_end(b, k);
            assert(s.subrange(i, p.len() + j) =~= b.subrange(k, j));
            if j > k {
                lemma_lex_shift(p, b, j);
            }
        }
    }
}

proof fn lemma_word_end_concat(a: Seq<char>, b: Seq<char>, i: int)
    requires
        0 <= i < a.len(),
        boundary_ok(a, b),
    ensures
        word_end(a + b, i) == word_end(a, i),
    decreases a.len() - i,
{
    let s = a + b;
    assert(s[i] == a[i]);
    if is_word_char(a[i]) {
        if i + 1 < a.len() {
            lemma_word_end_concat(a, b, i + 1);
        } else {
            if b.len() > 0 {
                assert(s[a.len() as int] == b[0]);
            }
            assert(word_end(s, i + 1) == i + 1);
            assert(word_end(a, i + 1) == i + 1);
        }
    }
}

/// Two texts that meet at a word boundary lex to the tokens of each in turn.
proof fn lemma_lex_concat_from(a: Seq<char>, b: Seq<char>, i: int)
    requires
        0 <= i <= a.len(),
        boundary_ok(a, b),
    ensures
        lex_from(a + b, i) == concat_opt(lex_from(a, i), lex_from(b, 0)),
    decreases a.len() - i,
{
    let s = a + b;
    if i == a.len() {
        lemma_lex_shift(a, b, 0);
        if let Option::Some(q) = lex_from(b, 0) {
            assert(Seq::<Tok>::empty() + q =~= q);
        }
    } else {
        assert(s[i] == a[i]);
        if is_space(a[i]) {
            lemma_lex_concat_from(a, b, i + 1);
        } else if is_symbol(a[i]) {
            lemma_lex_concat_from(a, b, i + 1);
            if lex_from(a, i + 1) is Some && lex_from(b, 0) is Some {
                assert(seq![Tok::Symbol(a[i])] + (lex_from(a, i + 1)->0 + lex_from(b, 0)->0) =~= (
                seq![Tok::Symbol(a[i])] + lex_from(a, i + 1)->0) + lex_from(b, 0)->0);
            }
        } else {
            lemma_word_end_concat(a, b, i);
            lemma_word_end_bounds(a, i);
            let j = word_end(a, i);
            assert(s.subrange(i, j) =~= a.subrange(i, j));
            lemma_lex_concat_from(a, b, j);
            let w = a.subrange(i, j);
            if lex_from(a, j) is Some && lex_from(b, 0) is Some {
                if all_digits(w) {
                    assert(seq![Tok::Number(digits_value(w) as usize)] + (lex_from(a, j)->0 + lex_from(
                        b,
                        0,
                    )->0) =~= (seq![Tok::Number(digits_value(w) as usize)] + lex_from(a, j)->0)
                        + lex_from(b, 0)->0);
                } else {
                    assert(seq![Tok::Word(w)] + (lex_from(a, j)->0 + lex_from(b, 0)->0) =~= (seq![
                        Tok::Word(w),
                    ] + lex_from(a, j)->0) + lex_from(b, 0)->0);
                }
            }
        }
    }
}

pub proof fn lemma_lex_concat(a: Seq<char>, ta: Seq<Tok>, b: Seq<char>, tb: Seq<Tok>)
    requires
        lexes(a, ta),
        lexes(b, tb),
        boundary_ok(a, b),
    ensures
        lexes(a + b, ta + tb),
{
    lemma_lex_concat_from(a, b, 0);
}

/// A run of word characters that is not a number lexes to one word.
proof fn lemma_lex_word(w: Seq<char>)
    requires
        w.len() >= 1,
        forall|k: int| 0 <= k < w.len() ==> is_word_char(#[trigger] w[k]),
        !is_digit(w[0]),
    ensures
        lexes(w, seq![Tok::Word(w)]),
{
    reveal_with_fuel(lex_from, 2);
    lemma_word_end_bounds(w, 0);
    assert(word_end(w, 0) == w.len()) by {
        if word_end(w, 0) < w.len() {
            assert(is_word_char(w[word_end(w, 0)]));
        }
    }
    assert(w.subrange(0, w.len() as int) =~= w);
    assert(!all_digits(w));
    assert(seq![Tok::Word(w)] + Seq::<Tok>::empty() =~= seq![Tok::Word(w)]);
}

proof fn lemma_digit(d: nat)
    requires
        d < 10,
    ensures
        digit_text(d).len() == 1,
        digit_text(d)[0] as int == ('0' as int) + d,
{
    reveal_strlit("0");
    reveal_strlit("1");
    reveal_strlit("2");
    reveal_strlit("3");
    reveal_strlit("4");
    reveal_strlit("5");
    reveal_strlit("6");
    reveal_strlit("7");
    reveal_strlit("8");
    reveal_strlit("9");
}

proof fn lemma_dec_digits(n: nat)
    ensures
        dec(n).len() >= 1,
        forall|k: int| 0 <= k < dec(n).len() ==> is_digit(#[trigger] dec(n)[k]),
        run_value(dec(n), '0') == n,
    decreases n,
{
    lemma_digit(n % 10);
    let s = dec(n);
    if n < 10 {
        assert(s.subrange(0, 0) =~= Seq::<char>::empty());
        assert(run_value(s.subrange(0, 0), '0') == 0);
    } else {
        lemma_dec_digits(n / 10);
        assert(s.subrange(0, s.len() - 1) =~= dec(n / 10));
        assert(s[s.len() - 1] == digit_text(n % 10)[0]);
        assert forall|k: int| 0 <= k < s.len() implies is_digit(#[trigger] s[k]) by {
            if k < s.len() - 1 {
                assert(s[k] == dec(n / 10)[k]);
            }
        }
    }
}

/// The decimal rendering of a number lexes to that number.
proof fn lemma_lex_number(n: usize)
    ensures
        lexes(dec(n as nat), seq![Tok::Number(n)]),
{
    reveal_with_fuel(lex_from, 2);
    let w = dec(n as nat);
    lemma_dec_digits(n as nat);
    lemma_word_end_bounds(w, 0);
    assert(word_end(w, 0) == w.len()) by {
        if word_end(w, 0) < w.len() {
            assert(is_word_char(w[word_end(w, 0)]));
        }
    }
    assert(w.subrange(0, w.len() as int) =~= w);
    assert(all_digits(w));
    assert(seq![Tok::Number(n)] + Seq::<Tok>::empty() =~= seq![Tok::Number(n)]);
}

proof fn lemma_lex_empty()
    ensures
        lexes(Seq::<char>::empty(), Seq::<Tok>::empty()),
{
}

proof fn lemma_lex_params(ps: Seq<usize>)
    ensures
        lexes(params_text(ps), nums(ps)),
        params_text(ps).len() > 0 ==> params_text(ps)[0] == ' ',
    decreases ps.len(),
{
    reveal_strlit(" ");
    reveal_with_fuel(lex_from, 2);
    assert(lexes(" "@, Seq::<Tok>::empty()));
    if ps.len() > 0 {
        let init = ps.subrange(0, ps.len() - 1);
        lemma_lex_params(init);
        let last = ps[ps.len() - 1];
        lemma_lex_number(last);
        lemma_lex_concat(" "@, Seq::empty(), dec(last as nat), seq![Tok::Number(last)]);
        assert(Seq::<Tok>::empty() + seq![Tok::Number(last)] =~= seq![Tok::Number(last)]);
        lemma_lex_concat(params_text(init), nums(init), " "@ + dec(last as nat), seq![Tok::Number(last)]);
        assert(params_text(init) + " "@ + dec(last as nat) =~= params_text(init) + (" "@ + dec(
            last as nat,
        )));
        assert(nums(init) + seq![Tok::Number(last)] =~= nums(ps));
        if init.len() > 0 {
            assert(params_text(ps)[0] == params_text(init)[0]);
        } else {
            assert(params_text(init) =~= Seq::<char>::empty());
            assert(params_text(ps)[0] == (" "@ + dec(last as nat))[0]);
        }
    }
}

proof fn lemma_subscripts(n: nat)
    ensures
        subscript_dec(n).len() >= 1,
        forall|k: int| 0 <= k < subscript_dec(n).len() ==> is_subscript(#[trigger] subscript_dec(n)[k]),
    decreases n,
{
    reveal_strlit("₀");
    reveal_strlit("₁");
    reveal_strlit("₂");
    reveal_strlit("₃");
    reveal_strlit("₄");
    reveal_strlit("₅");
    reveal_strlit("₆");
    reveal_strlit("₇");
    reveal_strlit("₈");
    reveal_strlit("₉");
    let s = subscript_dec(n);
    if n >= 10 {
        lemma_subscripts(n / 10);
        assert forall|k: int| 0 <= k < s.len() implies is_subscript(#[trigger] s[k]) by {
            if k < s.len() - 1 {
                assert(s[k] == subscript_dec(n / 10)[k]);
            } else {
                assert(s[k] == subscript_digit_text(n % 10)[0]);
            }
        }
    }
}

proof fn lemma_lex_layer_glyph(l: LayerType)
    ensures
        lexes(layer_glyph_text(l), seq![Tok::Word(layer_glyph_text(l))]),
{
    let w = layer_glyph_text(l);
    reveal_strlit("C");
    reveal_strlit("D");
    reveal_strlit("P");
    reveal_strlit("F");
    reveal_strlit("U");
    reveal_strlit("L");
    reveal_strlit("H");
    reveal_strlit("R");
    reveal_strlit("E");
    reveal_strlit("B");
    reveal_strlit("T");
    reveal_strlit("A");
    match l {
        LayerType::Convolutional(i) | LayerType::Dense(i) => {
            if i > 0 {
                lemma_subscripts(i as nat);
            }
            assert forall|k: int| 0 <= k < w.len() implies is_word_char(#[trigger] w[k]) by {
                if k > 0 {
                    assert(w[k] == index_text(i)[k - 1]);
                }
            }
        },
        _ => {},
    }
    lemma_lex_word(w);
}

proof fn lemma_lex_layer(layer_type: LayerType, params: Seq<usize>, activation: ActivationFunction)
    ensures
        lexes(
            layer_glyph_text(layer_type) + params_text(params) + activation_text(activation),
            seq![Tok::Word(layer_glyph_text(layer_type))] + nums(params) + activation_toks(activation),
        ),
{
    lemma_lex_layer_glyph(layer_type);
    lemma_lex_params(params);
    let g = layer_glyph_text(layer_type);
    lemma_lex_concat(g, seq![Tok::Word(g)], params_text(params), nums(params));
    let a = activation_text(activation);
    reveal_strlit(" ρ");
    reveal_strlit(" σ");
    reveal_strlit(" τ");
    reveal_strlit(" S");
    if activation != ActivationFunction::Linear {
        let aw = a.subrange(1, 2);
        assert(a =~= " "@ + aw) by {
            reveal_strlit(" ");
        }
        lemma_lex_word(aw);
        reveal_strlit(" ");
        reveal_with_fuel(lex_from, 2);
        assert(lexes(" "@, Seq::<Tok>::empty()));
        lemma_lex_concat(" "@, Seq::empty(), aw, seq![Tok::Word(aw)]);
        assert(Seq::<Tok>::empty() + seq![Tok::Word(aw)] =~= activation_toks(activation));
    } else {
        lemma_lex_empty();
    }
    lemma_lex_concat(
        g + params_text(params),
        seq![Tok::Word(g)] + nums(params),
        a,
        activation_toks(activation),
    );
}

/// The canonical text of a term lexes to its tokens.
#[verifier::rlimit(60)]
pub proof fn lemma_lex_term(t: AstView)
    requires
        term_ok(t),
    ensures
        lexes(render(t), term_toks(t)),
    decreases t, 0nat,
{
    match t {
        AstView::Layer { layer_type, params, activation } => {
            lemma_lex_layer(layer_type, params, activation);
        },
        AstView::Input { input_type, params } => {
            let g = input_glyph_text(input_type);
            reveal_strlit("T");
            reveal_strlit("I");
            reveal_strlit("S");
            reveal_strlit("Z");
            lemma_lex_word(g);
            lemma_lex_params(params);
            lemma_lex_concat(g, seq![Tok::Word(g)], params_text(params), nums(params));
        },
        AstView::Block { content, repetitions } => {
            let c = *content;
            lemma_lex_chain(c);
            reveal_strlit("[");
            reveal_strlit("]×");
            assert(lexes("["@, seq![Tok::Symbol('[')])) by {
                reveal_with_fuel(lex_from, 2);
                assert(seq![Tok::Symbol('[')] + Seq::<Tok>::empty() =~= seq![Tok::Symbol('[')]);
            }
            assert(lexes("]×"@, seq![Tok::Symbol(']'), Tok::Symbol('×')])) by {
                let s = "]×"@;
                reveal_with_fuel(lex_from, 3);
                assert(lex_from(s, 2) == Option::Some(Seq::<Tok>::empty()));
                assert(lex_from(s, 1) == Option::Some(seq![Tok::Symbol('×')] + Seq::<Tok>::empty()));
                assert(seq![Tok::Symbol('×')] + Seq::<Tok>::empty() =~= seq![Tok::Symbol('×')]);
                assert(seq![Tok::Symbol(']')] + seq![Tok::Symbol('×')] =~= seq![
                    Tok::Symbol(']'),
                    Tok::Symbol('×'),
                ]);
            }
            lemma_lex_number(repetitions);
            let open = seq![Tok::Symbol('[')];
            lemma_lex_concat("["@, open, render(c), chain_toks(c));
            lemma_lex_concat(
                "["@ + render(c),
                open + chain_toks(c),
                "]×"@,
                seq![Tok::Symbol(']'), Tok::Symbol('×')],
            );
            lemma_lex_concat(
                "["@ + render(c) + "]×"@,
                open + chain_toks(c) + seq![Tok::Symbol(']'), Tok::Symbol('×')],
                dec(repetitions as nat),
                seq![Tok::Number(repetitions)],
            );
            assert(open + chain_toks(c) + seq![Tok::Symbol(']'), Tok::Symbol('×')] + seq![
                Tok::Number(repetitions),
            ] =~= term_toks(t));
        },
        _ => {},
    }
}

/// The canonical text of a chain lexes to its tokens.
pub proof fn lemma_lex_chain(t: AstView)
    requires
        chain_ok(t),
    ensures
        lexes(render(t), chain_toks(t)),
    decreases t, 1nat,
{
    match t {
        AstView::DataFlow { from, to } => {
            let f = *from;
            let l = *to;
            lemma_lex_chain(f);
            lemma_lex_term(l);
            reveal_strlit(" → ");
            let arrow = seq![Tok::Symbol('→')];
            assert(lexes(" → "@, arrow)) by {
                reveal_with_fuel(lex_from, 4);
                assert(lex_from(" → "@, 2) == Option::Some(Seq::<Tok>::empty()));
                assert(arrow + Seq::<Tok>::empty() =~= arrow);
            }
            lemma_lex_concat(render(f), chain_toks(f), " → "@, arrow);
            lemma_lex_concat(render(f) + " → "@, chain_toks(f) + arrow, render(l), term_toks(l));
            assert(chain_toks(t) == chain_toks(f) + arrow + term_toks(l));
        },
        _ => {
            assert(term_ok(t));
            lemma_lex_term(t);
            assert(chain_toks(t) == term_toks(t));
        },
    }
}

proof fn lemma_body_toks_snoc(body: Seq<AstView>)
    requires
        body.len() >= 1,
    ensures
        body_toks(body) == body_toks(body.subrange(0, body.len() - 1)) + chain_toks(body[body.len() - 1]),
    decreases body.len(),
{
    let rest = body.subrange(1, body.len() as int);
    if body.len() == 1 {
        assert(rest =~= Seq::<AstView>::empty());
        assert(body.subrange(0, 0) =~= Seq::<AstView>::empty());
        assert(chain_toks(body[0]) + Seq::<Tok>::empty() =~= chain_toks(body[0]));
        assert(Seq::<Tok>::empty() + chain_toks(body[0]) =~= chain_toks(body[0]));
    } else {
        lemma_body_toks_snoc(rest);
        let init = body.subrange(0, body.len() - 1);
        assert(init[0] == body[0]);
        assert(init.subrange(1, init.len() as int) =~= rest.subrange(0, rest.len() - 1));
        assert(rest[rest.len() - 1] == body[body.len() - 1]);
        assert(body_toks(init) == chain_toks(init[0]) + body_toks(init.subrange(1, init.len() as int)));
        assert(body_toks(body) =~= body_toks(init) + chain_toks(body[body.len() - 1]));
    }
}

proof fn lemma_lex_lines(body: Seq<AstView>)
    requires
        forall|k: int| 0 <= k < body.len() ==> chain_ok(#[trigger] body[k]),
    ensures
        lexes(render_lines(body), body_toks(body)),
        render_lines(body).len() > 0 ==> render_lines(body)[0] == '\n',
    decreases body.len(),
{
    if body.len() == 0 {
        lemma_lex_empty();
    } else {
        let init = body.subrange(0, body.len() - 1);
        let last = body[body.len() - 1];
        assert forall|k: int| 0 <= k < init.len() implies chain_ok(#[trigger] init[k]) by {
            assert(init[k] == body[k]);
        }
        lemma_lex_lines(init);
        assert(chain_ok(last));
        lemma_lex_chain(last);
        reveal_strlit("\n");
        assert(lexes("\n"@, Seq::<Tok>::empty())) by {
            reveal_with_fuel(lex_from, 2);
        }
        lemma_lex_concat(render_lines(init), body_toks(init), "\n"@, Seq::empty());
        assert(body_toks(init) + Seq::<Tok>::empty() =~= body_toks(init));
        lemma_lex_concat(render_lines(init) + "\n"@, body_toks(init), render(last), chain_toks(last));
        lemma_body_toks_snoc(body);
        let r = render_lines(body);
        if render_lines(init).len() > 0 {
            assert(r[0] == render_lines(init)[0]);
        } else {
            assert(r[0] == "\n"@[0]);
        }
    }
}

proof fn lemma_ids_toks_snoc(ids: Seq<Seq<char>>)
    requires
        ids.len() >= 2,
    ensures
        ids_toks(ids) == ids_toks(ids.subrange(0, ids.len() - 1)) + seq![
            Tok::Symbol('⊕'),
            Tok::Word(ids[ids.len() - 1]),
        ],
    decreases ids.len(),
{
    let init = ids.subrange(0, ids.len() - 1);
    let rest = ids.subrange(1, ids.len() as int);
    let tail = seq![Tok::Symbol('⊕'), Tok::Word(ids[ids.len() - 1])];
    if ids.len() == 2 {
        assert(ids_toks(rest) == seq![Tok::Word(rest[0])]);
        assert(ids_toks(init) == seq![Tok::Word(init[0])]);
        assert(ids_toks(ids) =~= ids_toks(init) + tail);
    } else {
        lemma_ids_toks_snoc(rest);
        assert(rest.subrange(0, rest.len() - 1) =~= init.subrange(1, init.len() as int));
        assert(init[0] == ids[0]);
        assert(ids_toks(init) == seq![Tok::Word(ids[0]), Tok::Symbol('⊕')] + ids_toks(
            init.subrange(1, init.len() as int),
        ));
        assert(ids_toks(ids) =~= ids_toks(init) + tail);
    }
}

proof fn lemma_lex_ids(ids: Seq<Seq<char>>)
    requires
        ids.len() >= 1,
        forall|k: int| 0 <= k < ids.len() ==> id_ok(#[trigger] ids[k]),
    ensures
        lexes(ids_text(ids), ids_toks(ids)),
    decreases ids.len(),
{
    let last = ids[ids.len() - 1];
    assert(id_ok(last));
    lemma_lex_word(last);
    if ids.len() == 1 {
        assert(ids_toks(ids) == seq![Tok::Word(ids[0])]);
    } else {
        let init = ids.subrange(0, ids.len() - 1);
        assert forall|k: int| 0 <= k < init.len() implies id_ok(#[trigger] init[k]) by {
            assert(init[k] == ids[k]);
        }
        lemma_lex_ids(init);
        lemma_ids_toks_snoc(ids);
        reveal_strlit("⊕");
        let plus = seq![Tok::Symbol('⊕')];
        assert(lexes("⊕"@, plus)) by {
            reveal_with_fuel(lex_from, 2);
            assert(plus + Seq::<Tok>::empty() =~= plus);
        }
        lemma_lex_concat(ids_text(init), ids_toks(init), "⊕"@, plus);
        lemma_lex_concat(ids_text(init) + "⊕"@, ids_toks(init) + plus, last, seq![Tok::Word(last)]);
        assert(ids_toks(init) + plus + seq![Tok::Word(last)] =~= ids_toks(ids));
    }
}

proof fn lemma_lex_list(c: Option<Seq<Seq<char>>>)
    requires
        list_ok(c),
    ensures
        lexes(components_decl_text(c), list_toks(c)),
        components_decl_text(c).len() > 0 ==> components_decl_text(c)[0] == '⟨'
            && components_decl_text(c)[components_decl_text(c).len() - 1] == '⟩',
{
    match c {
        Option::Some(ids) => {
            lemma_lex_ids(ids);
            reveal_strlit("⟨");
            reveal_strlit("⟩");
            let open = seq![Tok::Symbol('⟨')];
            let close = seq![Tok::Symbol('⟩')];
            assert(lexes("⟨"@, open)) by {
                reveal_with_fuel(lex_from, 2);
                assert(open + Seq::<Tok>::empty() =~= open);
            }
            assert(lexes("⟩"@, close)) by {
                reveal_with_fuel(lex_from, 2);
                assert(close + Seq::<Tok>::empty() =~= close);
            }
            lemma_lex_concat("⟨"@, open, ids_text(ids), ids_toks(ids));
            lemma_lex_concat("⟨"@ + ids_text(ids), open + ids_toks(ids), "⟩"@, close);
        },
        Option::None => {
            lemma_lex_empty();
        },
    }
}

/// Reading back the canonical text of a network yields the same tree: for
/// every network of layer, input and block chains, with no declared
/// component list or a non-empty one of word ids, in which no chain ending
/// in a layer without activation is followed by one starting with a
/// sequence input.
pub proof fn law_round_trip(t: AstView)
    requires
        network_ok(t),
    ensures
        spec_parse(render(t)) == Option::Some(t),
{
    if let AstView::Network { components, body } = t {
        lemma_lex_lines(body);
        lemma_lex_list(components);
        reveal_strlit("N");
        let n = seq![Tok::Word(seq!['N'])];
        assert("N"@ =~= seq!['N']);
        assert(lexes("N"@, n)) by {
            lemma_lex_word("N"@);
        }
        let decl = components_decl_text(components);
        lemma_lex_concat("N"@, n, decl, list_toks(components));
        lemma_lex_concat("N"@ + decl, n + list_toks(components), render_lines(body), body_toks(body));
        assert(render(t) =~= "N"@ + decl + render_lines(body));
        lemma_parse_network(t);
    }
}

} // verus!

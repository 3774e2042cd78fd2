use vstd::prelude::*;
use vstd::string::*;
use crate::grammar::{
    all_digits, is_digit, is_space, is_symbol, is_word_char, lex, lex_from, prepend, run_value,
    word_end, Tok,
};

verus! {

/// A token with the character offset where it starts.
#[derive(Debug)]
pub struct Token {
    pub kind: TokenKind,
    pub start: usize,
}

#[derive(Debug)]
pub enum TokenKind {
    Word(String),
    Number(usize),
    Symbol(char),
}

pub open spec fn tok_view(t: Token) -> Tok {
    match t.kind {
        TokenKind::Word(w) => Tok::Word(w@),
        TokenKind::Number(n) => Tok::Number(n),
        TokenKind::Symbol(c) => Tok::Symbol(c),
    }
}

pub open spec fn toks_view(s: Seq<Token>) -> Seq<Tok> {
    s.map_values(|t: Token| tok_view(t))
}

/// A syntax error: the character offset where it was found and what was expected there.
#[derive(Debug)]
pub struct ParseError {
    pub position: usize,
    pub expected: String,
}

pub fn parse_error(position: usize, expected: &str) -> (r: ParseError)
    ensures
        r.position == position,
        r.expected@ == expected@,
{
    ParseError { position, expected: String::from_str(expected) }
}

pub open spec fn prepend_all(a: Seq<Tok>, r: Option<Seq<Tok>>) -> Option<Seq<Tok>> {
    match r {
        Option::Some(x) => Option::Some(a + x),
        Option::None => Option::None,
    }
}

proof fn lemma_prepend_all(a: Seq<Tok>, t: Tok, x: Option<Seq<Tok>>)
    ensures
        prepend_all(a.push(t), x) == prepend_all(a, prepend(t, x)),
{
    if let Option::Some(r) = x {
        assert(a.push(t) + r =~= a + (seq![t] + r));
    }
}

/// A longer run of digits has a value at least as large.
proof fn lemma_run_value_mono(w: Seq<char>, zero: char, k: int)
    requires
        0 <= k <= w.len(),
        forall|m: int| 0 <= m < w.len() ==> (#[trigger] w[m] as int) >= (zero as int),
    ensures
        run_value(w.subrange(0, k), zero) <= run_value(w, zero),
    decreases w.len(),
{
    if k == w.len() {
        assert(w.subrange(0, k) == w);
    } else {
        let init = w.subrange(0, w.len() - 1);
        assert(init.subrange(0, k) == w.subrange(0, k));
        lemma_run_value_mono(init, zero, k);
    }
}

/// The characters of `s`, one by one.
pub fn chars_of(s: &str) -> (r: Vec<char>)
    ensures
        r@ == s@,
{
    let n = s.unicode_len();
    let mut r: Vec<char> = Vec::new();
    let mut i: usize = 0;
    while i < n
        invariant
            n == s@.len(),
            i <= n,
            r@ == s@.subrange(0, i as int),
        decreases n - i,
    {
        r.push(s.get_char(i));
        assert(r@ =~= s@.subrange(0, i + 1));
        i = i + 1;
    }
    assert(r@ =~= s@);
    r
}

pub fn is_space_char(c: char) -> (r: bool)
    ensures
        r == is_space(c),
{
    c == ' ' || c == '\t' || c == '\n' || c == '\r'
}

pub fn is_symbol_char(c: char) -> (r: bool)
    ensures
        r == is_symbol(c),
{
    c == '→' || c == ':' || c == '⊳' || c == '⟿' || c == '[' || c == ']' || c == '×' || c == '⟨'
        || c == '⟩' || c == '〈' || c == '〉' || c == '⊕'
}

/// The value of the digits `w[from..to]` counted from `zero`, if it fits a `usize`.
pub fn run_value_of(w: &Vec<char>, from: usize, to: usize, zero: char) -> (r: Option<usize>)
    requires
        from <= to <= w@.len(),
        forall|m: int| from <= m < to ==> (zero as int) <= (#[trigger] w@[m] as int) <= (zero as int) + 9,
    ensures
        r is Some <==> run_value(w@.subrange(from as int, to as int), zero) <= usize::MAX,
        r is Some ==> r->0 == run_value(w@.subrange(from as int, to as int), zero),
{
    let ghost full = w@.subrange(from as int, to as int);
    let mut val: usize = 0;
    let mut k: usize = from;
    while k < to
        invariant
            from <= k <= to,
            to <= w@.len(),
            full == w@.subrange(from as int, to as int),
            forall|m: int| from <= m < to ==> (zero as int) <= (#[trigger] w@[m] as int) <= (zero as int) + 9,
            val == run_value(full.subrange(0, k - from), zero),
        decreases to - k,
    {
        let d = (w[k] as u32 - zero as u32) as usize;
        let ghost next = full.subrange(0, k + 1 - from);
        proof {
            assert(next.subrange(0, k - from) == full.subrange(0, k - from));
            assert(next[k - from] == w@[k as int]);
        }
        if val > (usize::MAX - d) / 10 {
            proof {
                assert(run_value(next, zero) == val * 10 + d);
                assert(val * 10 + d > usize::MAX) by (nonlinear_arith)
                    requires
                        val > (usize::MAX - d) / 10,
                        d <= 9,
                ;
                lemma_run_value_mono(full, zero, k + 1 - from);
            }
            return Option::None;
        }
        proof {
            assert(val * 10 + d <= usize::MAX) by (nonlinear_arith)
                requires
                    val <= (usize::MAX - d) / 10,
                    d <= 9,
            ;
        }
        val = val * 10 + d;
        k = k + 1;
    }
    assert(full.subrange(0, to - from) == full);
    Option::Some(val)
}

/// Splits `input` into tokens; fails only where a number does not fit a `usize`.
pub fn tokenize(input: &str) -> (r: Result<Vec<Token>, ParseError>)
    ensures
        r is Ok <==> lex(input@) is Some,
        r is Ok ==> lex(input@) == Option::Some(toks_view(r->Ok_0@)),
{
    let ghost s = input@;
    let chars = chars_of(input);
    let n = chars.len();
    let mut out: Vec<Token> = Vec::new();
    let mut i: usize = 0;
    while i < n
        invariant
            chars@ == s,
            s == input@,
            n == s.len(),
            i <= n,
            lex(s) == prepend_all(toks_view(out@), lex_from(s, i as int)),
        decreases n - i,
    {
        let c = chars[i];
        if is_space_char(c) {
            i = i + 1;
        } else if is_symbol_char(c) {
            proof {
                lemma_prepend_all(toks_view(out@), Tok::Symbol(c), lex_from(s, i + 1));
            }
            let ghost before = out@;
            out.push(Token { kind: TokenKind::Symbol(c), start: i });
            assert(toks_view(out@) =~= toks_view(before).push(Tok::Symbol(c)));
            i = i + 1;
        } else {
            let mut j: usize = i + 1;
            while j < n && !is_space_char(chars[j]) && !is_symbol_char(chars[j])
                invariant
                    chars@ == s,
                    n == s.len(),
                    i < j <= n,
                    word_end(s, i as int) == word_end(s, j as int),
                    forall|m: int| i <= m < j ==> is_word_char(#[trigger] s[m]),
                decreases n - j,
            {
                j = j + 1;
            }
            let ghost w = s.subrange(i as int, j as int);
            let mut digits = true;
            let mut k: usize = i;
            while k < j
                invariant
                    chars@ == s,
                    i <= k <= j <= n,
                    n == s.len(),
                    w == s.subrange(i as int, j as int),
                    digits == (forall|m: int| i <= m < k ==> is_digit(#[trigger] s[m])),
                decreases j - k,
            {
                if !('0' <= chars[k] && chars[k] <= '9') {
                    digits = false;
                }
                k = k + 1;
            }
            assert(digits == all_digits(w)) by {
                if digits {
                    assert forall|m: int| 0 <= m < w.len() implies is_digit(#[trigger] w[m]) by {
                        assert(w[m] == s[i + m]);
                    }
                } else {
                    let m = choose|m: int| i <= m < j && !is_digit(#[trigger] s[m]);
                    assert(w[m - i] == s[m]);
                }
            }
            let tok = if digits {
                match run_value_of(&chars, i, j, '0') {
                    Option::Some(v) => TokenKind::Number(v),
                    Option::None => {
                        return Result::Err(parse_error(i, "a number that fits the machine word"));
                    },
                }
            } else {
                TokenKind::Word(String::from_str(input.substring_char(i, j)))
            };
            let ghost t = tok_view(Token { kind: tok, start: i });
            proof {
                assert(chars@.subrange(i as int, j as int) == w);
                lemma_prepend_all(toks_view(out@), t, lex_from(s, j as int));
            }
            let ghost before = out@;
            out.push(Token { kind: tok, start: i });
            assert(toks_view(out@) =~= toks_view(before).push(t));
            i = j;
        }
    }
    Result::Ok(out)
}

} // verus!

use vstd::prelude::*;
use crate::asm_spec::{
    block_close, block_open, blocks, blocks_seq, emit, end_label, loop_label, temp_name, AsmTarget,
};
use crate::ast::AstView;
use crate::text::{dec, digit_text};

verus! {

/// A repeated block is lowered to one loop around a single copy of its
/// body: the loop head loads the repetition count, the body is emitted once
/// with the counters moved past this block's two labels and one temporary,
/// and one branch back to the head closes the loop.
pub proof fn law_block_single_body(t: AsmTarget, content: AstView, n: usize, lc: nat, tc: nat)
    requires
        n >= 1,
    ensures
        emit(t, AstView::Block { content: Box::new(content), repetitions: n }, lc, tc) == block_open(
            t,
            n,
            loop_label(lc),
            end_label(lc + 1),
            temp_name(tc),
        ) + emit(t, content, lc + 2, tc + 1) + block_close(t, loop_label(lc), temp_name(tc)),
{
}

/// The names that the lowering of `n` creates, in the order it creates
/// them: for each block, its loop label, its end label and its counter.
pub open spec fn names(n: AstView, lc: nat, tc: nat) -> Seq<Seq<char>>
    decreases n,
{
    match n {
        AstView::Network { body, .. } => names_seq(body, lc, tc),
        AstView::Component { expr, .. } => names(*expr, lc, tc),
        AstView::Block { content, .. } => seq![loop_label(lc), end_label(lc + 1), temp_name(tc)]
            + names(*content, lc + 2, tc + 1),
        AstView::DataFlow { from, to } => names(*from, lc, tc) + names(
            *to,
            lc + 2 * blocks(*from),
            tc + blocks(*from),
        ),
        AstView::Loss { from, .. } => names(*from, lc, tc),
        AstView::Expression { items } => names_seq(items, lc, tc),
        _ => Seq::empty(),
    }
}

pub open spec fn names_seq(s: Seq<AstView>, lc: nat, tc: nat) -> Seq<Seq<char>>
    decreases s,
{
    if s.len() == 0 {
        Seq::empty()
    } else {
        let init = s.subrange(0, s.len() - 1);
        names_seq(init, lc, tc) + names(s[s.len() - 1], lc + 2 * blocks_seq(init), tc + blocks_seq(init))
    }
}

/// The names of `k` consecutive blocks numbered from the given counters.
pub open spec fn slots(k: nat, lc: nat, tc: nat) -> Seq<Seq<char>>
    decreases k,
{
    if k == 0 {
        Seq::empty()
    } else {
        slots((k - 1) as nat, lc, tc) + seq![
            loop_label((lc + 2 * (k - 1)) as nat),
            end_label((lc + 2 * (k - 1) + 1) as nat),
            temp_name((tc + (k - 1)) as nat),
        ]
    }
}

pub proof fn lemma_slots_len(k: nat, lc: nat, tc: nat)
    ensures
        slots(k, lc, tc).len() == 3 * k,
    decreases k,
{
    if k > 0 {
        lemma_slots_len((k - 1) as nat, lc, tc);
    }
}

proof fn lemma_slots_index(k: nat, lc: nat, tc: nat, i: int)
    requires
        0 <= i < 3 * k,
    ensures
        slots(k, lc, tc).len() == 3 * k,
        i % 3 == 0 ==> slots(k, lc, tc)[i] == loop_label((lc + 2 * (i / 3)) as nat),
        i % 3 == 1 ==> slots(k, lc, tc)[i] == end_label((lc + 2 * (i / 3) + 1) as nat),
        i % 3 == 2 ==> slots(k, lc, tc)[i] == temp_name((tc + i / 3) as nat),
    decreases k,
{
    lemma_slots_len(k, lc, tc);
    lemma_slots_len((k - 1) as nat, lc, tc);
    if i < 3 * (k - 1) {
        lemma_slots_index((k - 1) as nat, lc, tc, i);
    }
}

/// Names issued so far, followed by the slots of `k` more blocks.
pub open spec fn grown(s: Seq<Seq<char>>, k: nat, lc: nat, tc: nat) -> Seq<Seq<char>> {
    if k == 0 {
        s
    } else {
        s + slots(k, lc, tc)
    }
}

/// Issuing the names of `a` blocks, then of `b` more, issues those of `a + b`.
pub proof fn lemma_grown_compose(s: Seq<Seq<char>>, a: nat, b: nat, lc: nat, tc: nat)
    ensures
        grown(grown(s, a, lc, tc), b, lc + 2 * a, tc + a) == grown(s, a + b, lc, tc),
{
    if a > 0 && b > 0 {
        lemma_slots_append(a, b, lc, tc);
        assert(s + slots(a, lc, tc) + slots(b, lc + 2 * a, tc + a) =~= s + slots(a + b, lc, tc));
    } else if a == 0 && b > 0 {
        assert(lc + 2 * a == lc && tc + a == tc);
    }
}

/// Slots for `a` blocks then `b` more are the slots of `a + b` blocks.
pub proof fn lemma_slots_append(a: nat, b: nat, lc: nat, tc: nat)
    ensures
        slots(a, lc, tc) + slots(b, lc + 2 * a, tc + a) == slots(a + b, lc, tc),
    decreases b,
{
    if b == 0 {
        assert(slots(a, lc, tc) + slots(0, lc + 2 * a, tc + a) =~= slots(a, lc, tc));
    } else {
        lemma_slots_append(a, (b - 1) as nat, lc, tc);
        assert(lc + 2 * a + 2 * (b - 1) == lc + 2 * (a + b - 1));
        assert(slots(a, lc, tc) + slots(b, lc + 2 * a, tc + a) =~= slots(a + b, lc, tc));
    }
}

/// A block's own names followed by those of its content are the slots of its blocks.
pub proof fn lemma_slots_prepend(b: nat, lc: nat, tc: nat)
    ensures
        seq![loop_label(lc), end_label(lc + 1), temp_name(tc)] + slots(b, lc + 2, tc + 1) == slots(
            b + 1,
            lc,
            tc,
        ),
{
    lemma_slots_append(1, b, lc, tc);
    assert(slots(1, lc, tc) =~= seq![loop_label(lc), end_label(lc + 1), temp_name(tc)]) by {
        assert(slots(0, lc, tc) =~= Seq::<Seq<char>>::empty());
    }
}

/// The lowering of a tree numbers its blocks consecutively from the counters it starts with.
pub proof fn lemma_names_are_slots(n: AstView, lc: nat, tc: nat)
    ensures
        names(n, lc, tc) == slots(blocks(n), lc, tc),
    decreases n,
{
    match n {
        AstView::Network { body, .. } => {
            lemma_names_seq_are_slots(body, lc, tc);
        },
        AstView::Component { expr, .. } => {
            lemma_names_are_slots(*expr, lc, tc);
        },
        AstView::Block { content, .. } => {
            lemma_names_are_slots(*content, lc + 2, tc + 1);
            lemma_slots_prepend(blocks(*content), lc, tc);
        },
        AstView::DataFlow { from, to } => {
            lemma_names_are_slots(*from, lc, tc);
            lemma_names_are_slots(*to, lc + 2 * blocks(*from), tc + blocks(*from));
            lemma_slots_append(blocks(*from), blocks(*to), lc, tc);
        },
        AstView::Loss { from, .. } => {
            lemma_names_are_slots(*from, lc, tc);
        },
        AstView::Expression { items } => {
            lemma_names_seq_are_slots(items, lc, tc);
        },
        _ => {
            assert(slots(0, lc, tc) =~= Seq::<Seq<char>>::empty());
        },
    }
}

pub proof fn lemma_names_seq_are_slots(s: Seq<AstView>, lc: nat, tc: nat)
    ensures
        names_seq(s, lc, tc) == slots(blocks_seq(s), lc, tc),
    decreases s,
{
    if s.len() == 0 {
        assert(slots(0, lc, tc) =~= Seq::<Seq<char>>::empty());
    } else {
        let init = s.subrange(0, s.len() - 1);
        lemma_names_seq_are_slots(init, lc, tc);
        lemma_names_are_slots(s[s.len() - 1], lc + 2 * blocks_seq(init), tc + blocks_seq(init));
        lemma_slots_append(blocks_seq(init), blocks(s[s.len() - 1]), lc, tc);
    }
}

proof fn lemma_digit_text(d: nat)
    requires
        d < 10,
    ensures
        digit_text(d).len() == 1,
        digit_text(d)[0] == (('0' as int) + d) as char,
{
    reveal_strlit("0");
    reveal_strlit("1");
    reveal_strlit("2");
    reveal_strlit("3");
    reveal_strlit("4");
    reveal_strlit("5");
    reveal_strlit("6");
    reveal_strlit("7");
    reveal_strlit("8");
    reveal_strlit("9");
}

proof fn lemma_dec_len(n: nat)
    ensures
        dec(n).len() >= 1,
        n >= 10 ==> dec(n).len() >= 2,
    decreases n,
{
    if n < 10 {
        lemma_digit_text(n);
    } else {
        lemma_dec_len(n / 10);
        lemma_digit_text(n % 10);
    }
}

/// Different numbers have different decimal renderings.
pub proof fn lemma_dec_injective(a: nat, b: nat)
    requires
        dec(a) == dec(b),
    ensures
        a == b,
    decreases a,
{
    lemma_dec_len(a);
    lemma_dec_len(b);
    if a < 10 && b < 10 {
        lemma_digit_text(a);
        lemma_digit_text(b);
        assert(dec(a)[0] == dec(b)[0]);
    } else if a >= 10 && b >= 10 {
        lemma_digit_text(a % 10);
        lemma_digit_text(b % 10);
        let da = dec(a);
        assert(da[da.len() - 1] == dec(b)[dec(b).len() - 1]);
        assert(dec(a / 10) =~= da.subrange(0, da.len() - 1));
        assert(dec(b / 10) =~= dec(b).subrange(0, dec(b).len() - 1));
        lemma_dec_injective(a / 10, b / 10);
    } else if a < 10 {
        lemma_digit_text(a);
    } else {
        lemma_digit_text(b);
    }
}

/// Two label or temporary names with different roles or numbers differ.
pub proof fn lemma_slot_names_differ(x: int, y: int, lc: nat, tc: nat, k: nat)
    requires
        0 <= x < y < 3 * k,
    ensures
        slots(k, lc, tc)[x] != slots(k, lc, tc)[y],
{
    lemma_slots_index(k, lc, tc, x);
    lemma_slots_index(k, lc, tc, y);
    reveal_strlit("block_loop");
    reveal_strlit("block_end");
    reveal_strlit("temp_");
    reveal_strlit("_L");
    let sx = slots(k, lc, tc)[x];
    let sy = slots(k, lc, tc)[y];
    if sx == sy {
        if x % 3 == y % 3 {
            assert(x / 3 != y / 3);
            let (p, kx, ky) = if x % 3 == 0 {
                ("block_loop_L"@, (lc + 2 * (x / 3)) as nat, (lc + 2 * (y / 3)) as nat)
            } else if x % 3 == 1 {
                ("block_end_L"@, (lc + 2 * (x / 3) + 1) as nat, (lc + 2 * (y / 3) + 1) as nat)
            } else {
                ("temp_"@, (tc + x / 3) as nat, (tc + y / 3) as nat)
            };
            reveal_strlit("block_loop_L");
            reveal_strlit("block_end_L");
            assert(sx =~= p + dec(kx));
            assert(sy =~= p + dec(ky));
            assert(dec(kx) =~= sx.subrange(p.len() as int, sx.len() as int));
            assert(dec(ky) =~= sy.subrange(p.len() as int, sy.len() as int));
            lemma_dec_injective(kx, ky);
        } else {
            assert(sx[0] != sy[0] || sx[6] != sy[6]);
        }
    }
}

/// Within one lowering no two generated labels or temporaries are textually
/// equal, whatever the tree and whichever counters the lowering starts from.
pub proof fn law_names_unique(n: AstView, lc: nat, tc: nat)
    ensures
        forall|i: int, j: int|
            0 <= i < j < names(n, lc, tc).len() ==> names(n, lc, tc)[i] != names(n, lc, tc)[j],
{
    lemma_names_are_slots(n, lc, tc);
    lemma_slots_len(blocks(n), lc, tc);
    assert forall|i: int, j: int| 0 <= i < j < names(n, lc, tc).len() implies names(
        n,
        lc,
        tc,
    )[i] != names(n, lc, tc)[j] by {
        lemma_slot_names_differ(i, j, lc, tc, blocks(n));
    }
}

} // verus!

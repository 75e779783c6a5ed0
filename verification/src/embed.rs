//! The embedding function: text to a fixed-dimension vector.
//!
//! The text is split on ASCII whitespace; component `i` of the embedding is
//! the character count of token `i` (clamped to [`crate::vector::COMP_MAX`]),
//! for the first [`crate::vector::EMBED_DIM`] tokens; the remaining
//! components are zero. Cosine similarity is invariant under scaling, so the
//! stored components are the raw counts; normalization to unit length is a
//! presentation concern of the caller.

use vstd::prelude::*;
use crate::vector::{COMP_MAX, EMBED_DIM, emb_ok};

verus! {

broadcast use vstd::std_specs::vec::group_vec_axioms;

/// ASCII whitespace, the token separator.
pub open spec fn is_ws(c: char) -> bool {
    c == ' ' || c == '\t' || c == '\n' || c == '\r' || c == '\u{b}' || c == '\u{c}'
}

/// Token lengths of `s`, scanning outside a token.
pub open spec fn lens_outside(s: Seq<char>) -> Seq<int>
    decreases s.len(), 0int,
{
    if s.len() == 0 {
        Seq::empty()
    } else if is_ws(s[0]) {
        lens_outside(s.skip(1))
    } else {
        lens_inside(s.skip(1), 1)
    }
}

/// Token lengths of `s`, scanning inside a token of `k` characters so far.
pub open spec fn lens_inside(s: Seq<char>, k: int) -> Seq<int>
    decreases s.len(), 1int,
{
    if s.len() == 0 {
        seq![k]
    } else if is_ws(s[0]) {
        seq![k] + lens_outside(s.skip(1))
    } else {
        lens_inside(s.skip(1), k + 1)
    }
}

/// The lengths, in characters, of the whitespace-separated tokens of `s`.
pub open spec fn token_lens(s: Seq<char>) -> Seq<int> {
    lens_outside(s)
}

/// The tokens of `s`, scanning outside a token.
pub open spec fn toks_outside(s: Seq<char>) -> Seq<Seq<char>>
    decreases s.len(), 0int,
{
    if s.len() == 0 {
        Seq::empty()
    } else if is_ws(s[0]) {
        toks_outside(s.skip(1))
    } else {
        toks_inside(s.skip(1), seq![s[0]])
    }
}

/// The tokens of `s`, scanning inside the token `cur` built so far.
pub open spec fn toks_inside(s: Seq<char>, cur: Seq<char>) -> Seq<Seq<char>>
    decreases s.len(), 1int,
{
    if s.len() == 0 {
        seq![cur]
    } else if is_ws(s[0]) {
        seq![cur] + toks_outside(s.skip(1))
    } else {
        toks_inside(s.skip(1), cur.push(s[0]))
    }
}

/// The whitespace-separated tokens of `s`.
pub open spec fn tokens(s: Seq<char>) -> Seq<Seq<char>> {
    toks_outside(s)
}

/// Splits a character vector into its whitespace-separated tokens.
pub fn split_tokens(s: &Vec<char>) -> (v: Vec<Vec<char>>)
    ensures
        v.deep_view() == tokens(s@),
{
    let n = s.len();
    let mut v: Vec<Vec<char>> = Vec::new();
    let mut cur: Vec<char> = Vec::new();
    let mut i: usize = 0;
    proof {
        assert(s@.skip(0) =~= s@);
        assert(v.deep_view() + toks_outside(s@) =~= toks_outside(s@));
    }
    while i < n
        invariant
            i <= n,
            n == s.len(),
            cur@.len() == 0 ==> tokens(s@) == v.deep_view() + toks_outside(s@.skip(i as int)),
            cur@.len() >= 1 ==> tokens(s@) == v.deep_view() + toks_inside(
                s@.skip(i as int),
                cur@,
            ),
        decreases n - i,
    {
        let c = s[i];
        proof {
            assert(s@.skip(i as int)[0] == s@[i as int]);
            assert(s@.skip(i as int).skip(1) =~= s@.skip(i as int + 1));
        }
        if is_ws_exec(c) {
            if cur.len() > 0 {
                let ghost pre = v.deep_view();
                let done = cur;
                let ghost done_s = done@;
                cur = Vec::new();
                proof {
                    assert(seq![done_s] + toks_outside(s@.skip(i as int + 1)) =~= toks_inside(
                        s@.skip(i as int),
                        done_s,
                    ));
                }
                v.push(done);
                proof {
                    assert forall|k: int| 0 <= k < v.deep_view().len() implies v.deep_view()[k]
                        == pre.push(done_s)[k] by {
                        assert(v.deep_view()[k] == v@[k].deep_view());
                        assert(v@[k].deep_view() =~= v@[k]@);
                    }
                    assert(v.deep_view() =~= pre.push(done_s));
                    assert(v.deep_view() + toks_outside(s@.skip(i as int + 1)) =~= pre + (
                    seq![done_s] + toks_outside(s@.skip(i as int + 1))));
                    assert(cur@ =~= Seq::<char>::empty());
                }
            }
        } else {
            let ghost cur_s = cur@;
            cur.push(c);
            proof {
                if cur_s.len() == 0 {
                    assert(cur@ =~= seq![c]);
                }
            }
        }
        i = i + 1;
    }
    proof {
        assert(s@.skip(n as int) =~= Seq::<char>::empty());
    }
    if cur.len() > 0 {
        let ghost pre = v.deep_view();
        let done = cur;
        let ghost done_s = done@;
        v.push(done);
        proof {
            assert forall|k: int| 0 <= k < v.deep_view().len() implies v.deep_view()[k]
                == pre.push(done_s)[k] by {
                assert(v.deep_view()[k] == v@[k].deep_view());
                assert(v@[k].deep_view() =~= v@[k]@);
            }
            assert(v.deep_view() =~= pre.push(done_s));
        }
    }
    v
}

/// A token length clamped to the component bound.
pub open spec fn clamp_comp(k: int) -> i64 {
    if k > COMP_MAX as int {
        COMP_MAX
    } else {
        k as i64
    }
}

/// The embedding of `s`: the clamped length of each of the first
/// `EMBED_DIM` tokens, padded with zeros to exactly `EMBED_DIM` components.
pub open spec fn embed_spec(s: Seq<char>) -> Seq<i64> {
    Seq::new(
        EMBED_DIM as nat,
        |i: int|
            if 0 <= i < token_lens(s).len() {
                clamp_comp(token_lens(s)[i])
            } else {
                0i64
            },
    )
}

fn is_ws_exec(c: char) -> (r: bool)
    ensures
        r == is_ws(c),
{
    c == ' ' || c == '\t' || c == '\n' || c == '\r' || c == '\u{b}' || c == '\u{c}'
}

/// Token lengths are always positive.
proof fn lemma_lens_positive(s: Seq<char>, k: int)
    requires
        k >= 1,
    ensures
        forall|i: int|
            0 <= i < lens_outside(s).len() ==> #[trigger] lens_outside(s)[i] >= 1,
        forall|i: int|
            0 <= i < lens_inside(s, k).len() ==> #[trigger] lens_inside(s, k)[i] >= 1,
    decreases s.len(),
{
    if s.len() == 0 {
        assert(lens_inside(s, k) =~= seq![k]);
    } else {
        lemma_lens_positive(s.skip(1), k + 1);
        lemma_lens_positive(s.skip(1), 1);
        if is_ws(s[0]) {
            assert(lens_outside(s) == lens_outside(s.skip(1)));
            assert(lens_inside(s, k) == seq![k] + lens_outside(s.skip(1)));
            assert forall|i: int| 0 <= i < lens_inside(s, k).len() implies #[trigger] lens_inside(
                s,
                k,
            )[i] >= 1 by {
                if i == 0 {
                    assert(lens_inside(s, k)[0] == k);
                } else {
                    assert(lens_inside(s, k)[i] == lens_outside(s.skip(1))[i - 1]);
                }
            }
        } else {
            assert(lens_outside(s) == lens_inside(s.skip(1), 1));
            assert(lens_inside(s, k) == lens_inside(s.skip(1), k + 1));
        }
    }
}

/// Computes the token lengths of a character vector.
fn token_lens_exec(s: &Vec<char>) -> (v: Vec<usize>)
    ensures
        v@.len() == token_lens(s@).len(),
        forall|i: int| 0 <= i < v@.len() ==> v@[i] as int == #[trigger] token_lens(s@)[i],
{
    let n = s.len();
    let mut v: Vec<usize> = Vec::new();
    let ghost mut done: Seq<int> = Seq::empty();
    let mut i: usize = 0;
    let mut cur: usize = 0;
    proof {
        assert(s@.skip(0) =~= s@);
        assert(done + lens_outside(s@) =~= lens_outside(s@));
    }
    // `cur == 0` means the scan is outside a token; otherwise `cur`
    // characters of the current token have been seen.
    while i < n
        invariant
            i <= n,
            n == s.len(),
            cur <= i,
            v@.len() == done.len(),
            forall|j: int| 0 <= j < v@.len() ==> v@[j] as int == #[trigger] done[j],
            cur == 0 ==> token_lens(s@) == done + lens_outside(s@.skip(i as int)),
            cur >= 1 ==> token_lens(s@) == done + lens_inside(s@.skip(i as int), cur as int),
        decreases n - i,
    {
        let c = s[i];
        proof {
            assert(s@.skip(i as int)[0] == s@[i as int]);
            assert(s@.skip(i as int).skip(1) =~= s@.skip(i as int + 1));
        }
        if is_ws_exec(c) {
            if cur > 0 {
                v.push(cur);
                proof {
                    done = done + seq![cur as int];
                    assert(seq![cur as int] + lens_outside(s@.skip(i as int + 1))
                        =~= lens_inside(s@.skip(i as int), cur as int));
                }
                cur = 0;
            }
        } else {
            cur = cur + 1;
        }
        i = i + 1;
    }
    proof {
        assert(s@.skip(n as int) =~= Seq::<char>::empty());
    }
    if cur > 0 {
        v.push(cur);
        proof {
            done = done + seq![cur as int];
        }
    }
    v
}

/// Computes the embedding of a text.
pub fn embed(content: &str) -> (v: Vec<i64>)
    ensures
        v@ == embed_spec(content@),
        v@.len() == EMBED_DIM,
        emb_ok(v@),
        forall|i: int| 0 <= i < v@.len() ==> 0 <= #[trigger] v@[i] <= COMP_MAX,
{
    let chars = crate::text::chars_vec(content);
    let lens = token_lens_exec(&chars);
    proof {
        lemma_lens_positive(content@, 1);
    }
    let mut v: Vec<i64> = Vec::with_capacity(EMBED_DIM);
    let mut i: usize = 0;
    while i < EMBED_DIM
        invariant
            i <= EMBED_DIM,
            lens@.len() == token_lens(content@).len(),
            forall|j: int|
                0 <= j < lens@.len() ==> lens@[j] as int == #[trigger] token_lens(content@)[j],
            forall|j: int|
                0 <= j < lens@.len() ==> #[trigger] token_lens(content@)[j] >= 1,
            v@.len() == i,
            forall|j: int| 0 <= j < i ==> v@[j] == #[trigger] embed_spec(content@)[j],
            forall|j: int| 0 <= j < i ==> 0 <= #[trigger] v@[j] <= COMP_MAX,
        decreases EMBED_DIM - i,
    {
        if i < lens.len() {
            let k = lens[i];
            let comp: i64 = if k > 1000000 {
                1000000
            } else {
                k as i64
            };
            proof {
                assert(token_lens(content@)[i as int] >= 1);
            }
            v.push(comp);
        } else {
            v.push(0);
        }
        i = i + 1;
    }
    proof {
        assert(v@ =~= embed_spec(content@));
    }
    v
}

/// Synthesized embeddings are well-formed: `EMBED_DIM` components, each
/// between zero and the component bound.
pub proof fn lemma_embed_spec_bounds(t: Seq<char>)
    ensures
        embed_spec(t).len() == EMBED_DIM,
        forall|i: int|
            0 <= i < embed_spec(t).len() ==> 0 <= #[trigger] embed_spec(t)[i] <= COMP_MAX,
        emb_ok(embed_spec(t)),
{
    lemma_lens_positive(t, 1);
    assert forall|i: int| 0 <= i < embed_spec(t).len() implies 0 <= #[trigger] embed_spec(t)[i]
        <= COMP_MAX by {
        if i < token_lens(t).len() {
            assert(token_lens(t)[i] >= 1);
        }
    }
}

/// A text with at least one token embeds to a vector with positive norm;
/// such an embedding is its own nearest neighbor.
pub proof fn lemma_embed_norm_positive(s: Seq<char>)
    requires
        token_lens(s).len() > 0,
    ensures
        crate::vector::norm2(embed_spec(s)) > 0,
{
    lemma_lens_positive(s, 1);
    let e = embed_spec(s);
    assert(e[0] >= 1);
    lemma_first_term_positive(e, EMBED_DIM as int);
}

/// A sum of squares with a positive first component is positive.
proof fn lemma_first_term_positive(e: Seq<i64>, n: int)
    requires
        0 < n <= e.len(),
        e[0] >= 1,
    ensures
        crate::vector::dot_prefix(e, e, n) > 0,
    decreases n,
{
    if n == 1 {
        assert(crate::vector::dot_prefix(e, e, 1) == crate::vector::dot_prefix(e, e, 0) + e[0]
            * e[0]);
        assert(e[0] * e[0] >= 1) by (nonlinear_arith)
            requires
                e[0] as int >= 1,
        ;
    } else {
        lemma_first_term_positive(e, n - 1);
        assert(crate::vector::dot_prefix(e, e, n) == crate::vector::dot_prefix(e, e, n - 1)
            + e[n - 1] * e[n - 1]);
        assert(e[n - 1] * e[n - 1] >= 0) by (nonlinear_arith);
    }
}

} // verus!

//! Rendering: tokens in, one string out.

use vstd::prelude::*;

verus! {

/// The text of each token, in order.
pub open spec fn token_texts(tokens: Seq<String>) -> Seq<Seq<char>> {
    tokens.map_values(|t: String| t@)
}

/// The tokens in order, with the joiner between each two neighbours and
/// nowhere else.
pub open spec fn joined(tokens: Seq<Seq<char>>, joiner: Seq<char>) -> Seq<char>
    decreases tokens.len(),
{
    if tokens.len() == 0 {
        Seq::empty()
    } else if tokens.len() == 1 {
        tokens[0]
    } else {
        joined(tokens.drop_last(), joiner) + joiner + tokens.last()
    }
}

/// The number of characters in all the tokens together.
pub open spec fn total_len(tokens: Seq<Seq<char>>) -> nat
    decreases tokens.len(),
{
    if tokens.len() == 0 {
        0
    } else {
        total_len(tokens.drop_last()) + tokens.last().len()
    }
}

/// Where token `k` starts in the rendered text: behind the `k` tokens before
/// it and the `k` joiners that follow them.
pub open spec fn token_start(tokens: Seq<Seq<char>>, joiner: Seq<char>, k: int) -> int {
    total_len(tokens.take(k)) + k * joiner.len()
}

/// No tokens render to the empty string, whatever the joiner.
pub proof fn lemma_joined_none(joiner: Seq<char>)
    ensures
        joined(Seq::empty(), joiner) == Seq::<char>::empty(),
{
}

/// One token renders to itself: the joiner does not appear.
pub proof fn lemma_joined_one(token: Seq<char>, joiner: Seq<char>)
    ensures
        joined(seq![token], joiner) == token,
{
}

/// Two tokens render to the first, the joiner, and the second.
pub proof fn lemma_joined_two(first: Seq<char>, second: Seq<char>, joiner: Seq<char>)
    ensures
        joined(seq![first, second], joiner) == first + joiner + second,
{
    let both = seq![first, second];
    assert(both.drop_last() == seq![first]);
    assert(joined(both.drop_last(), joiner) == first);
}

/// Appending a token to a code that already has one appends the joiner and
/// the token to its text.
pub proof fn lemma_joined_push(tokens: Seq<Seq<char>>, token: Seq<char>, joiner: Seq<char>)
    requires
        tokens.len() > 0,
    ensures
        joined(tokens.push(token), joiner) == joined(tokens, joiner) + joiner + token,
{
    assert(tokens.push(token).drop_last() == tokens);
}

/// The rendered text is as long as its tokens and the joiners between them.
pub proof fn lemma_joined_len(tokens: Seq<Seq<char>>, joiner: Seq<char>)
    requires
        tokens.len() > 0,
    ensures
        joined(tokens, joiner).len() == total_len(tokens) + (tokens.len() - 1) * joiner.len(),
    decreases tokens.len(),
{
    if tokens.len() == 1 {
        assert(tokens.drop_last().len() == 0);
        assert(total_len(tokens.drop_last()) == 0);
    } else {
        lemma_joined_len(tokens.drop_last(), joiner);
        assert((tokens.len() - 1) * joiner.len() == (tokens.len() - 2) * joiner.len()
            + joiner.len()) by (nonlinear_arith);
    }
}

/// Each token stands in the rendered text at its start, whole, and what
/// stands between one token's end and the next token's start is the joiner.
pub proof fn lemma_joined_layout(tokens: Seq<Seq<char>>, joiner: Seq<char>, k: int)
    requires
        0 <= k < tokens.len(),
    ensures
        0 <= token_start(tokens, joiner, k),
        token_start(tokens, joiner, k) + tokens[k].len() <= joined(tokens, joiner).len(),
        joined(tokens, joiner).subrange(
            token_start(tokens, joiner, k),
            token_start(tokens, joiner, k) + tokens[k].len(),
        ) == tokens[k],
        k + 1 < tokens.len() ==> token_start(tokens, joiner, k + 1) == token_start(
            tokens,
            joiner,
            k,
        ) + tokens[k].len() + joiner.len() && joined(tokens, joiner).subrange(
            token_start(tokens, joiner, k) + tokens[k].len(),
            token_start(tokens, joiner, k + 1),
        ) == joiner,
    decreases tokens.len(),
{
    let text = joined(tokens, joiner);
    let start = token_start(tokens, joiner, k);
    lemma_joined_len(tokens, joiner);
    assert(tokens.take(k + 1).drop_last() == tokens.take(k));
    assert(tokens.take(k + 1).last() == tokens[k]);
    assert((k + 1) * joiner.len() == k * joiner.len() + joiner.len()) by (nonlinear_arith);
    if k == tokens.len() - 1 {
        assert(tokens.take(k) == tokens.drop_last());
        if k == 0 {
            assert(total_len(tokens.take(0)) == 0);
            assert(text.subrange(0, tokens[0].len() as int) == tokens[0]);
        } else {
            lemma_joined_len(tokens.drop_last(), joiner);
            assert(start == joined(tokens.drop_last(), joiner).len() + joiner.len());
            assert(text.subrange(start, start + tokens[k].len()) == tokens[k]);
        }
    } else {
        let shorter = tokens.drop_last();
        let before = joined(shorter, joiner);
        lemma_joined_layout(shorter, joiner, k);
        lemma_joined_len(shorter, joiner);
        assert(shorter.take(k) == tokens.take(k));
        assert(shorter.take(k + 1) == tokens.take(k + 1));
        assert(shorter[k] == tokens[k]);
        assert(text == before + joiner + tokens.last());
        assert(text.subrange(start, start + tokens[k].len()) == before.subrange(
            start,
            start + tokens[k].len(),
        ));
        let next = token_start(tokens, joiner, k + 1);
        assert(next == start + tokens[k].len() + joiner.len());
        if k + 1 < shorter.len() {
            lemma_joined_layout(shorter, joiner, k + 1);
            assert(text.subrange(start + tokens[k].len(), next) == before.subrange(
                start + tokens[k].len(),
                next,
            ));
        } else {
            assert(shorter.take(k + 1) == shorter);
            assert(start + tokens[k].len() == before.len());
            assert(text.subrange(start + tokens[k].len(), next) == joiner);
        }
    }
}

/// Renders the tokens in order, with `joiner` between each two neighbours:
/// nothing for no tokens, a single token as it is.
pub fn render(tokens: &Vec<String>, joiner: &str) -> (code: String)
    ensures
        code@ == joined(token_texts(tokens@), joiner@),
{
    let mut code = String::new();
    let mut i: usize = 0;
    while i < tokens.len()
        invariant
            i <= tokens.len(),
            code@ == joined(token_texts(tokens@).take(i as int), joiner@),
        decreases tokens.len() - i,
    {
        proof {
            let texts = token_texts(tokens@);
            assert(texts.take(i + 1).drop_last() == texts.take(i as int));
            assert(texts.take(i + 1).last() == tokens[i as int]@);
        }
        if i > 0 {
            code.append(joiner);
        }
        code.append(tokens[i].as_str());
        i += 1;
    }
    proof {
        assert(token_texts(tokens@).take(i as int) == token_texts(tokens@));
    }
    code
}

} // verus!

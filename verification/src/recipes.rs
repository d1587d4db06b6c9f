//! Ready-made codes: fixed runs of draws.

use crate::builder::{
    added, drew, drew_words, failed_to_draw, is_six_digits, lemma_million, CodesView, FluentCodes,
};
use crate::category::WordCategory;
use crate::digits::{lemma_zero_padded, zero_padded};
use crate::error::FluentError;
use crate::render::{joined, lemma_joined_layout, lemma_joined_len, token_start, total_len};
use crate::word::qualifies;
use vstd::prelude::*;

verus! {

/// The categories of the three-word run, in the order in which they are
/// drawn: an adjective, a verb, a noun.
pub open spec fn three_word_run() -> Seq<WordCategory> {
    seq![WordCategory::Adjective, WordCategory::Verb, WordCategory::Noun]
}

/// The categories of the four-word run, in the order in which they are
/// drawn: an adjective, a verb, a noun, an adjective.
pub open spec fn four_word_run() -> Seq<WordCategory> {
    seq![
        WordCategory::Adjective,
        WordCategory::Verb,
        WordCategory::Noun,
        WordCategory::Adjective,
    ]
}

/// The queries that the builder puts to its store for a run of categories,
/// one for each, in order.
pub open spec fn questions(before: CodesView, run: Seq<WordCategory>) -> Seq<Seq<char>> {
    run.map_values(|category: WordCategory| before.question(category))
}

/// `after` is `before` with one word drawn for each category of the run, in
/// order: the store was asked for each in turn, and each answer was
/// appended.
pub open spec fn drew_run(before: CodesView, after: CodesView, run: Seq<WordCategory>) -> bool {
    &&& drew_words(before, after, run.len())
    &&& after.asked == before.asked + questions(before, run)
}

/// `after` is `before` with a run that a failed draw ended with `error`.
/// The words drawn before the failure stay, fewer than the run has. The
/// store was asked for each of them and, where it could be opened, for the
/// one that failed, and for none behind it.
pub open spec fn run_failed(
    before: CodesView,
    after: CodesView,
    run: Seq<WordCategory>,
    error: FluentError,
) -> bool {
    let drawn = after.tokens.len() - before.tokens.len();
    &&& 0 <= drawn < run.len()
    &&& drew_words(before, after, drawn as nat)
    &&& error == FluentError::NoMatchingWord ==> after.connected()
    &&& after.asked == before.asked + questions(before, run).take(
        if after.connected() {
            drawn + 1
        } else {
            drawn
        },
    )
}

/// `after` is `before` with the run drawn and appended, and behind the words
/// a number up to 999999 in six digits.
pub open spec fn drew_run_and_digits(
    before: CodesView,
    after: CodesView,
    run: Seq<WordCategory>,
) -> bool {
    exists|number: nat, words: CodesView|
        number <= 999_999 && drew_run(before, words, run) && after == #[trigger] words.with_token(
            zero_padded(number, 6),
        )
}

/// Whether the text is a code of four words: what a new builder renders
/// when it has drawn an adjective, a verb, a noun and an adjective, in that
/// order, from the store at its usual place.
pub open spec fn is_four_word_code(code: Seq<char>) -> bool {
    exists|end: CodesView| #[trigger]
        drew_run(FluentCodes::default_view(), end, four_word_run()) && code == end.code()
}

/// Whether the text is a code of three words and a number: what a new
/// builder renders when it has drawn an adjective, a verb and a noun, in
/// that order, from the store at its usual place, and then a number up to
/// 999999 in six digits.
pub open spec fn is_three_words_and_digits(code: Seq<char>) -> bool {
    exists|end: CodesView| #[trigger]
        drew_run_and_digits(FluentCodes::default_view(), end, three_word_run()) && code
            == end.code()
}

/// Drawing `first` words and then `second` more is drawing `first + second`.
pub proof fn lemma_drew_more(
    start: CodesView,
    middle: CodesView,
    end: CodesView,
    first: nat,
    second: nat,
)
    requires
        drew_words(start, middle, first),
        drew_words(middle, end, second),
    ensures
        drew_words(start, end, first + second),
{
    let all = added(start, end);
    assert(all == added(start, middle) + added(middle, end));
    assert(end.tokens == start.tokens + all);
    assert forall|i: int| 0 <= i < all.len() implies qualifies(
        #[trigger] all[i],
        start.min_length,
        start.max_length,
    ) by {
        if i < first {
            assert(all[i] == added(start, middle)[i]);
        } else {
            assert(all[i] == added(middle, end)[i - first]);
        }
    }
}

/// A builder that has not moved has drawn the empty run.
pub proof fn lemma_run_of_none(start: CodesView)
    ensures
        drew_run(start, start, Seq::empty()),
{
    assert(added(start, start) == Seq::<Seq<char>>::empty());
    assert(start.tokens == start.tokens + added(start, start));
    assert(start.asked == start.asked + questions(start, Seq::empty()));
}

/// A run followed by one more draw is the run with that draw's category at
/// its end.
pub proof fn lemma_run_goes_on(
    start: CodesView,
    middle: CodesView,
    end: CodesView,
    run: Seq<WordCategory>,
    category: WordCategory,
)
    requires
        drew_run(start, middle, run),
        drew(middle, end, category),
    ensures
        drew_run(start, end, run.push(category)),
{
    lemma_drew_more(start, middle, end, run.len(), 1);
    assert(questions(start, run.push(category)) == questions(start, run).push(
        middle.question(category),
    ));
    assert(end.asked == start.asked + questions(start, run.push(category)));
}

/// A run whose next draw fails has failed, whatever the run would have gone
/// on to.
pub proof fn lemma_run_fails(
    start: CodesView,
    middle: CodesView,
    end: CodesView,
    done: Seq<WordCategory>,
    run: Seq<WordCategory>,
    error: FluentError,
)
    requires
        done.len() < run.len(),
        run.take(done.len() as int) == done,
        drew_run(start, middle, done),
        failed_to_draw(middle, end, run[done.len() as int], error),
    ensures
        run_failed(start, end, run, error),
{
    let count = done.len() as int;
    assert(added(start, end) == added(start, middle));
    assert(end.tokens.len() - start.tokens.len() == count);
    assert(questions(start, run).take(count) == questions(start, done));
    if end.connected() {
        assert(questions(start, run).take(count + 1) == questions(start, done).push(
            middle.question(run[count]),
        ));
        assert(end.asked == start.asked + questions(start, run).take(count + 1));
    } else {
        assert(end.asked == start.asked + questions(start, run).take(count));
    }
}

/// A run that failed is also a failed run of any longer run that begins as
/// it does.
pub proof fn lemma_longer_run_failed(
    start: CodesView,
    end: CodesView,
    run: Seq<WordCategory>,
    longer: Seq<WordCategory>,
    error: FluentError,
)
    requires
        run.len() <= longer.len(),
        longer.take(run.len() as int) == run,
        run_failed(start, end, run, error),
    ensures
        run_failed(start, end, longer, error),
{
    let drawn = end.tokens.len() - start.tokens.len();
    let asked = if end.connected() {
        drawn + 1
    } else {
        drawn
    };
    assert forall|i: int| 0 <= i < run.len() implies run[i] == longer[i] by {
        assert(longer.take(run.len() as int)[i] == longer[i]);
    }
    assert(questions(start, longer).take(asked) == questions(start, run).take(asked));
}

/// Where the parts of four tokens of six characters stand in a code joined
/// by `-`: the tokens at 0, 7, 14 and 21, a `-` behind each of the first
/// three, 27 characters in all.
pub proof fn lemma_four_sixes_layout(tokens: Seq<Seq<char>>)
    requires
        tokens.len() == 4,
        forall|i: int| 0 <= i < 4 ==> (#[trigger] tokens[i]).len() == 6,
    ensures
        joined(tokens, "-"@).len() == 27,
        joined(tokens, "-"@).subrange(0, 6) == tokens[0],
        joined(tokens, "-"@).subrange(7, 13) == tokens[1],
        joined(tokens, "-"@).subrange(14, 20) == tokens[2],
        joined(tokens, "-"@).subrange(21, 27) == tokens[3],
        joined(tokens, "-"@)[6] == '-',
        joined(tokens, "-"@)[13] == '-',
        joined(tokens, "-"@)[20] == '-',
{
    reveal_strlit("-");
    let dash = "-"@;
    let code = joined(tokens, dash);
    assert(tokens.take(0).len() == 0);
    assert(total_len(tokens.take(0)) == 0);
    assert(token_start(tokens, dash, 0) == 0);
    lemma_joined_layout(tokens, dash, 0);
    lemma_joined_layout(tokens, dash, 1);
    lemma_joined_layout(tokens, dash, 2);
    lemma_joined_layout(tokens, dash, 3);
    assert(tokens[0].len() == 6 && tokens[1].len() == 6 && tokens[2].len() == 6 && tokens[3].len()
        == 6);
    assert(token_start(tokens, dash, 1) == 7);
    assert(token_start(tokens, dash, 2) == 14);
    assert(token_start(tokens, dash, 3) == 21);
    assert(code.subrange(6, 7)[0] == '-');
    assert(code.subrange(13, 14)[0] == '-');
    assert(code.subrange(20, 21)[0] == '-');
    lemma_joined_len(tokens, dash);
    assert(tokens.take(4) == tokens);
    assert(tokens.take(4).drop_last() == tokens.take(3));
    assert(total_len(tokens) == total_len(tokens.take(3)) + 6);
}

/// A code of four words has 27 characters: four words of six letters in
/// lower case, and a `-` after each of the first three.
pub proof fn lemma_four_word_code_shape(code: Seq<char>)
    requires
        is_four_word_code(code),
    ensures
        code.len() == 27,
        qualifies(code.subrange(0, 6), 6, 6),
        qualifies(code.subrange(7, 13), 6, 6),
        qualifies(code.subrange(14, 20), 6, 6),
        qualifies(code.subrange(21, 27), 6, 6),
        code[6] == '-' && code[13] == '-' && code[20] == '-',
{
    let start = FluentCodes::default_view();
    let end = choose|end: CodesView| #[trigger]
        drew_run(start, end, four_word_run()) && code == end.code();
    let words = end.tokens;
    assert(words == added(start, end));
    assert(qualifies(words[0], 6, 6) && qualifies(words[1], 6, 6) && qualifies(words[2], 6, 6)
        && qualifies(words[3], 6, 6));
    lemma_four_sixes_layout(words);
}

/// A code of three words and six digits has 27 characters: three words of
/// six letters in lower case, each with a `-` behind it, and six decimal
/// digits at the end.
pub proof fn lemma_three_words_and_digits_shape(code: Seq<char>)
    requires
        is_three_words_and_digits(code),
    ensures
        code.len() == 27,
        qualifies(code.subrange(0, 6), 6, 6),
        qualifies(code.subrange(7, 13), 6, 6),
        qualifies(code.subrange(14, 20), 6, 6),
        code[6] == '-' && code[13] == '-' && code[20] == '-',
        is_six_digits(code.subrange(21, 27)),
{
    let start = FluentCodes::default_view();
    let end = choose|end: CodesView| #[trigger]
        drew_run_and_digits(start, end, three_word_run()) && code == end.code();
    let (number, drawn) = choose|number: nat, words: CodesView|
        number <= 999_999 && drew_run(start, words, three_word_run()) && end
            == #[trigger] words.with_token(zero_padded(number, 6));
    let words = drawn.tokens;
    let tokens = end.tokens;
    lemma_million();
    lemma_zero_padded(number, 6);
    assert(words == added(start, drawn));
    assert(qualifies(words[0], 6, 6) && qualifies(words[1], 6, 6) && qualifies(words[2], 6, 6));
    assert(tokens[0] == words[0] && tokens[1] == words[1] && tokens[2] == words[2]);
    lemma_four_sixes_layout(tokens);
}

impl FluentCodes {
    /// Draws an adjective, a verb, a noun and an adjective, in that order,
    /// and appends them. The first draw that fails ends the run with its
    /// error; the words drawn before it stay.
    pub fn four_words(&mut self) -> (r: Result<&mut FluentCodes, FluentError>)
        ensures
            match r {
                Ok(ret) => drew_run(old(self)@, ret@, four_word_run()) && *final(self) == *final(
                    ret
                ),
                Err(error) => run_failed(old(self)@, final(self)@, four_word_run(), error),
            },
            old(self)@.min_length > old(self)@.max_length ==> r is Err,
    {
        proof {
            assert(four_word_run().take(3) == three_word_run());
        }
        match self.three_words() {
            Ok(_) => {},
            Err(error) => {
                proof {
                    lemma_longer_run_failed(
                        old(self)@,
                        self@,
                        three_word_run(),
                        four_word_run(),
                        error,
                    );
                }
                return Err(error);
            },
        }
        proof {
            let start = old(self)@;
            let third = self@;
            let last = WordCategory::Adjective;
            assert(three_word_run().push(last) == four_word_run());
            assert forall|end: CodesView| #[trigger] drew(third, end, last) implies drew_run(
                start,
                end,
                four_word_run(),
            ) by {
                lemma_run_goes_on(start, third, end, three_word_run(), last);
            }
            assert forall|end: CodesView, error: FluentError| #[trigger]
                failed_to_draw(third, end, last, error) implies run_failed(
                start,
                end,
                four_word_run(),
                error,
            ) by {
                lemma_run_fails(start, third, end, three_word_run(), four_word_run(), error);
            }
        }
        self.adjective()
    }

    /// Draws an adjective, a verb and a noun, in that order, and appends
    /// them. The first draw that fails ends the run with its error; the
    /// words drawn before it stay.
    pub fn three_words(&mut self) -> (r: Result<&mut FluentCodes, FluentError>)
        ensures
            match r {
                Ok(ret) => drew_run(old(self)@, ret@, three_word_run()) && *final(self) == *final(
                    ret
                ),
                Err(error) => run_failed(old(self)@, final(self)@, three_word_run(), error),
            },
            old(self)@.min_length > old(self)@.max_length ==> r is Err,
    {
        let ghost start = self@;
        let ghost run = three_word_run();
        let ghost none = Seq::<WordCategory>::empty();
        let ghost one = seq![WordCategory::Adjective];
        let ghost two = seq![WordCategory::Adjective, WordCategory::Verb];
        proof {
            lemma_run_of_none(start);
            assert(run.take(0) == none);
            assert(run.take(1) == one);
            assert(run.take(2) == two);
            assert(none.push(WordCategory::Adjective) == one);
            assert(one.push(WordCategory::Verb) == two);
            assert(two.push(WordCategory::Noun) == run);
        }
        match self.adjective() {
            Ok(_) => {},
            Err(error) => {
                proof {
                    lemma_run_fails(start, start, self@, none, run, error);
                }
                return Err(error);
            },
        }
        let ghost first = self@;
        proof {
            lemma_run_goes_on(start, start, first, none, WordCategory::Adjective);
        }
        match self.verb() {
            Ok(_) => {},
            Err(error) => {
                proof {
                    lemma_run_fails(start, first, self@, one, run, error);
                }
                return Err(error);
            },
        }
        let ghost second = self@;
        proof {
            lemma_run_goes_on(start, first, second, one, WordCategory::Verb);
            assert forall|end: CodesView| #[trigger]
                drew(second, end, WordCategory::Noun) implies drew_run(start, end, run) by {
                lemma_run_goes_on(start, second, end, two, WordCategory::Noun);
            }
            assert forall|end: CodesView, error: FluentError| #[trigger]
                failed_to_draw(second, end, WordCategory::Noun, error) implies run_failed(
                start,
                end,
                run,
                error,
            ) by {
                lemma_run_fails(start, second, end, two, run, error);
            }
        }
        self.noun()
    }

    /// Draws an adjective, a verb and a noun, in that order, then a number
    /// in six digits, and appends them. The first draw of a word that fails
    /// ends the run with its error; the words drawn before it stay.
    pub fn three_words_and_six_digits(&mut self) -> (r: Result<&mut FluentCodes, FluentError>)
        ensures
            match r {
                Ok(ret) => drew_run_and_digits(old(self)@, ret@, three_word_run())
                    && *final(self) == *final(ret),
                Err(error) => run_failed(old(self)@, final(self)@, three_word_run(), error),
            },
            old(self)@.min_length > old(self)@.max_length ==> r is Err,
    {
        match self.three_words() {
            Ok(_) => {},
            Err(error) => {
                return Err(error);
            },
        }
        Ok(self.six_digits())
    }

    /// A code of four words: an adjective, a verb, a noun and an adjective
    /// of six letters each, drawn in that order by a new builder from the
    /// store at its usual place, and joined by `-`.
    pub fn generate_code_with_four_words() -> (r: Result<String, FluentError>)
        ensures
            r matches Ok(code) ==> is_four_word_code(code@),
    {
        let mut codes = FluentCodes::default();
        match codes.four_words() {
            Ok(ret) => Ok(ret.to_string()),
            Err(error) => Err(error),
        }
    }

    /// A code of three words and a number: an adjective, a verb and a noun
    /// of six letters each, drawn in that order by a new builder from the
    /// store at its usual place, and six digits, joined by `-`.
    pub fn generate_code_with_three_words_and_six_digits() -> (r: Result<String, FluentError>)
        ensures
            r matches Ok(code) ==> is_three_words_and_digits(code@),
    {
        let mut codes = FluentCodes::default();
        match codes.three_words_and_six_digits() {
            Ok(ret) => Ok(ret.to_string()),
            Err(error) => Err(error),
        }
    }
}

} // verus!

//! The builder that collects tokens and renders them as one code.

use crate::category::WordCategory;
use crate::chance::draw_up_to;
use crate::digits::{
    all_digits, lemma_padded_texts, lemma_zero_padded, pow10, zero_padded, zero_padded_text,
};
use crate::error::FluentError;
use crate::query::sample_query;
use crate::render::{joined, lemma_joined_push, render, token_texts};
use crate::store::{ask, Answer, OpenStore};
use crate::word::{all_qualify, qualifies, word_qualifies};
use vstd::prelude::*;

verus! {

/// A builder of fluent codes.
///
/// It holds the tokens drawn so far, in the order in which they were drawn,
/// the joiner that will stand between them, and the length range that the
/// next word must fit. The connection to the word store is opened by the
/// first draw and kept for all later ones; it belongs to this builder alone
/// and is closed when the builder is dropped.
#[derive(Debug)]
pub struct FluentCodes {
    words: Vec<String>,
    connection: Option<OpenStore>,
    store: String,
    joiner: String,
    min_length: i32,
    max_length: i32,
}

/// What a builder holds, as plain values.
pub struct CodesView {
    /// The tokens, in the order in which they will be rendered.
    pub tokens: Seq<Seq<char>>,
    /// What stands between two tokens in the rendered code.
    pub joiner: Seq<char>,
    /// The least number of characters of a word drawn next.
    pub min_length: int,
    /// The greatest number of characters of a word drawn next.
    pub max_length: int,
    /// Where the builder will open its word store: a path or an SQLite URI.
    pub store: Seq<char>,
    /// Where the open connection was opened; `None` while there is none.
    pub opened: Option<Seq<char>>,
    /// The queries put to the store so far, oldest first.
    pub asked: Seq<Seq<char>>,
}

impl CodesView {
    /// Whether the connection to the store is open.
    pub open spec fn connected(self) -> bool {
        self.opened is Some
    }

    /// The same builder with one more token at the end.
    pub open spec fn with_token(self, token: Seq<char>) -> CodesView {
        CodesView { tokens: self.tokens.push(token), ..self }
    }

    /// The same builder after one more query was put to its store.
    pub open spec fn with_question(self, question: Seq<char>) -> CodesView {
        CodesView { asked: self.asked.push(question), ..self }
    }

    /// The query that a draw of the category puts to the store: for one word
    /// of the category's table with a length in the builder's range.
    pub open spec fn question(self, category: WordCategory) -> Seq<char> {
        sample_query(category.table_name(), self.min_length, self.max_length)
    }

    /// The code that the tokens render to.
    pub open spec fn code(self) -> Seq<char> {
        joined(self.tokens, self.joiner)
    }
}

/// The tokens that `after` holds behind those of `before`.
pub open spec fn added(before: CodesView, after: CodesView) -> Seq<Seq<char>> {
    after.tokens.skip(before.tokens.len() as int)
}

/// The store of `after` is that of `before`, further on: a connection that
/// was open is still the one opened at the same location, one that was opened
/// since was opened at the builder's location, and the queries put to the
/// store before are still the first of those put to it.
pub open spec fn store_went_on(before: CodesView, after: CodesView) -> bool {
    &&& before.connected() ==> after.opened == before.opened
    &&& after.connected() && !before.connected() ==> after.opened == Some(before.store)
    &&& before.asked.is_prefix_of(after.asked)
}

/// `after` is `before` with `count` words drawn and appended: each of them
/// fits the length range and is in lower case, the tokens that were there
/// stand in front of them unchanged, and so do the joiner, the range and the
/// store's location. The store went on, and a word can only have come from
/// an open one.
pub open spec fn drew_words(before: CodesView, after: CodesView, count: nat) -> bool {
    &&& after.tokens.len() == before.tokens.len() + count
    &&& after == CodesView {
        tokens: before.tokens + added(before, after),
        opened: after.opened,
        asked: after.asked,
        ..before
    }
    &&& all_qualify(added(before, after), before.min_length, before.max_length)
    &&& store_went_on(before, after)
    &&& count > 0 ==> after.connected()
}

/// `after` is `before` with a draw that failed with `error`: no token was
/// appended and nothing else changed, but that the store went on.
/// `NoMatchingWord` is the answer of an open store.
pub open spec fn drew_nothing(before: CodesView, after: CodesView, error: FluentError) -> bool {
    &&& after == CodesView { opened: after.opened, asked: after.asked, ..before }
    &&& store_went_on(before, after)
    &&& error == FluentError::NoMatchingWord ==> after.connected()
}

/// `after` is `before` with one word of the category drawn and appended: the
/// store was asked once more, for a word of that category's table with a
/// length in the range that the builder had, and its answer is the new last
/// token.
pub open spec fn drew(before: CodesView, after: CodesView, category: WordCategory) -> bool {
    &&& drew_words(before, after, 1)
    &&& after.asked == before.asked.push(before.question(category))
}

/// `after` is `before` with a draw of the category that failed with
/// `error`. Where the store could be opened it was asked once more, for a
/// word of that category's table with a length in the builder's range; where
/// it could not, it was not asked.
pub open spec fn failed_to_draw(
    before: CodesView,
    after: CodesView,
    category: WordCategory,
    error: FluentError,
) -> bool {
    &&& drew_nothing(before, after, error)
    &&& after.asked == if after.connected() {
        before.asked.push(before.question(category))
    } else {
        before.asked
    }
}

/// Whether the text is a numeric token: six decimal digits.
pub open spec fn is_six_digits(text: Seq<char>) -> bool {
    text.len() == 6 && all_digits(text)
}

impl View for FluentCodes {
    type V = CodesView;

    closed spec fn view(&self) -> CodesView {
        CodesView {
            tokens: token_texts(self.words@),
            joiner: self.joiner@,
            min_length: self.min_length as int,
            max_length: self.max_length as int,
            store: self.store@,
            opened: match self.connection {
                Some(store) => Some(store@.location),
                None => None,
            },
            asked: match self.connection {
                Some(store) => store@.asked,
                None => Seq::empty(),
            },
        }
    }
}

impl Default for FluentCodes {
    /// A builder with no tokens, the joiner `-`, words of exactly six
    /// characters, and the store at `./db/words_release.db`, not yet opened.
    fn default() -> (codes: FluentCodes)
        ensures
            codes@ == FluentCodes::default_view(),
    {
        let codes = FluentCodes {
            words: Vec::new(),
            connection: None,
            store: "./db/words_release.db".to_owned(),
            joiner: "-".to_owned(),
            min_length: 6,
            max_length: 6,
        };
        assert(token_texts(codes.words@) == Seq::<Seq<char>>::empty());
        codes
    }
}

impl ToString for FluentCodes {
    /// The code: the tokens in order with the joiner between them. The
    /// builder is left as it is and can go on drawing.
    fn to_string(&self) -> (code: String)
        ensures
            code@ == self@.code(),
    {
        render(&self.words, self.joiner.as_str())
    }
}

impl FluentCodes {
    /// What a new builder holds: no tokens, the joiner `-`, words of exactly
    /// six characters, and the store at `./db/words_release.db`, not yet
    /// opened and not yet asked anything.
    pub open spec fn default_view() -> CodesView {
        CodesView {
            tokens: Seq::empty(),
            joiner: "-"@,
            min_length: 6,
            max_length: 6,
            store: "./db/words_release.db"@,
            opened: None,
            asked: Seq::empty(),
        }
    }

    /// Sets what stands between two tokens in the rendered code.
    pub fn with_joiner(&mut self, joiner: String) -> (ret: &mut FluentCodes)
        ensures
            ret@ == (CodesView { joiner: joiner@, ..old(self)@ }),
            *final(self) == *final(ret),
    {
        self.joiner = joiner;
        self
    }

    /// Sets the least number of characters of the words drawn from now on.
    pub fn with_min_length(&mut self, length: i32) -> (ret: &mut FluentCodes)
        ensures
            ret@ == (CodesView { min_length: length as int, ..old(self)@ }),
            *final(self) == *final(ret),
    {
        self.min_length = length;
        self
    }

    /// Sets the greatest number of characters of the words drawn from now on.
    pub fn with_max_length(&mut self, length: i32) -> (ret: &mut FluentCodes)
        ensures
            ret@ == (CodesView { max_length: length as int, ..old(self)@ }),
            *final(self) == *final(ret),
    {
        self.max_length = length;
        self
    }

    /// Sets where the builder will open its word store: a path, or an SQLite
    /// URI. A builder opens its store once: on one that has opened it, the
    /// connection stays the one that it is, opened where it was.
    pub fn with_store(&mut self, location: String) -> (ret: &mut FluentCodes)
        ensures
            ret@ == (CodesView { store: location@, ..old(self)@ }),
            *final(self) == *final(ret),
    {
        self.store = location;
        self
    }

    /// The tokens drawn so far.
    pub fn tokens(&self) -> (tokens: &Vec<String>)
        ensures
            token_texts(tokens@) == self@.tokens,
    {
        &self.words
    }

    /// The queries put to the store so far, oldest first.
    pub fn questions(&self) -> (asked: Vec<String>)
        ensures
            token_texts(asked@) == self@.asked,
    {
        let mut asked: Vec<String> = Vec::new();
        match &self.connection {
            Some(store) => {
                let noted = store.questions();
                let mut i: usize = 0;
                while i < noted.len()
                    invariant
                        i <= noted.len(),
                        token_texts(asked@) == token_texts(noted@).take(i as int),
                    decreases noted.len() - i,
                {
                    let question = noted[i].clone();
                    proof {
                        assert(token_texts(asked@.push(question)) == token_texts(asked@).push(
                            question@,
                        ));
                        assert(token_texts(noted@).take(i + 1) == token_texts(noted@).take(
                            i as int,
                        ).push(noted[i as int]@));
                    }
                    asked.push(question);
                    i += 1;
                }
                assert(token_texts(noted@).take(i as int) == token_texts(noted@));
            },
            None => {
                assert(token_texts(asked@) == Seq::<Seq<char>>::empty());
            },
        }
        asked
    }

    /// Opens the connection to the store unless it is open already.
    ///
    /// On a builder whose connection is open this does nothing: the
    /// connection is kept and the store is not opened again. Otherwise the
    /// store is opened at the builder's location. Where that fails the error
    /// is `StoreUnavailable` and the builder stays as it was, unconnected, so
    /// that a later call tries again.
    pub fn connection_check(&mut self) -> (r: Result<(), FluentError>)
        ensures
            old(self)@.connected() ==> r is Ok && *final(self) == *old(self),
            r matches Err(error) ==> error == FluentError::StoreUnavailable && *final(self) == *old(
                self,
            ),
            !old(self)@.connected() && r is Ok ==> final(self)@ == (CodesView {
                opened: Some(old(self)@.store),
                ..old(self)@
            }),
    {
        if self.connection.is_none() {
            match OpenStore::open(self.store.as_str()) {
                Ok(store) => {
                    self.connection = Some(store);
                    Ok(())
                },
                Err(error) => Err(error),
            }
        } else {
            Ok(())
        }
    }

    /// Takes the store's answer to a draw. A word that fits the length range
    /// and is in lower case is appended as a token. Any other word, and the
    /// answer that no row was selected, is `NoMatchingWord`; a failed query
    /// is `StoreUnavailable`. In both cases the builder stays as it was.
    pub fn append_answer(&mut self, answer: Answer) -> (r: Result<&mut FluentCodes, FluentError>)
        ensures
            match answer {
                Answer::Word(word) => if qualifies(
                    word@,
                    old(self)@.min_length,
                    old(self)@.max_length,
                ) {
                    r matches Ok(ret) && ret@ == old(self)@.with_token(word@) && *final(self)
                        == *final(ret)
                } else {
                    r == Err::<&mut FluentCodes, _>(FluentError::NoMatchingWord) && *final(self)
                        == *old(self)
                },
                Answer::NoRows => r == Err::<&mut FluentCodes, _>(FluentError::NoMatchingWord)
                    && *final(self) == *old(self),
                Answer::Failed => r == Err::<&mut FluentCodes, _>(FluentError::StoreUnavailable)
                    && *final(self) == *old(self),
            },
    {
        match answer {
            Answer::Word(word) => {
                if word_qualifies(word.as_str(), self.min_length, self.max_length) {
                    proof {
                        assert(token_texts(self.words@.push(word)) == token_texts(
                            self.words@,
                        ).push(word@));
                    }
                    self.words.push(word);
                    Ok(self)
                } else {
                    Err(FluentError::NoMatchingWord)
                }
            },
            Answer::NoRows => Err(FluentError::NoMatchingWord),
            Answer::Failed => Err(FluentError::StoreUnavailable),
        }
    }

    /// Draws one word of the category from the store and appends it.
    ///
    /// The store is opened first if it is not open yet. It is then asked
    /// once, for a word picked at random among the words of the category's
    /// table that have a length in the builder's range. The word that it
    /// answers with is appended only if it does fit the range and is in lower
    /// case. The draw fails with `StoreUnavailable` where the store cannot be
    /// opened or read, and with `NoMatchingWord` where it has no such word,
    /// which is always so for a range whose lower end is above its upper end.
    /// A failed draw appends nothing.
    pub fn select_word(&mut self, category: WordCategory) -> (r: Result<
        &mut FluentCodes,
        FluentError,
    >)
        ensures
            match r {
                Ok(ret) => drew(old(self)@, ret@, category) && *final(self) == *final(ret),
                Err(error) => failed_to_draw(old(self)@, final(self)@, category, error),
            },
            old(self)@.min_length > old(self)@.max_length ==> r is Err,
    {
        match self.connection_check() {
            Ok(()) => {},
            Err(error) => {
                return Err(error);
            },
        }
        let ghost opened = self@;
        let mut store = self.connection.take().unwrap();
        let answer = ask(&mut store, category, self.min_length, self.max_length);
        self.connection = Some(store);
        proof {
            let asked = self@;
            assert(asked == opened.with_question(old(self)@.question(category)));
            assert(old(self)@.asked.is_prefix_of(asked.asked));
            if answer is Word && qualifies(answer->Word_0@, asked.min_length, asked.max_length) {
                lemma_drew_one(old(self)@, asked, answer->Word_0@);
            }
        }
        self.append_answer(answer)
    }

    /// Draws an adjective: a word of the `Adjective` category, as
    /// [`FluentCodes::select_word`] draws it.
    pub fn adjective(&mut self) -> (r: Result<&mut FluentCodes, FluentError>)
        ensures
            match r {
                Ok(ret) => drew(old(self)@, ret@, WordCategory::Adjective) && *final(self)
                    == *final(ret),
                Err(error) => failed_to_draw(
                    old(self)@,
                    final(self)@,
                    WordCategory::Adjective,
                    error,
                ),
            },
            old(self)@.min_length > old(self)@.max_length ==> r is Err,
    {
        self.select_word(WordCategory::Adjective)
    }

    /// Draws an adposition: a word of the `Adposition` category, as
    /// [`FluentCodes::select_word`] draws it.
    pub fn adposition(&mut self) -> (r: Result<&mut FluentCodes, FluentError>)
        ensures
            match r {
                Ok(ret) => drew(old(self)@, ret@, WordCategory::Adposition) && *final(self)
                    == *final(ret),
                Err(error) => failed_to_draw(
                    old(self)@,
                    final(self)@,
                    WordCategory::Adposition,
                    error,
                ),
            },
            old(self)@.min_length > old(self)@.max_length ==> r is Err,
    {
        self.select_word(WordCategory::Adposition)
    }

    /// Draws an adverb: a word of the `Adverb` category, as
    /// [`FluentCodes::select_word`] draws it.
    pub fn adverb(&mut self) -> (r: Result<&mut FluentCodes, FluentError>)
        ensures
            match r {
                Ok(ret) => drew(old(self)@, ret@, WordCategory::Adverb) && *final(self)
                    == *final(ret),
                Err(error) => failed_to_draw(
                    old(self)@,
                    final(self)@,
                    WordCategory::Adverb,
                    error,
                ),
            },
            old(self)@.min_length > old(self)@.max_length ==> r is Err,
    {
        self.select_word(WordCategory::Adverb)
    }

    /// Draws an auxiliary: a word of the `Auxiliary` category, as
    /// [`FluentCodes::select_word`] draws it.
    pub fn auxiliary(&mut self) -> (r: Result<&mut FluentCodes, FluentError>)
        ensures
            match r {
                Ok(ret) => drew(old(self)@, ret@, WordCategory::Auxiliary) && *final(self)
                    == *final(ret),
                Err(error) => failed_to_draw(
                    old(self)@,
                    final(self)@,
                    WordCategory::Auxiliary,
                    error,
                ),
            },
            old(self)@.min_length > old(self)@.max_length ==> r is Err,
    {
        self.select_word(WordCategory::Auxiliary)
    }

    /// Draws a coordinating conjunction: a word of the `CoordinatingConjunction` category, as
    /// [`FluentCodes::select_word`] draws it.
    pub fn coordinating_conjunction(&mut self) -> (r: Result<&mut FluentCodes, FluentError>)
        ensures
            match r {
                Ok(ret) => drew(old(self)@, ret@, WordCategory::CoordinatingConjunction) && *final(self)
                    == *final(ret),
                Err(error) => failed_to_draw(
                    old(self)@,
                    final(self)@,
                    WordCategory::CoordinatingConjunction,
                    error,
                ),
            },
            old(self)@.min_length > old(self)@.max_length ==> r is Err,
    {
        self.select_word(WordCategory::CoordinatingConjunction)
    }

    /// Draws a determiner: a word of the `Determiner` category, as
    /// [`FluentCodes::select_word`] draws it.
    pub fn determiner(&mut self) -> (r: Result<&mut FluentCodes, FluentError>)
        ensures
            match r {
                Ok(ret) => drew(old(self)@, ret@, WordCategory::Determiner) && *final(self)
                    == *final(ret),
                Err(error) => failed_to_draw(
                    old(self)@,
                    final(self)@,
                    WordCategory::Determiner,
                    error,
                ),
            },
            old(self)@.min_length > old(self)@.max_length ==> r is Err,
    {
        self.select_word(WordCategory::Determiner)
    }

    /// Draws an interjection: a word of the `Interjection` category, as
    /// [`FluentCodes::select_word`] draws it.
    pub fn interjection(&mut self) -> (r: Result<&mut FluentCodes, FluentError>)
        ensures
            match r {
                Ok(ret) => drew(old(self)@, ret@, WordCategory::Interjection) && *final(self)
                    == *final(ret),
                Err(error) => failed_to_draw(
                    old(self)@,
                    final(self)@,
                    WordCategory::Interjection,
                    error,
                ),
            },
            old(self)@.min_length > old(self)@.max_length ==> r is Err,
    {
        self.select_word(WordCategory::Interjection)
    }

    /// Draws a noun: a word of the `Noun` category, as
    /// [`FluentCodes::select_word`] draws it.
    pub fn noun(&mut self) -> (r: Result<&mut FluentCodes, FluentError>)
        ensures
            match r {
                Ok(ret) => drew(old(self)@, ret@, WordCategory::Noun) && *final(self)
                    == *final(ret),
                Err(error) => failed_to_draw(
                    old(self)@,
                    final(self)@,
                    WordCategory::Noun,
                    error,
                ),
            },
            old(self)@.min_length > old(self)@.max_length ==> r is Err,
    {
        self.select_word(WordCategory::Noun)
    }

    /// Draws a particle: a word of the `Particle` category, as
    /// [`FluentCodes::select_word`] draws it.
    pub fn particle(&mut self) -> (r: Result<&mut FluentCodes, FluentError>)
        ensures
            match r {
                Ok(ret) => drew(old(self)@, ret@, WordCategory::Particle) && *final(self)
                    == *final(ret),
                Err(error) => failed_to_draw(
                    old(self)@,
                    final(self)@,
                    WordCategory::Particle,
                    error,
                ),
            },
            old(self)@.min_length > old(self)@.max_length ==> r is Err,
    {
        self.select_word(WordCategory::Particle)
    }

    /// Draws a pronoun: a word of the `Pronoun` category, as
    /// [`FluentCodes::select_word`] draws it.
    pub fn pronoun(&mut self) -> (r: Result<&mut FluentCodes, FluentError>)
        ensures
            match r {
                Ok(ret) => drew(old(self)@, ret@, WordCategory::Pronoun) && *final(self)
                    == *final(ret),
                Err(error) => failed_to_draw(
                    old(self)@,
                    final(self)@,
                    WordCategory::Pronoun,
                    error,
                ),
            },
            old(self)@.min_length > old(self)@.max_length ==> r is Err,
    {
        self.select_word(WordCategory::Pronoun)
    }

    /// Draws a proper noun: a word of the `ProperNoun` category, as
    /// [`FluentCodes::select_word`] draws it.
    pub fn proper_noun(&mut self) -> (r: Result<&mut FluentCodes, FluentError>)
        ensures
            match r {
                Ok(ret) => drew(old(self)@, ret@, WordCategory::ProperNoun) && *final(self)
                    == *final(ret),
                Err(error) => failed_to_draw(
                    old(self)@,
                    final(self)@,
                    WordCategory::ProperNoun,
                    error,
                ),
            },
            old(self)@.min_length > old(self)@.max_length ==> r is Err,
    {
        self.select_word(WordCategory::ProperNoun)
    }

    /// Draws a punctuation mark: a word of the `Punctuation` category, as
    /// [`FluentCodes::select_word`] draws it.
    pub fn punctuation(&mut self) -> (r: Result<&mut FluentCodes, FluentError>)
        ensures
            match r {
                Ok(ret) => drew(old(self)@, ret@, WordCategory::Punctuation) && *final(self)
                    == *final(ret),
                Err(error) => failed_to_draw(
                    old(self)@,
                    final(self)@,
                    WordCategory::Punctuation,
                    error,
                ),
            },
            old(self)@.min_length > old(self)@.max_length ==> r is Err,
    {
        self.select_word(WordCategory::Punctuation)
    }

    /// Draws a subordinating conjunction: a word of the `SubordinatingConjunction` category, as
    /// [`FluentCodes::select_word`] draws it.
    pub fn subordinating_conjunction(&mut self) -> (r: Result<&mut FluentCodes, FluentError>)
        ensures
            match r {
                Ok(ret) => drew(old(self)@, ret@, WordCategory::SubordinatingConjunction) && *final(self)
                    == *final(ret),
                Err(error) => failed_to_draw(
                    old(self)@,
                    final(self)@,
                    WordCategory::SubordinatingConjunction,
                    error,
                ),
            },
            old(self)@.min_length > old(self)@.max_length ==> r is Err,
    {
        self.select_word(WordCategory::SubordinatingConjunction)
    }

    /// Draws a symbol: a word of the `Symbol` category, as
    /// [`FluentCodes::select_word`] draws it.
    pub fn symbol(&mut self) -> (r: Result<&mut FluentCodes, FluentError>)
        ensures
            match r {
                Ok(ret) => drew(old(self)@, ret@, WordCategory::Symbol) && *final(self)
                    == *final(ret),
                Err(error) => failed_to_draw(
                    old(self)@,
                    final(self)@,
                    WordCategory::Symbol,
                    error,
                ),
            },
            old(self)@.min_length > old(self)@.max_length ==> r is Err,
    {
        self.select_word(WordCategory::Symbol)
    }

    /// Draws a verb: a word of the `Verb` category, as
    /// [`FluentCodes::select_word`] draws it.
    pub fn verb(&mut self) -> (r: Result<&mut FluentCodes, FluentError>)
        ensures
            match r {
                Ok(ret) => drew(old(self)@, ret@, WordCategory::Verb) && *final(self)
                    == *final(ret),
                Err(error) => failed_to_draw(
                    old(self)@,
                    final(self)@,
                    WordCategory::Verb,
                    error,
                ),
            },
            old(self)@.min_length > old(self)@.max_length ==> r is Err,
    {
        self.select_word(WordCategory::Verb)
    }

    /// Appends the number as a numeric token: in decimal, with zeros in front
    /// up to six places. A number up to 999999 gives exactly six digits.
    pub fn append_number(&mut self, number: u32) -> (ret: &mut FluentCodes)
        ensures
            ret@ == old(self)@.with_token(zero_padded(number as nat, 6)),
            *final(self) == *final(ret),
    {
        let token = zero_padded_text(number, 6);
        proof {
            assert(token_texts(self.words@.push(token)) == token_texts(self.words@).push(token@));
        }
        self.words.push(token);
        self
    }

    /// Draws a number from 0 to 999999, each as likely as any other, and
    /// appends it as six digits, with zeros in front of a short one. The
    /// store is not touched, and the draw cannot fail.
    pub fn six_digits(&mut self) -> (ret: &mut FluentCodes)
        ensures
            exists|number: nat|
                number <= 999_999 && ret@ == old(self)@.with_token(
                    #[trigger] zero_padded(number, 6),
                ),
            is_six_digits(ret@.tokens.last()),
            *final(self) == *final(ret),
    {
        let number = draw_up_to(999_999);
        proof {
            lemma_million();
            lemma_zero_padded(number as nat, 6);
        }
        self.append_number(number)
    }
}

/// Ten to the sixth is a million.
pub proof fn lemma_million()
    ensures
        pow10(6) == 1_000_000,
{
    reveal_with_fuel(pow10, 7);
}

/// The numeric tokens are the numbers from 0 to 999999 in six places: every
/// text of six digits is one of them, and each of them is six digits.
pub proof fn lemma_six_digits(text: Seq<char>)
    ensures
        is_six_digits(text) <==> exists|number: nat|
            number <= 999_999 && text == #[trigger] zero_padded(number, 6),
{
    lemma_million();
    lemma_padded_texts(text, 6);
    if is_six_digits(text) {
        let n = choose|n: nat| n < pow10(6) && text == #[trigger] zero_padded(n, 6);
        assert(n <= 999_999 && text == zero_padded(n, 6));
    }
    if exists|number: nat| number <= 999_999 && text == #[trigger] zero_padded(number, 6) {
        let n = choose|number: nat| number <= 999_999 && text == #[trigger] zero_padded(number, 6);
        assert(n < pow10(6) && text == zero_padded(n, 6));
    }
}

/// The word that a draw appends is the last token: it has a length in the
/// range that the builder had at the draw, and is in lower case; the tokens
/// before it are those that were there. In the code it stands at the end,
/// behind the joiner if there was a token before it.
pub proof fn lemma_drawn_word(before: CodesView, after: CodesView)
    requires
        drew_words(before, after, 1),
    ensures
        after.tokens == before.tokens.push(after.tokens.last()),
        qualifies(after.tokens.last(), before.min_length, before.max_length),
        before.min_length <= after.tokens.last().len() <= before.max_length,
        after.code() == if before.tokens.len() == 0 {
            after.tokens.last()
        } else {
            before.code() + before.joiner + after.tokens.last()
        },
{
    let drawn = added(before, after);
    assert(drawn.len() == 1);
    assert(drawn[0] == after.tokens.last());
    assert(after.tokens == before.tokens.push(after.tokens.last()));
    if before.tokens.len() > 0 {
        lemma_joined_push(before.tokens, after.tokens.last(), before.joiner);
    }
}

/// A builder whose store went on and that appends one qualifying word to
/// what it held has drawn one word.
pub proof fn lemma_drew_one(before: CodesView, asked: CodesView, word: Seq<char>)
    requires
        asked == (CodesView { opened: asked.opened, asked: asked.asked, ..before }),
        store_went_on(before, asked),
        asked.connected(),
        qualifies(word, before.min_length, before.max_length),
    ensures
        drew_words(before, asked.with_token(word), 1),
{
    let after = asked.with_token(word);
    assert(added(before, after) == seq![word]);
    assert(after.tokens == before.tokens + added(before, after));
}

} // verus!

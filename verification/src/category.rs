//! The grammatical categories that words are drawn from.

use vstd::prelude::*;

verus! {

/// A part of speech. Each category has one word list in the store, and each
/// word list belongs to one category.
#[derive(Clone, Copy, Debug, PartialEq, Eq, Structural)]
pub enum WordCategory {
    Adjective,
    Adposition,
    Adverb,
    Auxiliary,
    CoordinatingConjunction,
    Determiner,
    Interjection,
    Noun,
    Particle,
    Pronoun,
    ProperNoun,
    Punctuation,
    SubordinatingConjunction,
    Symbol,
    Verb,
}

impl WordCategory {
    /// The name of the table that holds the category's words.
    pub open spec fn table_name(self) -> Seq<char> {
        match self {
            WordCategory::Adjective => "adj"@,
            WordCategory::Adposition => "adp"@,
            WordCategory::Adverb => "adv"@,
            WordCategory::Auxiliary => "aux"@,
            WordCategory::CoordinatingConjunction => "cconj"@,
            WordCategory::Determiner => "det"@,
            WordCategory::Interjection => "intj"@,
            WordCategory::Noun => "noun"@,
            WordCategory::Particle => "part"@,
            WordCategory::Pronoun => "pron"@,
            WordCategory::ProperNoun => "propn"@,
            WordCategory::Punctuation => "punct"@,
            WordCategory::SubordinatingConjunction => "sconj"@,
            WordCategory::Symbol => "sym"@,
            WordCategory::Verb => "verb"@,
        }
    }

    /// The name of the table that holds the category's words.
    pub fn table(self) -> (name: &'static str)
        ensures
            name@ == self.table_name(),
    {
        match self {
            WordCategory::Adjective => "adj",
            WordCategory::Adposition => "adp",
            WordCategory::Adverb => "adv",
            WordCategory::Auxiliary => "aux",
            WordCategory::CoordinatingConjunction => "cconj",
            WordCategory::Determiner => "det",
            WordCategory::Interjection => "intj",
            WordCategory::Noun => "noun",
            WordCategory::Particle => "part",
            WordCategory::Pronoun => "pron",
            WordCategory::ProperNoun => "propn",
            WordCategory::Punctuation => "punct",
            WordCategory::SubordinatingConjunction => "sconj",
            WordCategory::Symbol => "sym",
            WordCategory::Verb => "verb",
        }
    }
}

/// A table name is three to five lower-case letters: it can stand in a query
/// as it is.
pub open spec fn is_plain_name(name: Seq<char>) -> bool {
    &&& 3 <= name.len() <= 5
    &&& forall|i: int| 0 <= i < name.len() ==> 'a' <= #[trigger] name[i] <= 'z'
}

/// Every category's table name is a plain name.
pub proof fn lemma_table_names_plain(category: WordCategory)
    ensures
        is_plain_name(category.table_name()),
{
    reveal_table_names();
}

/// No two categories share a table.
pub proof fn lemma_tables_distinct(a: WordCategory, b: WordCategory)
    requires
        a.table_name() == b.table_name(),
    ensures
        a == b,
{
    reveal_table_names();
    let x = a.table_name();
    let y = b.table_name();
    assert(x.len() == y.len());
    assert(x[0] == y[0]);
    assert(x[1] == y[1]);
    assert(x[2] == y[2]);
}

/// What the table names are, character by character.
proof fn reveal_table_names()
    ensures
        "adj"@ == seq!['a', 'd', 'j'],
        "adp"@ == seq!['a', 'd', 'p'],
        "adv"@ == seq!['a', 'd', 'v'],
        "aux"@ == seq!['a', 'u', 'x'],
        "cconj"@ == seq!['c', 'c', 'o', 'n', 'j'],
        "det"@ == seq!['d', 'e', 't'],
        "intj"@ == seq!['i', 'n', 't', 'j'],
        "noun"@ == seq!['n', 'o', 'u', 'n'],
        "part"@ == seq!['p', 'a', 'r', 't'],
        "pron"@ == seq!['p', 'r', 'o', 'n'],
        "propn"@ == seq!['p', 'r', 'o', 'p', 'n'],
        "punct"@ == seq!['p', 'u', 'n', 'c', 't'],
        "sconj"@ == seq!['s', 'c', 'o', 'n', 'j'],
        "sym"@ == seq!['s', 'y', 'm'],
        "verb"@ == seq!['v', 'e', 'r', 'b'],
{
    reveal_strlit("adj");
    reveal_strlit("adp");
    reveal_strlit("adv");
    reveal_strlit("aux");
    reveal_strlit("cconj");
    reveal_strlit("det");
    reveal_strlit("intj");
    reveal_strlit("noun");
    reveal_strlit("part");
    reveal_strlit("pron");
    reveal_strlit("propn");
    reveal_strlit("punct");
    reveal_strlit("sconj");
    reveal_strlit("sym");
    reveal_strlit("verb");
    assert("adj"@ =~= seq!['a', 'd', 'j']);
    assert("adp"@ =~= seq!['a', 'd', 'p']);
    assert("adv"@ =~= seq!['a', 'd', 'v']);
    assert("aux"@ =~= seq!['a', 'u', 'x']);
    assert("cconj"@ =~= seq!['c', 'c', 'o', 'n', 'j']);
    assert("det"@ =~= seq!['d', 'e', 't']);
    assert("intj"@ =~= seq!['i', 'n', 't', 'j']);
    assert("noun"@ =~= seq!['n', 'o', 'u', 'n']);
    assert("part"@ =~= seq!['p', 'a', 'r', 't']);
    assert("pron"@ =~= seq!['p', 'r', 'o', 'n']);
    assert("propn"@ =~= seq!['p', 'r', 'o', 'p', 'n']);
    assert("punct"@ =~= seq!['p', 'u', 'n', 'c', 't']);
    assert("sconj"@ =~= seq!['s', 'c', 'o', 'n', 'j']);
    assert("sym"@ =~= seq!['s', 'y', 'm']);
    assert("verb"@ =~= seq!['v', 'e', 'r', 'b']);
}

} // verus!

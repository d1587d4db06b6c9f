use fluent_codes_rust::category::WordCategory;
use fluent_codes_rust::query::sample_sql;
use fluent_codes_rust::word::{word_is_lowercase, word_qualifies};

fn categories() -> Vec<(WordCategory, &'static str)> {
    vec![
        (WordCategory::Adjective, "adj"),
        (WordCategory::Adposition, "adp"),
        (WordCategory::Adverb, "adv"),
        (WordCategory::Auxiliary, "aux"),
        (WordCategory::CoordinatingConjunction, "cconj"),
        (WordCategory::Determiner, "det"),
        (WordCategory::Interjection, "intj"),
        (WordCategory::Noun, "noun"),
        (WordCategory::Particle, "part"),
        (WordCategory::Pronoun, "pron"),
        (WordCategory::ProperNoun, "propn"),
        (WordCategory::Punctuation, "punct"),
        (WordCategory::SubordinatingConjunction, "sconj"),
        (WordCategory::Symbol, "sym"),
        (WordCategory::Verb, "verb"),
    ]
}

#[test]
fn each_category_has_its_table() {
    for (category, table) in categories() {
        assert_eq!(category.table(), table);
    }
}

#[test]
fn no_two_categories_share_a_table() {
    let all = categories();
    for (i, (a, _)) in all.iter().enumerate() {
        for (j, (b, _)) in all.iter().enumerate() {
            assert_eq!(a.table() == b.table(), i == j);
        }
    }
}

#[test]
fn query_for_the_usual_range() {
    assert_eq!(
        sample_sql(WordCategory::Adjective, 6, 6),
        "SELECT LOWER(word) FROM adj where length(word) between 6 and  6 ORDER BY RANDOM() LIMIT 1"
    );
}

#[test]
fn query_for_a_wider_range() {
    assert_eq!(
        sample_sql(WordCategory::ProperNoun, 3, 8),
        "SELECT LOWER(word) FROM propn where length(word) between 3 and  8 ORDER BY RANDOM() LIMIT 1"
    );
}

#[test]
fn query_for_a_range_with_negative_ends() {
    assert_eq!(
        sample_sql(WordCategory::Verb, -5, i32::MIN),
        "SELECT LOWER(word) FROM verb where length(word) between -5 and  -2147483648 ORDER BY RANDOM() LIMIT 1"
    );
}

#[test]
fn query_agrees_with_format_for_every_category() {
    for (category, table) in categories() {
        for (min, max) in [(6, 6), (3, 8), (50, 60), (8, 3), (0, i32::MAX)] {
            let expected = format!(
                "SELECT LOWER(word) FROM {} where length(word) between {} and  {} \
                ORDER BY RANDOM() LIMIT 1",
                table, min, max
            );
            assert_eq!(sample_sql(category, min, max), expected);
        }
    }
}

#[test]
fn lowercase_words() {
    assert!(word_is_lowercase(""));
    assert!(word_is_lowercase("vacuum"));
    assert!(word_is_lowercase("jpg-2000"));
    assert!(word_is_lowercase("naïve"));
    assert!(word_is_lowercase("École"));
}

#[test]
fn words_with_capitals() {
    assert!(!word_is_lowercase("Vacuum"));
    assert!(!word_is_lowercase("vacuuM"));
    assert!(!word_is_lowercase("vaCuum"));
    assert!(!word_is_lowercase("A"));
    assert!(!word_is_lowercase("Z"));
}

#[test]
fn neighbours_of_the_capitals_are_not_capitals() {
    assert!(word_is_lowercase("@"));
    assert!(word_is_lowercase("["));
}

#[test]
fn word_in_the_range_qualifies() {
    assert!(word_qualifies("vacuum", 6, 6));
    assert!(word_qualifies("vacuum", 3, 8));
    assert!(word_qualifies("jpg", 3, 8));
    assert!(word_qualifies("reliably", 3, 8));
    assert!(word_qualifies("", 0, 0));
    assert!(word_qualifies("abc", -4, 3));
}

#[test]
fn word_outside_the_range_does_not_qualify() {
    assert!(!word_qualifies("vacuum", 7, 9));
    assert!(!word_qualifies("vacuum", 1, 5));
    assert!(!word_qualifies("vacuum", 50, 60));
    assert!(!word_qualifies("", 1, 5));
    assert!(!word_qualifies("abc", -4, -1));
}

#[test]
fn no_word_qualifies_for_an_upside_down_range() {
    assert!(!word_qualifies("vacuum", 8, 3));
    assert!(!word_qualifies("vacuum", 7, 6));
    assert!(!word_qualifies("", 1, 0));
}

#[test]
fn word_with_a_capital_does_not_qualify() {
    assert!(!word_qualifies("Vacuum", 6, 6));
}

#[test]
fn length_is_counted_in_characters() {
    assert!(word_qualifies("naïve", 5, 5));
    assert!(!word_qualifies("naïve", 6, 6));
    assert!(word_qualifies("日本語", 3, 3));
}

use rand::rngs::StdRng;
use rand::SeedableRng;
use tieng_viet::word::{
    Class, ClassifierNoun, CommonNoun, Demonstrative, GrammarError, ProperNoun, Verb, Word,
};

fn word(content: &str, meaning: &str, class: Class) -> Word {
    Word::new(content.to_string(), meaning.to_string(), class)
}

fn proper(is_subject: bool, is_object: bool) -> Class {
    Class::ProperNoun(ProperNoun { is_subject, is_object })
}

#[test]
fn test_defaults() {
    let default_words = Word::defaults().unwrap();

    // Ensure there are default words
    assert!(default_words.iter().next().is_some());
}

#[test]
fn defaults_cover_every_source_class() {
    let words = Word::defaults().unwrap();
    assert!(words.iter().any(|w| w.class() == Class::ClassifierNoun(ClassifierNoun {})));
    assert!(words.iter().any(|w| w.class() == Class::Verb(Verb {})));
    assert!(words.iter().any(|w| w.class() == Class::Demonstrative(Demonstrative {})));
    assert!(words.iter().any(|w| matches!(w.class(), Class::ProperNoun(_))));
}

#[test]
fn proper_nouns_match_on_a_shared_role() {
    assert!(proper(true, false).matches(&proper(true, true)));
    assert!(proper(false, true).matches(&proper(true, true)));
    assert!(!proper(true, false).matches(&proper(false, true)));
    assert!(!proper(false, false).matches(&proper(false, false)));
    assert!(!proper(true, true).matches(&Class::Verb(Verb {})));
}

#[test]
fn other_classes_match_on_the_variant() {
    assert!(Class::CommonNoun(CommonNoun::Item).matches(&Class::CommonNoun(CommonNoun::Time)));
    assert!(Class::Verb(Verb {}).matches(&Class::Verb(Verb {})));
    assert!(Class::Adjective.matches(&Class::Adjective));
    assert!(!Class::Adjective.matches(&Class::Adverb));
    assert!(!Class::Demonstrative(Demonstrative {}).matches(&Class::ClassifierNoun(ClassifierNoun {})));
}

#[test]
fn matching_indices_lists_matches_in_order() {
    let words = vec![
        word("đi", "go", Class::Verb(Verb {})),
        word("này", "this", Class::Demonstrative(Demonstrative {})),
        word("ăn", "eat", Class::Verb(Verb {})),
    ];
    assert_eq!(Word::matching_indices(&words, Class::Verb(Verb {})), vec![0, 2]);
    assert_eq!(Word::matching_indices(&words, Class::Demonstrative(Demonstrative {})), vec![1]);
    assert!(Word::matching_indices(&words, Class::Adverb).is_empty());
}

#[test]
fn pick_returns_the_only_matching_word() {
    let words = vec![
        word("này", "this", Class::Demonstrative(Demonstrative {})),
        word("đi", "go", Class::Verb(Verb {})),
        word("chiếc", "(for sets)", Class::ClassifierNoun(ClassifierNoun {})),
    ];
    for seed in 0..20 {
        let mut rng = StdRng::seed_from_u64(seed);
        let w = Word::random_default(&words, &mut rng, Class::Verb(Verb {})).unwrap();
        assert_eq!(w.content(), "đi");
        assert_eq!(w.meaning(), "go");
    }
}

#[test]
fn pick_never_returns_a_non_matching_word() {
    let words = vec![
        word("Ý", "Italy", proper(true, false)),
        word("Lan", "Lan", proper(false, true)),
        word("Hà Nội", "Hanoi", proper(true, true)),
        word("đi", "go", Class::Verb(Verb {})),
    ];
    let mut seen_first = false;
    let mut seen_third = false;
    for seed in 0..50 {
        let mut rng = StdRng::seed_from_u64(seed);
        let w = Word::random_default(&words, &mut rng, proper(true, false)).unwrap();
        assert!(w.class().matches(&proper(true, false)));
        seen_first |= w.content() == "Ý";
        seen_third |= w.content() == "Hà Nội";
    }
    assert!(seen_first && seen_third);
}

#[test]
fn pick_without_a_match_is_no_match() {
    let words = vec![word("đi", "go", Class::Verb(Verb {}))];
    let mut rng = StdRng::seed_from_u64(1);
    let r = Word::random_default(&words, &mut rng, Class::Adverb);
    assert!(matches!(r, Err(GrammarError::NoMatch)));
    let r = Word::random_default(&Vec::new(), &mut rng, Class::Verb(Verb {}));
    assert!(matches!(r, Err(GrammarError::NoMatch)));
}

#[test]
fn cloned_word_is_equal() {
    let w = word("đi", "go", Class::Verb(Verb {}));
    let c = w.clone();
    assert_eq!(c.content(), "đi");
    assert_eq!(c.meaning(), "go");
    assert_eq!(c.class(), Class::Verb(Verb {}));
}

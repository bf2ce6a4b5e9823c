use rand::rngs::StdRng;
use rand::SeedableRng;
use tieng_viet::defaults_parser::parse_structures;
use tieng_viet::grammar::{sentence_slot_of, Grammar, Slot};
use tieng_viet::sentence::Sentence;
use tieng_viet::word::{Class, GrammarError, ProperNoun, Verb, Word, WordSource};

fn word(content: &str, meaning: &str, class: Class) -> Word {
    Word::new(content.to_string(), meaning.to_string(), class)
}

fn proper(is_subject: bool, is_object: bool) -> Class {
    Class::ProperNoun(ProperNoun { is_subject, is_object })
}

fn contents(words: &[Word]) -> Vec<String> {
    words.iter().map(|w| w.to_string()).collect()
}

#[test]
fn sentence_test_allowed() {
    let allowed = Sentence::allowed_structures();
    assert!(allowed.len() > 0);
}

#[test]
fn test_generate() {
    let grammar = Grammar::defaults().unwrap();
    let mut rng = StdRng::from_entropy();

    let words = Sentence::generate(&grammar, &mut rng, &vec![]).unwrap();
    assert!(!words.is_empty());
}

#[test]
fn built_in_grammar_generates_with_any_seed() {
    let grammar = Grammar::defaults().unwrap();
    for seed in 0..30 {
        let mut rng = StdRng::seed_from_u64(seed);
        let words = Sentence::generate(&grammar, &mut rng, &vec![]).unwrap();
        assert!(words.len() >= 2);
    }
}

#[test]
fn sentence_slots() {
    assert_eq!(sentence_slot_of("SUBJECT"), Some(Slot::Subject));
    assert_eq!(sentence_slot_of("object"), Some(Slot::Object));
    assert_eq!(sentence_slot_of("vp"), Some(Slot::VerbPhrase));
    assert_eq!(sentence_slot_of("VERB"), Some(Slot::Verb));
    assert_eq!(sentence_slot_of("HEAD"), None);
    assert_eq!(sentence_slot_of("NOUN"), None);
}

#[test]
fn subject_and_object_are_never_swapped() {
    let grammar = Grammar {
        words: vec![
            word("Sài Gòn", "Saigon", proper(false, true)),
            word("đi", "go", Class::Verb(Verb {})),
            word("Lan", "Lan", proper(true, false)),
        ],
        noun_phrases: parse_structures("HEAD"),
        verb_phrases: parse_structures("VERB"),
        sentences: parse_structures("SUBJECT + OBJECT"),
    };
    for seed in 0..20 {
        let mut rng = StdRng::seed_from_u64(seed);
        let words = Sentence::generate(&grammar, &mut rng, &vec![]).unwrap();
        assert_eq!(contents(&words), vec!["Lan", "Sài Gòn"]);
    }
}

fn italy_grammar(sentences: &str) -> Grammar {
    let mut words = Word::from_source("chiếc: (for sets)", WordSource::Classifiers).unwrap();
    words.append(&mut Word::from_source("Ý (SUBJECT): Italy", WordSource::ProperNouns).unwrap());
    words.append(&mut Word::from_source("đi: go", WordSource::Verbs).unwrap());
    Grammar {
        words,
        noun_phrases: parse_structures("HEAD"),
        verb_phrases: parse_structures("VERB"),
        sentences: parse_structures(sentences),
    }
}

#[test]
fn italy_goes() {
    let grammar = italy_grammar("SUBJECT + VP");
    for seed in 0..10 {
        let mut rng = StdRng::seed_from_u64(seed);
        let words = Sentence::generate(&grammar, &mut rng, &vec![]).unwrap();
        assert_eq!(contents(&words), vec!["Ý", "đi"]);
        assert_eq!(words[0].meaning(), "Italy");
        assert_eq!(words[1].class(), Class::Verb(Verb {}));
    }
}

#[test]
fn italy_goes_with_a_verb_slot() {
    let grammar = italy_grammar("SUBJECT + VERB");
    for seed in 0..10 {
        let mut rng = StdRng::seed_from_u64(seed);
        let words = Sentence::generate(&grammar, &mut rng, &vec![]).unwrap();
        assert_eq!(contents(&words), vec!["Ý", "đi"]);
    }
}

#[test]
fn bogus_token_fails_the_whole_sentence() {
    let grammar = italy_grammar("SUBJECT + VP + BOGUS");
    for seed in 0..5 {
        let mut rng = StdRng::seed_from_u64(seed);
        let r = Sentence::generate(&grammar, &mut rng, &vec![]);
        assert!(matches!(r, Err(GrammarError::UnrecognizedToken)));
    }
}

#[test]
fn sentence_without_structures_is_no_structure() {
    let grammar = italy_grammar("");
    let mut rng = StdRng::seed_from_u64(4);
    let r = Sentence::generate(&grammar, &mut rng, &vec![]);
    assert!(matches!(r, Err(GrammarError::NoStructure)));
}

#[test]
fn object_without_object_noun_is_no_match() {
    let grammar = italy_grammar("SUBJECT + VP + OBJECT");
    let mut rng = StdRng::seed_from_u64(4);
    let r = Sentence::generate(&grammar, &mut rng, &vec![]);
    assert!(matches!(r, Err(GrammarError::NoMatch)));
}

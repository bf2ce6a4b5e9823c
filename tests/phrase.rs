use rand::rngs::StdRng;
use rand::SeedableRng;
use tieng_viet::defaults_parser::parse_structures;
use tieng_viet::grammar::{noun_phrase_slot, verb_phrase_slot, Grammar, Slot};
use tieng_viet::phrase::{NounPhrase, VerbPhrase};
use tieng_viet::word::{
    Class, ClassifierNoun, Demonstrative, GrammarError, ProperNoun, Verb, Word,
};

fn word(content: &str, meaning: &str, class: Class) -> Word {
    Word::new(content.to_string(), meaning.to_string(), class)
}

fn proper(is_subject: bool, is_object: bool) -> Class {
    Class::ProperNoun(ProperNoun { is_subject, is_object })
}

fn grammar(words: Vec<Word>, noun_phrases: &str, verb_phrases: &str) -> Grammar {
    Grammar {
        words,
        noun_phrases: parse_structures(noun_phrases),
        verb_phrases: parse_structures(verb_phrases),
        sentences: Vec::new(),
    }
}

fn contents(words: &[Word]) -> Vec<String> {
    words.iter().map(|w| w.to_string()).collect()
}

#[test]
fn phrase_test_allowed() {
    let allowed = NounPhrase::allowed_structures();
    assert!(allowed.len() > 0);

    let allowed = VerbPhrase::allowed_structures();
    assert!(allowed.len() > 0);
}

#[test]
fn slots_ignore_ascii_case() {
    assert_eq!(noun_phrase_slot("HEAD"), Some(Slot::Head));
    assert_eq!(noun_phrase_slot("head"), Some(Slot::Head));
    assert_eq!(noun_phrase_slot("Classifier"), Some(Slot::Classifier));
    assert_eq!(noun_phrase_slot("demonstrative"), Some(Slot::Demonstrative));
    assert_eq!(noun_phrase_slot("HEADS"), None);
    assert_eq!(noun_phrase_slot("VERB"), None);
    assert_eq!(verb_phrase_slot("verb"), Some(Slot::Verb));
    assert_eq!(verb_phrase_slot("NOUN"), Some(Slot::Noun));
    assert_eq!(verb_phrase_slot("HEAD"), None);
}

#[test]
fn head_only_phrase_gives_one_word_of_the_head_class() {
    let g = grammar(
        vec![
            word("Ý", "Italy", proper(true, false)),
            word("Sài Gòn", "Saigon", proper(false, true)),
            word("đi", "go", Class::Verb(Verb {})),
        ],
        "HEAD",
        "",
    );
    for seed in 0..20 {
        let mut rng = StdRng::seed_from_u64(seed);
        let subject = vec!["SUBJECT".to_string()];
        let ws = NounPhrase::generate(&g, &mut rng, &subject).unwrap();
        assert_eq!(contents(&ws), vec!["Ý"]);
        assert!(ws[0].class().matches(&proper(true, false)));
        let object = vec!["OBJECT".to_string()];
        let ws = NounPhrase::generate(&g, &mut rng, &object).unwrap();
        assert_eq!(contents(&ws), vec!["Sài Gòn"]);
    }
}

#[test]
fn head_without_a_role_finds_no_proper_noun() {
    let g = grammar(vec![word("Ý", "Italy", proper(true, true))], "HEAD", "");
    let mut rng = StdRng::seed_from_u64(3);
    let r = NounPhrase::generate(&g, &mut rng, &Vec::new());
    assert!(matches!(r, Err(GrammarError::NoMatch)));
}

#[test]
fn classifier_is_drawn_once_and_placed_in_order() {
    let g = grammar(
        vec![
            word("chiếc", "(for sets)", Class::ClassifierNoun(ClassifierNoun {})),
            word("Ý", "Italy", proper(true, false)),
            word("này", "this", Class::Demonstrative(Demonstrative {})),
        ],
        "CLASSIFIER + HEAD + DEMONSTRATIVE + classifier",
        "",
    );
    let mut rng = StdRng::seed_from_u64(11);
    let subject = vec!["SUBJECT".to_string()];
    let ws = NounPhrase::generate(&g, &mut rng, &subject).unwrap();
    assert_eq!(contents(&ws), vec!["chiếc", "Ý", "này", "chiếc"]);
}

#[test]
fn missing_classifier_fails_before_any_slot() {
    let g = grammar(vec![word("Ý", "Italy", proper(true, false))], "HEAD + BOGUS + CLASSIFIER", "");
    let mut rng = StdRng::seed_from_u64(5);
    let subject = vec!["SUBJECT".to_string()];
    let r = NounPhrase::generate(&g, &mut rng, &subject);
    assert!(matches!(r, Err(GrammarError::NoMatch)));
}

#[test]
fn bogus_token_in_noun_phrase_is_unrecognized() {
    let g = grammar(vec![word("Ý", "Italy", proper(true, false))], "HEAD + BOGUS", "");
    let mut rng = StdRng::seed_from_u64(5);
    let subject = vec!["SUBJECT".to_string()];
    let r = NounPhrase::generate(&g, &mut rng, &subject);
    assert!(matches!(r, Err(GrammarError::UnrecognizedToken)));
}

#[test]
fn noun_phrase_without_structures_is_no_structure() {
    let g = grammar(vec![word("Ý", "Italy", proper(true, false))], "# none\n", "");
    let mut rng = StdRng::seed_from_u64(5);
    let r = NounPhrase::generate(&g, &mut rng, &Vec::new());
    assert!(matches!(r, Err(GrammarError::NoStructure)));
}

#[test]
fn verb_phrase_places_the_object_after_the_verb() {
    let g = grammar(
        vec![
            word("Ý", "Italy", proper(true, false)),
            word("Sài Gòn", "Saigon", proper(false, true)),
            word("thăm", "visit", Class::Verb(Verb {})),
        ],
        "HEAD",
        "VERB + NOUN",
    );
    for seed in 0..10 {
        let mut rng = StdRng::seed_from_u64(seed);
        let ws = VerbPhrase::generate(&g, &mut rng, &Vec::new()).unwrap();
        assert_eq!(contents(&ws), vec!["thăm", "Sài Gòn"]);
    }
}

#[test]
fn verb_phrase_without_verbs_is_no_match() {
    let g = grammar(vec![word("Ý", "Italy", proper(true, true))], "HEAD", "VERB");
    let mut rng = StdRng::seed_from_u64(2);
    let r = VerbPhrase::generate(&g, &mut rng, &Vec::new());
    assert!(matches!(r, Err(GrammarError::NoMatch)));
}

#[test]
fn default_words_expands_the_given_structure() {
    let g = grammar(
        vec![
            word("đi", "go", Class::Verb(Verb {})),
            word("Ý", "Italy", proper(false, true)),
        ],
        "HEAD",
        "",
    );
    let mut rng = StdRng::seed_from_u64(8);
    let structure = vec!["VERB".to_string(), "noun".to_string(), "verb".to_string()];
    let ws = VerbPhrase::default_words(&g, &mut rng, &structure, &Vec::new()).unwrap();
    assert_eq!(contents(&ws), vec!["đi", "Ý", "đi"]);
    let structure = vec!["VERB".to_string(), "BOGUS".to_string()];
    let r = VerbPhrase::default_words(&g, &mut rng, &structure, &Vec::new());
    assert!(matches!(r, Err(GrammarError::UnrecognizedToken)));
}

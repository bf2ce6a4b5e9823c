//! Noun phrases and verb phrases.
use vstd::prelude::*;
use rand::rngs::StdRng;
use crate::defaults_parser::{parse_structures, strings_view, structures_of, structures_view};
use crate::sources::{NOUN_PHRASES, VERB_PHRASES};
use crate::grammar::{
    classifier_class, head_class, head_class_of, lemma_slots_error,
    lemma_slots_start, lemma_slots_step, needs_classifier, noun_phrase_slot, np_outcome, np_slot,
    np_structure_outcome, np_tokens, outcome_view, verb_phrase_slot, vp_outcome,
    vp_structure_outcome, vp_tokens, with_tag, Grammar, Outcome, Slot,
};
use crate::random::choose_index;
use crate::word::{
    has_match, words_view, ClassifierNoun, Class, Demonstrative, GrammarError, Verb, Word,
    WordView,
};

verus! {

/// A phrase with a noun as its head.
pub struct NounPhrase {}

/// Whether some token of `structure` names a classifier slot.
fn has_classifier_slot(structure: &Vec<String>) -> (r: bool)
    ensures
        r == needs_classifier(strings_view(structure@)),
{
    let ghost s = strings_view(structure@);
    let mut i: usize = 0;
    while i < structure.len()
        invariant
            i <= structure.len(),
            s == strings_view(structure@),
            forall|j: int| 0 <= j < i ==> np_slot(#[trigger] s[j]) != Some(Slot::Classifier),
        decreases structure.len() - i,
    {
        if matches!(noun_phrase_slot(structure[i].as_str()), Some(Slot::Classifier)) {
            assert(np_slot(s[i as int]) == Some(Slot::Classifier));
            return true;
        }
        i = i + 1;
    }
    false
}

impl NounPhrase {
    /// The built-in structures of a noun phrase.
    pub fn allowed_structures() -> (r: Vec<Vec<String>>)
        ensures
            structures_view(r@) == structures_of(NOUN_PHRASES@),
    {
        parse_structures(NOUN_PHRASES)
    }

    /// Expand one noun phrase structure: a classifier is drawn first where
    /// the structure has a classifier slot, then each slot in order gives
    /// one word; `metadata` says whether the head is a subject or an object.
    pub fn default_words(
        grammar: &Grammar,
        rng: &mut StdRng,
        structure: &Vec<String>,
        metadata: &Vec<String>,
    ) -> (r: Result<Vec<Word>, GrammarError>)
        ensures
            np_structure_outcome(
                grammar@,
                strings_view(structure@),
                strings_view(metadata@),
                outcome_view(r),
            ),
    {
        let ghost g = grammar@;
        let ghost s = strings_view(structure@);
        let ghost meta = strings_view(metadata@);
        let needs = has_classifier_slot(structure);
        let classifier: Option<Word> = if needs {
            match Word::random_default(
                &grammar.words,
                rng,
                Class::ClassifierNoun(ClassifierNoun {  }),
            ) {
                Ok(w) => Some(w),
                Err(e) => {
                    return Err(e);
                },
            }
        } else {
            None
        };
        let ghost cl: WordView = match &classifier {
            Some(w) => w@,
            None => WordView { content: Seq::empty(), meaning: Seq::empty(), class: Class::Adjective },
        };
        proof {
            if needs {
                let i = choose|i: int| 0 <= i < g.words.len() && g.words[i] == cl;
                assert(class_matches_at(g.words, i, classifier_class()));
            }
        }
        let head = head_class_of(metadata);
        let ghost tok = np_tokens(g, meta, cl);
        let mut acc: Vec<Word> = Vec::new();
        proof {
            lemma_slots_start(s, tok);
            assert(words_view(acc@) =~= Seq::<WordView>::empty());
        }
        let mut i: usize = 0;
        while i < structure.len()
            invariant
                i <= structure.len(),
                g == grammar@,
                s == strings_view(structure@),
                meta == strings_view(metadata@),
                tok == np_tokens(g, meta, cl),
                head == head_class(meta),
                needs == needs_classifier(s),
                needs ==> has_match(g.words, classifier_class()),
                needs ==> crate::word::is_pick(g.words, classifier_class(), cl),
                needs ==> classifier is Some,
                classifier matches Some(w) ==> w@ == cl,
                crate::grammar::slots_outcome(s.take(i as int), tok, Outcome::Ok(words_view(acc@))),
            decreases structure.len() - i,
        {
            let ghost p = Outcome::Ok(words_view(acc@));
            let t = structure[i].as_str();
            assert(t@ == s[i as int]);
            let w = match noun_phrase_slot(t) {
                Some(Slot::Head) => Word::random_default(&grammar.words, rng, head),
                Some(Slot::Demonstrative) => Word::random_default(
                    &grammar.words,
                    rng,
                    Class::Demonstrative(Demonstrative {  }),
                ),
                Some(Slot::Classifier) => {
                    assert(needs);
                    match &classifier {
                        Some(c) => Ok(c.clone()),
                        None => Err(GrammarError::NoMatch),
                    }
                },
                _ => Err(GrammarError::UnrecognizedToken),
            };
            match w {
                Ok(w) => {
                    proof {
                        lemma_slots_step(s, tok, i as int, p, Outcome::Ok(seq![w@]));
                    }
                    let ghost before = acc@;
                    let ghost wv = w@;
                    acc.push(w);
                    assert(acc@ == before.push(w));
                    assert(words_view(acc@) =~= words_view(before) + seq![wv]);
                },
                Err(e) => {
                    proof {
                        lemma_slots_step(s, tok, i as int, p, Outcome::Err(e));
                        lemma_slots_error(s, tok, i + 1, e);
                        assert(np_tokens(g, meta, cl) == tok);
                    }
                    return Err(e);
                },
            }
            i = i + 1;
        }
        assert(s.take(i as int) == s);
        Ok(acc)
    }

    /// Generate a noun phrase: one of the grammar's noun phrase structures,
    /// drawn uniformly, expanded.
    pub fn generate(grammar: &Grammar, rng: &mut StdRng, metadata: &Vec<String>) -> (r: Result<
        Vec<Word>,
        GrammarError,
    >)
        ensures
            np_outcome(grammar@, strings_view(metadata@), outcome_view(r)),
    {
        match choose_index(rng, grammar.noun_phrases.len()) {
            None => Err(GrammarError::NoStructure),
            Some(j) => {
                let r = NounPhrase::default_words(grammar, rng, &grammar.noun_phrases[j], metadata);
                assert(grammar@.noun_phrases[j as int] == strings_view(grammar.noun_phrases@[j as int]@));
                r
            },
        }
    }
}

/// A phrase with a verb as its head.
pub struct VerbPhrase {}

impl VerbPhrase {
    /// The built-in structures of a verb phrase.
    pub fn allowed_structures() -> (r: Vec<Vec<String>>)
        ensures
            structures_view(r@) == structures_of(VERB_PHRASES@),
    {
        parse_structures(VERB_PHRASES)
    }

    /// Expand one verb phrase structure: each slot in order gives a verb, or
    /// a noun phrase generated as an object.
    pub fn default_words(
        grammar: &Grammar,
        rng: &mut StdRng,
        structure: &Vec<String>,
        metadata: &Vec<String>,
    ) -> (r: Result<Vec<Word>, GrammarError>)
        ensures
            vp_structure_outcome(
                grammar@,
                strings_view(structure@),
                strings_view(metadata@),
                outcome_view(r),
            ),
    {
        let ghost g = grammar@;
        let ghost s = strings_view(structure@);
        let ghost meta = strings_view(metadata@);
        let ghost tok = vp_tokens(g, meta);
        let mut acc: Vec<Word> = Vec::new();
        proof {
            lemma_slots_start(s, tok);
            assert(words_view(acc@) =~= Seq::<WordView>::empty());
        }
        let mut i: usize = 0;
        while i < structure.len()
            invariant
                i <= structure.len(),
                g == grammar@,
                s == strings_view(structure@),
                meta == strings_view(metadata@),
                tok == vp_tokens(g, meta),
                crate::grammar::slots_outcome(s.take(i as int), tok, Outcome::Ok(words_view(acc@))),
            decreases structure.len() - i,
        {
            let ghost p = Outcome::Ok(words_view(acc@));
            let t = structure[i].as_str();
            assert(t@ == s[i as int]);
            let part: Result<Vec<Word>, GrammarError> = match verb_phrase_slot(t) {
                Some(Slot::Verb) => match Word::random_default(
                    &grammar.words,
                    rng,
                    Class::Verb(Verb {  }),
                ) {
                    Ok(w) => {
                        let ghost wv = w@;
                        let v = vec![w];
                        assert(words_view(v@) =~= seq![wv]);
                        Ok(v)
                    },
                    Err(e) => Err(e),
                },
                Some(Slot::Noun) => {
                    let object = with_tag(metadata, "OBJECT");
                    NounPhrase::generate(grammar, rng, &object)
                },
                _ => Err(GrammarError::UnrecognizedToken),
            };
            match part {
                Ok(mut ws) => {
                    proof {
                        lemma_slots_step(s, tok, i as int, p, Outcome::Ok(words_view(ws@)));
                    }
                    let ghost before = acc@;
                    let ghost added = ws@;
                    acc.append(&mut ws);
                    assert(words_view(acc@) =~= words_view(before) + words_view(added));
                },
                Err(e) => {
                    proof {
                        lemma_slots_step(s, tok, i as int, p, Outcome::Err(e));
                        lemma_slots_error(s, tok, i + 1, e);
                    }
                    return Err(e);
                },
            }
            i = i + 1;
        }
        assert(s.take(i as int) == s);
        Ok(acc)
    }

    /// Generate a verb phrase: one of the grammar's verb phrase structures,
    /// drawn uniformly, expanded.
    pub fn generate(grammar: &Grammar, rng: &mut StdRng, metadata: &Vec<String>) -> (r: Result<
        Vec<Word>,
        GrammarError,
    >)
        ensures
            vp_outcome(grammar@, strings_view(metadata@), outcome_view(r)),
    {
        match choose_index(rng, grammar.verb_phrases.len()) {
            None => Err(GrammarError::NoStructure),
            Some(j) => {
                let r = VerbPhrase::default_words(grammar, rng, &grammar.verb_phrases[j], metadata);
                assert(grammar@.verb_phrases[j as int] == strings_view(grammar.verb_phrases@[j as int]@));
                r
            },
        }
    }
}

/// Whether the word at position `i` answers a request for class `c`.
spec fn class_matches_at(words: Seq<WordView>, i: int, c: Class) -> bool {
    crate::word::class_matches(words[i].class, c)
}

} // verus!

//! Whole sentences.
use vstd::prelude::*;
use rand::rngs::StdRng;
use crate::defaults_parser::{parse_structures, strings_view, structures_of, structures_view};
use crate::sources::SENTENCES;
use crate::grammar::{
    lemma_slots_error, lemma_slots_start, lemma_slots_step, outcome_view, sentence_outcome,
    sentence_slot_of, sentence_structure_outcome, sentence_tokens, with_tag, Grammar, Outcome,
    Slot,
};
use crate::phrase::{NounPhrase, VerbPhrase};
use crate::random::choose_index;
use crate::word::{words_view, Class, GrammarError, Verb, Word, WordView};

verus! {

/// A whole grammatical sentence.
#[derive(Debug, Clone, Copy, Default, PartialEq, Eq, Hash, Structural)]
pub struct Sentence {}

impl Sentence {
    /// The built-in structures of a sentence.
    pub fn allowed_structures() -> (r: Vec<Vec<String>>)
        ensures
            structures_view(r@) == structures_of(SENTENCES@),
    {
        parse_structures(SENTENCES)
    }

    /// Expand one sentence structure: each slot in order gives a noun phrase
    /// generated as a subject or an object, a verb phrase, or a verb.
    pub fn default_words(
        grammar: &Grammar,
        rng: &mut StdRng,
        structure: &Vec<String>,
        metadata: &Vec<String>,
    ) -> (r: Result<Vec<Word>, GrammarError>)
        ensures
            sentence_structure_outcome(
                grammar@,
                strings_view(structure@),
                strings_view(metadata@),
                outcome_view(r),
            ),
    {
        let ghost g = grammar@;
        let ghost s = strings_view(structure@);
        let ghost meta = strings_view(metadata@);
        let ghost tok = sentence_tokens(g, meta);
        let mut acc: Vec<Word> = Vec::new();
        proof {
            lemma_slots_start(s, tok);
            assert(words_view(acc@) =~= Seq::<WordView>::empty());
        }
        let mut i: usize = 0;
        while i < structure.len()
            invariant
                i <= structure.len(),
                g == grammar@,
                s == strings_view(structure@),
                meta == strings_view(metadata@),
                tok == sentence_tokens(g, meta),
                crate::grammar::slots_outcome(s.take(i as int), tok, Outcome::Ok(words_view(acc@))),
            decreases structure.len() - i,
        {
            let ghost p = Outcome::Ok(words_view(acc@));
            let t = structure[i].as_str();
            assert(t@ == s[i as int]);
            let part: Result<Vec<Word>, GrammarError> = match sentence_slot_of(t) {
                Some(Slot::Subject) => {
                    let subject = with_tag(metadata, "SUBJECT");
                    NounPhrase::generate(grammar, rng, &subject)
                },
                Some(Slot::Object) => {
                    let object = with_tag(metadata, "OBJECT");
                    NounPhrase::generate(grammar, rng, &object)
                },
                Some(Slot::VerbPhrase) => VerbPhrase::generate(grammar, rng, metadata),
                Some(Slot::Verb) => match Word::random_default(
                    &grammar.words,
                    rng,
                    Class::Verb(Verb {  }),
                ) {
                    Ok(w) => {
                        let ghost wv = w@;
                        let v = vec![w];
                        assert(words_view(v@) =~= seq![wv]);
                        Ok(v)
                    },
                    Err(e) => Err(e),
                },
                _ => Err(GrammarError::UnrecognizedToken),
            };
            match part {
                Ok(mut ws) => {
                    proof {
                        lemma_slots_step(s, tok, i as int, p, Outcome::Ok(words_view(ws@)));
                    }
                    let ghost before = acc@;
                    let ghost added = ws@;
                    acc.append(&mut ws);
                    assert(words_view(acc@) =~= words_view(before) + words_view(added));
                },
                Err(e) => {
                    proof {
                        lemma_slots_step(s, tok, i as int, p, Outcome::Err(e));
                        lemma_slots_error(s, tok, i + 1, e);
                    }
                    return Err(e);
                },
            }
            i = i + 1;
        }
        assert(s.take(i as int) == s);
        Ok(acc)
    }

    /// Generate a sentence: one of the grammar's sentence structures, drawn
    /// uniformly, expanded. Any failure aborts the whole sentence.
    pub fn generate(grammar: &Grammar, rng: &mut StdRng, metadata: &Vec<String>) -> (r: Result<
        Vec<Word>,
        GrammarError,
    >)
        ensures
            sentence_outcome(grammar@, strings_view(metadata@), outcome_view(r)),
    {
        match choose_index(rng, grammar.sentences.len()) {
            None => Err(GrammarError::NoStructure),
            Some(j) => {
                let r = Sentence::default_words(grammar, rng, &grammar.sentences[j], metadata);
                assert(grammar@.sentences[j as int] == strings_view(grammar.sentences@[j as int]@));
                r
            },
        }
    }
}

} // verus!

//! The grammar that sentences are generated from: a lexicon and, for each
//! category, its structures; the slot tokens each category knows; and what a
//! generation may give.
use vstd::prelude::*;
use crate::defaults_parser::{parse_structures, strings_view, structures_of, structures_view};
use crate::sources::{NOUN_PHRASES, SENTENCES, VERB_PHRASES};
use crate::text::chars_of;
use crate::word::{
    default_words_spec, has_match, is_pick, ClassifierNoun, Class, Demonstrative, GrammarError,
    ProperNoun, Verb, Word, WordView,
};

verus! {

/// The lexicon and the structures of each category.
pub struct Grammar {
    /// Every known word.
    pub words: Vec<Word>,
    /// The structures of a noun phrase.
    pub noun_phrases: Vec<Vec<String>>,
    /// The structures of a verb phrase.
    pub verb_phrases: Vec<Vec<String>>,
    /// The structures of a sentence.
    pub sentences: Vec<Vec<String>>,
}

impl Grammar {
    /// The built-in grammar: the built-in lexicon and structure tables.
    pub fn defaults() -> (r: Result<Grammar, GrammarError>)
        ensures
            match r {
                Ok(g) => {
                    &&& default_words_spec() == Outcome::Ok(g@.words)
                    &&& g@.noun_phrases == structures_of(NOUN_PHRASES@)
                    &&& g@.verb_phrases == structures_of(VERB_PHRASES@)
                    &&& g@.sentences == structures_of(SENTENCES@)
                },
                Err(e) => default_words_spec() == Outcome::Err(e),
            },
    {
        match Word::defaults() {
            Ok(words) => Ok(
                Grammar {
                    words,
                    noun_phrases: parse_structures(NOUN_PHRASES),
                    verb_phrases: parse_structures(VERB_PHRASES),
                    sentences: parse_structures(SENTENCES),
                },
            ),
            Err(e) => Err(e),
        }
    }
}

/// A grammar as values: words and token sequences.
pub struct GrammarView {
    pub words: Seq<WordView>,
    pub noun_phrases: Seq<Seq<Seq<char>>>,
    pub verb_phrases: Seq<Seq<Seq<char>>>,
    pub sentences: Seq<Seq<Seq<char>>>,
}

impl View for Grammar {
    type V = GrammarView;

    open spec fn view(&self) -> GrammarView {
        GrammarView {
            words: crate::word::words_view(self.words@),
            noun_phrases: structures_view(self.noun_phrases@),
            verb_phrases: structures_view(self.verb_phrases@),
            sentences: structures_view(self.sentences@),
        }
    }
}

/// The slots that structure tokens name.
#[derive(Debug, Clone, Copy, PartialEq, Eq, Structural)]
pub enum Slot {
    /// The head noun of a noun phrase.
    Head,
    /// The classifier of a noun phrase.
    Classifier,
    /// The demonstrative of a noun phrase.
    Demonstrative,
    /// The verb of a verb phrase or of a sentence.
    Verb,
    /// The object noun phrase of a verb phrase.
    Noun,
    /// The subject noun phrase of a sentence.
    Subject,
    /// The object noun phrase of a sentence.
    Object,
    /// The verb phrase of a sentence.
    VerbPhrase,
}

/// `c` is the letter `u`, or `u`'s lower case where `u` is an upper-case ASCII letter.
pub open spec fn same_letter(c: char, u: char) -> bool {
    c == u || ('A' <= u <= 'Z' && c as u32 == u as u32 + 32)
}

/// Whether the token `t` names `name` (written in upper case), ignoring ASCII case.
pub open spec fn token_is(t: Seq<char>, name: Seq<char>) -> bool {
    t.len() == name.len() && forall|i: int| 0 <= i < t.len() ==> same_letter(t[i], name[i])
}

/// The slot that a token names in a noun phrase.
pub open spec fn np_slot(t: Seq<char>) -> Option<Slot> {
    if token_is(t, "HEAD"@) {
        Some(Slot::Head)
    } else if token_is(t, "CLASSIFIER"@) {
        Some(Slot::Classifier)
    } else if token_is(t, "DEMONSTRATIVE"@) {
        Some(Slot::Demonstrative)
    } else {
        None
    }
}

/// The slot that a token names in a verb phrase.
pub open spec fn vp_slot(t: Seq<char>) -> Option<Slot> {
    if token_is(t, "VERB"@) {
        Some(Slot::Verb)
    } else if token_is(t, "NOUN"@) {
        Some(Slot::Noun)
    } else {
        None
    }
}

/// The slot that a token names in a sentence.
pub open spec fn sentence_slot(t: Seq<char>) -> Option<Slot> {
    if token_is(t, "SUBJECT"@) {
        Some(Slot::Subject)
    } else if token_is(t, "OBJECT"@) {
        Some(Slot::Object)
    } else if token_is(t, "VP"@) {
        Some(Slot::VerbPhrase)
    } else if token_is(t, "VERB"@) {
        Some(Slot::Verb)
    } else {
        None
    }
}

/// Whether the token `t` names `name`, ignoring ASCII case.
pub fn token_names(t: &str, name: &str) -> (r: bool)
    ensures
        r == token_is(t@, name@),
{
    let a = chars_of(t);
    let b = chars_of(name);
    if a.len() != b.len() {
        return false;
    }
    let mut i: usize = 0;
    while i < a.len()
        invariant
            a@ == t@,
            b@ == name@,
            a.len() == b.len(),
            i <= a.len(),
            forall|j: int| 0 <= j < i ==> same_letter(a@[j], b@[j]),
        decreases a.len() - i,
    {
        let c = a[i];
        let u = b[i];
        if !(c == u || ('A' <= u && u <= 'Z' && c as u32 == u as u32 + 32)) {
            return false;
        }
        i = i + 1;
    }
    true
}

/// The slot that `t` names in a noun phrase, if any.
pub fn noun_phrase_slot(t: &str) -> (r: Option<Slot>)
    ensures
        r == np_slot(t@),
{
    if token_names(t, "HEAD") {
        Some(Slot::Head)
    } else if token_names(t, "CLASSIFIER") {
        Some(Slot::Classifier)
    } else if token_names(t, "DEMONSTRATIVE") {
        Some(Slot::Demonstrative)
    } else {
        None
    }
}

/// The slot that `t` names in a verb phrase, if any.
pub fn verb_phrase_slot(t: &str) -> (r: Option<Slot>)
    ensures
        r == vp_slot(t@),
{
    if token_names(t, "VERB") {
        Some(Slot::Verb)
    } else if token_names(t, "NOUN") {
        Some(Slot::Noun)
    } else {
        None
    }
}

/// The slot that `t` names in a sentence, if any.
pub fn sentence_slot_of(t: &str) -> (r: Option<Slot>)
    ensures
        r == sentence_slot(t@),
{
    if token_names(t, "SUBJECT") {
        Some(Slot::Subject)
    } else if token_names(t, "OBJECT") {
        Some(Slot::Object)
    } else if token_names(t, "VP") {
        Some(Slot::VerbPhrase)
    } else if token_names(t, "VERB") {
        Some(Slot::Verb)
    } else {
        None
    }
}

/// The requested class of a head noun under the metadata tags `meta`.
pub open spec fn head_class(meta: Seq<Seq<char>>) -> Class {
    Class::ProperNoun(
        ProperNoun { is_subject: meta.contains("SUBJECT"@), is_object: meta.contains("OBJECT"@) },
    )
}

pub open spec fn classifier_class() -> Class {
    Class::ClassifierNoun(ClassifierNoun {  })
}

pub open spec fn verb_class() -> Class {
    Class::Verb(Verb {  })
}

pub open spec fn demonstrative_class() -> Class {
    Class::Demonstrative(Demonstrative {  })
}

/// A generation result as values.
pub type Outcome = Result<Seq<WordView>, GrammarError>;

/// The values of a generation result.
pub open spec fn outcome_view(r: Result<Vec<Word>, GrammarError>) -> Outcome {
    match r {
        Ok(ws) => Ok(crate::word::words_view(ws@)),
        Err(e) => Err(e),
    }
}

/// The words of `p` followed by those of `x`; the first error otherwise.
pub open spec fn chain(p: Outcome, x: Outcome) -> Outcome {
    match p {
        Err(e) => Err(e),
        Ok(a) => match x {
            Err(e) => Err(e),
            Ok(b) => Ok(a + b),
        },
    }
}

/// A word drawn for class `c`, as a one-word result: `NoMatch` exactly when
/// no word answers.
pub open spec fn leaf_outcome(words: Seq<WordView>, c: Class, r: Outcome) -> bool {
    match r {
        Ok(ws) => ws.len() == 1 && is_pick(words, c, ws[0]),
        Err(e) => e == GrammarError::NoMatch && !has_match(words, c),
    }
}

/// What the slots of `s`, expanded in order, may give, where `tok(t, x)`
/// says what token `t` may give: the concatenation of the expansions, or
/// the error of the first slot that fails, with nothing after it expanded.
pub open spec fn slots_outcome(
    s: Seq<Seq<char>>,
    tok: spec_fn(Seq<char>, Outcome) -> bool,
    r: Outcome,
) -> bool
    decreases s.len(),
{
    if s.len() == 0 {
        r == Outcome::Ok(Seq::empty())
    } else {
        exists|p: Outcome, x: Outcome|
            #![trigger chain(p, x)]
            slots_outcome(s.drop_last(), tok, p) && (p is Ok ==> tok(s.last(), x)) && r == chain(
                p,
                x,
            )
    }
}

/// What each token of a noun phrase may give, with `cl` as its classifier.
pub open spec fn np_tokens(g: GrammarView, meta: Seq<Seq<char>>, cl: WordView) -> spec_fn(
    Seq<char>,
    Outcome,
) -> bool {
    |t: Seq<char>, r: Outcome|
        match np_slot(t) {
            Some(Slot::Head) => leaf_outcome(g.words, head_class(meta), r),
            Some(Slot::Demonstrative) => leaf_outcome(g.words, demonstrative_class(), r),
            Some(Slot::Classifier) => r == Outcome::Ok(seq![cl]),
            _ => r == Outcome::Err(GrammarError::UnrecognizedToken),
        }
}

/// Whether a noun phrase structure has a classifier slot.
pub open spec fn needs_classifier(s: Seq<Seq<char>>) -> bool {
    exists|i: int| 0 <= i < s.len() && np_slot(#[trigger] s[i]) == Some(Slot::Classifier)
}

/// What expanding the noun phrase structure `s` may give: one classifier is
/// drawn first where `s` has a classifier slot (`NoMatch` if none can be),
/// then the slots are expanded in order.
pub open spec fn np_structure_outcome(
    g: GrammarView,
    s: Seq<Seq<char>>,
    meta: Seq<Seq<char>>,
    r: Outcome,
) -> bool {
    if needs_classifier(s) && !has_match(g.words, classifier_class()) {
        r == Outcome::Err(GrammarError::NoMatch)
    } else {
        exists|cl: WordView|
            (needs_classifier(s) ==> is_pick(g.words, classifier_class(), cl)) && slots_outcome(
                s,
                #[trigger] np_tokens(g, meta, cl),
                r,
            )
    }
}

/// What generating a noun phrase may give: `NoStructure` without
/// structures, else what one of them may give.
pub open spec fn np_outcome(g: GrammarView, meta: Seq<Seq<char>>, r: Outcome) -> bool {
    if g.noun_phrases.len() == 0 {
        r == Outcome::Err(GrammarError::NoStructure)
    } else {
        exists|j: int|
            0 <= j < g.noun_phrases.len() && #[trigger] np_structure_outcome(
                g,
                g.noun_phrases[j],
                meta,
                r,
            )
    }
}

/// What each token of a verb phrase may give.
pub open spec fn vp_tokens(g: GrammarView, meta: Seq<Seq<char>>) -> spec_fn(
    Seq<char>,
    Outcome,
) -> bool {
    |t: Seq<char>, r: Outcome|
        match vp_slot(t) {
            Some(Slot::Verb) => leaf_outcome(g.words, verb_class(), r),
            Some(Slot::Noun) => np_outcome(g, meta.push("OBJECT"@), r),
            _ => r == Outcome::Err(GrammarError::UnrecognizedToken),
        }
}

/// What expanding the verb phrase structure `s` may give.
pub open spec fn vp_structure_outcome(
    g: GrammarView,
    s: Seq<Seq<char>>,
    meta: Seq<Seq<char>>,
    r: Outcome,
) -> bool {
    slots_outcome(s, vp_tokens(g, meta), r)
}

/// What generating a verb phrase may give.
pub open spec fn vp_outcome(g: GrammarView, meta: Seq<Seq<char>>, r: Outcome) -> bool {
    if g.verb_phrases.len() == 0 {
        r == Outcome::Err(GrammarError::NoStructure)
    } else {
        exists|j: int|
            0 <= j < g.verb_phrases.len() && #[trigger] vp_structure_outcome(
                g,
                g.verb_phrases[j],
                meta,
                r,
            )
    }
}

/// What each token of a sentence may give.
pub open spec fn sentence_tokens(g: GrammarView, meta: Seq<Seq<char>>) -> spec_fn(
    Seq<char>,
    Outcome,
) -> bool {
    |t: Seq<char>, r: Outcome|
        match sentence_slot(t) {
            Some(Slot::Subject) => np_outcome(g, meta.push("SUBJECT"@), r),
            Some(Slot::Object) => np_outcome(g, meta.push("OBJECT"@), r),
            Some(Slot::VerbPhrase) => vp_outcome(g, meta, r),
            Some(Slot::Verb) => leaf_outcome(g.words, verb_class(), r),
            _ => r == Outcome::Err(GrammarError::UnrecognizedToken),
        }
}

/// What expanding the sentence structure `s` may give.
pub open spec fn sentence_structure_outcome(
    g: GrammarView,
    s: Seq<Seq<char>>,
    meta: Seq<Seq<char>>,
    r: Outcome,
) -> bool {
    slots_outcome(s, sentence_tokens(g, meta), r)
}

/// What generating a sentence may give.
pub open spec fn sentence_outcome(g: GrammarView, meta: Seq<Seq<char>>, r: Outcome) -> bool {
    if g.sentences.len() == 0 {
        r == Outcome::Err(GrammarError::NoStructure)
    } else {
        exists|j: int|
            0 <= j < g.sentences.len() && #[trigger] sentence_structure_outcome(
                g,
                g.sentences[j],
                meta,
                r,
            )
    }
}

/// Whether `tag` is one of the metadata tags `meta`.
pub fn has_tag(meta: &Vec<String>, tag: &str) -> (r: bool)
    ensures
        r == strings_view(meta@).contains(tag@),
{
    let t = String::from_str(tag);
    let mut i: usize = 0;
    while i < meta.len()
        invariant
            i <= meta.len(),
            t@ == tag@,
            forall|j: int| 0 <= j < i ==> meta@[j]@ != tag@,
        decreases meta.len() - i,
    {
        if meta[i] == t {
            assert(strings_view(meta@)[i as int] == tag@);
            return true;
        }
        i = i + 1;
    }
    assert forall|j: int| 0 <= j < strings_view(meta@).len() implies strings_view(meta@)[j]
        != tag@ by {
        assert(strings_view(meta@)[j] == meta@[j]@);
    }
    false
}

/// The metadata tags `meta` with `tag` added at the end.
pub fn with_tag(meta: &Vec<String>, tag: &str) -> (r: Vec<String>)
    ensures
        strings_view(r@) == strings_view(meta@).push(tag@),
{
    let mut r: Vec<String> = Vec::new();
    let mut i: usize = 0;
    while i < meta.len()
        invariant
            i <= meta.len(),
            r.len() == i,
            strings_view(r@) == strings_view(meta@.take(i as int)),
        decreases meta.len() - i,
    {
        let ghost before = r@;
        let c = meta[i].clone();
        assert(c@ == meta@[i as int]@);
        r.push(c);
        assert(r@ == before.push(c));
        assert(meta@.take(i + 1) == meta@.take(i as int).push(meta@[i as int]));
        assert forall|k: int| 0 <= k < i + 1 implies strings_view(r@)[k] == strings_view(
            meta@.take(i + 1),
        )[k] by {
            if k < i {
                assert(strings_view(before)[k] == strings_view(meta@.take(i as int))[k]);
            }
        }
        assert(strings_view(r@) =~= strings_view(meta@.take(i + 1)));
        i = i + 1;
    }
    assert(meta@.take(i as int) == meta@);
    r.push(String::from_str(tag));
    assert(strings_view(r@) =~= strings_view(meta@).push(tag@));
    r
}

/// The class asked of a head noun under the metadata tags `meta`.
pub fn head_class_of(meta: &Vec<String>) -> (r: Class)
    ensures
        r == head_class(strings_view(meta@)),
{
    Class::ProperNoun(
        ProperNoun { is_subject: has_tag(meta, "SUBJECT"), is_object: has_tag(meta, "OBJECT") },
    )
}

/// No slot expanded yet: no word.
pub proof fn lemma_slots_start(
    s: Seq<Seq<char>>,
    tok: spec_fn(Seq<char>, Outcome) -> bool,
)
    ensures
        slots_outcome(s.take(0), tok, Outcome::Ok(Seq::empty())),
{
    assert(s.take(0).len() == 0);
}

/// One more slot expanded.
pub proof fn lemma_slots_step(
    s: Seq<Seq<char>>,
    tok: spec_fn(Seq<char>, Outcome) -> bool,
    i: int,
    p: Outcome,
    x: Outcome,
)
    requires
        0 <= i < s.len(),
        slots_outcome(s.take(i), tok, p),
        p is Ok ==> tok(s[i], x),
    ensures
        slots_outcome(s.take(i + 1), tok, chain(p, x)),
{
    assert(s.take(i + 1).drop_last() == s.take(i));
    assert(s.take(i + 1).last() == s[i]);
}

/// An error stops the expansion: the rest of the slots do not change it.
pub proof fn lemma_slots_error(
    s: Seq<Seq<char>>,
    tok: spec_fn(Seq<char>, Outcome) -> bool,
    i: int,
    e: GrammarError,
)
    requires
        0 <= i <= s.len(),
        slots_outcome(s.take(i), tok, Outcome::Err(e)),
    ensures
        slots_outcome(s, tok, Outcome::Err(e)),
    decreases s.len() - i,
{
    if i < s.len() {
        lemma_slots_step(s, tok, i, Outcome::Err(e), Outcome::Err(e));
        lemma_slots_error(s, tok, i + 1, e);
    } else {
        assert(s.take(i) == s);
    }
}

} // verus!

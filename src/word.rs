use vstd::prelude::*;
use rand::rngs::StdRng;
use crate::random::choose_index;
use crate::defaults_parser::{
    line_description, line_tags, line_word, normalized_lines, parse_str, parse_word_line,
    strings_view,
};
use crate::grammar::{chain, has_tag, Outcome};
use crate::sources::{CLASSIFIERS, DEMONSTRATIVES, PROPER_NOUNS, VERBS};

verus! {

/// Action, occurrence or state of being.
///
/// Tôi **đi**: I go.
#[derive(Debug, Default, Clone, Copy, PartialEq, Eq, Hash, Structural)]
pub struct Verb {}

/// Common noun subclasses.
///
/// **Gái**: Girl.
#[derive(Debug, Clone, Copy, PartialEq, Eq, Hash, Structural)]
pub enum CommonNoun {
    Item,
    Collective,
    /// Or measure.
    Unit,
    Mass,
    Time,
    Abstract,
}

/// Usually names.
///
/// **Ý**: Italy.
#[derive(Debug, Default, Clone, Copy, PartialEq, Eq, Hash, Structural)]
pub struct ProperNoun {
    pub is_subject: bool,
    pub is_object: bool,
}

/// Classify a noun depending on the type of its referent.
///
/// - Ba **chiếc** áo dài: Three (sets of) áo dài.
/// - Bán cho tôi bốn **con** gà: Sell me four chickens.
#[derive(Debug, Default, Clone, Copy, PartialEq, Eq, Hash, Structural)]
pub struct ClassifierNoun {}

/// Noun modifier.
///
/// **Đây** đi chợ, **đấy** có đi không: I'm going to the market, what about you?
#[derive(Debug, Default, Clone, Copy, PartialEq, Eq, Hash, Structural)]
pub struct Demonstrative {}

/// Classification of a word.
#[derive(Debug, Clone, Copy, PartialEq, Eq, Hash, Structural)]
pub enum Class {
    /// **Ý**: Italy.
    ProperNoun(ProperNoun),
    /// **Gái**: Girl.
    CommonNoun(CommonNoun),
    /// Ba **chiếc** áo dài: Three (sets of) áo dài.
    ClassifierNoun(ClassifierNoun),
    /// Tôi **đi**: I go.
    Verb(Verb),
    Adjective,
    Adverb,
    Pronoun,
    Conjunction,
    Interjection,
    Determiner,
    /// Ngày **kia**, ngày **kìa**: On and on into the future.
    Demonstrative(Demonstrative),
}

/// The lookup predicate between a word's class and a requested class.
///
/// Two classes match when they are the same variant, except for proper
/// nouns: those match when both are flagged as subject or both are flagged
/// as object. This is a query rule, not an identity: it is not `==`.
pub open spec fn class_matches(a: Class, b: Class) -> bool {
    match (a, b) {
        (Class::ProperNoun(x), Class::ProperNoun(y)) => (x.is_object && y.is_object) || (
        x.is_subject && y.is_subject),
        (Class::CommonNoun(_), Class::CommonNoun(_)) => true,
        (Class::ClassifierNoun(_), Class::ClassifierNoun(_)) => true,
        (Class::Verb(_), Class::Verb(_)) => true,
        (Class::Adjective, Class::Adjective) => true,
        (Class::Adverb, Class::Adverb) => true,
        (Class::Pronoun, Class::Pronoun) => true,
        (Class::Conjunction, Class::Conjunction) => true,
        (Class::Interjection, Class::Interjection) => true,
        (Class::Determiner, Class::Determiner) => true,
        (Class::Demonstrative(_), Class::Demonstrative(_)) => true,
        _ => false,
    }
}

impl Class {
    /// Whether a word of class `self` answers a request for class `other`.
    pub fn matches(&self, other: &Class) -> (r: bool)
        ensures
            r == class_matches(*self, *other),
    {
        match (self, other) {
            (Class::ProperNoun(x), Class::ProperNoun(y)) => (x.is_object && y.is_object) || (
            x.is_subject && y.is_subject),
            (Class::CommonNoun(_), Class::CommonNoun(_)) => true,
            (Class::ClassifierNoun(_), Class::ClassifierNoun(_)) => true,
            (Class::Verb(_), Class::Verb(_)) => true,
            (Class::Adjective, Class::Adjective) => true,
            (Class::Adverb, Class::Adverb) => true,
            (Class::Pronoun, Class::Pronoun) => true,
            (Class::Conjunction, Class::Conjunction) => true,
            (Class::Interjection, Class::Interjection) => true,
            (Class::Determiner, Class::Determiner) => true,
            (Class::Demonstrative(_), Class::Demonstrative(_)) => true,
            _ => false,
        }
    }
}

/// Whether some word of `words` answers a request for class `c`.
pub open spec fn has_match(words: Seq<WordView>, c: Class) -> bool {
    exists|i: int| 0 <= i < words.len() && class_matches(#[trigger] words[i].class, c)
}

/// Whether `w` is a possible answer to a request for class `c` in `words`.
pub open spec fn is_pick(words: Seq<WordView>, c: Class, w: WordView) -> bool {
    words.contains(w) && class_matches(w.class, c)
}

/// What a request for class `c` in `words` may give: a word of `words` that
/// answers it, or `NoMatch` exactly when there is none.
pub open spec fn pick_outcome(
    words: Seq<WordView>,
    c: Class,
    r: Result<WordView, GrammarError>,
) -> bool {
    match r {
        Ok(w) => is_pick(words, c, w),
        Err(e) => e == GrammarError::NoMatch && !has_match(words, c),
    }
}

/// A single word.
///
/// **Đi**: Go.
#[derive(Debug, PartialEq, Eq, Hash)]
pub struct Word {
    /// The actual word as a string.
    content: String,
    /// Rough translation of the word in English.
    meaning: String,
    /// How this word is classified.
    class: Class,
}

/// What a word is: its text, its gloss and its class.
pub struct WordView {
    pub content: Seq<char>,
    pub meaning: Seq<char>,
    pub class: Class,
}

impl View for Word {
    type V = WordView;

    closed spec fn view(&self) -> WordView {
        WordView { content: self.content@, meaning: self.meaning@, class: self.class }
    }
}

/// The views of a sequence of words.
pub open spec fn words_view(ws: Seq<Word>) -> Seq<WordView> {
    ws.map_values(|w: Word| w@)
}

impl Clone for Word {
    fn clone(&self) -> (r: Self)
        ensures
            r@ == self@,
    {
        Word { content: self.content.clone(), meaning: self.meaning.clone(), class: self.class }
    }
}

impl Word {
    /// A word with its text, its gloss and its class.
    pub fn new(content: String, meaning: String, class: Class) -> (r: Word)
        ensures
            r@ == (WordView { content: content@, meaning: meaning@, class }),
    {
        Word { content, meaning, class }
    }

    /// The text of the word.
    pub fn content(&self) -> (r: &str)
        ensures
            r@ == self@.content,
    {
        self.content.as_str()
    }

    /// The gloss of the word (possibly empty).
    pub fn meaning(&self) -> (r: &str)
        ensures
            r@ == self@.meaning,
    {
        self.meaning.as_str()
    }

    /// The class of the word.
    pub fn class(&self) -> (r: Class)
        ensures
            r == self@.class,
    {
        self.class
    }

    /// The text of the word, as it is displayed.
    pub fn to_string(&self) -> (r: String)
        ensures
            r@ == self@.content,
    {
        self.content.clone()
    }

    /// The positions in `words` of the words that answer a request for
    /// class `class`, in increasing order.
    pub fn matching_indices(words: &Vec<Word>, class: Class) -> (r: Vec<usize>)
        ensures
            forall|k: int|
                0 <= k < r.len() ==> (#[trigger] r@[k]) < words.len() && class_matches(
                    words@[r@[k] as int]@.class,
                    class,
                ),
            forall|k: int, l: int| 0 <= k < l < r.len() ==> r@[k] < r@[l],
            forall|i: int|
                0 <= i < words.len() && class_matches(#[trigger] words@[i]@.class, class) ==> exists|
                    k: int,
                | 0 <= k < r.len() && r@[k] == i,
    {
        let mut r: Vec<usize> = Vec::new();
        let mut i: usize = 0;
        while i < words.len()
            invariant
                i <= words.len(),
                forall|k: int|
                    0 <= k < r.len() ==> (#[trigger] r@[k]) < i && class_matches(
                        words@[r@[k] as int]@.class,
                        class,
                    ),
                forall|k: int, l: int| 0 <= k < l < r.len() ==> r@[k] < r@[l],
                forall|j: int|
                    0 <= j < i && class_matches(#[trigger] words@[j]@.class, class) ==> exists|
                        k: int,
                    | 0 <= k < r.len() && r@[k] == j,
            decreases words.len() - i,
        {
            let ghost before = r@;
            if words[i].class.matches(&class) {
                r.push(i);
            }
            assert forall|j: int|
                0 <= j < i + 1 && class_matches(#[trigger] words@[j]@.class, class) implies exists|
                    k: int,
                | 0 <= k < r.len() && r@[k] == j by {
                if j < i {
                    let k = choose|k: int| 0 <= k < before.len() && before[k] == j;
                    assert(r@[k] == j);
                } else {
                    assert(r@[r.len() - 1] == j);
                }
            }
            i = i + 1;
        }
        r
    }

    /// A word of `words`, drawn uniformly among those that answer a request
    /// for class `class`; `NoMatch` when none does.
    pub fn random_default(words: &Vec<Word>, rng: &mut StdRng, class: Class) -> (r: Result<
        Word,
        GrammarError,
    >)
        ensures
            pick_outcome(
                words_view(words@),
                class,
                match r {
                    Ok(w) => Ok(w@),
                    Err(e) => Err(e),
                },
            ),
    {
        let candidates = Word::matching_indices(words, class);
        match choose_index(rng, candidates.len()) {
            Some(k) => {
                let w = words[candidates[k]].clone();
                assert(words_view(words@)[candidates@[k as int] as int] == w@);
                Ok(w)
            },
            None => {
                assert forall|i: int|
                    0 <= i < words_view(words@).len() implies !class_matches(
                    #[trigger] words_view(words@)[i].class,
                    class,
                ) by {
                    if class_matches(words_view(words@)[i].class, class) {
                        assert(class_matches(words@[i]@.class, class));
                    }
                }
                Err(GrammarError::NoMatch)
            },
        }
    }
}

/// The lexicon sources, each of which gives its words one class.
#[derive(Debug, Clone, Copy, PartialEq, Eq, Structural)]
pub enum WordSource {
    Classifiers,
    /// Its tags `SUBJECT` and `OBJECT` say in which roles a noun may stand.
    ProperNouns,
    Verbs,
    Demonstratives,
}

/// The class that a line of `source` with tags `tags` gives its word.
pub open spec fn source_class(source: WordSource, tags: Seq<Seq<char>>) -> Class {
    match source {
        WordSource::Classifiers => Class::ClassifierNoun(ClassifierNoun {  }),
        WordSource::ProperNouns => Class::ProperNoun(
            ProperNoun { is_subject: tags.contains("SUBJECT"@), is_object: tags.contains("OBJECT"@) },
        ),
        WordSource::Verbs => Class::Verb(Verb {  }),
        WordSource::Demonstratives => Class::Demonstrative(Demonstrative {  }),
    }
}

/// The word of a lexicon line of `source` that has a description.
pub open spec fn entry_of(line: Seq<char>, source: WordSource) -> WordView {
    WordView {
        content: line_word(line),
        meaning: line_description(line).unwrap_or(Seq::empty()),
        class: source_class(source, line_tags(line)),
    }
}

/// The words of a lexicon text: one per normalized line, in order; a line
/// without `:` (and so without a meaning) fails the whole text.
pub open spec fn source_words(data: Seq<char>, source: WordSource) -> Outcome {
    let lines = normalized_lines(data);
    if forall|i: int| 0 <= i < lines.len() ==> (#[trigger] line_description(lines[i])) is Some {
        Outcome::Ok(lines.map_values(|l: Seq<char>| entry_of(l, source)))
    } else {
        Outcome::Err(GrammarError::LineFormat)
    }
}

/// The built-in lexicon: classifiers, proper nouns, verbs and
/// demonstratives, in that order.
pub open spec fn default_words_spec() -> Outcome {
    chain(
        chain(
            chain(
                source_words(CLASSIFIERS@, WordSource::Classifiers),
                source_words(PROPER_NOUNS@, WordSource::ProperNouns),
            ),
            source_words(VERBS@, WordSource::Verbs),
        ),
        source_words(DEMONSTRATIVES@, WordSource::Demonstratives),
    )
}

impl Word {
    /// The words of a lexicon text whose lines read `word (TAGS): meaning`,
    /// each of the class that `source` gives; `LineFormat` where a line
    /// has no `:`.
    pub fn from_source(data: &str, source: WordSource) -> (r: Result<Vec<Word>, GrammarError>)
        ensures
            crate::grammar::outcome_view(r) == source_words(data@, source),
    {
        let lines = parse_str(data);
        let ghost ls = normalized_lines(data@);
        let mut out: Vec<Word> = Vec::new();
        let mut k: usize = 0;
        while k < lines.len()
            invariant
                k <= lines.len(),
                ls == normalized_lines(data@),
                strings_view(lines@) == ls,
                forall|i: int| 0 <= i < k ==> (#[trigger] line_description(ls[i])) is Some,
                words_view(out@) == ls.take(k as int).map_values(|l: Seq<char>| entry_of(l, source)),
            decreases lines.len() - k,
        {
            assert(lines@[k as int]@ == ls[k as int]);
            let (content, tags, description) = parse_word_line(lines[k].as_str());
            let meaning = match description {
                Some(d) => d,
                None => {
                    assert(line_description(ls[k as int]) is None);
                    assert(!(forall|i: int|
                        0 <= i < ls.len() ==> (#[trigger] line_description(ls[i])) is Some));
                    return Err(GrammarError::LineFormat);
                },
            };
            let class = match source {
                WordSource::Classifiers => Class::ClassifierNoun(ClassifierNoun {  }),
                WordSource::ProperNouns => Class::ProperNoun(
                    ProperNoun {
                        is_subject: has_tag(&tags, "SUBJECT"),
                        is_object: has_tag(&tags, "OBJECT"),
                    },
                ),
                WordSource::Verbs => Class::Verb(Verb {  }),
                WordSource::Demonstratives => Class::Demonstrative(Demonstrative {  }),
            };
            let w = Word::new(content, meaning, class);
            let ghost before = out@;
            let ghost wv = w@;
            out.push(w);
            assert(words_view(out@) =~= words_view(before).push(wv));
            assert(ls.take(k + 1).map_values(|l: Seq<char>| entry_of(l, source)) =~= ls.take(
                k as int,
            ).map_values(|l: Seq<char>| entry_of(l, source)).push(entry_of(ls[k as int], source)));
            k = k + 1;
        }
        assert(ls.take(k as int) == ls);
        Ok(out)
    }

    /// The built-in lexicon.
    pub fn defaults() -> (r: Result<Vec<Word>, GrammarError>)
        ensures
            crate::grammar::outcome_view(r) == default_words_spec(),
    {
        let mut words: Vec<Word> = Vec::new();
        assert(words_view(words@) =~= Seq::<WordView>::empty());
        if let Err(e) = load_into(&mut words, CLASSIFIERS, WordSource::Classifiers) {
            return Err(e);
        }
        assert(source_words(CLASSIFIERS@, WordSource::Classifiers) == Outcome::Ok(
            words_view(words@),
        ));
        if let Err(e) = load_into(&mut words, PROPER_NOUNS, WordSource::ProperNouns) {
            return Err(e);
        }
        if let Err(e) = load_into(&mut words, VERBS, WordSource::Verbs) {
            return Err(e);
        }
        if let Err(e) = load_into(&mut words, DEMONSTRATIVES, WordSource::Demonstratives) {
            return Err(e);
        }
        Ok(words)
    }
}

/// Adds the words of a lexicon text to `words`; leaves an error as it is.
fn load_into(words: &mut Vec<Word>, data: &str, source: WordSource) -> (r: Result<(), GrammarError>)
    ensures
        match r {
            Ok(()) => Outcome::Ok(words_view(final(words)@)) == chain(
                Outcome::Ok(words_view(old(words)@)),
                source_words(data@, source),
            ),
            Err(e) => source_words(data@, source) == Outcome::Err(e),
        },
{
    match Word::from_source(data, source) {
        Ok(mut more) => {
            let ghost before = words@;
            let ghost added = more@;
            words.append(&mut more);
            assert(words_view(words@) =~= words_view(before) + words_view(added));
            Ok(())
        },
        Err(e) => Err(e),
    }
}

/// What can go wrong while loading data or generating a sentence.
#[derive(Debug, Clone, Copy, PartialEq, Eq, Structural)]
pub enum GrammarError {
    /// A lexicon line lacks the `:` that introduces its meaning.
    LineFormat,
    /// A category has no structure to choose from.
    NoStructure,
    /// No word of the lexicon answers a requested class.
    NoMatch,
    /// A structure holds a token that its category does not know.
    UnrecognizedToken,
}

} // verus!

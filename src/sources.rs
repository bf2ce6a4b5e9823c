//! The built-in lexicon and structure tables, in the line formats that
//! `defaults_parser` reads.
use vstd::prelude::*;

verus! {

/// Classifier nouns: `word: meaning`.
pub const CLASSIFIERS: &'static str = "# Classifiers, placed before the noun they count
chiếc: (for sets, vehicles and single items of a pair)
con: (for animals)
cái: (for inanimate objects)
quyển: (for books)
";

/// Proper nouns: `word (ROLE + ROLE): meaning`, the roles saying whether the
/// noun may stand as a subject, an object or both.
pub const PROPER_NOUNS: &'static str = "# Names of places and people
Ý (SUBJECT + OBJECT): Italy
Việt Nam (SUBJECT + OBJECT): Vietnam
Hà Nội (SUBJECT + OBJECT): Hanoi
Sài Gòn (OBJECT): Saigon
Lan (SUBJECT): Lan (a given name)
";

/// Verbs: `word: meaning`.
pub const VERBS: &'static str = "# Verbs
đi: go
thích: like
yêu: love
thăm: visit
";

/// Demonstratives: `word: meaning`.
pub const DEMONSTRATIVES: &'static str = "# Demonstratives, placed after the noun
này: this
đó: that
kia: that over there
";

/// The structures of a noun phrase, one per line, slots joined by `+`.
pub const NOUN_PHRASES: &'static str = "# Noun phrases
HEAD
HEAD + DEMONSTRATIVE
";

/// The structures of a verb phrase.
pub const VERB_PHRASES: &'static str = "# Verb phrases
VERB
VERB + NOUN
";

/// The structures of a sentence.
pub const SENTENCES: &'static str = "# Sentences
SUBJECT + VP
";

} // verus!

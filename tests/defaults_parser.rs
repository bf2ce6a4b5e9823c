use tieng_viet::defaults_parser::{parse_str, parse_structures, parse_word_line};
use tieng_viet::word::{GrammarError, Word, WordSource};

#[test]
fn test_lines() {
    let lines = parse_str(
        "\n# A comment\nA line with data\nData + comment # This part should be ignored\n",
    );
    let mut iter = lines.iter().map(|s| s.as_str());
    assert_eq!(iter.next(), Some("A line with data"));
    assert_eq!(iter.next(), Some("Data + comment"));
    assert_eq!(iter.next(), None);
}

#[test]
fn test_word_line() {
    let (word, metadata, description) = parse_word_line("word");
    assert_eq!(word, "word");
    assert!(metadata.is_empty());
    assert!(description.is_none());

    let (word, metadata, description) = parse_word_line("word (METADATA)");
    assert_eq!(word, "word");
    assert_eq!(metadata, vec!["METADATA"]);
    assert!(description.is_none());

    let (word, metadata, description) = parse_word_line("word (METADATA + METADATA2)");
    assert_eq!(word, "word");
    assert_eq!(metadata, vec!["METADATA", "METADATA2"]);
    assert!(description.is_none());

    let (word, metadata, description) = parse_word_line("word (METADATA) : some description");
    assert_eq!(word, "word");
    assert_eq!(metadata, vec!["METADATA"]);
    assert_eq!(description.as_deref(), Some("some description"));
}

#[test]
fn word_line_with_two_tags_and_gloss() {
    let (word, metadata, description) = parse_word_line("word (A + B): gloss");
    assert_eq!(word, "word");
    assert_eq!(metadata, vec!["A", "B"]);
    assert_eq!(description.as_deref(), Some("gloss"));
}

#[test]
fn word_line_keeps_later_colons_in_description() {
    let (word, metadata, description) = parse_word_line("  Hà Nội  ( SUBJECT+OBJECT ) :  a: b ");
    assert_eq!(word, "Hà Nội");
    assert_eq!(metadata, vec!["SUBJECT", "OBJECT"]);
    assert_eq!(description.as_deref(), Some("a: b"));
}

#[test]
fn word_line_empty_description() {
    let (word, metadata, description) = parse_word_line("đi:");
    assert_eq!(word, "đi");
    assert!(metadata.is_empty());
    assert_eq!(description.as_deref(), Some(""));
}

#[test]
fn lines_strip_comments_and_blanks() {
    let lines = parse_str("# c\nA line\nB line # x\n");
    assert_eq!(lines, vec!["A line", "B line"]);
}

#[test]
fn lines_of_empty_and_comment_only_text() {
    assert!(parse_str("").is_empty());
    assert!(parse_str("   \n\t\n# only a comment\n   # another\n").is_empty());
}

#[test]
fn lines_handle_carriage_returns_and_no_final_newline() {
    let lines = parse_str("first\r\n  second  \r\nthird");
    assert_eq!(lines, vec!["first", "second", "third"]);
}

#[test]
fn parsing_twice_gives_the_same_lines() {
    let text = "# c\nA line\n\nB line # x\n  C  \n";
    assert_eq!(parse_str(text), parse_str(text));
    assert_eq!(parse_word_line("w (A + B): d"), parse_word_line("w (A + B): d"));
}

#[test]
fn structures_split_on_plus() {
    let structures = parse_structures("# noun phrases\nHEAD\n CLASSIFIER +HEAD+ DEMONSTRATIVE \n");
    assert_eq!(structures.len(), 2);
    assert_eq!(structures[0], vec!["HEAD"]);
    assert_eq!(structures[1], vec!["CLASSIFIER", "HEAD", "DEMONSTRATIVE"]);
    for s in &structures {
        assert!(!s.is_empty());
    }
}

#[test]
fn structures_of_comment_only_text_are_none() {
    assert!(parse_structures("# nothing here\n\n").is_empty());
}

#[test]
fn lexicon_line_without_colon_is_a_format_error() {
    let r = Word::from_source("đi: go\năn eat\n", WordSource::Verbs);
    assert!(matches!(r, Err(GrammarError::LineFormat)));
}

#[test]
fn lexicon_source_gives_words_in_order() {
    let words = Word::from_source(
        "# names\nÝ (SUBJECT): Italy\nSài Gòn (OBJECT + SUBJECT): Saigon\nLan: a name\n",
        WordSource::ProperNouns,
    )
    .unwrap();
    assert_eq!(words.len(), 3);
    assert_eq!(words[0].content(), "Ý");
    assert_eq!(words[0].meaning(), "Italy");
    assert_eq!(
        words[0].class(),
        tieng_viet::word::Class::ProperNoun(tieng_viet::word::ProperNoun {
            is_subject: true,
            is_object: false
        })
    );
    assert_eq!(words[1].content(), "Sài Gòn");
    assert_eq!(
        words[1].class(),
        tieng_viet::word::Class::ProperNoun(tieng_viet::word::ProperNoun {
            is_subject: true,
            is_object: true
        })
    );
    assert_eq!(words[2].to_string(), "Lan");
    assert_eq!(
        words[2].class(),
        tieng_viet::word::Class::ProperNoun(tieng_viet::word::ProperNoun {
            is_subject: false,
            is_object: false
        })
    );
}

#[test]
fn lines_trim_unicode_whitespace() {
    let lines = parse_str("\u{3000}A line\u{a0}\n\u{2003}\n");
    assert_eq!(lines, vec!["A line"]);
}

//! Laws of the library that relate several of its functions.
use vstd::prelude::*;
use crate::defaults_parser::{
    line_description, line_tags, line_word, normalized_lines, structure_tokens, structures_of,
};
use crate::grammar::{
    chain, head_class, leaf_outcome, np_outcome, np_slot, np_structure_outcome,
    np_tokens, needs_classifier, sentence_outcome, sentence_slot, sentence_structure_outcome,
    sentence_tokens, slots_outcome, token_is, GrammarView, Outcome, Slot,
};
use crate::text::{
    is_white, lemma_find, lemma_split_on_extend, lemma_split_on_none, lemma_split_on_nonempty,
    lemma_split_on_sep, lemma_trim_padded, split_on, strip_closing, trim, trimmed,
};
use crate::word::{class_matches, has_match, is_pick, pick_outcome, Class, GrammarError, WordView};

verus! {

/// Parsing has no hidden state: the same text gives the same normalized
/// lines, the same structures and the same parts of a lexicon line.
pub proof fn lemma_parsing_repeatable(a: Seq<char>, b: Seq<char>)
    requires
        a == b,
    ensures
        normalized_lines(a) == normalized_lines(b),
        structures_of(a) == structures_of(b),
        line_word(a) == line_word(b),
        line_tags(a) == line_tags(b),
        line_description(a) == line_description(b),
{
}

/// The lexicon line `w (a + b): d`.
pub open spec fn word_line(w: Seq<char>, a: Seq<char>, b: Seq<char>, d: Seq<char>) -> Seq<char> {
    w + seq![' ', '('] + a + seq![' ', '+', ' '] + b + seq![')', ':', ' '] + d
}

/// A lexicon line `w (a + b): d` gives back its word `w`, its tags `a` and
/// `b` and its description `d`, where the parts have no whitespace at their
/// ends, hold no `:`, the word holds no `(`, the tags no `+`, and the last
/// tag is not empty and does not end in `)`.
pub proof fn lemma_word_line_parts(w: Seq<char>, a: Seq<char>, b: Seq<char>, d: Seq<char>)
    requires
        trimmed(w),
        trimmed(a),
        trimmed(b),
        trimmed(d),
        !w.contains(':') && !a.contains(':') && !b.contains(':'),
        !w.contains('('),
        !a.contains('+') && !b.contains('+'),
        b.len() > 0 && b.last() != ')',
    ensures
        line_word(word_line(w, a, b, d)) == w,
        line_tags(word_line(w, a, b, d)) == seq![a, b],
        line_description(word_line(w, a, b, d)) == Some(d),
{
    let line = word_line(w, a, b, d);
    let m2 = a + seq![' ', '+', ' '] + b;
    let m = m2 + seq![')'];
    let head = w + seq![' ', '('] + m;
    assert(line =~= head + seq![':', ' '] + d);
    // The first `:` closes the head.
    assert forall|j: int| 0 <= j < head.len() implies line[j] != ':' by {
        assert(line[j] == head[j]);
        if j < w.len() {
            assert(head[j] == w[j]);
        } else if j >= w.len() + 2 && j < w.len() + 2 + a.len() {
            assert(head[j] == a[j - w.len() - 2]);
        } else if j >= w.len() + 5 + a.len() && j < w.len() + 5 + a.len() + b.len() {
            assert(head[j] == b[j - w.len() - 5 - a.len()]);
        }
    }
    lemma_find(line, ':', head.len() as int);
    assert(line.take(head.len() as int) =~= head);
    // The first `(` ends the word.
    assert forall|j: int| 0 <= j < w.len() + 1 implies head[j] != '(' by {
        if j < w.len() {
            assert(head[j] == w[j]);
        }
    }
    lemma_find(head, '(', w.len() + 1 as int);
    assert(head.take(w.len() + 1 as int) =~= w + seq![' ']);
    lemma_trim_padded(w);
    // The tags.
    assert(head.skip(w.len() + 2 as int) =~= m);
    assert(m.drop_last() =~= m2);
    assert(m2.last() == b.last());
    assert(is_white(' '));
    assert(strip_closing(m2) == m2);
    assert(strip_closing(m) == strip_closing(m2));
    let a1 = a + seq![' '];
    let b1 = seq![' '] + b;
    assert(m2 =~= a1.push('+') + b1);
    assert(!a1.contains('+')) by {
        if a1.contains('+') {
            let j = choose|j: int| 0 <= j < a1.len() && a1[j] == '+';
            if j < a.len() {
                assert(a[j] == '+');
            }
        }
    }
    assert(!b1.contains('+')) by {
        if b1.contains('+') {
            let j = choose|j: int| 0 <= j < b1.len() && b1[j] == '+';
            if j > 0 {
                assert(b[j - 1] == '+');
            }
        }
    }
    lemma_split_on_none(a1, '+');
    lemma_split_on_sep(a1, '+');
    lemma_split_on_extend(a1.push('+'), b1, '+');
    assert(Seq::<char>::empty() + b1 =~= b1);
    assert(split_on(m2, '+') =~= seq![a1, b1]);
    lemma_trim_padded(a);
    lemma_trim_padded(b);
    assert(split_on(m2, '+').map_values(|t: Seq<char>| trim(t)) =~= seq![a, b]);
    // The description.
    assert(line.skip(head.len() + 1 as int) =~= seq![' '] + d);
    lemma_trim_padded(d);
}

/// A line that is a bare word gives that word, no tags and no description.
pub proof fn lemma_bare_word_line(w: Seq<char>)
    requires
        trimmed(w),
        !w.contains(':'),
        !w.contains('('),
    ensures
        line_word(w) == w,
        line_tags(w) == Seq::<Seq<char>>::empty(),
        line_description(w) is None,
{
    lemma_find(w, ':', w.len() as int);
    lemma_find(w, '(', w.len() as int);
    assert(w.take(w.len() as int) =~= w);
    lemma_trim_padded(w);
}

/// A text with at least one line left after normalization gives at least
/// one structure, and every structure has at least one token.
pub proof fn lemma_structures_nonempty(data: Seq<char>)
    requires
        normalized_lines(data).len() > 0,
    ensures
        structures_of(data).len() > 0,
        forall|i: int| 0 <= i < structures_of(data).len() ==> (#[trigger] structures_of(data)[i]).len() > 0,
{
    assert forall|i: int| 0 <= i < structures_of(data).len() implies (#[trigger] structures_of(
        data,
    )[i]).len() > 0 by {
        let l = normalized_lines(data)[i];
        lemma_split_on_nonempty(l, '+');
        assert(structures_of(data)[i] == structure_tokens(l));
    }
}

/// Where a single word (up to equal copies) answers a request, drawing for
/// that request gives that word, whatever the random source holds.
pub proof fn lemma_single_match_pick(
    words: Seq<WordView>,
    c: Class,
    i: int,
    r: Result<WordView, GrammarError>,
)
    requires
        0 <= i < words.len(),
        class_matches(words[i].class, c),
        forall|j: int|
            0 <= j < words.len() && class_matches(#[trigger] words[j].class, c) ==> words[j]
                == words[i],
        pick_outcome(words, c, r),
    ensures
        r == Ok::<WordView, GrammarError>(words[i]),
{
    match r {
        Ok(w) => {
            let j = choose|j: int| 0 <= j < words.len() && words[j] == w;
            assert(class_matches(words[j].class, c));
        },
        Err(_) => {
            assert(class_matches(words[i].class, c));
        },
    }
}

/// The one-token structure `HEAD`.
pub open spec fn head_only() -> Seq<Seq<Seq<char>>> {
    seq![seq!["HEAD"@]]
}

/// A noun phrase whose only structure is `HEAD` gives exactly one word, of
/// the head's requested class, whenever the lexicon has one; `NoMatch`
/// otherwise.
pub proof fn lemma_head_only_phrase(g: GrammarView, meta: Seq<Seq<char>>, r: Outcome)
    requires
        g.noun_phrases == head_only(),
        np_outcome(g, meta, r),
    ensures
        r is Ok <==> has_match(g.words, head_class(meta)),
        r matches Ok(ws) ==> ws.len() == 1 && is_pick(g.words, head_class(meta), ws[0]),
        r matches Err(e) ==> e == GrammarError::NoMatch,
{
    let s = seq!["HEAD"@];
    assert(g.noun_phrases[0] == s);
    let j = choose|j: int| 0 <= j < g.noun_phrases.len() && #[trigger] np_structure_outcome(
        g,
        g.noun_phrases[j],
        meta,
        r,
    );
    assert(j == 0);
    assert(token_is("HEAD"@, "HEAD"@));
    assert(np_slot(s[0]) == Some(Slot::Head));
    assert(!needs_classifier(s));
    let cl = choose|cl: WordView|
        (needs_classifier(s) ==> is_pick(g.words, crate::grammar::classifier_class(), cl))
            && slots_outcome(s, #[trigger] np_tokens(g, meta, cl), r);
    let tok = np_tokens(g, meta, cl);
    let (p, x) = choose|p: Outcome, x: Outcome|
        #![trigger chain(p, x)]
        slots_outcome(s.drop_last(), tok, p) && (p is Ok ==> tok(s.last(), x)) && r == chain(p, x);
    assert(s.drop_last().len() == 0);
    assert(p == Outcome::Ok(Seq::empty()));
    assert(leaf_outcome(g.words, head_class(meta), x));
    match x {
        Ok(ws) => {
            assert(Seq::<WordView>::empty() + ws == ws);
            let i = choose|i: int| 0 <= i < g.words.len() && g.words[i] == ws[0];
            assert(class_matches(g.words[i].class, head_class(meta)));
        },
        Err(e) => {},
    }
}

/// A subject slot followed by an object slot, where a single proper noun
/// may be a subject and a single one an object: the subject word comes
/// first and the object word second, never the other way round.
pub proof fn lemma_subject_before_object(g: GrammarView, a: int, b: int, r: Outcome)
    requires
        g.sentences == seq![seq!["SUBJECT"@, "OBJECT"@]],
        g.noun_phrases == head_only(),
        0 <= a < g.words.len(),
        0 <= b < g.words.len(),
        forall|j: int|
            0 <= j < g.words.len() ==> (#[trigger] g.words[j].class matches Class::ProperNoun(p)
                && p.is_subject ==> g.words[j] == g.words[a]),
        forall|j: int|
            0 <= j < g.words.len() ==> (#[trigger] g.words[j].class matches Class::ProperNoun(p)
                && p.is_object ==> g.words[j] == g.words[b]),
        g.words[a].class matches Class::ProperNoun(p) && p.is_subject,
        g.words[b].class matches Class::ProperNoun(p) && p.is_object,
        sentence_outcome(g, Seq::empty(), r),
    ensures
        r == Outcome::Ok(seq![g.words[a], g.words[b]]),
{
    reveal_strlit("SUBJECT");
    reveal_strlit("OBJECT");
    let s = seq!["SUBJECT"@, "OBJECT"@];
    let meta = Seq::<Seq<char>>::empty();
    let subject = meta.push("SUBJECT"@);
    let object = meta.push("OBJECT"@);
    assert(g.sentences[0] == s);
    let j = choose|j: int| 0 <= j < g.sentences.len() && #[trigger] sentence_structure_outcome(
        g,
        g.sentences[j],
        meta,
        r,
    );
    assert(j == 0);
    let tok = sentence_tokens(g, meta);
    assert(sentence_slot(s[0]) == Some(Slot::Subject));
    assert(!token_is("OBJECT"@, "SUBJECT"@));
    assert(sentence_slot(s[1]) == Some(Slot::Object));
    // The subject's request matches the subject word alone.
    assert(subject[0] == "SUBJECT"@);
    assert(subject.contains("SUBJECT"@));
    assert(!subject.contains("OBJECT"@));
    assert(object[0] == "OBJECT"@);
    assert(object.contains("OBJECT"@));
    assert(!object.contains("SUBJECT"@));
    assert forall|k: int|
        0 <= k < g.words.len() && class_matches(
            #[trigger] g.words[k].class,
            head_class(subject),
        ) implies g.words[k] == g.words[a] by {}
    assert forall|k: int|
        0 <= k < g.words.len() && class_matches(
            #[trigger] g.words[k].class,
            head_class(object),
        ) implies g.words[k] == g.words[b] by {}
    assert(class_matches(g.words[a].class, head_class(subject)));
    assert(class_matches(g.words[b].class, head_class(object)));
    // Unfold the two slots.
    let (p, x) = choose|p: Outcome, x: Outcome|
        #![trigger chain(p, x)]
        slots_outcome(s.drop_last(), tok, p) && (p is Ok ==> tok(s.last(), x)) && r == chain(p, x);
    let s1 = s.drop_last();
    assert(s1 == seq!["SUBJECT"@]);
    let (p0, x0) = choose|p0: Outcome, x0: Outcome|
        #![trigger chain(p0, x0)]
        slots_outcome(s1.drop_last(), tok, p0) && (p0 is Ok ==> tok(s1.last(), x0)) && p == chain(
            p0,
            x0,
        );
    assert(s1.drop_last().len() == 0);
    assert(p0 == Outcome::Ok(Seq::empty()));
    assert(np_outcome(g, subject, x0));
    lemma_head_only_phrase(g, subject, x0);
    assert(has_match(g.words, head_class(subject)));
    let ws0 = x0->Ok_0;
    let i0 = choose|i: int| 0 <= i < g.words.len() && g.words[i] == ws0[0];
    assert(class_matches(g.words[i0].class, head_class(subject)));
    assert(ws0 == seq![g.words[a]]);
    assert(Seq::<WordView>::empty() + ws0 == ws0);
    assert(p == Outcome::Ok(seq![g.words[a]]));
    assert(np_outcome(g, object, x));
    lemma_head_only_phrase(g, object, x);
    assert(has_match(g.words, head_class(object)));
    let ws1 = x->Ok_0;
    let i1 = choose|i: int| 0 <= i < g.words.len() && g.words[i] == ws1[0];
    assert(class_matches(g.words[i1].class, head_class(object)));
    assert(ws1 == seq![g.words[b]]);
    assert(seq![g.words[a]] + ws1 == seq![g.words[a], g.words[b]]);
}

} // verus!
